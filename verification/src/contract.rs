//! The confidential core: the user registry, the challenge store, and the
//! redeem-and-sign operation that couples them under a use-exactly-once
//! guarantee.
//!
//! Every operation works on the in-memory state and either completes, with
//! its whole effect visible, or fails with a typed error and the state
//! exactly as it was. Well-formedness — every issued challenge names a
//! registered user — is established at construction and preserved by every
//! operation, which is what lets redemption treat a missing user as
//! impossible rather than as an error.

use vstd::prelude::*;
use vstd::pervasive::unreached;
use vstd::utf8::encode_utf8;
use crate::Error;
use crate::crypto::{ed25519_pubkey, ed25519_sign, pubkey_of, sig_of};
use crate::records::{
    find_login, find_user, invalidated, lemma_find_login_characterizes,
    lemma_find_login_of_witness, lemma_find_user_characterizes, lemma_find_user_of_witness,
    login_views, user_exists, user_key, user_views, Login, LoginView, User, UserView,
};
use crate::u256::U256;

verus! {

/// The mathematical content of the whole confidential state.
pub struct StateView {
    pub users: Seq<UserView>,
    pub logins: Seq<LoginView>,
}

/// The confidential state: the ordered, append-only user and challenge
/// collections.
pub struct Contract {
    users: Vec<User>,
    logins: Vec<Login>,
}

impl View for Contract {
    type V = StateView;

    closed spec fn view(&self) -> StateView {
        StateView { users: user_views(self.users@), logins: login_views(self.logins@) }
    }
}

impl Contract {
    /// Well-formedness: every issued challenge names a registered user.
    /// Issuance validates the id, and users are never removed, so every
    /// operation preserves this.
    pub open spec fn wf(self) -> bool {
        forall|i: int|
            0 <= i < self@.logins.len() ==> user_exists(
                self@.users,
                (#[trigger] self@.logins[i]).user_id,
            )
    }

    /// The empty state.
    pub fn new() -> (c: Contract)
        ensures
            c.wf(),
            c@.users == Seq::<UserView>::empty(),
            c@.logins == Seq::<LoginView>::empty(),
    {
        let c = Contract { users: Vec::new(), logins: Vec::new() };
        proof {
            assert(c@.users =~= Seq::<UserView>::empty());
            assert(c@.logins =~= Seq::<LoginView>::empty());
        }
        c
    }

    /// The registered users, in insertion order.
    pub fn get_users(&self) -> (r: &Vec<User>)
        ensures
            r@.len() == self@.users.len(),
            forall|i: int| 0 <= i < r@.len() ==> (#[trigger] r@[i])@ == self@.users[i],
    {
        &self.users
    }

    /// The issued challenges, in insertion order.
    pub fn get_logins(&self) -> (r: &Vec<Login>)
        ensures
            r@.len() == self@.logins.len(),
            forall|i: int| 0 <= i < r@.len() ==> (#[trigger] r@[i])@ == self@.logins[i],
    {
        &self.logins
    }

    /// First index in `users` holding `user_id`, or `None`.
    fn find_user_index(users: &Vec<User>, user_id: &String) -> (r: Option<usize>)
        ensures
            match r {
                Some(k) => find_user(user_views(users@), user_id@) == Some(k as int),
                None => find_user(user_views(users@), user_id@) is None,
            },
    {
        let ghost uviews = user_views(users@);
        let mut k: usize = 0;
        while k < users.len()
            invariant
                k <= users.len(),
                uviews == user_views(users@),
                forall|j: int| 0 <= j < k ==> (#[trigger] uviews[j]).user_id != user_id@,
            decreases users.len() - k,
        {
            if users[k].user_id == *user_id {
                proof {
                    lemma_find_user_of_witness(uviews, user_id@, k as int);
                }
                return Some(k);
            }
            k += 1;
        }
        proof {
            lemma_find_user_characterizes(uviews, user_id@);
        }
        None
    }

    /// First index in `logins` holding `code`, or `None`.
    fn find_login_index(logins: &Vec<Login>, code: &U256) -> (r: Option<usize>)
        ensures
            match r {
                Some(k) => find_login(login_views(logins@), *code) == Some(k as int),
                None => find_login(login_views(logins@), *code) is None,
            },
    {
        let ghost lviews = login_views(logins@);
        let mut k: usize = 0;
        while k < logins.len()
            invariant
                k <= logins.len(),
                lviews == login_views(logins@),
                forall|j: int| 0 <= j < k ==> (#[trigger] lviews[j]).code != *code,
            decreases logins.len() - k,
        {
            if logins[k].code == *code {
                proof {
                    lemma_find_login_of_witness(lviews, *code, k as int);
                }
                return Some(k);
            }
            k += 1;
        }
        proof {
            lemma_find_login_characterizes(lviews, *code);
        }
        None
    }

    /// Registers a user: appends the record unconditionally, duplicates and
    /// all. Neither the id nor the key length is validated here; a key of
    /// the wrong length is only rejected when the challenge is redeemed.
    pub fn add_user(&mut self, user_id: String, private_key: Vec<u8>)
        requires
            old(self).wf(),
        ensures
            final(self).wf(),
            final(self)@.users == old(self)@.users.push(
                (UserView { user_id: user_id@, private_key: private_key@ }),
            ),
            final(self)@.users.len() == old(self)@.users.len() + 1,
            final(self)@.logins == old(self)@.logins,
    {
        let ghost pre = self@;
        self.users.push(User { user_id, private_key });
        proof {
            assert(self@.users =~= pre.users.push(
                UserView { user_id: user_id@, private_key: private_key@ },
            ));
            assert(self@.logins =~= pre.logins);
            assert forall|i: int|
                0 <= i < self@.logins.len() implies user_exists(
                self@.users,
                (#[trigger] self@.logins[i]).user_id,
            ) by {
                let id = self@.logins[i].user_id;
                assert(user_exists(pre.users, id));
                lemma_find_user_characterizes(pre.users, id);
                if let Some(k) = find_user(pre.users, id) {
                    assert(forall|j: int| 0 <= j < k ==> self@.users[j] == pre.users[j]);
                    lemma_find_user_of_witness(self@.users, id, k);
                }
            }
        }
    }

    /// Issues a challenge: if some user carries `user_id`, appends a valid
    /// challenge for that id; otherwise reports `UserNotFound` and changes
    /// nothing.
    pub fn add_login(&mut self, user_id: String, code: U256) -> (r: Result<(), Error>)
        requires
            old(self).wf(),
        ensures
            final(self).wf(),
            final(self)@.users == old(self)@.users,
            match r {
                Ok(()) => user_exists(old(self)@.users, user_id@) && final(self)@.logins == old(
                    self,
                )@.logins.push((LoginView { user_id: user_id@, code, valid: true })),
                Err(e) => e == Error::UserNotFound && !user_exists(old(self)@.users, user_id@)
                    && final(self)@ == old(self)@,
            },
    {
        let ghost pre = self@;
        match Self::find_user_index(&self.users, &user_id) {
            Some(_k) => {
                self.logins.push(Login { user_id, code, valid: true });
                proof {
                    assert(self@.users =~= pre.users);
                    assert(self@.logins =~= pre.logins.push(
                        LoginView { user_id: user_id@, code, valid: true },
                    ));
                    assert forall|i: int|
                        0 <= i < self@.logins.len() implies user_exists(
                        self@.users,
                        (#[trigger] self@.logins[i]).user_id,
                    ) by {
                        if i < pre.logins.len() {
                            assert(self@.logins[i] == pre.logins[i]);
                            assert(user_exists(pre.users, pre.logins[i].user_id));
                        } else {
                            assert(self@.logins[i].user_id == user_id@);
                        }
                    }
                }
                Ok(())
            },
            None => Err(Error::UserNotFound),
        }
    }

    /// Redeems a challenge: resolves `code` to the first matching
    /// challenge, enforces single use, signs the raw bytes of `message`
    /// with the owning user's key, and only then invalidates the
    /// challenge. On success the result carries the signature and the
    /// public key derived from the stored private key; on any failure the
    /// state is exactly as it was, so a failed signing attempt never
    /// spends the challenge.
    pub fn sign_message(&mut self, code: U256, message: String) -> (r: Result<
        (Vec<u8>, Vec<u8>),
        Error,
    >)
        requires
            old(self).wf(),
        ensures
            final(self).wf(),
            final(self)@.users == old(self)@.users,
            ({
                let s = old(self)@;
                match find_login(s.logins, code) {
                    None => r == Err::<(Vec<u8>, Vec<u8>), Error>(Error::CodeNotFound)
                        && final(self)@ == s,
                    Some(i) => {
                        let l = s.logins[i];
                        let sk = user_key(s.users, l.user_id);
                        if !l.valid {
                            r == Err::<(Vec<u8>, Vec<u8>), Error>(Error::CodeAlreadyUsed)
                                && final(self)@ == s
                        } else if sk.len() != 32 {
                            r == Err::<(Vec<u8>, Vec<u8>), Error>(Error::MalformedKeyMaterial)
                                && final(self)@ == s
                        } else {
                            &&& r matches Ok(p)
                            &&& p.0@ == sig_of(sk, encode_utf8(message@))
                            &&& p.0@.len() == 64
                            &&& p.1@ == pubkey_of(sk)
                            &&& p.1@.len() == 32
                            &&& final(self)@.logins == s.logins.update(i, invalidated(l))
                        }
                    },
                }
            }),
    {
        let ghost pre = self@;
        let login_idx = match Self::find_login_index(&self.logins, &code) {
            Some(k) => k,
            None => {
                return Err(Error::CodeNotFound);
            },
        };
        proof {
            lemma_find_login_characterizes(pre.logins, code);
        }
        if !self.logins[login_idx].valid {
            return Err(Error::CodeAlreadyUsed);
        }
        // Issuance validated the id and users are never removed, so the
        // owning user is always found.
        let user_idx = match Self::find_user_index(&self.users, &self.logins[login_idx].user_id) {
            Some(k) => k,
            None => {
                proof {
                    assert(user_exists(pre.users, pre.logins[login_idx as int].user_id));
                }
                unreached()
            },
        };
        proof {
            lemma_find_user_characterizes(pre.users, pre.logins[login_idx as int].user_id);
        }
        if self.users[user_idx].private_key.len() != 32 {
            return Err(Error::MalformedKeyMaterial);
        }
        let signature = ed25519_sign(
            self.users[user_idx].private_key.as_slice(),
            message.as_str().as_bytes(),
        );
        let public_key = ed25519_pubkey(self.users[user_idx].private_key.as_slice());
        self.logins[login_idx].valid = false;
        proof {
            let i = login_idx as int;
            assert(self@.users =~= pre.users);
            assert(self@.logins =~= pre.logins.update(i, invalidated(pre.logins[i])));
            assert forall|j: int|
                0 <= j < self@.logins.len() implies user_exists(
                self@.users,
                (#[trigger] self@.logins[j]).user_id,
            ) by {
                assert(self@.logins[j].user_id == pre.logins[j].user_id);
                assert(user_exists(pre.users, pre.logins[j].user_id));
            }
        }
        Ok((signature, public_key))
    }

    /// Rebuilds the state from previously persisted collections: the read
    /// side of the host's read-everything, mutate, write-everything cycle.
    /// The collections are accepted only when every challenge names a
    /// registered user — the well-formedness that issuance guarantees —
    /// and are rejected whole otherwise.
    pub fn from_records(users: Vec<User>, logins: Vec<Login>) -> (r: Option<Contract>)
        ensures
            match r {
                Some(c) => c.wf() && c@.users == user_views(users@) && c@.logins == login_views(
                    logins@,
                ),
                None => exists|i: int|
                    0 <= i < logins@.len() && !user_exists(
                        user_views(users@),
                        (#[trigger] login_views(logins@)[i]).user_id,
                    ),
            },
    {
        let ghost uviews = user_views(users@);
        let ghost lviews = login_views(logins@);
        let mut k: usize = 0;
        while k < logins.len()
            invariant
                k <= logins.len(),
                uviews == user_views(users@),
                lviews == login_views(logins@),
                forall|j: int|
                    0 <= j < k ==> user_exists(uviews, (#[trigger] lviews[j]).user_id),
            decreases logins.len() - k,
        {
            match Self::find_user_index(&users, &logins[k].user_id) {
                Some(_idx) => {},
                None => {
                    proof {
                        assert(!user_exists(uviews, lviews[k as int].user_id));
                    }
                    return None;
                },
            }
            k += 1;
        }
        let c = Contract { users, logins };
        proof {
            assert(c@.users =~= uviews);
            assert(c@.logins =~= lviews);
        }
        Some(c)
    }
}

} // verus!
