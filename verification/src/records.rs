//! The two record kinds the core stores, their mathematical views, and the
//! first-match lookup that both collections share.
//!
//! Both collections are append-only sequences that tolerate duplicates:
//! a lookup always resolves to the first matching record in insertion
//! order, which is observable behavior and is pinned down here by
//! `find_first` and its lemmas.

use vstd::prelude::*;
use crate::u256::U256;

verus! {

/// A registered identity: an opaque id bound to the raw bytes of a signing
/// key. Registration stores whatever bytes the caller supplied; the 32-byte
/// length requirement is only enforced when the key is used to sign.
pub struct User {
    pub user_id: String,
    pub private_key: Vec<u8>,
}

/// The mathematical content of a `User`.
pub struct UserView {
    pub user_id: Seq<char>,
    pub private_key: Seq<u8>,
}

impl View for User {
    type V = UserView;

    open spec fn view(&self) -> UserView {
        UserView { user_id: self.user_id@, private_key: self.private_key@ }
    }
}

/// A login challenge: a single-use code bound to a user id. `valid` is true
/// from issuance until the one successful redemption, and false forever
/// after.
pub struct Login {
    pub user_id: String,
    pub code: U256,
    pub valid: bool,
}

/// The mathematical content of a `Login`.
pub struct LoginView {
    pub user_id: Seq<char>,
    pub code: U256,
    pub valid: bool,
}

impl View for Login {
    type V = LoginView;

    open spec fn view(&self) -> LoginView {
        LoginView { user_id: self.user_id@, code: self.code, valid: self.valid }
    }
}

/// The same challenge with its code spent.
pub open spec fn invalidated(l: LoginView) -> LoginView {
    LoginView { valid: false, ..l }
}

/// Index of the first element satisfying `p`, or `None` if no element does.
pub open spec fn find_first<T>(s: Seq<T>, p: spec_fn(T) -> bool) -> Option<int>
    decreases s.len(),
{
    if s.len() == 0 {
        None
    } else if p(s[0]) {
        Some(0int)
    } else {
        match find_first(s.drop_first(), p) {
            None => None,
            Some(i) => Some(i + 1),
        }
    }
}

/// Index of the first user whose id is `id`.
pub open spec fn find_user(users: Seq<UserView>, id: Seq<char>) -> Option<int> {
    find_first(users, |u: UserView| u.user_id == id)
}

/// Whether some user carries the id `id`.
pub open spec fn user_exists(users: Seq<UserView>, id: Seq<char>) -> bool {
    find_user(users, id) is Some
}

/// Index of the first challenge whose code is `code`, whatever its `valid`
/// flag.
pub open spec fn find_login(logins: Seq<LoginView>, code: U256) -> Option<int> {
    find_first(logins, |l: LoginView| l.code == code)
}

/// What `find_first` returns, spelled out: a found index is in range, its
/// element matches, and nothing before it matches; `None` means nothing
/// matches at all.
pub proof fn lemma_find_first_characterizes<T>(s: Seq<T>, p: spec_fn(T) -> bool)
    ensures
        match find_first(s, p) {
            Some(i) => 0 <= i < s.len() && p(s[i]) && (forall|j: int| 0 <= j < i ==> !p(s[j])),
            None => forall|j: int| 0 <= j < s.len() ==> !p(s[j]),
        },
    decreases s.len(),
{
    if s.len() == 0 {
    } else if p(s[0]) {
    } else {
        lemma_find_first_characterizes(s.drop_first(), p);
        assert(forall|j: int| 0 <= j < s.drop_first().len() ==> s.drop_first()[j] == s[j + 1]);
        match find_first(s.drop_first(), p) {
            Some(i) => {
                assert(s[i + 1] == s.drop_first()[i]);
                assert forall|j: int| 1 <= j < i + 1 implies !p(s[j]) by {
                    assert(!p(s.drop_first()[j - 1]));
                }
            }
            None => {
                assert(forall|j: int| 1 <= j < s.len() ==> s.drop_first()[j - 1] == s[j]);
            }
        }
    }
}

/// The key material a lookup of `id` resolves to: the first matching
/// user's stored private key (empty if no user carries `id`).
pub open spec fn user_key(users: Seq<UserView>, id: Seq<char>) -> Seq<u8> {
    match find_user(users, id) {
        Some(i) => users[i].private_key,
        None => Seq::empty(),
    }
}

/// The mathematical content of a sequence of `User` records.
pub open spec fn user_views(users: Seq<User>) -> Seq<UserView> {
    Seq::new(users.len(), |i: int| users[i]@)
}

/// The mathematical content of a sequence of `Login` records.
pub open spec fn login_views(logins: Seq<Login>) -> Seq<LoginView> {
    Seq::new(logins.len(), |i: int| logins[i]@)
}

/// The converse: an in-range match with no earlier match is exactly what
/// `find_first` returns.
pub proof fn lemma_find_first_of_witness<T>(s: Seq<T>, p: spec_fn(T) -> bool, i: int)
    requires
        0 <= i < s.len(),
        p(s[i]),
        forall|j: int| 0 <= j < i ==> !p(s[j]),
    ensures
        find_first(s, p) == Some(i),
    decreases s.len(),
{
    if i == 0 {
    } else {
        assert(!p(s[0]));
        assert(s.drop_first()[i - 1] == s[i]);
        assert(forall|j: int| 0 <= j < i - 1 ==> s.drop_first()[j] == s[j + 1] && !p(s[j + 1]));
        lemma_find_first_of_witness(s.drop_first(), p, i - 1);
    }
}

/// `lemma_find_first_characterizes`, read through `find_user`.
pub proof fn lemma_find_user_characterizes(users: Seq<UserView>, id: Seq<char>)
    ensures
        match find_user(users, id) {
            Some(i) => 0 <= i < users.len() && users[i].user_id == id && (forall|j: int|
                0 <= j < i ==> users[j].user_id != id),
            None => forall|j: int| 0 <= j < users.len() ==> users[j].user_id != id,
        },
{
    lemma_find_first_characterizes(users, |u: UserView| u.user_id == id);
}

/// `lemma_find_first_of_witness`, read through `find_user`.
pub proof fn lemma_find_user_of_witness(users: Seq<UserView>, id: Seq<char>, i: int)
    requires
        0 <= i < users.len(),
        users[i].user_id == id,
        forall|j: int| 0 <= j < i ==> users[j].user_id != id,
    ensures
        find_user(users, id) == Some(i),
{
    lemma_find_first_of_witness(users, |u: UserView| u.user_id == id, i);
}

/// `lemma_find_first_characterizes`, read through `find_login`.
pub proof fn lemma_find_login_characterizes(logins: Seq<LoginView>, code: U256)
    ensures
        match find_login(logins, code) {
            Some(i) => 0 <= i < logins.len() && logins[i].code == code && (forall|j: int|
                0 <= j < i ==> logins[j].code != code),
            None => forall|j: int| 0 <= j < logins.len() ==> logins[j].code != code,
        },
{
    lemma_find_first_characterizes(logins, |l: LoginView| l.code == code);
}

/// `lemma_find_first_of_witness`, read through `find_login`.
pub proof fn lemma_find_login_of_witness(logins: Seq<LoginView>, code: U256, i: int)
    requires
        0 <= i < logins.len(),
        logins[i].code == code,
        forall|j: int| 0 <= j < i ==> logins[j].code != code,
    ensures
        find_login(logins, code) == Some(i),
{
    lemma_find_first_of_witness(logins, |l: LoginView| l.code == code, i);
}

/// Law: redemption is single-use. Invalidating the challenge that a code
/// resolves to leaves the same code resolving to the same record, now
/// invalid — so once a code has been redeemed, any later redemption of it
/// finds an invalid record and must report `CodeAlreadyUsed`.
pub proof fn lemma_single_use(logins: Seq<LoginView>, code: U256, i: int)
    requires
        find_login(logins, code) == Some(i),
    ensures
        0 <= i < logins.len(),
        find_login(logins.update(i, invalidated(logins[i])), code) == Some(i),
        !logins.update(i, invalidated(logins[i]))[i].valid,
{
    lemma_find_login_characterizes(logins, code);
    let spent = logins.update(i, invalidated(logins[i]));
    assert(spent[i].code == code);
    assert(forall|j: int| 0 <= j < i ==> spent[j] == logins[j]);
    lemma_find_login_of_witness(spent, code, i);
}

/// Law: the first registered user wins. Registering a further user under an
/// id that some user already carries changes neither which record a lookup
/// of that id resolves to nor the key material bound to it.
pub proof fn lemma_first_match_wins(users: Seq<UserView>, id: Seq<char>, u: UserView)
    requires
        user_exists(users, id),
    ensures
        find_user(users.push(u), id) == find_user(users, id),
        user_key(users.push(u), id) == user_key(users, id),
{
    lemma_find_user_characterizes(users, id);
    if let Some(i) = find_user(users, id) {
        assert(users.push(u)[i] == users[i]);
        assert(forall|j: int| 0 <= j < i ==> users.push(u)[j] == users[j]);
        lemma_find_user_of_witness(users.push(u), id, i);
    }
}

} // verus!
