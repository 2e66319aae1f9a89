//! Confidential core of a login-challenge service.
//!
//! A small registry of users, each bound to caller-supplied signing-key
//! bytes, issues single-use numeric challenge codes. Redeeming a valid code
//! with a message
//! yields an Ed25519 signature over the raw message bytes together with the
//! signer's public key, and atomically invalidates the code, so that each
//! code authorizes exactly one signature.

use vstd::prelude::*;

pub mod contract;
pub mod crypto;
pub mod records;
pub mod u256;

pub use contract::Contract;
pub use contract::StateView;
pub use records::Login;
pub use records::User;
pub use u256::U256;

verus! {

/// Why an operation was refused. Every failure leaves the state exactly as
/// it was before the call.
#[derive(Clone, Copy, Debug, PartialEq, Eq, Structural)]
pub enum Error {
    /// Challenge issuance named a user id that no registered user carries.
    UserNotFound,
    /// Redemption named a code that no challenge record carries.
    CodeNotFound,
    /// Redemption named a code whose challenge was already redeemed.
    CodeAlreadyUsed,
    /// The stored private key does not have the 32-byte length the
    /// signature scheme requires.
    MalformedKeyMaterial,
}

} // verus!
