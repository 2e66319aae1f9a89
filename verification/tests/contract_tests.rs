use enable::{Contract, Error, Login, U256, User};

use ed25519_dalek::{Signature, Signer, SigningKey, Verifier, VerifyingKey};

fn sk(fill: u8) -> Vec<u8> {
    vec![fill; 32]
}

fn expected_pubkey(secret: &[u8]) -> Vec<u8> {
    let bytes: [u8; 32] = secret.try_into().unwrap();
    SigningKey::from_bytes(&bytes)
        .verifying_key()
        .to_bytes()
        .to_vec()
}

fn signature_checks_out(public_key: &[u8], message: &[u8], signature: &[u8]) -> bool {
    let pk_bytes: [u8; 32] = public_key.try_into().unwrap();
    let sig_bytes: [u8; 64] = signature.try_into().unwrap();
    let vk = VerifyingKey::from_bytes(&pk_bytes).unwrap();
    vk.verify(message, &Signature::from_bytes(&sig_bytes)).is_ok()
}

#[test]
fn add_user_appends_one_record() {
    let mut c = Contract::new();
    assert_eq!(c.get_users().len(), 0);
    c.add_user("alice".to_string(), sk(1));
    assert_eq!(c.get_users().len(), 1);
    assert_eq!(c.get_users()[0].user_id, "alice");
    assert_eq!(c.get_users()[0].private_key, sk(1));
    // duplicates and short keys are accepted at registration time
    c.add_user("alice".to_string(), vec![2u8; 5]);
    assert_eq!(c.get_users().len(), 2);
    assert_eq!(c.get_logins().len(), 0);
}

#[test]
fn add_login_unknown_user_changes_nothing() {
    let mut c = Contract::new();
    c.add_user("alice".to_string(), sk(1));
    let r = c.add_login("bob".to_string(), U256::from_u64(42));
    assert_eq!(r, Err(Error::UserNotFound));
    assert_eq!(c.get_logins().len(), 0);
    assert_eq!(c.get_users().len(), 1);
}

#[test]
fn add_login_appends_one_valid_record() {
    let mut c = Contract::new();
    c.add_user("alice".to_string(), sk(1));
    let r = c.add_login("alice".to_string(), U256::from_u64(42));
    assert_eq!(r, Ok(()));
    assert_eq!(c.get_logins().len(), 1);
    let login = &c.get_logins()[0];
    assert_eq!(login.user_id, "alice");
    assert_eq!(login.code, U256::from_u64(42));
    assert!(login.valid);
}

#[test]
fn sign_message_unknown_code_changes_nothing() {
    let mut c = Contract::new();
    c.add_user("alice".to_string(), sk(1));
    c.add_login("alice".to_string(), U256::from_u64(42)).unwrap();
    let r = c.sign_message(U256::from_u64(43), "hello".to_string());
    assert_eq!(r, Err(Error::CodeNotFound));
    assert_eq!(c.get_users().len(), 1);
    assert_eq!(c.get_logins().len(), 1);
    assert!(c.get_logins()[0].valid);
}

#[test]
fn sign_message_used_code_changes_nothing() {
    let mut c = Contract::new();
    c.add_user("alice".to_string(), sk(1));
    c.add_login("alice".to_string(), U256::from_u64(42)).unwrap();
    c.sign_message(U256::from_u64(42), "hello".to_string()).unwrap();
    assert!(!c.get_logins()[0].valid);
    let r = c.sign_message(U256::from_u64(42), "hello".to_string());
    assert_eq!(r, Err(Error::CodeAlreadyUsed));
    assert_eq!(c.get_logins().len(), 1);
    assert!(!c.get_logins()[0].valid);
    assert_eq!(c.get_users().len(), 1);
}

#[test]
fn sign_message_flips_exactly_one_record() {
    let mut c = Contract::new();
    c.add_user("alice".to_string(), sk(1));
    c.add_user("bob".to_string(), sk(2));
    c.add_login("alice".to_string(), U256::from_u64(42)).unwrap();
    c.add_login("bob".to_string(), U256::from_u64(43)).unwrap();
    let (signature, public_key) =
        c.sign_message(U256::from_u64(42), "hello".to_string()).unwrap();
    assert!(!c.get_logins()[0].valid);
    assert!(c.get_logins()[1].valid);
    assert_eq!(public_key, expected_pubkey(&sk(1)));
    assert!(signature_checks_out(&public_key, b"hello", &signature));
    let r = c.sign_message(U256::from_u64(42), "hello".to_string());
    assert_eq!(r, Err(Error::CodeAlreadyUsed));
}

#[test]
fn duplicate_codes_first_record_wins() {
    let mut c = Contract::new();
    c.add_user("alice".to_string(), sk(1));
    c.add_login("alice".to_string(), U256::from_u64(42)).unwrap();
    c.add_login("alice".to_string(), U256::from_u64(42)).unwrap();
    c.sign_message(U256::from_u64(42), "hello".to_string()).unwrap();
    assert!(!c.get_logins()[0].valid);
    assert!(c.get_logins()[1].valid);
    // the first record is now spent, so the code as a whole is spent
    let r = c.sign_message(U256::from_u64(42), "hello".to_string());
    assert_eq!(r, Err(Error::CodeAlreadyUsed));
}

#[test]
fn sign_message_rejects_malformed_key() {
    let mut c = Contract::new();
    c.add_user("alice".to_string(), vec![1u8; 31]);
    c.add_login("alice".to_string(), U256::from_u64(42)).unwrap();
    let r = c.sign_message(U256::from_u64(42), "hello".to_string());
    assert_eq!(r, Err(Error::MalformedKeyMaterial));
    // the failed attempt did not spend the challenge
    assert!(c.get_logins()[0].valid);
    let r2 = c.sign_message(U256::from_u64(42), "hello".to_string());
    assert_eq!(r2, Err(Error::MalformedKeyMaterial));
}

#[test]
fn end_to_end_redeem_once() {
    let mut c = Contract::new();
    let secret = sk(7);
    let pk = expected_pubkey(&secret);
    c.add_user("alice".to_string(), secret);
    c.add_login("alice".to_string(), U256::from_u64(42)).unwrap();
    let (signature, public_key) =
        c.sign_message(U256::from_u64(42), "hello".to_string()).unwrap();
    assert_eq!(public_key, pk);
    assert!(signature_checks_out(&pk, b"hello", &signature));
    // the signature is over exactly the submitted bytes
    assert!(!signature_checks_out(&pk, b"hello!", &signature));
    let again = c.sign_message(U256::from_u64(42), "hello".to_string());
    assert_eq!(again, Err(Error::CodeAlreadyUsed));
}

#[test]
fn duplicate_ids_bind_to_first_registered_key() {
    let mut c = Contract::new();
    c.add_user("alice".to_string(), sk(1));
    c.add_user("alice".to_string(), sk(9));
    c.add_login("alice".to_string(), U256::from_u64(42)).unwrap();
    let (signature, public_key) =
        c.sign_message(U256::from_u64(42), "hello".to_string()).unwrap();
    assert_eq!(public_key, expected_pubkey(&sk(1)));
    assert_ne!(public_key, expected_pubkey(&sk(9)));
    assert!(signature_checks_out(&public_key, b"hello", &signature));
}

#[test]
fn signature_is_not_the_message() {
    let mut c = Contract::new();
    c.add_user("alice".to_string(), sk(1));
    c.add_login("alice".to_string(), U256::from_u64(42)).unwrap();
    let (signature, public_key) =
        c.sign_message(U256::from_u64(42), "hello".to_string()).unwrap();
    assert_eq!(signature.len(), 64);
    assert_eq!(public_key.len(), 32);
    assert_ne!(signature.as_slice(), b"hello".as_slice());
    assert_ne!(public_key, sk(1));
    // deterministic scheme: signing the same message under the same key
    // through the raw primitive gives the same bytes
    let bytes: [u8; 32] = sk(1).as_slice().try_into().unwrap();
    let direct = SigningKey::from_bytes(&bytes).sign(b"hello").to_bytes().to_vec();
    assert_eq!(signature, direct);
}

#[test]
fn from_records_accepts_consistent_state() {
    let users = vec![User { user_id: "alice".to_string(), private_key: sk(1) }];
    let logins = vec![Login {
        user_id: "alice".to_string(),
        code: U256::from_u64(42),
        valid: true,
    }];
    let mut c = Contract::from_records(users, logins).unwrap();
    let r = c.sign_message(U256::from_u64(42), "hello".to_string());
    assert!(r.is_ok());
}

#[test]
fn from_records_rejects_orphan_login() {
    let users = vec![User { user_id: "alice".to_string(), private_key: sk(1) }];
    let logins = vec![Login {
        user_id: "bob".to_string(),
        code: U256::from_u64(42),
        valid: true,
    }];
    assert!(Contract::from_records(users, logins).is_none());
}

#[test]
fn u256_equality_is_by_value() {
    assert_eq!(U256::from_u64(42), U256 { w0: 42, w1: 0, w2: 0, w3: 0 });
    assert_ne!(U256::from_u64(42), U256::from_u64(43));
    assert_ne!(
        U256::from_u64(42),
        U256 { w0: 42, w1: 1, w2: 0, w3: 0 }
    );
}
