use aes_gcm::aead::Aead;
use aes_gcm::KeyInit;
use ed25519_dalek::Signer;
use hybrid_chain::block::{Transaction, User};
use hybrid_chain::consensus::poa::PoA;
use hybrid_chain::user::UsersList;
use hybrid_chain::utils::{credentials_fit, generate_secure_keypair, KeyError, SigningKey};
use sha2::{Digest, Sha256};

fn derived_key(username: &str, password: &str, salt: &str) -> [u8; 32] {
    let mut out = [0u8; 32];
    argon2::Argon2::default()
        .hash_password_into(format!("{},{}", username, password).as_bytes(), salt.as_bytes(), &mut out)
        .unwrap();
    out
}

fn public_hex(seed: &[u8; 32]) -> String {
    hex::encode(ed25519_dalek::SigningKey::from_bytes(seed).verifying_key().to_bytes())
}

#[test]
fn generate_secure_keypair_derives_everything_from_one_key() {
    let (public_key, sealed, nonce, salt, password_hashed) = generate_secure_keypair("bob", "secret");
    assert_eq!(salt.len(), 22);
    assert!(salt.is_ascii());
    let key = derived_key("bob", "secret", &salt);
    assert_eq!(password_hashed, hex::encode(key));
    assert_eq!(hex::encode(public_key), public_hex(&key));
    let cipher = aes_gcm::Aes256Gcm::new(aes_gcm::Key::<aes_gcm::Aes256Gcm>::from_slice(&key));
    let opened = cipher.decrypt(aes_gcm::Nonce::from_slice(&nonce), sealed.as_ref()).unwrap();
    assert_eq!(opened, key.to_vec());
    assert_eq!(sealed.len(), 48);
}

#[test]
fn user_new_stores_hex_key_material() {
    let u = User::new("alice", "pw", 100, true);
    assert_eq!(u.username, "alice");
    assert_eq!(u.balance, 100);
    assert!(u.is_validator);
    assert_eq!(u.salt.len(), 22);
    let key = derived_key("alice", "pw", &u.salt);
    assert_eq!(u.password, hex::encode(key));
    assert_eq!(u.public_key, public_hex(&key));
    assert_eq!(u.nonce.len(), 24);
    assert_eq!(u.encrypted_private_key.len(), 96);
}

#[test]
fn fresh_users_get_fresh_salts() {
    let a = User::new("same", "same", 0, false);
    let b = User::new("same", "same", 0, false);
    assert_ne!(a.salt, b.salt);
    assert_ne!(a.public_key, b.public_key);
}

#[test]
fn decrypt_private_key_recovers_derived_key() {
    let u = User::new("carol", "hunter2", 5, false);
    assert!(u.check_password("hunter2"));
    let key = u.decrypt_private_key("hunter2").ok().unwrap();
    assert_eq!(key.to_bytes(), derived_key("carol", "hunter2", &u.salt));
    assert!(u.try_decrypt_private_key("hunter2").unwrap().is_ok());
}

#[test]
fn wrong_password_does_not_unlock() {
    let u = User::new("dave", "right", 5, false);
    assert!(!u.check_password("wrong"));
    assert!(u.try_decrypt_private_key("wrong").is_none());
    let mut t = Transaction::new(&u.public_key, "x", 1);
    assert!(u.try_sign_transaction(&mut t, "wrong").is_none());
    assert_eq!(t.signature, "");
}

#[test]
fn corrupt_key_material_does_not_unlock() {
    let mut u = User::new("erin", "pw", 5, false);
    u.nonce = "zz".to_string();
    assert!(!u.check_password("pw"));
    let mut v = User::new("erin", "pw", 5, false);
    v.nonce = "00".to_string();
    assert!(!v.check_password("pw"));
    let mut w = User::new("erin", "pw", 5, false);
    w.salt = "short".to_string();
    assert!(!w.check_password("pw"));
}

#[test]
fn decrypted_key_of_wrong_length_is_an_error() {
    let mut u = User::new("frank", "pw", 5, false);
    let key = derived_key("frank", "pw", &u.salt);
    let nonce = [7u8; 12];
    let cipher = aes_gcm::Aes256Gcm::new(aes_gcm::Key::<aes_gcm::Aes256Gcm>::from_slice(&key));
    let sealed = cipher.encrypt(aes_gcm::Nonce::from_slice(&nonce), [1u8; 16].as_ref()).unwrap();
    u.nonce = hex::encode(nonce);
    u.encrypted_private_key = hex::encode(sealed);
    assert!(u.check_password("pw"));
    assert_eq!(u.decrypt_private_key("pw").err(), Some(KeyError::InvalidKeyLength));
    let mut t = Transaction::new("a", "b", 1);
    assert_eq!(u.sign_transaction(&mut t, "pw"), Err(KeyError::InvalidKeyLength));
    assert_eq!(t.signature, "");
}

#[test]
fn signed_transaction_verifies() {
    let u = User::new("gina", "pw", 50, false);
    let mut t = Transaction::new(&u.public_key, "receiver", 10);
    assert_eq!(u.sign_transaction(&mut t, "pw"), Ok(()));
    assert_eq!(t.signature.len(), 128);
    assert_eq!(t.try_verify_sign(), Some(true));
    assert!(t.verify_sign());
    let key = derived_key("gina", "pw", &u.salt);
    let digest = Sha256::digest(t.message.as_bytes());
    let expected = ed25519_dalek::SigningKey::from_bytes(&key).sign(&digest);
    assert_eq!(t.signature, hex::encode(expected.to_bytes()));
}

#[test]
fn sign_returns_and_stores_signature() {
    let key = SigningKey::from_bytes(&[9u8; 32]);
    let mut t = Transaction::new("a", "b", 3);
    let sig = t.sign(&key);
    assert_eq!(sig, t.signature);
    let digest = Sha256::digest(b"a,b,3");
    let expected = ed25519_dalek::SigningKey::from_bytes(&[9u8; 32]).sign(&digest);
    assert_eq!(sig, hex::encode(expected.to_bytes()));
}

#[test]
fn tampered_transaction_does_not_verify() {
    let u = User::new("hank", "pw", 50, false);
    let mut t = Transaction::new(&u.public_key, "receiver", 10);
    u.sign_transaction(&mut t, "pw").unwrap();
    t.message = format!("{},receiver,1000", u.public_key);
    assert_eq!(t.try_verify_sign(), Some(false));
    assert!(!t.verify_sign());
}

#[test]
fn undecodable_signatures_are_reported() {
    let u = User::new("ivy", "pw", 50, false);
    let mut unsigned = Transaction::new(&u.public_key, "r", 1);
    assert_eq!(unsigned.try_verify_sign(), None);
    let mut bad_sender = Transaction::new("not hex", "r", 1);
    bad_sender.signature = "00".repeat(64);
    assert_eq!(bad_sender.try_verify_sign(), None);
    let mut short_sender = Transaction::new("abcd", "r", 1);
    short_sender.signature = "00".repeat(64);
    assert_eq!(short_sender.try_verify_sign(), None);
}

#[test]
fn verify_balance_compares_with_amount() {
    let mut u = User::new("jack", "pw", 10, false);
    assert!(Transaction::new("a", "b", 10).verify_balance(&u));
    assert!(Transaction::new("a", "b", 0).verify_balance(&u));
    assert!(!Transaction::new("a", "b", 11).verify_balance(&u));
    u.balance = 0;
    assert!(!Transaction::new("a", "b", 1).verify_balance(&u));
}

#[test]
fn add_user_registers_validators_with_the_authority() {
    let mut users = UsersList::new();
    let mut poa = PoA::new();
    users.add_user("v", "pw", 10, true, &mut poa);
    users.add_user("n", "pw", 20, false, &mut poa);
    assert_eq!(users.users.len(), 2);
    assert_eq!(poa.validator_list, vec![users.users[0].public_key.clone()]);
    assert_eq!(users.users[1].username, "n");
    assert_eq!(users.users[1].balance, 20);
    assert!(!users.users[1].is_validator);
}

#[test]
fn user_lines_list_every_user() {
    let mut users = UsersList::new();
    let mut poa = PoA::new();
    users.add_user("v", "pw", 10, true, &mut poa);
    users.add_user("n", "pw", 20, false, &mut poa);
    let lines = users.user_lines();
    assert_eq!(lines.len(), 2);
    assert_eq!(lines[0], format!("username: v,public key: {},balance: 10, is validator: true", users.users[0].public_key));
    assert_eq!(lines[1], format!("username: n,public key: {},balance: 20, is validator: false", users.users[1].public_key));
}

#[test]
fn short_credentials_fit() {
    assert!(credentials_fit("alice", "pw"));
    assert!(credentials_fit("", ""));
}

fn is_lower_hex(s: &str) -> bool {
    s.chars().all(|c| c.is_ascii_digit() || ('a'..='f').contains(&c))
}

#[test]
fn new_user_fields_are_lowercase_hex_of_fixed_lengths() {
    let u = User::new("kate", "pw", 1, false);
    assert_eq!(u.public_key.len(), 64);
    assert_eq!(u.password.len(), 64);
    assert_eq!(u.nonce.len(), 24);
    assert_eq!(u.encrypted_private_key.len(), 96);
    assert!(is_lower_hex(&u.public_key));
    assert!(is_lower_hex(&u.password));
    assert!(is_lower_hex(&u.nonce));
    assert!(is_lower_hex(&u.encrypted_private_key));
    let seed: [u8; 32] = hex::decode(&u.password).unwrap().try_into().unwrap();
    assert_eq!(u.public_key, public_hex(&seed));
}

#[test]
fn validator_list_mirrors_validator_users() {
    let mut users = UsersList::new();
    let mut poa = PoA::new();
    users.add_user("a", "pw", 1, true, &mut poa);
    users.add_user("b", "pw", 1, false, &mut poa);
    users.add_user("c", "pw", 1, true, &mut poa);
    let expected: Vec<String> = users.users.iter().filter(|u| u.is_validator).map(|u| u.public_key.clone()).collect();
    assert_eq!(poa.validator_list, expected);
}
