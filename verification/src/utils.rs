//! Key material of users, and signing and checking transactions.

use vstd::prelude::*;
use vstd::utf8::*;
use crate::block::{Transaction, TransactionView, User, UserView};
use crate::crypto::{
    aes256gcm_decrypt, aes256gcm_encrypt, aes256gcm_open, aes256gcm_seal, argon2id_derive, argon2id_key,
    bytes_to_array, ed25519_check, ed25519_key_valid, ed25519_public, ed25519_public_key, ed25519_sign,
    ed25519_sign_message, ed25519_verify, random_nonce, random_salt, sha256, sha256_digest,
};
use crate::encoding::{hex_decode_str, hex_decode_text, hex_encode, hex_lower, lemma_hex_roundtrip};
use crate::text::{decimal, push_decimal};

verus! {

/// Why a private key could not be recovered.
#[derive(Debug, Clone, Copy, PartialEq, Eq)]
pub enum KeyError {
    /// The decrypted key is not 32 bytes long.
    InvalidKeyLength,
}

/// An Ed25519 secret key (its 32-byte seed).
pub struct SigningKey {
    bytes: [u8; 32],
}

impl View for SigningKey {
    type V = Seq<u8>;

    closed spec fn view(&self) -> Seq<u8> {
        self.bytes@
    }
}

impl SigningKey {
    /// A key from its 32 bytes.
    pub fn from_bytes(bytes: &[u8; 32]) -> (r: SigningKey)
        ensures
            r@ == bytes@,
    {
        SigningKey { bytes: *bytes }
    }

    /// The key's 32 bytes.
    pub fn to_bytes(&self) -> (r: [u8; 32])
        ensures
            r@ == self@,
    {
        self.bytes
    }

    /// The key is 32 bytes long.
    pub proof fn lemma_len(&self)
        ensures
            self@.len() == 32,
    {
    }
}

/// The text a user's key is derived from: username, a comma, password.
pub open spec fn credential_text(username: Seq<char>, password: Seq<char>) -> Seq<char> {
    username + ","@ + password
}

/// The key derived from a user's name, a password and the user's salt.
pub open spec fn user_key(user: UserView, password: Seq<char>) -> Seq<u8> {
    argon2id_key(encode_utf8(credential_text(user.username, password)), encode_utf8(user.salt))
}

/// The SHA-256 digest of a transaction message (its UTF-8 bytes): what is signed.
pub open spec fn message_digest(message: Seq<char>) -> Seq<u8> {
    sha256_digest(encode_utf8(message))
}

/// The hexadecimal signature of a message under a secret key.
pub open spec fn signature_text(secret: Seq<u8>, message: Seq<char>) -> Seq<char> {
    hex_lower(ed25519_sign(secret, message_digest(message)))
}

impl UserView {
    /// The user's key material is what `User::new` makes for `password`:
    /// a 22-character ASCII salt; the password hash, the public key and the
    /// sealed private key all come from the key derived from the password;
    /// the sealed key opens again under that key.
    pub open spec fn sealed_with(self, password: Seq<char>) -> bool {
        let key = user_key(self, password);
        &&& encode_utf8(credential_text(self.username, password)).len() <= 0xFFFF_FFFF
        &&& self.salt.len() == 22
        &&& is_ascii_chars(self.salt)
        &&& self.password == hex_lower(key)
        &&& ed25519_public_key(key).len() == 32
        &&& self.public_key == hex_lower(ed25519_public_key(key))
        &&& ed25519_key_valid(ed25519_public_key(key))
        &&& hex_decode_text(self.nonce) is Some
        &&& hex_decode_text(self.nonce)->0.len() == 12
        &&& hex_decode_text(self.encrypted_private_key) == Some(
            aes256gcm_seal(key, hex_decode_text(self.nonce)->0, key),
        )
        &&& aes256gcm_open(key, hex_decode_text(self.nonce)->0, aes256gcm_seal(key, hex_decode_text(self.nonce)->0, key))
            == Some(key)
    }

    /// The user is what `User::new` makes from these arguments: the key
    /// material of [`UserView::sealed_with`] for a 32-byte key, with the
    /// 12-byte nonce and the 48-byte sealed key stored as lowercase
    /// hexadecimal text.
    pub open spec fn created_from(self, username: Seq<char>, password: Seq<char>, balance: u64, is_validator: bool) -> bool {
        &&& self.username == username
        &&& self.balance == balance
        &&& self.is_validator == is_validator
        &&& self.sealed_with(password)
        &&& user_key(self, password).len() == 32
        &&& self.nonce == hex_lower(hex_decode_text(self.nonce)->0)
        &&& self.encrypted_private_key == hex_lower(hex_decode_text(self.encrypted_private_key)->0)
        &&& hex_decode_text(self.encrypted_private_key)->0.len() == 48
    }

    /// The inputs on which recovering the private key with `password`
    /// goes through: the derivation's input sizes are in range, the nonce
    /// and the sealed key are hexadecimal, the nonce is 12 bytes, and the
    /// sealed key opens under the derived key.
    pub open spec fn unlockable(self, password: Seq<char>) -> bool {
        &&& encode_utf8(credential_text(self.username, password)).len() <= 0xFFFF_FFFF
        &&& 8 <= encode_utf8(self.salt).len() <= 0xFFFF_FFFF
        &&& hex_decode_text(self.nonce) is Some
        &&& hex_decode_text(self.nonce)->0.len() == 12
        &&& hex_decode_text(self.encrypted_private_key) is Some
        &&& aes256gcm_open(
            user_key(self, password),
            hex_decode_text(self.nonce)->0,
            hex_decode_text(self.encrypted_private_key)->0,
        ) is Some
    }

    /// What opening the sealed key gives, where it opens.
    pub open spec fn unlocked(self, password: Seq<char>) -> Seq<u8> {
        aes256gcm_open(
            user_key(self, password),
            hex_decode_text(self.nonce)->0,
            hex_decode_text(self.encrypted_private_key)->0,
        )->0
    }
}

impl TransactionView {
    /// What checking the signature gives: `None` when the sender is not
    /// hexadecimal for 32 bytes that decompress to a public key, or the
    /// signature is not hexadecimal for 64 bytes; else whether the
    /// signature verifies over the message digest.
    pub open spec fn verify_outcome(self) -> Option<bool> {
        match (hex_decode_text(self.sender), hex_decode_text(self.signature)) {
            (Some(pk), Some(sig)) => if pk.len() == 32 && sig.len() == 64 && ed25519_key_valid(pk) {
                Some(ed25519_verify(pk, message_digest(self.message), sig))
            } else {
                None
            },
            _ => None,
        }
    }

    /// The same transaction with another signature.
    pub open spec fn with_signature(self, signature: Seq<char>) -> TransactionView {
        TransactionView { signature, ..self }
    }
}

/// Key material and its unsealing agree: a user whose material was made
/// for a password can always recover the key with that password, and
/// gets the derived key back.
pub proof fn lemma_sealed_unlockable(user: UserView, password: Seq<char>)
    requires
        user.sealed_with(password),
    ensures
        user.unlockable(password),
        user.unlocked(password) == user_key(user, password),
{
    is_ascii_chars_encode_utf8(user.salt);
}

fn credential_string(username: &str, password: &str) -> (r: String)
    ensures
        r@ == credential_text(username@, password@),
{
    let mut input = String::new();
    input.append(username);
    input.append(",");
    input.append(password);
    proof {
        assert(input@ =~= credential_text(username@, password@));
    }
    input
}

/// Whether the credentials are short enough for the key derivation
/// (at most `0xFFFF_FFFF` bytes for `username,password`).
pub fn credentials_fit(username: &str, password: &str) -> (r: bool)
    ensures
        r == (encode_utf8(credential_text(username@, password@)).len() <= 0xFFFF_FFFF),
{
    let input = credential_string(username, password);
    input.as_str().as_bytes().len() <= 0xFFFF_FFFF
}

/// Derives a key from the credentials and a fresh random salt, and makes
/// from it: the Ed25519 public key, the key sealed under itself with a
/// fresh random nonce, the nonce, the salt, and the key's hexadecimal text.
pub fn generate_secure_keypair(username: &str, password: &str) -> (r: ([u8; 32], Vec<u8>, [u8; 12], String, String))
    requires
        encode_utf8(credential_text(username@, password@)).len() <= 0xFFFF_FFFF,
    ensures
        ({
            let (public_key, sealed, nonce, salt, password_hashed) = r;
            let key = argon2id_key(encode_utf8(credential_text(username@, password@)), encode_utf8(salt@));
            &&& salt@.len() == 22
            &&& is_ascii_chars(salt@)
            &&& key.len() == 32
            &&& public_key@ == ed25519_public_key(key)
            &&& ed25519_key_valid(public_key@)
            &&& sealed@ == aes256gcm_seal(key, nonce@, key)
            &&& sealed@.len() == 48
            &&& aes256gcm_open(key, nonce@, sealed@) == Some(key)
            &&& password_hashed@ == hex_lower(key)
        }),
{
    let input = credential_string(username, password);
    let salt = random_salt();
    proof {
        is_ascii_chars_encode_utf8(salt@);
    }
    let seed = argon2id_derive(input.as_str().as_bytes(), salt.as_str().as_bytes());
    let password_hashed = hex_encode(seed.as_slice());
    let pubkey = ed25519_public(&seed);
    let nonce = random_nonce();
    let chipper_text = aes256gcm_encrypt(&seed, &nonce, seed.as_slice());
    (pubkey, chipper_text, nonce, salt, password_hashed)
}

impl User {
    /// A new user with fresh key material (see [`generate_secure_keypair`]);
    /// keys, nonce and sealed key are stored as hexadecimal text.
    pub fn new(uname: &str, pwd: &str, initial_balance: u64, validator_status: bool) -> (r: Self)
        requires
            encode_utf8(credential_text(uname@, pwd@)).len() <= 0xFFFF_FFFF,
        ensures
            r@.created_from(uname@, pwd@, initial_balance, validator_status),
    {
        let (pubkey, encrypted_private_key, nonce, salt, password_hashed) = generate_secure_keypair(uname, pwd);
        let temp_user = User {
            username: uname.to_string(),
            password: password_hashed,
            public_key: hex_encode(pubkey.as_slice()),
            encrypted_private_key: hex_encode(encrypted_private_key.as_slice()),
            salt,
            nonce: hex_encode(nonce.as_slice()),
            balance: initial_balance,
            is_validator: validator_status,
        };
        proof {
            lemma_hex_roundtrip(nonce@);
            lemma_hex_roundtrip(encrypted_private_key@);
            assert(temp_user@.username == uname@);
        }
        temp_user
    }

    /// Whether recovering the private key with `password` goes through
    /// (see [`UserView::unlockable`]).
    pub fn check_password(&self, password: &str) -> (r: bool)
        ensures
            r == self@.unlockable(password@),
    {
        let input = credential_string(self.username.as_str(), password);
        let input_bytes = input.as_str().as_bytes();
        let salt_bytes = self.salt.as_str().as_bytes();
        if input_bytes.len() > 0xFFFF_FFFF || salt_bytes.len() < 8 || salt_bytes.len() > 0xFFFF_FFFF {
            return false;
        }
        let nonce_bytes = match hex_decode_str(self.nonce.as_str()) {
            Some(n) => n,
            None => {
                return false;
            },
        };
        if nonce_bytes.len() != 12 {
            return false;
        }
        let encrypted_key_bytes = match hex_decode_str(self.encrypted_private_key.as_str()) {
            Some(c) => c,
            None => {
                return false;
            },
        };
        let seed = argon2id_derive(input_bytes, salt_bytes);
        aes256gcm_decrypt(&seed, nonce_bytes.as_slice(), encrypted_key_bytes.as_slice()).is_some()
    }

    /// Recovers the private key: derives the key from username, password
    /// and salt, opens the sealed key with it, and checks that the result
    /// is 32 bytes long.
    pub fn decrypt_private_key(&self, password: &str) -> (r: Result<SigningKey, KeyError>)
        requires
            self@.unlockable(password@),
        ensures
            match r {
                Ok(k) => self@.unlocked(password@).len() == 32 && k@ == self@.unlocked(password@),
                Err(e) => self@.unlocked(password@).len() != 32 && e == KeyError::InvalidKeyLength,
            },
            self@.sealed_with(password@) ==> (r matches Ok(k) && k@ == user_key(self@, password@)),
    {
        let input = credential_string(self.username.as_str(), password);
        let seed = argon2id_derive(input.as_str().as_bytes(), self.salt.as_str().as_bytes());
        let nonce_bytes = match hex_decode_str(self.nonce.as_str()) {
            Some(n) => n,
            None => Vec::new(),
        };
        let encrypted_key_bytes = match hex_decode_str(self.encrypted_private_key.as_str()) {
            Some(c) => c,
            None => Vec::new(),
        };
        let decrypted_bytes = match aes256gcm_decrypt(&seed, nonce_bytes.as_slice(), encrypted_key_bytes.as_slice()) {
            Some(p) => p,
            None => Vec::new(),
        };
        proof {
            if self@.sealed_with(password@) {
                lemma_sealed_unlockable(self@, password@);
            }
        }
        match bytes_to_array::<32>(decrypted_bytes) {
            Some(key_bytes) => Ok(SigningKey::from_bytes(&key_bytes)),
            None => Err(KeyError::InvalidKeyLength),
        }
    }

    /// [`User::decrypt_private_key`] where recovery goes through; `None`
    /// where it does not.
    pub fn try_decrypt_private_key(&self, password: &str) -> (r: Option<Result<SigningKey, KeyError>>)
        ensures
            r is None <==> !self@.unlockable(password@),
            r matches Some(res) ==> match res {
                Ok(k) => self@.unlocked(password@).len() == 32 && k@ == self@.unlocked(password@),
                Err(e) => self@.unlocked(password@).len() != 32 && e == KeyError::InvalidKeyLength,
            },
    {
        if self.check_password(password) {
            Some(self.decrypt_private_key(password))
        } else {
            None
        }
    }

    /// Recovers the private key with `password` and signs the transaction
    /// with it.  A user made for `password` always succeeds, and a
    /// transaction sent from that user's key then verifies.
    pub fn sign_transaction(&self, tx: &mut Transaction, password: &str) -> (r: Result<(), KeyError>)
        requires
            self@.unlockable(password@),
        ensures
            match r {
                Ok(()) => self@.unlocked(password@).len() == 32 && final(tx)@ == old(tx)@.with_signature(
                    signature_text(self@.unlocked(password@), old(tx)@.message),
                ),
                Err(e) => self@.unlocked(password@).len() != 32 && e == KeyError::InvalidKeyLength
                    && final(tx)@ == old(tx)@,
            },
            self@.sealed_with(password@) ==> r is Ok,
            self@.sealed_with(password@) && old(tx)@.sender == self@.public_key ==> final(tx)@.verify_outcome()
                == Some(true),
    {
        let key = match self.decrypt_private_key(password) {
            Ok(k) => k,
            Err(e) => {
                return Err(e);
            },
        };
        tx.sign(&key);
        proof {
            if self@.sealed_with(password@) && old(tx)@.sender == self@.public_key {
                let k = user_key(self@, password@);
                let d = message_digest(tx@.message);
                lemma_hex_roundtrip(ed25519_public_key(k));
                lemma_hex_roundtrip(ed25519_sign(k, d));
            }
        }
        Ok(())
    }

    /// [`User::sign_transaction`] where key recovery goes through; `None`
    /// (and the transaction untouched) where it does not.
    pub fn try_sign_transaction(&self, tx: &mut Transaction, password: &str) -> (r: Option<Result<(), KeyError>>)
        ensures
            r is None <==> !self@.unlockable(password@),
            r is None ==> final(tx)@ == old(tx)@,
            r matches Some(res) ==> match res {
                Ok(()) => self@.unlocked(password@).len() == 32 && final(tx)@ == old(tx)@.with_signature(
                    signature_text(self@.unlocked(password@), old(tx)@.message),
                ),
                Err(e) => self@.unlocked(password@).len() != 32 && e == KeyError::InvalidKeyLength
                    && final(tx)@ == old(tx)@,
            },
    {
        if self.check_password(password) {
            Some(self.sign_transaction(tx, password))
        } else {
            None
        }
    }
}

impl Transaction {
    /// An unsigned transfer whose message is `sender,receiver,amount`.
    pub fn new(sender_pubkey: &str, receiver_pubkey: &str, transaction_amount: u64) -> (r: Self)
        ensures
            r@.sender == sender_pubkey@,
            r@.receiver == receiver_pubkey@,
            r@.amount == transaction_amount,
            r@.signature.len() == 0,
            r@.message == sender_pubkey@ + ","@ + receiver_pubkey@ + ","@ + decimal(transaction_amount as nat),
    {
        let mut message = String::new();
        message.append(sender_pubkey);
        message.append(",");
        message.append(receiver_pubkey);
        message.append(",");
        push_decimal(&mut message, transaction_amount);
        proof {
            assert(message@ =~= sender_pubkey@ + ","@ + receiver_pubkey@ + ","@ + decimal(transaction_amount as nat));
        }
        Transaction {
            sender: sender_pubkey.to_string(),
            receiver: receiver_pubkey.to_string(),
            amount: transaction_amount,
            signature: String::new(),
            message,
        }
    }

    /// Signs the SHA-256 digest of the message with the key, stores the
    /// signature as hexadecimal text and returns it.  The signature
    /// verifies under the key's public key.
    pub fn sign(&mut self, signing_key: &SigningKey) -> (r: String)
        ensures
            final(self)@ == old(self)@.with_signature(signature_text(signing_key@, old(self)@.message)),
            r@ == signature_text(signing_key@, old(self)@.message),
            ed25519_sign(signing_key@, message_digest(old(self)@.message)).len() == 64,
            ed25519_verify(
                ed25519_public_key(signing_key@),
                message_digest(old(self)@.message),
                ed25519_sign(signing_key@, message_digest(old(self)@.message)),
            ),
    {
        let hashed_message = sha256(self.message.as_str().as_bytes());
        let secret = signing_key.to_bytes();
        let signature = ed25519_sign_message(&secret, hashed_message.as_slice());
        let signature_hex = hex_encode(signature.as_slice());
        self.signature = signature_hex.clone();
        proof {
            assert(self@ =~= old(self)@.with_signature(signature_text(signing_key@, old(self)@.message)));
        }
        signature_hex
    }

    fn check_signature(&self) -> (r: Option<bool>)
        ensures
            r == self@.verify_outcome(),
    {
        let sender_bytes = match hex_decode_str(self.sender.as_str()) {
            Some(b) => b,
            None => {
                return None;
            },
        };
        let sender_array = match bytes_to_array::<32>(sender_bytes) {
            Some(a) => a,
            None => {
                return None;
            },
        };
        let signature_bytes = match hex_decode_str(self.signature.as_str()) {
            Some(b) => b,
            None => {
                return None;
            },
        };
        let signature_array = match bytes_to_array::<64>(signature_bytes) {
            Some(a) => a,
            None => {
                return None;
            },
        };
        let hashed_message = sha256(self.message.as_str().as_bytes());
        ed25519_check(&sender_array, hashed_message.as_slice(), &signature_array)
    }

    /// Checks the signature against the sender's public key over the
    /// message digest.
    pub fn verify_sign(&mut self) -> (r: bool)
        requires
            old(self)@.verify_outcome() is Some,
        ensures
            final(self)@ == old(self)@,
            r == old(self)@.verify_outcome()->0,
    {
        match self.check_signature() {
            Some(b) => b,
            None => false,
        }
    }

    /// [`Transaction::verify_sign`] where the sender and the signature
    /// decode into a public key and a signature; `None` where they do not.
    pub fn try_verify_sign(&mut self) -> (r: Option<bool>)
        ensures
            final(self)@ == old(self)@,
            r == old(self)@.verify_outcome(),
    {
        if self.check_signature().is_some() {
            Some(self.verify_sign())
        } else {
            None
        }
    }

    /// Whether the user's balance covers the amount.
    pub fn verify_balance(&self, user: &User) -> (r: bool)
        ensures
            r == (user.balance >= self.amount),
    {
        let user_balance = user.balance;
        if user_balance < self.amount {
            false
        } else {
            true
        }
    }
}

} // verus!
