//! The vault key: derivation from the user's passcode, and encryption of the
//! sensitive columns (chat history, cached values, facts) before they are stored.
use vstd::prelude::*;
use vstd::utf8::encode_utf8;
use crate::crypto;
use crate::crypto::{aead_error_text, argon2_output, aes_gcm_p_max, b64_encode, b64_unpadded, sha256_spec};
use crate::security;
use crate::security::{CryptoError, CryptoErrorView, open_text, sealed_text};

verus! {

/// A character PHC salt strings may contain: `[a-zA-Z0-9/+.-]`.
pub open spec fn salt_char_ok(c: char) -> bool {
    ('a' <= c && c <= 'z') || ('A' <= c && c <= 'Z') || ('0' <= c && c <= '9') || c == '/' || c
        == '+' || c == '.' || c == '-'
}

/// `SaltString::new` accepts a text: 4 to 64 characters, all allowed.
pub open spec fn salt_accepted(s: Seq<char>) -> bool {
    4 <= s.len() <= 64 && forall|i: int| 0 <= i < s.len() ==> salt_char_ok(#[trigger] s[i])
}

/// The salt string the key derivation hashes with: the unpadded Base64 of
/// the SHA-256 of the configured salt.
pub open spec fn effective_salt(salt: Seq<char>) -> Seq<char> {
    b64_unpadded(sha256_spec(encode_utf8(salt)))
}

/// The vault key for a passphrase and salt: the Argon2id output.
pub open spec fn derived_key(passphrase: Seq<char>, salt: Seq<char>) -> Seq<u8> {
    argon2_output(encode_utf8(passphrase), effective_salt(salt))->0
}

/// The salt string made from a 32-byte digest is always a valid salt string.
pub proof fn lemma_digest_salt_accepted(d: Seq<u8>)
    requires
        d.len() == 32,
    ensures
        salt_accepted(b64_unpadded(d)),
        b64_unpadded(d).len() == 43,
{
    crypto::lemma_b64_shape(d);
    let s = b64_unpadded(d);
    assert forall|i: int| 0 <= i < s.len() implies salt_char_ok(#[trigger] s[i]) by {
        assert(s[i] == b64_encode(d)[i]);
    }
}

/// The configured salt takes part in the key: salts whose digests differ give
/// different salt strings to Argon2id.
pub proof fn lemma_salt_changes_salt_string(salt1: Seq<char>, salt2: Seq<char>)
    requires
        sha256_spec(encode_utf8(salt1)).len() == 32,
        sha256_spec(encode_utf8(salt2)).len() == 32,
        sha256_spec(encode_utf8(salt1)) != sha256_spec(encode_utf8(salt2)),
    ensures
        effective_salt(salt1) != effective_salt(salt2),
        salt_accepted(effective_salt(salt1)),
{
    lemma_digest_salt_accepted(sha256_spec(encode_utf8(salt1)));
    if effective_salt(salt1) == effective_salt(salt2) {
        crypto::lemma_b64_unpadded_injective(
            sha256_spec(encode_utf8(salt1)),
            sha256_spec(encode_utf8(salt2)),
        );
    }
}

/// Holds the vault key in memory to encrypt and decrypt stored fields.
pub struct DbManager {
    key: [u8; 32],
}

impl DbManager {
    /// The vault key.
    pub closed spec fn key(&self) -> Seq<u8> {
        self.key@
    }

    /// A vault for an already derived key.
    pub fn from_key(key: [u8; 32]) -> (res: Self)
        ensures
            res.key() == key@,
    {
        DbManager { key }
    }

    /// Opens the vault for a passphrase: derives the key from the passphrase
    /// and salt.
    pub fn open_encrypted(passphrase: &str, salt: &str) -> (res: Self)
        requires
            encode_utf8(passphrase@).len() <= 0xFFFFFFFF,
        ensures
            res.key() == derived_key(passphrase@, salt@),
    {
        DbManager { key: Self::derive_key(passphrase, salt) }
    }

    /// Derives a 32-byte key from a passphrase and a salt using Argon2id.
    pub fn derive_key(passphrase: &str, salt: &str) -> (res: [u8; 32])
        requires
            encode_utf8(passphrase@).len() <= 0xFFFFFFFF,
        ensures
            res@ == derived_key(passphrase@, salt@),
    {
        let salt_hash = crypto::sha256_str(salt);
        let salt_b64 = crypto::base64_encode_unpadded(salt_hash.as_slice());
        proof {
            lemma_digest_salt_accepted(salt_hash@);
        }
        match crypto::argon2_hash_output(passphrase.as_bytes(), salt_b64.as_str()) {
            Some(out) => crypto::to_key32(&out),
            None => {
                proof {
                    assert(salt_b64@ == b64_unpadded(salt_hash@));
                    assert(false);
                }
                [0u8; 32]
            },
        }
    }

    /// Generates a new random salt string: the unpadded Base64 text of 16
    /// random bytes (22 characters).
    pub fn generate_salt() -> (res: String)
        ensures
            crypto::b64_of_16_bytes(res@),
            res@.len() == 22,
            salt_accepted(res@),
    {
        crypto::random_salt_string()
    }

    /// Encrypts a field: the Base64 text of `nonce || ciphertext`, which
    /// decrypts back to the field.
    pub fn encrypt(&self, plaintext: &str) -> (res: Result<String, CryptoError>)
        ensures
            res is Ok <==> encode_utf8(plaintext@).len() <= aes_gcm_p_max(),
            match res {
                Ok(s) => sealed_text(self.key(), encode_utf8(plaintext@), s@) && open_text(
                    self.key(),
                    s@,
                ) == Ok::<Seq<char>, CryptoErrorView>(plaintext@),
                Err(e) => e@ == CryptoErrorView::Encryption(aead_error_text()),
            },
    {
        security::encrypt_field(&self.key, plaintext)
    }

    /// Decrypts a field produced by [`DbManager::encrypt`].
    pub fn decrypt(&self, encrypted_base64: &str) -> (res: Result<String, CryptoError>)
        ensures
            match res {
                Ok(s) => open_text(self.key(), encrypted_base64@) == Ok::<Seq<char>, CryptoErrorView>(
                    s@,
                ),
                Err(e) => open_text(self.key(), encrypted_base64@) == Err::<Seq<char>, CryptoErrorView>(e@),
            },
    {
        security::decrypt_aes_gcm(&self.key, encrypted_base64)
    }
}

} // verus!
