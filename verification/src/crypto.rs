//! Cryptographic building blocks used by the library: SHA-256 (ring), Base64
//! (base64), AES-256-GCM (aes-gcm), Argon2id (argon2), random nonces (rand and
//! the AEAD's OS generator), and UTF-8 decoding (std).
use vstd::prelude::*;
use vstd::utf8::{valid_utf8, decode_utf8, encode_utf8};
use crate::text;
use aes_gcm::aead::{Aead, KeyInit};
use argon2::{PasswordHasher, PasswordVerifier};

verus! {

// ---------------------------------------------------------------------------
// SHA-256
// ---------------------------------------------------------------------------

/// The SHA-256 digest of some bytes.
pub uninterp spec fn sha256_spec(data: Seq<u8>) -> Seq<u8>;

/// `ring::digest::digest(&SHA256, data)`: the 32-byte SHA-256 digest, named
/// by [`sha256_spec`].
#[verifier::external_body]
pub(crate) fn sha256(data: &[u8]) -> (res: Vec<u8>)
    ensures
        res@ == sha256_spec(data@),
        res@.len() == 32,
{
    ring::digest::digest(&ring::digest::SHA256, data).as_ref().to_vec()
}

/// SHA-256 of the UTF-8 bytes of a string.
pub fn sha256_str(s: &str) -> (res: Vec<u8>)
    ensures
        res@ == sha256_spec(encode_utf8(s@)),
        res@.len() == 32,
{
    sha256(s.as_bytes())
}

/// The 32 bytes of a digest as an array.
pub fn to_key32(v: &Vec<u8>) -> (res: [u8; 32])
    requires
        v@.len() == 32,
    ensures
        res@ == v@,
{
    let mut k = [0u8; 32];
    let mut i: usize = 0;
    while i < 32
        invariant
            i <= 32,
            v@.len() == 32,
            forall|j: int| 0 <= j < i ==> k@[j] == v@[j],
        decreases 32 - i,
    {
        k.set(i, v[i]);
        i = i + 1;
    }
    proof {
        assert(k@ =~= v@);
    }
    k
}

// ---------------------------------------------------------------------------
// Base64 (standard alphabet, padded)
// ---------------------------------------------------------------------------

/// The character of the standard Base64 alphabet for a 6-bit value.
pub open spec fn b64_char(v: int) -> char {
    if v < 26 {
        (('A' as int) + v) as char
    } else if v < 52 {
        (('a' as int) + (v - 26)) as char
    } else if v < 62 {
        (('0' as int) + (v - 52)) as char
    } else if v == 62 {
        '+'
    } else {
        '/'
    }
}

/// Standard padded Base64 (RFC 4648 section 4) of some bytes.
pub open spec fn b64_encode(b: Seq<u8>) -> Seq<char>
    decreases b.len(),
{
    if b.len() == 0 {
        Seq::empty()
    } else if b.len() == 1 {
        seq![b64_char(b[0] as int / 4), b64_char((b[0] as int % 4) * 16), '=', '=']
    } else if b.len() == 2 {
        seq![
            b64_char(b[0] as int / 4),
            b64_char((b[0] as int % 4) * 16 + b[1] as int / 16),
            b64_char((b[1] as int % 16) * 4),
            '=',
        ]
    } else {
        seq![
            b64_char(b[0] as int / 4),
            b64_char((b[0] as int % 4) * 16 + b[1] as int / 16),
            b64_char((b[1] as int % 16) * 4 + b[2] as int / 64),
            b64_char(b[2] as int % 64),
        ] + b64_encode(b.skip(3))
    }
}

/// How many `=` characters pad the Base64 text of `n` bytes.
pub open spec fn b64_pad(n: nat) -> nat {
    if n % 3 == 1 {
        2
    } else if n % 3 == 2 {
        1
    } else {
        0
    }
}

/// Unpadded standard Base64 of some bytes (the padded text without its `=`).
pub open spec fn b64_unpadded(b: Seq<u8>) -> Seq<char> {
    let e = b64_encode(b);
    e.take(e.len() - b64_pad(b.len()))
}

/// A character of the standard Base64 alphabet.
pub open spec fn b64_alphabet(c: char) -> bool {
    ('A' <= c && c <= 'Z') || ('a' <= c && c <= 'z') || ('0' <= c && c <= '9') || c == '+' || c
        == '/'
}

proof fn lemma_b64_char_alphabet(v: int)
    requires
        0 <= v < 64,
    ensures
        b64_alphabet(b64_char(v)),
{
}

/// The padded Base64 text of `n` bytes has `4 * ceil(n / 3)` characters, of
/// which all but the padding are alphabet characters.
pub proof fn lemma_b64_shape(b: Seq<u8>)
    ensures
        b64_encode(b).len() == 4 * ((b.len() + 2) / 3),
        b64_pad(b.len()) <= b64_encode(b).len(),
        forall|i: int|
            0 <= i < b64_encode(b).len() - b64_pad(b.len()) ==> b64_alphabet(#[trigger] b64_encode(b)[i]),
    decreases b.len(),
{
    let e = b64_encode(b);
    if b.len() == 1 {
        lemma_b64_char_alphabet(b[0] as int / 4);
        lemma_b64_char_alphabet((b[0] as int % 4) * 16);
    } else if b.len() == 2 {
        lemma_b64_char_alphabet(b[0] as int / 4);
        lemma_b64_char_alphabet((b[0] as int % 4) * 16 + b[1] as int / 16);
        lemma_b64_char_alphabet((b[1] as int % 16) * 4);
    } else if b.len() >= 3 {
        lemma_b64_char_alphabet(b[0] as int / 4);
        lemma_b64_char_alphabet((b[0] as int % 4) * 16 + b[1] as int / 16);
        lemma_b64_char_alphabet((b[1] as int % 16) * 4 + b[2] as int / 64);
        lemma_b64_char_alphabet(b[2] as int % 64);
        let r = b.skip(3);
        lemma_b64_shape(r);
        assert(r.len() == b.len() - 3);
        assert(b64_pad(r.len()) == b64_pad(b.len()));
        assert forall|i: int| 0 <= i < e.len() - b64_pad(b.len()) implies b64_alphabet(#[trigger] e[i]) by {
            if i >= 4 {
                assert(e[i] == b64_encode(r)[i - 4]);
            }
        }
    }
}

/// Unpadded standard Base64: the padded text without its padding.
pub fn base64_encode_unpadded(data: &[u8]) -> (res: String)
    ensures
        res@ == b64_unpadded(data@),
{
    let padded = base64_encode(data);
    let chars = crate::text::chars_of(padded.as_str());
    proof {
        lemma_b64_shape(data@);
    }
    let pad: usize = if data.len() % 3 == 1 {
        2
    } else if data.len() % 3 == 2 {
        1
    } else {
        0
    };
    let kept = crate::text::slice_chars(&chars, 0, chars.len() - pad);
    proof {
        assert(kept@ =~= b64_unpadded(data@));
    }
    crate::text::string_of(&kept)
}

proof fn lemma_b64_char_injective(v: int, w: int)
    requires
        0 <= v < 64,
        0 <= w < 64,
        b64_char(v) == b64_char(w),
    ensures
        v == w,
{
}

proof fn lemma_group_injective(a0: u8, a1: u8, a2: u8, b0: u8, b1: u8, b2: u8)
    requires
        a0 / 4 == b0 / 4,
        (a0 % 4) * 16 + a1 / 16 == (b0 % 4) * 16 + b1 / 16,
        (a1 % 16) * 4 + a2 / 64 == (b1 % 16) * 4 + b2 / 64,
        a2 % 64 == b2 % 64,
    ensures
        a0 == b0 && a1 == b1 && a2 == b2,
{
    assert(a0 == b0 && a1 == b1 && a2 == b2) by (bit_vector)
        requires
            a0 / 4 == b0 / 4,
            (a0 % 4) * 16 + a1 / 16 == (b0 % 4) * 16 + b1 / 16,
            (a1 % 16) * 4 + a2 / 64 == (b1 % 16) * 4 + b2 / 64,
            a2 % 64 == b2 % 64,
    ;
}

/// Different byte strings of the same length have different unpadded Base64
/// texts.
pub proof fn lemma_b64_unpadded_injective(a: Seq<u8>, b: Seq<u8>)
    requires
        a.len() == b.len(),
        b64_unpadded(a) == b64_unpadded(b),
    ensures
        a == b,
    decreases a.len(),
{
    lemma_b64_shape(a);
    lemma_b64_shape(b);
    let ea = b64_encode(a);
    let eb = b64_encode(b);
    assert forall|i: int| 0 <= i < ea.len() - b64_pad(a.len()) implies ea[i] == eb[i] by {
        assert(b64_unpadded(a) == ea.take(ea.len() - b64_pad(a.len())));
        assert(b64_unpadded(b) == eb.take(eb.len() - b64_pad(b.len())));
        assert(b64_unpadded(a)[i] == ea[i]);
        assert(b64_unpadded(b)[i] == eb[i]);
    }
    if a.len() == 1 {
        lemma_b64_char_injective(a[0] as int / 4, b[0] as int / 4);
        lemma_b64_char_injective((a[0] as int % 4) * 16, (b[0] as int % 4) * 16);
        assert(a[0] == b[0]) by (nonlinear_arith)
            requires
                a[0] as int / 4 == b[0] as int / 4,
                (a[0] as int % 4) * 16 == (b[0] as int % 4) * 16,
                0 <= a[0] < 256,
                0 <= b[0] < 256,
        ;
        assert(a =~= b);
    } else if a.len() == 2 {
        lemma_b64_char_injective(a[0] as int / 4, b[0] as int / 4);
        lemma_b64_char_injective((a[0] as int % 4) * 16 + a[1] as int / 16, (b[0] as int % 4) * 16 + b[1] as int / 16);
        lemma_b64_char_injective((a[1] as int % 16) * 4, (b[1] as int % 16) * 4);
        lemma_group_injective(a[0], a[1], 0, b[0], b[1], 0);
        assert(a =~= b);
    } else if a.len() >= 3 {
        assert(ea[0] == eb[0] && ea[1] == eb[1] && ea[2] == eb[2] && ea[3] == eb[3]);
        lemma_b64_char_injective(a[0] as int / 4, b[0] as int / 4);
        lemma_b64_char_injective((a[0] as int % 4) * 16 + a[1] as int / 16, (b[0] as int % 4) * 16 + b[1] as int / 16);
        lemma_b64_char_injective((a[1] as int % 16) * 4 + a[2] as int / 64, (b[1] as int % 16) * 4 + b[2] as int / 64);
        lemma_b64_char_injective(a[2] as int % 64, b[2] as int % 64);
        lemma_group_injective(a[0], a[1], a[2], b[0], b[1], b[2]);
        let ra = a.skip(3);
        let rb = b.skip(3);
        lemma_b64_shape(ra);
        lemma_b64_shape(rb);
        assert(b64_pad(ra.len()) == b64_pad(a.len()));
        assert(b64_unpadded(ra) =~= b64_unpadded(rb)) by {
            assert forall|i: int| 0 <= i < b64_unpadded(ra).len() implies b64_unpadded(ra)[i] == b64_unpadded(rb)[i] by {
                assert(ea[i + 4] == b64_encode(ra)[i]);
                assert(eb[i + 4] == b64_encode(rb)[i]);
            }
        }
        lemma_b64_unpadded_injective(ra, rb);
        assert(a =~= b) by {
            assert forall|i: int| 0 <= i < a.len() implies a[i] == b[i] by {
                if i >= 3 {
                    assert(a[i] == ra[i - 3]);
                    assert(b[i] == rb[i - 3]);
                }
            }
        }
    } else {
        assert(a =~= b);
    }
}

/// The bytes `base64::prelude::BASE64_STANDARD.decode` reads from a text, or
/// the description of its error when it rejects the text.
pub uninterp spec fn b64_decode(text: Seq<char>) -> Result<Seq<u8>, Seq<char>>;

/// `base64::Engine::encode` with `BASE64_STANDARD`: the padded standard Base64
/// text of the bytes; decoding that text gives the bytes back.
#[verifier::external_body]
pub(crate) fn base64_encode(data: &[u8]) -> (res: String)
    ensures
        res@ == b64_encode(data@),
        b64_decode(res@) is Ok && b64_decode(res@)->Ok_0 == data@,
{
    base64::Engine::encode(&base64::prelude::BASE64_STANDARD, data)
}

/// `base64::Engine::decode` with `BASE64_STANDARD`, named by [`b64_decode`],
/// with its error's description.  The engine requires canonical padding and
/// no trailing bits, so a text it accepts is the encoding of what it decodes to.
#[verifier::external_body]
pub(crate) fn base64_decode(text: &str) -> (res: Result<Vec<u8>, String>)
    ensures
        match res {
            Ok(v) => b64_decode(text@) == Ok::<Seq<u8>, Seq<char>>(v@) && text@ == b64_encode(v@),
            Err(m) => b64_decode(text@) == Err::<Seq<u8>, Seq<char>>(m@),
        },
{
    base64::Engine::decode(&base64::prelude::BASE64_STANDARD, text).map_err(|e| e.to_string())
}

// ---------------------------------------------------------------------------
// UTF-8 (std)
// ---------------------------------------------------------------------------

/// The description std's `FromUtf8Error` gives of bytes that are not UTF-8.
pub uninterp spec fn utf8_error(bytes: Seq<u8>) -> Seq<char>;

/// `String::from_utf8` from std: the text the bytes encode, when they are
/// valid UTF-8, else the error's description, named by [`utf8_error`].
#[verifier::external_body]
pub(crate) fn utf8_to_string(bytes: Vec<u8>) -> (res: Result<String, String>)
    ensures
        match res {
            Ok(s) => valid_utf8(bytes@) && s@ == decode_utf8(bytes@),
            Err(m) => !valid_utf8(bytes@) && m@ == utf8_error(bytes@),
        },
{
    String::from_utf8(bytes).map_err(|e| e.to_string())
}

// ---------------------------------------------------------------------------
// AES-256-GCM
// ---------------------------------------------------------------------------

/// The largest plaintext AES-GCM accepts, in bytes.
pub open spec fn aes_gcm_p_max() -> int {
    0x1000000000
}

/// The AES-256-GCM ciphertext (with its 16-byte tag appended) of a plaintext
/// under a 32-byte key and a 12-byte nonce.
pub uninterp spec fn aes_gcm_seal(key: Seq<u8>, nonce: Seq<u8>, plaintext: Seq<u8>) -> Seq<u8>;

/// The plaintext AES-256-GCM recovers from a ciphertext with tag, or `None`
/// when authentication fails.
pub uninterp spec fn aes_gcm_open(key: Seq<u8>, nonce: Seq<u8>, ciphertext: Seq<u8>) -> Option<Seq<u8>>;

/// The description `aead::Error` gives of any AES-GCM failure.
pub open spec fn aead_error_text() -> Seq<char> {
    "aead::Error"@
}

/// `aes_gcm::Aes256Gcm::new` with the 32-byte key, then `encrypt(nonce,
/// plaintext)`: fails exactly when the plaintext is longer than `P_MAX` (2^36
/// bytes), with the error's description; the ciphertext is 16 bytes longer
/// than the plaintext, is named by [`aes_gcm_seal`], and opens back to the
/// plaintext.
#[verifier::external_body]
pub(crate) fn aes_gcm_encrypt(key: &[u8; 32], nonce: &[u8; 12], plaintext: &[u8]) -> (res: Result<Vec<u8>, String>)
    ensures
        res is Ok <==> plaintext@.len() <= aes_gcm_p_max(),
        match res {
            Ok(c) => c@ == aes_gcm_seal(key@, nonce@, plaintext@) && c@.len() == plaintext@.len()
                + 16 && aes_gcm_open(key@, nonce@, c@) == Some(plaintext@),
            Err(m) => m@ == aead_error_text(),
        },
{
    let cipher = aes_gcm::Aes256Gcm::new(aes_gcm::Key::<aes_gcm::Aes256Gcm>::from_slice(key));
    cipher.encrypt(aes_gcm::Nonce::from_slice(nonce), plaintext).map_err(|e| e.to_string())
}

/// `aes_gcm::Aes256Gcm::new` with the 32-byte key, then `decrypt(nonce,
/// ciphertext)`, named by [`aes_gcm_open`], with the error's description.
#[verifier::external_body]
pub(crate) fn aes_gcm_decrypt(key: &[u8; 32], nonce: &[u8], ciphertext: &[u8]) -> (res: Result<Vec<u8>, String>)
    requires
        nonce@.len() == 12,
    ensures
        match res {
            Ok(p) => aes_gcm_open(key@, nonce@, ciphertext@) == Some(p@),
            Err(m) => aes_gcm_open(key@, nonce@, ciphertext@) is None && m@ == aead_error_text(),
        },
{
    let cipher = aes_gcm::Aes256Gcm::new(aes_gcm::Key::<aes_gcm::Aes256Gcm>::from_slice(key));
    cipher.decrypt(aes_gcm::Nonce::from_slice(nonce), ciphertext).map_err(|e| e.to_string())
}

// ---------------------------------------------------------------------------
// Random nonces
// ---------------------------------------------------------------------------

/// Twelve random bytes from `rand::thread_rng().fill_bytes`.  Nothing is
/// claimed of their values.
#[verifier::external_body]
pub(crate) fn thread_rng_nonce() -> (res: [u8; 12]) {
    let mut nonce = [0u8; 12];
    rand::RngCore::fill_bytes(&mut rand::thread_rng(), &mut nonce);
    nonce
}

/// Twelve random bytes from `aes_gcm::aead::rand_core::OsRng.fill_bytes`.
/// Nothing is claimed of their values.
#[verifier::external_body]
pub(crate) fn os_rng_nonce() -> (res: [u8; 12]) {
    let mut nonce = [0u8; 12];
    aes_gcm::aead::rand_core::RngCore::fill_bytes(&mut aes_gcm::aead::rand_core::OsRng, &mut nonce);
    nonce
}

// ---------------------------------------------------------------------------
// Argon2id
// ---------------------------------------------------------------------------

/// The raw Argon2id output (default parameters) for a password and a B64 salt
/// string, or `None` when hashing fails.
pub uninterp spec fn argon2_output(password: Seq<u8>, salt_b64: Seq<char>) -> Option<Seq<u8>>;

/// `Argon2::default().hash_password(password, &SaltString::from_b64(salt)?)`
/// and the `hash` output of the result, named by [`argon2_output`].  With a
/// salt string that is the unpadded Base64 of 32 bytes (a valid salt string
/// that decodes to 32 bytes, at least the 8 Argon2 needs) and a password of at
/// most `0xFFFFFFFF` bytes, hashing succeeds with the default 32-byte output.
#[verifier::external_body]
pub(crate) fn argon2_hash_output(password: &[u8], salt_b64: &str) -> (res: Option<Vec<u8>>)
    ensures
        match res {
            Some(o) => argon2_output(password@, salt_b64@) == Some(o@),
            None => argon2_output(password@, salt_b64@) is None,
        },
        res matches Some(o) ==> o@.len() == 32,
        forall|d: Seq<u8>|
            d.len() == 32 && salt_b64@ == #[trigger] b64_unpadded(d) && password@.len() <= 0xFFFFFFFF
                ==> res is Some,
{
    let salt = argon2::password_hash::SaltString::from_b64(salt_b64).ok()?;
    let hash = argon2::Argon2::default().hash_password(password, &salt).ok()?;
    hash.hash.map(|o| o.as_bytes().to_vec())
}

/// How a passcode compares with a stored PHC hash string.
#[derive(Clone, Copy, Debug, PartialEq, Eq, Structural)]
pub enum PhcCheck {
    /// The passcode matches.
    Match,
    /// The hash string parses but the passcode does not match it.
    Mismatch,
    /// The hash string is not a valid PHC password hash.
    Malformed,
}

/// The outcome of checking a passcode against a PHC hash string.
pub uninterp spec fn phc_check(hash: Seq<char>, password: Seq<u8>) -> PhcCheck;

/// `PasswordHash::new(hash)` then `Argon2::default().verify_password(password, &parsed)`,
/// named by [`phc_check`]: `Malformed` when parsing fails, `Mismatch` when
/// verification fails, `Match` otherwise.
#[verifier::external_body]
pub(crate) fn argon2_check(hash: &str, password: &[u8]) -> (res: PhcCheck)
    ensures
        res == phc_check(hash@, password@),
{
    match argon2::password_hash::PasswordHash::new(hash) {
        Err(_) => PhcCheck::Malformed,
        Ok(parsed) => match argon2::Argon2::default().verify_password(password, &parsed) {
            Ok(()) => PhcCheck::Match,
            Err(_) => PhcCheck::Mismatch,
        },
    }
}

/// `Argon2::default().hash_password(password, &SaltString::generate(&mut OsRng))`
/// rendered as a PHC string (or the error's text).  With the 16-byte salt
/// that `generate` makes, hashing fails only on a password longer than
/// `0xFFFFFFFF` bytes.  The salt is random, so nothing fixes the string; it
/// has no whitespace, and checking the same password against it matches.
#[verifier::external_body]
pub(crate) fn argon2_new_hash(password: &[u8]) -> (res: Result<String, String>)
    ensures
        res is Ok <==> password@.len() <= 0xFFFFFFFF,
        match res {
            Ok(h) => phc_check(h@, password@) == PhcCheck::Match && forall|i: int|
                0 <= i < h@.len() ==> !text::is_ws(#[trigger] h@[i]),
            Err(_) => true,
        },
{
    let salt = argon2::password_hash::SaltString::generate(&mut argon2::password_hash::rand_core::OsRng);
    argon2::Argon2::default().hash_password(password, &salt).map(|h| h.to_string()).map_err(|e| e.to_string())
}

/// The standard Base64 text without padding of some 16 bytes.
pub open spec fn b64_of_16_bytes(s: Seq<char>) -> bool {
    exists|b: Seq<u8>| b.len() == 16 && s == #[trigger] b64_unpadded(b)
}

/// A random B64 salt string: `SaltString::generate(&mut OsRng).to_string()`,
/// the standard Base64 text without padding of 16 random bytes: 22
/// characters a salt string accepts.  Nothing is claimed of the bytes.
#[verifier::external_body]
pub(crate) fn random_salt_string() -> (res: String)
    ensures
        res@.len() == 22,
        crate::db::salt_accepted(res@),
        b64_of_16_bytes(res@),
{
    argon2::password_hash::SaltString::generate(&mut argon2::password_hash::rand_core::OsRng).to_string()
}

} // verus!
