//! Field and frame encryption (AES-256-GCM with a random nonce prepended),
//! passcode records, pairing tokens, token digests and discovery addresses.
use vstd::prelude::*;
use vstd::utf8::{valid_utf8, decode_utf8, encode_utf8, encode_utf8_valid_utf8, encode_utf8_decode_utf8};
use crate::crypto;
use crate::crypto::{aead_error_text, aes_gcm_open, aes_gcm_seal, aes_gcm_p_max, b64_decode, b64_encode, sha256_spec, utf8_error, PhcCheck, phc_check};
use crate::text;
use crate::json::{json_parse, parse_json, string_array, string_items, string_list_json, string_list_text, string_views};
use crate::text::{chars_of, concat, concat_str, string_of, hex_encode_lower, slice_chars, trim};

verus! {

broadcast use {encode_utf8_valid_utf8, encode_utf8_decode_utf8};

/// Why encryption or decryption failed, with the underlying error's
/// description where there is one.
#[derive(Clone, Debug, PartialEq, Eq)]
pub enum CryptoError {
    /// AES-GCM refused to encrypt (the plaintext is longer than it accepts).
    Encryption(String),
    /// The payload is not valid Base64.
    Base64Decode(String),
    /// The payload is shorter than a nonce.
    TooShort,
    /// The ciphertext does not authenticate under the key.
    Decryption(String),
    /// The decrypted bytes are not UTF-8 text.
    InvalidUtf8(String),
}

/// The view of a [`CryptoError`]: each description as text.
pub enum CryptoErrorView {
    Encryption(Seq<char>),
    Base64Decode(Seq<char>),
    TooShort,
    Decryption(Seq<char>),
    InvalidUtf8(Seq<char>),
}

impl View for CryptoError {
    type V = CryptoErrorView;

    open spec fn view(&self) -> CryptoErrorView {
        match self {
            CryptoError::Encryption(m) => CryptoErrorView::Encryption(m@),
            CryptoError::Base64Decode(m) => CryptoErrorView::Base64Decode(m@),
            CryptoError::TooShort => CryptoErrorView::TooShort,
            CryptoError::Decryption(m) => CryptoErrorView::Decryption(m@),
            CryptoError::InvalidUtf8(m) => CryptoErrorView::InvalidUtf8(m@),
        }
    }
}

impl CryptoError {
    /// A description of the failure.
    pub fn message(&self) -> (res: String)
        ensures
            res@ == crypto_error_text(self@),
    {
        match self {
            CryptoError::Encryption(m) => prefixed("AES encryption failed: ", m),
            CryptoError::Base64Decode(m) => prefixed("Base64 decode failed: ", m),
            CryptoError::TooShort => "Invalid encrypted payload (too short)".to_string(),
            CryptoError::Decryption(m) => prefixed("AES decryption failed: ", m),
            CryptoError::InvalidUtf8(m) => prefixed("Invalid UTF-8 payload: ", m),
        }
    }
}

fn prefixed(prefix: &str, cause: &String) -> (res: String)
    ensures
        res@ == prefix@ + cause@,
{
    string_of(&concat_str(&chars_of(prefix), cause.as_str()))
}

/// The description of a [`CryptoError`].
pub open spec fn crypto_error_text(e: CryptoErrorView) -> Seq<char> {
    match e {
        CryptoErrorView::Encryption(m) => "AES encryption failed: "@ + m,
        CryptoErrorView::Base64Decode(m) => "Base64 decode failed: "@ + m,
        CryptoErrorView::TooShort => "Invalid encrypted payload (too short)"@,
        CryptoErrorView::Decryption(m) => "AES decryption failed: "@ + m,
        CryptoErrorView::InvalidUtf8(m) => "Invalid UTF-8 payload: "@ + m,
    }
}

// ---------------------------------------------------------------------------
// Framing: nonce || ciphertext || tag
// ---------------------------------------------------------------------------

/// The frame for a plaintext sealed under a nonce: the nonce, then the ciphertext and tag.
pub open spec fn sealed_frame(key: Seq<u8>, nonce: Seq<u8>, plaintext: Seq<u8>) -> Seq<u8> {
    nonce + aes_gcm_seal(key, nonce, plaintext)
}

/// `f` is the frame sealing `plaintext` under `key` and some 12-byte nonce:
/// the nonce, the ciphertext and the 16-byte tag, 12 + n + 16 bytes for n
/// bytes of plaintext.
pub open spec fn sealed_bytes(key: Seq<u8>, plaintext: Seq<u8>, f: Seq<u8>) -> bool {
    exists|n: Seq<u8>|
        n.len() == 12 && f == #[trigger] sealed_frame(key, n, plaintext) && f.len() == 12
            + plaintext.len() + 16
}

/// `s` is the Base64 text of a frame sealing `plaintext` under `key`, and
/// decodes back to that frame.
pub open spec fn sealed_text(key: Seq<u8>, plaintext: Seq<u8>, s: Seq<char>) -> bool {
    exists|f: Seq<u8>|
        sealed_bytes(key, plaintext, f) && s == #[trigger] b64_encode(f) && b64_decode(s) == Ok::<Seq<u8>, Seq<char>>(f)
}

/// What a frame opens to: its first 12 bytes are the nonce, the rest the
/// ciphertext and tag.
pub open spec fn open_frame(key: Seq<u8>, frame: Seq<u8>) -> Result<Seq<u8>, CryptoErrorView> {
    if frame.len() < 12 {
        Err(CryptoErrorView::TooShort)
    } else {
        match aes_gcm_open(key, frame.take(12), frame.skip(12)) {
            Some(p) => Ok(p),
            None => Err(CryptoErrorView::Decryption(aead_error_text())),
        }
    }
}

/// What a Base64 text payload decrypts to.
pub open spec fn open_text(key: Seq<u8>, payload: Seq<char>) -> Result<Seq<char>, CryptoErrorView> {
    match b64_decode(payload) {
        Err(m) => Err(CryptoErrorView::Base64Decode(m)),
        Ok(frame) => match open_frame(key, frame) {
            Err(e) => Err(e),
            Ok(p) => if valid_utf8(p) {
                Ok(decode_utf8(p))
            } else {
                Err(CryptoErrorView::InvalidUtf8(utf8_error(p)))
            },
        },
    }
}

fn copy_range(v: &[u8], from: usize, to: usize) -> (res: Vec<u8>)
    requires
        from <= to <= v@.len(),
    ensures
        res@ == v@.subrange(from as int, to as int),
{
    let mut r: Vec<u8> = Vec::new();
    let mut i = from;
    while i < to
        invariant
            from <= i <= to <= v@.len(),
            r@ == v@.subrange(from as int, i as int),
        decreases to - i,
    {
        r.push(v[i]);
        proof {
            assert(v@.subrange(from as int, i + 1) =~= v@.subrange(from as int, i as int).push(
                v@[i as int],
            ));
        }
        i = i + 1;
    }
    r
}

fn seal_with(key: &[u8; 32], nonce: [u8; 12], plaintext: &[u8]) -> (res: Result<Vec<u8>, CryptoError>)
    ensures
        match res {
            Ok(frame) => plaintext@.len() <= aes_gcm_p_max() && frame@ == sealed_frame(
                key@,
                nonce@,
                plaintext@,
            ) && frame@.len() == 12 + plaintext@.len() + 16 && open_frame(key@, frame@) == Ok::<Seq<u8>, CryptoErrorView>(plaintext@),
            Err(e) => plaintext@.len() > aes_gcm_p_max() && e@ == CryptoErrorView::Encryption(aead_error_text()),
        },
{
    match crypto::aes_gcm_encrypt(key, &nonce, plaintext) {
        Err(m) => Err(CryptoError::Encryption(m)),
        Ok(ct) => {
            let mut frame = copy_range(&nonce, 0, 12);
            let mut i: usize = 0;
            let ghost head = frame@;
            proof {
                assert(nonce@.subrange(0, 12) =~= nonce@);
            }
            while i < ct.len()
                invariant
                    i <= ct.len(),
                    frame@ == head + ct@.take(i as int),
                decreases ct.len() - i,
            {
                frame.push(ct[i]);
                proof {
                    assert(ct@.take(i + 1) =~= ct@.take(i as int).push(ct@[i as int]));
                    assert(frame@ =~= head + ct@.take(i + 1));
                }
                i = i + 1;
            }
            proof {
                assert(ct@.take(ct.len() as int) =~= ct@);
                assert(frame@.take(12) =~= nonce@);
                assert(frame@.skip(12) =~= ct@);
            }
            Ok(frame)
        },
    }
}

fn open_with(key: &[u8; 32], frame: &[u8]) -> (res: Result<Vec<u8>, CryptoError>)
    ensures
        match res {
            Ok(p) => open_frame(key@, frame@) == Ok::<Seq<u8>, CryptoErrorView>(p@),
            Err(e) => open_frame(key@, frame@) == Err::<Seq<u8>, CryptoErrorView>(e@),
        },
{
    if frame.len() < 12 {
        return Err(CryptoError::TooShort);
    }
    let nonce = copy_range(frame, 0, 12);
    let ct = copy_range(frame, 12, frame.len());
    proof {
        assert(nonce@ =~= frame@.take(12));
        assert(ct@ =~= frame@.skip(12));
    }
    match crypto::aes_gcm_decrypt(key, nonce.as_slice(), ct.as_slice()) {
        Ok(p) => Ok(p),
        Err(m) => Err(CryptoError::Decryption(m)),
    }
}

/// Encrypts text under a key with a fresh nonce from `next_nonce` semantics:
/// the Base64 text of the frame.
fn seal_text_with(key: &[u8; 32], nonce: [u8; 12], plaintext: &str) -> (res: Result<String, CryptoError>)
    ensures
        match res {
            Ok(s) => encode_utf8(plaintext@).len() <= aes_gcm_p_max() && s@ == b64_encode(sealed_frame(key@, nonce@, encode_utf8(plaintext@)))
                && sealed_text(key@, encode_utf8(plaintext@), s@) && open_text(
                key@,
                s@,
            ) == Ok::<Seq<char>, CryptoErrorView>(plaintext@),
            Err(e) => encode_utf8(plaintext@).len() > aes_gcm_p_max() && e@ == CryptoErrorView::Encryption(aead_error_text()),
        },
{
    let frame = seal_with(key, nonce, plaintext.as_bytes())?;
    Ok(crypto::base64_encode(frame.as_slice()))
}

fn open_text_with(key: &[u8; 32], payload: &str) -> (res: Result<String, CryptoError>)
    ensures
        match res {
            Ok(s) => open_text(key@, payload@) == Ok::<Seq<char>, CryptoErrorView>(s@),
            Err(e) => open_text(key@, payload@) == Err::<Seq<char>, CryptoErrorView>(e@),
        },
{
    let frame = match crypto::base64_decode(payload) {
        Ok(f) => f,
        Err(m) => return Err(CryptoError::Base64Decode(m)),
    };
    let plain = open_with(key, frame.as_slice())?;
    match crypto::utf8_to_string(plain) {
        Ok(s) => Ok(s),
        Err(m) => Err(CryptoError::InvalidUtf8(m)),
    }
}

/// Encrypts a string with AES-256-GCM under a random nonce; returns the Base64
/// text of `nonce || ciphertext || tag`, which decrypts back to the string.
pub fn encrypt_aes_gcm(key: &[u8; 32], plaintext: &str) -> (res: Result<String, CryptoError>)
    ensures
        res is Ok <==> encode_utf8(plaintext@).len() <= aes_gcm_p_max(),
        match res {
            Ok(s) => sealed_text(key@, encode_utf8(plaintext@), s@) && open_text(key@, s@) == Ok::<
                Seq<char>,
                CryptoErrorView,
            >(plaintext@),
            Err(e) => e@ == CryptoErrorView::Encryption(aead_error_text()),
        },
{
    let nonce = crypto::thread_rng_nonce();
    seal_text_with(key, nonce, plaintext)
}

/// Decrypts the Base64 text of `nonce || ciphertext || tag`.
pub fn decrypt_aes_gcm(key: &[u8; 32], ciphertext_b64: &str) -> (res: Result<String, CryptoError>)
    ensures
        match res {
            Ok(s) => open_text(key@, ciphertext_b64@) == Ok::<Seq<char>, CryptoErrorView>(s@),
            Err(e) => open_text(key@, ciphertext_b64@) == Err::<Seq<char>, CryptoErrorView>(e@),
        },
{
    open_text_with(key, ciphertext_b64)
}

/// Encrypts bytes with AES-256-GCM under a random nonce; returns
/// `nonce || ciphertext || tag`, which decrypts back to the bytes.
pub fn encrypt_aes_gcm_bin(key: &[u8; 32], plaintext: &[u8]) -> (res: Result<Vec<u8>, CryptoError>)
    ensures
        res is Ok <==> plaintext@.len() <= aes_gcm_p_max(),
        match res {
            Ok(f) => sealed_bytes(key@, plaintext@, f@) && open_frame(key@, f@) == Ok::<Seq<u8>, CryptoErrorView>(plaintext@),
            Err(e) => e@ == CryptoErrorView::Encryption(aead_error_text()),
        },
{
    let nonce = crypto::thread_rng_nonce();
    seal_with(key, nonce, plaintext)
}

/// Decrypts `nonce || ciphertext || tag`.
pub fn decrypt_aes_gcm_bin(key: &[u8; 32], ciphertext: &[u8]) -> (res: Result<Vec<u8>, CryptoError>)
    ensures
        match res {
            Ok(p) => open_frame(key@, ciphertext@) == Ok::<Seq<u8>, CryptoErrorView>(p@),
            Err(e) => open_frame(key@, ciphertext@) == Err::<Seq<u8>, CryptoErrorView>(e@),
        },
{
    open_with(key, ciphertext)
}

/// Encrypts text with a nonce from the operating system's generator (used for
/// stored fields); otherwise as [`encrypt_aes_gcm`].
pub fn encrypt_field(key: &[u8; 32], plaintext: &str) -> (res: Result<String, CryptoError>)
    ensures
        res is Ok <==> encode_utf8(plaintext@).len() <= aes_gcm_p_max(),
        match res {
            Ok(s) => sealed_text(key@, encode_utf8(plaintext@), s@) && open_text(key@, s@) == Ok::<
                Seq<char>,
                CryptoErrorView,
            >(plaintext@),
            Err(e) => e@ == CryptoErrorView::Encryption(aead_error_text()),
        },
{
    let nonce = crypto::os_rng_nonce();
    seal_text_with(key, nonce, plaintext)
}

// ---------------------------------------------------------------------------
// Digests of tokens and passcodes
// ---------------------------------------------------------------------------

/// Lowercase hex SHA-256 of the UTF-8 bytes of a text.
pub open spec fn hex_digest(s: Seq<char>) -> Seq<char> {
    text::hex_lower(sha256_spec(encode_utf8(s)))
}

/// The stored form of a pairing or session token: its hex SHA-256.
pub fn token_hash(token: &str) -> (res: String)
    ensures
        res@ == hex_digest(token@),
{
    let d = crypto::sha256_str(token);
    string_of(&hex_encode_lower(d.as_slice()))
}

/// The discovery key published for a pairing token: hex SHA-256 of
/// `discovery_` followed by the token.
pub fn discovery_key(token: &str) -> (res: String)
    ensures
        res@ == hex_digest("discovery_"@ + token@),
{
    let input = string_of(&concat_str(&chars_of("discovery_"), token));
    token_hash(input.as_str())
}

/// A 32-byte key that is the SHA-256 of a text (the temporary key of a pairing
/// token, or the session key of a passcode).
pub fn sha256_key(s: &str) -> (res: [u8; 32])
    ensures
        res@ == sha256_spec(encode_utf8(s@)),
{
    let d = crypto::sha256_str(s);
    crypto::to_key32(&d)
}

// ---------------------------------------------------------------------------
// Pairing tokens
// ---------------------------------------------------------------------------

/// A lowercase hexadecimal digit.
pub open spec fn lower_hex_char(c: char) -> bool {
    ('0' <= c && c <= '9') || ('a' <= c && c <= 'f')
}

/// The digit of a random (version 4, RFC 4122 variant) UUID that holds its
/// variant: one of `8`, `9`, `a`, `b`.
pub open spec fn variant_char(c: char) -> bool {
    c == '8' || c == '9' || c == 'a' || c == 'b'
}

/// The hyphenated text of a random UUID: 36 characters, hyphens at 8, 13,
/// 18 and 23 and lowercase hex digits elsewhere, version digit `4` at 14 and
/// the variant digit at 19.
pub open spec fn uuid_v4_hyphenated(u: Seq<char>) -> bool {
    &&& u.len() == 36
    &&& forall|i: int|
        0 <= i < 36 ==> if i == 8 || i == 13 || i == 18 || i == 23 {
            #[trigger] u[i] == '-'
        } else {
            lower_hex_char(u[i])
        }
    &&& u[14] == '4'
    &&& variant_char(u[19])
}

/// The simple text of a random UUID: 32 lowercase hex digits, version digit
/// `4` at 12 and the variant digit at 16.
pub open spec fn uuid_v4_simple(u: Seq<char>) -> bool {
    &&& u.len() == 32
    &&& forall|i: int| 0 <= i < 32 ==> lower_hex_char(#[trigger] u[i])
    &&& u[12] == '4'
    &&& variant_char(u[16])
}

/// `uuid::Uuid::new_v4().to_string()`: a random version 4 UUID in lowercase
/// hyphenated form.  Nothing is claimed of its random digits.
#[verifier::external_body]
pub(crate) fn uuid_hyphenated() -> (res: String)
    ensures
        uuid_v4_hyphenated(res@),
{
    uuid::Uuid::new_v4().to_string()
}

/// `uuid::Uuid::new_v4().simple().to_string()`: a random version 4 UUID as
/// 32 lowercase hex digits.  Nothing is claimed of its random digits.
#[verifier::external_body]
fn uuid_simple() -> (res: String)
    ensures
        uuid_v4_simple(res@),
{
    uuid::Uuid::new_v4().simple().to_string()
}

/// A pairing token built from a hyphenated UUID and a simple one: the first,
/// a dash, and the first eight digits of the second.
pub open spec fn pairing_token_from(hyphenated: Seq<char>, simple: Seq<char>) -> Seq<char> {
    hyphenated + "-"@ + simple.take(8)
}

/// Generates a new unique session pairing token for QR code display.
pub fn generate_pairing_token() -> (res: String)
    ensures
        exists|a: Seq<char>, b: Seq<char>|
            uuid_v4_hyphenated(a) && uuid_v4_simple(b) && res@ == #[trigger] pairing_token_from(a, b),
{
    let a = uuid_hyphenated();
    let b = uuid_simple();
    let bc = chars_of(b.as_str());
    let head = concat_str(&chars_of(a.as_str()), "-");
    let tail = slice_chars(&bc, 0, 8);
    let full = concat(&head, &tail);
    proof {
        assert(bc@.subrange(0, 8) =~= b@.take(8));
        assert(full@ == pairing_token_from(a@, b@));
    }
    string_of(&full)
}

// ---------------------------------------------------------------------------
// Passcode records
// ---------------------------------------------------------------------------

/// Why a passcode was refused or could not be recorded.
#[derive(Clone, Debug, PartialEq, Eq)]
pub enum PasscodeError {
    /// The stored record is not a valid password hash.
    InvalidStoredHash,
    /// The passcode does not match the stored record.
    InvalidPasscode,
    /// Hashing failed, with the hasher's reason.
    HashFailed(String),
}

impl PasscodeError {
    /// A description of the refusal.
    pub fn message(&self) -> (res: String)
        ensures
            res@ == match *self {
                PasscodeError::InvalidStoredHash => "Invalid stored passcode hash"@,
                PasscodeError::InvalidPasscode => "Invalid PIN/Passcode"@,
                PasscodeError::HashFailed(m) => m@,
            },
    {
        match self {
            PasscodeError::InvalidStoredHash => "Invalid stored passcode hash".to_string(),
            PasscodeError::InvalidPasscode => "Invalid PIN/Passcode".to_string(),
            PasscodeError::HashFailed(m) => m.clone(),
        }
    }
}

/// The outcome of checking a passcode against a stored record (surrounding
/// whitespace of the record is ignored).
pub open spec fn passcode_check(stored: Seq<char>, passcode: Seq<char>) -> Result<(), PasscodeError> {
    match phc_check(text::trim_seq(stored), encode_utf8(passcode)) {
        PhcCheck::Malformed => Err(PasscodeError::InvalidStoredHash),
        PhcCheck::Mismatch => Err(PasscodeError::InvalidPasscode),
        PhcCheck::Match => Ok(()),
    }
}

/// Verifies a passcode against the stored Argon2 record.
pub fn check_passcode(stored: &str, passcode: &str) -> (res: Result<(), PasscodeError>)
    ensures
        res == passcode_check(stored@, passcode@),
{
    let t = string_of(&trim(&chars_of(stored)));
    match crypto::argon2_check(t.as_str(), passcode.as_bytes()) {
        PhcCheck::Malformed => Err(PasscodeError::InvalidStoredHash),
        PhcCheck::Mismatch => Err(PasscodeError::InvalidPasscode),
        PhcCheck::Match => Ok(()),
    }
}

proof fn lemma_trim_no_ws(s: Seq<char>)
    requires
        forall|i: int| 0 <= i < s.len() ==> !text::is_ws(#[trigger] s[i]),
    ensures
        text::trim_seq(s) == s,
{
    if s.len() > 0 {
        assert(!text::is_ws(s[0]));
        assert(!text::is_ws(s.last()));
    }
}

/// Creates the stored record for a first passcode: an Argon2 hash with a
/// random salt, which then accepts that passcode.  It fails only for a
/// passcode longer than Argon2 accepts (`0xFFFFFFFF` bytes).
pub fn new_passcode_record(passcode: &str) -> (res: Result<String, PasscodeError>)
    ensures
        res is Ok <==> encode_utf8(passcode@).len() <= 0xFFFFFFFF,
        match res {
            Ok(h) => passcode_check(h@, passcode@) == Ok::<(), PasscodeError>(()),
            Err(e) => e matches PasscodeError::HashFailed(m) && exists|cause: Seq<char>|
                m@ == "Failed to hash passcode: "@ + cause,
        },
{
    match crypto::argon2_new_hash(passcode.as_bytes()) {
        Ok(h) => {
            proof {
                lemma_trim_no_ws(h@);
            }
            Ok(h)
        },
        Err(e) => {
            let msg = string_of(&concat_str(&chars_of("Failed to hash passcode: "), e.as_str()));
            Err(PasscodeError::HashFailed(msg))
        },
    }
}

// ---------------------------------------------------------------------------
// Discovery addresses
// ---------------------------------------------------------------------------

/// Reads the saved discovery keys from the text of the keys file: a JSON
/// array of strings, else `None`.
pub fn parse_discovery_keys(content: &str) -> (res: Option<Vec<String>>)
    ensures
        match string_array(json_parse(content@)) {
            Some(k) => res matches Some(v) && string_views(v@) == k,
            None => res is None,
        },
{
    match parse_json(content) {
        Some(j) => string_items(&j),
        None => None,
    }
}

/// The text of the keys file for a list of discovery keys: their compact JSON
/// array.
pub fn discovery_keys_text(keys: &Vec<String>) -> (res: String)
    ensures
        res@ == string_list_json(string_views(keys@)),
{
    string_list_text(keys)
}

/// The key-value service path under which discovery keys are published.
pub open spec fn kv_base() -> Seq<char> {
    "https://keyvalue.immanuel.co/api/KeyVal/UpdateValue/0gcpgxva/"@
}

/// Every `:` replaced by `_`.
pub open spec fn colons_to_underscores(s: Seq<char>) -> Seq<char> {
    s.map_values(|c: char| if c == ':' { '_' } else { c })
}

/// The address that publishes a connection target under a discovery key.
pub open spec fn publish_url_for(key: Seq<char>, target: Seq<char>) -> Seq<char> {
    kv_base() + key + "/"@ + colons_to_underscores(target) + "/"@
}

/// Builds the address that publishes `target` under `key`.
pub fn discovery_publish_url(key: &str, target: &str) -> (res: String)
    ensures
        res@ == publish_url_for(key@, target@),
{
    let t = chars_of(target);
    let mut kv: Vec<char> = Vec::new();
    let mut i: usize = 0;
    while i < t.len()
        invariant
            i <= t.len(),
            kv@ == colons_to_underscores(t@.take(i as int)),
        decreases t.len() - i,
    {
        let c = t[i];
        kv.push(if c == ':' { '_' } else { c });
        proof {
            assert(colons_to_underscores(t@.take(i + 1)) =~= colons_to_underscores(t@.take(i as int)).push(
                if c == ':' { '_' } else { c },
            ));
        }
        i = i + 1;
    }
    proof {
        assert(t@.take(t.len() as int) =~= t@);
    }
    let a = concat_str(&chars_of("https://keyvalue.immanuel.co/api/KeyVal/UpdateValue/0gcpgxva/"), key);
    let b = concat_str(&a, "/");
    let c = concat(&b, &kv);
    let d = concat_str(&c, "/");
    string_of(&d)
}

/// Builds the address that marks a discovery key offline.
pub fn discovery_clear_url(key: &str) -> (res: String)
    ensures
        res@ == kv_base() + key@ + "/offline/"@,
{
    let a = concat_str(&chars_of("https://keyvalue.immanuel.co/api/KeyVal/UpdateValue/0gcpgxva/"), key);
    let b = concat_str(&a, "/offline/");
    string_of(&b)
}

// ---------------------------------------------------------------------------
// Certificates
// ---------------------------------------------------------------------------

/// A self-signed certificate, its private key, and the certificate's
/// fingerprint.
#[derive(Clone, Debug, PartialEq, Eq)]
pub struct GeneratedCert {
    pub cert_pem: String,
    pub key_pem: String,
    pub fingerprint: String,
    /// What the certificate was made for.
    pub spec: CertSpec,
}

/// Position of the first `\n` at or after `i`, or the end of the text.
pub open spec fn line_end(s: Seq<char>, i: int) -> int
    decreases s.len() - i,
{
    if i >= s.len() || i < 0 {
        s.len() as int
    } else if s[i] == '\n' {
        i
    } else {
        line_end(s, i + 1)
    }
}

/// The line from `i` to `j` as `str::lines` gives it: a `\r` before the
/// ending `\n` is dropped.
pub open spec fn line_text(s: Seq<char>, i: int, j: int) -> Seq<char> {
    let l = s.subrange(i, j);
    if j < s.len() && l.len() > 0 && l.last() == '\r' {
        l.drop_last()
    } else {
        l
    }
}

/// The Base64 body of a PEM text from position `i` on: its lines that are not
/// `-----` armor lines, joined.
pub open spec fn pem_body_from(s: Seq<char>, i: int) -> Seq<char>
    decreases s.len() + 1 - i,
{
    if i < 0 || i >= s.len() {
        Seq::empty()
    } else {
        let j = line_end(s, i);
        proof {
            lemma_line_end_bounds(s, i);
        }
        let l = line_text(s, i, j);
        (if text::starts_with_seq(l, "-----"@) {
            Seq::empty()
        } else {
            l
        }) + pem_body_from(s, j + 1)
    }
}

/// The SHA-256 fingerprint of a PEM certificate: the digest of the DER bytes
/// its body decodes to, as uppercase hexadecimal pairs separated by `:`.
pub open spec fn fingerprint_of(cert_pem: Seq<char>) -> Result<Seq<char>, CryptoErrorView> {
    match b64_decode(pem_body_from(cert_pem, 0)) {
        Err(m) => Err(CryptoErrorView::Base64Decode(m)),
        Ok(der) => Ok(text::hex_upper_colon(sha256_spec(der))),
    }
}

/// A line ends at or after where it starts, and within the text.
pub proof fn lemma_line_end_bounds(s: Seq<char>, i: int)
    requires
        0 <= i <= s.len(),
    ensures
        i <= line_end(s, i) <= s.len(),
    decreases s.len() - i,
{
    if i < s.len() && s[i] != '\n' {
        lemma_line_end_bounds(s, i + 1);
    }
}

fn next_line_end(v: &Vec<char>, i: usize) -> (res: usize)
    requires
        i <= v@.len(),
    ensures
        res == line_end(v@, i as int),
        i <= res <= v@.len(),
{
    let mut j = i;
    while j < v.len() && v[j] != '\n'
        invariant
            i <= j <= v@.len(),
            line_end(v@, j as int) == line_end(v@, i as int),
        decreases v.len() - j,
    {
        j = j + 1;
    }
    j
}

/// The Base64 body of a PEM text.
fn pem_body(pem: &str) -> (res: Vec<char>)
    ensures
        res@ == pem_body_from(pem@, 0),
{
    let v = chars_of(pem);
    let mut out: Vec<char> = Vec::new();
    let mut i: usize = 0;
    while i < v.len()
        invariant
            v@ == pem@,
            i <= v@.len(),
            out@ + pem_body_from(v@, i as int) == pem_body_from(v@, 0),
        decreases v.len() - i,
    {
        let j = next_line_end(&v, i);
        let mut line = slice_chars(&v, i, j);
        if j < v.len() && line.len() > 0 && line[line.len() - 1] == '\r' {
            line = slice_chars(&line, 0, line.len() - 1);
            proof {
                assert(line@ =~= line_text(v@, i as int, j as int));
            }
        }
        let ghost l = line_text(v@, i as int, j as int);
        assert(line@ == l);
        let ghost kept = if text::starts_with_seq(l, "-----"@) { Seq::<char>::empty() } else { l };
        if !text::starts_with_str(&line, "-----") {
            out = text::concat(&out, &line);
        }
        proof {
            assert(pem_body_from(v@, i as int) == kept + pem_body_from(v@, j + 1));
            assert(out@ + pem_body_from(v@, j + 1) =~= pem_body_from(v@, 0));
        }
        if j < v.len() {
            i = j + 1;
        } else {
            i = j;
        }
    }
    out
}

/// Computes the SHA-256 fingerprint of a PEM certificate in colon-separated
/// uppercase hexadecimal.
pub fn calculate_sha256_fingerprint(cert_pem: &str) -> (res: Result<String, CryptoError>)
    ensures
        match res {
            Ok(f) => fingerprint_of(cert_pem@) == Ok::<Seq<char>, CryptoErrorView>(f@),
            Err(e) => fingerprint_of(cert_pem@) == Err::<Seq<char>, CryptoErrorView>(e@),
        },
{
    let body = string_of(&pem_body(cert_pem));
    match crypto::base64_decode(body.as_str()) {
        Err(m) => Err(CryptoError::Base64Decode(m)),
        Ok(der) => {
            let digest = crypto::sha256(der.as_slice());
            Ok(string_of(&text::hex_encode_upper_colon(digest.as_slice())))
        },
    }
}

#[verifier::external_type_specification]
#[verifier::external_body]
pub struct ExCertificateParams(rcgen::CertificateParams);

/// A calendar date of a certificate's validity period.
#[derive(Clone, Copy, Debug, PartialEq, Eq)]
pub struct CertDate {
    pub year: i32,
    pub month: u8,
    pub day: u8,
}

/// A calendar date the `time` crate accepts for certificate validity (every
/// month has at least 28 days).
pub open spec fn plain_date(d: CertDate) -> bool {
    -9999 <= d.year <= 9999 && 1 <= d.month <= 12 && 1 <= d.day <= 28
}

/// What a certificate is made for: its subject, validity period (year,
/// month, day), alternative names and whether it is an unconstrained
/// certificate authority.
#[derive(Clone, Debug, PartialEq, Eq)]
pub struct CertSpec {
    pub common_name: String,
    pub organization: String,
    pub not_before: CertDate,
    pub not_after: CertDate,
    pub dns_names: Vec<String>,
    pub ip_addrs: Vec<[u8; 4]>,
    pub is_ca: bool,
}

/// The organization named in the server's certificates.
pub const CERT_ORGANIZATION: &'static str = "Avatar Private Ecosystem";

/// The server's certificate for a common name: issued by "Avatar Private
/// Ecosystem", valid from 2026-01-01 to 2036-01-01, for `localhost` and
/// `127.0.0.1`, and an unconstrained certificate authority.
pub open spec fn server_cert_spec(s: CertSpec, common_name: Seq<char>) -> bool {
    &&& s.common_name@ == common_name
    &&& s.organization@ == "Avatar Private Ecosystem"@
    &&& s.not_before == CertDate { year: 2026, month: 1, day: 1 }
    &&& s.not_after == CertDate { year: 2036, month: 1, day: 1 }
    &&& s.dns_names@.len() == 1
    &&& s.dns_names@[0]@ == "localhost"@
    &&& s.ip_addrs@.len() == 1
    &&& s.ip_addrs@[0]@ == seq![127u8, 0u8, 0u8, 1u8]
    &&& s.is_ca
}

/// Every DNS name of a certificate is ASCII text.
pub open spec fn dns_names_ascii(s: CertSpec) -> bool {
    forall|i: int| 0 <= i < s.dns_names@.len() ==> vstd::utf8::is_ascii_chars(#[trigger] s.dns_names@[i]@)
}

/// What the server's certificate for `common_name` is made for.
pub fn cert_spec(common_name: &str) -> (res: CertSpec)
    ensures
        server_cert_spec(res, common_name@),
        dns_names_ascii(res),
        plain_date(res.not_before),
        plain_date(res.not_after),
{
    let mut dns_names: Vec<String> = Vec::new();
    dns_names.push("localhost".to_string());
    let mut ip_addrs: Vec<[u8; 4]> = Vec::new();
    ip_addrs.push([127u8, 0u8, 0u8, 1u8]);
    let res = CertSpec {
        common_name: common_name.to_string(),
        organization: CERT_ORGANIZATION.to_string(),
        not_before: CertDate { year: 2026, month: 1, day: 1 },
        not_after: CertDate { year: 2036, month: 1, day: 1 },
        dns_names,
        ip_addrs,
        is_ca: true,
    };
    proof {
        reveal_strlit("localhost");
        assert(res.ip_addrs@[0]@ =~= seq![127u8, 0u8, 0u8, 1u8]);
        assert(vstd::utf8::is_ascii_chars(res.dns_names@[0]@));
    }
    res
}

/// Certificate parameters for rcgen together with the spec they were made
/// from.
struct CertParams {
    params: rcgen::CertificateParams,
    spec: CertSpec,
}

/// The `rcgen::CertificateParams` for a spec's subject and extensions: the
/// defaults, with a distinguished name of the common and organization names,
/// each DNS name made an `rcgen::Ia5String` (which accepts ASCII text only,
/// else the error's description is returned), each address an IPv4 address,
/// and `is_ca` made an unconstrained authority; held with the spec.  The
/// validity period is left to [`set_validity`].  Nothing else is claimed of
/// the opaque parameters.
#[verifier::external_body]
fn cert_params_from(spec: CertSpec) -> (res: Result<CertParams, String>)
    ensures
        res is Ok <==> dns_names_ascii(spec),
        res matches Ok(p) ==> p.spec == spec,
{
    let mut p = rcgen::CertificateParams::default();
    p.distinguished_name = rcgen::DistinguishedName::new();
    p.distinguished_name.push(rcgen::DnType::CommonName, spec.common_name.as_str());
    p.distinguished_name.push(rcgen::DnType::OrganizationName, spec.organization.as_str());
    for name in spec.dns_names.iter() {
        let dns = rcgen::Ia5String::try_from(name.as_str()).map_err(|e| e.to_string())?;
        p.subject_alt_names.push(rcgen::SanType::DnsName(dns));
    }
    for ip in spec.ip_addrs.iter() {
        p.subject_alt_names.push(rcgen::SanType::IpAddress((*ip).into()));
    }
    p.is_ca = if spec.is_ca { rcgen::IsCa::Ca(rcgen::BasicConstraints::Unconstrained) } else { rcgen::IsCa::NoCa };
    Ok(CertParams { params: p, spec })
}

/// Sets the validity period of the parameters to the spec's two dates, each
/// made by `rcgen::date_time_ymd` (which panics only on dates outside the
/// calendar).
#[verifier::external_body]
fn set_validity(p: &mut CertParams)
    requires
        plain_date(old(p).spec.not_before),
        plain_date(old(p).spec.not_after),
    ensures
        final(p).spec == old(p).spec,
{
    let (from, until) = (p.spec.not_before, p.spec.not_after);
    p.params.not_before = rcgen::date_time_ymd(from.year, from.month, from.day);
    p.params.not_after = rcgen::date_time_ymd(until.year, until.month, until.day);
}

/// `rcgen::KeyPair::generate()` (a random ECDSA P-256 key) and
/// `CertificateParams::self_signed` with it: the certificate's PEM and the
/// key's PEM, or the description of rcgen's error, with the spec the
/// parameters were made from.  The key is random, so nothing is claimed of
/// the texts.
#[verifier::external_body]
fn self_sign(p: CertParams) -> (res: (Result<(String, String), String>, CertSpec))
    ensures
        res.1 == p.spec,
{
    let signed = match rcgen::KeyPair::generate() {
        Ok(key) => p.params.self_signed(&key).map(|c| (c.pem(), key.serialize_pem())).map_err(|e| e.to_string()),
        Err(e) => Err(e.to_string()),
    };
    (signed, p.spec)
}

/// Why a certificate could not be made.
#[derive(Clone, Debug, PartialEq, Eq)]
pub enum CertError {
    /// rcgen refused, with its reason.
    Generation(String),
    /// The certificate's PEM text did not decode.
    Fingerprint(CryptoError),
}

/// The certificate made for `spec` from what self-signing returned (the
/// certificate's and the key's PEM, or rcgen's reason): rcgen's refusal is a
/// generation error, and the fingerprint is taken of the certificate's PEM.
pub fn certify(spec: CertSpec, signed: Result<(String, String), String>) -> (res: Result<
    GeneratedCert,
    CertError,
>)
    ensures
        match signed {
            Err(r) => res == Err::<GeneratedCert, CertError>(CertError::Generation(r)),
            Ok((cert_pem, key_pem)) => match fingerprint_of(cert_pem@) {
                Ok(f) => res matches Ok(c) && c.cert_pem == cert_pem && c.key_pem == key_pem
                    && c.fingerprint@ == f && c.spec == spec,
                Err(e) => res matches Err(CertError::Fingerprint(ce)) && ce@ == e,
            },
        },
{
    let (cert_pem, key_pem) = match signed {
        Ok(p) => p,
        Err(e) => return Err(CertError::Generation(e)),
    };
    match calculate_sha256_fingerprint(cert_pem.as_str()) {
        Ok(fingerprint) => Ok(GeneratedCert { cert_pem, key_pem, fingerprint, spec }),
        Err(e) => Err(CertError::Fingerprint(e)),
    }
}

/// Generates a self-signed certificate authority for the given name, valid
/// from 2026-01-01 to 2036-01-01, for `localhost` and `127.0.0.1`, with a
/// fresh key; its fingerprint is that of its PEM text.  Its parameters always
/// convert, so the only failures are rcgen's and a PEM that does not decode.
pub fn generate_self_signed_cert(common_name: &str) -> (res: Result<GeneratedCert, CertError>)
    ensures
        match res {
            Ok(c) => server_cert_spec(c.spec, common_name@) && fingerprint_of(c.cert_pem@) == Ok::<
                Seq<char>,
                CryptoErrorView,
            >(c.fingerprint@),
            Err(CertError::Fingerprint(e)) => e is Base64Decode,
            Err(CertError::Generation(_)) => true,
        },
{
    let spec = cert_spec(common_name);
    let mut params = match cert_params_from(spec) {
        Ok(p) => p,
        Err(_) => {
            proof {
                assert(false);
            }
            return Err(CertError::Generation(String::new()));
        },
    };
    set_validity(&mut params);
    let (signed, spec) = self_sign(params);
    certify(spec, signed)
}

} // verus!
