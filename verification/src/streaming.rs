//! Signaling sessions with paired mobile clients: token admission, the two
//! handshakes (remote unlock of a locked host, authentication against an open
//! one), the session key shared by both sides, classification of the client's
//! messages, the screen/camera stream switch, and command routing.
use vstd::prelude::*;
use vstd::utf8::{encode_utf8, is_char_boundary, is_ascii_chars, is_ascii_chars_encode_utf8};
use vstd::string::StringSliceAdditionalSpecFns;
use crate::text;
use crate::text::{chars_of, concat, concat_str, string_of, hex_encode_lower, i64_decimal, trim, starts_with_str};
use crate::crypto::sha256_spec;
use crate::json::{Json, parse_json};
use crate::security;

verus! {

// ---------------------------------------------------------------------------
// Hexadecimal text of the stored passcode digest
// ---------------------------------------------------------------------------

/// Lowercase hexadecimal text of bytes, two digits per byte.
pub fn encode(bytes: &[u8]) -> (res: String)
    ensures
        res@ == text::hex_lower(bytes@),
{
    string_of(&hex_encode_lower(bytes))
}

/// The value of an ASCII hexadecimal digit byte (either case).
pub open spec fn hex_value(b: u8) -> Option<int> {
    if 48 <= b <= 57 {
        Some(b - 48)
    } else if 97 <= b <= 102 {
        Some(b - 87)
    } else if 65 <= b <= 70 {
        Some(b - 55)
    } else {
        None
    }
}

/// How `u8::from_str_radix(_, 16)` reads a two-byte text: a `+` sign and one
/// digit, or two digits.
pub open spec fn pair_value(b0: u8, b1: u8) -> Option<u8> {
    if b0 == 43 {
        match hex_value(b1) {
            Some(v) => Some(v as u8),
            None => None,
        }
    } else {
        match (hex_value(b0), hex_value(b1)) {
            (Some(h), Some(l)) => Some((16 * h + l) as u8),
            _ => None,
        }
    }
}

/// Every two-byte group of `b` reads as a byte.
pub open spec fn pairs_valid(b: Seq<u8>) -> bool {
    forall|k: int| 0 <= k < b.len() / 2 ==> (#[trigger] pair_value(b[2 * k], b[2 * k + 1])) is Some
}

/// The bytes read from the two-byte groups of `b`.
pub open spec fn pairs_bytes(b: Seq<u8>) -> Seq<u8> {
    Seq::new((b.len() / 2) as nat, |k: int| pair_value(b[2 * k], b[2 * k + 1])->0)
}

/// What [`decode`] gives for the UTF-8 bytes of a text.
pub open spec fn hex_decode_spec(b: Seq<u8>) -> Result<Seq<u8>, Seq<char>> {
    if b.len() % 2 != 0 {
        Err("Odd number of hexadecimal digits"@)
    } else if pairs_valid(b) {
        Ok(pairs_bytes(b))
    } else {
        Err("Invalid hex character"@)
    }
}

/// Every even byte offset of the text (up to its end) starts a character, so
/// the text can be cut into two-byte slices.
pub open spec fn even_offsets_aligned(b: Seq<u8>) -> bool {
    forall|i: int| 0 <= i <= b.len() && i % 2 == 0 ==> #[trigger] is_char_boundary(b, i)
}

fn hex_value_exec(b: u8) -> (res: Option<u8>)
    ensures
        match res {
            Some(v) => hex_value(b) == Some(v as int),
            None => hex_value(b) is None,
        },
{
    if 48 <= b && b <= 57 {
        Some(b - 48)
    } else if 97 <= b && b <= 102 {
        Some(b - 87)
    } else if 65 <= b && b <= 70 {
        Some(b - 55)
    } else {
        None
    }
}

fn pair_value_exec(b0: u8, b1: u8) -> (res: Option<u8>)
    ensures
        res == pair_value(b0, b1),
{
    if b0 == 43 {
        match hex_value_exec(b1) {
            Some(v) => Some(v),
            None => None,
        }
    } else {
        match (hex_value_exec(b0), hex_value_exec(b1)) {
            (Some(h), Some(l)) => Some(16 * h + l),
            _ => None,
        }
    }
}

/// Whether every even byte offset of a text starts a character: the texts
/// [`decode`] can cut into two-byte slices.
pub fn hex_slices_aligned(s: &str) -> (res: bool)
    ensures
        res == even_offsets_aligned(s.spec_bytes()),
{
    let n = s.as_bytes().len();
    let mut i: usize = 0;
    while i <= n
        invariant
            n == s.spec_bytes().len(),
            i % 2 == 0,
            forall|j: int| 0 <= j < i && j % 2 == 0 ==> #[trigger] is_char_boundary(s.spec_bytes(), j),
        decreases n + 2 - i,
    {
        if !s.is_char_boundary(i) {
            return false;
        }
        if n - i < 2 {
            proof {
                assert forall|j: int| 0 <= j <= n && j % 2 == 0 implies #[trigger] is_char_boundary(s.spec_bytes(), j) by {
                    if j > i {
                        assert(false);
                    }
                }
            }
            return true;
        }
        i = i + 2;
    }
    true
}

/// Reads hexadecimal text two bytes at a time (as `u8::from_str_radix` with
/// radix 16 reads each two-byte slice).
pub fn decode(s: &str) -> (res: Result<Vec<u8>, &'static str>)
    requires
        s.spec_bytes().len() % 2 == 0 ==> even_offsets_aligned(s.spec_bytes()),
    ensures
        match res {
            Ok(v) => hex_decode_spec(s.spec_bytes()) == Ok::<Seq<u8>, Seq<char>>(v@),
            Err(e) => hex_decode_spec(s.spec_bytes()) == Err::<Seq<u8>, Seq<char>>(e@),
        },
{
    let b = s.as_bytes();
    if b.len() % 2 != 0 {
        return Err("Odd number of hexadecimal digits");
    }
    let mut out: Vec<u8> = Vec::new();
    let mut i: usize = 0;
    while i < b.len()
        invariant
            b@ == s.spec_bytes(),
            b.len() % 2 == 0,
            i % 2 == 0,
            i <= b.len(),
            out@.len() == i / 2,
            forall|k: int| 0 <= k < i / 2 ==> (#[trigger] pair_value(b@[2 * k], b@[2 * k + 1])) is Some,
            forall|k: int| 0 <= k < i / 2 ==> out@[k] == pair_value(b@[2 * k], b@[2 * k + 1])->0,
        decreases b.len() - i,
    {
        let k: usize = i / 2;
        assert(2 * k == i);
        match pair_value_exec(b[i], b[i + 1]) {
            Some(v) => {
                out.push(v);
            },
            None => {
                assert(!pairs_valid(b@)) by {
                    assert(pair_value(b@[2 * (k as int)], b@[2 * (k as int) + 1]) is None);
                }
                return Err("Invalid hex character");
            },
        }
        i = i + 2;
    }
    assert(out@ =~= pairs_bytes(b@));
    Ok(out)
}

// ---------------------------------------------------------------------------
// The session key of an open host
// ---------------------------------------------------------------------------

/// A 32-byte key filled from the front with (at most 32 of) the given bytes,
/// zeros after them.
pub open spec fn key_from_bytes(d: Seq<u8>) -> Seq<u8> {
    Seq::new(32, |i: int| if i < d.len() { d[i] } else { 0u8 })
}

/// The session key an open host expects: the bytes of the stored passcode
/// digest, when the digest text is present and reads as hexadecimal.
pub open spec fn session_key_for(passcode_hash: Seq<char>) -> Option<Seq<u8>> {
    if passcode_hash.len() == 0 {
        None
    } else {
        match hex_decode_spec(encode_utf8(passcode_hash)) {
            Ok(d) => Some(key_from_bytes(d)),
            Err(_) => None,
        }
    }
}

/// Derives the session key from the stored passcode digest text.
pub fn session_key_from_hash(passcode_hash: &str) -> (res: Option<[u8; 32]>)
    requires
        passcode_hash.spec_bytes().len() % 2 == 0 ==> even_offsets_aligned(passcode_hash.spec_bytes()),
    ensures
        match res {
            Some(k) => session_key_for(passcode_hash@) == Some(k@),
            None => session_key_for(passcode_hash@) is None,
        },
{
    if passcode_hash.is_empty() {
        return None;
    }
    match decode(passcode_hash) {
        Ok(d) => {
            let mut key = [0u8; 32];
            let len: usize = if d.len() < 32 { d.len() } else { 32 };
            let mut i: usize = 0;
            while i < len
                invariant
                    len <= d@.len(),
                    len <= 32,
                    i <= len,
                    forall|j: int| 0 <= j < i ==> key@[j] == d@[j],
                    forall|j: int| len <= j < 32 ==> key@[j] == 0u8,
                decreases len - i,
            {
                key[i] = d[i];
                i = i + 1;
            }
            assert(key@ =~= key_from_bytes(d@));
            Some(key)
        },
        Err(_) => None,
    }
}

proof fn lemma_hex_lower_shape(d: Seq<u8>)
    ensures
        text::hex_lower(d).len() == 2 * d.len(),
        forall|k: int|
            0 <= k < d.len() ==> text::hex_lower(d)[2 * k] == text::hex_digit_lower((d[k] / 16) as nat)
                && text::hex_lower(d)[2 * k + 1] == text::hex_digit_lower((d[k] % 16) as nat),
    decreases d.len(),
{
    if d.len() > 0 {
        lemma_hex_lower_shape(d.drop_last());
        assert forall|k: int| 0 <= k < d.len() implies text::hex_lower(d)[2 * k]
            == text::hex_digit_lower((d[k] / 16) as nat) && text::hex_lower(d)[2 * k + 1]
            == text::hex_digit_lower((d[k] % 16) as nat) by {
            if k < d.len() - 1 {
                assert(d.drop_last()[k] == d[k]);
            }
        }
    }
}

proof fn lemma_hex_digit_reads_back(n: nat)
    requires
        n < 16,
    ensures
        '\0' <= text::hex_digit_lower(n) <= '\u{7f}',
        hex_value(text::hex_digit_lower(n) as u8) == Some(n as int),
        text::hex_digit_lower(n) as u8 != 43,
{
}

/// The hexadecimal text of bytes reads back as those bytes.
pub proof fn lemma_decode_encode(d: Seq<u8>)
    ensures
        is_ascii_chars(text::hex_lower(d)),
        hex_decode_spec(encode_utf8(text::hex_lower(d))) == Ok::<Seq<u8>, Seq<char>>(d),
        even_offsets_aligned(encode_utf8(text::hex_lower(d))),
{
    let h = text::hex_lower(d);
    lemma_hex_lower_shape(d);
    assert forall|i: int| 0 <= i < h.len() implies '\0' <= #[trigger] h[i] <= '\u{7f}' by {
        let k = i / 2;
        assert(i == 2 * k || i == 2 * k + 1);
        lemma_hex_digit_reads_back((d[k] / 16) as nat);
        lemma_hex_digit_reads_back((d[k] % 16) as nat);
    }
    is_ascii_chars_encode_utf8(h);
    let b = encode_utf8(h);
    assert forall|k: int| 0 <= k < b.len() / 2 implies (#[trigger] pair_value(b[2 * k], b[2 * k + 1]))
        == Some(d[k]) by {
        lemma_hex_digit_reads_back((d[k] / 16) as nat);
        lemma_hex_digit_reads_back((d[k] % 16) as nat);
        assert(b[2 * k] == h[2 * k] as u8);
        assert(b[2 * k + 1] == h[2 * k + 1] as u8);
    }
    assert(pairs_bytes(b) =~= d);
    lemma_ascii_aligned(h);
}

/// A hexadecimal digit of either case.
pub open spec fn hex_digit_char(c: char) -> bool {
    ('0' <= c && c <= '9') || ('a' <= c && c <= 'f') || ('A' <= c && c <= 'F')
}

/// A hexadecimal digit in lowercase: `A` to `F` become `a` to `f`.
pub open spec fn to_lower_hex_digit(c: char) -> char {
    if c == 'A' {
        'a'
    } else if c == 'B' {
        'b'
    } else if c == 'C' {
        'c'
    } else if c == 'D' {
        'd'
    } else if c == 'E' {
        'e'
    } else if c == 'F' {
        'f'
    } else {
        c
    }
}

/// A hexadecimal text with every digit in lowercase.
pub open spec fn lower_hex_text(s: Seq<char>) -> Seq<char> {
    Seq::new(s.len(), |i: int| to_lower_hex_digit(s[i]))
}

proof fn lemma_hex_char_value(c: char)
    requires
        hex_digit_char(c),
    ensures
        '\0' <= c <= '\u{7f}',
        c as u8 != 43,
        hex_value(c as u8) is Some,
        0 <= hex_value(c as u8)->0 < 16,
        text::hex_digit_lower(hex_value(c as u8)->0 as nat) == to_lower_hex_digit(c),
{
}

/// Encoding what a hexadecimal text of either case decodes to gives the
/// text back with its digits in lowercase.
pub proof fn lemma_encode_decoded(s: Seq<char>)
    requires
        s.len() % 2 == 0,
        forall|i: int| 0 <= i < s.len() ==> hex_digit_char(#[trigger] s[i]),
    ensures
        hex_decode_spec(encode_utf8(s)) is Ok,
        text::hex_lower(hex_decode_spec(encode_utf8(s))->Ok_0) == lower_hex_text(s),
{
    assert forall|i: int| 0 <= i < s.len() implies '\0' <= #[trigger] s[i] <= '\u{7f}' by {
        lemma_hex_char_value(s[i]);
    }
    is_ascii_chars_encode_utf8(s);
    let b = encode_utf8(s);
    assert forall|k: int| 0 <= k < b.len() / 2 implies (#[trigger] pair_value(b[2 * k], b[2 * k + 1])) is Some by {
        lemma_hex_char_value(s[2 * k]);
        lemma_hex_char_value(s[2 * k + 1]);
        assert(b[2 * k] == s[2 * k] as u8);
        assert(b[2 * k + 1] == s[2 * k + 1] as u8);
    }
    let d = pairs_bytes(b);
    lemma_hex_lower_shape(d);
    assert forall|i: int| 0 <= i < s.len() implies text::hex_lower(d)[i] == lower_hex_text(s)[i] by {
        let k = i / 2;
        assert(i == 2 * k || i == 2 * k + 1);
        lemma_hex_char_value(s[2 * k]);
        lemma_hex_char_value(s[2 * k + 1]);
        assert(b[2 * k] == s[2 * k] as u8);
        assert(b[2 * k + 1] == s[2 * k + 1] as u8);
        let h = hex_value(s[2 * k] as u8)->0;
        let l = hex_value(s[2 * k + 1] as u8)->0;
        assert(d[k] == (16 * h + l) as u8);
        assert(d[k] / 16 == h && d[k] % 16 == l) by (nonlinear_arith)
            requires d[k] == (16 * h + l) as u8, 0 <= h < 16, 0 <= l < 16;
    }
    assert(text::hex_lower(d) =~= lower_hex_text(s));
}

proof fn lemma_ascii_aligned(h: Seq<char>)
    requires
        is_ascii_chars(h),
    ensures
        even_offsets_aligned(encode_utf8(h)),
{
    is_ascii_chars_encode_utf8(h);
    let b = encode_utf8(h);
    vstd::utf8::encode_utf8_valid_utf8(h);
    vstd::utf8::is_char_boundary_start_end_of_seq(b);
    assert forall|i: int| 0 <= i <= b.len() && i % 2 == 0 implies #[trigger] is_char_boundary(b, i) by {
        if i < b.len() {
            assert(b[i] == h[i] as u8);
            vstd::utf8::is_char_boundary_iff_not_is_continuation_byte(b, i);
        }
    }
}

/// The key an open host derives from the stored digest of a passcode (its
/// hex SHA-256, as unlocking stores it) is the SHA-256 of the passcode itself,
/// the key a client that knows the passcode derives.
pub proof fn lemma_session_key_matches_passcode(passcode: Seq<char>)
    requires
        sha256_spec(encode_utf8(passcode)).len() == 32,
    ensures
        session_key_for(text::hex_lower(sha256_spec(encode_utf8(passcode))))
            == Some(sha256_spec(encode_utf8(passcode))),
{
    let d = sha256_spec(encode_utf8(passcode));
    lemma_decode_encode(d);
    lemma_hex_lower_shape(d);
    assert(key_from_bytes(d) =~= d);
}


// ---------------------------------------------------------------------------
// Admission of a connection's token
// ---------------------------------------------------------------------------

/// While the vault is locked, a token is admitted only if its discovery key
/// (hex SHA-256 of `discovery_` and the token) is among the published keys.
pub fn locked_token_accepted(discovery_keys: &Vec<String>, token: &str) -> (res: bool)
    ensures
        res == exists|i: int|
            0 <= i < discovery_keys@.len() && discovery_keys@[i]@ == security::hex_digest(
                "discovery_"@ + token@,
            ),
{
    let key = security::discovery_key(token);
    text::vec_contains_string(discovery_keys, &key)
}

/// While the vault is locked, whether a token is admitted by the text of the
/// saved keys file: it must be a JSON array of strings holding the token's
/// discovery key; a file that does not read so admits nothing.
pub fn locked_token_admitted(discovery_keys_json: &str, token: &str) -> (res: bool)
    ensures
        res == match crate::json::string_array(crate::json::json_parse(discovery_keys_json@)) {
            Some(k) => exists|i: int|
                0 <= i < k.len() && k[i] == security::hex_digest("discovery_"@ + token@),
            None => false,
        },
{
    match security::parse_discovery_keys(discovery_keys_json) {
        Some(keys) => {
            let r = locked_token_accepted(&keys, token);
            proof {
                let k = crate::json::string_views(keys@);
                if r {
                    let i = choose|i: int|
                        0 <= i < keys@.len() && keys@[i]@ == security::hex_digest(
                            "discovery_"@ + token@,
                        );
                    assert(k[i] == keys@[i]@);
                } else {
                    assert forall|i: int| 0 <= i < k.len() implies k[i] != security::hex_digest(
                        "discovery_"@ + token@,
                    ) by {
                        assert(k[i] == keys@[i]@);
                    }
                }
            }
            r
        },
        None => false,
    }
}

/// How an open vault judges a token.
#[derive(Clone, Copy, Debug, PartialEq, Eq, Structural)]
pub enum TokenVerdict {
    /// The token's digest belongs to a session that has not expired.
    ActiveSession,
    /// The token's digest names a device being paired that has no session yet:
    /// approve the device and record a new 30-day session for it.
    PairDevice,
    /// Every session of the token has expired: the token is refused, so a
    /// stale or replayed token does not open a session again.
    Expired,
    /// Neither a session nor a device: the connection is refused.
    Refused,
}

impl TokenVerdict {
    /// Whether the connection is admitted.
    pub fn admits(&self) -> (res: bool)
        ensures
            res == (*self is ActiveSession || *self is PairDevice),
    {
        matches!(self, TokenVerdict::ActiveSession | TokenVerdict::PairDevice)
    }
}

/// A count read from the vault; a failed query counts as none found.
pub open spec fn found(count: Option<i64>) -> bool {
    count matches Some(n) && n > 0
}

/// The verdict on a token from the number of its unexpired sessions, of all
/// its sessions (expired or not) and of devices recorded under its digest.
/// A device only earns a new session while it has none: once its sessions
/// have expired, the token is refused.
pub open spec fn token_verdict_for(
    active_sessions: Option<i64>,
    all_sessions: Option<i64>,
    devices: Option<i64>,
) -> TokenVerdict {
    if found(active_sessions) {
        TokenVerdict::ActiveSession
    } else if found(all_sessions) {
        TokenVerdict::Expired
    } else if found(devices) {
        TokenVerdict::PairDevice
    } else {
        TokenVerdict::Refused
    }
}

/// Judges a token against an open vault's session and device records.
pub fn unlocked_token_verdict(
    active_sessions: Option<i64>,
    all_sessions: Option<i64>,
    devices: Option<i64>,
) -> (res: TokenVerdict)
    ensures
        res == token_verdict_for(active_sessions, all_sessions, devices),
{
    if let Some(n) = active_sessions {
        if n > 0 {
            return TokenVerdict::ActiveSession;
        }
    }
    if let Some(n) = all_sessions {
        if n > 0 {
            return TokenVerdict::Expired;
        }
    }
    if let Some(m) = devices {
        if m > 0 {
            return TokenVerdict::PairDevice;
        }
    }
    TokenVerdict::Refused
}

/// A token whose sessions have all expired is never admitted again, whatever
/// device records remain.
pub proof fn lemma_expired_tokens_refused(
    active_sessions: Option<i64>,
    all_sessions: Option<i64>,
    devices: Option<i64>,
)
    requires
        !found(active_sessions),
        found(all_sessions),
    ensures
        token_verdict_for(active_sessions, all_sessions, devices) == TokenVerdict::Expired,
{
}

/// A token with an unexpired session is admitted as that session, whatever
/// else is recorded under it: a reconnecting phone is never paired again and
/// no further session is recorded for it.
pub proof fn lemma_live_session_admitted(
    active_sessions: Option<i64>,
    all_sessions: Option<i64>,
    devices: Option<i64>,
)
    requires
        active_sessions matches Some(n) && n > 0,
    ensures
        token_verdict_for(active_sessions, all_sessions, devices) == TokenVerdict::ActiveSession,
{
}

/// A device is paired (approved, with a new session recorded) exactly when
/// its token has no session at all, live or expired, and a device record
/// exists under its digest; a token with neither sessions nor devices is
/// refused.
pub proof fn lemma_pairing_needs_device_without_sessions(
    active_sessions: Option<i64>,
    all_sessions: Option<i64>,
    devices: Option<i64>,
)
    ensures
        (token_verdict_for(active_sessions, all_sessions, devices) == TokenVerdict::PairDevice) <==> (
        !(active_sessions matches Some(n) && n > 0) && !(all_sessions matches Some(n) && n > 0) && (
        devices matches Some(m) && m > 0)),
        (!(active_sessions matches Some(n) && n > 0) && !(all_sessions matches Some(n) && n > 0) && !(
        devices matches Some(m) && m > 0)) ==> token_verdict_for(active_sessions, all_sessions, devices)
            == TokenVerdict::Refused,
{
}

/// A fresh session identifier: `sess_` followed by a random UUID.
pub fn new_session_id() -> (res: String)
    ensures
        exists|u: Seq<char>| security::uuid_v4_hyphenated(u) && res@ == "sess_"@ + u,
{
    let u = security::uuid_hyphenated();
    string_of(&concat_str(&chars_of("sess_"), u.as_str()))
}

// ---------------------------------------------------------------------------
// Handshake
// ---------------------------------------------------------------------------

/// The host's first answer on a connection, after judging its token.
#[derive(Debug)]
pub enum Greeting {
    /// The token was refused: send `AUTH_FAILED` and close.
    Refused,
    /// The vault is locked: send `HOST_LOCKED` and wait for an unlock request
    /// sealed under the temporary key (the SHA-256 of the token).
    HostLocked { temporary_key: [u8; 32] },
    /// The vault is open: send `NEED_AUTH` and wait for an authenticate request
    /// sealed under the session key.
    NeedAuth,
}

/// The text the host sends for a greeting.
pub open spec fn greeting_text(g: Greeting) -> Seq<char> {
    match g {
        Greeting::Refused => "AUTH_FAILED"@,
        Greeting::HostLocked { .. } => "HOST_LOCKED"@,
        Greeting::NeedAuth => "NEED_AUTH"@,
    }
}

/// A refused connection is told `AUTH_FAILED`, a locked host says
/// `HOST_LOCKED` and an open one `NEED_AUTH`: three different words, so a
/// client can always tell them apart.
pub proof fn lemma_greetings_distinct(key: [u8; 32])
    ensures
        greeting_text(Greeting::Refused) == "AUTH_FAILED"@,
        greeting_text((Greeting::HostLocked { temporary_key: key })) == "HOST_LOCKED"@,
        greeting_text(Greeting::NeedAuth) == "NEED_AUTH"@,
        greeting_text(Greeting::Refused) != greeting_text(Greeting::NeedAuth),
        greeting_text(Greeting::Refused) != greeting_text((Greeting::HostLocked { temporary_key: key })),
        greeting_text(Greeting::NeedAuth) != greeting_text((Greeting::HostLocked { temporary_key: key })),
{
    reveal_strlit("AUTH_FAILED");
    reveal_strlit("HOST_LOCKED");
    reveal_strlit("NEED_AUTH");
    assert("AUTH_FAILED"@.len() == 11 && "HOST_LOCKED"@.len() == 11 && "NEED_AUTH"@.len() == 9);
    assert("AUTH_FAILED"@[0] == 'A' && "HOST_LOCKED"@[0] == 'H');
}

impl Greeting {
    /// The text the host sends for this greeting.
    pub fn text(&self) -> (res: &'static str)
        ensures
            res@ == greeting_text(*self),
    {
        match self {
            Greeting::Refused => "AUTH_FAILED",
            Greeting::HostLocked { .. } => "HOST_LOCKED",
            Greeting::NeedAuth => "NEED_AUTH",
        }
    }
}

/// Greets a connection whose token has been judged.
pub fn greet(token: &str, token_accepted: bool, host_locked: bool) -> (res: Greeting)
    ensures
        !token_accepted ==> res is Refused,
        token_accepted && host_locked ==> (res matches Greeting::HostLocked { temporary_key }
            && temporary_key@ == sha256_spec(encode_utf8(token@))),
        token_accepted && !host_locked ==> res is NeedAuth,
{
    if !token_accepted {
        return Greeting::Refused;
    }
    let temporary_key = security::sha256_key(token);
    if host_locked {
        Greeting::HostLocked { temporary_key }
    } else {
        Greeting::NeedAuth
    }
}

/// `AUTH_OK <width> <height>`: the confirmation sent once a session is
/// established, with the host screen's size.
pub open spec fn auth_ok_text(width: i32, height: i32) -> Seq<char> {
    "AUTH_OK "@ + text::int_decimal(width as int) + " "@ + text::int_decimal(height as int)
}

/// The confirmation sent once a session is established.
pub fn auth_ok_message(width: i32, height: i32) -> (res: String)
    ensures
        res@ == auth_ok_text(width, height),
{
    let a = concat(&chars_of("AUTH_OK "), &i64_decimal(width as i64));
    let b = concat(&concat_str(&a, " "), &i64_decimal(height as i64));
    string_of(&b)
}

/// The `action` member of a request, or empty text.
pub open spec fn action_of(j: Json) -> Seq<char> {
    match crate::json::get_str_spec(j, "action"@) {
        Some(a) => a,
        None => Seq::empty(),
    }
}

fn action_text(j: &Json) -> (res: String)
    ensures
        res@ == action_of(*j),
{
    match j.get_str("action") {
        Some(a) => a.to_string(),
        None => String::new(),
    }
}

/// Opens an unlock request sent to a locked host under the temporary key.
pub fn open_unlock_request(temporary_key: &[u8; 32], message: &str) -> (res: Option<String>)
    ensures
        match security::open_text(temporary_key@, message@) {
            Ok(t) => res matches Some(r) && r@ == t,
            Err(_) => res is None,
        },
{
    match security::decrypt_aes_gcm(temporary_key, message) {
        Ok(t) => Some(t),
        Err(_) => None,
    }
}

/// The text in the reply to an unlock request that marks success.
pub open spec fn unlock_success_marker() -> Seq<char> {
    "Remote unlock successful"@
}

/// The passcode carried by an unlock request (`params.passcode`, or empty
/// text), if the request is a JSON document.
pub open spec fn unlock_passcode_of(request: Seq<char>) -> Option<Seq<char>> {
    match crate::json::json_parse(request) {
        None => None,
        Some(j) => Some(
            match crate::json::json_get(j, "params"@) {
                Some(p) => match crate::json::get_str_spec(p, "passcode"@) {
                    Some(s) => s,
                    None => Seq::empty(),
                },
                None => Seq::empty(),
            },
        ),
    }
}

/// What a locked host does once its unlock request has been handled.
pub struct UnlockConclusion {
    /// The texts to send, in order, each sealed under `seal_key` (a text that
    /// cannot be sealed is skipped).
    pub texts: Vec<String>,
    /// The key the texts are sealed under.
    pub seal_key: [u8; 32],
    /// The established session key; without one the connection is closed.
    pub session_key: Option<[u8; 32]>,
}

fn unlock_passcode(request: &Json) -> (res: String)
    ensures
        Some(res@) == (match crate::json::json_get(*request, "params"@) {
            Some(p) => match crate::json::get_str_spec(p, "passcode"@) {
                Some(s) => Some(s),
                None => Some(Seq::<char>::empty()),
            },
            None => Some(Seq::<char>::empty()),
        }),
{
    match request.get("params") {
        Some(p) => match p.get_str("passcode") {
            Some(s) => s.to_string(),
            None => String::new(),
        },
        None => String::new(),
    }
}

/// Concludes the remote unlock of a locked host.  On success (the reply holds
/// the success marker) the session key is the SHA-256 of the passcode in the
/// request, and the reply and `AUTH_OK` are sent under it; on refusal the reply
/// is sent under the temporary key and the connection closes.
pub fn conclude_unlock(
    temporary_key: &[u8; 32],
    request: &str,
    reply: Result<String, String>,
    width: i32,
    height: i32,
) -> (res: UnlockConclusion)
    ensures
        match reply {
            Err(_) => res.texts@.len() == 0 && res.session_key is None,
            Ok(r) => if text::contains_seq(r@, unlock_success_marker()) {
                match unlock_passcode_of(request@) {
                    None => res.texts@.len() == 0 && res.session_key is None,
                    Some(p) => res.session_key == Some(res.seal_key) && res.seal_key@
                        == sha256_spec(encode_utf8(p)) && crate::automation::string_views(
                        res.texts@,
                    ) == seq![r@, auth_ok_text(width, height)],
                }
            } else {
                res.session_key is None && res.seal_key == *temporary_key
                    && crate::automation::string_views(res.texts@) == seq![r@]
            },
        },
{
    let r = match reply {
        Err(_) => {
            return UnlockConclusion { texts: Vec::new(), seal_key: *temporary_key, session_key: None };
        },
        Ok(r) => r,
    };
    let rc = chars_of(r.as_str());
    if !text::contains_str(&rc, "Remote unlock successful") {
        let mut texts: Vec<String> = Vec::new();
        texts.push(r);
        proof {
            assert(crate::automation::string_views(texts@) =~= seq![rc@]);
        }
        return UnlockConclusion { texts, seal_key: *temporary_key, session_key: None };
    }
    match parse_json(request) {
        None => UnlockConclusion { texts: Vec::new(), seal_key: *temporary_key, session_key: None },
        Some(j) => {
            let passcode = unlock_passcode(&j);
            let key = security::sha256_key(passcode.as_str());
            let ok = auth_ok_message(width, height);
            let mut texts: Vec<String> = Vec::new();
            texts.push(r);
            texts.push(ok);
            proof {
                assert(crate::automation::string_views(texts@) =~= seq![rc@, auth_ok_text(width, height)]);
            }
            UnlockConclusion { texts, seal_key: key, session_key: Some(key) }
        },
    }
}

/// How an open host answers an authenticate request.
#[derive(Debug)]
pub enum AuthOutcome {
    /// No passcode digest is stored, so no session key: close.
    NoKey,
    /// The request does not open under the session key: send `AUTH_FAILED`
    /// and close.
    Failed,
    /// The request opened but is not an `authenticate` request: close.
    NotAuthenticate,
    /// The client proved it holds the session key: send `AUTH_OK` sealed
    /// under it and serve the session.
    Authenticated { session_key: [u8; 32] },
}

/// Authenticates a client of an open host: the request must open under the
/// session key derived from the stored passcode digest and ask for
/// `authenticate`.
pub fn authenticate(passcode_hash: &str, message: &str) -> (res: AuthOutcome)
    requires
        passcode_hash.spec_bytes().len() % 2 == 0 ==> even_offsets_aligned(passcode_hash.spec_bytes()),
    ensures
        match session_key_for(passcode_hash@) {
            None => res is NoKey,
            Some(k) => match security::open_text(k, message@) {
                Err(_) => res is Failed,
                Ok(t) => if (crate::json::json_parse(t) matches Some(j) && action_of(j)
                    == "authenticate"@) {
                    res matches AuthOutcome::Authenticated { session_key } && session_key@ == k
                } else {
                    res is NotAuthenticate
                },
            },
        },
{
    let key = match session_key_from_hash(passcode_hash) {
        None => return AuthOutcome::NoKey,
        Some(k) => k,
    };
    let t = match security::decrypt_aes_gcm(&key, message) {
        Err(_) => return AuthOutcome::Failed,
        Ok(t) => t,
    };
    match parse_json(t.as_str()) {
        None => AuthOutcome::NotAuthenticate,
        Some(j) => {
            let a = action_text(&j);
            if text::eq_str(&chars_of(a.as_str()), "authenticate") {
                AuthOutcome::Authenticated { session_key: key }
            } else {
                AuthOutcome::NotAuthenticate
            }
        },
    }
}

// ---------------------------------------------------------------------------
// An established session
// ---------------------------------------------------------------------------

/// A frame the host sends to an authenticated client.
#[derive(Debug, PartialEq, Eq)]
pub enum OutgoingFrame {
    Text(String),
    Binary(Vec<u8>),
}

/// Seals a frame under the connection's session key before it is sent: text
/// as the Base64 text of `nonce || ciphertext || tag`, bytes as that frame
/// itself; each opens back under the session key to what was sealed.  `None`
/// when AES-GCM refuses the plaintext (longer than it accepts): that frame is
/// not sent.
pub fn seal_outgoing(session_key: &[u8; 32], frame: OutgoingFrame) -> (res: Option<OutgoingFrame>)
    ensures
        match frame {
            OutgoingFrame::Text(t) => if encode_utf8(t@).len() <= crate::crypto::aes_gcm_p_max() {
                res matches Some(OutgoingFrame::Text(s)) && security::sealed_text(
                    session_key@,
                    encode_utf8(t@),
                    s@,
                ) && security::open_text(session_key@, s@) == Ok::<
                    Seq<char>,
                    security::CryptoErrorView,
                >(t@)
            } else {
                res is None
            },
            OutgoingFrame::Binary(b) => if b@.len() <= crate::crypto::aes_gcm_p_max() {
                res matches Some(OutgoingFrame::Binary(f)) && security::sealed_bytes(
                    session_key@,
                    b@,
                    f@,
                ) && security::open_frame(session_key@, f@) == Ok::<
                    Seq<u8>,
                    security::CryptoErrorView,
                >(b@)
            } else {
                res is None
            },
        },
{
    match frame {
        OutgoingFrame::Text(t) => match security::encrypt_aes_gcm(session_key, t.as_str()) {
            Ok(s) => Some(OutgoingFrame::Text(s)),
            Err(_) => None,
        },
        OutgoingFrame::Binary(b) => match security::encrypt_aes_gcm_bin(session_key, b.as_slice()) {
            Ok(f) => Some(OutgoingFrame::Binary(f)),
            Err(_) => None,
        },
    }
}

/// What a sealed message from an authenticated client asks for.
#[derive(Debug)]
pub enum ClientMessage {
    /// It does not open under the session key, or looks like JSON but is not:
    /// it is dropped.
    Ignored,
    /// Start streaming the screen (stopping the camera).
    StartScreen,
    /// Start streaming the camera (stopping the screen).
    StartCamera,
    /// Any other JSON request: a command for the host.
    Command(String),
    /// Text that is not JSON: a WebRTC session offer.
    Offer(String),
}

/// Classifies a sealed message of an authenticated client.
pub fn classify_message(session_key: &[u8; 32], message: &str) -> (res: ClientMessage)
    ensures
        match security::open_text(session_key@, message@) {
            Err(_) => res is Ignored,
            Ok(t) => if text::starts_with_seq(text::trim_seq(t), "{"@) {
                match crate::json::json_parse(t) {
                    None => res is Ignored,
                    Some(j) => if action_of(j) == "start_screen"@ {
                        res is StartScreen
                    } else if action_of(j) == "start_camera"@ {
                        res is StartCamera
                    } else {
                        res matches ClientMessage::Command(c) && c@ == t
                    },
                }
            } else {
                res matches ClientMessage::Offer(o) && o@ == t
            },
        },
{
    let t = match security::decrypt_aes_gcm(session_key, message) {
        Err(_) => return ClientMessage::Ignored,
        Ok(t) => t,
    };
    let trimmed = trim(&chars_of(t.as_str()));
    if !starts_with_str(&trimmed, "{") {
        return ClientMessage::Offer(t);
    }
    match parse_json(t.as_str()) {
        None => ClientMessage::Ignored,
        Some(j) => {
            let a = chars_of(action_text(&j).as_str());
            if text::eq_str(&a, "start_screen") {
                ClientMessage::StartScreen
            } else if text::eq_str(&a, "start_camera") {
                ClientMessage::StartCamera
            } else {
                ClientMessage::Command(t)
            }
        },
    }
}

/// Which of a session's two streams are running.  At most one runs at a
/// time: every operation leaves the screen and the camera not both active.
pub struct StreamFlags {
    screen: bool,
    camera: bool,
}

impl StreamFlags {
    /// Whether the screen stream runs.
    pub closed spec fn screen(&self) -> bool {
        self.screen
    }

    /// Whether the camera stream runs.
    pub closed spec fn camera(&self) -> bool {
        self.camera
    }

    /// Neither stream runs.
    pub fn new() -> (res: Self)
        ensures
            !res.screen(),
            !res.camera(),
    {
        StreamFlags { screen: false, camera: false }
    }

    /// Whether the screen stream runs.
    pub fn screen_active(&self) -> (res: bool)
        ensures
            res == self.screen(),
    {
        self.screen
    }

    /// Whether the camera stream runs.
    pub fn camera_active(&self) -> (res: bool)
        ensures
            res == self.camera(),
    {
        self.camera
    }

    /// A `start_screen` request: the camera stops and the screen runs; the
    /// result says whether a new screen stream must be started (it was not
    /// already running).
    pub fn start_screen(&mut self) -> (res: bool)
        ensures
            final(self).screen(),
            !final(self).camera(),
            res == !old(self).screen(),
    {
        self.camera = false;
        let start = !self.screen;
        self.screen = true;
        start
    }

    /// A `start_camera` request: the screen stops and the camera runs; the
    /// result says whether a new camera stream must be started (it was not
    /// already running).
    pub fn start_camera(&mut self) -> (res: bool)
        ensures
            final(self).camera(),
            !final(self).screen(),
            res == !old(self).camera(),
    {
        self.screen = false;
        let start = !self.camera;
        self.camera = true;
        start
    }

    /// The camera could not be started.
    pub fn camera_failed(&mut self)
        ensures
            !final(self).camera(),
            final(self).screen() == old(self).screen(),
    {
        self.camera = false;
    }

    /// The screen stream's loop has ended.
    pub fn screen_ended(&mut self)
        ensures
            !final(self).screen(),
            final(self).camera() == old(self).camera(),
    {
        self.screen = false;
    }

    /// The camera stream's loop has ended.
    pub fn camera_ended(&mut self)
        ensures
            !final(self).camera(),
            final(self).screen() == old(self).screen(),
    {
        self.camera = false;
    }

    /// The connection closed: both streams stop.
    pub fn close(&mut self)
        ensures
            !final(self).screen(),
            !final(self).camera(),
    {
        self.screen = false;
        self.camera = false;
    }
}

/// The kind of a stream announced to the client.
#[derive(Clone, Copy, Debug, PartialEq, Eq, Structural)]
pub enum StreamKind {
    Screen,
    Camera,
}

/// The announcement sent when a stream starts: a JSON object with the
/// frame size and the stream's type, members in name order as `serde_json`
/// prints its maps.
pub open spec fn stream_info_text(kind: StreamKind, width: i64, height: i64) -> Seq<char> {
    "{\"height\":"@ + text::int_decimal(height as int) + ",\"type\":\""@ + (match kind {
        StreamKind::Screen => "screen_info"@,
        StreamKind::Camera => "camera_info"@,
    }) + "\",\"width\":"@ + text::int_decimal(width as int) + "}"@
}

/// The announcement sent when a stream starts.
pub fn stream_info(kind: StreamKind, width: i64, height: i64) -> (res: String)
    ensures
        res@ == stream_info_text(kind, width, height),
{
    let a = concat(&chars_of("{\"height\":"), &i64_decimal(height));
    let b = concat_str(&a, ",\"type\":\"");
    let c = match kind {
        StreamKind::Screen => concat_str(&b, "screen_info"),
        StreamKind::Camera => concat_str(&b, "camera_info"),
    };
    let d = concat(&concat_str(&c, "\",\"width\":"), &i64_decimal(width));
    string_of(&concat_str(&d, "}"))
}

// ---------------------------------------------------------------------------
// Commands of a session
// ---------------------------------------------------------------------------

/// Input commands that work over a paired connection without the vault.
pub open spec fn remote_input_action(action: Seq<char>) -> bool {
    action == "move_mouse"@ || action == "click"@ || action == "scroll"@ || action == "type_text"@
        || action == "press_key"@ || action == "press_shortcut"@ || action == "unlock_os"@
}

/// Input commands that work over a paired connection without the vault.
pub fn is_remote_input_action(action: &str) -> (res: bool)
    ensures
        res == remote_input_action(action@),
{
    let a = chars_of(action);
    text::eq_str(&a, "move_mouse") || text::eq_str(&a, "click") || text::eq_str(&a, "scroll")
        || text::eq_str(&a, "type_text") || text::eq_str(&a, "press_key") || text::eq_str(
        &a,
        "press_shortcut",
    ) || text::eq_str(&a, "unlock_os")
}

/// The command a mobile client's JSON text carries, as serde reads a record
/// of a string `action` and a `params` value: the members of those names of
/// an object, or the two items of an array of exactly two whose first is a
/// string; `None` for any other document or text.
pub open spec fn mobile_command(doc: Option<Json>) -> Option<(Seq<char>, Json)> {
    match doc {
        Some(j) => match j {
            Json::Object(_) => match (crate::json::get_str_spec(j, "action"@), crate::json::json_get(j, "params"@)) {
                (Some(a), Some(p)) => Some((a, p)),
                _ => None,
            },
            Json::Array(items) => if items@.len() == 2 && crate::json::json_str(items@[0]) is Some {
                Some((crate::json::json_str(items@[0])->0, items@[1]))
            } else {
                None
            },
            _ => None,
        },
        None => None,
    }
}

fn command_from_json(j: Json) -> (res: Option<(String, Json)>)
    ensures
        match mobile_command(Some(j)) {
            Some((a, p)) => res matches Some((ra, rp)) && ra@ == a && rp == p,
            None => res is None,
        },
{
    match j {
        Json::Object(_) => {
            let action = match j.get_str("action") {
                Some(a) => a.to_string(),
                None => return None,
            };
            match j {
                Json::Object(mut fields) => match crate::json::find_member(&fields, "params") {
                    Some(k) => {
                        let (_, p) = fields.remove(k);
                        Some((action, p))
                    },
                    None => None,
                },
                _ => None,
            }
        },
        Json::Array(mut items) => {
            if items.len() != 2 {
                return None;
            }
            let p = items.remove(1);
            let a = items.remove(0);
            match a {
                Json::Str(s) => Some((s, p)),
                _ => None,
            }
        },
        _ => None,
    }
}

/// Reads a client's command (an action and its parameters) from its JSON
/// text, as it comes over the session socket or the data channel.
pub fn parse_mobile_command(text: &str) -> (res: Option<(String, Json)>)
    ensures
        match mobile_command(crate::json::json_parse(text@)) {
            Some((a, p)) => res matches Some((ra, rp)) && ra@ == a && rp == p,
            None => res is None,
        },
{
    match parse_json(text) {
        Some(j) => command_from_json(j),
        None => None,
    }
}

/// Mouse and keyboard input (`move_mouse`, `click`, `scroll`, `type_text`,
/// `press_key`, `press_shortcut`, `unlock_os`) is routed as remote input
/// whether or not the vault is open.
pub proof fn lemma_remote_input_needs_no_vault(action: Seq<char>, vault_open: bool)
    requires
        action == "scroll"@ || action == "move_mouse"@ || action == "click"@ || action
            == "type_text"@ || action == "press_key"@ || action == "press_shortcut"@ || action
            == "unlock_os"@,
    ensures
        route_for(action, vault_open) == CommandRoute::RemoteInput,
{
    reveal_strlit("unlock_host");
    reveal_strlit("move_mouse");
    reveal_strlit("click");
    reveal_strlit("scroll");
    reveal_strlit("type_text");
    reveal_strlit("press_key");
    reveal_strlit("press_shortcut");
    reveal_strlit("unlock_os");
    reveal_strlit("send_command");
    reveal_strlit("get_metrics");
    reveal_strlit("emergency_kill");
    assert("unlock_host"@.len() == 11);
    assert(action.len() != 11);
    assert(action != "unlock_host"@);
    assert(remote_input_action(action));
}

/// While the vault is locked every command but `unlock_host` and remote
/// input is refused with `Database is locked`; once it is open none is, and
/// `unlock_host` always goes to the unlock.
pub proof fn lemma_locked_vault_gates_commands(action: Seq<char>)
    ensures
        action == "unlock_host"@ ==> route_for(action, false) == CommandRoute::UnlockHost
            && route_for(action, true) == CommandRoute::UnlockHost,
        (action != "unlock_host"@ && action != "move_mouse"@ && action != "click"@ && action
            != "scroll"@ && action != "type_text"@ && action != "press_key"@ && action
            != "press_shortcut"@ && action != "unlock_os"@) ==> route_for(action, false)
            == CommandRoute::VaultLocked,
        route_for(action, true) != CommandRoute::VaultLocked,
        action == "send_command"@ ==> route_for(action, true) == CommandRoute::SendCommand,
        action == "get_metrics"@ ==> route_for(action, true) == CommandRoute::GetMetrics,
        action == "emergency_kill"@ ==> route_for(action, true) == CommandRoute::EmergencyKill,
{
    reveal_strlit("unlock_host");
    reveal_strlit("move_mouse");
    reveal_strlit("click");
    reveal_strlit("scroll");
    reveal_strlit("type_text");
    reveal_strlit("press_key");
    reveal_strlit("press_shortcut");
    reveal_strlit("unlock_os");
    reveal_strlit("send_command");
    reveal_strlit("get_metrics");
    reveal_strlit("emergency_kill");
    if action == "send_command"@ {
        assert(action.len() == 12);
        assert(action != "unlock_host"@);
        assert(!remote_input_action(action));
    }
    if action == "get_metrics"@ {
        assert(action[0] == 'g' && "unlock_host"@[0] == 'u');
        assert(action != "unlock_host"@);
        assert(action.len() == 11);
        assert(!remote_input_action(action));
    }
    if action == "emergency_kill"@ {
        assert(action[0] == 'e' && "press_shortcut"@[0] == 'p');
        assert(action != "unlock_host"@);
        assert(!remote_input_action(action));
    }
}

/// Where a session command goes.
#[derive(Clone, Copy, Debug, PartialEq, Eq, Structural)]
pub enum CommandRoute {
    /// Unlock the vault with the passcode in the parameters.
    UnlockHost,
    /// Mouse or keyboard input, dispatched without the vault.
    RemoteInput,
    /// The command needs the vault, which is locked: `Database is locked`.
    VaultLocked,
    /// A chat message for the assistant.
    SendCommand,
    /// The telemetry report.
    GetMetrics,
    /// Revoke every pairing and session.
    EmergencyKill,
    /// Any other intent, dispatched as it is.
    Dispatch,
}

/// Where a command with this action goes, given whether the vault is open.
pub open spec fn route_for(action: Seq<char>, vault_open: bool) -> CommandRoute {
    if action == "unlock_host"@ {
        CommandRoute::UnlockHost
    } else if remote_input_action(action) {
        CommandRoute::RemoteInput
    } else if !vault_open {
        CommandRoute::VaultLocked
    } else if action == "send_command"@ {
        CommandRoute::SendCommand
    } else if action == "get_metrics"@ {
        CommandRoute::GetMetrics
    } else if action == "emergency_kill"@ {
        CommandRoute::EmergencyKill
    } else {
        CommandRoute::Dispatch
    }
}

/// Routes a session command by its action.
pub fn route_command(action: &str, vault_open: bool) -> (res: CommandRoute)
    ensures
        res == route_for(action@, vault_open),
{
    let a = chars_of(action);
    if text::eq_str(&a, "unlock_host") {
        CommandRoute::UnlockHost
    } else if is_remote_input_action(action) {
        CommandRoute::RemoteInput
    } else if !vault_open {
        CommandRoute::VaultLocked
    } else if text::eq_str(&a, "send_command") {
        CommandRoute::SendCommand
    } else if text::eq_str(&a, "get_metrics") {
        CommandRoute::GetMetrics
    } else if text::eq_str(&a, "emergency_kill") {
        CommandRoute::EmergencyKill
    } else {
        CommandRoute::Dispatch
    }
}

/// The passcode of an `unlock_host` command: the string `passcode` member of
/// its parameters, or the error `Missing passcode`.
pub fn unlock_host_passcode(params: &Json) -> (res: Result<String, String>)
    ensures
        match crate::json::get_str_spec(*params, "passcode"@) {
            Some(p) => res matches Ok(r) && r@ == p,
            None => res matches Err(e) && e@ == "Missing passcode"@,
        },
{
    match params.get_str("passcode") {
        Some(p) => Ok(p.to_string()),
        None => Err("Missing passcode".to_string()),
    }
}

/// The text and session of a `send_command` command: its string members
/// `text` and `session_id`, or the error naming the first one missing.
pub fn chat_command_params(params: &Json) -> (res: Result<(String, String), String>)
    ensures
        match (crate::json::get_str_spec(*params, "text"@), crate::json::get_str_spec(
            *params,
            "session_id"@,
        )) {
            (None, _) => res matches Err(e) && e@ == "Missing text param"@,
            (Some(_), None) => res matches Err(e) && e@ == "Missing session_id param"@,
            (Some(t), Some(s)) => res matches Ok(p) && p.0@ == t && p.1@ == s,
        },
{
    let t = match params.get_str("text") {
        Some(t) => t.to_string(),
        None => return Err("Missing text param".to_string()),
    };
    match params.get_str("session_id") {
        Some(s) => Ok((t, s.to_string())),
        None => Err("Missing session_id param".to_string()),
    }
}

// ---------------------------------------------------------------------------
// The list of active connections
// ---------------------------------------------------------------------------

/// How a connected client is shown in the list of active connections.
pub open spec fn connection_label_text(peer: Seq<char>) -> Seq<char> {
    "Mobile Client ("@ + peer + ")"@
}

/// The label of a client connected from a peer address.
pub fn connection_label(peer: &str) -> (res: String)
    ensures
        res@ == connection_label_text(peer@),
{
    string_of(&concat_str(&concat_str(&chars_of("Mobile Client ("), peer), ")"))
}

/// The entries that differ from `label`.
pub open spec fn other_than(label: Seq<char>) -> spec_fn(Seq<char>) -> bool {
    |s: Seq<char>| s != label
}

/// Removes every entry equal to `label` from the active connections, keeping
/// the others in order.
pub fn forget_connection(active: &mut Vec<String>, label: &str)
    ensures
        crate::automation::string_views(final(active)@) == crate::automation::string_views(
            old(active)@,
        ).filter(other_than(label@)),
{
    let ghost before = active@;
    let mut kept: Vec<String> = Vec::new();
    let mut i: usize = 0;
    let lv = chars_of(label);
    while i < active.len()
        invariant
            active@ == before,
            lv@ == label@,
            i <= before.len(),
            crate::automation::string_views(kept@) == crate::automation::string_views(
                before.take(i as int),
            ).filter(other_than(label@)),
        decreases before.len() - i,
    {
        let e = &active[i];
        let ghost prev = kept@;
        proof {
            assert(crate::automation::string_views(before.take(i + 1)).drop_last()
                =~= crate::automation::string_views(before.take(i as int)));
            assert(crate::automation::string_views(before.take(i + 1)).last() == before[i as int]@);
            let x = crate::automation::string_views(before.take(i + 1));
            assert(x.len() == i + 1);
            reveal(Seq::filter);
            assert(x.filter(other_than(label@)) == (if other_than(label@)(x.last()) {
                x.drop_last().filter(other_than(label@)).push(x.last())
            } else {
                x.drop_last().filter(other_than(label@))
            }));
        }
        if !text::eq_str(&chars_of(e.as_str()), label) {
            kept.push(e.clone());
            proof {
                assert(crate::automation::string_views(kept@) =~= crate::automation::string_views(
                    prev,
                ).push(before[i as int]@));
            }
        }
        i = i + 1;
    }
    proof {
        assert(before.take(before.len() as int) =~= before);
    }
    *active = kept;
}

} // verus!
