//! The desktop host's decisions: the pairing payload and connection target it
//! offers, the discovery keys it keeps, the tunnel address it learns from the
//! SSH client's output, the targets it publishes, and the answers of its
//! unlock command.
use vstd::prelude::*;
use crate::text;
use crate::text::{chars_of, concat_str, string_of, hex_encode_lower, find_str, is_whitespace, slice_chars, ends_with_str, first_occurrence, is_ws};
use crate::security::PasscodeError;

verus! {

/// Lowercase hexadecimal text of bytes, two digits per byte.
pub fn encode(bytes: &[u8]) -> (res: String)
    ensures
        res@ == text::hex_lower(bytes@),
{
    string_of(&hex_encode_lower(bytes))
}

/// What a mobile client scans to pair: where to connect, the certificate
/// fingerprint to pin, and the one-time pairing token.
#[derive(Clone, Debug, PartialEq, Eq)]
pub struct PairingPayload {
    pub server_ip: String,
    pub port: u16,
    pub fingerprint: String,
    pub token: String,
}

/// The port of the signaling server on the local network.
pub const SIGNALING_PORT: u16 = 8086;

/// The port clients reach through the SSH tunnel.
pub const TUNNEL_PORT: u16 = 443;

/// Where clients should connect: through the tunnel when its address is
/// known, else to the local address on the signaling port.
pub open spec fn endpoint_for(local_ip: Seq<char>, tunnel_url: Seq<char>) -> (Seq<char>, u16) {
    if tunnel_url.len() > 0 {
        (tunnel_url, TUNNEL_PORT)
    } else {
        (local_ip, SIGNALING_PORT)
    }
}

/// Chooses the connection endpoint offered to pairing clients.
pub fn pairing_endpoint(local_ip: &str, tunnel_url: &str) -> (res: (String, u16))
    ensures
        (res.0@, res.1) == endpoint_for(local_ip@, tunnel_url@),
{
    if tunnel_url.is_empty() {
        (local_ip.to_string(), SIGNALING_PORT)
    } else {
        (tunnel_url.to_string(), TUNNEL_PORT)
    }
}

/// The target published for an endpoint: `host:443` for the tunnel port,
/// `host:8086` for any other.
pub open spec fn target_for(host: Seq<char>, port: u16) -> Seq<char> {
    if port == TUNNEL_PORT {
        host + ":443"@
    } else {
        host + ":8086"@
    }
}

/// Builds the published connection target of an endpoint.
pub fn publish_target(host: &str, port: u16) -> (res: String)
    ensures
        res@ == target_for(host@, port),
{
    if port == TUNNEL_PORT {
        string_of(&concat_str(&chars_of(host), ":443"))
    } else {
        string_of(&concat_str(&chars_of(host), ":8086"))
    }
}

/// Pairing clients are sent to the tunnel on port 443 once its address is
/// known, else to the local address on port 8086, and the target published
/// for that endpoint is its host followed by the same port.
pub proof fn lemma_endpoint_and_target_agree(local_ip: Seq<char>, tunnel_url: Seq<char>)
    ensures
        tunnel_url.len() > 0 ==> endpoint_for(local_ip, tunnel_url) == (tunnel_url, 443u16),
        tunnel_url.len() == 0 ==> endpoint_for(local_ip, tunnel_url) == (local_ip, 8086u16),
        tunnel_url.len() > 0 ==> target_for(
            endpoint_for(local_ip, tunnel_url).0,
            endpoint_for(local_ip, tunnel_url).1,
        ) == tunnel_url + ":443"@,
        tunnel_url.len() == 0 ==> target_for(
            endpoint_for(local_ip, tunnel_url).0,
            endpoint_for(local_ip, tunnel_url).1,
        ) == local_ip + ":8086"@,
{
}

impl PairingPayload {
    /// The payload for an endpoint, a certificate fingerprint and a token.
    pub fn new(endpoint: (String, u16), fingerprint: String, token: String) -> (res: Self)
        ensures
            res.server_ip == endpoint.0,
            res.port == endpoint.1,
            res.fingerprint == fingerprint,
            res.token == token,
    {
        PairingPayload { server_ip: endpoint.0, port: endpoint.1, fingerprint, token }
    }
}

// ---------------------------------------------------------------------------
// Discovery keys
// ---------------------------------------------------------------------------

/// No two entries of the list are equal.
pub open spec fn distinct_keys(keys: Seq<String>) -> bool {
    forall|i: int, j: int| 0 <= i < j < keys.len() ==> keys[i]@ != keys[j]@
}

/// Records a discovery key unless it is already listed; says whether the list
/// changed (and so must be saved).  A list without repeats keeps none.
pub fn add_discovery_key(keys: &mut Vec<String>, key: String) -> (res: bool)
    ensures
        res == !(exists|i: int| 0 <= i < old(keys)@.len() && old(keys)@[i]@ == key@),
        res ==> final(keys)@ == old(keys)@.push(key),
        !res ==> final(keys)@ == old(keys)@,
        distinct_keys(old(keys)@) ==> distinct_keys(final(keys)@),
{
    if text::vec_contains_string(keys, &key) {
        false
    } else {
        let ghost before = keys@;
        keys.push(key);
        proof {
            assert forall|i: int, j: int| 0 <= i < j < keys@.len() && distinct_keys(before) implies keys@[i]@
                != keys@[j]@ by {
                if j == before.len() {
                    assert(before[i] == keys@[i]);
                }
            }
        }
        true
    }
}

// ---------------------------------------------------------------------------
// The tunnel address announced by the SSH client
// ---------------------------------------------------------------------------

/// The marker of the tunnel service's host names.
pub open spec fn tunnel_marker() -> Seq<char> {
    ".lhr.life"@
}

/// Start of the whitespace-delimited word around position `p`.
pub open spec fn word_start(s: Seq<char>, p: int) -> int
    decreases p,
{
    if p <= 0 || is_ws(s[p - 1]) {
        p
    } else {
        word_start(s, p - 1)
    }
}

/// End of the whitespace-delimited word around position `q`.
pub open spec fn word_end(s: Seq<char>, q: int) -> int
    decreases s.len() - q,
{
    if q >= s.len() || is_ws(s[q]) {
        q
    } else {
        word_end(s, q + 1)
    }
}

/// A tunnel host name cleaned of a scheme (everything up to the first `://`)
/// and of one trailing `/`.
pub open spec fn clean_domain(w: Seq<char>) -> Seq<char> {
    let d = match first_occurrence(w, "://"@) {
        Some(i) => w.skip(i + 3),
        None => w,
    };
    if text::ends_with_seq(d, "/"@) {
        d.drop_last()
    } else {
        d
    }
}

/// The tunnel address a line of the SSH client's output announces: the first
/// whitespace-separated word that holds the marker (the word around the
/// marker's first occurrence, since the marker holds no whitespace), cleaned.
pub open spec fn tunnel_domain_for(line: Seq<char>) -> Option<Seq<char>> {
    match first_occurrence(line, tunnel_marker()) {
        None => None,
        Some(p) => Some(
            clean_domain(
                line.subrange(word_start(line, p), word_end(line, p + tunnel_marker().len())),
            ),
        ),
    }
}

fn clean_domain_exec(w: &Vec<char>) -> (res: Vec<char>)
    ensures
        res@ == clean_domain(w@),
{
    let d = match find_str(w, "://") {
        Some(i) => {
            let n = w.len();
            proof {
                reveal_strlit("://");
                assert(text::occurs_at(w@, "://"@, i as int));
                assert(i + 3 <= n);
            }
            let from: usize = i + 3;
            slice_chars(w, from, n)
        },
        None => slice_chars(w, 0, w.len()),
    };
    proof {
        assert(w@.subrange(0, w@.len() as int) =~= w@);
        match first_occurrence(w@, "://"@) {
            Some(i) => assert(w@.subrange(i + 3, w@.len() as int) =~= w@.skip(i + 3)),
            None => {},
        }
    }
    if ends_with_str(&d, "/") {
        proof {
            reveal_strlit("/");
            assert(d@.subrange(0, d@.len() - 1) =~= d@.drop_last());
        }
        slice_chars(&d, 0, d.len() - 1)
    } else {
        d
    }
}

fn word_bounds(v: &Vec<char>, p: usize, q: usize) -> (res: (usize, usize))
    requires
        p <= q <= v@.len(),
    ensures
        res.0 == word_start(v@, p as int),
        res.1 == word_end(v@, q as int),
        res.0 <= p <= q <= res.1 <= v@.len(),
{
    let mut start: usize = p;
    while start > 0 && !is_whitespace(v[start - 1])
        invariant
            start <= p <= v@.len(),
            word_start(v@, start as int) == word_start(v@, p as int),
        decreases start,
    {
        start = start - 1;
    }
    let mut end: usize = q;
    while end < v.len() && !is_whitespace(v[end])
        invariant
            q <= end <= v@.len(),
            word_end(v@, end as int) == word_end(v@, q as int),
        decreases v.len() - end,
    {
        end = end + 1;
    }
    (start, end)
}

/// Reads the tunnel address from a line of the SSH client's output.
pub fn tunnel_domain(line: &str) -> (res: Option<String>)
    ensures
        match tunnel_domain_for(line@) {
            Some(d) => res matches Some(r) && r@ == d,
            None => res is None,
        },
{
    let v = chars_of(line);
    let p = match find_str(&v, ".lhr.life") {
        None => return None,
        Some(p) => p,
    };
    let n = v.len();
    proof {
        reveal_strlit(".lhr.life");
        assert(text::occurs_at(v@, ".lhr.life"@, p as int));
        assert(p + 9 <= n);
    }
    let q: usize = p + 9;
    let (start, end) = word_bounds(&v, p, q);
    let w = slice_chars(&v, start, end);
    let out = clean_domain_exec(&w);
    assert(tunnel_domain_for(line@) == Some(clean_domain(w@)));
    Some(string_of(&out))
}

// ---------------------------------------------------------------------------
// Publishing connection targets
// ---------------------------------------------------------------------------

/// Remembers the last published target, so that a target is not published
/// twice in a row.
pub struct Publisher {
    last_published: String,
}

impl Publisher {
    /// The last published target (empty before the first).
    pub closed spec fn last(&self) -> Seq<char> {
        self.last_published@
    }

    /// Nothing published yet.
    pub fn new() -> (res: Self)
        ensures
            res.last() == Seq::<char>::empty(),
    {
        Publisher { last_published: String::new() }
    }

    /// Of the targets received since the last round, only the latest counts:
    /// it is returned for publishing unless it was the last one published.
    pub fn take_latest(&mut self, received: &Vec<String>) -> (res: Option<String>)
        requires
            received@.len() > 0,
        ensures
            received@.last()@ == old(self).last() ==> (res is None && final(self).last() == old(
                self,
            ).last()),
            received@.last()@ != old(self).last() ==> (res matches Some(t) && t@ == received@.last()@
                && final(self).last() == t@),
    {
        let latest = &received[received.len() - 1];
        let lv = chars_of(latest.as_str());
        if text::eq_str(&lv, self.last_published.as_str()) {
            None
        } else {
            self.last_published = latest.clone();
            Some(latest.clone())
        }
    }
}

// ---------------------------------------------------------------------------
// The unlock command
// ---------------------------------------------------------------------------

/// Where an unlock of the vault from the desktop ended.
#[derive(Debug)]
pub enum UnlockStep {
    /// The vault was already open.
    AlreadyUnlocked,
    /// The passcode was refused.
    PasscodeRefused(PasscodeError),
    /// The encrypted database could not be opened.
    OpenFailed,
    /// The database opened but the audit log could not record the unlock.
    LogFailed(String),
    /// The vault is open and the unlock is recorded.
    Unlocked,
}

/// The answer of the unlock command for where the unlock ended.
pub fn unlock_answer(step: &UnlockStep) -> (res: Result<String, String>)
    ensures
        match step {
            UnlockStep::AlreadyUnlocked => res matches Ok(m) && m@ == "already_unlocked"@,
            UnlockStep::PasscodeRefused(e) => res matches Err(m) && m@ == match *e {
                PasscodeError::InvalidStoredHash => "Invalid stored passcode hash"@,
                PasscodeError::InvalidPasscode => "Invalid PIN/Passcode"@,
                PasscodeError::HashFailed(t) => t@,
            },
            UnlockStep::OpenFailed => res matches Err(m) && m@
                == "Invalid PIN/Passcode or database corrupted."@,
            UnlockStep::LogFailed(e) => res matches Err(m) && m@
                == "Database loaded but logging failed: "@ + e@,
            UnlockStep::Unlocked => res matches Ok(m) && m@ == "unlocked"@,
        },
{
    match step {
        UnlockStep::AlreadyUnlocked => Ok("already_unlocked".to_string()),
        UnlockStep::PasscodeRefused(e) => Err(e.message()),
        UnlockStep::OpenFailed => Err("Invalid PIN/Passcode or database corrupted.".to_string()),
        UnlockStep::LogFailed(e) => Err(
            string_of(&concat_str(&chars_of("Database loaded but logging failed: "), e.as_str())),
        ),
        UnlockStep::Unlocked => Ok("unlocked".to_string()),
    }
}

} // verus!
