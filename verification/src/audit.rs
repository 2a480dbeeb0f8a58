//! Tamper-evident audit log: each entry carries an HMAC-SHA256 signature over
//! its timestamp, event type and description chained to the signature of the
//! entry before it.  The host stores and loads the entries.
use vstd::prelude::*;
use vstd::utf8::encode_utf8;
use crate::text;
use crate::crypto::sha256_spec;
use crate::text::{chars_of, concat_str, hex_encode_lower, string_of, chars_eq};

verus! {

/// The previous signature the first entry is chained to.
pub const GENESIS_SEED: &'static str = "GENESIS_SEED";

/// The view of [`GENESIS_SEED`].
pub open spec fn genesis() -> Seq<char> {
    "GENESIS_SEED"@
}

fn genesis_string() -> (res: String)
    ensures
        res@ == genesis(),
{
    GENESIS_SEED.to_string()
}

/// The HMAC block key: a key longer than SHA-256's 64-byte block is hashed
/// first, then the key is padded with zero bytes to the block size.
pub open spec fn hmac_block_key(key: Seq<u8>) -> Seq<u8> {
    let k = if key.len() > 64 {
        sha256_spec(key)
    } else {
        key
    };
    k + Seq::new((64 - k.len()) as nat, |i: int| 0u8)
}

/// Every byte of `k` combined by exclusive or with `pad`.
pub open spec fn xor_pad(k: Seq<u8>, pad: u8) -> Seq<u8> {
    Seq::new(k.len(), |i: int| k[i] ^ pad)
}

/// The HMAC-SHA256 tag of `data` under `key` (RFC 2104): the SHA-256 of the
/// outer-padded key followed by the SHA-256 of the inner-padded key and data.
pub open spec fn hmac_sha256(key: Seq<u8>, data: Seq<u8>) -> Seq<u8> {
    let k = hmac_block_key(key);
    sha256_spec(xor_pad(k, 0x5cu8) + sha256_spec(xor_pad(k, 0x36u8) + data))
}

/// `ring::hmac::sign` with a key made by `ring::hmac::Key::new(HMAC_SHA256, key)`:
/// the 32-byte HMAC-SHA256 tag of RFC 2104, [`hmac_sha256`].
#[verifier::external_body]
fn hmac_sha256_tag(key: &[u8], data: &[u8]) -> (res: Vec<u8>)
    ensures
        res@ == hmac_sha256(key@, data@),
        res@.len() == 32,
{
    let k = ring::hmac::Key::new(ring::hmac::HMAC_SHA256, key);
    ring::hmac::sign(&k, data).as_ref().to_vec()
}

/// Lowercase hexadecimal text of bytes, two digits per byte.
pub fn encode(bytes: &[u8]) -> (res: String)
    ensures
        res@ == text::hex_lower(bytes@),
{
    let v = hex_encode_lower(bytes);
    string_of(&v)
}

/// One row of the audit log.
#[derive(Debug, PartialEq, Eq)]
pub struct AuditEntry {
    pub id: i32,
    pub timestamp: String,
    pub event_type: String,
    pub device_id: Option<String>,
    pub description: String,
    pub severity: String,
    pub signature: String,
}

/// The bytes that are signed for an entry.
pub open spec fn signed_bytes(
    timestamp: Seq<char>,
    event_type: Seq<char>,
    description: Seq<char>,
    previous: Seq<char>,
) -> Seq<u8> {
    encode_utf8(timestamp + event_type + description + previous)
}

/// The signature an entry must carry given the signature before it.
pub open spec fn expected_signature(key: Seq<u8>, e: AuditEntry, previous: Seq<char>) -> Seq<char> {
    text::hex_lower(
        hmac_sha256(key, signed_bytes(e.timestamp@, e.event_type@, e.description@, previous)),
    )
}

/// Every entry carries the signature chained to the one before it, the first
/// one to `previous`.
pub open spec fn chain_valid_from(key: Seq<u8>, entries: Seq<AuditEntry>, previous: Seq<char>) -> bool
    decreases entries.len(),
{
    if entries.len() == 0 {
        true
    } else {
        expected_signature(key, entries[0], previous) == entries[0].signature@ && chain_valid_from(
            key,
            entries.drop_first(),
            entries[0].signature@,
        )
    }
}

/// The whole log is intact.
pub open spec fn chain_valid(key: Seq<u8>, entries: Seq<AuditEntry>) -> bool {
    chain_valid_from(key, entries, genesis())
}

/// The signature the next entry is chained to: the last stored one, or the seed.
pub open spec fn last_signature(entries: Seq<AuditEntry>) -> Seq<char> {
    if entries.len() == 0 {
        genesis()
    } else {
        entries.last().signature@
    }
}

/// The head a host recorded: the signature of the newest entry it appended,
/// or the seed when it never appended.
pub open spec fn head_signature(head: Option<&str>) -> Seq<char> {
    match head {
        Some(s) => s@,
        None => genesis(),
    }
}

/// Signs and verifies audit entries with a key derived from the user PIN.
pub struct AuditLogger {
    key: Vec<u8>,
}

impl AuditLogger {
    /// The HMAC key bytes.
    pub closed spec fn key(&self) -> Seq<u8> {
        self.key@
    }

    /// Initializes the logger with the HMAC key bytes.
    pub fn new(hmac_key_bytes: &[u8]) -> (res: Self)
        ensures
            res.key() == hmac_key_bytes@,
    {
        let mut key: Vec<u8> = Vec::new();
        let mut i: usize = 0;
        while i < hmac_key_bytes.len()
            invariant
                i <= hmac_key_bytes.len(),
                key@ == hmac_key_bytes@.take(i as int),
            decreases hmac_key_bytes.len() - i,
        {
            key.push(hmac_key_bytes[i]);
            proof {
                assert(hmac_key_bytes@.take(i + 1) =~= hmac_key_bytes@.take(i as int).push(
                    hmac_key_bytes@[i as int],
                ));
            }
            i = i + 1;
        }
        proof {
            assert(hmac_key_bytes@.take(hmac_key_bytes.len() as int) =~= hmac_key_bytes@);
        }
        AuditLogger { key }
    }

    /// The signature for an entry's fields chained to `previous_signature`:
    /// HMAC(timestamp + event_type + description + previous_signature), in hex.
    pub fn sign(
        &self,
        timestamp: &str,
        event_type: &str,
        description: &str,
        previous_signature: &str,
    ) -> (res: String)
        ensures
            res@ == text::hex_lower(
                hmac_sha256(
                    self.key(),
                    signed_bytes(timestamp@, event_type@, description@, previous_signature@),
                ),
            ),
    {
        let a = concat_str(&chars_of(timestamp), event_type);
        let b = concat_str(&a, description);
        let c = concat_str(&b, previous_signature);
        let data = string_of(&c);
        let tag = hmac_sha256_tag(self.key.as_slice(), data.as_str().as_bytes());
        encode(tag.as_slice())
    }

    /// The entry to append for an event, chained to the signature of the last
    /// stored entry (`None` when the log is empty).
    pub fn log_event(
        &self,
        last_signature: Option<&str>,
        id: i32,
        timestamp: &str,
        event_type: &str,
        device_id: Option<&str>,
        description: &str,
        severity: &str,
    ) -> (res: AuditEntry)
        ensures
            res.id == id,
            res.timestamp@ == timestamp@,
            res.event_type@ == event_type@,
            res.description@ == description@,
            res.severity@ == severity@,
            match device_id {
                Some(d) => res.device_id matches Some(rd) && rd@ == d@,
                None => res.device_id is None,
            },
            res.signature@ == expected_signature(
                self.key(),
                res,
                match last_signature {
                    Some(s) => s@,
                    None => genesis(),
                },
            ),
    {
        let previous = match last_signature {
            Some(s) => s.to_string(),
            None => genesis_string(),
        };
        let signature = self.sign(timestamp, event_type, description, previous.as_str());
        AuditEntry {
            id,
            timestamp: timestamp.to_string(),
            event_type: event_type.to_string(),
            device_id: match device_id {
                Some(d) => Some(d.to_string()),
                None => None,
            },
            description: description.to_string(),
            severity: severity.to_string(),
            signature,
        }
    }

    /// Validates the entire chain, oldest entry first, against the head the
    /// host recorded when it last appended (`None` when it never appended):
    /// true if every entry's signature matches and the newest entry carries
    /// the recorded head, so that entries deleted from the end of the log are
    /// reported as well as edited or removed ones.
    pub fn verify_integrity(&self, entries: &Vec<AuditEntry>, head: Option<&str>) -> (res: bool)
        ensures
            res == (chain_valid(self.key(), entries@) && last_signature(entries@) == head_signature(
                head,
            )),
    {
        let newest = if entries.len() == 0 {
            genesis_string()
        } else {
            entries[entries.len() - 1].signature.clone()
        };
        let recorded = match head {
            Some(s) => s.to_string(),
            None => genesis_string(),
        };
        if !chars_eq(&chars_of(newest.as_str()), &chars_of(recorded.as_str())) {
            return false;
        }
        let mut previous = genesis_string();
        let mut i: usize = 0;
        proof {
            assert(entries@.skip(0) =~= entries@);
        }
        while i < entries.len()
            invariant
                i <= entries.len(),
                chain_valid(self.key(), entries@) == chain_valid_from(
                    self.key(),
                    entries@.skip(i as int),
                    previous@,
                ),
            decreases entries.len() - i,
        {
            let e = &entries[i];
            let computed = self.sign(
                e.timestamp.as_str(),
                e.event_type.as_str(),
                e.description.as_str(),
                previous.as_str(),
            );
            let stored = chars_of(e.signature.as_str());
            let computed_c = chars_of(computed.as_str());
            proof {
                assert(entries@.skip(i as int)[0] == entries@[i as int]);
                assert(entries@.skip(i as int).drop_first() =~= entries@.skip(i + 1));
            }
            if !chars_eq(&computed_c, &stored) {
                return false;
            }
            previous = e.signature.clone();
            i = i + 1;
        }
        true
    }
}

// ---------------------------------------------------------------------------
// Laws of the chain
// ---------------------------------------------------------------------------

proof fn lemma_push_from(key: Seq<u8>, entries: Seq<AuditEntry>, previous: Seq<char>, e: AuditEntry)
    ensures
        chain_valid_from(key, entries.push(e), previous) == (chain_valid_from(key, entries, previous)
            && expected_signature(key, e, if entries.len() == 0 {
            previous
        } else {
            entries.last().signature@
        }) == e.signature@),
    decreases entries.len(),
{
    if entries.len() > 0 {
        let rest = entries.drop_first();
        assert(entries.push(e).drop_first() =~= rest.push(e));
        assert(entries.push(e)[0] == entries[0]);
        lemma_push_from(key, rest, entries[0].signature@, e);
        if rest.len() > 0 {
            assert(rest.last() == entries.last());
        } else {
            assert(entries.last() == entries[0]);
        }
        assert(chain_valid_from(key, entries, previous) == (expected_signature(key, entries[0], previous) == entries[0].signature@ && chain_valid_from(key, rest, entries[0].signature@)));
        assert(chain_valid_from(key, entries.push(e), previous) == (expected_signature(key, entries[0], previous) == entries[0].signature@ && chain_valid_from(key, rest.push(e), entries[0].signature@)));
    } else {
        let one = entries.push(e);
        assert(one[0] == e);
        assert(one.drop_first() =~= Seq::<AuditEntry>::empty());
        assert(chain_valid_from(key, Seq::<AuditEntry>::empty(), e.signature@));
        assert(chain_valid_from(key, entries, previous));
        assert(chain_valid_from(key, one, previous) == (expected_signature(key, e, previous) == e.signature@));
    }
}

/// The empty log is intact.
pub proof fn lemma_empty_log_intact(key: Seq<u8>)
    ensures
        chain_valid(key, Seq::<AuditEntry>::empty()),
{
}

/// Appending the entry that `log_event` signs against the last stored
/// signature keeps an intact log intact, and is the only way to extend it:
/// the extended log is intact exactly when the old one is and the new entry
/// carries the signature chained to the last one.
pub proof fn lemma_append_keeps_integrity(key: Seq<u8>, entries: Seq<AuditEntry>, e: AuditEntry)
    ensures
        chain_valid(key, entries.push(e)) == (chain_valid(key, entries) && e.signature@
            == expected_signature(key, e, last_signature(entries))),
{
    lemma_push_from(key, entries, genesis(), e);
}

proof fn lemma_tamper_from(
    key: Seq<u8>,
    entries: Seq<AuditEntry>,
    tampered: Seq<AuditEntry>,
    previous: Seq<char>,
    i: int,
)
    requires
        chain_valid_from(key, entries, previous),
        0 <= i < entries.len(),
        tampered.len() == entries.len(),
        forall|k: int| 0 <= k < i ==> tampered[k] == entries[k],
        tampered[i].timestamp@ == entries[i].timestamp@,
        tampered[i].event_type@ == entries[i].event_type@,
        tampered[i].description@ == entries[i].description@,
        tampered[i].signature@ != entries[i].signature@,
    ensures
        !chain_valid_from(key, tampered, previous),
    decreases i,
{
    if i > 0 {
        assert(tampered[0] == entries[0]);
        let er = entries.drop_first();
        let tr = tampered.drop_first();
        assert forall|k: int| 0 <= k < i - 1 implies tr[k] == er[k] by {
            assert(tr[k] == tampered[k + 1]);
            assert(er[k] == entries[k + 1]);
        }
        lemma_tamper_from(key, er, tr, entries[0].signature@, i - 1);
    }
}

/// Replacing the stored signature of any entry of an intact log by a
/// different one is detected: the log no longer verifies.
pub proof fn lemma_signature_tampering_detected(
    key: Seq<u8>,
    entries: Seq<AuditEntry>,
    i: int,
    forged: AuditEntry,
)
    requires
        chain_valid(key, entries),
        0 <= i < entries.len(),
        forged.timestamp@ == entries[i].timestamp@,
        forged.event_type@ == entries[i].event_type@,
        forged.description@ == entries[i].description@,
        forged.signature@ != entries[i].signature@,
    ensures
        !chain_valid(key, entries.update(i, forged)),
{
    lemma_tamper_from(key, entries, entries.update(i, forged), genesis(), i);
}

/// The signature the entry at position `i` must be chained to when the
/// chain starts from `previous`.
pub open spec fn previous_at(entries: Seq<AuditEntry>, previous: Seq<char>, i: int) -> Seq<char> {
    if i <= 0 {
        previous
    } else {
        entries[i - 1].signature@
    }
}

proof fn lemma_break_at(key: Seq<u8>, t: Seq<AuditEntry>, previous: Seq<char>, i: int)
    requires
        0 <= i < t.len(),
        expected_signature(key, t[i], previous_at(t, previous, i)) != t[i].signature@,
    ensures
        !chain_valid_from(key, t, previous),
    decreases i,
{
    if i > 0 {
        let rest = t.drop_first();
        assert(rest[i - 1] == t[i]);
        if i > 1 {
            assert(rest[i - 2] == t[i - 1]);
        }
        assert(previous_at(rest, t[0].signature@, i - 1) == previous_at(t, previous, i));
        lemma_break_at(key, rest, t[0].signature@, i - 1);
    }
}

/// Editing what an entry records (its time, type or description) while
/// keeping its stored signature is detected whenever the edited fields'
/// HMAC differs from that signature (that is, barring an HMAC collision).
pub proof fn lemma_content_tampering_detected(
    key: Seq<u8>,
    entries: Seq<AuditEntry>,
    i: int,
    edited: AuditEntry,
)
    requires
        chain_valid(key, entries),
        0 <= i < entries.len(),
        edited.signature@ == entries[i].signature@,
        expected_signature(key, edited, previous_at(entries, genesis(), i)) != edited.signature@,
    ensures
        !chain_valid(key, entries.update(i, edited)),
{
    let t = entries.update(i, edited);
    if i > 0 {
        assert(t[i - 1] == entries[i - 1]);
    }
    assert(previous_at(t, genesis(), i) == previous_at(entries, genesis(), i));
    lemma_break_at(key, t, genesis(), i);
}

/// Deleting an entry that has a successor is detected whenever the
/// successor's HMAC against the signature before the deleted entry differs
/// from its stored signature (that is, barring an HMAC collision).
pub proof fn lemma_deletion_detected(key: Seq<u8>, entries: Seq<AuditEntry>, i: int)
    requires
        chain_valid(key, entries),
        0 <= i < entries.len() - 1,
        expected_signature(key, entries[i + 1], previous_at(entries, genesis(), i))
            != entries[i + 1].signature@,
    ensures
        !chain_valid(key, entries.remove(i)),
{
    let t = entries.remove(i);
    assert(t[i] == entries[i + 1]);
    if i > 0 {
        assert(t[i - 1] == entries[i - 1]);
    }
    assert(previous_at(t, genesis(), i) == previous_at(entries, genesis(), i));
    lemma_break_at(key, t, genesis(), i);
}

/// A log written only by appending, each entry signed by `log_event` against
/// the newest signature of the log so far, is intact after any number of
/// appends (so it verifies against the head recorded at the last append).
pub proof fn lemma_written_log_intact(key: Seq<u8>, entries: Seq<AuditEntry>)
    requires
        forall|i: int|
            0 <= i < entries.len() ==> #[trigger] entries[i].signature@ == expected_signature(
                key,
                entries[i],
                last_signature(entries.take(i)),
            ),
    ensures
        chain_valid(key, entries),
    decreases entries.len(),
{
    if entries.len() > 0 {
        let init = entries.drop_last();
        assert forall|i: int| 0 <= i < init.len() implies #[trigger] init[i].signature@
            == expected_signature(key, init[i], last_signature(init.take(i))) by {
            assert(init[i] == entries[i]);
            assert(init.take(i) =~= entries.take(i));
            assert(entries[i].signature@ == expected_signature(
                key,
                entries[i],
                last_signature(entries.take(i)),
            ));
        }
        lemma_written_log_intact(key, init);
        let n = entries.len() - 1;
        assert(entries.take(n) =~= init);
        assert(entries[n].signature@ == expected_signature(
            key,
            entries[n],
            last_signature(entries.take(n)),
        ));
        assert(init.push(entries.last()) =~= entries);
        lemma_append_keeps_integrity(key, init, entries.last());
    }
}

/// Removing the newest entries of an intact log is detected against the head
/// recorded for it whenever the head that remains differs from it (that is,
/// barring two equal signatures): the shortened log no longer verifies.
pub proof fn lemma_truncation_detected(key: Seq<u8>, entries: Seq<AuditEntry>, n: int)
    requires
        chain_valid(key, entries),
        0 <= n < entries.len(),
        last_signature(entries.take(n)) != last_signature(entries),
    ensures
        !(chain_valid(key, entries.take(n)) && last_signature(entries.take(n)) == last_signature(
            entries,
        )),
{
}

/// Emptying a log that holds entries is always detected against its recorded
/// head: a signature is lowercase hexadecimal text and never the seed.
pub proof fn lemma_emptied_log_detected(key: Seq<u8>, entries: Seq<AuditEntry>)
    requires
        chain_valid(key, entries),
        entries.len() > 0,
    ensures
        last_signature(entries) != genesis(),
        !(chain_valid(key, Seq::<AuditEntry>::empty()) && last_signature(Seq::<AuditEntry>::empty())
            == last_signature(entries)),
{
    let init = entries.drop_last();
    assert(init.push(entries.last()) =~= entries);
    lemma_append_keeps_integrity(key, init, entries.last());
    let e = entries.last();
    let bytes = hmac_sha256(
        key,
        signed_bytes(e.timestamp@, e.event_type@, e.description@, last_signature(init)),
    );
    let sig = text::hex_lower(bytes);
    assert(sig == e.signature@);
    reveal_strlit("GENESIS_SEED");
    if bytes.len() == 0 {
        assert(sig.len() == 0);
        assert(genesis().len() == 12);
    } else {
        let d = text::hex_digit_lower((bytes.last() % 16) as nat);
        assert(sig.last() == d);
        assert(genesis().last() == 'D');
    }
}

} // verus!
