use avatar_core::audit::{encode, AuditEntry, AuditLogger, GENESIS_SEED};

fn hmac_hex(key: &[u8], data: &str) -> String {
    let k = ring::hmac::Key::new(ring::hmac::HMAC_SHA256, key);
    ring::hmac::sign(&k, data.as_bytes()).as_ref().iter().map(|b| format!("{:02x}", b)).collect()
}

fn chain(logger: &AuditLogger) -> Vec<AuditEntry> {
    let e1 = logger.log_event(None, 1, "2026-01-01T00:00:00Z", "AUTH_SUCCESS", None, "User unlocked system database.", "INFO");
    let e2 = logger.log_event(Some(&e1.signature), 2, "2026-01-01T00:01:00Z", "PAIR", Some("dev1"), "Paired a phone.", "INFO");
    let e3 = logger.log_event(Some(&e2.signature), 3, "2026-01-01T00:02:00Z", "KILL", None, "Emergency kill.", "WARN");
    vec![e1, e2, e3]
}

#[test]
fn hex_encoding_is_two_lowercase_digits_per_byte() {
    assert_eq!(encode(&[0x00, 0xab, 0x10, 0xff]), "00ab10ff");
    assert_eq!(encode(&[]), "");
}

#[test]
fn first_entry_is_chained_to_the_genesis_seed() {
    let logger = AuditLogger::new(b"1234");
    let e = logger.log_event(None, 1, "T", "E", None, "D", "INFO");
    assert_eq!(e.signature, hmac_hex(b"1234", &format!("TED{}", GENESIS_SEED)));
    assert_eq!(e.signature.len(), 64);
    assert_eq!(e.device_id, None);
    assert_eq!(e.severity, "INFO");
}

#[test]
fn sign_is_hmac_of_the_concatenated_fields() {
    let logger = AuditLogger::new(b"key");
    assert_eq!(logger.sign("a", "b", "c", "d"), hmac_hex(b"key", "abcd"));
    assert_ne!(logger.sign("a", "b", "c", "d"), "abcd");
}

#[test]
fn appended_chain_verifies() {
    let logger = AuditLogger::new(b"1234");
    let entries = chain(&logger);
    let head = entries[2].signature.clone();
    assert!(logger.verify_integrity(&entries, Some(head.as_str())));
    assert!(logger.verify_integrity(&Vec::new(), None));
    assert!(!logger.verify_integrity(&entries, None));
    assert_eq!(entries[1].device_id.as_deref(), Some("dev1"));
}

#[test]
fn truncated_chain_is_detected() {
    let logger = AuditLogger::new(b"1234");
    let mut entries = chain(&logger);
    let head = entries[2].signature.clone();
    entries.truncate(2);
    assert!(!logger.verify_integrity(&entries, Some(head.as_str())));
    entries.clear();
    assert!(!logger.verify_integrity(&entries, Some(head.as_str())));
}

#[test]
fn tampering_is_detected() {
    let logger = AuditLogger::new(b"1234");
    let mut entries = chain(&logger);
    let head = entries[2].signature.clone();
    entries[1].description = "Nothing happened.".to_string();
    assert!(!logger.verify_integrity(&entries, Some(head.as_str())));

    let mut entries = chain(&logger);
    entries[2].signature = "00".repeat(32);
    assert!(!logger.verify_integrity(&entries, Some(entries[2].signature.as_str())));

    let mut entries = chain(&logger);
    let head = entries[2].signature.clone();
    entries.remove(0);
    assert!(!logger.verify_integrity(&entries, Some(head.as_str())));
}

#[test]
fn another_key_rejects_the_chain() {
    let logger = AuditLogger::new(b"1234");
    let entries = chain(&logger);
    let other = AuditLogger::new(b"4321");
    assert!(!other.verify_integrity(&entries, Some(entries[2].signature.as_str())));
}

#[test]
fn signatures_follow_rfc_4231() {
    let logger = AuditLogger::new(b"Jefe");
    assert_eq!(
        logger.sign("what do ya want ", "for nothing?", "", ""),
        "5bdcc146bf60754e6a042426089575c75a003f089d2739839dec58b964ec3843"
    );
}
