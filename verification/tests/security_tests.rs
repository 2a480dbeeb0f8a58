use avatar_core::crypto::{sha256_str, to_key32};
use avatar_core::security::{
    calculate_sha256_fingerprint, check_passcode, decrypt_aes_gcm, decrypt_aes_gcm_bin, discovery_clear_url,
    discovery_key, discovery_publish_url, encrypt_aes_gcm, encrypt_aes_gcm_bin, encrypt_field, generate_pairing_token,
    generate_self_signed_cert, new_passcode_record, parse_discovery_keys, discovery_keys_text, cert_spec, certify, CertDate, CertError, sha256_key, token_hash, CryptoError, PasscodeError,
};
use base64::Engine;

fn frame_of(text: &str) -> Vec<u8> {
    base64::engine::general_purpose::STANDARD.decode(text).unwrap()
}

fn hex(b: &[u8]) -> String {
    b.iter().map(|x| format!("{:02x}", x)).collect()
}

fn key(n: u8) -> [u8; 32] {
    [n; 32]
}

#[test]
fn sha256_of_text() {
    assert_eq!(hex(&sha256_str("abc")), "ba7816bf8f01cfea414140de5dae2223b00361a396177a9cb410ff61f20015ad");
    assert_eq!(hex(&sha256_key("abc")), "ba7816bf8f01cfea414140de5dae2223b00361a396177a9cb410ff61f20015ad");
    let d = sha256_str("");
    assert_eq!(to_key32(&d).to_vec(), d);
}

#[test]
fn token_digests() {
    assert_eq!(token_hash("abc"), "ba7816bf8f01cfea414140de5dae2223b00361a396177a9cb410ff61f20015ad");
    assert_eq!(discovery_key("tok"), hex(&sha256_str("discovery_tok")));
}

#[test]
fn text_encryption_round_trips() {
    let k = key(7);
    let sealed = encrypt_aes_gcm(&k, "hello, phone").unwrap();
    assert_ne!(sealed, "hello, phone");
    let frame = base64::prelude::BASE64_STANDARD.decode(&sealed).unwrap();
    assert_eq!(frame.len(), 12 + "hello, phone".len() + 16);
    assert_eq!(decrypt_aes_gcm(&k, &sealed).unwrap(), "hello, phone");
    let stored = encrypt_field(&k, "fact").unwrap();
    assert_eq!(decrypt_aes_gcm(&k, &stored).unwrap(), "fact");
    assert_eq!(frame_of(&stored).len(), 12 + 4 + 16);
    assert_ne!(encrypt_aes_gcm(&k, "x").unwrap(), encrypt_aes_gcm(&k, "x").unwrap());
}

#[test]
fn binary_encryption_round_trips() {
    let k = key(9);
    let frame = encrypt_aes_gcm_bin(&k, &[1, 2, 3]).unwrap();
    assert_eq!(frame.len(), 12 + 3 + 16);
    assert_eq!(decrypt_aes_gcm_bin(&k, &frame).unwrap(), vec![1, 2, 3]);
    assert_eq!(decrypt_aes_gcm_bin(&key(8), &frame), Err(CryptoError::Decryption("aead::Error".to_string())));
    assert_eq!(decrypt_aes_gcm_bin(&k, &[0u8; 5]), Err(CryptoError::TooShort));
}

#[test]
fn decryption_errors() {
    let k = key(1);
    let b64_err = base64::prelude::BASE64_STANDARD.decode("not base64!").unwrap_err().to_string();
    assert_eq!(b64_err, "Invalid symbol 32, offset 3.");
    assert_eq!(decrypt_aes_gcm(&k, "not base64!"), Err(CryptoError::Base64Decode(b64_err)));
    assert_eq!(decrypt_aes_gcm(&k, "AAAA"), Err(CryptoError::TooShort));
    let sealed = encrypt_aes_gcm(&k, "secret").unwrap();
    assert_eq!(decrypt_aes_gcm(&key(2), &sealed), Err(CryptoError::Decryption("aead::Error".to_string())));
    let raw = encrypt_aes_gcm_bin(&k, &[0xff, 0xfe]).unwrap();
    let text = base64::prelude::BASE64_STANDARD.encode(raw);
    let utf8_err = String::from_utf8(vec![0xff, 0xfe]).unwrap_err().to_string();
    assert_eq!(decrypt_aes_gcm(&k, &text), Err(CryptoError::InvalidUtf8(utf8_err.clone())));
    assert_eq!(CryptoError::InvalidUtf8(utf8_err.clone()).message(), format!("Invalid UTF-8 payload: {}", utf8_err));
    assert_eq!(CryptoError::TooShort.message(), "Invalid encrypted payload (too short)");
    assert_eq!(CryptoError::Base64Decode("Invalid padding".to_string()).message(), "Base64 decode failed: Invalid padding");
    assert_eq!(CryptoError::Decryption("aead::Error".to_string()).message(), "AES decryption failed: aead::Error");
    assert_eq!(CryptoError::Encryption("aead::Error".to_string()).message(), "AES encryption failed: aead::Error");
}

#[test]
fn pairing_tokens_have_uuid_shape() {
    let t = generate_pairing_token();
    assert_eq!(t.len(), 45);
    assert_eq!(&t[36..37], "-");
    assert!(t[37..].chars().all(|c| c.is_ascii_hexdigit() && !c.is_ascii_uppercase()));
    for (i, c) in t[..36].chars().enumerate() {
        if [8, 13, 18, 23].contains(&i) {
            assert_eq!(c, '-');
        } else {
            assert!(c.is_ascii_hexdigit() && !c.is_ascii_uppercase());
        }
    }
    assert_eq!(&t[14..15], "4");
    assert!("89ab".contains(&t[19..20]));
    assert_ne!(generate_pairing_token(), t);
}

#[test]
fn passcode_records() {
    let record = new_passcode_record("2468").unwrap();
    assert!(record.starts_with("$argon2id$"));
    assert!(new_passcode_record("").is_ok());
    assert_eq!(check_passcode(&record, "2468"), Ok(()));
    assert_eq!(check_passcode(&format!("  {}\n", record), "2468"), Ok(()));
    assert_eq!(check_passcode(&record, "1357"), Err(PasscodeError::InvalidPasscode));
    assert_eq!(check_passcode("garbage", "2468"), Err(PasscodeError::InvalidStoredHash));
    assert_eq!(PasscodeError::InvalidPasscode.message(), "Invalid PIN/Passcode");
    assert_eq!(PasscodeError::InvalidStoredHash.message(), "Invalid stored passcode hash");
    assert_eq!(PasscodeError::HashFailed("x".to_string()).message(), "x");
}

#[test]
fn discovery_addresses() {
    assert_eq!(
        discovery_publish_url("k1", "10.0.0.2:8086"),
        "https://keyvalue.immanuel.co/api/KeyVal/UpdateValue/0gcpgxva/k1/10.0.0.2_8086/"
    );
    assert_eq!(
        discovery_clear_url("k1"),
        "https://keyvalue.immanuel.co/api/KeyVal/UpdateValue/0gcpgxva/k1/offline/"
    );
}

fn upper_colon(b: &[u8]) -> String {
    b.iter().map(|x| format!("{:02X}", x)).collect::<Vec<_>>().join(":")
}

#[test]
fn fingerprints_of_pem_bodies() {
    let der = [0u8, 1, 2];
    let expected = upper_colon(ring::digest::digest(&ring::digest::SHA256, &der).as_ref());
    let pem = "-----BEGIN CERTIFICATE-----\nAAEC\n-----END CERTIFICATE-----\n";
    assert_eq!(calculate_sha256_fingerprint(pem).unwrap(), expected);
    let crlf = "-----BEGIN CERTIFICATE-----\r\nAA\r\nEC\r\n-----END CERTIFICATE-----";
    assert_eq!(calculate_sha256_fingerprint(crlf).unwrap(), expected);
    let b64_err = base64::prelude::BASE64_STANDARD.decode("!!").unwrap_err().to_string();
    assert_eq!(calculate_sha256_fingerprint("-----BEGIN-----\n!!\n"), Err(CryptoError::Base64Decode(b64_err)));
    assert_eq!(expected.len(), 95);
}

#[test]
fn self_signed_certificates_carry_their_fingerprint() {
    let cert = generate_self_signed_cert("AvatarServer").unwrap();
    assert!(cert.cert_pem.starts_with("-----BEGIN CERTIFICATE-----"));
    assert!(cert.key_pem.contains("PRIVATE KEY"));
    assert_eq!(calculate_sha256_fingerprint(&cert.cert_pem).unwrap(), cert.fingerprint);
    assert_eq!(cert.fingerprint.len(), 95);
    assert_eq!(cert.spec, cert_spec("AvatarServer"));
}

#[test]
fn server_certificates_are_made_for_localhost() {
    let spec = cert_spec("AvatarServer");
    assert_eq!(spec.common_name, "AvatarServer");
    assert_eq!(spec.organization, "Avatar Private Ecosystem");
    assert_eq!(spec.not_before, CertDate { year: 2026, month: 1, day: 1 });
    assert_eq!(spec.not_after, CertDate { year: 2036, month: 1, day: 1 });
    assert_eq!(spec.dns_names, vec!["localhost".to_string()]);
    assert_eq!(spec.ip_addrs, vec![[127u8, 0, 0, 1]]);
    assert!(spec.is_ca);
}

#[test]
fn certify_reports_each_failure() {
    let spec = cert_spec("x");
    assert_eq!(certify(spec.clone(), Err("no key".to_string())), Err(CertError::Generation("no key".to_string())));
    assert_eq!(
        certify(spec.clone(), Ok(("-----BEGIN-----\n!!\n".to_string(), "k".to_string()))),
        Err(CertError::Fingerprint(CryptoError::Base64Decode(
            base64::prelude::BASE64_STANDARD.decode("!!").unwrap_err().to_string()
        )))
    );
    let pem = "-----BEGIN CERTIFICATE-----\nAAEC\n-----END CERTIFICATE-----".to_string();
    let c = certify(spec.clone(), Ok((pem.clone(), "k".to_string()))).unwrap();
    assert_eq!(c.fingerprint, calculate_sha256_fingerprint(&pem).unwrap());
    assert_eq!(c.key_pem, "k");
    assert_eq!(c.spec, spec);
}

#[test]
fn discovery_keys_file_round_trips() {
    assert_eq!(parse_discovery_keys(r#"["a","b"]"#), Some(vec!["a".to_string(), "b".to_string()]));
    assert_eq!(parse_discovery_keys("[]"), Some(vec![]));
    assert_eq!(parse_discovery_keys(r#"["a",1]"#), None);
    assert_eq!(parse_discovery_keys(r#"{"a":"b"}"#), None);
    assert_eq!(parse_discovery_keys("nope"), None);
    let keys = vec!["k1".to_string(), "q\"uote".to_string()];
    let text = discovery_keys_text(&keys);
    assert_eq!(text, r#"["k1","q\"uote"]"#);
    assert_eq!(text, serde_json::to_string(&keys).unwrap());
    assert_eq!(parse_discovery_keys(&text), Some(keys));
    assert_eq!(discovery_keys_text(&vec![]), "[]");
}
