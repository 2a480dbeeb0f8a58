use avatar_core::db::DbManager;
use avatar_core::security::CryptoError;

#[test]
fn configured_salt_changes_the_key() {
    let a = DbManager::derive_key("1234", "avatar_secure_salt_value_123");
    let b = DbManager::derive_key("1234", "another salt");
    assert_ne!(a, b);
    assert_eq!(a, DbManager::derive_key("1234", "avatar_secure_salt_value_123"));
    assert_ne!(DbManager::derive_key("1234", "a"), DbManager::derive_key("1234", "b"));
    let c = DbManager::derive_key("1235", "avatar_secure_salt_value_123");
    assert_ne!(a, c);
}

#[test]
fn salt_strings() {
    let s = DbManager::generate_salt();
    assert_eq!(s.len(), 22);
    assert!(s.chars().all(|c| c.is_ascii_alphanumeric() || "/+.-".contains(c)));
    let bytes = base64::Engine::decode(&base64::engine::general_purpose::STANDARD_NO_PAD, &s).unwrap();
    assert_eq!(bytes.len(), 16);
}

#[test]
fn fields_round_trip_through_the_vault() {
    let db = DbManager::open_encrypted("1234", "salt");
    let stored = db.encrypt("my secret fact").unwrap();
    assert_eq!(db.decrypt(&stored).unwrap(), "my secret fact");
    let other = DbManager::from_key([3u8; 32]);
    assert_eq!(other.decrypt(&stored), Err(CryptoError::Decryption("aead::Error".to_string())));
    assert_eq!(db.decrypt("%%%"), Err(CryptoError::Base64Decode("Invalid symbol 37, offset 0.".to_string())));
    assert_eq!(
        db.decrypt("AAAA").unwrap_err().message(),
        "Invalid encrypted payload (too short)"
    );
}
