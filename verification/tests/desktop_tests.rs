use avatar_core::desktop::{
    add_discovery_key, encode, pairing_endpoint, publish_target, tunnel_domain, unlock_answer, PairingPayload,
    Publisher, UnlockStep, SIGNALING_PORT, TUNNEL_PORT,
};
use avatar_core::security::PasscodeError;

#[test]
fn hex_text() {
    assert_eq!(encode(&[1, 2, 255]), "0102ff");
}

#[test]
fn endpoints_prefer_the_tunnel() {
    assert_eq!(pairing_endpoint("192.168.1.5", ""), ("192.168.1.5".to_string(), SIGNALING_PORT));
    assert_eq!(pairing_endpoint("192.168.1.5", "abc.lhr.life"), ("abc.lhr.life".to_string(), TUNNEL_PORT));
    assert_eq!(publish_target("abc.lhr.life", 443), "abc.lhr.life:443");
    assert_eq!(publish_target("192.168.1.5", 8086), "192.168.1.5:8086");
    assert_eq!(publish_target("192.168.1.5", 9999), "192.168.1.5:8086");
}

#[test]
fn pairing_payload_fields() {
    let p = PairingPayload::new(("h".to_string(), 443), "AA:BB".to_string(), "tok".to_string());
    assert_eq!(p.server_ip, "h");
    assert_eq!(p.port, 443);
    assert_eq!(p.fingerprint, "AA:BB");
    assert_eq!(p.token, "tok");
}

#[test]
fn discovery_keys_are_recorded_once() {
    let mut keys = vec!["a".to_string()];
    assert!(add_discovery_key(&mut keys, "b".to_string()));
    assert!(!add_discovery_key(&mut keys, "a".to_string()));
    assert!(!add_discovery_key(&mut keys, "b".to_string()));
    assert_eq!(keys, vec!["a".to_string(), "b".to_string()]);
}

#[test]
fn tunnel_addresses_from_ssh_output() {
    assert_eq!(
        tunnel_domain("a1b2c3d4e5f6.lhr.life tunneled with tls termination, https://a1b2c3d4e5f6.lhr.life"),
        Some("a1b2c3d4e5f6.lhr.life".to_string())
    );
    assert_eq!(tunnel_domain("Connect to https://xyz.lhr.life/ now"), Some("xyz.lhr.life".to_string()));
    assert_eq!(tunnel_domain("\thttp://q.lhr.life"), Some("q.lhr.life".to_string()));
    assert_eq!(tunnel_domain("Welcome to localhost.run!"), None);
    assert_eq!(tunnel_domain(""), None);
}

#[test]
fn targets_are_not_published_twice_in_a_row() {
    let mut p = Publisher::new();
    assert_eq!(p.take_latest(&vec!["a:8086".to_string()]), Some("a:8086".to_string()));
    assert_eq!(p.take_latest(&vec!["a:8086".to_string()]), None);
    assert_eq!(p.take_latest(&vec!["b:443".to_string(), "a:8086".to_string()]), None);
    assert_eq!(p.take_latest(&vec!["a:8086".to_string(), "b:443".to_string()]), Some("b:443".to_string()));
}

#[test]
fn unlock_answers() {
    assert_eq!(unlock_answer(&UnlockStep::AlreadyUnlocked), Ok("already_unlocked".to_string()));
    assert_eq!(unlock_answer(&UnlockStep::Unlocked), Ok("unlocked".to_string()));
    assert_eq!(
        unlock_answer(&UnlockStep::PasscodeRefused(PasscodeError::InvalidPasscode)),
        Err("Invalid PIN/Passcode".to_string())
    );
    assert_eq!(unlock_answer(&UnlockStep::OpenFailed), Err("Invalid PIN/Passcode or database corrupted.".to_string()));
    assert_eq!(
        unlock_answer(&UnlockStep::LogFailed("disk full".to_string())),
        Err("Database loaded but logging failed: disk full".to_string())
    );
}
