use avatar_core::json::Json;
use avatar_core::security::{decrypt_aes_gcm, encrypt_aes_gcm, sha256_key, token_hash, discovery_key};
use avatar_core::streaming::{connection_label, forget_connection};
use avatar_core::streaming::{
    auth_ok_message, authenticate, chat_command_params, classify_message, conclude_unlock, decode, encode, greet,
    hex_slices_aligned, is_remote_input_action, locked_token_accepted, new_session_id, open_unlock_request,
    route_command, parse_mobile_command, locked_token_admitted, seal_outgoing, OutgoingFrame, session_key_from_hash, stream_info, unlock_host_passcode, unlocked_token_verdict, AuthOutcome,
    ClientMessage, CommandRoute, Greeting, StreamFlags, StreamKind, TokenVerdict,
};

fn obj(fields: Vec<(&str, Json)>) -> Json {
    Json::Object(fields.into_iter().map(|(k, v)| (k.to_string(), v)).collect())
}

#[test]
fn hex_round_trip() {
    assert_eq!(encode(&[0xde, 0xad, 0x01]), "dead01");
    assert_eq!(decode("dead01"), Ok(vec![0xde, 0xad, 0x01]));
    assert_eq!(decode("DEAD"), Ok(vec![0xde, 0xad]));
    assert_eq!(encode(&decode("DeAd09Fb").unwrap()), "dead09fb");
    assert_eq!(decode(""), Ok(vec![]));
}

#[test]
fn hex_decoding_errors_and_signs() {
    assert_eq!(decode("abc"), Err("Odd number of hexadecimal digits"));
    assert_eq!(decode("zz"), Err("Invalid hex character"));
    assert_eq!(decode("-1"), Err("Invalid hex character"));
    assert_eq!(decode("+f"), Ok(vec![15]));
    assert_eq!(decode("é"), Err("Invalid hex character"));
    assert!(hex_slices_aligned("é"));
    assert!(!hex_slices_aligned("aé"));
}

#[test]
fn session_key_from_stored_digest_matches_passcode_key() {
    let stored = token_hash("2468");
    assert_eq!(session_key_from_hash(&stored), Some(sha256_key("2468")));
    assert_eq!(session_key_from_hash(""), None);
    assert_eq!(session_key_from_hash("xyz1"), None);
    let mut short = [0u8; 32];
    short[0] = 0xab;
    assert_eq!(session_key_from_hash("ab"), Some(short));
}

#[test]
fn tokens_admitted_while_locked_by_discovery_key() {
    let keys = vec!["other".to_string(), discovery_key("tok-1")];
    assert!(locked_token_accepted(&keys, "tok-1"));
    assert!(!locked_token_accepted(&keys, "tok-2"));
    assert!(!locked_token_accepted(&Vec::new(), "tok-1"));
}

#[test]
fn token_verdicts_of_an_open_vault() {
    assert_eq!(unlocked_token_verdict(Some(1), Some(1), Some(0)), TokenVerdict::ActiveSession);
    assert_eq!(unlocked_token_verdict(Some(0), Some(0), Some(2)), TokenVerdict::PairDevice);
    assert_eq!(unlocked_token_verdict(None, None, None), TokenVerdict::Refused);
    assert_eq!(unlocked_token_verdict(None, None, Some(1)), TokenVerdict::PairDevice);
    assert_eq!(unlocked_token_verdict(Some(0), Some(1), Some(1)), TokenVerdict::Expired);
    assert!(!TokenVerdict::Expired.admits());
    assert!(TokenVerdict::PairDevice.admits());
    assert!(!TokenVerdict::Refused.admits());
}

#[test]
fn session_ids() {
    let id = new_session_id();
    assert!(id.starts_with("sess_"));
    assert_eq!(id.len(), 41);
    assert_eq!(&id[13..14], "-");
    assert_eq!(&id[19..20], "4");
}

#[test]
fn greetings() {
    let g = greet("tok", false, true);
    assert!(matches!(g, Greeting::Refused));
    assert_eq!(g.text(), "AUTH_FAILED");
    let g = greet("tok", true, true);
    match &g {
        Greeting::HostLocked { temporary_key } => assert_eq!(*temporary_key, sha256_key("tok")),
        other => panic!("unexpected {:?}", other),
    }
    assert_eq!(g.text(), "HOST_LOCKED");
    let g = greet("tok", true, false);
    assert!(matches!(g, Greeting::NeedAuth));
    assert_eq!(g.text(), "NEED_AUTH");
}

#[test]
fn auth_ok_text() {
    assert_eq!(auth_ok_message(1920, 1080), "AUTH_OK 1920 1080");
    assert_eq!(auth_ok_message(-1, 0), "AUTH_OK -1 0");
}

#[test]
fn remote_unlock_success_establishes_the_passcode_key() {
    let temp = sha256_key("tok");
    let request = r#"{"action":"unlock_host","params":{"passcode":"2468"}}"#;
    let sealed = encrypt_aes_gcm(&temp, request).unwrap();
    let opened = open_unlock_request(&temp, &sealed).unwrap();
    assert_eq!(opened, request);
    assert_eq!(open_unlock_request(&sha256_key("other"), &sealed), None);

    let reply = r#"{"Success":"Remote unlock successful"}"#.to_string();
    let c = conclude_unlock(&temp, &opened, Ok(reply.clone()), 1920, 1080);
    assert_eq!(c.session_key, Some(sha256_key("2468")));
    assert_eq!(c.seal_key, sha256_key("2468"));
    assert_eq!(c.texts, vec![reply, "AUTH_OK 1920 1080".to_string()]);
}

#[test]
fn remote_unlock_refusal_answers_under_the_temporary_key() {
    let temp = sha256_key("tok");
    let c = conclude_unlock(&temp, "{}", Ok(r#"{"Success":"Already unlocked"}"#.to_string()), 1, 1);
    assert_eq!(c.session_key, None);
    assert_eq!(c.seal_key, temp);
    assert_eq!(c.texts.len(), 1);
    let c = conclude_unlock(&temp, "{}", Err("Invalid PIN/Passcode: Invalid PIN/Passcode".to_string()), 1, 1);
    assert_eq!(c.session_key, None);
    assert!(c.texts.is_empty());
    let c = conclude_unlock(&temp, "not json", Ok("Remote unlock successful".to_string()), 1, 1);
    assert_eq!(c.session_key, None);
    assert!(c.texts.is_empty());
    let c = conclude_unlock(&temp, "{}", Ok("Remote unlock successful".to_string()), 1, 1);
    assert_eq!(c.session_key, Some(sha256_key("")));
}

#[test]
fn authentication_of_an_open_host() {
    let stored = token_hash("2468");
    let k = sha256_key("2468");
    let good = encrypt_aes_gcm(&k, r#"{"action":"authenticate"}"#).unwrap();
    match authenticate(&stored, &good) {
        AuthOutcome::Authenticated { session_key } => assert_eq!(session_key, k),
        other => panic!("unexpected {:?}", other),
    }
    let wrong_key = encrypt_aes_gcm(&sha256_key("1111"), r#"{"action":"authenticate"}"#).unwrap();
    assert!(matches!(authenticate(&stored, &wrong_key), AuthOutcome::Failed));
    let other_action = encrypt_aes_gcm(&k, r#"{"action":"hello"}"#).unwrap();
    assert!(matches!(authenticate(&stored, &other_action), AuthOutcome::NotAuthenticate));
    assert!(matches!(authenticate("", &good), AuthOutcome::NoKey));
}

#[test]
fn classification_of_session_messages() {
    let k = sha256_key("2468");
    let seal = |t: &str| encrypt_aes_gcm(&k, t).unwrap();
    assert!(matches!(classify_message(&k, &seal(r#"{"action":"start_screen"}"#)), ClientMessage::StartScreen));
    assert!(matches!(classify_message(&k, &seal(r#" {"action":"start_camera"} "#)), ClientMessage::StartCamera));
    match classify_message(&k, &seal(r#"{"action":"get_metrics"}"#)) {
        ClientMessage::Command(t) => assert_eq!(t, r#"{"action":"get_metrics"}"#),
        other => panic!("unexpected {:?}", other),
    }
    match classify_message(&k, &seal("v=0\r\no=- 1 2 IN IP4 127.0.0.1")) {
        ClientMessage::Offer(t) => assert!(t.starts_with("v=0")),
        other => panic!("unexpected {:?}", other),
    }
    assert!(matches!(classify_message(&k, &seal("{broken")), ClientMessage::Ignored));
    assert!(matches!(classify_message(&k, "garbage"), ClientMessage::Ignored));
    let sealed = seal("x");
    assert_eq!(decrypt_aes_gcm(&k, &sealed).unwrap(), "x");
}

#[test]
fn screen_and_camera_never_stream_together() {
    let mut f = StreamFlags::new();
    assert!(!f.screen_active() && !f.camera_active());
    assert!(f.start_screen());
    assert!(!f.start_screen());
    assert!(f.screen_active() && !f.camera_active());
    assert!(f.start_camera());
    assert!(!f.screen_active() && f.camera_active());
    f.camera_failed();
    assert!(!f.camera_active());
    assert!(f.start_screen());
    f.screen_ended();
    assert!(!f.screen_active());
    assert!(f.start_camera());
    f.camera_ended();
    assert!(!f.camera_active());
    f.start_screen();
    f.close();
    assert!(!f.screen_active() && !f.camera_active());
}

#[test]
fn stream_announcements_match_serde_json() {
    let text = stream_info(StreamKind::Screen, 1920, 1080);
    assert_eq!(text, r#"{"height":1080,"type":"screen_info","width":1920}"#);
    let mut m = serde_json::Map::new();
    m.insert("type".to_string(), serde_json::Value::from("screen_info"));
    m.insert("width".to_string(), serde_json::Value::from(1920));
    m.insert("height".to_string(), serde_json::Value::from(1080));
    assert_eq!(serde_json::Value::Object(m).to_string(), text);
    assert_eq!(stream_info(StreamKind::Camera, 640, 480), r#"{"height":480,"type":"camera_info","width":640}"#);
}

#[test]
fn command_routing() {
    assert_eq!(route_command("unlock_host", false), CommandRoute::UnlockHost);
    assert_eq!(route_command("click", false), CommandRoute::RemoteInput);
    assert_eq!(route_command("send_command", false), CommandRoute::VaultLocked);
    assert_eq!(route_command("send_command", true), CommandRoute::SendCommand);
    assert_eq!(route_command("get_metrics", true), CommandRoute::GetMetrics);
    assert_eq!(route_command("emergency_kill", true), CommandRoute::EmergencyKill);
    assert_eq!(route_command("open_app", true), CommandRoute::Dispatch);
    assert!(is_remote_input_action("unlock_os"));
    assert!(!is_remote_input_action("open_app"));
}

#[test]
fn command_parameters() {
    let p = obj(vec![("passcode", Json::Str("2468".to_string()))]);
    assert_eq!(unlock_host_passcode(&p), Ok("2468".to_string()));
    assert_eq!(unlock_host_passcode(&obj(vec![])), Err("Missing passcode".to_string()));
    let chat = obj(vec![("text", Json::Str("hi".to_string())), ("session_id", Json::Str("s1".to_string()))]);
    assert_eq!(chat_command_params(&chat), Ok(("hi".to_string(), "s1".to_string())));
    assert_eq!(chat_command_params(&obj(vec![])), Err("Missing text param".to_string()));
    let no_session = obj(vec![("text", Json::Str("hi".to_string()))]);
    assert_eq!(chat_command_params(&no_session), Err("Missing session_id param".to_string()));
}

#[test]
fn active_connection_labels() {
    let a = connection_label("10.0.0.2:5000");
    assert_eq!(a, "Mobile Client (10.0.0.2:5000)");
    let b = connection_label("10.0.0.3:6000");
    let mut active = vec![a.clone(), b.clone(), a.clone()];
    forget_connection(&mut active, &a);
    assert_eq!(active, vec![b.clone()]);
    forget_connection(&mut active, "nobody");
    assert_eq!(active, vec![b]);
}

#[test]
fn outgoing_frames_are_sealed_under_the_session_key() {
    let k = sha256_key("2468");
    match seal_outgoing(&k, OutgoingFrame::Text("{\"a\":1}".to_string())) {
        Some(OutgoingFrame::Text(s)) => {
            assert_ne!(s, "{\"a\":1}");
            assert_eq!(decrypt_aes_gcm(&k, &s).unwrap(), "{\"a\":1}");
        }
        other => panic!("unexpected {:?}", other),
    }
    match seal_outgoing(&k, OutgoingFrame::Binary(vec![1, 2, 3, 4])) {
        Some(OutgoingFrame::Binary(f)) => {
            assert_eq!(f.len(), 12 + 4 + 16);
            assert_eq!(avatar_core::security::decrypt_aes_gcm_bin(&k, &f).unwrap(), vec![1, 2, 3, 4]);
        }
        other => panic!("unexpected {:?}", other),
    }
}

#[test]
fn mobile_commands_are_read_from_json() {
    let (action, params) = parse_mobile_command(r#"{"action":"unlock_host","params":{"passcode":"1234"}}"#).unwrap();
    assert_eq!(action, "unlock_host");
    assert_eq!(params, obj(vec![("passcode", Json::Str("1234".to_string()))]));
    let (action, params) = parse_mobile_command(r#"["get_metrics", null]"#).unwrap();
    assert_eq!(action, "get_metrics");
    assert_eq!(params, Json::Null);
    assert_eq!(parse_mobile_command(r#"{"action":"get_metrics"}"#), None);
    assert_eq!(parse_mobile_command(r#"{"action":7,"params":{}}"#), None);
    assert_eq!(parse_mobile_command(r#"["a", 1, 2]"#), None);
    assert_eq!(parse_mobile_command("not json"), None);
}

#[test]
fn locked_tokens_are_checked_against_the_keys_file() {
    let key = discovery_key("tok");
    let file = format!("[\"other\",\"{}\"]", key);
    assert!(locked_token_admitted(&file, "tok"));
    assert!(!locked_token_admitted(&file, "tok2"));
    assert!(!locked_token_admitted(&format!("[1,\"{}\"]", key), "tok"));
    assert!(!locked_token_admitted("{}", "tok"));
    assert!(!locked_token_admitted("", "tok"));
}
