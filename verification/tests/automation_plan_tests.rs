use avatar_core::automation::{
    brightness_script, is_shortcut_match, parse_key, parse_mouse_button, parse_power_action, plan_scroll,
    plan_shortcut, plan_unlock, power_command, search_budget_exhausted, url_target, volume_key, Key, KeyEvent,
    MouseButton, PowerAction, ScrollAxis, UnlockStep, MAX_SEARCH_DIRS,
};

#[test]
fn key_names_parse_case_insensitively() {
    assert_eq!(parse_key("Enter"), Some(Key::Return));
    assert_eq!(parse_key("esc"), Some(Key::Escape));
    assert_eq!(parse_key("WIN"), Some(Key::Meta));
    assert_eq!(parse_key("f11"), Some(Key::F11));
    assert_eq!(parse_key("f12"), None);
    assert_eq!(parse_key("a"), None);
}

#[test]
fn mouse_buttons_default_to_left() {
    assert_eq!(parse_mouse_button("right"), MouseButton::Right);
    assert_eq!(parse_mouse_button("middle"), MouseButton::Middle);
    assert_eq!(parse_mouse_button("left"), MouseButton::Left);
    assert_eq!(parse_mouse_button("other"), MouseButton::Left);
}

#[test]
fn shortcuts_hold_click_and_release_in_reverse() {
    assert_eq!(
        plan_shortcut("ctrl+shift+t").unwrap(),
        vec![
            KeyEvent::Down(Key::Control),
            KeyEvent::Down(Key::Shift),
            KeyEvent::Click(Key::Layout('t')),
            KeyEvent::Up(Key::Shift),
            KeyEvent::Up(Key::Control),
        ]
    );
    assert_eq!(plan_shortcut("alt-f4").unwrap(), vec![KeyEvent::Down(Key::Alt), KeyEvent::Click(Key::F4), KeyEvent::Up(Key::Alt)]);
    assert_eq!(plan_shortcut("enter").unwrap(), vec![KeyEvent::Click(Key::Return)]);
}

#[test]
fn shortcuts_with_unknown_parts_fail() {
    assert_eq!(plan_shortcut("ctrl+banana").unwrap_err(), "Unknown key part in shortcut: banana");
    assert_eq!(plan_shortcut("ctrl++").unwrap_err(), "Unknown key part in shortcut: ");
    assert_eq!(plan_shortcut("").unwrap_err(), "Unknown key part in shortcut: ");
    assert_eq!(plan_shortcut("ctrl+é").unwrap_err(), "Unknown key part in shortcut: é");
}

#[test]
fn scroll_directions() {
    assert_eq!(plan_scroll(3, "up"), Some((ScrollAxis::Vertical, 3)));
    assert_eq!(plan_scroll(3, "down"), Some((ScrollAxis::Vertical, -3)));
    assert_eq!(plan_scroll(2, "left"), Some((ScrollAxis::Horizontal, 2)));
    assert_eq!(plan_scroll(2, "right"), Some((ScrollAxis::Horizontal, -2)));
    assert_eq!(plan_scroll(2, "sideways"), None);
}

#[test]
fn unlock_sequence_types_each_character() {
    assert_eq!(
        plan_unlock("ab"),
        vec![
            UnlockStep::Click(Key::Space),
            UnlockStep::SleepMillis(800),
            UnlockStep::Click(Key::Backspace),
            UnlockStep::Click(Key::Backspace),
            UnlockStep::SleepMillis(150),
            UnlockStep::Click(Key::Layout('a')),
            UnlockStep::SleepMillis(25),
            UnlockStep::Click(Key::Layout('b')),
            UnlockStep::SleepMillis(25),
            UnlockStep::SleepMillis(150),
            UnlockStep::Click(Key::Return),
        ]
    );
    assert_eq!(plan_unlock("").len(), 7);
}

#[test]
fn volume_and_brightness() {
    assert_eq!(volume_key("up"), Some(Key::VolumeUp));
    assert_eq!(volume_key("down"), Some(Key::VolumeDown));
    assert_eq!(volume_key("mute"), Some(Key::Raw(0xAD)));
    assert_eq!(volume_key("loud"), None);
    assert_eq!(
        brightness_script(80),
        "(Get-WmiObject -Namespace root/WMI -Class WmiMonitorBrightnessMethods).WmiSetBrightness(0, 80)"
    );
    assert_eq!(
        brightness_script(250),
        "(Get-WmiObject -Namespace root/WMI -Class WmiMonitorBrightnessMethods).WmiSetBrightness(0, 100)"
    );
}

#[test]
fn power_actions() {
    assert_eq!(parse_power_action("lock"), Ok(PowerAction::Lock));
    assert_eq!(parse_power_action("restart"), Ok(PowerAction::Restart));
    assert_eq!(parse_power_action("hibernate"), Err("Unknown power action".to_string()));
    assert_eq!(power_command(PowerAction::Shutdown), ("shutdown".to_string(), vec!["/s".to_string(), "/t".to_string(), "10".to_string()]));
    assert_eq!(
        power_command(PowerAction::Sleep),
        ("rundll32.exe".to_string(), vec!["powrprof.dll,SetSuspendState".to_string(), "0,1,0".to_string()])
    );
}

#[test]
fn urls_get_a_scheme() {
    assert_eq!(url_target("  example.com "), "https://example.com");
    assert_eq!(url_target("http://x.org"), "http://x.org");
}

#[test]
fn start_menu_matches() {
    assert!(is_shortcut_match("Visual Studio Code.LNK", "code"));
    assert!(is_shortcut_match("thonny.exe", "thonny"));
    assert!(!is_shortcut_match("thonny.txt", "thonny"));
    assert!(!is_shortcut_match("other.exe", "thonny"));
    assert!(!search_budget_exhausted(MAX_SEARCH_DIRS));
    assert!(search_budget_exhausted(MAX_SEARCH_DIRS + 1));
}
