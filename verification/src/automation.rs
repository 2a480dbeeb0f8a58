//! Plans for desktop input automation: key names, shortcuts, scrolling,
//! unlock sequences, volume keys, brightness scripts, power commands and
//! application/URL launch targets.  The host performs the plans.
use vstd::prelude::*;
use crate::text;
use crate::text::{
    chars_of, concat, concat_str, contains, contains_str, ends_with_str, eq_str, lower_chars,
    starts_with_str, string_of, trim, u64_decimal,
};

verus! {

/// A keyboard key the automation layer can press.
#[derive(Clone, Copy, Debug, PartialEq, Eq, Structural)]
pub enum Key {
    Return,
    Space,
    Backspace,
    Tab,
    Escape,
    UpArrow,
    DownArrow,
    LeftArrow,
    RightArrow,
    Meta,
    Control,
    Alt,
    Shift,
    F1,
    F2,
    F3,
    F4,
    F5,
    F6,
    F7,
    F8,
    F9,
    F10,
    F11,
    VolumeUp,
    VolumeDown,
    /// A key identified by its layout character.
    Layout(char),
    /// A key identified by its virtual key code.
    Raw(u16),
}

/// A mouse button.
#[derive(Clone, Copy, Debug, PartialEq, Eq, Structural)]
pub enum MouseButton {
    Left,
    Right,
    Middle,
}

/// One step of a key sequence.
#[derive(Clone, Copy, Debug, PartialEq, Eq, Structural)]
pub enum KeyEvent {
    Down(Key),
    Click(Key),
    Up(Key),
}

/// The key a (lowercased) key name stands for.
pub open spec fn key_for_name(n: Seq<char>) -> Option<Key> {
    if n == "enter"@ { Some(Key::Return) }
    else if n == "space"@ { Some(Key::Space) }
    else if n == "backspace"@ { Some(Key::Backspace) }
    else if n == "tab"@ { Some(Key::Tab) }
    else if n == "escape"@ || n == "esc"@ { Some(Key::Escape) }
    else if n == "up"@ { Some(Key::UpArrow) }
    else if n == "down"@ { Some(Key::DownArrow) }
    else if n == "left"@ { Some(Key::LeftArrow) }
    else if n == "right"@ { Some(Key::RightArrow) }
    else if n == "meta"@ || n == "win"@ || n == "super"@ { Some(Key::Meta) }
    else if n == "control"@ || n == "ctrl"@ { Some(Key::Control) }
    else if n == "alt"@ { Some(Key::Alt) }
    else if n == "shift"@ { Some(Key::Shift) }
    else if n == "f1"@ { Some(Key::F1) }
    else if n == "f2"@ { Some(Key::F2) }
    else if n == "f3"@ { Some(Key::F3) }
    else if n == "f4"@ { Some(Key::F4) }
    else if n == "f5"@ { Some(Key::F5) }
    else if n == "f6"@ { Some(Key::F6) }
    else if n == "f7"@ { Some(Key::F7) }
    else if n == "f8"@ { Some(Key::F8) }
    else if n == "f9"@ { Some(Key::F9) }
    else if n == "f10"@ { Some(Key::F10) }
    else if n == "f11"@ { Some(Key::F11) }
    else { None }
}

fn key_for_lower_name(n: &Vec<char>) -> (res: Option<Key>)
    ensures
        res == key_for_name(n@),
{
    if eq_str(n, "enter") { Some(Key::Return) }
    else if eq_str(n, "space") { Some(Key::Space) }
    else if eq_str(n, "backspace") { Some(Key::Backspace) }
    else if eq_str(n, "tab") { Some(Key::Tab) }
    else if eq_str(n, "escape") || eq_str(n, "esc") { Some(Key::Escape) }
    else if eq_str(n, "up") { Some(Key::UpArrow) }
    else if eq_str(n, "down") { Some(Key::DownArrow) }
    else if eq_str(n, "left") { Some(Key::LeftArrow) }
    else if eq_str(n, "right") { Some(Key::RightArrow) }
    else if eq_str(n, "meta") || eq_str(n, "win") || eq_str(n, "super") { Some(Key::Meta) }
    else if eq_str(n, "control") || eq_str(n, "ctrl") { Some(Key::Control) }
    else if eq_str(n, "alt") { Some(Key::Alt) }
    else if eq_str(n, "shift") { Some(Key::Shift) }
    else if eq_str(n, "f1") { Some(Key::F1) }
    else if eq_str(n, "f2") { Some(Key::F2) }
    else if eq_str(n, "f3") { Some(Key::F3) }
    else if eq_str(n, "f4") { Some(Key::F4) }
    else if eq_str(n, "f5") { Some(Key::F5) }
    else if eq_str(n, "f6") { Some(Key::F6) }
    else if eq_str(n, "f7") { Some(Key::F7) }
    else if eq_str(n, "f8") { Some(Key::F8) }
    else if eq_str(n, "f9") { Some(Key::F9) }
    else if eq_str(n, "f10") { Some(Key::F10) }
    else if eq_str(n, "f11") { Some(Key::F11) }
    else { None }
}

/// Parses a special key name, case-insensitively.
pub fn parse_key_chars(name: &Vec<char>) -> (res: Option<Key>)
    ensures
        res == key_for_name(text::lowercase(name@)),
{
    let lower = lower_chars(name);
    key_for_lower_name(&lower)
}

/// Parses a special key name, case-insensitively.
pub fn parse_key(name: &str) -> (res: Option<Key>)
    ensures
        res == key_for_name(text::lowercase(name@)),
{
    let n = chars_of(name);
    parse_key_chars(&n)
}

/// The mouse button a button name selects; anything unrecognised is the left button.
pub open spec fn button_for_name(n: Seq<char>) -> MouseButton {
    if n == "right"@ {
        MouseButton::Right
    } else if n == "middle"@ {
        MouseButton::Middle
    } else {
        MouseButton::Left
    }
}

/// Each special key has its own names (`enter`; `space`; `backspace`;
/// `tab`; `escape` or `esc`; the four arrows `up`, `down`, `left`, `right`;
/// `meta`, `win` or `super`; `control` or `ctrl`; `alt`; `shift`; `f1` to
/// `f11`), and a name selects a key exactly when it is one of that key's
/// names.
pub proof fn lemma_key_names(n: Seq<char>)
    ensures
        key_for_name(n) == Some(Key::Return) <==> (n == "enter"@),
        key_for_name(n) == Some(Key::Space) <==> (n == "space"@),
        key_for_name(n) == Some(Key::Backspace) <==> (n == "backspace"@),
        key_for_name(n) == Some(Key::Tab) <==> (n == "tab"@),
        key_for_name(n) == Some(Key::Escape) <==> (n == "escape"@ || n == "esc"@),
        key_for_name(n) == Some(Key::UpArrow) <==> (n == "up"@),
        key_for_name(n) == Some(Key::DownArrow) <==> (n == "down"@),
        key_for_name(n) == Some(Key::LeftArrow) <==> (n == "left"@),
        key_for_name(n) == Some(Key::RightArrow) <==> (n == "right"@),
        key_for_name(n) == Some(Key::Meta) <==> (n == "meta"@ || n == "win"@ || n == "super"@),
        key_for_name(n) == Some(Key::Control) <==> (n == "control"@ || n == "ctrl"@),
        key_for_name(n) == Some(Key::Alt) <==> (n == "alt"@),
        key_for_name(n) == Some(Key::Shift) <==> (n == "shift"@),
        key_for_name(n) == Some(Key::F1) <==> (n == "f1"@),
        key_for_name(n) == Some(Key::F2) <==> (n == "f2"@),
        key_for_name(n) == Some(Key::F3) <==> (n == "f3"@),
        key_for_name(n) == Some(Key::F4) <==> (n == "f4"@),
        key_for_name(n) == Some(Key::F5) <==> (n == "f5"@),
        key_for_name(n) == Some(Key::F6) <==> (n == "f6"@),
        key_for_name(n) == Some(Key::F7) <==> (n == "f7"@),
        key_for_name(n) == Some(Key::F8) <==> (n == "f8"@),
        key_for_name(n) == Some(Key::F9) <==> (n == "f9"@),
        key_for_name(n) == Some(Key::F10) <==> (n == "f10"@),
        key_for_name(n) == Some(Key::F11) <==> (n == "f11"@),
        key_for_name(n) is Some ==> key_for_name(n) != Some(Key::VolumeUp) && key_for_name(n)
            != Some(Key::VolumeDown),
{
    reveal_strlit("enter");
    reveal_strlit("space");
    reveal_strlit("backspace");
    reveal_strlit("tab");
    reveal_strlit("escape");
    reveal_strlit("esc");
    reveal_strlit("up");
    reveal_strlit("down");
    reveal_strlit("left");
    reveal_strlit("right");
    reveal_strlit("meta");
    reveal_strlit("win");
    reveal_strlit("super");
    reveal_strlit("control");
    reveal_strlit("ctrl");
    reveal_strlit("alt");
    reveal_strlit("shift");
    reveal_strlit("f1");
    reveal_strlit("f2");
    reveal_strlit("f3");
    reveal_strlit("f4");
    reveal_strlit("f5");
    reveal_strlit("f6");
    reveal_strlit("f7");
    reveal_strlit("f8");
    reveal_strlit("f9");
    reveal_strlit("f10");
    reveal_strlit("f11");
    if n == "enter"@ {
        assert(n.len() == 5);
        assert("space"@[0] == 's' && n[0] == 'e');
        assert("backspace"@.len() == 9);
        assert("tab"@.len() == 3);
        assert("escape"@.len() == 6);
        assert("esc"@.len() == 3);
        assert("up"@.len() == 2);
        assert("down"@.len() == 4);
        assert("left"@.len() == 4);
        assert("right"@[0] == 'r' && n[0] == 'e');
        assert("meta"@.len() == 4);
        assert("win"@.len() == 3);
        assert("super"@[0] == 's' && n[0] == 'e');
        assert("control"@.len() == 7);
        assert("ctrl"@.len() == 4);
        assert("alt"@.len() == 3);
        assert("shift"@[0] == 's' && n[0] == 'e');
        assert("f1"@.len() == 2);
        assert("f2"@.len() == 2);
        assert("f3"@.len() == 2);
        assert("f4"@.len() == 2);
        assert("f5"@.len() == 2);
        assert("f6"@.len() == 2);
        assert("f7"@.len() == 2);
        assert("f8"@.len() == 2);
        assert("f9"@.len() == 2);
        assert("f10"@.len() == 3);
        assert("f11"@.len() == 3);
    }
    if n == "space"@ {
        assert(n.len() == 5);
        assert("enter"@[0] == 'e' && n[0] == 's');
        assert("backspace"@.len() == 9);
        assert("tab"@.len() == 3);
        assert("escape"@.len() == 6);
        assert("esc"@.len() == 3);
        assert("up"@.len() == 2);
        assert("down"@.len() == 4);
        assert("left"@.len() == 4);
        assert("right"@[0] == 'r' && n[0] == 's');
        assert("meta"@.len() == 4);
        assert("win"@.len() == 3);
        assert("super"@[1] == 'u' && n[1] == 'p');
        assert("control"@.len() == 7);
        assert("ctrl"@.len() == 4);
        assert("alt"@.len() == 3);
        assert("shift"@[1] == 'h' && n[1] == 'p');
        assert("f1"@.len() == 2);
        assert("f2"@.len() == 2);
        assert("f3"@.len() == 2);
        assert("f4"@.len() == 2);
        assert("f5"@.len() == 2);
        assert("f6"@.len() == 2);
        assert("f7"@.len() == 2);
        assert("f8"@.len() == 2);
        assert("f9"@.len() == 2);
        assert("f10"@.len() == 3);
        assert("f11"@.len() == 3);
    }
    if n == "backspace"@ {
        assert(n.len() == 9);
        assert("enter"@.len() == 5);
        assert("space"@.len() == 5);
        assert("tab"@.len() == 3);
        assert("escape"@.len() == 6);
        assert("esc"@.len() == 3);
        assert("up"@.len() == 2);
        assert("down"@.len() == 4);
        assert("left"@.len() == 4);
        assert("right"@.len() == 5);
        assert("meta"@.len() == 4);
        assert("win"@.len() == 3);
        assert("super"@.len() == 5);
        assert("control"@.len() == 7);
        assert("ctrl"@.len() == 4);
        assert("alt"@.len() == 3);
        assert("shift"@.len() == 5);
        assert("f1"@.len() == 2);
        assert("f2"@.len() == 2);
        assert("f3"@.len() == 2);
        assert("f4"@.len() == 2);
        assert("f5"@.len() == 2);
        assert("f6"@.len() == 2);
        assert("f7"@.len() == 2);
        assert("f8"@.len() == 2);
        assert("f9"@.len() == 2);
        assert("f10"@.len() == 3);
        assert("f11"@.len() == 3);
    }
    if n == "tab"@ {
        assert(n.len() == 3);
        assert("enter"@.len() == 5);
        assert("space"@.len() == 5);
        assert("backspace"@.len() == 9);
        assert("escape"@.len() == 6);
        assert("esc"@[0] == 'e' && n[0] == 't');
        assert("up"@.len() == 2);
        assert("down"@.len() == 4);
        assert("left"@.len() == 4);
        assert("right"@.len() == 5);
        assert("meta"@.len() == 4);
        assert("win"@[0] == 'w' && n[0] == 't');
        assert("super"@.len() == 5);
        assert("control"@.len() == 7);
        assert("ctrl"@.len() == 4);
        assert("alt"@[0] == 'a' && n[0] == 't');
        assert("shift"@.len() == 5);
        assert("f1"@.len() == 2);
        assert("f2"@.len() == 2);
        assert("f3"@.len() == 2);
        assert("f4"@.len() == 2);
        assert("f5"@.len() == 2);
        assert("f6"@.len() == 2);
        assert("f7"@.len() == 2);
        assert("f8"@.len() == 2);
        assert("f9"@.len() == 2);
        assert("f10"@[0] == 'f' && n[0] == 't');
        assert("f11"@[0] == 'f' && n[0] == 't');
    }
    if n == "escape"@ {
        assert(n.len() == 6);
        assert("enter"@.len() == 5);
        assert("space"@.len() == 5);
        assert("backspace"@.len() == 9);
        assert("tab"@.len() == 3);
        assert("esc"@.len() == 3);
        assert("up"@.len() == 2);
        assert("down"@.len() == 4);
        assert("left"@.len() == 4);
        assert("right"@.len() == 5);
        assert("meta"@.len() == 4);
        assert("win"@.len() == 3);
        assert("super"@.len() == 5);
        assert("control"@.len() == 7);
        assert("ctrl"@.len() == 4);
        assert("alt"@.len() == 3);
        assert("shift"@.len() == 5);
        assert("f1"@.len() == 2);
        assert("f2"@.len() == 2);
        assert("f3"@.len() == 2);
        assert("f4"@.len() == 2);
        assert("f5"@.len() == 2);
        assert("f6"@.len() == 2);
        assert("f7"@.len() == 2);
        assert("f8"@.len() == 2);
        assert("f9"@.len() == 2);
        assert("f10"@.len() == 3);
        assert("f11"@.len() == 3);
    }
    if n == "esc"@ {
        assert(n.len() == 3);
        assert("enter"@.len() == 5);
        assert("space"@.len() == 5);
        assert("backspace"@.len() == 9);
        assert("tab"@[0] == 't' && n[0] == 'e');
        assert("escape"@.len() == 6);
        assert("up"@.len() == 2);
        assert("down"@.len() == 4);
        assert("left"@.len() == 4);
        assert("right"@.len() == 5);
        assert("meta"@.len() == 4);
        assert("win"@[0] == 'w' && n[0] == 'e');
        assert("super"@.len() == 5);
        assert("control"@.len() == 7);
        assert("ctrl"@.len() == 4);
        assert("alt"@[0] == 'a' && n[0] == 'e');
        assert("shift"@.len() == 5);
        assert("f1"@.len() == 2);
        assert("f2"@.len() == 2);
        assert("f3"@.len() == 2);
        assert("f4"@.len() == 2);
        assert("f5"@.len() == 2);
        assert("f6"@.len() == 2);
        assert("f7"@.len() == 2);
        assert("f8"@.len() == 2);
        assert("f9"@.len() == 2);
        assert("f10"@[0] == 'f' && n[0] == 'e');
        assert("f11"@[0] == 'f' && n[0] == 'e');
    }
    if n == "up"@ {
        assert(n.len() == 2);
        assert("enter"@.len() == 5);
        assert("space"@.len() == 5);
        assert("backspace"@.len() == 9);
        assert("tab"@.len() == 3);
        assert("escape"@.len() == 6);
        assert("esc"@.len() == 3);
        assert("down"@.len() == 4);
        assert("left"@.len() == 4);
        assert("right"@.len() == 5);
        assert("meta"@.len() == 4);
        assert("win"@.len() == 3);
        assert("super"@.len() == 5);
        assert("control"@.len() == 7);
        assert("ctrl"@.len() == 4);
        assert("alt"@.len() == 3);
        assert("shift"@.len() == 5);
        assert("f1"@[0] == 'f' && n[0] == 'u');
        assert("f2"@[0] == 'f' && n[0] == 'u');
        assert("f3"@[0] == 'f' && n[0] == 'u');
        assert("f4"@[0] == 'f' && n[0] == 'u');
        assert("f5"@[0] == 'f' && n[0] == 'u');
        assert("f6"@[0] == 'f' && n[0] == 'u');
        assert("f7"@[0] == 'f' && n[0] == 'u');
        assert("f8"@[0] == 'f' && n[0] == 'u');
        assert("f9"@[0] == 'f' && n[0] == 'u');
        assert("f10"@.len() == 3);
        assert("f11"@.len() == 3);
    }
    if n == "down"@ {
        assert(n.len() == 4);
        assert("enter"@.len() == 5);
        assert("space"@.len() == 5);
        assert("backspace"@.len() == 9);
        assert("tab"@.len() == 3);
        assert("escape"@.len() == 6);
        assert("esc"@.len() == 3);
        assert("up"@.len() == 2);
        assert("left"@[0] == 'l' && n[0] == 'd');
        assert("right"@.len() == 5);
        assert("meta"@[0] == 'm' && n[0] == 'd');
        assert("win"@.len() == 3);
        assert("super"@.len() == 5);
        assert("control"@.len() == 7);
        assert("ctrl"@[0] == 'c' && n[0] == 'd');
        assert("alt"@.len() == 3);
        assert("shift"@.len() == 5);
        assert("f1"@.len() == 2);
        assert("f2"@.len() == 2);
        assert("f3"@.len() == 2);
        assert("f4"@.len() == 2);
        assert("f5"@.len() == 2);
        assert("f6"@.len() == 2);
        assert("f7"@.len() == 2);
        assert("f8"@.len() == 2);
        assert("f9"@.len() == 2);
        assert("f10"@.len() == 3);
        assert("f11"@.len() == 3);
    }
    if n == "left"@ {
        assert(n.len() == 4);
        assert("enter"@.len() == 5);
        assert("space"@.len() == 5);
        assert("backspace"@.len() == 9);
        assert("tab"@.len() == 3);
        assert("escape"@.len() == 6);
        assert("esc"@.len() == 3);
        assert("up"@.len() == 2);
        assert("down"@[0] == 'd' && n[0] == 'l');
        assert("right"@.len() == 5);
        assert("meta"@[0] == 'm' && n[0] == 'l');
        assert("win"@.len() == 3);
        assert("super"@.len() == 5);
        assert("control"@.len() == 7);
        assert("ctrl"@[0] == 'c' && n[0] == 'l');
        assert("alt"@.len() == 3);
        assert("shift"@.len() == 5);
        assert("f1"@.len() == 2);
        assert("f2"@.len() == 2);
        assert("f3"@.len() == 2);
        assert("f4"@.len() == 2);
        assert("f5"@.len() == 2);
        assert("f6"@.len() == 2);
        assert("f7"@.len() == 2);
        assert("f8"@.len() == 2);
        assert("f9"@.len() == 2);
        assert("f10"@.len() == 3);
        assert("f11"@.len() == 3);
    }
    if n == "right"@ {
        assert(n.len() == 5);
        assert("enter"@[0] == 'e' && n[0] == 'r');
        assert("space"@[0] == 's' && n[0] == 'r');
        assert("backspace"@.len() == 9);
        assert("tab"@.len() == 3);
        assert("escape"@.len() == 6);
        assert("esc"@.len() == 3);
        assert("up"@.len() == 2);
        assert("down"@.len() == 4);
        assert("left"@.len() == 4);
        assert("meta"@.len() == 4);
        assert("win"@.len() == 3);
        assert("super"@[0] == 's' && n[0] == 'r');
        assert("control"@.len() == 7);
        assert("ctrl"@.len() == 4);
        assert("alt"@.len() == 3);
        assert("shift"@[0] == 's' && n[0] == 'r');
        assert("f1"@.len() == 2);
        assert("f2"@.len() == 2);
        assert("f3"@.len() == 2);
        assert("f4"@.len() == 2);
        assert("f5"@.len() == 2);
        assert("f6"@.len() == 2);
        assert("f7"@.len() == 2);
        assert("f8"@.len() == 2);
        assert("f9"@.len() == 2);
        assert("f10"@.len() == 3);
        assert("f11"@.len() == 3);
    }
    if n == "meta"@ {
        assert(n.len() == 4);
        assert("enter"@.len() == 5);
        assert("space"@.len() == 5);
        assert("backspace"@.len() == 9);
        assert("tab"@.len() == 3);
        assert("escape"@.len() == 6);
        assert("esc"@.len() == 3);
        assert("up"@.len() == 2);
        assert("down"@[0] == 'd' && n[0] == 'm');
        assert("left"@[0] == 'l' && n[0] == 'm');
        assert("right"@.len() == 5);
        assert("win"@.len() == 3);
        assert("super"@.len() == 5);
        assert("control"@.len() == 7);
        assert("ctrl"@[0] == 'c' && n[0] == 'm');
        assert("alt"@.len() == 3);
        assert("shift"@.len() == 5);
        assert("f1"@.len() == 2);
        assert("f2"@.len() == 2);
        assert("f3"@.len() == 2);
        assert("f4"@.len() == 2);
        assert("f5"@.len() == 2);
        assert("f6"@.len() == 2);
        assert("f7"@.len() == 2);
        assert("f8"@.len() == 2);
        assert("f9"@.len() == 2);
        assert("f10"@.len() == 3);
        assert("f11"@.len() == 3);
    }
    if n == "win"@ {
        assert(n.len() == 3);
        assert("enter"@.len() == 5);
        assert("space"@.len() == 5);
        assert("backspace"@.len() == 9);
        assert("tab"@[0] == 't' && n[0] == 'w');
        assert("escape"@.len() == 6);
        assert("esc"@[0] == 'e' && n[0] == 'w');
        assert("up"@.len() == 2);
        assert("down"@.len() == 4);
        assert("left"@.len() == 4);
        assert("right"@.len() == 5);
        assert("meta"@.len() == 4);
        assert("super"@.len() == 5);
        assert("control"@.len() == 7);
        assert("ctrl"@.len() == 4);
        assert("alt"@[0] == 'a' && n[0] == 'w');
        assert("shift"@.len() == 5);
        assert("f1"@.len() == 2);
        assert("f2"@.len() == 2);
        assert("f3"@.len() == 2);
        assert("f4"@.len() == 2);
        assert("f5"@.len() == 2);
        assert("f6"@.len() == 2);
        assert("f7"@.len() == 2);
        assert("f8"@.len() == 2);
        assert("f9"@.len() == 2);
        assert("f10"@[0] == 'f' && n[0] == 'w');
        assert("f11"@[0] == 'f' && n[0] == 'w');
    }
    if n == "super"@ {
        assert(n.len() == 5);
        assert("enter"@[0] == 'e' && n[0] == 's');
        assert("space"@[1] == 'p' && n[1] == 'u');
        assert("backspace"@.len() == 9);
        assert("tab"@.len() == 3);
        assert("escape"@.len() == 6);
        assert("esc"@.len() == 3);
        assert("up"@.len() == 2);
        assert("down"@.len() == 4);
        assert("left"@.len() == 4);
        assert("right"@[0] == 'r' && n[0] == 's');
        assert("meta"@.len() == 4);
        assert("win"@.len() == 3);
        assert("control"@.len() == 7);
        assert("ctrl"@.len() == 4);
        assert("alt"@.len() == 3);
        assert("shift"@[1] == 'h' && n[1] == 'u');
        assert("f1"@.len() == 2);
        assert("f2"@.len() == 2);
        assert("f3"@.len() == 2);
        assert("f4"@.len() == 2);
        assert("f5"@.len() == 2);
        assert("f6"@.len() == 2);
        assert("f7"@.len() == 2);
        assert("f8"@.len() == 2);
        assert("f9"@.len() == 2);
        assert("f10"@.len() == 3);
        assert("f11"@.len() == 3);
    }
    if n == "control"@ {
        assert(n.len() == 7);
        assert("enter"@.len() == 5);
        assert("space"@.len() == 5);
        assert("backspace"@.len() == 9);
        assert("tab"@.len() == 3);
        assert("escape"@.len() == 6);
        assert("esc"@.len() == 3);
        assert("up"@.len() == 2);
        assert("down"@.len() == 4);
        assert("left"@.len() == 4);
        assert("right"@.len() == 5);
        assert("meta"@.len() == 4);
        assert("win"@.len() == 3);
        assert("super"@.len() == 5);
        assert("ctrl"@.len() == 4);
        assert("alt"@.len() == 3);
        assert("shift"@.len() == 5);
        assert("f1"@.len() == 2);
        assert("f2"@.len() == 2);
        assert("f3"@.len() == 2);
        assert("f4"@.len() == 2);
        assert("f5"@.len() == 2);
        assert("f6"@.len() == 2);
        assert("f7"@.len() == 2);
        assert("f8"@.len() == 2);
        assert("f9"@.len() == 2);
        assert("f10"@.len() == 3);
        assert("f11"@.len() == 3);
    }
    if n == "ctrl"@ {
        assert(n.len() == 4);
        assert("enter"@.len() == 5);
        assert("space"@.len() == 5);
        assert("backspace"@.len() == 9);
        assert("tab"@.len() == 3);
        assert("escape"@.len() == 6);
        assert("esc"@.len() == 3);
        assert("up"@.len() == 2);
        assert("down"@[0] == 'd' && n[0] == 'c');
        assert("left"@[0] == 'l' && n[0] == 'c');
        assert("right"@.len() == 5);
        assert("meta"@[0] == 'm' && n[0] == 'c');
        assert("win"@.len() == 3);
        assert("super"@.len() == 5);
        assert("control"@.len() == 7);
        assert("alt"@.len() == 3);
        assert("shift"@.len() == 5);
        assert("f1"@.len() == 2);
        assert("f2"@.len() == 2);
        assert("f3"@.len() == 2);
        assert("f4"@.len() == 2);
        assert("f5"@.len() == 2);
        assert("f6"@.len() == 2);
        assert("f7"@.len() == 2);
        assert("f8"@.len() == 2);
        assert("f9"@.len() == 2);
        assert("f10"@.len() == 3);
        assert("f11"@.len() == 3);
    }
    if n == "alt"@ {
        assert(n.len() == 3);
        assert("enter"@.len() == 5);
        assert("space"@.len() == 5);
        assert("backspace"@.len() == 9);
        assert("tab"@[0] == 't' && n[0] == 'a');
        assert("escape"@.len() == 6);
        assert("esc"@[0] == 'e' && n[0] == 'a');
        assert("up"@.len() == 2);
        assert("down"@.len() == 4);
        assert("left"@.len() == 4);
        assert("right"@.len() == 5);
        assert("meta"@.len() == 4);
        assert("win"@[0] == 'w' && n[0] == 'a');
        assert("super"@.len() == 5);
        assert("control"@.len() == 7);
        assert("ctrl"@.len() == 4);
        assert("shift"@.len() == 5);
        assert("f1"@.len() == 2);
        assert("f2"@.len() == 2);
        assert("f3"@.len() == 2);
        assert("f4"@.len() == 2);
        assert("f5"@.len() == 2);
        assert("f6"@.len() == 2);
        assert("f7"@.len() == 2);
        assert("f8"@.len() == 2);
        assert("f9"@.len() == 2);
        assert("f10"@[0] == 'f' && n[0] == 'a');
        assert("f11"@[0] == 'f' && n[0] == 'a');
    }
    if n == "shift"@ {
        assert(n.len() == 5);
        assert("enter"@[0] == 'e' && n[0] == 's');
        assert("space"@[1] == 'p' && n[1] == 'h');
        assert("backspace"@.len() == 9);
        assert("tab"@.len() == 3);
        assert("escape"@.len() == 6);
        assert("esc"@.len() == 3);
        assert("up"@.len() == 2);
        assert("down"@.len() == 4);
        assert("left"@.len() == 4);
        assert("right"@[0] == 'r' && n[0] == 's');
        assert("meta"@.len() == 4);
        assert("win"@.len() == 3);
        assert("super"@[1] == 'u' && n[1] == 'h');
        assert("control"@.len() == 7);
        assert("ctrl"@.len() == 4);
        assert("alt"@.len() == 3);
        assert("f1"@.len() == 2);
        assert("f2"@.len() == 2);
        assert("f3"@.len() == 2);
        assert("f4"@.len() == 2);
        assert("f5"@.len() == 2);
        assert("f6"@.len() == 2);
        assert("f7"@.len() == 2);
        assert("f8"@.len() == 2);
        assert("f9"@.len() == 2);
        assert("f10"@.len() == 3);
        assert("f11"@.len() == 3);
    }
    if n == "f1"@ {
        assert(n.len() == 2);
        assert("enter"@.len() == 5);
        assert("space"@.len() == 5);
        assert("backspace"@.len() == 9);
        assert("tab"@.len() == 3);
        assert("escape"@.len() == 6);
        assert("esc"@.len() == 3);
        assert("up"@[0] == 'u' && n[0] == 'f');
        assert("down"@.len() == 4);
        assert("left"@.len() == 4);
        assert("right"@.len() == 5);
        assert("meta"@.len() == 4);
        assert("win"@.len() == 3);
        assert("super"@.len() == 5);
        assert("control"@.len() == 7);
        assert("ctrl"@.len() == 4);
        assert("alt"@.len() == 3);
        assert("shift"@.len() == 5);
        assert("f2"@[1] == '2' && n[1] == '1');
        assert("f3"@[1] == '3' && n[1] == '1');
        assert("f4"@[1] == '4' && n[1] == '1');
        assert("f5"@[1] == '5' && n[1] == '1');
        assert("f6"@[1] == '6' && n[1] == '1');
        assert("f7"@[1] == '7' && n[1] == '1');
        assert("f8"@[1] == '8' && n[1] == '1');
        assert("f9"@[1] == '9' && n[1] == '1');
        assert("f10"@.len() == 3);
        assert("f11"@.len() == 3);
    }
    if n == "f2"@ {
        assert(n.len() == 2);
        assert("enter"@.len() == 5);
        assert("space"@.len() == 5);
        assert("backspace"@.len() == 9);
        assert("tab"@.len() == 3);
        assert("escape"@.len() == 6);
        assert("esc"@.len() == 3);
        assert("up"@[0] == 'u' && n[0] == 'f');
        assert("down"@.len() == 4);
        assert("left"@.len() == 4);
        assert("right"@.len() == 5);
        assert("meta"@.len() == 4);
        assert("win"@.len() == 3);
        assert("super"@.len() == 5);
        assert("control"@.len() == 7);
        assert("ctrl"@.len() == 4);
        assert("alt"@.len() == 3);
        assert("shift"@.len() == 5);
        assert("f1"@[1] == '1' && n[1] == '2');
        assert("f3"@[1] == '3' && n[1] == '2');
        assert("f4"@[1] == '4' && n[1] == '2');
        assert("f5"@[1] == '5' && n[1] == '2');
        assert("f6"@[1] == '6' && n[1] == '2');
        assert("f7"@[1] == '7' && n[1] == '2');
        assert("f8"@[1] == '8' && n[1] == '2');
        assert("f9"@[1] == '9' && n[1] == '2');
        assert("f10"@.len() == 3);
        assert("f11"@.len() == 3);
    }
    if n == "f3"@ {
        assert(n.len() == 2);
        assert("enter"@.len() == 5);
        assert("space"@.len() == 5);
        assert("backspace"@.len() == 9);
        assert("tab"@.len() == 3);
        assert("escape"@.len() == 6);
        assert("esc"@.len() == 3);
        assert("up"@[0] == 'u' && n[0] == 'f');
        assert("down"@.len() == 4);
        assert("left"@.len() == 4);
        assert("right"@.len() == 5);
        assert("meta"@.len() == 4);
        assert("win"@.len() == 3);
        assert("super"@.len() == 5);
        assert("control"@.len() == 7);
        assert("ctrl"@.len() == 4);
        assert("alt"@.len() == 3);
        assert("shift"@.len() == 5);
        assert("f1"@[1] == '1' && n[1] == '3');
        assert("f2"@[1] == '2' && n[1] == '3');
        assert("f4"@[1] == '4' && n[1] == '3');
        assert("f5"@[1] == '5' && n[1] == '3');
        assert("f6"@[1] == '6' && n[1] == '3');
        assert("f7"@[1] == '7' && n[1] == '3');
        assert("f8"@[1] == '8' && n[1] == '3');
        assert("f9"@[1] == '9' && n[1] == '3');
        assert("f10"@.len() == 3);
        assert("f11"@.len() == 3);
    }
    if n == "f4"@ {
        assert(n.len() == 2);
        assert("enter"@.len() == 5);
        assert("space"@.len() == 5);
        assert("backspace"@.len() == 9);
        assert("tab"@.len() == 3);
        assert("escape"@.len() == 6);
        assert("esc"@.len() == 3);
        assert("up"@[0] == 'u' && n[0] == 'f');
        assert("down"@.len() == 4);
        assert("left"@.len() == 4);
        assert("right"@.len() == 5);
        assert("meta"@.len() == 4);
        assert("win"@.len() == 3);
        assert("super"@.len() == 5);
        assert("control"@.len() == 7);
        assert("ctrl"@.len() == 4);
        assert("alt"@.len() == 3);
        assert("shift"@.len() == 5);
        assert("f1"@[1] == '1' && n[1] == '4');
        assert("f2"@[1] == '2' && n[1] == '4');
        assert("f3"@[1] == '3' && n[1] == '4');
        assert("f5"@[1] == '5' && n[1] == '4');
        assert("f6"@[1] == '6' && n[1] == '4');
        assert("f7"@[1] == '7' && n[1] == '4');
        assert("f8"@[1] == '8' && n[1] == '4');
        assert("f9"@[1] == '9' && n[1] == '4');
        assert("f10"@.len() == 3);
        assert("f11"@.len() == 3);
    }
    if n == "f5"@ {
        assert(n.len() == 2);
        assert("enter"@.len() == 5);
        assert("space"@.len() == 5);
        assert("backspace"@.len() == 9);
        assert("tab"@.len() == 3);
        assert("escape"@.len() == 6);
        assert("esc"@.len() == 3);
        assert("up"@[0] == 'u' && n[0] == 'f');
        assert("down"@.len() == 4);
        assert("left"@.len() == 4);
        assert("right"@.len() == 5);
        assert("meta"@.len() == 4);
        assert("win"@.len() == 3);
        assert("super"@.len() == 5);
        assert("control"@.len() == 7);
        assert("ctrl"@.len() == 4);
        assert("alt"@.len() == 3);
        assert("shift"@.len() == 5);
        assert("f1"@[1] == '1' && n[1] == '5');
        assert("f2"@[1] == '2' && n[1] == '5');
        assert("f3"@[1] == '3' && n[1] == '5');
        assert("f4"@[1] == '4' && n[1] == '5');
        assert("f6"@[1] == '6' && n[1] == '5');
        assert("f7"@[1] == '7' && n[1] == '5');
        assert("f8"@[1] == '8' && n[1] == '5');
        assert("f9"@[1] == '9' && n[1] == '5');
        assert("f10"@.len() == 3);
        assert("f11"@.len() == 3);
    }
    if n == "f6"@ {
        assert(n.len() == 2);
        assert("enter"@.len() == 5);
        assert("space"@.len() == 5);
        assert("backspace"@.len() == 9);
        assert("tab"@.len() == 3);
        assert("escape"@.len() == 6);
        assert("esc"@.len() == 3);
        assert("up"@[0] == 'u' && n[0] == 'f');
        assert("down"@.len() == 4);
        assert("left"@.len() == 4);
        assert("right"@.len() == 5);
        assert("meta"@.len() == 4);
        assert("win"@.len() == 3);
        assert("super"@.len() == 5);
        assert("control"@.len() == 7);
        assert("ctrl"@.len() == 4);
        assert("alt"@.len() == 3);
        assert("shift"@.len() == 5);
        assert("f1"@[1] == '1' && n[1] == '6');
        assert("f2"@[1] == '2' && n[1] == '6');
        assert("f3"@[1] == '3' && n[1] == '6');
        assert("f4"@[1] == '4' && n[1] == '6');
        assert("f5"@[1] == '5' && n[1] == '6');
        assert("f7"@[1] == '7' && n[1] == '6');
        assert("f8"@[1] == '8' && n[1] == '6');
        assert("f9"@[1] == '9' && n[1] == '6');
        assert("f10"@.len() == 3);
        assert("f11"@.len() == 3);
    }
    if n == "f7"@ {
        assert(n.len() == 2);
        assert("enter"@.len() == 5);
        assert("space"@.len() == 5);
        assert("backspace"@.len() == 9);
        assert("tab"@.len() == 3);
        assert("escape"@.len() == 6);
        assert("esc"@.len() == 3);
        assert("up"@[0] == 'u' && n[0] == 'f');
        assert("down"@.len() == 4);
        assert("left"@.len() == 4);
        assert("right"@.len() == 5);
        assert("meta"@.len() == 4);
        assert("win"@.len() == 3);
        assert("super"@.len() == 5);
        assert("control"@.len() == 7);
        assert("ctrl"@.len() == 4);
        assert("alt"@.len() == 3);
        assert("shift"@.len() == 5);
        assert("f1"@[1] == '1' && n[1] == '7');
        assert("f2"@[1] == '2' && n[1] == '7');
        assert("f3"@[1] == '3' && n[1] == '7');
        assert("f4"@[1] == '4' && n[1] == '7');
        assert("f5"@[1] == '5' && n[1] == '7');
        assert("f6"@[1] == '6' && n[1] == '7');
        assert("f8"@[1] == '8' && n[1] == '7');
        assert("f9"@[1] == '9' && n[1] == '7');
        assert("f10"@.len() == 3);
        assert("f11"@.len() == 3);
    }
    if n == "f8"@ {
        assert(n.len() == 2);
        assert("enter"@.len() == 5);
        assert("space"@.len() == 5);
        assert("backspace"@.len() == 9);
        assert("tab"@.len() == 3);
        assert("escape"@.len() == 6);
        assert("esc"@.len() == 3);
        assert("up"@[0] == 'u' && n[0] == 'f');
        assert("down"@.len() == 4);
        assert("left"@.len() == 4);
        assert("right"@.len() == 5);
        assert("meta"@.len() == 4);
        assert("win"@.len() == 3);
        assert("super"@.len() == 5);
        assert("control"@.len() == 7);
        assert("ctrl"@.len() == 4);
        assert("alt"@.len() == 3);
        assert("shift"@.len() == 5);
        assert("f1"@[1] == '1' && n[1] == '8');
        assert("f2"@[1] == '2' && n[1] == '8');
        assert("f3"@[1] == '3' && n[1] == '8');
        assert("f4"@[1] == '4' && n[1] == '8');
        assert("f5"@[1] == '5' && n[1] == '8');
        assert("f6"@[1] == '6' && n[1] == '8');
        assert("f7"@[1] == '7' && n[1] == '8');
        assert("f9"@[1] == '9' && n[1] == '8');
        assert("f10"@.len() == 3);
        assert("f11"@.len() == 3);
    }
    if n == "f9"@ {
        assert(n.len() == 2);
        assert("enter"@.len() == 5);
        assert("space"@.len() == 5);
        assert("backspace"@.len() == 9);
        assert("tab"@.len() == 3);
        assert("escape"@.len() == 6);
        assert("esc"@.len() == 3);
        assert("up"@[0] == 'u' && n[0] == 'f');
        assert("down"@.len() == 4);
        assert("left"@.len() == 4);
        assert("right"@.len() == 5);
        assert("meta"@.len() == 4);
        assert("win"@.len() == 3);
        assert("super"@.len() == 5);
        assert("control"@.len() == 7);
        assert("ctrl"@.len() == 4);
        assert("alt"@.len() == 3);
        assert("shift"@.len() == 5);
        assert("f1"@[1] == '1' && n[1] == '9');
        assert("f2"@[1] == '2' && n[1] == '9');
        assert("f3"@[1] == '3' && n[1] == '9');
        assert("f4"@[1] == '4' && n[1] == '9');
        assert("f5"@[1] == '5' && n[1] == '9');
        assert("f6"@[1] == '6' && n[1] == '9');
        assert("f7"@[1] == '7' && n[1] == '9');
        assert("f8"@[1] == '8' && n[1] == '9');
        assert("f10"@.len() == 3);
        assert("f11"@.len() == 3);
    }
    if n == "f10"@ {
        assert(n.len() == 3);
        assert("enter"@.len() == 5);
        assert("space"@.len() == 5);
        assert("backspace"@.len() == 9);
        assert("tab"@[0] == 't' && n[0] == 'f');
        assert("escape"@.len() == 6);
        assert("esc"@[0] == 'e' && n[0] == 'f');
        assert("up"@.len() == 2);
        assert("down"@.len() == 4);
        assert("left"@.len() == 4);
        assert("right"@.len() == 5);
        assert("meta"@.len() == 4);
        assert("win"@[0] == 'w' && n[0] == 'f');
        assert("super"@.len() == 5);
        assert("control"@.len() == 7);
        assert("ctrl"@.len() == 4);
        assert("alt"@[0] == 'a' && n[0] == 'f');
        assert("shift"@.len() == 5);
        assert("f1"@.len() == 2);
        assert("f2"@.len() == 2);
        assert("f3"@.len() == 2);
        assert("f4"@.len() == 2);
        assert("f5"@.len() == 2);
        assert("f6"@.len() == 2);
        assert("f7"@.len() == 2);
        assert("f8"@.len() == 2);
        assert("f9"@.len() == 2);
        assert("f11"@[2] == '1' && n[2] == '0');
    }
    if n == "f11"@ {
        assert(n.len() == 3);
        assert("enter"@.len() == 5);
        assert("space"@.len() == 5);
        assert("backspace"@.len() == 9);
        assert("tab"@[0] == 't' && n[0] == 'f');
        assert("escape"@.len() == 6);
        assert("esc"@[0] == 'e' && n[0] == 'f');
        assert("up"@.len() == 2);
        assert("down"@.len() == 4);
        assert("left"@.len() == 4);
        assert("right"@.len() == 5);
        assert("meta"@.len() == 4);
        assert("win"@[0] == 'w' && n[0] == 'f');
        assert("super"@.len() == 5);
        assert("control"@.len() == 7);
        assert("ctrl"@.len() == 4);
        assert("alt"@[0] == 'a' && n[0] == 'f');
        assert("shift"@.len() == 5);
        assert("f1"@.len() == 2);
        assert("f2"@.len() == 2);
        assert("f3"@.len() == 2);
        assert("f4"@.len() == 2);
        assert("f5"@.len() == 2);
        assert("f6"@.len() == 2);
        assert("f7"@.len() == 2);
        assert("f8"@.len() == 2);
        assert("f9"@.len() == 2);
        assert("f10"@[2] == '0' && n[2] == '1');
    }
}

/// `right` and `middle` select those buttons; every other name, including an
/// unknown one, is the left button.
pub proof fn lemma_button_names(n: Seq<char>)
    ensures
        (button_for_name(n) == MouseButton::Right) <==> n == "right"@,
        (button_for_name(n) == MouseButton::Middle) <==> n == "middle"@,
        (n != "right"@ && n != "middle"@) ==> button_for_name(n) == MouseButton::Left,
{
    reveal_strlit("right");
    reveal_strlit("middle");
    assert("right"@.len() == 5 && "middle"@.len() == 6);
}

/// Parses a mouse button name.
pub fn parse_mouse_button(name: &str) -> (res: MouseButton)
    ensures
        res == button_for_name(name@),
{
    let n = chars_of(name);
    if eq_str(&n, "right") {
        MouseButton::Right
    } else if eq_str(&n, "middle") {
        MouseButton::Middle
    } else {
        MouseButton::Left
    }
}

// ---------------------------------------------------------------------------
// Shortcuts
// ---------------------------------------------------------------------------

/// Separators between the keys of a shortcut.
pub open spec fn is_shortcut_sep(c: char) -> bool {
    c == '+' || c == '-' || c == ' '
}

/// The pieces of a shortcut between separators (as `str::split`, empty pieces kept).
pub open spec fn shortcut_parts(s: Seq<char>) -> Seq<Seq<char>>
    decreases s.len(),
{
    if s.len() == 0 {
        seq![Seq::<char>::empty()]
    } else {
        let rest = shortcut_parts(s.drop_first());
        if is_shortcut_sep(s[0]) {
            seq![Seq::<char>::empty()] + rest
        } else {
            rest.update(0, seq![s[0]] + rest[0])
        }
    }
}

/// Splitting never yields an empty list of pieces.
pub proof fn lemma_shortcut_parts_nonempty(s: Seq<char>)
    ensures
        shortcut_parts(s).len() >= 1,
    decreases s.len(),
{
    if s.len() > 0 {
        lemma_shortcut_parts_nonempty(s.drop_first());
    }
}

/// The key one shortcut piece stands for: a named key, or a one-byte character.
pub open spec fn part_key(p: Seq<char>) -> Option<Key> {
    match key_for_name(text::lowercase(p)) {
        Some(k) => Some(k),
        None => if p.len() == 1 && (p[0] as u32) < 0x80 {
            Some(Key::Layout(p[0]))
        } else {
            None
        },
    }
}

/// Presses all but the last key, clicks the last, and releases the others in reverse.
pub open spec fn shortcut_events(keys: Seq<Key>) -> Seq<KeyEvent>
    recommends
        keys.len() >= 1,
{
    let n = keys.len() - 1;
    Seq::new(n as nat, |i: int| KeyEvent::Down(keys[i])) + seq![KeyEvent::Click(keys[n])]
        + Seq::new(n as nat, |i: int| KeyEvent::Up(keys[n - 1 - i]))
}

/// Message for a shortcut piece that names no key.
pub open spec fn unknown_part_message(p: Seq<char>) -> Seq<char> {
    "Unknown key part in shortcut: "@ + p
}

/// All pieces up to `k` name keys.
pub open spec fn parts_parse_upto(parts: Seq<Seq<char>>, k: int) -> bool {
    forall|i: int| 0 <= i < k ==> part_key(#[trigger] parts[i]) is Some
}

/// What `press_shortcut` does with a shortcut: the key events, or the error message.
pub open spec fn shortcut_plan(s: Seq<char>) -> Result<Seq<KeyEvent>, Seq<char>> {
    let parts = shortcut_parts(s);
    if parts_parse_upto(parts, parts.len() as int) {
        Ok(shortcut_events(parts.map_values(|p: Seq<char>| part_key(p)->0)))
    } else {
        let k = choose|k: int|
            0 <= k < parts.len() && part_key(parts[k]) is None && parts_parse_upto(parts, k);
        Err(unknown_part_message(parts[k]))
    }
}

fn split_shortcut(s: &Vec<char>) -> (res: Vec<Vec<char>>)
    ensures
        res@.map_values(|p: Vec<char>| p@) == shortcut_parts(s@),
{
    let mut parts: Vec<Vec<char>> = Vec::new();
    parts.push(Vec::new());
    let mut i: usize = s.len();
    proof {
        assert(s@.skip(s.len() as int) =~= Seq::<char>::empty());
        assert(parts@.map_values(|p: Vec<char>| p@) =~= seq![Seq::<char>::empty()]);
    }
    while i > 0
        invariant
            i <= s.len(),
            parts@.len() >= 1,
            parts@.map_values(|p: Vec<char>| p@) == shortcut_parts(s@.skip(i as int)),
        decreases i,
    {
        let c = s[i - 1];
        let ghost old_parts = parts@.map_values(|p: Vec<char>| p@);
        proof {
            assert(s@.skip(i - 1).drop_first() =~= s@.skip(i as int));
            assert(s@.skip(i - 1)[0] == c);
        }
        if c == '+' || c == '-' || c == ' ' {
            parts.insert(0, Vec::new());
            proof {
                assert(parts@.map_values(|p: Vec<char>| p@) =~= seq![Seq::<char>::empty()]
                    + old_parts);
            }
        } else {
            let mut single: Vec<char> = Vec::new();
            single.push(c);
            let merged = concat(&single, &parts[0]);
            parts.set(0, merged);
            proof {
                assert(single@ =~= seq![c]);
                assert forall|k: int| 0 <= k < parts@.len() implies parts@.map_values(
                    |p: Vec<char>| p@,
                )[k] == old_parts.update(0, seq![c] + old_parts[0])[k] by {}
                assert(parts@.map_values(|p: Vec<char>| p@) =~= old_parts.update(
                    0,
                    seq![c] + old_parts[0],
                ));
            }
        }
        i = i - 1;
    }
    proof {
        assert(s@.skip(0) =~= s@);
    }
    parts
}

fn part_to_key(p: &Vec<char>) -> (res: Option<Key>)
    ensures
        res == part_key(p@),
{
    match parse_key_chars(p) {
        Some(k) => Some(k),
        None => {
            if p.len() == 1 && (p[0] as u32) < 0x80 {
                Some(Key::Layout(p[0]))
            } else {
                None
            }
        },
    }
}

/// Plans a key combination such as `ctrl+shift+t`: every named part is held down
/// in order, the last part is clicked, and the held parts are released in reverse.
pub fn plan_shortcut(shortcut: &str) -> (res: Result<Vec<KeyEvent>, String>)
    ensures
        match res {
            Ok(evs) => shortcut_plan(shortcut@) == Ok::<Seq<KeyEvent>, Seq<char>>(evs@),
            Err(e) => shortcut_plan(shortcut@) == Err::<Seq<KeyEvent>, Seq<char>>(e@),
        },
{
    let s = chars_of(shortcut);
    let parts = split_shortcut(&s);
    let ghost sparts = shortcut_parts(shortcut@);
    proof {
        lemma_shortcut_parts_nonempty(shortcut@);
        assert(sparts.len() == parts@.len());
        assert forall|i: int| 0 <= i < parts@.len() implies parts@[i]@ == sparts[i] by {
            assert(parts@.map_values(|p: Vec<char>| p@)[i] == parts@[i]@);
        }
    }
    let mut keys: Vec<Key> = Vec::new();
    let mut i: usize = 0;
    while i < parts.len()
        invariant
            i <= parts.len(),
            sparts == shortcut_parts(shortcut@),
            sparts.len() == parts@.len(),
            forall|j: int| 0 <= j < parts@.len() ==> parts@[j]@ == sparts[j],
            keys@.len() == i,
            parts_parse_upto(sparts, i as int),
            forall|j: int| 0 <= j < i ==> keys@[j] == part_key(sparts[j])->0,
        decreases parts.len() - i,
    {
        match part_to_key(&parts[i]) {
            Some(k) => {
                keys.push(k);
            },
            None => {
                let mut msg = chars_of("Unknown key part in shortcut: ");
                let full = concat(&msg, &parts[i]);
                proof {
                    let k = choose|k: int|
                        0 <= k < sparts.len() && part_key(sparts[k]) is None && parts_parse_upto(
                            sparts,
                            k,
                        );
                    assert(0 <= i < sparts.len() && part_key(sparts[i as int]) is None
                        && parts_parse_upto(sparts, i as int));
                    if k < i {
                        assert(part_key(sparts[k]) is Some);
                    } else if k > i {
                        assert(part_key(sparts[i as int]) is Some);
                    }
                }
                return Err(string_of(&full));
            },
        }
        i = i + 1;
    }
    let n = keys.len();
    let mut evs: Vec<KeyEvent> = Vec::new();
    let mut j: usize = 0;
    while j + 1 < n
        invariant
            n == keys@.len(),
            n >= 1,
            j + 1 <= n,
            evs@ =~= Seq::new(j as nat, |t: int| KeyEvent::Down(keys@[t])),
        decreases n - j,
    {
        evs.push(KeyEvent::Down(keys[j]));
        j = j + 1;
    }
    evs.push(KeyEvent::Click(keys[n - 1]));
    let mut r: usize = n - 1;
    let ghost base = evs@;
    while r > 0
        invariant
            r <= n - 1,
            n == keys@.len(),
            evs@ =~= base + Seq::new((n - 1 - r) as nat, |t: int| KeyEvent::Up(keys@[n - 2 - t])),
        decreases r,
    {
        evs.push(KeyEvent::Up(keys[r - 1]));
        r = r - 1;
    }
    proof {
        let ks = sparts.map_values(|p: Seq<char>| part_key(p)->0);
        assert(ks =~= keys@);
        assert(evs@ =~= shortcut_events(ks));
    }
    Ok(evs)
}

/// Every key a planned shortcut holds down is released, in reverse order, after
/// the single click.
pub proof fn lemma_shortcut_releases_every_key(keys: Seq<Key>)
    requires
        keys.len() >= 1,
    ensures
        shortcut_events(keys).len() == 2 * keys.len() - 1,
        shortcut_events(keys)[keys.len() - 1] == KeyEvent::Click(keys[keys.len() - 1]),
        forall|i: int|
            0 <= i < keys.len() - 1 ==> shortcut_events(keys)[i] == KeyEvent::Down(keys[i])
                && shortcut_events(keys)[2 * keys.len() - 2 - i] == KeyEvent::Up(keys[i]),
{
    let n = keys.len() - 1;
    let evs = shortcut_events(keys);
    assert forall|i: int| 0 <= i < n implies evs[i] == KeyEvent::Down(keys[i]) && evs[2 * n
        - i] == KeyEvent::Up(keys[i]) by {
        assert(evs[2 * n - i] == Seq::new(n as nat, |t: int| KeyEvent::Up(keys[n - 1 - t]))[n
            - 1 - i]);
    }
}

// ---------------------------------------------------------------------------
// Scrolling
// ---------------------------------------------------------------------------

/// The wheel a scroll turns.
#[derive(Clone, Copy, Debug, PartialEq, Eq, Structural)]
pub enum ScrollAxis {
    Vertical,
    Horizontal,
}

/// The wheel and signed amount for a scroll direction; unknown directions do nothing.
pub open spec fn scroll_for(clicks: i32, direction: Seq<char>) -> Option<(ScrollAxis, int)> {
    if direction == "up"@ {
        Some((ScrollAxis::Vertical, clicks as int))
    } else if direction == "down"@ {
        Some((ScrollAxis::Vertical, -clicks))
    } else if direction == "left"@ {
        Some((ScrollAxis::Horizontal, clicks as int))
    } else if direction == "right"@ {
        Some((ScrollAxis::Horizontal, -clicks))
    } else {
        None
    }
}

/// Scrolling turns the vertical wheel for `up` and `down` and the
/// horizontal one for `left` and `right`, by the number of clicks: `up` and
/// `left` by that number, `down` and `right` by its negation, so opposite
/// directions undo each other; any other direction does nothing.
pub proof fn lemma_scroll_directions(clicks: i32, direction: Seq<char>)
    ensures
        scroll_for(clicks, "up"@) == Some((ScrollAxis::Vertical, clicks as int)),
        scroll_for(clicks, "down"@) == Some((ScrollAxis::Vertical, -(clicks as int))),
        scroll_for(clicks, "left"@) == Some((ScrollAxis::Horizontal, clicks as int)),
        scroll_for(clicks, "right"@) == Some((ScrollAxis::Horizontal, -(clicks as int))),
        (scroll_for(clicks, "up"@)->0).1 + (scroll_for(clicks, "down"@)->0).1 == 0,
        (scroll_for(clicks, "left"@)->0).1 + (scroll_for(clicks, "right"@)->0).1 == 0,
        (direction != "up"@ && direction != "down"@ && direction != "left"@ && direction
            != "right"@) ==> scroll_for(clicks, direction) is None,
{
    reveal_strlit("up");
    reveal_strlit("down");
    reveal_strlit("left");
    reveal_strlit("right");
    assert("up"@.len() == 2 && "down"@.len() == 4 && "left"@.len() == 4 && "right"@.len() == 5);
    assert("down"@[0] == 'd' && "left"@[0] == 'l');
}

/// Plans a scroll of `clicks` notches in `direction`.
pub fn plan_scroll(clicks: i32, direction: &str) -> (res: Option<(ScrollAxis, i32)>)
    requires
        direction@ == "down"@ || direction@ == "right"@ ==> clicks > i32::MIN,
    ensures
        match res {
            Some((axis, amount)) => scroll_for(clicks, direction@) == Some((axis, amount as int)),
            None => scroll_for(clicks, direction@) is None,
        },
{
    let d = chars_of(direction);
    if eq_str(&d, "up") {
        Some((ScrollAxis::Vertical, clicks))
    } else if eq_str(&d, "down") {
        Some((ScrollAxis::Vertical, -clicks))
    } else if eq_str(&d, "left") {
        Some((ScrollAxis::Horizontal, clicks))
    } else if eq_str(&d, "right") {
        Some((ScrollAxis::Horizontal, -clicks))
    } else {
        None
    }
}

// ---------------------------------------------------------------------------
// OS unlock sequence
// ---------------------------------------------------------------------------

/// One step of the unlock sequence.
#[derive(Clone, Copy, Debug, PartialEq, Eq, Structural)]
pub enum UnlockStep {
    Click(Key),
    SleepMillis(u64),
}

/// Clicking the key that types `c`.
pub open spec fn layout_click(c: char) -> UnlockStep {
    UnlockStep::Click(Key::Layout(c))
}

/// The typing part of the unlock sequence for the first `n` password
/// characters: each character is clicked and followed by a short pause.
pub open spec fn typed_steps(password: Seq<char>, n: nat) -> Seq<UnlockStep> {
    Seq::new(
        2 * n,
        |k: int|
            if k % 2 == 0 {
                layout_click(password[k / 2])
            } else {
                UnlockStep::SleepMillis(25)
            },
    )
}

proof fn lemma_typed_steps_step(p: Seq<char>, i: nat)
    ensures
        typed_steps(p, i + 1) =~= typed_steps(p, i).push(layout_click(p[i as int])).push(
            UnlockStep::SleepMillis(25),
        ),
{
    let a = typed_steps(p, i + 1);
    let b = typed_steps(p, i).push(layout_click(p[i as int])).push(
        UnlockStep::SleepMillis(25),
    );
    assert(a.len() == b.len());
    assert forall|k: int| 0 <= k < a.len() implies a[k] == b[k] by {
        if k == 2 * i {
            assert(k % 2 == 0 && k / 2 == i);
        } else if k == 2 * i + 1 {
            assert(k % 2 == 1);
        }
    }
}

/// Wake the display, clear stray input, type the password one character at a
/// time with short pauses, then press Return.
pub open spec fn unlock_steps(password: Seq<char>) -> Seq<UnlockStep> {
    seq![
        UnlockStep::Click(Key::Space),
        UnlockStep::SleepMillis(800),
        UnlockStep::Click(Key::Backspace),
        UnlockStep::Click(Key::Backspace),
        UnlockStep::SleepMillis(150),
    ] + typed_steps(password, password.len()) + seq![
        UnlockStep::SleepMillis(150),
        UnlockStep::Click(Key::Return),
    ]
}

/// The unlock sequence wakes the screen with Space, clears two characters,
/// types every password character in order (each followed by a 25 ms
/// pause) and ends with Return: seven steps besides two per character.
pub proof fn lemma_unlock_types_the_password(password: Seq<char>)
    ensures
        unlock_steps(password).len() == 7 + 2 * password.len(),
        unlock_steps(password)[0] == UnlockStep::Click(Key::Space),
        unlock_steps(password)[2] == UnlockStep::Click(Key::Backspace),
        unlock_steps(password)[3] == UnlockStep::Click(Key::Backspace),
        forall|i: int|
            0 <= i < password.len() ==> unlock_steps(password)[5 + 2 * i] == UnlockStep::Click(
                Key::Layout(password[i]),
            ) && unlock_steps(password)[6 + 2 * i] == UnlockStep::SleepMillis(25),
        unlock_steps(password)[6 + 2 * password.len() as int] == UnlockStep::Click(Key::Return),
{
    let t = typed_steps(password, password.len());
    assert forall|i: int| 0 <= i < password.len() implies unlock_steps(password)[5 + 2 * i]
        == UnlockStep::Click(Key::Layout(password[i])) && unlock_steps(password)[6 + 2 * i]
        == UnlockStep::SleepMillis(25) by {
        assert(unlock_steps(password)[5 + 2 * i] == t[2 * i]);
        assert(unlock_steps(password)[6 + 2 * i] == t[2 * i + 1]);
        assert((2 * i) % 2 == 0 && (2 * i) / 2 == i);
        assert((2 * i + 1) % 2 == 1);
    }
}

/// Plans the key sequence that types `password` into a lock screen.
pub fn plan_unlock(password: &str) -> (res: Vec<UnlockStep>)
    ensures
        res@ == unlock_steps(password@),
{
    let p = chars_of(password);
    let mut steps: Vec<UnlockStep> = Vec::new();
    steps.push(UnlockStep::Click(Key::Space));
    steps.push(UnlockStep::SleepMillis(800));
    steps.push(UnlockStep::Click(Key::Backspace));
    steps.push(UnlockStep::Click(Key::Backspace));
    steps.push(UnlockStep::SleepMillis(150));
    let ghost head = steps@;
    proof {
        assert(steps@ =~= head + typed_steps(p@, 0));
    }
    let mut i: usize = 0;
    while i < p.len()
        invariant
            i <= p.len(),
            steps@ =~= head + typed_steps(p@, i as nat),
        decreases p.len() - i,
    {
        steps.push(UnlockStep::Click(Key::Layout(p[i])));
        steps.push(UnlockStep::SleepMillis(25));
        proof {
            lemma_typed_steps_step(p@, i as nat);
        }
        i = i + 1;
    }
    steps.push(UnlockStep::SleepMillis(150));
    steps.push(UnlockStep::Click(Key::Return));
    proof {
        assert(p@.take(p.len() as int) =~= p@);
        assert(steps@ =~= unlock_steps(password@));
    }
    steps
}

// ---------------------------------------------------------------------------
// Volume, brightness and power
// ---------------------------------------------------------------------------

/// The media key for a volume action; other actions do nothing.
pub open spec fn volume_key_for(action: Seq<char>) -> Option<Key> {
    if action == "up"@ {
        Some(Key::VolumeUp)
    } else if action == "down"@ {
        Some(Key::VolumeDown)
    } else if action == "mute"@ {
        Some(Key::Raw(0xAD))
    } else {
        None
    }
}

/// Volume `up` and `down` press the volume keys and `mute` presses the mute
/// key (virtual key 0xAD); nothing else is a volume action.
pub proof fn lemma_volume_keys(action: Seq<char>)
    ensures
        (volume_key_for(action) == Some(Key::VolumeUp)) <==> action == "up"@,
        (volume_key_for(action) == Some(Key::VolumeDown)) <==> action == "down"@,
        (volume_key_for(action) == Some(Key::Raw(0xADu16))) <==> action == "mute"@,
        (action != "up"@ && action != "down"@ && action != "mute"@) ==> volume_key_for(action) is None,
{
    reveal_strlit("up");
    reveal_strlit("down");
    reveal_strlit("mute");
    assert("up"@.len() == 2 && "down"@.len() == 4 && "mute"@.len() == 4);
    assert("down"@[0] == 'd' && "mute"@[0] == 'm');
}

/// The brightness applied is the level asked for, except that anything above
/// 100 is applied as 100.
pub proof fn lemma_brightness_capped(level: u8)
    ensures
        capped_level(level) <= 100,
        level <= 100 ==> capped_level(level) == level,
        level > 100 ==> capped_level(level) == 100,
{
}

/// The key that performs a volume action.
pub fn volume_key(action: &str) -> (res: Option<Key>)
    ensures
        res == volume_key_for(action@),
{
    let a = chars_of(action);
    if eq_str(&a, "up") {
        Some(Key::VolumeUp)
    } else if eq_str(&a, "down") {
        Some(Key::VolumeDown)
    } else if eq_str(&a, "mute") {
        Some(Key::Raw(0xAD))
    } else {
        None
    }
}

/// The brightness level actually applied: at most 100.
pub open spec fn capped_level(level: u8) -> u8 {
    if level < 100 { level } else { 100 }
}

/// The PowerShell command that sets the display brightness.
pub open spec fn brightness_script_for(level: u8) -> Seq<char> {
    "(Get-WmiObject -Namespace root/WMI -Class WmiMonitorBrightnessMethods).WmiSetBrightness(0, "@
        + text::nat_decimal(capped_level(level) as nat) + ")"@
}

/// Builds the brightness command for a level, capped at 100.
pub fn brightness_script(level: u8) -> (res: String)
    ensures
        res@ == brightness_script_for(level),
{
    let capped: u8 = if level < 100 { level } else { 100 };
    let head = chars_of(
        "(Get-WmiObject -Namespace root/WMI -Class WmiMonitorBrightnessMethods).WmiSetBrightness(0, ",
    );
    let digits = u64_decimal(capped as u64);
    let with_digits = concat(&head, &digits);
    let full = concat_str(&with_digits, ")");
    string_of(&full)
}

/// A recognised power action.
#[derive(Clone, Copy, Debug, PartialEq, Eq, Structural)]
pub enum PowerAction {
    Lock,
    Sleep,
    Shutdown,
    Restart,
}

/// The power action a name selects.
pub open spec fn power_action_for(action: Seq<char>) -> Option<PowerAction> {
    if action == "lock"@ {
        Some(PowerAction::Lock)
    } else if action == "sleep"@ {
        Some(PowerAction::Sleep)
    } else if action == "shutdown"@ {
        Some(PowerAction::Shutdown)
    } else if action == "restart"@ {
        Some(PowerAction::Restart)
    } else {
        None
    }
}

/// Parses a power action, failing with `Unknown power action` otherwise.
pub fn parse_power_action(action: &str) -> (res: Result<PowerAction, String>)
    ensures
        match res {
            Ok(p) => power_action_for(action@) == Some(p),
            Err(e) => power_action_for(action@) is None && e@ == "Unknown power action"@,
        },
{
    let a = chars_of(action);
    if eq_str(&a, "lock") {
        Ok(PowerAction::Lock)
    } else if eq_str(&a, "sleep") {
        Ok(PowerAction::Sleep)
    } else if eq_str(&a, "shutdown") {
        Ok(PowerAction::Shutdown)
    } else if eq_str(&a, "restart") {
        Ok(PowerAction::Restart)
    } else {
        Err("Unknown power action".to_string())
    }
}

/// The program and arguments that carry out a power action; shutdown and
/// restart give the user ten seconds of warning.
pub open spec fn power_command_for(p: PowerAction) -> (Seq<char>, Seq<Seq<char>>) {
    match p {
        PowerAction::Lock => ("rundll32.exe"@, seq!["user32.dll,LockWorkStation"@]),
        PowerAction::Sleep => ("rundll32.exe"@, seq!["powrprof.dll,SetSuspendState"@, "0,1,0"@]),
        PowerAction::Shutdown => ("shutdown"@, seq!["/s"@, "/t"@, "10"@]),
        PowerAction::Restart => ("shutdown"@, seq!["/r"@, "/t"@, "10"@]),
    }
}

/// What each power action runs: restart and shutdown both call `shutdown`
/// with a ten-second warning (`/t 10`), restart with `/r` and shutdown with
/// `/s`; lock and sleep call `rundll32.exe` (`LockWorkStation`,
/// `SetSuspendState`).  Different actions run different commands, and the
/// name that selects an action is exactly its lowercase name.
pub proof fn lemma_power_commands(p: PowerAction, q: PowerAction, name: Seq<char>)
    ensures
        power_command_for(p).1.contains("/r"@) <==> p == PowerAction::Restart,
        power_command_for(p).1.contains("/s"@) <==> p == PowerAction::Shutdown,
        (p == PowerAction::Restart || p == PowerAction::Shutdown) ==> power_command_for(p).0
            == "shutdown"@ && power_command_for(p).1.len() == 3 && power_command_for(p).1[1]
            == "/t"@ && power_command_for(p).1[2] == "10"@,
        p == PowerAction::Lock ==> power_command_for(p) == ("rundll32.exe"@, seq![
            "user32.dll,LockWorkStation"@,
        ]),
        p == PowerAction::Sleep ==> power_command_for(p).0 == "rundll32.exe"@ && power_command_for(
            p,
        ).1[0] == "powrprof.dll,SetSuspendState"@,
        p != q ==> power_command_for(p) != power_command_for(q),
        power_action_for(name) == Some(PowerAction::Lock) <==> name == "lock"@,
        power_action_for(name) == Some(PowerAction::Sleep) <==> name == "sleep"@,
        power_action_for(name) == Some(PowerAction::Shutdown) <==> name == "shutdown"@,
        power_action_for(name) == Some(PowerAction::Restart) <==> name == "restart"@,
{
    reveal_strlit("/r");
    reveal_strlit("/s");
    reveal_strlit("/t");
    reveal_strlit("10");
    reveal_strlit("lock");
    reveal_strlit("sleep");
    reveal_strlit("shutdown");
    reveal_strlit("restart");
    reveal_strlit("rundll32.exe");
    reveal_strlit("user32.dll,LockWorkStation");
    reveal_strlit("powrprof.dll,SetSuspendState");
    reveal_strlit("0,1,0");
    assert("/r"@[1] == 'r' && "/s"@[1] == 's' && "/t"@[1] == 't' && "/r"@.len() == 2);
    assert("10"@.len() == 2 && "10"@[0] == '1');
    assert("user32.dll,LockWorkStation"@.len() == 26 && "powrprof.dll,SetSuspendState"@.len() == 28);
    assert("0,1,0"@.len() == 5);
    assert("lock"@.len() == 4 && "sleep"@.len() == 5 && "shutdown"@.len() == 8 && "restart"@.len() == 7);
    assert("rundll32.exe"@.len() == 12 && "shutdown"@.len() == 8);
    let pr = power_command_for(p).1;
    if pr.contains("/r"@) {
        let i = choose|i: int| 0 <= i < pr.len() && pr[i] == "/r"@;
        assert(pr[i][1] == 'r');
    }
    if pr.contains("/s"@) {
        let i = choose|i: int| 0 <= i < pr.len() && pr[i] == "/s"@;
        assert(pr[i][1] == 's');
    }
    if p == PowerAction::Restart {
        assert(pr[0] == "/r"@);
    }
    if p == PowerAction::Shutdown {
        assert(pr[0] == "/s"@);
    }
}

/// The character views of a list of strings.
pub open spec fn string_views(v: Seq<String>) -> Seq<Seq<char>> {
    v.map_values(|s: String| s@)
}

/// Builds the command line for a power action.
pub fn power_command(p: PowerAction) -> (res: (String, Vec<String>))
    ensures
        (res.0@, string_views(res.1@)) == power_command_for(p),
{
    let mut args: Vec<String> = Vec::new();
    let prog = match p {
        PowerAction::Lock => {
            args.push("user32.dll,LockWorkStation".to_string());
            "rundll32.exe".to_string()
        },
        PowerAction::Sleep => {
            args.push("powrprof.dll,SetSuspendState".to_string());
            args.push("0,1,0".to_string());
            "rundll32.exe".to_string()
        },
        PowerAction::Shutdown => {
            args.push("/s".to_string());
            args.push("/t".to_string());
            args.push("10".to_string());
            "shutdown".to_string()
        },
        PowerAction::Restart => {
            args.push("/r".to_string());
            args.push("/t".to_string());
            args.push("10".to_string());
            "shutdown".to_string()
        },
    };
    proof {
        assert(string_views(args@) =~= power_command_for(p).1);
    }
    (prog, args)
}

// ---------------------------------------------------------------------------
// URL and application launch targets
// ---------------------------------------------------------------------------

/// The URL that is opened for an address: trimmed, with `https://` added when
/// it names no scheme.
pub open spec fn url_target_for(url: Seq<char>) -> Seq<char> {
    let t = text::trim_seq(url);
    if text::starts_with_seq(t, "http://"@) || text::starts_with_seq(t, "https://"@) {
        t
    } else {
        "https://"@ + t
    }
}

fn url_target_chars(url: &Vec<char>) -> (res: Vec<char>)
    ensures
        res@ == url_target_for(url@),
{
    let t = trim(url);
    if starts_with_str(&t, "http://") || starts_with_str(&t, "https://") {
        t
    } else {
        let p = chars_of("https://");
        concat(&p, &t)
    }
}

/// Normalises an address before it is opened in the browser.
pub fn url_target(url: &str) -> (res: String)
    ensures
        res@ == url_target_for(url@),
{
    let u = chars_of(url);
    let r = url_target_chars(&u);
    string_of(&r)
}

/// How an application request is carried out.
#[derive(Clone, Debug, PartialEq, Eq)]
pub enum LaunchPlan {
    /// Open this URL in the default browser.
    OpenUrl(String),
    /// Start this program through the shell.
    Start(String),
    /// Look for a Start Menu shortcut whose name holds `query`; start it if one
    /// is found, else start `fallback`.
    SearchThenStart { query: String, fallback: String },
}

/// The abstract value of a [`LaunchPlan`].
pub enum LaunchPlanView {
    OpenUrl(Seq<char>),
    Start(Seq<char>),
    SearchThenStart(Seq<char>, Seq<char>),
}

impl View for LaunchPlan {
    type V = LaunchPlanView;

    open spec fn view(&self) -> LaunchPlanView {
        match self {
            LaunchPlan::OpenUrl(u) => LaunchPlanView::OpenUrl(u@),
            LaunchPlan::Start(p) => LaunchPlanView::Start(p@),
            LaunchPlan::SearchThenStart { query, fallback } => LaunchPlanView::SearchThenStart(
                query@,
                fallback@,
            ),
        }
    }
}

/// The name looks like a web address: it has a dot and is not an executable,
/// script or shortcut.
pub open spec fn looks_like_domain(name: Seq<char>) -> bool {
    text::contains_seq(name, "."@) && !text::ends_with_seq(name, ".exe"@) && !text::ends_with_seq(name, ".bat"@)
        && !text::ends_with_seq(name, ".cmd"@) && !text::ends_with_seq(name, ".lnk"@)
}

/// The program a well-known application name resolves to.
pub open spec fn known_program(n: Seq<char>) -> Option<Seq<char>> {
    if n == "chrome"@ || n == "google chrome"@ || n == "browser"@ {
        Some("chrome"@)
    } else if n == "edge"@ || n == "microsoft edge"@ {
        Some("msedge"@)
    } else if n == "notepad"@ || n == "text editor"@ {
        Some("notepad"@)
    } else if n == "calculator"@ || n == "calc"@ {
        Some("calc"@)
    } else if n == "paint"@ || n == "mspaint"@ {
        Some("mspaint"@)
    } else if n == "word"@ || n == "ms word"@ || n == "microsoft word"@ {
        Some("winword"@)
    } else if n == "excel"@ || n == "ms excel"@ || n == "microsoft excel"@ {
        Some("excel"@)
    } else if n == "explorer"@ || n == "file explorer"@ || n == "files"@ {
        Some("explorer"@)
    } else if n == "cmd"@ || n == "command prompt"@ {
        Some("cmd"@)
    } else if n == "powershell"@ {
        Some("powershell"@)
    } else {
        None
    }
}

/// How `launch_app` treats a request: URLs and domain-like names open in the
/// browser, a few well-known sites have fixed addresses, well-known programs
/// have fixed names, and anything else is searched for in the Start Menu.
pub open spec fn launch_plan_for(app_path: Seq<char>) -> LaunchPlanView {
    let name = text::lowercase(text::trim_seq(app_path));
    if text::starts_with_seq(app_path, "http://"@) || text::starts_with_seq(app_path, "https://"@) {
        LaunchPlanView::OpenUrl(url_target_for(app_path))
    } else if looks_like_domain(name) {
        LaunchPlanView::OpenUrl(url_target_for("https://"@ + app_path))
    } else if name == "youtube"@ || text::contains_seq(name, "youtube"@) {
        LaunchPlanView::OpenUrl(url_target_for("https://www.youtube.com"@))
    } else if name == "google"@ || text::contains_seq(name, "google.com"@) {
        LaunchPlanView::OpenUrl(url_target_for("https://www.google.com"@))
    } else if name == "gmail"@ {
        LaunchPlanView::OpenUrl(url_target_for("https://mail.google.com"@))
    } else if name == "github"@ {
        LaunchPlanView::OpenUrl(url_target_for("https://github.com"@))
    } else {
        match known_program(name) {
            Some(p) => LaunchPlanView::Start(p),
            None => LaunchPlanView::SearchThenStart(name, app_path),
        }
    }
}

fn known_program_exec(n: &Vec<char>) -> (res: Option<&'static str>)
    ensures
        match res {
            Some(p) => known_program(n@) == Some(p@),
            None => known_program(n@) is None,
        },
{
    if eq_str(n, "chrome") || eq_str(n, "google chrome") || eq_str(n, "browser") {
        Some("chrome")
    } else if eq_str(n, "edge") || eq_str(n, "microsoft edge") {
        Some("msedge")
    } else if eq_str(n, "notepad") || eq_str(n, "text editor") {
        Some("notepad")
    } else if eq_str(n, "calculator") || eq_str(n, "calc") {
        Some("calc")
    } else if eq_str(n, "paint") || eq_str(n, "mspaint") {
        Some("mspaint")
    } else if eq_str(n, "word") || eq_str(n, "ms word") || eq_str(n, "microsoft word") {
        Some("winword")
    } else if eq_str(n, "excel") || eq_str(n, "ms excel") || eq_str(n, "microsoft excel") {
        Some("excel")
    } else if eq_str(n, "explorer") || eq_str(n, "file explorer") || eq_str(n, "files") {
        Some("explorer")
    } else if eq_str(n, "cmd") || eq_str(n, "command prompt") {
        Some("cmd")
    } else if eq_str(n, "powershell") {
        Some("powershell")
    } else {
        None
    }
}

fn open_fixed_url(url: &str) -> (res: LaunchPlan)
    ensures
        res@ == LaunchPlanView::OpenUrl(url_target_for(url@)),
{
    LaunchPlan::OpenUrl(url_target(url))
}

/// Every address opened in the browser has an `http://` or `https://`
/// scheme, whatever was asked for.
pub proof fn lemma_opened_urls_have_scheme(app_path: Seq<char>)
    ensures
        launch_plan_for(app_path) matches LaunchPlanView::OpenUrl(u) ==> (text::starts_with_seq(
            u,
            "http://"@,
        ) || text::starts_with_seq(u, "https://"@)),
{
    assert forall|x: Seq<char>| #[trigger] url_target_for(x) == url_target_for(x) implies (
    text::starts_with_seq(url_target_for(x), "http://"@) || text::starts_with_seq(
        url_target_for(x),
        "https://"@,
    )) by {
        let t = text::trim_seq(x);
        if !(text::starts_with_seq(t, "http://"@) || text::starts_with_seq(t, "https://"@)) {
            assert(("https://"@ + t).take(("https://"@).len() as int) =~= "https://"@);
        }
    }
}

proof fn lemma_absent_char_not_contained(hay: Seq<char>, needle: Seq<char>, k: int)
    requires
        0 <= k < needle.len(),
        forall|i: int| 0 <= i < hay.len() ==> hay[i] != needle[k],
    ensures
        !text::contains_seq(hay, needle),
{
    if text::contains_seq(hay, needle) {
        let i = choose|i: int| text::occurs_at(hay, needle, i);
        assert(hay.subrange(i, i + needle.len())[k] == needle[k]);
        assert(hay[i + k] == needle[k]);
    }
}

proof fn lemma_plain_name_uses_table(app_path: Seq<char>)
    requires
        !text::starts_with_seq(app_path, "http://"@),
        !text::starts_with_seq(app_path, "https://"@),
        forall|i: int|
            0 <= i < text::lowercase(text::trim_seq(app_path)).len() ==> text::lowercase(
                text::trim_seq(app_path),
            )[i] != '.' && text::lowercase(text::trim_seq(app_path))[i] != 'y',
        text::lowercase(text::trim_seq(app_path)).len() > 0,
        text::lowercase(text::trim_seq(app_path))[0] != 'g' || (text::lowercase(
            text::trim_seq(app_path),
        ).len() != 5 && text::lowercase(text::trim_seq(app_path)).len() != 6),
    ensures
        launch_plan_for(app_path) == match known_program(text::lowercase(text::trim_seq(app_path))) {
            Some(p) => LaunchPlanView::Start(p),
            None => LaunchPlanView::SearchThenStart(text::lowercase(text::trim_seq(app_path)), app_path),
        },
{
    let n = text::lowercase(text::trim_seq(app_path));
    reveal_strlit(".");
    reveal_strlit("youtube");
    reveal_strlit("google.com");
    reveal_strlit("google");
    reveal_strlit("gmail");
    reveal_strlit("github");
    lemma_absent_char_not_contained(n, "."@, 0);
    lemma_absent_char_not_contained(n, "youtube"@, 0);
    lemma_absent_char_not_contained(n, "google.com"@, 6);
    assert("youtube"@.len() == 7 && "google"@.len() == 6 && "gmail"@.len() == 5 && "github"@.len() == 6);
    assert("google"@[0] == 'g' && "github"@[0] == 'g');
    assert(n != "youtube"@);
    assert(n != "google"@);
    assert(n != "gmail"@);
    assert(n != "github"@);
}

/// Each well-known application name, trimmed and in any case, starts its own
/// program: `chrome`, `google chrome` and `browser` start Chrome, `edge` and
/// `microsoft edge` start Edge, and so on through Notepad, the calculator,
/// Paint, Word, Excel, the file explorer, the command prompt and PowerShell.
/// (A request that begins with `http://` or `https://` is an address.)
pub proof fn lemma_well_known_apps_start_their_program(app_path: Seq<char>)
    requires
        !text::starts_with_seq(app_path, "http://"@),
        !text::starts_with_seq(app_path, "https://"@),
    ensures
        ({
            let n = text::lowercase(text::trim_seq(app_path));
            &&& (n == "chrome"@ || n == "google chrome"@ || n == "browser"@) ==> launch_plan_for(app_path) == LaunchPlanView::Start("chrome"@)
            &&& (n == "edge"@ || n == "microsoft edge"@) ==> launch_plan_for(app_path) == LaunchPlanView::Start("msedge"@)
            &&& (n == "notepad"@ || n == "text editor"@) ==> launch_plan_for(app_path) == LaunchPlanView::Start("notepad"@)
            &&& (n == "calculator"@ || n == "calc"@) ==> launch_plan_for(app_path) == LaunchPlanView::Start("calc"@)
            &&& (n == "paint"@ || n == "mspaint"@) ==> launch_plan_for(app_path) == LaunchPlanView::Start("mspaint"@)
            &&& (n == "word"@ || n == "ms word"@ || n == "microsoft word"@) ==> launch_plan_for(app_path) == LaunchPlanView::Start("winword"@)
            &&& (n == "excel"@ || n == "ms excel"@ || n == "microsoft excel"@) ==> launch_plan_for(app_path) == LaunchPlanView::Start("excel"@)
            &&& (n == "explorer"@ || n == "file explorer"@ || n == "files"@) ==> launch_plan_for(app_path) == LaunchPlanView::Start("explorer"@)
            &&& (n == "cmd"@ || n == "command prompt"@) ==> launch_plan_for(app_path) == LaunchPlanView::Start("cmd"@)
            &&& (n == "powershell"@) ==> launch_plan_for(app_path) == LaunchPlanView::Start("powershell"@)
        }),
{
    let n = text::lowercase(text::trim_seq(app_path));
    if n == "chrome"@ {
        reveal_strlit("chrome");
        assert(n.len() == 6);
        lemma_plain_name_uses_table(app_path);
    }
    if n == "google chrome"@ {
        reveal_strlit("google chrome");
        assert(n.len() == 13);
        lemma_plain_name_uses_table(app_path);
    }
    if n == "browser"@ {
        reveal_strlit("browser");
        assert(n.len() == 7);
        lemma_plain_name_uses_table(app_path);
    }
    if n == "edge"@ {
        reveal_strlit("edge");
        reveal_strlit("chrome");
        reveal_strlit("google chrome");
        reveal_strlit("browser");
        assert(n.len() == 4);
        assert("chrome"@.len() == 6);
        assert("google chrome"@.len() == 13);
        assert("browser"@.len() == 7);
        lemma_plain_name_uses_table(app_path);
    }
    if n == "microsoft edge"@ {
        reveal_strlit("microsoft edge");
        reveal_strlit("chrome");
        reveal_strlit("google chrome");
        reveal_strlit("browser");
        assert(n.len() == 14);
        assert("chrome"@.len() == 6);
        assert("google chrome"@.len() == 13);
        assert("browser"@.len() == 7);
        lemma_plain_name_uses_table(app_path);
    }
    if n == "notepad"@ {
        reveal_strlit("notepad");
        reveal_strlit("chrome");
        reveal_strlit("google chrome");
        reveal_strlit("browser");
        reveal_strlit("edge");
        reveal_strlit("microsoft edge");
        assert(n.len() == 7);
        assert("chrome"@.len() == 6);
        assert("google chrome"@.len() == 13);
        assert("browser"@[0] == 'b' && n[0] == 'n');
        assert("edge"@.len() == 4);
        assert("microsoft edge"@.len() == 14);
        lemma_plain_name_uses_table(app_path);
    }
    if n == "text editor"@ {
        reveal_strlit("text editor");
        reveal_strlit("chrome");
        reveal_strlit("google chrome");
        reveal_strlit("browser");
        reveal_strlit("edge");
        reveal_strlit("microsoft edge");
        assert(n.len() == 11);
        assert("chrome"@.len() == 6);
        assert("google chrome"@.len() == 13);
        assert("browser"@.len() == 7);
        assert("edge"@.len() == 4);
        assert("microsoft edge"@.len() == 14);
        lemma_plain_name_uses_table(app_path);
    }
    if n == "calculator"@ {
        reveal_strlit("calculator");
        reveal_strlit("chrome");
        reveal_strlit("google chrome");
        reveal_strlit("browser");
        reveal_strlit("edge");
        reveal_strlit("microsoft edge");
        reveal_strlit("notepad");
        reveal_strlit("text editor");
        assert(n.len() == 10);
        assert("chrome"@.len() == 6);
        assert("google chrome"@.len() == 13);
        assert("browser"@.len() == 7);
        assert("edge"@.len() == 4);
        assert("microsoft edge"@.len() == 14);
        assert("notepad"@.len() == 7);
        assert("text editor"@.len() == 11);
        lemma_plain_name_uses_table(app_path);
    }
    if n == "calc"@ {
        reveal_strlit("calc");
        reveal_strlit("chrome");
        reveal_strlit("google chrome");
        reveal_strlit("browser");
        reveal_strlit("edge");
        reveal_strlit("microsoft edge");
        reveal_strlit("notepad");
        reveal_strlit("text editor");
        assert(n.len() == 4);
        assert("chrome"@.len() == 6);
        assert("google chrome"@.len() == 13);
        assert("browser"@.len() == 7);
        assert("edge"@[0] == 'e' && n[0] == 'c');
        assert("microsoft edge"@.len() == 14);
        assert("notepad"@.len() == 7);
        assert("text editor"@.len() == 11);
        lemma_plain_name_uses_table(app_path);
    }
    if n == "paint"@ {
        reveal_strlit("paint");
        reveal_strlit("chrome");
        reveal_strlit("google chrome");
        reveal_strlit("browser");
        reveal_strlit("edge");
        reveal_strlit("microsoft edge");
        reveal_strlit("notepad");
        reveal_strlit("text editor");
        reveal_strlit("calculator");
        reveal_strlit("calc");
        assert(n.len() == 5);
        assert("chrome"@.len() == 6);
        assert("google chrome"@.len() == 13);
        assert("browser"@.len() == 7);
        assert("edge"@.len() == 4);
        assert("microsoft edge"@.len() == 14);
        assert("notepad"@.len() == 7);
        assert("text editor"@.len() == 11);
        assert("calculator"@.len() == 10);
        assert("calc"@.len() == 4);
        lemma_plain_name_uses_table(app_path);
    }
    if n == "mspaint"@ {
        reveal_strlit("mspaint");
        reveal_strlit("chrome");
        reveal_strlit("google chrome");
        reveal_strlit("browser");
        reveal_strlit("edge");
        reveal_strlit("microsoft edge");
        reveal_strlit("notepad");
        reveal_strlit("text editor");
        reveal_strlit("calculator");
        reveal_strlit("calc");
        assert(n.len() == 7);
        assert("chrome"@.len() == 6);
        assert("google chrome"@.len() == 13);
        assert("browser"@[0] == 'b' && n[0] == 'm');
        assert("edge"@.len() == 4);
        assert("microsoft edge"@.len() == 14);
        assert("notepad"@[0] == 'n' && n[0] == 'm');
        assert("text editor"@.len() == 11);
        assert("calculator"@.len() == 10);
        assert("calc"@.len() == 4);
        lemma_plain_name_uses_table(app_path);
    }
    if n == "word"@ {
        reveal_strlit("word");
        reveal_strlit("chrome");
        reveal_strlit("google chrome");
        reveal_strlit("browser");
        reveal_strlit("edge");
        reveal_strlit("microsoft edge");
        reveal_strlit("notepad");
        reveal_strlit("text editor");
        reveal_strlit("calculator");
        reveal_strlit("calc");
        reveal_strlit("paint");
        reveal_strlit("mspaint");
        assert(n.len() == 4);
        assert("chrome"@.len() == 6);
        assert("google chrome"@.len() == 13);
        assert("browser"@.len() == 7);
        assert("edge"@[0] == 'e' && n[0] == 'w');
        assert("microsoft edge"@.len() == 14);
        assert("notepad"@.len() == 7);
        assert("text editor"@.len() == 11);
        assert("calculator"@.len() == 10);
        assert("calc"@[0] == 'c' && n[0] == 'w');
        assert("paint"@.len() == 5);
        assert("mspaint"@.len() == 7);
        lemma_plain_name_uses_table(app_path);
    }
    if n == "ms word"@ {
        reveal_strlit("ms word");
        reveal_strlit("chrome");
        reveal_strlit("google chrome");
        reveal_strlit("browser");
        reveal_strlit("edge");
        reveal_strlit("microsoft edge");
        reveal_strlit("notepad");
        reveal_strlit("text editor");
        reveal_strlit("calculator");
        reveal_strlit("calc");
        reveal_strlit("paint");
        reveal_strlit("mspaint");
        assert(n.len() == 7);
        assert("chrome"@.len() == 6);
        assert("google chrome"@.len() == 13);
        assert("browser"@[0] == 'b' && n[0] == 'm');
        assert("edge"@.len() == 4);
        assert("microsoft edge"@.len() == 14);
        assert("notepad"@[0] == 'n' && n[0] == 'm');
        assert("text editor"@.len() == 11);
        assert("calculator"@.len() == 10);
        assert("calc"@.len() == 4);
        assert("paint"@.len() == 5);
        assert("mspaint"@[2] == 'p' && n[2] == ' ');
        lemma_plain_name_uses_table(app_path);
    }
    if n == "microsoft word"@ {
        reveal_strlit("microsoft word");
        reveal_strlit("chrome");
        reveal_strlit("google chrome");
        reveal_strlit("browser");
        reveal_strlit("edge");
        reveal_strlit("microsoft edge");
        reveal_strlit("notepad");
        reveal_strlit("text editor");
        reveal_strlit("calculator");
        reveal_strlit("calc");
        reveal_strlit("paint");
        reveal_strlit("mspaint");
        assert(n.len() == 14);
        assert("chrome"@.len() == 6);
        assert("google chrome"@.len() == 13);
        assert("browser"@.len() == 7);
        assert("edge"@.len() == 4);
        assert("microsoft edge"@[10] == 'e' && n[10] == 'w');
        assert("notepad"@.len() == 7);
        assert("text editor"@.len() == 11);
        assert("calculator"@.len() == 10);
        assert("calc"@.len() == 4);
        assert("paint"@.len() == 5);
        assert("mspaint"@.len() == 7);
        lemma_plain_name_uses_table(app_path);
    }
    if n == "excel"@ {
        reveal_strlit("excel");
        reveal_strlit("chrome");
        reveal_strlit("google chrome");
        reveal_strlit("browser");
        reveal_strlit("edge");
        reveal_strlit("microsoft edge");
        reveal_strlit("notepad");
        reveal_strlit("text editor");
        reveal_strlit("calculator");
        reveal_strlit("calc");
        reveal_strlit("paint");
        reveal_strlit("mspaint");
        reveal_strlit("word");
        reveal_strlit("ms word");
        reveal_strlit("microsoft word");
        assert(n.len() == 5);
        assert("chrome"@.len() == 6);
        assert("google chrome"@.len() == 13);
        assert("browser"@.len() == 7);
        assert("edge"@.len() == 4);
        assert("microsoft edge"@.len() == 14);
        assert("notepad"@.len() == 7);
        assert("text editor"@.len() == 11);
        assert("calculator"@.len() == 10);
        assert("calc"@.len() == 4);
        assert("paint"@[0] == 'p' && n[0] == 'e');
        assert("mspaint"@.len() == 7);
        assert("word"@.len() == 4);
        assert("ms word"@.len() == 7);
        assert("microsoft word"@.len() == 14);
        lemma_plain_name_uses_table(app_path);
    }
    if n == "ms excel"@ {
        reveal_strlit("ms excel");
        reveal_strlit("chrome");
        reveal_strlit("google chrome");
        reveal_strlit("browser");
        reveal_strlit("edge");
        reveal_strlit("microsoft edge");
        reveal_strlit("notepad");
        reveal_strlit("text editor");
        reveal_strlit("calculator");
        reveal_strlit("calc");
        reveal_strlit("paint");
        reveal_strlit("mspaint");
        reveal_strlit("word");
        reveal_strlit("ms word");
        reveal_strlit("microsoft word");
        assert(n.len() == 8);
        assert("chrome"@.len() == 6);
        assert("google chrome"@.len() == 13);
        assert("browser"@.len() == 7);
        assert("edge"@.len() == 4);
        assert("microsoft edge"@.len() == 14);
        assert("notepad"@.len() == 7);
        assert("text editor"@.len() == 11);
        assert("calculator"@.len() == 10);
        assert("calc"@.len() == 4);
        assert("paint"@.len() == 5);
        assert("mspaint"@.len() == 7);
        assert("word"@.len() == 4);
        assert("ms word"@.len() == 7);
        assert("microsoft word"@.len() == 14);
        lemma_plain_name_uses_table(app_path);
    }
    if n == "microsoft excel"@ {
        reveal_strlit("microsoft excel");
        reveal_strlit("chrome");
        reveal_strlit("google chrome");
        reveal_strlit("browser");
        reveal_strlit("edge");
        reveal_strlit("microsoft edge");
        reveal_strlit("notepad");
        reveal_strlit("text editor");
        reveal_strlit("calculator");
        reveal_strlit("calc");
        reveal_strlit("paint");
        reveal_strlit("mspaint");
        reveal_strlit("word");
        reveal_strlit("ms word");
        reveal_strlit("microsoft word");
        assert(n.len() == 15);
        assert("chrome"@.len() == 6);
        assert("google chrome"@.len() == 13);
        assert("browser"@.len() == 7);
        assert("edge"@.len() == 4);
        assert("microsoft edge"@.len() == 14);
        assert("notepad"@.len() == 7);
        assert("text editor"@.len() == 11);
        assert("calculator"@.len() == 10);
        assert("calc"@.len() == 4);
        assert("paint"@.len() == 5);
        assert("mspaint"@.len() == 7);
        assert("word"@.len() == 4);
        assert("ms word"@.len() == 7);
        assert("microsoft word"@.len() == 14);
        lemma_plain_name_uses_table(app_path);
    }
    if n == "explorer"@ {
        reveal_strlit("explorer");
        reveal_strlit("chrome");
        reveal_strlit("google chrome");
        reveal_strlit("browser");
        reveal_strlit("edge");
        reveal_strlit("microsoft edge");
        reveal_strlit("notepad");
        reveal_strlit("text editor");
        reveal_strlit("calculator");
        reveal_strlit("calc");
        reveal_strlit("paint");
        reveal_strlit("mspaint");
        reveal_strlit("word");
        reveal_strlit("ms word");
        reveal_strlit("microsoft word");
        reveal_strlit("excel");
        reveal_strlit("ms excel");
        reveal_strlit("microsoft excel");
        assert(n.len() == 8);
        assert("chrome"@.len() == 6);
        assert("google chrome"@.len() == 13);
        assert("browser"@.len() == 7);
        assert("edge"@.len() == 4);
        assert("microsoft edge"@.len() == 14);
        assert("notepad"@.len() == 7);
        assert("text editor"@.len() == 11);
        assert("calculator"@.len() == 10);
        assert("calc"@.len() == 4);
        assert("paint"@.len() == 5);
        assert("mspaint"@.len() == 7);
        assert("word"@.len() == 4);
        assert("ms word"@.len() == 7);
        assert("microsoft word"@.len() == 14);
        assert("excel"@.len() == 5);
        assert("ms excel"@[0] == 'm' && n[0] == 'e');
        assert("microsoft excel"@.len() == 15);
        lemma_plain_name_uses_table(app_path);
    }
    if n == "file explorer"@ {
        reveal_strlit("file explorer");
        reveal_strlit("chrome");
        reveal_strlit("google chrome");
        reveal_strlit("browser");
        reveal_strlit("edge");
        reveal_strlit("microsoft edge");
        reveal_strlit("notepad");
        reveal_strlit("text editor");
        reveal_strlit("calculator");
        reveal_strlit("calc");
        reveal_strlit("paint");
        reveal_strlit("mspaint");
        reveal_strlit("word");
        reveal_strlit("ms word");
        reveal_strlit("microsoft word");
        reveal_strlit("excel");
        reveal_strlit("ms excel");
        reveal_strlit("microsoft excel");
        assert(n.len() == 13);
        assert("chrome"@.len() == 6);
        assert("google chrome"@[0] == 'g' && n[0] == 'f');
        assert("browser"@.len() == 7);
        assert("edge"@.len() == 4);
        assert("microsoft edge"@.len() == 14);
        assert("notepad"@.len() == 7);
        assert("text editor"@.len() == 11);
        assert("calculator"@.len() == 10);
        assert("calc"@.len() == 4);
        assert("paint"@.len() == 5);
        assert("mspaint"@.len() == 7);
        assert("word"@.len() == 4);
        assert("ms word"@.len() == 7);
        assert("microsoft word"@.len() == 14);
        assert("excel"@.len() == 5);
        assert("ms excel"@.len() == 8);
        assert("microsoft excel"@.len() == 15);
        lemma_plain_name_uses_table(app_path);
    }
    if n == "files"@ {
        reveal_strlit("files");
        reveal_strlit("chrome");
        reveal_strlit("google chrome");
        reveal_strlit("browser");
        reveal_strlit("edge");
        reveal_strlit("microsoft edge");
        reveal_strlit("notepad");
        reveal_strlit("text editor");
        reveal_strlit("calculator");
        reveal_strlit("calc");
        reveal_strlit("paint");
        reveal_strlit("mspaint");
        reveal_strlit("word");
        reveal_strlit("ms word");
        reveal_strlit("microsoft word");
        reveal_strlit("excel");
        reveal_strlit("ms excel");
        reveal_strlit("microsoft excel");
        assert(n.len() == 5);
        assert("chrome"@.len() == 6);
        assert("google chrome"@.len() == 13);
        assert("browser"@.len() == 7);
        assert("edge"@.len() == 4);
        assert("microsoft edge"@.len() == 14);
        assert("notepad"@.len() == 7);
        assert("text editor"@.len() == 11);
        assert("calculator"@.len() == 10);
        assert("calc"@.len() == 4);
        assert("paint"@[0] == 'p' && n[0] == 'f');
        assert("mspaint"@.len() == 7);
        assert("word"@.len() == 4);
        assert("ms word"@.len() == 7);
        assert("microsoft word"@.len() == 14);
        assert("excel"@[0] == 'e' && n[0] == 'f');
        assert("ms excel"@.len() == 8);
        assert("microsoft excel"@.len() == 15);
        lemma_plain_name_uses_table(app_path);
    }
    if n == "cmd"@ {
        reveal_strlit("cmd");
        reveal_strlit("chrome");
        reveal_strlit("google chrome");
        reveal_strlit("browser");
        reveal_strlit("edge");
        reveal_strlit("microsoft edge");
        reveal_strlit("notepad");
        reveal_strlit("text editor");
        reveal_strlit("calculator");
        reveal_strlit("calc");
        reveal_strlit("paint");
        reveal_strlit("mspaint");
        reveal_strlit("word");
        reveal_strlit("ms word");
        reveal_strlit("microsoft word");
        reveal_strlit("excel");
        reveal_strlit("ms excel");
        reveal_strlit("microsoft excel");
        reveal_strlit("explorer");
        reveal_strlit("file explorer");
        reveal_strlit("files");
        assert(n.len() == 3);
        assert("chrome"@.len() == 6);
        assert("google chrome"@.len() == 13);
        assert("browser"@.len() == 7);
        assert("edge"@.len() == 4);
        assert("microsoft edge"@.len() == 14);
        assert("notepad"@.len() == 7);
        assert("text editor"@.len() == 11);
        assert("calculator"@.len() == 10);
        assert("calc"@.len() == 4);
        assert("paint"@.len() == 5);
        assert("mspaint"@.len() == 7);
        assert("word"@.len() == 4);
        assert("ms word"@.len() == 7);
        assert("microsoft word"@.len() == 14);
        assert("excel"@.len() == 5);
        assert("ms excel"@.len() == 8);
        assert("microsoft excel"@.len() == 15);
        assert("explorer"@.len() == 8);
        assert("file explorer"@.len() == 13);
        assert("files"@.len() == 5);
        lemma_plain_name_uses_table(app_path);
    }
    if n == "command prompt"@ {
        reveal_strlit("command prompt");
        reveal_strlit("chrome");
        reveal_strlit("google chrome");
        reveal_strlit("browser");
        reveal_strlit("edge");
        reveal_strlit("microsoft edge");
        reveal_strlit("notepad");
        reveal_strlit("text editor");
        reveal_strlit("calculator");
        reveal_strlit("calc");
        reveal_strlit("paint");
        reveal_strlit("mspaint");
        reveal_strlit("word");
        reveal_strlit("ms word");
        reveal_strlit("microsoft word");
        reveal_strlit("excel");
        reveal_strlit("ms excel");
        reveal_strlit("microsoft excel");
        reveal_strlit("explorer");
        reveal_strlit("file explorer");
        reveal_strlit("files");
        assert(n.len() == 14);
        assert("chrome"@.len() == 6);
        assert("google chrome"@.len() == 13);
        assert("browser"@.len() == 7);
        assert("edge"@.len() == 4);
        assert("microsoft edge"@[0] == 'm' && n[0] == 'c');
        assert("notepad"@.len() == 7);
        assert("text editor"@.len() == 11);
        assert("calculator"@.len() == 10);
        assert("calc"@.len() == 4);
        assert("paint"@.len() == 5);
        assert("mspaint"@.len() == 7);
        assert("word"@.len() == 4);
        assert("ms word"@.len() == 7);
        assert("microsoft word"@[0] == 'm' && n[0] == 'c');
        assert("excel"@.len() == 5);
        assert("ms excel"@.len() == 8);
        assert("microsoft excel"@.len() == 15);
        assert("explorer"@.len() == 8);
        assert("file explorer"@.len() == 13);
        assert("files"@.len() == 5);
        lemma_plain_name_uses_table(app_path);
    }
    if n == "powershell"@ {
        reveal_strlit("powershell");
        reveal_strlit("chrome");
        reveal_strlit("google chrome");
        reveal_strlit("browser");
        reveal_strlit("edge");
        reveal_strlit("microsoft edge");
        reveal_strlit("notepad");
        reveal_strlit("text editor");
        reveal_strlit("calculator");
        reveal_strlit("calc");
        reveal_strlit("paint");
        reveal_strlit("mspaint");
        reveal_strlit("word");
        reveal_strlit("ms word");
        reveal_strlit("microsoft word");
        reveal_strlit("excel");
        reveal_strlit("ms excel");
        reveal_strlit("microsoft excel");
        reveal_strlit("explorer");
        reveal_strlit("file explorer");
        reveal_strlit("files");
        reveal_strlit("cmd");
        reveal_strlit("command prompt");
        assert(n.len() == 10);
        assert("chrome"@.len() == 6);
        assert("google chrome"@.len() == 13);
        assert("browser"@.len() == 7);
        assert("edge"@.len() == 4);
        assert("microsoft edge"@.len() == 14);
        assert("notepad"@.len() == 7);
        assert("text editor"@.len() == 11);
        assert("calculator"@[0] == 'c' && n[0] == 'p');
        assert("calc"@.len() == 4);
        assert("paint"@.len() == 5);
        assert("mspaint"@.len() == 7);
        assert("word"@.len() == 4);
        assert("ms word"@.len() == 7);
        assert("microsoft word"@.len() == 14);
        assert("excel"@.len() == 5);
        assert("ms excel"@.len() == 8);
        assert("microsoft excel"@.len() == 15);
        assert("explorer"@.len() == 8);
        assert("file explorer"@.len() == 13);
        assert("files"@.len() == 5);
        assert("cmd"@.len() == 3);
        assert("command prompt"@.len() == 14);
        lemma_plain_name_uses_table(app_path);
    }
}

/// Decides how an application request is launched.
pub fn plan_launch_app(app_path: &str) -> (res: LaunchPlan)
    ensures
        res@ == launch_plan_for(app_path@),
{
    let raw = chars_of(app_path);
    let trimmed = trim(&raw);
    let name = lower_chars(&trimmed);
    let has_tld_or_dot = contains_str(&name, ".") && !ends_with_str(&name, ".exe")
        && !ends_with_str(&name, ".bat") && !ends_with_str(&name, ".cmd") && !ends_with_str(
        &name,
        ".lnk",
    );
    if starts_with_str(&raw, "http://") || starts_with_str(&raw, "https://") {
        let t = url_target_chars(&raw);
        return LaunchPlan::OpenUrl(string_of(&t));
    }
    if has_tld_or_dot {
        let prefixed = concat(&chars_of("https://"), &raw);
        let t = url_target_chars(&prefixed);
        return LaunchPlan::OpenUrl(string_of(&t));
    }
    if eq_str(&name, "youtube") || contains_str(&name, "youtube") {
        return open_fixed_url("https://www.youtube.com");
    }
    if eq_str(&name, "google") || contains_str(&name, "google.com") {
        return open_fixed_url("https://www.google.com");
    }
    if eq_str(&name, "gmail") {
        return open_fixed_url("https://mail.google.com");
    }
    if eq_str(&name, "github") {
        return open_fixed_url("https://github.com");
    }
    match known_program_exec(&name) {
        Some(p) => LaunchPlan::Start(p.to_string()),
        None => LaunchPlan::SearchThenStart {
            query: string_of(&name),
            fallback: app_path.to_string(),
        },
    }
}

/// A file found while searching the Start Menu is a launchable match for the
/// (lowercased) query: a `.lnk` or `.exe` whose lowercased name holds the query.
pub open spec fn is_shortcut_match_for(file_name: Seq<char>, target_lower: Seq<char>) -> bool {
    let f = text::lowercase(file_name);
    (text::ends_with_seq(f, ".lnk"@) || text::ends_with_seq(f, ".exe"@)) && text::contains_seq(f, target_lower)
}

/// Tests a file name found while searching the Start Menu.
pub fn is_shortcut_match(file_name: &str, target_lower: &str) -> (res: bool)
    ensures
        res == is_shortcut_match_for(file_name@, target_lower@),
{
    let f = lower_chars(&chars_of(file_name));
    let t = chars_of(target_lower);
    (ends_with_str(&f, ".lnk") || ends_with_str(&f, ".exe")) && contains(&f, &t)
}

/// The most directories the Start Menu search visits under one root.
pub const MAX_SEARCH_DIRS: u32 = 2000;

/// The search under one root stops once it has been asked to visit more than
/// [`MAX_SEARCH_DIRS`] directories.
pub fn search_budget_exhausted(visited: u32) -> (res: bool)
    ensures
        res == (visited > MAX_SEARCH_DIRS),
{
    visited > MAX_SEARCH_DIRS
}

} // verus!
