//! System intents: recognising them in model replies, classifying dangerous
//! ones, and deciding which automation action each one asks for.
use vstd::prelude::*;
use crate::json::{Json, json_get, json_str, get_str_spec, get_i64_spec, json_text, field_index, parse_json, json_parse};
use crate::text;
use crate::text::{chars_of, concat, concat_str, contains_str, eq_str, find_char, i64_decimal, lower_chars, rfind_char, slice_chars, string_of, trim, u64_decimal};

verus! {

/// A requested system action with its parameters.
#[derive(Debug, PartialEq, Eq)]
pub struct SystemIntent {
    pub action: String,
    pub params: Json,
}

/// The outcome reported for an intent.
#[derive(Debug, PartialEq, Eq)]
pub enum ExecutionResult {
    Success(String),
    PermissionRequired {
        action: String,
        details: String,
        /// Unique token that approves this specific execution later.
        token: String,
    },
    Failed(String),
}

/// The abstract value of an [`ExecutionResult`].
pub enum ExecutionResultView {
    Success(Seq<char>),
    PermissionRequired(Seq<char>, Seq<char>, Seq<char>),
    Failed(Seq<char>),
}

impl View for ExecutionResult {
    type V = ExecutionResultView;

    open spec fn view(&self) -> ExecutionResultView {
        match self {
            ExecutionResult::Success(m) => ExecutionResultView::Success(m@),
            ExecutionResult::PermissionRequired { action, details, token } =>
                ExecutionResultView::PermissionRequired(action@, details@, token@),
            ExecutionResult::Failed(m) => ExecutionResultView::Failed(m@),
        }
    }
}

// ---------------------------------------------------------------------------
// Danger classification
// ---------------------------------------------------------------------------

/// A bare application name (trimmed, lowercase) that starts a shell.
pub open spec fn shell_name(n: Seq<char>) -> bool {
    n == "cmd"@ || n == "command prompt"@ || n == "powershell"@ || n == "pwsh"@
}

/// An `open_app` path that names a shell (by executable file name or by the
/// bare name the launcher resolves), the registry editor's executable, or
/// formatting.
pub open spec fn blacklisted_path(path: Seq<char>) -> bool {
    let p = text::lowercase(path);
    text::contains_seq(p, "cmd.exe"@) || text::contains_seq(p, "powershell.exe"@)
        || text::contains_seq(p, "pwsh.exe"@) || text::contains_seq(p, "regedit.exe"@) || text::contains_seq(p, "format"@)
        || shell_name(text::lowercase(text::trim_seq(path)))
}

/// Intents that must be confirmed by the user before they run: shutdown and
/// restart (or a power action that does not say which), scripts, terminal
/// commands, deletions, formatting, and opening a blacklisted program.
pub open spec fn dangerous(action: Seq<char>, params: Json) -> bool {
    if action == "power_action"@ {
        match get_str_spec(params, "action"@) {
            Some(act) => act == "shutdown"@ || act == "restart"@,
            None => true,
        }
    } else if action == "run_script"@ || action == "terminal_command"@ || action
        == "delete_file"@ || action == "format_drive"@ {
        true
    } else if action == "open_app"@ {
        match get_str_spec(params, "path"@) {
            Some(path) => blacklisted_path(path),
            None => false,
        }
    } else {
        false
    }
}

/// Evaluates whether an intent is a dangerous system command.
pub fn is_dangerous(intent: &SystemIntent) -> (res: bool)
    ensures
        res == dangerous(intent.action@, intent.params),
{
    let a = chars_of(intent.action.as_str());
    if eq_str(&a, "power_action") {
        match intent.params.get_str("action") {
            Some(act) => {
                let c = chars_of(act);
                eq_str(&c, "shutdown") || eq_str(&c, "restart")
            },
            None => true,
        }
    } else if eq_str(&a, "run_script") || eq_str(&a, "terminal_command") || eq_str(&a, "delete_file")
        || eq_str(&a, "format_drive") {
        true
    } else if eq_str(&a, "open_app") {
        match intent.params.get_str("path") {
            Some(path) => {
                let raw = chars_of(path);
                let p = lower_chars(&raw);
                let n = lower_chars(&trim(&raw));
                contains_str(&p, "cmd.exe") || contains_str(&p, "powershell.exe") || contains_str(
                    &p,
                    "pwsh.exe",
                ) || contains_str(&p, "regedit.exe") || contains_str(&p, "format") || eq_str(&n, "cmd")
                    || eq_str(&n, "command prompt") || eq_str(&n, "powershell") || eq_str(&n, "pwsh")
            },
            None => false,
        }
    } else {
        false
    }
}

// ---------------------------------------------------------------------------
// Actions
// ---------------------------------------------------------------------------

/// An automation action an intent asks for.
#[derive(Debug, PartialEq, Eq)]
pub enum Action {
    MoveMouse { x: i32, y: i32 },
    Click(String),
    MouseDown(String),
    MouseUp(String),
    Scroll { clicks: i32, direction: String },
    TypeText(String),
    PressKey(String),
    PressShortcut(String),
    UnlockOs(String),
    OpenUrl(String),
    OpenApp(String),
    AdjustVolume(String),
    AdjustBrightness(u8),
    /// A sleep or lock request that needs no approval.
    PowerAction(String),
    /// Any power request, after the user approved it.
    ApprovedPowerAction(String),
    GetMetrics,
}

/// The abstract value of an [`Action`].
pub enum ActionView {
    MoveMouse(i32, i32),
    Click(Seq<char>),
    MouseDown(Seq<char>),
    MouseUp(Seq<char>),
    Scroll(i32, Seq<char>),
    TypeText(Seq<char>),
    PressKey(Seq<char>),
    PressShortcut(Seq<char>),
    UnlockOs(Seq<char>),
    OpenUrl(Seq<char>),
    OpenApp(Seq<char>),
    AdjustVolume(Seq<char>),
    AdjustBrightness(u8),
    PowerAction(Seq<char>),
    ApprovedPowerAction(Seq<char>),
    GetMetrics,
}

impl View for Action {
    type V = ActionView;

    open spec fn view(&self) -> ActionView {
        match self {
            Action::MoveMouse { x, y } => ActionView::MoveMouse(*x, *y),
            Action::Click(b) => ActionView::Click(b@),
            Action::MouseDown(b) => ActionView::MouseDown(b@),
            Action::MouseUp(b) => ActionView::MouseUp(b@),
            Action::Scroll { clicks, direction } => ActionView::Scroll(*clicks, direction@),
            Action::TypeText(t) => ActionView::TypeText(t@),
            Action::PressKey(k) => ActionView::PressKey(k@),
            Action::PressShortcut(s) => ActionView::PressShortcut(s@),
            Action::UnlockOs(p) => ActionView::UnlockOs(p@),
            Action::OpenUrl(u) => ActionView::OpenUrl(u@),
            Action::OpenApp(p) => ActionView::OpenApp(p@),
            Action::AdjustVolume(l) => ActionView::AdjustVolume(l@),
            Action::AdjustBrightness(l) => ActionView::AdjustBrightness(*l),
            Action::PowerAction(a) => ActionView::PowerAction(a@),
            Action::ApprovedPowerAction(a) => ActionView::ApprovedPowerAction(a@),
            Action::GetMetrics => ActionView::GetMetrics,
        }
    }
}

/// A string parameter, or the given error when it is missing or not a string.
pub open spec fn required_str(params: Json, key: Seq<char>, err: Seq<char>) -> Result<
    Seq<char>,
    Seq<char>,
> {
    match get_str_spec(params, key) {
        Some(s) => Ok(s),
        None => Err(err),
    }
}

/// A string parameter with a default.
pub open spec fn str_or(params: Json, key: Seq<char>, dflt: Seq<char>) -> Seq<char> {
    match get_str_spec(params, key) {
        Some(s) => s,
        None => dflt,
    }
}

/// The action a safe (unapproved) intent asks for, or why it cannot run.
pub open spec fn safe_plan(action: Seq<char>, params: Json) -> Result<ActionView, Seq<char>> {
    if action == "move_mouse"@ {
        match get_i64_spec(params, "x"@) {
            None => Err("Missing x coordinate"@),
            Some(x) => match get_i64_spec(params, "y"@) {
                None => Err("Missing y coordinate"@),
                Some(y) => Ok(ActionView::MoveMouse(x as i32, y as i32)),
            },
        }
    } else if action == "click"@ {
        Ok(ActionView::Click(str_or(params, "button"@, "left"@)))
    } else if action == "mouse_down"@ {
        Ok(ActionView::MouseDown(str_or(params, "button"@, "left"@)))
    } else if action == "mouse_up"@ {
        Ok(ActionView::MouseUp(str_or(params, "button"@, "left"@)))
    } else if action == "scroll"@ {
        let clicks = match get_i64_spec(params, "clicks"@) {
            Some(c) => c,
            None => 1,
        };
        Ok(ActionView::Scroll(clicks as i32, str_or(params, "direction"@, "down"@)))
    } else if action == "type_text"@ {
        match required_str(params, "text"@, "Missing text payload"@) {
            Ok(t) => Ok(ActionView::TypeText(t)),
            Err(e) => Err(e),
        }
    } else if action == "press_key"@ {
        match required_str(params, "key"@, "Missing key code"@) {
            Ok(k) => Ok(ActionView::PressKey(k)),
            Err(e) => Err(e),
        }
    } else if action == "press_shortcut"@ {
        match required_str(params, "shortcut"@, "Missing shortcut parameter"@) {
            Ok(s) => Ok(ActionView::PressShortcut(s)),
            Err(e) => Err(e),
        }
    } else if action == "unlock_os"@ {
        match required_str(params, "password"@, "Missing password parameter"@) {
            Ok(p) => Ok(ActionView::UnlockOs(p)),
            Err(e) => Err(e),
        }
    } else if action == "open_url"@ {
        match required_str(params, "url"@, "Missing url parameter"@) {
            Ok(u) => Ok(ActionView::OpenUrl(u)),
            Err(e) => Err(e),
        }
    } else if action == "open_app"@ {
        match required_str(params, "path"@, "Missing application path"@) {
            Ok(p) => Ok(ActionView::OpenApp(p)),
            Err(e) => Err(e),
        }
    } else if action == "adjust_volume"@ {
        match required_str(params, "action"@, "Missing action parameter (up/down/mute)"@) {
            Ok(l) => Ok(ActionView::AdjustVolume(l)),
            Err(e) => Err(e),
        }
    } else if action == "adjust_brightness"@ {
        match get_i64_spec(params, "level"@) {
            Some(l) => Ok(ActionView::AdjustBrightness(l as u8)),
            None => Err("Missing brightness level"@),
        }
    } else if action == "power_action"@ {
        match required_str(params, "action"@, "Missing action parameter"@) {
            Ok(a) => if a == "sleep"@ || a == "lock"@ {
                Ok(ActionView::PowerAction(a))
            } else {
                Err("Action requires manual override authorization"@)
            },
            Err(e) => Err(e),
        }
    } else if action == "get_metrics"@ {
        Ok(ActionView::GetMetrics)
    } else {
        Err("Unsupported or unknown action: "@ + action)
    }
}

/// The action an approved intent asks for: power actions and application
/// launches run as requested, everything else as a safe intent.
pub open spec fn approved_plan(action: Seq<char>, params: Json) -> Result<ActionView, Seq<char>> {
    if action == "power_action"@ {
        match required_str(params, "action"@, "Missing action parameter"@) {
            Ok(a) => Ok(ActionView::ApprovedPowerAction(a)),
            Err(e) => Err(e),
        }
    } else if action == "open_app"@ {
        match required_str(params, "path"@, "Missing app path"@) {
            Ok(p) => Ok(ActionView::OpenApp(p)),
            Err(e) => Err(e),
        }
    } else {
        safe_plan(action, params)
    }
}

/// The view of a planned action or of its error text.
pub open spec fn plan_view(r: Result<Action, String>) -> Result<ActionView, Seq<char>> {
    match r {
        Ok(a) => Ok(a@),
        Err(e) => Err(e@),
    }
}

fn param_str(params: &Json, key: &str, err: &str) -> (res: Result<String, String>)
    ensures
        match res {
            Ok(s) => required_str(*params, key@, err@) == Ok::<Seq<char>, Seq<char>>(s@),
            Err(e) => required_str(*params, key@, err@) == Err::<Seq<char>, Seq<char>>(e@),
        },
{
    match params.get_str(key) {
        Some(s) => Ok(s.to_string()),
        None => Err(err.to_string()),
    }
}

fn param_str_or(params: &Json, key: &str, dflt: &str) -> (res: String)
    ensures
        res@ == str_or(*params, key@, dflt@),
{
    match params.get_str(key) {
        Some(s) => s.to_string(),
        None => dflt.to_string(),
    }
}

/// Decides the action for an intent that needs no approval.
pub fn plan_safe_action(intent: &SystemIntent) -> (res: Result<Action, String>)
    ensures
        plan_view(res) == safe_plan(intent.action@, intent.params),
{
    let a = chars_of(intent.action.as_str());
    let p = &intent.params;
    if eq_str(&a, "move_mouse") {
        match p.get_i64("x") {
            None => Err("Missing x coordinate".to_string()),
            Some(x) => match p.get_i64("y") {
                None => Err("Missing y coordinate".to_string()),
                Some(y) => Ok(Action::MoveMouse { x: x as i32, y: y as i32 }),
            },
        }
    } else if eq_str(&a, "click") {
        Ok(Action::Click(param_str_or(p, "button", "left")))
    } else if eq_str(&a, "mouse_down") {
        Ok(Action::MouseDown(param_str_or(p, "button", "left")))
    } else if eq_str(&a, "mouse_up") {
        Ok(Action::MouseUp(param_str_or(p, "button", "left")))
    } else if eq_str(&a, "scroll") {
        let clicks: i64 = match p.get_i64("clicks") {
            Some(c) => c,
            None => 1,
        };
        Ok(Action::Scroll { clicks: clicks as i32, direction: param_str_or(p, "direction", "down") })
    } else if eq_str(&a, "type_text") {
        match param_str(p, "text", "Missing text payload") {
            Ok(t) => Ok(Action::TypeText(t)),
            Err(e) => Err(e),
        }
    } else if eq_str(&a, "press_key") {
        match param_str(p, "key", "Missing key code") {
            Ok(k) => Ok(Action::PressKey(k)),
            Err(e) => Err(e),
        }
    } else if eq_str(&a, "press_shortcut") {
        match param_str(p, "shortcut", "Missing shortcut parameter") {
            Ok(s) => Ok(Action::PressShortcut(s)),
            Err(e) => Err(e),
        }
    } else if eq_str(&a, "unlock_os") {
        match param_str(p, "password", "Missing password parameter") {
            Ok(pw) => Ok(Action::UnlockOs(pw)),
            Err(e) => Err(e),
        }
    } else if eq_str(&a, "open_url") {
        match param_str(p, "url", "Missing url parameter") {
            Ok(u) => Ok(Action::OpenUrl(u)),
            Err(e) => Err(e),
        }
    } else if eq_str(&a, "open_app") {
        match param_str(p, "path", "Missing application path") {
            Ok(path) => Ok(Action::OpenApp(path)),
            Err(e) => Err(e),
        }
    } else if eq_str(&a, "adjust_volume") {
        match param_str(p, "action", "Missing action parameter (up/down/mute)") {
            Ok(l) => Ok(Action::AdjustVolume(l)),
            Err(e) => Err(e),
        }
    } else if eq_str(&a, "adjust_brightness") {
        match p.get_i64("level") {
            Some(l) => Ok(Action::AdjustBrightness(l as u8)),
            None => Err("Missing brightness level".to_string()),
        }
    } else if eq_str(&a, "power_action") {
        match param_str(p, "action", "Missing action parameter") {
            Ok(act) => {
                let c = chars_of(act.as_str());
                if eq_str(&c, "sleep") || eq_str(&c, "lock") {
                    Ok(Action::PowerAction(act))
                } else {
                    Err("Action requires manual override authorization".to_string())
                }
            },
            Err(e) => Err(e),
        }
    } else if eq_str(&a, "get_metrics") {
        Ok(Action::GetMetrics)
    } else {
        let msg = concat(&chars_of("Unsupported or unknown action: "), &a);
        Err(string_of(&msg))
    }
}

/// Decides the action for an intent the user has approved.
pub fn plan_approved_action(intent: &SystemIntent) -> (res: Result<Action, String>)
    ensures
        plan_view(res) == approved_plan(intent.action@, intent.params),
{
    let a = chars_of(intent.action.as_str());
    if eq_str(&a, "power_action") {
        match param_str(&intent.params, "action", "Missing action parameter") {
            Ok(act) => Ok(Action::ApprovedPowerAction(act)),
            Err(e) => Err(e),
        }
    } else if eq_str(&a, "open_app") {
        match param_str(&intent.params, "path", "Missing app path") {
            Ok(path) => Ok(Action::OpenApp(path)),
            Err(e) => Err(e),
        }
    } else {
        plan_safe_action(intent)
    }
}

// ---------------------------------------------------------------------------
// Dispatch decisions and reports
// ---------------------------------------------------------------------------

/// What the dispatcher does with an intent.
#[derive(Debug, PartialEq, Eq)]
pub enum Decision {
    /// Report this result without running anything.
    Report(ExecutionResult),
    /// Run this action, then report with [`complete_action`].
    Run(Action),
}

/// The text that describes a held intent to the user.
pub open spec fn approval_details(action: Seq<char>, params: Json) -> Seq<char> {
    "Action: "@ + action + ", Params: "@ + json_text(params)
}

/// Validates the safety class of an intent: dangerous intents are held for
/// approval with a fresh token; others become an action to run, or a failure
/// when their parameters do not fit.
pub fn dispatch_decision(intent: &SystemIntent) -> (res: Decision)
    ensures
        dangerous(intent.action@, intent.params) ==> (res matches Decision::Report(
            ExecutionResult::PermissionRequired { action, details, token },
        ) && action@ == intent.action@ && details@ == approval_details(
            intent.action@,
            intent.params,
        ) && crate::security::uuid_v4_hyphenated(token@)),
        !dangerous(intent.action@, intent.params) ==> match safe_plan(
            intent.action@,
            intent.params,
        ) {
            Ok(a) => res matches Decision::Run(r) && r@ == a,
            Err(e) => res matches Decision::Report(ExecutionResult::Failed(m)) && m@ == e,
        },
{
    if is_dangerous(intent) {
        let head = concat_str(&chars_of("Action: "), intent.action.as_str());
        let head2 = concat_str(&head, ", Params: ");
        let ptext = intent.params.to_json_string();
        let details = concat_str(&head2, ptext.as_str());
        return Decision::Report(
            ExecutionResult::PermissionRequired {
                action: intent.action.clone(),
                details: string_of(&details),
                token: crate::security::uuid_hyphenated(),
            },
        );
    }
    match plan_safe_action(intent) {
        Ok(a) => Decision::Run(a),
        Err(e) => Decision::Report(ExecutionResult::Failed(e)),
    }
}

/// Each safe intent runs the action it names with the parameters it gives:
/// the pointer goes to the given coordinates, clicks use the given button
/// (else the left one), text, keys, shortcuts, passwords, addresses,
/// applications and volume actions are passed through unchanged, a missing
/// one is an error, and power actions run unapproved only to sleep or lock.
/// Once approved, any power action and any application runs as requested;
/// an unknown action never runs.
pub proof fn lemma_plans_follow_the_intent(action: Seq<char>, params: Json, v: Seq<char>, x: int, y: int)
    ensures
        (action == "move_mouse"@ && get_i64_spec(params, "x"@) == Some(x) && get_i64_spec(params, "y"@)
            == Some(y)) ==> safe_plan(action, params) == Ok::<ActionView, Seq<char>>(
            ActionView::MoveMouse(x as i32, y as i32),
        ),
        (action == "click"@ && get_str_spec(params, "button"@) == Some(v)) ==> safe_plan(action, params)
            == Ok::<ActionView, Seq<char>>(ActionView::Click(v)),
        (action == "click"@ && get_str_spec(params, "button"@) is None) ==> safe_plan(action, params)
            == Ok::<ActionView, Seq<char>>(ActionView::Click("left"@)),
        (action == "mouse_down"@ && get_str_spec(params, "button"@) == Some(v)) ==> safe_plan(action, params)
            == Ok::<ActionView, Seq<char>>(ActionView::MouseDown(v)),
        (action == "mouse_down"@ && get_str_spec(params, "button"@) is None) ==> safe_plan(action, params)
            == Ok::<ActionView, Seq<char>>(ActionView::MouseDown("left"@)),
        (action == "mouse_up"@ && get_str_spec(params, "button"@) == Some(v)) ==> safe_plan(action, params)
            == Ok::<ActionView, Seq<char>>(ActionView::MouseUp(v)),
        (action == "mouse_up"@ && get_str_spec(params, "button"@) is None) ==> safe_plan(action, params)
            == Ok::<ActionView, Seq<char>>(ActionView::MouseUp("left"@)),
        (action == "scroll"@ && get_i64_spec(params, "clicks"@) is None && get_str_spec(params, "direction"@)
            is None) ==> safe_plan(action, params) == Ok::<ActionView, Seq<char>>(
            ActionView::Scroll(1, "down"@),
        ),
        (action == "type_text"@ && get_str_spec(params, "text"@) == Some(v)) ==> safe_plan(action, params)
            == Ok::<ActionView, Seq<char>>(ActionView::TypeText(v)),
        (action == "type_text"@ && get_str_spec(params, "text"@) is None) ==> safe_plan(action, params) is Err,
        (action == "press_key"@ && get_str_spec(params, "key"@) == Some(v)) ==> safe_plan(action, params)
            == Ok::<ActionView, Seq<char>>(ActionView::PressKey(v)),
        (action == "press_key"@ && get_str_spec(params, "key"@) is None) ==> safe_plan(action, params) is Err,
        (action == "press_shortcut"@ && get_str_spec(params, "shortcut"@) == Some(v)) ==> safe_plan(action, params)
            == Ok::<ActionView, Seq<char>>(ActionView::PressShortcut(v)),
        (action == "press_shortcut"@ && get_str_spec(params, "shortcut"@) is None) ==> safe_plan(action, params) is Err,
        (action == "unlock_os"@ && get_str_spec(params, "password"@) == Some(v)) ==> safe_plan(action, params)
            == Ok::<ActionView, Seq<char>>(ActionView::UnlockOs(v)),
        (action == "unlock_os"@ && get_str_spec(params, "password"@) is None) ==> safe_plan(action, params) is Err,
        (action == "open_url"@ && get_str_spec(params, "url"@) == Some(v)) ==> safe_plan(action, params)
            == Ok::<ActionView, Seq<char>>(ActionView::OpenUrl(v)),
        (action == "open_url"@ && get_str_spec(params, "url"@) is None) ==> safe_plan(action, params) is Err,
        (action == "open_app"@ && get_str_spec(params, "path"@) == Some(v)) ==> safe_plan(action, params)
            == Ok::<ActionView, Seq<char>>(ActionView::OpenApp(v)),
        (action == "open_app"@ && get_str_spec(params, "path"@) is None) ==> safe_plan(action, params) is Err,
        (action == "adjust_volume"@ && get_str_spec(params, "action"@) == Some(v)) ==> safe_plan(action, params)
            == Ok::<ActionView, Seq<char>>(ActionView::AdjustVolume(v)),
        (action == "adjust_volume"@ && get_str_spec(params, "action"@) is None) ==> safe_plan(action, params) is Err,
        (action == "power_action"@ && (v == "sleep"@ || v == "lock"@) && get_str_spec(params, "action"@)
            == Some(v)) ==> safe_plan(action, params) == Ok::<ActionView, Seq<char>>(
            ActionView::PowerAction(v),
        ),
        (action == "power_action"@ && v != "sleep"@ && v != "lock"@ && get_str_spec(params, "action"@)
            == Some(v)) ==> safe_plan(action, params) is Err && approved_plan(action, params) == Ok::<
            ActionView,
            Seq<char>,
        >(ActionView::ApprovedPowerAction(v)),
        (action == "open_app"@ && get_str_spec(params, "path"@) == Some(v)) ==> approved_plan(
            action,
            params,
        ) == Ok::<ActionView, Seq<char>>(ActionView::OpenApp(v)),
        action == "get_metrics"@ ==> safe_plan(action, params) == Ok::<ActionView, Seq<char>>(
            ActionView::GetMetrics,
        ),
        (action != "power_action"@ && action != "open_app"@) ==> approved_plan(action, params)
            == safe_plan(action, params),
        (action != "move_mouse"@ && action != "click"@ && action != "mouse_down"@ && action != "mouse_up"@ && action != "scroll"@ && action != "type_text"@ && action != "press_key"@ && action != "press_shortcut"@ && action != "unlock_os"@ && action != "open_url"@ && action != "open_app"@ && action != "adjust_volume"@ && action != "adjust_brightness"@ && action != "power_action"@ && action != "get_metrics"@) ==> safe_plan(action, params) is Err,
{
    reveal_strlit("move_mouse");
    reveal_strlit("click");
    reveal_strlit("mouse_down");
    reveal_strlit("mouse_up");
    reveal_strlit("scroll");
    reveal_strlit("type_text");
    reveal_strlit("press_key");
    reveal_strlit("press_shortcut");
    reveal_strlit("unlock_os");
    reveal_strlit("open_url");
    reveal_strlit("open_app");
    reveal_strlit("adjust_volume");
    reveal_strlit("adjust_brightness");
    reveal_strlit("power_action");
    reveal_strlit("get_metrics");
    reveal_strlit("sleep");
    reveal_strlit("lock");
    reveal_strlit("left");
    reveal_strlit("down");
    if action == "move_mouse"@ {
        assert(action.len() == 10);
        assert("click"@.len() == 5);
        assert("mouse_down"@[2] == 'u' && action[2] == 'v');
        assert("mouse_up"@.len() == 8);
        assert("scroll"@.len() == 6);
        assert("type_text"@.len() == 9);
        assert("press_key"@.len() == 9);
        assert("press_shortcut"@.len() == 14);
        assert("unlock_os"@.len() == 9);
        assert("open_url"@.len() == 8);
        assert("open_app"@.len() == 8);
        assert("adjust_volume"@.len() == 13);
        assert("adjust_brightness"@.len() == 17);
        assert("power_action"@.len() == 12);
        assert("get_metrics"@.len() == 11);
    }
    if action == "click"@ {
        assert(action.len() == 5);
        assert("move_mouse"@.len() == 10);
        assert("mouse_down"@.len() == 10);
        assert("mouse_up"@.len() == 8);
        assert("scroll"@.len() == 6);
        assert("type_text"@.len() == 9);
        assert("press_key"@.len() == 9);
        assert("press_shortcut"@.len() == 14);
        assert("unlock_os"@.len() == 9);
        assert("open_url"@.len() == 8);
        assert("open_app"@.len() == 8);
        assert("adjust_volume"@.len() == 13);
        assert("adjust_brightness"@.len() == 17);
        assert("power_action"@.len() == 12);
        assert("get_metrics"@.len() == 11);
    }
    if action == "mouse_down"@ {
        assert(action.len() == 10);
        assert("move_mouse"@[2] == 'v' && action[2] == 'u');
        assert("click"@.len() == 5);
        assert("mouse_up"@.len() == 8);
        assert("scroll"@.len() == 6);
        assert("type_text"@.len() == 9);
        assert("press_key"@.len() == 9);
        assert("press_shortcut"@.len() == 14);
        assert("unlock_os"@.len() == 9);
        assert("open_url"@.len() == 8);
        assert("open_app"@.len() == 8);
        assert("adjust_volume"@.len() == 13);
        assert("adjust_brightness"@.len() == 17);
        assert("power_action"@.len() == 12);
        assert("get_metrics"@.len() == 11);
    }
    if action == "mouse_up"@ {
        assert(action.len() == 8);
        assert("move_mouse"@.len() == 10);
        assert("click"@.len() == 5);
        assert("mouse_down"@.len() == 10);
        assert("scroll"@.len() == 6);
        assert("type_text"@.len() == 9);
        assert("press_key"@.len() == 9);
        assert("press_shortcut"@.len() == 14);
        assert("unlock_os"@.len() == 9);
        assert("open_url"@[0] == 'o' && action[0] == 'm');
        assert("open_app"@[0] == 'o' && action[0] == 'm');
        assert("adjust_volume"@.len() == 13);
        assert("adjust_brightness"@.len() == 17);
        assert("power_action"@.len() == 12);
        assert("get_metrics"@.len() == 11);
    }
    if action == "scroll"@ {
        assert(action.len() == 6);
        assert("move_mouse"@.len() == 10);
        assert("click"@.len() == 5);
        assert("mouse_down"@.len() == 10);
        assert("mouse_up"@.len() == 8);
        assert("type_text"@.len() == 9);
        assert("press_key"@.len() == 9);
        assert("press_shortcut"@.len() == 14);
        assert("unlock_os"@.len() == 9);
        assert("open_url"@.len() == 8);
        assert("open_app"@.len() == 8);
        assert("adjust_volume"@.len() == 13);
        assert("adjust_brightness"@.len() == 17);
        assert("power_action"@.len() == 12);
        assert("get_metrics"@.len() == 11);
    }
    if action == "type_text"@ {
        assert(action.len() == 9);
        assert("move_mouse"@.len() == 10);
        assert("click"@.len() == 5);
        assert("mouse_down"@.len() == 10);
        assert("mouse_up"@.len() == 8);
        assert("scroll"@.len() == 6);
        assert("press_key"@[0] == 'p' && action[0] == 't');
        assert("press_shortcut"@.len() == 14);
        assert("unlock_os"@[0] == 'u' && action[0] == 't');
        assert("open_url"@.len() == 8);
        assert("open_app"@.len() == 8);
        assert("adjust_volume"@.len() == 13);
        assert("adjust_brightness"@.len() == 17);
        assert("power_action"@.len() == 12);
        assert("get_metrics"@.len() == 11);
    }
    if action == "press_key"@ {
        assert(action.len() == 9);
        assert("move_mouse"@.len() == 10);
        assert("click"@.len() == 5);
        assert("mouse_down"@.len() == 10);
        assert("mouse_up"@.len() == 8);
        assert("scroll"@.len() == 6);
        assert("type_text"@[0] == 't' && action[0] == 'p');
        assert("press_shortcut"@.len() == 14);
        assert("unlock_os"@[0] == 'u' && action[0] == 'p');
        assert("open_url"@.len() == 8);
        assert("open_app"@.len() == 8);
        assert("adjust_volume"@.len() == 13);
        assert("adjust_brightness"@.len() == 17);
        assert("power_action"@.len() == 12);
        assert("get_metrics"@.len() == 11);
    }
    if action == "press_shortcut"@ {
        assert(action.len() == 14);
        assert("move_mouse"@.len() == 10);
        assert("click"@.len() == 5);
        assert("mouse_down"@.len() == 10);
        assert("mouse_up"@.len() == 8);
        assert("scroll"@.len() == 6);
        assert("type_text"@.len() == 9);
        assert("press_key"@.len() == 9);
        assert("unlock_os"@.len() == 9);
        assert("open_url"@.len() == 8);
        assert("open_app"@.len() == 8);
        assert("adjust_volume"@.len() == 13);
        assert("adjust_brightness"@.len() == 17);
        assert("power_action"@.len() == 12);
        assert("get_metrics"@.len() == 11);
    }
    if action == "unlock_os"@ {
        assert(action.len() == 9);
        assert("move_mouse"@.len() == 10);
        assert("click"@.len() == 5);
        assert("mouse_down"@.len() == 10);
        assert("mouse_up"@.len() == 8);
        assert("scroll"@.len() == 6);
        assert("type_text"@[0] == 't' && action[0] == 'u');
        assert("press_key"@[0] == 'p' && action[0] == 'u');
        assert("press_shortcut"@.len() == 14);
        assert("open_url"@.len() == 8);
        assert("open_app"@.len() == 8);
        assert("adjust_volume"@.len() == 13);
        assert("adjust_brightness"@.len() == 17);
        assert("power_action"@.len() == 12);
        assert("get_metrics"@.len() == 11);
    }
    if action == "open_url"@ {
        assert(action.len() == 8);
        assert("move_mouse"@.len() == 10);
        assert("click"@.len() == 5);
        assert("mouse_down"@.len() == 10);
        assert("mouse_up"@[0] == 'm' && action[0] == 'o');
        assert("scroll"@.len() == 6);
        assert("type_text"@.len() == 9);
        assert("press_key"@.len() == 9);
        assert("press_shortcut"@.len() == 14);
        assert("unlock_os"@.len() == 9);
        assert("open_app"@[5] == 'a' && action[5] == 'u');
        assert("adjust_volume"@.len() == 13);
        assert("adjust_brightness"@.len() == 17);
        assert("power_action"@.len() == 12);
        assert("get_metrics"@.len() == 11);
    }
    if action == "open_app"@ {
        assert(action.len() == 8);
        assert("move_mouse"@.len() == 10);
        assert("click"@.len() == 5);
        assert("mouse_down"@.len() == 10);
        assert("mouse_up"@[0] == 'm' && action[0] == 'o');
        assert("scroll"@.len() == 6);
        assert("type_text"@.len() == 9);
        assert("press_key"@.len() == 9);
        assert("press_shortcut"@.len() == 14);
        assert("unlock_os"@.len() == 9);
        assert("open_url"@[5] == 'u' && action[5] == 'a');
        assert("adjust_volume"@.len() == 13);
        assert("adjust_brightness"@.len() == 17);
        assert("power_action"@.len() == 12);
        assert("get_metrics"@.len() == 11);
    }
    if action == "adjust_volume"@ {
        assert(action.len() == 13);
        assert("move_mouse"@.len() == 10);
        assert("click"@.len() == 5);
        assert("mouse_down"@.len() == 10);
        assert("mouse_up"@.len() == 8);
        assert("scroll"@.len() == 6);
        assert("type_text"@.len() == 9);
        assert("press_key"@.len() == 9);
        assert("press_shortcut"@.len() == 14);
        assert("unlock_os"@.len() == 9);
        assert("open_url"@.len() == 8);
        assert("open_app"@.len() == 8);
        assert("adjust_brightness"@.len() == 17);
        assert("power_action"@.len() == 12);
        assert("get_metrics"@.len() == 11);
    }
    if action == "adjust_brightness"@ {
        assert(action.len() == 17);
        assert("move_mouse"@.len() == 10);
        assert("click"@.len() == 5);
        assert("mouse_down"@.len() == 10);
        assert("mouse_up"@.len() == 8);
        assert("scroll"@.len() == 6);
        assert("type_text"@.len() == 9);
        assert("press_key"@.len() == 9);
        assert("press_shortcut"@.len() == 14);
        assert("unlock_os"@.len() == 9);
        assert("open_url"@.len() == 8);
        assert("open_app"@.len() == 8);
        assert("adjust_volume"@.len() == 13);
        assert("power_action"@.len() == 12);
        assert("get_metrics"@.len() == 11);
    }
    if action == "power_action"@ {
        assert(action.len() == 12);
        assert("move_mouse"@.len() == 10);
        assert("click"@.len() == 5);
        assert("mouse_down"@.len() == 10);
        assert("mouse_up"@.len() == 8);
        assert("scroll"@.len() == 6);
        assert("type_text"@.len() == 9);
        assert("press_key"@.len() == 9);
        assert("press_shortcut"@.len() == 14);
        assert("unlock_os"@.len() == 9);
        assert("open_url"@.len() == 8);
        assert("open_app"@.len() == 8);
        assert("adjust_volume"@.len() == 13);
        assert("adjust_brightness"@.len() == 17);
        assert("get_metrics"@.len() == 11);
    }
    if action == "get_metrics"@ {
        assert(action.len() == 11);
        assert("move_mouse"@.len() == 10);
        assert("click"@.len() == 5);
        assert("mouse_down"@.len() == 10);
        assert("mouse_up"@.len() == 8);
        assert("scroll"@.len() == 6);
        assert("type_text"@.len() == 9);
        assert("press_key"@.len() == 9);
        assert("press_shortcut"@.len() == 14);
        assert("unlock_os"@.len() == 9);
        assert("open_url"@.len() == 8);
        assert("open_app"@.len() == 8);
        assert("adjust_volume"@.len() == 13);
        assert("adjust_brightness"@.len() == 17);
        assert("power_action"@.len() == 12);
    }
    assert("sleep"@.len() == 5 && "lock"@.len() == 4);
}

/// Opening a program whose path, in lowercase, mentions `cmd.exe`,
/// `powershell.exe`, `pwsh.exe`, `regedit.exe` or `format` is dangerous, and
/// so is opening a bare shell name (`cmd`, `command prompt`, `powershell`,
/// `pwsh`, trimmed and in any case).
pub proof fn lemma_blacklisted_programs_are_dangerous(params: Json, path: Seq<char>)
    requires
        get_str_spec(params, "path"@) == Some(path),
        text::contains_seq(text::lowercase(path), "cmd.exe"@) || text::contains_seq(
            text::lowercase(path),
            "powershell.exe"@,
        ) || text::contains_seq(text::lowercase(path), "pwsh.exe"@) || text::contains_seq(
            text::lowercase(path),
            "regedit.exe"@,
        ) || text::contains_seq(text::lowercase(path), "format"@) || text::lowercase(
            text::trim_seq(path),
        ) == "cmd"@ || text::lowercase(text::trim_seq(path)) == "command prompt"@
            || text::lowercase(text::trim_seq(path)) == "powershell"@ || text::lowercase(
            text::trim_seq(path),
        ) == "pwsh"@,
    ensures
        dangerous("open_app"@, params),
{
    reveal_strlit("open_app");
    reveal_strlit("power_action");
    reveal_strlit("run_script");
    reveal_strlit("terminal_command");
    reveal_strlit("delete_file");
    reveal_strlit("format_drive");
    assert("open_app"@.len() == 8 && "power_action"@.len() == 12 && "run_script"@.len() == 10);
    assert("terminal_command"@.len() == 16 && "delete_file"@.len() == 11);
    assert("format_drive"@.len() == 12 && "format_drive"@[0] == 'f' && "power_action"@[0] == 'p');
}

/// Scripts, terminal commands, deletions and formatting are always
/// dangerous; a power action is dangerous exactly when it shuts down or
/// restarts or does not say what it does (lock and sleep are not); an
/// action outside these and `open_app` never is.
pub proof fn lemma_dangerous_actions(action: Seq<char>, params: Json)
    ensures
        (action == "run_script"@ || action == "terminal_command"@ || action == "delete_file"@
            || action == "format_drive"@) ==> dangerous(action, params),
        action == "power_action"@ ==> (dangerous(action, params) <==> (get_str_spec(
            params,
            "action"@,
        ) is None || get_str_spec(params, "action"@) == Some("shutdown"@) || get_str_spec(
            params,
            "action"@,
        ) == Some("restart"@))),
        (action == "power_action"@ && (get_str_spec(params, "action"@) == Some("lock"@)
            || get_str_spec(params, "action"@) == Some("sleep"@))) ==> !dangerous(action, params),
        (action != "power_action"@ && action != "run_script"@ && action != "terminal_command"@
            && action != "delete_file"@ && action != "format_drive"@ && action != "open_app"@)
            ==> !dangerous(action, params),
        (action == "open_app"@ && get_str_spec(params, "path"@) is None) ==> !dangerous(
            action,
            params,
        ),
{
    reveal_strlit("open_app");
    reveal_strlit("power_action");
    reveal_strlit("run_script");
    reveal_strlit("terminal_command");
    reveal_strlit("delete_file");
    reveal_strlit("format_drive");
    reveal_strlit("shutdown");
    reveal_strlit("restart");
    reveal_strlit("lock");
    reveal_strlit("sleep");
    assert("open_app"@.len() == 8 && "power_action"@.len() == 12 && "run_script"@.len() == 10);
    assert("terminal_command"@.len() == 16 && "delete_file"@.len() == 11);
    assert("format_drive"@.len() == 12 && "format_drive"@[0] == 'f' && "power_action"@[0] == 'p');
    assert("lock"@.len() == 4 && "sleep"@.len() == 5 && "shutdown"@.len() == 8 && "restart"@.len() == 7);
}

/// Without approval the host never shuts down or restarts, and never opens
/// a blacklisted program: the only power actions that run unapproved are
/// sleep and lock, and an application it opens unapproved is not
/// blacklisted.
pub proof fn lemma_unapproved_runs_are_harmless(intent: SystemIntent, a: ActionView)
    requires
        !dangerous(intent.action@, intent.params),
        safe_plan(intent.action@, intent.params) == Ok::<ActionView, Seq<char>>(a),
    ensures
        a matches ActionView::PowerAction(p) ==> (p == "sleep"@ || p == "lock"@),
        a matches ActionView::OpenApp(path) ==> !blacklisted_path(path),
        !(a is ApprovedPowerAction),
{
    reveal_strlit("open_app");
    reveal_strlit("power_action");
    reveal_strlit("run_script");
    reveal_strlit("terminal_command");
    reveal_strlit("delete_file");
    reveal_strlit("format_drive");
    if a is OpenApp {
        assert(intent.action@ == "open_app"@);
        assert(get_str_spec(intent.params, "path"@) == Some(a->OpenApp_0));
    }
}

/// An application opened without approval never resolves to a shell: the
/// launcher does not start `cmd` or `powershell` for a path that is not
/// blacklisted.
pub proof fn lemma_unapproved_launch_is_not_a_shell(path: Seq<char>)
    requires
        !blacklisted_path(path),
    ensures
        crate::automation::launch_plan_for(path) matches crate::automation::LaunchPlanView::Start(p)
            ==> p != "cmd"@ && p != "powershell"@,
{
    reveal_strlit("cmd");
    reveal_strlit("powershell");
    reveal_strlit("chrome");
    reveal_strlit("msedge");
    reveal_strlit("notepad");
    reveal_strlit("calc");
    reveal_strlit("mspaint");
    reveal_strlit("winword");
    reveal_strlit("excel");
    reveal_strlit("explorer");
    let name = text::lowercase(text::trim_seq(path));
    if crate::automation::launch_plan_for(path) is Start {
        let p = crate::automation::launch_plan_for(path)->Start_0;
        assert(crate::automation::known_program(name) == Some(p));
        assert(!shell_name(name));
        if p == "cmd"@ {
            assert(name == "cmd"@ || name == "command prompt"@);
        }
        if p == "powershell"@ {
            assert(name == "powershell"@);
        }
    }
}

/// Decides an intent the user has approved: it is never held again.
pub fn approved_decision(intent: &SystemIntent) -> (res: Decision)
    ensures
        match approved_plan(intent.action@, intent.params) {
            Ok(a) => res matches Decision::Run(r) && r@ == a,
            Err(e) => res matches Decision::Report(ExecutionResult::Failed(m)) && m@ == e,
        },
{
    match plan_approved_action(intent) {
        Ok(a) => Decision::Run(a),
        Err(e) => Decision::Report(ExecutionResult::Failed(e)),
    }
}

/// The message reported after an action ran.
pub open spec fn success_text(a: ActionView) -> Seq<char> {
    match a {
        ActionView::MoveMouse(_, _) => "Mouse moved"@,
        ActionView::Click(b) => "Clicked "@ + b,
        ActionView::MouseDown(b) => "Mouse button down: "@ + b,
        ActionView::MouseUp(b) => "Mouse button up: "@ + b,
        ActionView::Scroll(c, d) => "Scrolled "@ + text::int_decimal(c as int) + " "@ + d,
        ActionView::TypeText(_) => "Text typed"@,
        ActionView::PressKey(k) => "Pressed key: "@ + k,
        ActionView::PressShortcut(s) => "Shortcut executed: "@ + s,
        ActionView::UnlockOs(_) => "OS unlocked"@,
        ActionView::OpenUrl(u) => "Opened URL: "@ + u,
        ActionView::OpenApp(p) => "Launched: "@ + p,
        ActionView::AdjustVolume(l) => "Volume adjusted: "@ + l,
        ActionView::AdjustBrightness(l) => "Brightness adjusted to: "@ + text::nat_decimal(
            l as nat,
        ) + "%"@,
        ActionView::PowerAction(a) => "System action executed: "@ + a,
        ActionView::ApprovedPowerAction(a) => "Power operation executed: "@ + a,
        ActionView::GetMetrics => Seq::empty(),
    }
}

fn prefixed(prefix: &str, s: &String) -> (res: String)
    ensures
        res@ == prefix@ + s@,
{
    let r = concat_str(&chars_of(prefix), s.as_str());
    string_of(&r)
}

/// The message reported after an action ran (metrics report their own text).
pub fn success_message(a: &Action) -> (res: String)
    ensures
        res@ == success_text(a@),
{
    match a {
        Action::MoveMouse { .. } => "Mouse moved".to_string(),
        Action::Click(b) => prefixed("Clicked ", b),
        Action::MouseDown(b) => prefixed("Mouse button down: ", b),
        Action::MouseUp(b) => prefixed("Mouse button up: ", b),
        Action::Scroll { clicks, direction } => {
            let head = concat(&chars_of("Scrolled "), &i64_decimal(*clicks as i64));
            let head2 = concat_str(&head, " ");
            let full = concat_str(&head2, direction.as_str());
            string_of(&full)
        },
        Action::TypeText(_) => "Text typed".to_string(),
        Action::PressKey(k) => prefixed("Pressed key: ", k),
        Action::PressShortcut(s) => prefixed("Shortcut executed: ", s),
        Action::UnlockOs(_) => "OS unlocked".to_string(),
        Action::OpenUrl(u) => prefixed("Opened URL: ", u),
        Action::OpenApp(p) => prefixed("Launched: ", p),
        Action::AdjustVolume(l) => prefixed("Volume adjusted: ", l),
        Action::AdjustBrightness(l) => {
            let head = concat(&chars_of("Brightness adjusted to: "), &u64_decimal(*l as u64));
            let full = concat_str(&head, "%");
            string_of(&full)
        },
        Action::PowerAction(act) => prefixed("System action executed: ", act),
        Action::ApprovedPowerAction(act) => prefixed("Power operation executed: ", act),
        Action::GetMetrics => String::new(),
    }
}

/// The result reported once the host has carried out an action: `outcome` is
/// the host's error, or (for metrics) the metrics text.
pub fn complete_action(a: &Action, outcome: Result<String, String>) -> (res: ExecutionResult)
    ensures
        match outcome {
            Ok(payload) => match a@ {
                ActionView::GetMetrics => res@ == ExecutionResultView::Success(payload@),
                _ => res@ == ExecutionResultView::Success(success_text(a@)),
            },
            Err(e) => res@ == ExecutionResultView::Failed(e@),
        },
{
    match outcome {
        Ok(payload) => match a {
            Action::GetMetrics => ExecutionResult::Success(payload),
            _ => ExecutionResult::Success(success_message(a)),
        },
        Err(e) => ExecutionResult::Failed(e),
    }
}

/// The one-line summary of a result that is stored in the chat history.
pub open spec fn summary_text(r: ExecutionResultView) -> Seq<char> {
    match r {
        ExecutionResultView::Success(m) => "Executed: "@ + m,
        ExecutionResultView::PermissionRequired(a, d, t) =>
            "WARNING: Safe execution block. Approval required for action ["@ + a + "] ("@ + d
                + ") Token: "@ + t,
        ExecutionResultView::Failed(e) => "Execution failed: "@ + e,
    }
}

impl ExecutionResult {
    /// The one-line summary stored in the chat history.
    pub fn summary(&self) -> (res: String)
        ensures
            res@ == summary_text(self@),
    {
        match self {
            ExecutionResult::Success(m) => prefixed("Executed: ", m),
            ExecutionResult::PermissionRequired { action, details, token } => {
                let a = concat_str(
                    &chars_of("WARNING: Safe execution block. Approval required for action ["),
                    action.as_str(),
                );
                let b = concat_str(&a, "] (");
                let c = concat_str(&b, details.as_str());
                let d = concat_str(&c, ") Token: ");
                let e = concat_str(&d, token.as_str());
                string_of(&e)
            },
            ExecutionResult::Failed(e) => prefixed("Execution failed: ", e),
        }
    }
}

// ---------------------------------------------------------------------------
// Recognising intents in model replies
// ---------------------------------------------------------------------------

/// A parsed document carries an intent: it has a string `action`.
pub open spec fn has_intent(j: Json) -> bool {
    get_str_spec(j, "action"@) is Some
}

/// `i` is the intent a document carries: its action, and its `params` member,
/// or else all members but `action`.
pub open spec fn is_intent_of(i: SystemIntent, j: Json) -> bool {
    &&& get_str_spec(j, "action"@) == Some(i.action@)
    &&& match json_get(j, "params"@) {
        Some(p) => i.params == p,
        None => match j {
            Json::Object(f) => i.params matches Json::Object(g) && g@ == f@.remove(
                field_index(f@, "action"@)->0,
            ),
            _ => false,
        },
    }
}

/// The part of a text from its first `{` to its last `}`, when the first comes
/// before the last.
pub open spec fn brace_span(t: Seq<char>) -> Option<Seq<char>> {
    if exists|i: int, j: int|
        0 <= i < j < t.len() && t[i] == '{' && t[j] == '}' {
        let i = choose|i: int|
            0 <= i < t.len() && t[i] == '{' && forall|k: int| 0 <= k < i ==> t[k] != '{';
        let j = choose|j: int|
            0 <= j < t.len() && t[j] == '}' && forall|k: int| j < k < t.len() ==> t[k] != '}';
        if i < j {
            Some(t.subrange(i, j + 1))
        } else {
            None
        }
    } else {
        None
    }
}

fn intent_from_json(j: Json) -> (res: Option<SystemIntent>)
    ensures
        match res {
            Some(i) => has_intent(j) && is_intent_of(i, j),
            None => !has_intent(j),
        },
{
    let action = match j.get_str("action") {
        Some(a) => a.to_string(),
        None => return None,
    };
    match j {
        Json::Object(mut fields) => {
            let ghost f0 = fields@;
            match crate::json::find_member(&fields, "params") {
                Some(k) => {
                    let (_, p) = fields.remove(k);
                    Some(SystemIntent { action, params: p })
                },
                None => {
                    let ka = crate::json::find_member(&fields, "action");
                    match ka {
                        Some(k) => {
                            fields.remove(k);
                            Some(SystemIntent { action, params: Json::Object(fields) })
                        },
                        None => None,
                    }
                },
            }
        },
        _ => None,
    }
}

fn parse_intent(text: &Vec<char>) -> (res: Option<SystemIntent>)
    ensures
        match json_parse(text@) {
            Some(j) => match res {
                Some(i) => has_intent(j) && is_intent_of(i, j),
                None => !has_intent(j),
            },
            None => res is None,
        },
{
    let s = string_of(text);
    match parse_json(s.as_str()) {
        Some(j) => intent_from_json(j),
        None => None,
    }
}

/// Finds a system intent in a model reply: the whole (trimmed) reply as JSON,
/// or else the span from its first `{` to its last `}`.
pub fn extract_json_intent(input: &str) -> (res: Option<SystemIntent>)
    ensures
        ({
            let t = text::trim_seq(input@);
            match json_parse(t) {
                Some(j) if has_intent(j) => res matches Some(i) && is_intent_of(i, j),
                _ => match brace_span(t) {
                    Some(c) => match json_parse(c) {
                        Some(j) => match res {
                            Some(i) => has_intent(j) && is_intent_of(i, j),
                            None => !has_intent(j),
                        },
                        None => res is None,
                    },
                    None => res is None,
                },
            }
        }),
{
    let raw = chars_of(input);
    let t = trim(&raw);
    if let Some(intent) = parse_intent(&t) {
        return Some(intent);
    }
    let start = find_char(&t, '{');
    let end = rfind_char(&t, '}');
    proof {
        match (start, end) {
            (Some(s0), Some(e0)) => {
                if s0 < e0 {
                    assert(exists|i: int, j: int|
                        0 <= i < j < t@.len() && t@[i] == '{' && t@[j] == '}') by {
                        assert(0 <= s0 < e0 < t@.len() && t@[s0 as int] == '{' && t@[e0 as int]
                            == '}');
                    }
                }
            },
            _ => {},
        }
    }
    match (start, end) {
        (Some(s0), Some(e0)) => {
            if s0 < e0 {
                let candidate = slice_chars(&t, s0, e0 + 1);
                proof {
                    lemma_brace_span(t@, s0 as int, e0 as int);
                }
                parse_intent(&candidate)
            } else {
                proof {
                    lemma_brace_span_none(t@, s0 as int, e0 as int);
                }
                None
            }
        },
        _ => {
            proof {
                if exists|i: int, j: int|
                    0 <= i < j < t@.len() && t@[i] == '{' && t@[j] == '}' {
                    let (i, j) = choose|i: int, j: int|
                        0 <= i < j < t@.len() && t@[i] == '{' && t@[j] == '}';
                    assert(t@[i] == '{');
                    assert(t@[j] == '}');
                }
            }
            None
        },
    }
}

proof fn lemma_brace_span(t: Seq<char>, s0: int, e0: int)
    requires
        0 <= s0 < e0 < t.len(),
        t[s0] == '{',
        forall|k: int| 0 <= k < s0 ==> t[k] != '{',
        t[e0] == '}',
        forall|k: int| e0 < k < t.len() ==> t[k] != '}',
    ensures
        brace_span(t) == Some(t.subrange(s0, e0 + 1)),
{
    assert(0 <= s0 < e0 < t.len() && t[s0] == '{' && t[e0] == '}');
    let i = choose|i: int|
        0 <= i < t.len() && t[i] == '{' && forall|k: int| 0 <= k < i ==> t[k] != '{';
    let j = choose|j: int|
        0 <= j < t.len() && t[j] == '}' && forall|k: int| j < k < t.len() ==> t[k] != '}';
    if i < s0 {
        assert(t[i] != '{');
    }
    if i > s0 {
        assert(t[s0] != '{');
    }
    if j < e0 {
        assert(t[e0] != '}');
    }
    if j > e0 {
        assert(t[j] != '}');
    }
}

proof fn lemma_brace_span_none(t: Seq<char>, s0: int, e0: int)
    requires
        0 <= e0 <= s0 < t.len(),
        t[s0] == '{',
        forall|k: int| 0 <= k < s0 ==> t[k] != '{',
        t[e0] == '}',
        forall|k: int| e0 < k < t.len() ==> t[k] != '}',
    ensures
        brace_span(t) is None,
{
    if exists|i: int, j: int| 0 <= i < j < t.len() && t[i] == '{' && t[j] == '}' {
        let (a, b) = choose|i: int, j: int| 0 <= i < j < t.len() && t[i] == '{' && t[j] == '}';
        if a < s0 {
            assert(t[a] != '{');
        }
        if b > e0 {
            assert(t[b] != '}');
        }
        let i = choose|i: int|
            0 <= i < t.len() && t[i] == '{' && forall|k: int| 0 <= k < i ==> t[k] != '{';
        let j = choose|j: int|
            0 <= j < t.len() && t[j] == '}' && forall|k: int| j < k < t.len() ==> t[k] != '}';
        if i < s0 {
            assert(t[i] != '{');
        }
        if i > s0 {
            assert(t[s0] != '{');
        }
        if j < e0 {
            assert(t[e0] != '}');
        }
        if j > e0 {
            assert(t[j] != '}');
        }
    }
}

} // verus!
