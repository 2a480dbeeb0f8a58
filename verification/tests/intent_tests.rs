use avatar_core::intent::{extract_json_intent, is_dangerous, dispatch_decision, approved_decision, plan_safe_action, Decision, ExecutionResult, SystemIntent, Action, complete_action, success_message};
use avatar_core::json::Json;

fn obj(fields: Vec<(&str, Json)>) -> Json {
    Json::Object(fields.into_iter().map(|(k, v)| (k.to_string(), v)).collect())
}

fn s(v: &str) -> Json {
    Json::Str(v.to_string())
}

fn intent(action: &str, params: Json) -> SystemIntent {
    SystemIntent { action: action.to_string(), params }
}

#[test]
fn test_extract_json_intent() {
    // Direct parse
    let raw_json = r#"{"action":"open_app","params":{"path":"notepad"}}"#;
    let res = extract_json_intent(raw_json).unwrap();
    assert_eq!(res.action, "open_app");
    assert_eq!(res.params.get_str("path"), Some("notepad"));

    // Markdown code blocks
    let md_wrapped = r#"```json
        {"action":"open_app","params":{"path":"chrome"}}
        ```"#;
    let res = extract_json_intent(md_wrapped).unwrap();
    assert_eq!(res.action, "open_app");
    assert_eq!(res.params.get_str("path"), Some("chrome"));

    // Conversational wrapper
    let conversational = r#"Sure! I will open calculator for you: {"action": "open_app", "params": {"path": "calc"}} Hope that helps!"#;
    let res = extract_json_intent(conversational).unwrap();
    assert_eq!(res.action, "open_app");
    assert_eq!(res.params.get_str("path"), Some("calc"));

    // Flat format direct parse
    let flat_json = r#"{"action":"open_app","path":"thonny"}"#;
    let res = extract_json_intent(flat_json).unwrap();
    assert_eq!(res.action, "open_app");
    assert_eq!(res.params.get_str("path"), Some("thonny"));

    // Flat format url redirect check
    let flat_url = r#"{"action":"open_url","url":"youtube.com"}"#;
    let res = extract_json_intent(flat_url).unwrap();
    assert_eq!(res.action, "open_url");
    assert_eq!(res.params.get_str("url"), Some("youtube.com"));

    // Invalid JSON
    assert!(extract_json_intent("hello world").is_none());
    assert!(extract_json_intent(r#"{"action": "open_app", "#).is_none());
}

#[test]
fn dangerous_intents_are_held_for_approval() {
    let shutdown = intent("power_action", obj(vec![("action", s("shutdown"))]));
    assert!(is_dangerous(&shutdown));
    match dispatch_decision(&shutdown) {
        Decision::Report(ExecutionResult::PermissionRequired { action, details, token }) => {
            assert_eq!(action, "power_action");
            assert_eq!(details, r#"Action: power_action, Params: {"action":"shutdown"}"#);
            assert_eq!(token.len(), 36);
        }
        other => panic!("unexpected decision {:?}", other),
    }
    let lock = intent("power_action", obj(vec![("action", s("lock"))]));
    assert!(!is_dangerous(&lock));
    let cmd = intent("open_app", obj(vec![("path", s("cmd.exe"))]));
    assert!(is_dangerous(&cmd));
    let notepad = intent("open_app", obj(vec![("path", s("notepad"))]));
    assert!(!is_dangerous(&notepad));
}

#[test]
fn approved_intents_run_without_approval() {
    let shutdown = intent("power_action", obj(vec![("action", s("shutdown"))]));
    match approved_decision(&shutdown) {
        Decision::Run(_) => {}
        other => panic!("unexpected decision {:?}", other),
    }
}

#[test]
fn safe_plan_reports_missing_parameters() {
    let r = plan_safe_action(&intent("open_app", obj(vec![])));
    assert!(r.is_err());
    let unknown = plan_safe_action(&intent("dance", obj(vec![])));
    assert!(unknown.is_err());
}

#[test]
fn execution_result_summary() {
    let ok = ExecutionResult::Success("done".to_string());
    assert_eq!(ok.summary(), "Executed: done");
    let failed = ExecutionResult::Failed("boom".to_string());
    assert_eq!(failed.summary(), "Execution failed: boom");
    let held = ExecutionResult::PermissionRequired {
        action: "a".to_string(),
        details: "d".to_string(),
        token: "t".to_string(),
    };
    assert_eq!(
        held.summary(),
        "WARNING: Safe execution block. Approval required for action [a] (d) Token: t"
    );
}

#[test]
fn bare_shell_names_are_held_for_approval() {
    for name in ["powershell", "cmd", "Command Prompt", " PowerShell ", "pwsh", "C:\\Program Files\\PowerShell\\7\\pwsh.exe", "regedit.exe"] {
        let shell = intent("open_app", obj(vec![("path", s(name))]));
        assert!(is_dangerous(&shell), "{}", name);
        match dispatch_decision(&shell) {
            Decision::Report(ExecutionResult::PermissionRequired { action, .. }) => assert_eq!(action, "open_app"),
            other => panic!("unexpected decision {:?}", other),
        }
    }
    let calc = intent("open_app", obj(vec![("path", s("calc"))]));
    assert!(!is_dangerous(&calc));
    let regedit = intent("open_app", obj(vec![("path", s("regedit"))]));
    assert!(!is_dangerous(&regedit));
}
