use avatar_core::automation::{plan_launch_app, LaunchPlan};

#[test]
fn test_launch_app_url_redirection() {
    // Each of these requests resolves to opening a URL, which cannot fail to plan.
    let res = plan_launch_app("https://www.youtube.com");
    assert!(matches!(res, LaunchPlan::OpenUrl(_)));

    let res = plan_launch_app("youtube");
    assert!(matches!(res, LaunchPlan::OpenUrl(_)));

    let res = plan_launch_app("youtube.com");
    assert!(matches!(res, LaunchPlan::OpenUrl(_)));
}

#[test]
fn launch_plans_resolve_urls_and_programs() {
    assert_eq!(plan_launch_app("https://www.youtube.com"), LaunchPlan::OpenUrl("https://www.youtube.com".to_string()));
    assert_eq!(plan_launch_app("youtube"), LaunchPlan::OpenUrl("https://www.youtube.com".to_string()));
    assert_eq!(plan_launch_app("youtube.com"), LaunchPlan::OpenUrl("https://youtube.com".to_string()));
    assert_eq!(plan_launch_app("Calculator"), LaunchPlan::Start("calc".to_string()));
    assert_eq!(plan_launch_app("gmail"), LaunchPlan::OpenUrl("https://mail.google.com".to_string()));
    assert_eq!(plan_launch_app("setup.exe"), LaunchPlan::SearchThenStart { query: "setup.exe".to_string(), fallback: "setup.exe".to_string() });
}
