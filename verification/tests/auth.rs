use base64::Engine;
use ekokube::server::api::auth::{guard_decision, is_open_path, AuthDecision, BasicAuth};

fn header_for(user: &str, pass: &str) -> String {
    let enc = base64::engine::general_purpose::STANDARD.encode(format!("{user}:{pass}"));
    format!("Basic {enc}")
}

#[test]
fn disabled_when_no_username() {
    assert!(BasicAuth::from_config("", "x").is_none());
    assert!(BasicAuth::from_config("admin", "x").is_some());
}

#[test]
fn matches_correct_credentials() {
    let auth = BasicAuth::from_config("admin", "s3cret").unwrap();
    assert!(auth.matches(&header_for("admin", "s3cret")));
    assert!(!auth.matches(&header_for("admin", "wrong")));
    assert!(!auth.matches(&header_for("root", "s3cret")));
    assert!(!auth.matches("Bearer token"));
    assert!(!auth.matches("Basic not-base64!!"));
}

#[test]
fn credentials_split_at_first_colon_and_trim() {
    let auth = BasicAuth::from_config("admin", "a:b").unwrap();
    assert!(auth.matches(&header_for("admin", "a:b")));
    assert!(auth.matches(&format!("{}  ", header_for("admin", "a:b"))));
    let no_colon = base64::engine::general_purpose::STANDARD.encode("adminab");
    assert!(!auth.matches(&format!("Basic {no_colon}")));
    assert!(auth.matches_decoded(b"admin:a:b".to_vec()));
    assert!(!auth.matches_decoded(vec![0xff, b':']));
}

#[test]
fn guard_lets_probes_through() {
    let auth = BasicAuth::from_config("admin", "pw");
    assert!(is_open_path("/metrics"));
    assert_eq!(guard_decision(&auth, "/api/health", None), AuthDecision::Pass);
    assert_eq!(guard_decision(&auth, "/api/nodes", None), AuthDecision::Challenge);
    assert_eq!(
        guard_decision(&auth, "/api/nodes", Some(&header_for("admin", "pw"))),
        AuthDecision::Pass
    );
    assert_eq!(guard_decision(&None, "/api/nodes", None), AuthDecision::Pass);
}
