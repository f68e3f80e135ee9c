//! Who may call the routes, and the settings of the service.

use ryu_dashboards::access::{admits, ext_token, listen_port, DEFAULT_PORT};

#[test]
fn require_ext_token_fail_closed_and_bearer_match() {
    // Without a secret everything is rejected.
    assert!(!admits(Some("Bearer anything"), &None));
    assert!(!admits(Some("Bearer "), &Some(String::new())));
    let secret = Some("s3cret".to_string());
    assert!(!admits(Some("Bearer nope"), &secret));
    assert!(!admits(None, &secret));
    assert!(admits(Some("Bearer s3cret"), &secret));
    assert!(!admits(Some("s3cret"), &secret));
    assert!(!admits(Some("Bearer s3cret "), &secret));
}

#[test]
fn the_port_comes_from_the_environment() {
    assert_eq!(listen_port(None), DEFAULT_PORT);
    assert_eq!(listen_port(Some(" 8001\n")), 8001);
    assert_eq!(listen_port(Some("65536")), 7997);
    assert_eq!(listen_port(Some("")), 7997);
    assert_eq!(listen_port(Some("-1")), 7997);
}

#[test]
fn the_secret_is_trimmed_and_never_blank() {
    assert_eq!(ext_token(Some(" t ")), Some("t".to_string()));
    assert_eq!(ext_token(Some("  ")), None);
    assert_eq!(ext_token(None), None);
}
