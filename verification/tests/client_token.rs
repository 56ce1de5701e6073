use acb::client::{is_our_daemon, token_from_text};

#[test]
fn token_is_first_line_trimmed() {
    assert_eq!(token_from_text("abc123\n"), Some("abc123".to_string()));
    assert_eq!(token_from_text("  tok  \r\nsecond\n"), Some("tok".to_string()));
    assert_eq!(token_from_text("only"), Some("only".to_string()));
    // A blank first line gives an empty token, an empty file none.
    assert_eq!(token_from_text("\nnext"), Some(String::new()));
    assert_eq!(token_from_text(""), None);
}

#[test]
fn health_marker_identifies_the_daemon() {
    assert!(is_our_daemon(true, &Some(b"1".to_vec())));
    assert!(!is_our_daemon(false, &Some(b"1".to_vec())));
    assert!(!is_our_daemon(true, &Some(b"2".to_vec())));
    assert!(!is_our_daemon(true, &Some(b"11".to_vec())));
    assert!(!is_our_daemon(true, &None));
}
