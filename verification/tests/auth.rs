use torii_indexing::auth::{bearer_token, digests_match, is_authorized};

#[test]
fn tokens_follow_the_bearer_scheme() {
    assert_eq!(bearer_token(Some(b"Bearer abc")), Some("abc".to_string()));
    assert_eq!(bearer_token(Some(b"Bearer ")), Some(String::new()));
    assert_eq!(bearer_token(Some(b"Bearer a\tb ~")), Some("a\tb ~".to_string()));
    assert_eq!(bearer_token(Some(b"bearer abc")), None);
    assert_eq!(bearer_token(Some(b"Bearer")), None);
    assert_eq!(bearer_token(Some(b"Basic abc")), None);
    assert_eq!(bearer_token(Some(b"")), None);
    assert_eq!(bearer_token(None), None);
}

#[test]
fn header_values_that_are_no_text_hold_no_token() {
    assert_eq!(bearer_token(Some(b"Bearer \xc3\xa9")), None);
    assert_eq!(bearer_token(Some(b"Bearer a\n")), None);
    assert_eq!(bearer_token(Some(b"Bearer \x7f")), None);
}

#[test]
fn only_the_whole_token_authorizes() {
    assert!(is_authorized(Some(b"Bearer secret"), "secret"));
    assert!(!is_authorized(Some(b"Bearer secre"), "secret"));
    assert!(!is_authorized(Some(b"Bearer secrets"), "secret"));
    assert!(!is_authorized(Some(b"secret"), "secret"));
    assert!(!is_authorized(None, "secret"));
    assert!(is_authorized(Some(b"Bearer "), ""));
    assert!(!is_authorized(None, ""));
}

#[test]
fn digests_are_compared_as_far_as_both_go() {
    assert!(digests_match(&[1, 2, 3], &[1, 2, 3]));
    assert!(!digests_match(&[1, 2, 3], &[1, 2, 4]));
    assert!(!digests_match(&[0], &[128]));
    assert!(digests_match(&[1, 2], &[1, 2, 9]));
    assert!(digests_match(&[], &[7]));
}
