use git_access::http::{http_follow_config, HTTP_OK, HTTP_REAUTH};

#[test]
fn result_codes() {
    assert_eq!(HTTP_OK, 0);
    assert_eq!(HTTP_REAUTH, 4);
}

#[test]
fn follow_policies_are_distinct() {
    assert_ne!(http_follow_config::HTTP_FOLLOW_NONE, http_follow_config::HTTP_FOLLOW_ALWAYS);
    assert_ne!(http_follow_config::HTTP_FOLLOW_ALWAYS, http_follow_config::HTTP_FOLLOW_INITIAL);
    assert_eq!(http_follow_config::HTTP_FOLLOW_INITIAL, http_follow_config::HTTP_FOLLOW_INITIAL);
}
