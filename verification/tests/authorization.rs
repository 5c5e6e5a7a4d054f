use basecamp::client::{authorization_value, bearer_token};
use basecamp::redirect::{code_and_state, find_query_value, read_redirect, request_target, RedirectError};

#[test]
fn bearer_token_prefixes_the_secret() {
    assert_eq!(bearer_token("abc123"), "Bearer abc123");
    assert_eq!(bearer_token(""), "Bearer ");
}

#[test]
fn authorization_header_holds_bearer_token() {
    let value = authorization_value("abc123").unwrap();
    assert_eq!(value.as_bytes(), b"Bearer abc123");
}

#[test]
fn authorization_header_refuses_control_characters() {
    assert!(authorization_value("abc\n123").is_err());
    assert!(authorization_value("abc\u{7f}").is_err());
    assert!(authorization_value("\u{0}").is_err());
}

#[test]
fn authorization_header_allows_tab_and_non_ascii() {
    assert!(authorization_value("a\tb").is_ok());
    assert!(authorization_value("é").is_ok());
}

#[test]
fn request_target_is_second_word() {
    assert_eq!(request_target("GET /?code=a&state=b HTTP/1.1\r\n"), Some("/?code=a&state=b"));
    assert_eq!(request_target("  GET\t\t/x  "), Some("/x"));
    assert_eq!(request_target("GET\u{3000}/y"), Some("/y"));
    assert_eq!(request_target("GET"), None);
    assert_eq!(request_target("GET   "), None);
    assert_eq!(request_target(""), None);
}

#[test]
fn reads_code_and_state_of_redirect() {
    let line = "GET /?code=4f2a9&state=Xy_1-z HTTP/1.1\r\n";
    assert_eq!(read_redirect(line), Ok(("4f2a9".to_string(), "Xy_1-z".to_string())));
}

#[test]
fn redirect_values_are_decoded() {
    let line = "GET /callback?state=a%2Fb+c&code=x%20y&code=second HTTP/1.1";
    assert_eq!(read_redirect(line), Ok(("x y".to_string(), "a/b c".to_string())));
}

#[test]
fn redirect_without_code_or_state() {
    assert_eq!(read_redirect("GET /?state=s HTTP/1.1"), Err(RedirectError::NoCode));
    assert_eq!(read_redirect("GET / HTTP/1.1"), Err(RedirectError::NoCode));
    assert_eq!(read_redirect("GET /?code=c HTTP/1.1"), Err(RedirectError::NoState));
    assert_eq!(read_redirect("GET"), Err(RedirectError::NoRequestTarget));
}

#[test]
fn redirect_target_must_make_an_address() {
    assert_eq!(read_redirect("GET :99999 HTTP/1.1"), Err(RedirectError::InvalidAddress));
}

#[test]
fn first_pair_with_a_name_counts() {
    let pairs = vec![
        ("state".to_string(), "one".to_string()),
        ("code".to_string(), "c".to_string()),
        ("state".to_string(), "two".to_string()),
    ];
    assert_eq!(find_query_value(&pairs, "state"), Some("one".to_string()));
    assert_eq!(find_query_value(&pairs, "other"), None);
    assert_eq!(code_and_state(&Some(pairs)), Ok(("c".to_string(), "one".to_string())));
    assert_eq!(code_and_state(&None), Err(RedirectError::InvalidAddress));
}
