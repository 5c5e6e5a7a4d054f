use basecamp::response::{decimal_text, ok_response};
use basecamp::scopes::{split_scopes, split_text};

#[test]
fn splits_at_commas() {
    assert_eq!(split_text("read,write", ','), vec!["read".to_string(), "write".to_string()]);
}

#[test]
fn split_keeps_empty_pieces() {
    assert_eq!(split_text("", ','), vec![String::new()]);
    assert_eq!(
        split_text(",a,", ','),
        vec![String::new(), "a".to_string(), String::new()]
    );
    assert_eq!(split_text("a,,b", ','), vec!["a".to_string(), String::new(), "b".to_string()]);
}

#[test]
fn split_then_join_gives_text_back() {
    for s in ["", ",", "a", "a,b", ",a,,b,", "é,ü"].iter() {
        assert_eq!(split_text(s, ',').join(","), s.to_string());
    }
}

#[test]
fn scopes_are_split_and_flattened_in_order() {
    let scopes = vec!["read,write".to_string(), "public".to_string(), "a,".to_string()];
    assert_eq!(
        split_scopes(&scopes),
        vec![
            "read".to_string(),
            "write".to_string(),
            "public".to_string(),
            "a".to_string(),
            String::new()
        ]
    );
    assert_eq!(split_scopes(&Vec::new()), Vec::<String>::new());
}

#[test]
fn writes_numbers_in_decimal() {
    assert_eq!(decimal_text(0), "0");
    assert_eq!(decimal_text(7), "7");
    assert_eq!(decimal_text(10), "10");
    assert_eq!(decimal_text(1234567890), "1234567890");
    assert_eq!(decimal_text(usize::MAX), usize::MAX.to_string());
}

#[test]
fn response_to_the_browser() {
    assert_eq!(
        ok_response("Go back to your terminal :)"),
        "HTTP/1.1 200 OK\r\ncontent-length: 27\r\n\r\nGo back to your terminal :)"
    );
}

#[test]
fn response_length_counts_bytes() {
    assert_eq!(ok_response("é"), "HTTP/1.1 200 OK\r\ncontent-length: 2\r\n\r\né");
    assert_eq!(ok_response(""), "HTTP/1.1 200 OK\r\ncontent-length: 0\r\n\r\n");
}
