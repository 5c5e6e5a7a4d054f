use basecamp::link::{extract_link_header, has_link_target};

fn target(value: &str) -> Option<&str> {
    if has_link_target(value) {
        Some(extract_link_header(value))
    } else {
        None
    }
}

#[test]
fn reads_next_page_of_basecamp_link() {
    let value = "<https://3.basecampapi.com/195539477/buckets/2085958499/questions/1069479400/answers.json?page=2>; rel=\"next\"";
    assert_eq!(
        target(value),
        Some("https://3.basecampapi.com/195539477/buckets/2085958499/questions/1069479400/answers.json?page=2")
    );
}

#[test]
fn reads_target_without_parameters() {
    assert_eq!(target("<https://example.com/a>"), Some("https://example.com/a"));
}

#[test]
fn empty_brackets_give_empty_target() {
    assert_eq!(target("<>; rel=\"next\""), Some(""));
}

#[test]
fn only_first_segment_counts() {
    assert_eq!(target("<a>;<b>"), Some("a"));
    assert_eq!(target("<a>;"), Some("a"));
}

#[test]
fn tab_is_allowed_inside() {
    assert_eq!(target("<a\tb>"), Some("a\tb"));
}

#[test]
fn empty_value_has_no_target() {
    assert_eq!(target(""), None);
}

#[test]
fn first_segment_must_be_in_brackets() {
    assert_eq!(target("https://example.com/a; rel=\"next\""), None);
    assert_eq!(target("<https://example.com/a; rel=\"next\""), None);
    assert_eq!(target("https://example.com/a>"), None);
    assert_eq!(target("<"), None);
    assert_eq!(target(">"), None);
    assert_eq!(target(";<a>"), None);
    assert_eq!(target(" <a>"), None);
}

#[test]
fn control_or_non_ascii_characters_give_no_target() {
    assert_eq!(target("<a>\u{7f}"), None);
    assert_eq!(target("<a>; rel=\"next\"\n"), None);
    assert_eq!(target("<https://example.com/é>"), None);
}

#[test]
fn target_written_in_brackets_reads_back() {
    let targets = ["https://example.com/answers.json?page=3", "", "x>y", "a b"];
    let params = ["", "; rel=\"next\"", ";"];
    for t in targets.iter() {
        for p in params.iter() {
            let value = format!("<{}>{}", t, p);
            assert_eq!(target(&value), Some(*t));
        }
    }
}

#[test]
fn extracts_when_a_target_is_named() {
    let value = "<https://b/a2>; rel=\"next\"";
    assert!(has_link_target(value));
    assert_eq!(extract_link_header(value), "https://b/a2");
}

#[test]
fn space_before_semicolon_names_no_target() {
    assert!(!has_link_target("<https://b/a2> ; rel=\"next\""));
}
