use nr_cms::tags::get_tags;

#[test]
fn test_get_tags() {
    let test = "{{hello}} {{world}} {{outer {{inner}}}}";
    let tags = get_tags(test).unwrap();
    assert_eq!(tags.len(), 3);
    assert_eq!(tags[0], "hello");
    assert_eq!(tags[1], "world");
    assert_eq!(tags[2], "outer {{inner}}");

    let test = "{{hello}} {{there";
    let tags = get_tags(test);
    assert!(tags.is_none());
}

#[test]
fn extract_two_tags() {
    assert_eq!(get_tags("{{a}} {{b}}").unwrap(), vec!["a".to_string(), "b".to_string()]);
}

#[test]
fn extract_keeps_nested_markers() {
    assert_eq!(
        get_tags("{{outer {{inner}}}}").unwrap(),
        vec!["outer {{inner}}".to_string()]
    );
}

#[test]
fn extract_unterminated_fails() {
    assert!(get_tags("{{unterminated").is_none());
}

#[test]
fn extract_empty_and_plain_text() {
    assert_eq!(get_tags("").unwrap(), Vec::<String>::new());
    assert_eq!(get_tags("no tags here").unwrap(), Vec::<String>::new());
}

#[test]
fn extract_stray_close_then_open_balances() {
    // The counter goes to -1 and back to 0: balanced, but no body is emitted.
    assert_eq!(get_tags("}}{{").unwrap(), Vec::<String>::new());
    assert!(get_tags("}} {{a}}").is_none());
}

#[test]
fn extract_markers_do_not_overlap() {
    // "{{{" holds one opening marker; the third brace is body text.
    assert_eq!(get_tags("{{{x}}").unwrap(), vec!["{x".to_string()]);
    assert_eq!(get_tags("{{}}").unwrap(), vec!["".to_string()]);
}

#[test]
fn extract_non_ascii_body() {
    assert_eq!(get_tags("é{{Title|héllo}}ü").unwrap(), vec!["Title|héllo".to_string()]);
}
