use website_checker::addresses::{is_address, select_addresses};

fn lines(v: &[&str]) -> Vec<String> {
    v.iter().map(|s| s.to_string()).collect()
}

#[test]
fn blank_lines_and_comments_are_skipped() {
    let input = lines(&[
        "  http://a.test  ",
        "",
        "# a comment",
        "   ",
        "\t# indented comment",
        "http://b.test",
        "http://a.test",
    ]);
    assert_eq!(select_addresses(&input), lines(&["http://a.test", "http://b.test", "http://a.test"]));
}

#[test]
fn empty_list_selects_nothing() {
    assert!(select_addresses(&Vec::new()).is_empty());
}

#[test]
fn hash_inside_a_line_is_kept() {
    let input = lines(&["http://a.test/#top"]);
    assert_eq!(select_addresses(&input), lines(&["http://a.test/#top"]));
}

#[test]
fn address_test_on_trimmed_lines() {
    assert!(is_address("http://a.test"));
    assert!(!is_address(""));
    assert!(!is_address("#x"));
    assert!(is_address(" #x"));
}
