use ddns_core::text::{chars_of, contains_text, same_text, split_text, without_repeats};

fn texts(v: &[&str]) -> Vec<String> {
    v.iter().map(|s| s.to_string()).collect()
}

#[test]
fn chars_of_keeps_every_character() {
    assert_eq!(chars_of("a.é"), vec!['a', '.', 'é']);
    assert_eq!(chars_of(""), Vec::<char>::new());
}

#[test]
fn split_cuts_at_every_separator() {
    assert_eq!(split_text("a.com,b.com", ','), texts(&["a.com", "b.com"]));
    assert_eq!(split_text("a,,b,", ','), texts(&["a", "", "b", ""]));
    assert_eq!(split_text(",", ','), texts(&["", ""]));
}

#[test]
fn split_of_text_without_separator_is_the_text() {
    assert_eq!(split_text("c.com", ','), texts(&["c.com"]));
    assert_eq!(split_text("", ','), texts(&[""]));
}

#[test]
fn split_counts_characters_not_bytes() {
    assert_eq!(split_text("é,ü", ','), texts(&["é", "ü"]));
}

#[test]
fn same_text_is_exact() {
    assert!(same_text("example.com", "example.com"));
    assert!(!same_text("example.com", "Example.com"));
    assert!(!same_text("example.com", "example.co"));
    assert!(same_text("", ""));
}

#[test]
fn contains_text_is_exact_membership() {
    let v = texts(&["a.com", "b.com"]);
    assert!(contains_text(&v, "b.com"));
    assert!(!contains_text(&v, "B.com"));
    assert!(!contains_text(&v, "x.b.com"));
    assert!(!contains_text(&Vec::new(), ""));
}

#[test]
fn without_repeats_keeps_first_occurrences() {
    assert_eq!(
        without_repeats(texts(&["a", "b", "a", "c", "b"])),
        texts(&["a", "b", "c"])
    );
    assert_eq!(without_repeats(Vec::new()), Vec::<String>::new());
}
