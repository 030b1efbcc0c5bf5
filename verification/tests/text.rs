use push_fanout::text::{chars_of, has_prefix, same_text};

#[test]
fn texts_are_the_same_character_by_character() {
    assert!(same_text("", ""));
    assert!(same_text("ok", "ok"));
    assert!(same_text("\u{e4}\u{1F600}", "\u{e4}\u{1F600}"));
    assert!(!same_text("ok", "o"));
    assert!(!same_text("o", "ok"));
    assert!(!same_text("ok", "oK"));
    assert!(!same_text("", "x"));
    assert!(!same_text("ab", "ba"));
}

#[test]
fn prefix_is_told_character_by_character() {
    let text = chars_of("mailto:a@b");
    assert_eq!(text.len(), 10);
    assert!(has_prefix(&text, &chars_of("")));
    assert!(has_prefix(&text, &chars_of("mailto:")));
    assert!(has_prefix(&text, &chars_of("mailto:a@b")));
    assert!(!has_prefix(&text, &chars_of("mailto:a@bc")));
    assert!(!has_prefix(&text, &chars_of("Mailto:")));
    assert!(!has_prefix(&text, &chars_of("ailto:")));
}
