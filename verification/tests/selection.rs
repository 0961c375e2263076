use clipspeak::selection::Selection;

#[test]
fn selection_names() {
    assert_eq!(Selection::Primary.to_string(), "primary");
    assert_eq!(Selection::Secondary.to_string(), "secondary");
    assert_eq!(Selection::Clipboard.to_string(), "clipboard");
    assert_eq!(Selection::BufferCut.to_string(), "buffer-cut");
}

#[test]
fn selection_equality_is_by_variant() {
    assert_eq!(Selection::Primary, Selection::Primary);
    assert_ne!(Selection::Primary, Selection::Clipboard);
}
