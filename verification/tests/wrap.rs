use shrimp::wrap::wrap_text;

#[test]
fn words_wrap_to_the_width() {
    assert_eq!(wrap_text("the quick brown fox", 10), vec!["the quick ", "brown fox"]);
    assert_eq!(wrap_text("abcdefghij", 4), vec!["abcd", "efgh", "ij"]);
    assert_eq!(wrap_text("a\n\nb", 5), vec!["a", "", "b"]);
    for row in wrap_text("some longer text with words", 0) {
        assert!(row.chars().count() <= 1);
    }
}
