use umadev::bounded_text::{prefix_with_char_limit, trim_tail};

#[test]
fn prefix_never_splits_an_extended_grapheme() {
    assert_eq!(prefix_with_char_limit("ab👩‍💻cd", 4), "ab");
    assert_eq!(prefix_with_char_limit("ab👩‍💻cd", 5), "ab👩‍💻");
}

#[test]
fn tail_never_starts_inside_an_extended_grapheme() {
    let mut output = "ab👩‍💻cd".to_string();
    trim_tail(&mut output, 4);
    assert_eq!(output, "cd");
}

#[test]
fn short_text_is_left_alone() {
    assert_eq!(prefix_with_char_limit("abc", 3), "abc");
    assert_eq!(prefix_with_char_limit("abc", 0), "");
    let mut output = "abc".to_string();
    trim_tail(&mut output, 3);
    assert_eq!(output, "abc");
    trim_tail(&mut output, 0);
    assert_eq!(output, "");
}

#[test]
fn combining_marks_stay_with_their_base() {
    assert_eq!(prefix_with_char_limit("e\u{301}x", 1), "");
    assert_eq!(prefix_with_char_limit("e\u{301}x", 2), "e\u{301}");
    let mut output = "xe\u{301}".to_string();
    trim_tail(&mut output, 1);
    assert_eq!(output, "");
}
