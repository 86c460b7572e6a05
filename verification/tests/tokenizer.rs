use anolisa::tokenizer::{count_chars, estimate_tokens, estimate_tokens_from_bytes, Tokenizer};

#[test]
fn empty_string() {
    assert_eq!(estimate_tokens(""), 0);
    assert_eq!(estimate_tokens_from_bytes(0), 0);
    assert_eq!(count_chars(""), 0);
}

#[test]
fn ascii_text() {
    // 11 chars / 4 = 3 tokens
    assert_eq!(estimate_tokens("hello world"), 3);
    assert_eq!(count_chars("hello world"), 11);
}

#[test]
fn cjk_text() {
    // 4 CJK chars / 4 = 1 token
    assert_eq!(estimate_tokens("你好世界"), 1);
    assert_eq!(count_chars("你好世界"), 4);
}

#[test]
fn emoji() {
    // 2 emoji chars / 4 = 1 token
    assert_eq!(estimate_tokens("🎉🎊"), 1);
    assert_eq!(count_chars("🎉🎊"), 2);
}

#[test]
fn mixed_text() {
    // ASCII + CJK mixed
    let text = "Hello你好";
    assert_eq!(count_chars(text), 7);
    assert_eq!(estimate_tokens(text), 2);
}

#[test]
fn byte_estimate_vs_char_estimate() {
    // For ASCII, byte and char estimates should match
    let text = "abcdef";
    assert_eq!(estimate_tokens(text), estimate_tokens_from_bytes(text.len()));
}

#[test]
fn byte_estimate_is_never_below_the_char_estimate() {
    for text in ["", "a", "abcd", "abcde", "你好世界", "Hello你好", "🎉🎊"] {
        assert!(estimate_tokens_from_bytes(text.len()) >= estimate_tokens(text));
    }
    assert_eq!(estimate_tokens_from_bytes("你好世界".len()), 3);
}

#[test]
fn byte_estimate_at_the_top_does_not_overflow() {
    assert_eq!(estimate_tokens_from_bytes(usize::MAX), usize::MAX / 4 + 1);
}

#[test]
fn tokenizer_object_agrees_with_the_functions() {
    let t = Tokenizer::new();
    assert_eq!(t.estimate_tokens("hello world"), 3);
    assert_eq!(t.count_chars("hello world"), 11);
    let d = Tokenizer::default();
    assert_eq!(d.estimate_tokens("abcde"), 2);
}
