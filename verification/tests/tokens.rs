use marion_supervisor::token::tokens_match;

#[test]
fn a_token_comparison_is_total_over_the_slice() {
    assert!(tokens_match("abc", "abc"));
    assert!(!tokens_match("abc", "abd"), "a differing last byte");
    assert!(!tokens_match("abc", "bbc"), "a differing first byte");
    assert!(!tokens_match("abc", "abcd"), "a longer candidate");
    assert!(!tokens_match("abcd", "abc"), "a shorter candidate");
    assert!(!tokens_match("", "x"));
}
