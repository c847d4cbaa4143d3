use recopied::pattern::{chars_of, like_match, text_matches};

fn v(s: &str) -> Vec<char> {
    s.chars().collect()
}

#[test]
fn like_patterns() {
    assert!(like_match(&v("abc"), &v("abc")));
    assert!(like_match(&v("ABC"), &v("abc")));
    assert!(like_match(&v("abc"), &v("a%")));
    assert!(like_match(&v("abc"), &v("_b_")));
    assert!(!like_match(&v("abc"), &v("ab")));
    assert!(!like_match(&v("ab"), &v("a_c")));
    assert!(like_match(&v(""), &v("%")));
    assert!(like_match(&v(""), &v("")));
    assert!(!like_match(&v("a"), &v("")));
    assert!(like_match(&v("xaybz"), &v("%a%b%")));
}

#[test]
fn text_matches_wraps_query_in_percent() {
    assert!(text_matches("Some Text here", &v("TEXT")));
    assert!(!text_matches("Some Text here", &v("texts")));
    assert_eq!(chars_of("héllo"), v("héllo"));
}
