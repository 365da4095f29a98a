use locate918::text::{chars_of, find_substring, fold, fold_opt, text_matches_folded};

fn v(s: &str) -> Vec<char> {
    s.chars().collect()
}

#[test]
fn chars_of_splits_into_characters() {
    assert_eq!(chars_of("héllo"), vec!['h', 'é', 'l', 'l', 'o']);
    assert!(chars_of("").is_empty());
}

#[test]
fn substring_search() {
    assert!(find_substring(&v("jazz night"), &v("z n")));
    assert!(find_substring(&v("jazz"), &v("")));
    assert!(find_substring(&v("jazz"), &v("jazz")));
    assert!(!find_substring(&v("jaz"), &v("jazz")));
    assert!(!find_substring(&v("jazz night"), &v("Jazz")));
    assert!(find_substring(&v("aab"), &v("ab")));
}

#[test]
fn folding_lowers_case() {
    assert_eq!(fold("Jazz NIGHT"), "jazz night");
    assert_eq!(fold(""), "");
    assert_eq!(fold_opt(&Some("ÉTÉ".to_string())), Some("été".to_string()));
    assert_eq!(fold_opt(&None), None);
}

#[test]
fn folded_text_matching() {
    assert!(text_matches_folded("jazz", "jazz night", &None));
    assert!(text_matches_folded("live", "evening", &Some("live music".to_string())));
    assert!(!text_matches_folded("rock", "evening", &Some("live music".to_string())));
    assert!(!text_matches_folded("rock", "evening", &None));
}
