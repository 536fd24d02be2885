use todo_tracker::check_string_involve;
use todo_tracker::matching::split_tokens;

#[test]
fn empty_pattern_matches_any_candidate() {
    assert!(check_string_involve("", ""));
    assert!(check_string_involve("", "milk"));
    assert!(check_string_involve("", "a b c"));
}

#[test]
fn empty_candidate_matches_only_empty_pattern() {
    assert!(check_string_involve("", ""));
    assert!(!check_string_involve("a", ""));
    assert!(!check_string_involve("milk", ""));
}

#[test]
fn contiguous_substring_is_matched() {
    assert!(check_string_involve("mil", "milk"));
    assert!(check_string_involve("ilk", "milk"));
    assert!(check_string_involve("milk", "milk"));
}

#[test]
fn scattered_subsequence_is_matched() {
    assert!(check_string_involve("mlk", "milk"));
    assert!(check_string_involve("mk", "milk"));
    assert!(check_string_involve("wr", "write report"));
}

#[test]
fn out_of_order_characters_are_rejected() {
    assert!(!check_string_involve("km", "milk"));
    assert!(!check_string_involve("lim", "milk"));
}

#[test]
fn missing_characters_are_rejected() {
    assert!(!check_string_involve("xyz", "milk"));
    assert!(!check_string_involve("milks", "milk"));
}

#[test]
fn matching_is_case_sensitive() {
    assert!(!check_string_involve("MLK", "milk"));
    assert!(check_string_involve("M", "Milk"));
}

#[test]
fn split_tokens_splits_on_whitespace() {
    let toks = split_tokens("buy milk");
    assert_eq!(toks, vec!["buy".to_string(), "milk".to_string()]);
}

#[test]
fn split_tokens_handles_extra_whitespace() {
    let toks = split_tokens("  buy \t milk \n today  ");
    assert_eq!(
        toks,
        vec!["buy".to_string(), "milk".to_string(), "today".to_string()]
    );
}

#[test]
fn split_tokens_of_empty_or_blank_text_is_empty() {
    assert!(split_tokens("").is_empty());
    assert!(split_tokens(" \t\n ").is_empty());
}
