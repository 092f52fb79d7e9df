use mailroom::cleanup::{clean, parse_phrases};

#[test]
fn strips_a_configured_phrase_case_insensitively() {
    let phrases = vec!["(z-lib.org)".to_string()];
    assert_eq!(clean("American Sour Beers (Z-Lib.org)", &phrases), "American Sour Beers");
}

#[test]
fn strips_multiple_phrases_in_one_pass() {
    let phrases = vec!["[EPUB]".to_string(), "(Kindle Edition)".to_string()];
    assert_eq!(clean("My Book [EPUB] (Kindle Edition)", &phrases), "My Book");
}

#[test]
fn collapses_debris_left_by_a_mid_string_removal() {
    let phrases = vec!["-- Retail".to_string()];
    assert_eq!(clean("My Book -- Retail Edition", &phrases), "My Book Edition");
}

#[test]
fn no_matching_phrases_leaves_title_unchanged() {
    let phrases = vec!["(z-lib.org)".to_string()];
    assert_eq!(clean("A Perfectly Clean Title", &phrases), "A Perfectly Clean Title");
}

#[test]
fn empty_phrase_list_is_a_no_op() {
    assert_eq!(clean("Untouched Title", &[]), "Untouched Title");
}

#[test]
fn cleaned_title_has_no_doubled_or_edge_separators() {
    let phrases = vec!["junk".to_string()];
    let r = clean("__My...Title--junk-- ", &phrases);
    assert_eq!(r, "My.Title");
}

#[test]
fn every_occurrence_of_a_phrase_is_removed() {
    let phrases = vec!["x".to_string()];
    assert_eq!(clean("aXbxc", &phrases), "abc");
}

#[test]
fn empty_phrase_is_skipped() {
    let phrases = vec![String::new()];
    assert_eq!(clean("Same", &phrases), "Same");
}

#[test]
fn phrase_file_keeps_trimmed_non_comment_lines() {
    let text = "# junk to strip\n  (z-lib.org)  \n\n[EPUB]\n#not this\n";
    assert_eq!(parse_phrases(text), vec!["(z-lib.org)".to_string(), "[EPUB]".to_string()]);
    assert!(parse_phrases("").is_empty());
}
