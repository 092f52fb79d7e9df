use mailroom::slug::slugify;

#[test]
fn spaces_become_hyphens() {
    assert_eq!(slugify("Test Book One"), "Test-Book-One");
}

#[test]
fn colons_and_commas_are_stripped_not_kept() {
    assert_eq!(
        slugify("Frankenstein: Or, The Modern Prometheus"),
        "Frankenstein-Or-The-Modern-Prometheus"
    );
}

#[test]
fn repeated_whitespace_collapses_to_one_hyphen() {
    assert_eq!(slugify("Too   Many    Spaces"), "Too-Many-Spaces");
}

#[test]
fn trailing_punctuation_does_not_leave_a_dangling_hyphen() {
    assert_eq!(slugify("Trailing Comma,"), "Trailing-Comma");
}

#[test]
fn empty_input_does_not_panic() {
    assert_eq!(slugify(""), "");
}

#[test]
fn slug_drops_every_character_invalid_on_common_filesystems() {
    assert_eq!(slugify("a/b\\c:d*e?f\"g<h>i|j"), "abcdefghij");
}

#[test]
fn slug_of_a_slug_is_the_same_slug() {
    let once = slugify("  The  Road: A Novel , Part 2  ");
    assert_eq!(once, "The-Road-A-Novel-Part-2");
    assert_eq!(slugify(&once), once);
}

#[test]
fn slug_trims_leading_separators() {
    assert_eq!(slugify(", , Lead"), "Lead");
    assert_eq!(slugify("\tTabbed\nLines"), "Tabbed-Lines");
}
