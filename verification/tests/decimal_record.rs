use mailroom::decimal::DecimalService;

#[test]
fn test_parsing_logic() {
    let code = "13.4-A-SOIL";
    let record = DecimalService::parse_code(code, "test content", "Soil Project").unwrap();
    assert_eq!(record.depth, 3);
    assert_eq!(record.parent_code, Some("13.4-A".to_string()));
}

#[test]
fn test_top_level_parent() {
    let code = "13";
    let record = DecimalService::parse_code(code, "test", "Top").unwrap();
    assert_eq!(record.depth, 0);
    assert_eq!(record.parent_code, None);
}

#[test]
fn parsed_record_keeps_its_texts_and_starts_bare() {
    let record = DecimalService::parse_code("13.4", "body", "Title").unwrap();
    assert_eq!(record.code, "13.4");
    assert_eq!(record.title, "Title");
    assert_eq!(record.content, "body");
    assert_eq!(record.depth, 1);
    assert_eq!(record.parent_code, Some("13".to_string()));
    assert!(record.id.is_none());
    assert!(record.tags.is_empty());
    assert!(record.vector_id.is_none());
    assert!(record.external_context.is_empty());
}

#[test]
fn process_is_two_or_more_levels_deep() {
    let leaf = DecimalService::parse_code("13.4-A", "", "").unwrap();
    let branch = DecimalService::parse_code("13.4", "", "").unwrap();
    assert!(leaf.is_process());
    assert!(!branch.is_process());
}

#[test]
fn empty_code_is_top_level() {
    let record = DecimalService::parse_code("", "", "").unwrap();
    assert_eq!(record.depth, 0);
    assert_eq!(record.parent_code, None);
}
