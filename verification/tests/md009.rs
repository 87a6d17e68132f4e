use std::path::PathBuf;
use mdlint_rules::document::Document;
use mdlint_rules::md009::MD009;

fn create_test_document(content: &str) -> Document {
    Document::new(content.to_string(), PathBuf::from("test.md")).unwrap()
}

#[test]
fn test_md009_no_trailing_spaces() {
    let content = "# Heading\n\nNo trailing spaces here.\nAnother clean line.";
    let document = create_test_document(content);
    let rule = MD009::new();
    let violations = rule.check(&document);

    assert_eq!(violations.len(), 0);
}

#[test]
fn test_md009_single_trailing_space() {
    let content = "# Heading\n\nLine with single trailing space. \nClean line.";
    let document = create_test_document(content);
    let rule = MD009::new();
    let violations = rule.check(&document);

    assert_eq!(violations.len(), 1);
    assert_eq!(violations[0].rule_id, "MD009");
    assert_eq!(violations[0].line, 3);
    assert_eq!(violations[0].column, 33);
    assert!(violations[0].message.contains("1 trailing space"));
}

#[test]
fn test_md009_multiple_trailing_spaces() {
    let content = "# Heading\n\nLine with spaces.   \nAnother line.    ";
    let document = create_test_document(content);
    let rule = MD009::new();
    let violations = rule.check(&document);

    assert_eq!(violations.len(), 2);
    assert_eq!(violations[0].line, 3);
    assert!(violations[0].message.contains("3 trailing spaces"));
    assert_eq!(violations[1].line, 4);
    assert!(violations[1].message.contains("4 trailing spaces"));
}

#[test]
fn test_md009_trailing_tabs() {
    let content = "# Heading\n\nLine with trailing tab.\t\nClean line.";
    let document = create_test_document(content);
    let rule = MD009::new();
    let violations = rule.check(&document);

    assert_eq!(violations.len(), 1);
    assert_eq!(violations[0].line, 3);
    assert!(violations[0].message.contains("1 trailing space"));
}

#[test]
fn test_md009_line_break_spaces() {
    let content = "# Heading\n\nLine with two spaces for break.  \nNext line.";
    let document = create_test_document(content);
    let rule = MD009::new();
    let violations = rule.check(&document);

    // Should allow exactly 2 trailing spaces for line breaks
    assert_eq!(violations.len(), 0);
}

#[test]
fn test_md009_strict_mode() {
    let content = "# Heading\n\nLine with two spaces.  \nThree spaces.   ";
    let document = create_test_document(content);
    let rule = MD009::with_config(2, false, true);
    let violations = rule.check(&document);

    // In strict mode, no trailing spaces are allowed
    assert_eq!(violations.len(), 2);
}

#[test]
fn test_md009_code_block_ignored() {
    let content = "# Heading\n\n```rust\nlet x = 1;  \n```\n\nRegular line.   ";
    let document = create_test_document(content);
    let rule = MD009::new();
    let violations = rule.check(&document);

    // Should ignore trailing spaces in code blocks but catch them in regular text
    assert_eq!(violations.len(), 1);
    assert_eq!(violations[0].line, 7);
}

#[test]
fn test_md009_code_block_strict() {
    let content = "# Heading\n\n```rust\nlet x = 1;  \n```\n\nRegular line.   ";
    let document = create_test_document(content);
    let rule = MD009::with_config(2, false, true);
    let violations = rule.check(&document);

    // In strict mode, should catch trailing spaces everywhere
    assert_eq!(violations.len(), 2);
}

#[test]
fn test_md009_fix_single_trailing_space() {
    let content = "Line with trailing space ";
    let document = create_test_document(content);
    let rule = MD009::new();
    let violations = rule.check(&document);

    assert_eq!(violations.len(), 1);
    assert!(violations[0].fix.is_some());
    let fix = violations[0].fix.as_ref().unwrap();
    assert_eq!(
        fix.replacement.as_ref().unwrap(),
        "Line with trailing space\n"
    );
    assert_eq!(fix.description, "Remove 1 trailing space");
}

#[test]
fn test_md009_fix_multiple_trailing_spaces() {
    let content = "Line with spaces    ";
    let document = create_test_document(content);
    let rule = MD009::new();
    let violations = rule.check(&document);

    assert_eq!(violations.len(), 1);
    assert!(violations[0].fix.is_some());
    let fix = violations[0].fix.as_ref().unwrap();
    assert_eq!(fix.replacement.as_ref().unwrap(), "Line with spaces\n");
    assert_eq!(fix.description, "Remove 4 trailing spaces");
}

#[test]
fn test_md009_fix_trailing_tabs() {
    let content = "Line with tab\t";
    let document = create_test_document(content);
    let rule = MD009::new();
    let violations = rule.check(&document);

    assert_eq!(violations.len(), 1);
    assert!(violations[0].fix.is_some());
    let fix = violations[0].fix.as_ref().unwrap();
    assert_eq!(fix.replacement.as_ref().unwrap(), "Line with tab\n");
    assert_eq!(fix.description, "Remove 1 trailing space");
}

#[test]
fn test_md009_fix_mixed_trailing_whitespace() {
    let content = "Line with mixed \t  \t";
    let document = create_test_document(content);
    let rule = MD009::new();
    let violations = rule.check(&document);

    assert_eq!(violations.len(), 1);
    assert!(violations[0].fix.is_some());
    let fix = violations[0].fix.as_ref().unwrap();
    assert_eq!(fix.replacement.as_ref().unwrap(), "Line with mixed\n");
    assert_eq!(fix.description, "Remove 5 trailing spaces");
}

#[test]
fn test_md009_fix_preserves_line_content() {
    let content = "Important content with spaces   "; // 3 spaces to trigger violation
    let document = create_test_document(content);
    let rule = MD009::new();
    let violations = rule.check(&document);

    assert_eq!(violations.len(), 1);
    let fix = violations[0].fix.as_ref().unwrap();
    assert!(
        fix.replacement
            .as_ref()
            .unwrap()
            .starts_with("Important content with spaces")
    );
    assert!(!fix.replacement.as_ref().unwrap().contains("   \n"));
}

#[test]
fn test_md009_fix_position_accuracy() {
    let content = "Line with trailing spaces   ";
    let document = create_test_document(content);
    let rule = MD009::new();
    let violations = rule.check(&document);

    assert_eq!(violations.len(), 1);
    let fix = violations[0].fix.as_ref().unwrap();
    assert_eq!(fix.start.line, 1);
    assert_eq!(fix.start.column, 1);
    assert_eq!(fix.end.line, 1);
    assert_eq!(fix.end.column, content.len() + 1);
}

#[test]
fn test_md009_no_fix_for_allowed_line_breaks() {
    let content = "Line with two spaces for break  ";
    let document = create_test_document(content);
    let rule = MD009::new(); // Default allows 2 spaces for line breaks
    let violations = rule.check(&document);

    // Should not create violations for exactly 2 trailing spaces
    assert_eq!(violations.len(), 0);
}

#[test]
fn test_md009_fix_multiple_lines() {
    let content = "First line with space \nSecond line with tabs\t\nThird line with many     ";
    let document = create_test_document(content);
    let rule = MD009::new();
    let violations = rule.check(&document);

    assert_eq!(violations.len(), 3);

    // Check first line fix
    assert_eq!(violations[0].line, 1);
    assert_eq!(
        violations[0]
            .fix
            .as_ref()
            .unwrap()
            .replacement
            .as_ref()
            .unwrap(),
        "First line with space\n"
    );

    // Check second line fix
    assert_eq!(violations[1].line, 2);
    assert_eq!(
        violations[1]
            .fix
            .as_ref()
            .unwrap()
            .replacement
            .as_ref()
            .unwrap(),
        "Second line with tabs\n"
    );

    // Check third line fix
    assert_eq!(violations[2].line, 3);
    assert_eq!(
        violations[2]
            .fix
            .as_ref()
            .unwrap()
            .replacement
            .as_ref()
            .unwrap(),
        "Third line with many\n"
    );
}
