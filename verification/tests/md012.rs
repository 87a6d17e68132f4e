use std::path::PathBuf;
use mdlint_rules::document::Document;
use mdlint_rules::md012::MD012;

fn create_test_document(content: &str) -> Document {
    Document::new(content.to_string(), PathBuf::from("test.md")).unwrap()
}

#[test]
fn test_md012_no_consecutive_blank_lines() {
    let content = "# Heading\n\nParagraph one.\n\nParagraph two.";
    let document = create_test_document(content);
    let rule = MD012::new();
    let violations = rule.check(&document);

    assert_eq!(violations.len(), 0);
}

#[test]
fn test_md012_two_consecutive_blank_lines() {
    let content = "# Heading\n\n\nParagraph.";
    let document = create_test_document(content);
    let rule = MD012::new();
    let violations = rule.check(&document);

    assert_eq!(violations.len(), 1);
    assert_eq!(violations[0].rule_id, "MD012");
    assert_eq!(violations[0].line, 3); // The second blank line
    assert!(violations[0].message.contains("2 found, 1 allowed"));
}

#[test]
fn test_md012_three_consecutive_blank_lines() {
    let content = "# Heading\n\n\n\nParagraph.";
    let document = create_test_document(content);
    let rule = MD012::new();
    let violations = rule.check(&document);

    assert_eq!(violations.len(), 1);
    assert_eq!(violations[0].line, 3); // First violating line
    assert!(violations[0].message.contains("3 found, 1 allowed"));
}

#[test]
fn test_md012_multiple_violations() {
    let content = "# Heading\n\n\nParagraph.\n\n\n\nAnother paragraph.";
    let document = create_test_document(content);
    let rule = MD012::new();
    let violations = rule.check(&document);

    assert_eq!(violations.len(), 2);
    assert_eq!(violations[0].line, 3);
    assert_eq!(violations[1].line, 6);
}

#[test]
fn test_md012_custom_maximum() {
    let content = "# Heading\n\n\nParagraph.";
    let document = create_test_document(content);
    let rule = MD012::with_maximum(2);
    let violations = rule.check(&document);

    // Should allow 2 consecutive blank lines
    assert_eq!(violations.len(), 0);
}

#[test]
fn test_md012_custom_maximum_violation() {
    let content = "# Heading\n\n\n\nParagraph.";
    let document = create_test_document(content);
    let rule = MD012::with_maximum(2);
    let violations = rule.check(&document);

    assert_eq!(violations.len(), 1);
    assert!(violations[0].message.contains("3 found, 2 allowed"));
}

#[test]
fn test_md012_blank_lines_at_end() {
    let content = "# Heading\n\nParagraph.\n\n\n";
    let document = create_test_document(content);
    let rule = MD012::new();
    let violations = rule.check(&document);

    assert_eq!(violations.len(), 1);
    assert!(violations[0].message.contains("at end of file"));
}

#[test]
fn test_md012_zero_maximum() {
    let content = "# Heading\n\nParagraph.";
    let document = create_test_document(content);
    let rule = MD012::with_maximum(0);
    let violations = rule.check(&document);

    assert_eq!(violations.len(), 1);
    assert!(violations[0].message.contains("1 found, 0 allowed"));
}

#[test]
fn test_md012_only_blank_lines() {
    let content = "\n\n\n";
    let document = create_test_document(content);
    let rule = MD012::new();
    let violations = rule.check(&document);

    assert_eq!(violations.len(), 1);
    assert!(violations[0].message.contains("at end of file"));
}
