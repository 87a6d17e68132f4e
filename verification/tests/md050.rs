use std::path::PathBuf;
use mdlint_rules::document::Document;
use mdlint_rules::md050::MD050;
use mdlint_rules::md050::StrongStyle;

fn create_test_document(content: &str) -> Document {
    Document::new(content.to_string(), PathBuf::from("test.md")).unwrap()
}

#[test]
fn test_md050_consistent_asterisk_style() {
    let content = r#"This has **strong** and more **bold text** here.

Another paragraph with **more strong** text.
"#;

    let document = create_test_document(content);
    let rule = MD050::new();
    let violations = rule.check(&document);
    assert_eq!(violations.len(), 0);
}

#[test]
fn test_md050_consistent_underscore_style() {
    let content = r#"This has __strong__ and more __bold text__ here.

Another paragraph with __more strong__ text.
"#;

    let document = create_test_document(content);
    let rule = MD050::new();
    let violations = rule.check(&document);
    assert_eq!(violations.len(), 0);
}

#[test]
fn test_md050_mixed_styles_violation() {
    let content = r#"This has **strong** and more __bold text__ here.

Another paragraph with **more strong** text.
"#;

    let document = create_test_document(content);
    let rule = MD050::new();
    let violations = rule.check(&document);
    assert_eq!(violations.len(), 1);
    assert_eq!(violations[0].rule_id, "MD050");
    assert_eq!(violations[0].line, 1);
    assert!(
        violations[0]
            .message
            .contains("expected '**' but found '__'")
    );
}

#[test]
fn test_md050_preferred_asterisk_style() {
    let content = r#"This has __strong__ text.
"#;

    let document = create_test_document(content);
    let rule = MD050::with_style(StrongStyle::Asterisk);
    let violations = rule.check(&document);
    assert_eq!(violations.len(), 1);
    assert!(
        violations[0]
            .message
            .contains("expected '**' but found '__'")
    );
}

#[test]
fn test_md050_preferred_underscore_style() {
    let content = r#"This has **strong** text.
"#;

    let document = create_test_document(content);
    let rule = MD050::with_style(StrongStyle::Underscore);
    let violations = rule.check(&document);
    assert_eq!(violations.len(), 1);
    assert!(
        violations[0]
            .message
            .contains("expected '__' but found '**'")
    );
}

#[test]
fn test_md050_emphasis_ignored() {
    let content = r#"This has *italic text* and __strong text__.

More *italic* and __strong__ here.
"#;

    let document = create_test_document(content);
    let rule = MD050::new();
    let violations = rule.check(&document);
    assert_eq!(violations.len(), 0); // All strong uses __, should be consistent
}

#[test]
fn test_md050_mixed_emphasis_and_strong() {
    let content = r#"This has *italic* and **strong** and __also strong__.

More text here.
"#;

    let document = create_test_document(content);
    let rule = MD050::new();
    let violations = rule.check(&document);
    assert_eq!(violations.len(), 1);
    assert!(
        violations[0]
            .message
            .contains("expected '**' but found '__'")
    );
}

#[test]
fn test_md050_code_blocks_ignored() {
    let content = r#"This has **strong** text.

```
Code with **asterisks** and __underscores__ should be ignored.
```

This has __different style__ which should trigger violation.
"#;

    let document = create_test_document(content);
    let rule = MD050::new();
    let violations = rule.check(&document);
    assert_eq!(violations.len(), 1);
    assert_eq!(violations[0].line, 7);
}

#[test]
fn test_md050_inline_code_spans() {
    let content = r#"This has **strong** and `code with **asterisks**` text.

More **strong** text here.
"#;

    let document = create_test_document(content);
    let rule = MD050::new();
    let violations = rule.check(&document);
    // Code spans are not excluded by this rule (they're handled at line level)
    // but the strong emphasis should still be consistent
    assert_eq!(violations.len(), 0);
}

#[test]
fn test_md050_no_strong() {
    let content = r#"This document has no strong emphasis at all.

Just regular text with *italic* formatting.
"#;

    let document = create_test_document(content);
    let rule = MD050::new();
    let violations = rule.check(&document);
    assert_eq!(violations.len(), 0);
}

#[test]
fn test_md050_multiple_violations() {
    let content = r#"Start with **strong** text.

Then switch to __different style__.

Back to **original style**.

And __different again__.
"#;

    let document = create_test_document(content);
    let rule = MD050::new();
    let violations = rule.check(&document);
    assert_eq!(violations.len(), 2); // Line 3 and line 7 violations
    assert_eq!(violations[0].line, 3);
    assert_eq!(violations[1].line, 7);
}

#[test]
fn test_md050_unclosed_strong() {
    let content = r#"This has **unclosed strong and __closed strong__.

More text here.
"#;

    let document = create_test_document(content);
    let rule = MD050::new();
    let violations = rule.check(&document);
    // Only the properly closed strong should be checked
    assert_eq!(violations.len(), 0); // __closed strong__ is the only valid strong, so no violation
}

#[test]
fn test_md050_nested_formatting() {
    let content = r#"This has **strong with *nested italic* text**.

More __strong__ text.
"#;

    let document = create_test_document(content);
    let rule = MD050::new();
    let violations = rule.check(&document);
    assert_eq!(violations.len(), 1);
    assert!(
        violations[0]
            .message
            .contains("expected '**' but found '__'")
    );
}

#[test]
fn test_md050_fix_style() {
    let content = r#"This has **strong** text.

Then uses __different__ style.

Back to **original** again.
"#;

    let document = create_test_document(content);
    let rule = MD050::new();
    let violations = rule.check(&document);

    assert_eq!(violations.len(), 1);
    assert_eq!(violations[0].line, 3);
    assert!(violations[0].fix.is_some());

    let fix = violations[0].fix.as_ref().unwrap();
    assert_eq!(
        fix.description,
        "Change strong emphasis style from '__' to '**'"
    );
    assert_eq!(
        fix.replacement,
        Some("Then uses **different** style.\n".to_string())
    );
}

#[test]
fn test_md050_can_fix() {
    let rule = MD050::new();
    assert!(rule.can_fix());
}
