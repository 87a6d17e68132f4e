use std::path::PathBuf;
use mdlint_rules::document::Document;
use mdlint_rules::md049::MD049;
use mdlint_rules::md049::EmphasisStyle;

fn create_test_document(content: &str) -> Document {
    Document::new(content.to_string(), PathBuf::from("test.md")).unwrap()
}

#[test]
fn test_md049_consistent_asterisk_style() {
    let content = r#"This has *emphasis* and more *italic text* here.

Another paragraph with *more emphasis* text.
"#;

    let document = create_test_document(content);
    let rule = MD049::new();
    let violations = rule.check(&document);
    assert_eq!(violations.len(), 0);
}

#[test]
fn test_md049_consistent_underscore_style() {
    let content = r#"This has _emphasis_ and more _italic text_ here.

Another paragraph with _more emphasis_ text.
"#;

    let document = create_test_document(content);
    let rule = MD049::new();
    let violations = rule.check(&document);
    assert_eq!(violations.len(), 0);
}

#[test]
fn test_md049_mixed_styles_violation() {
    let content = r#"This has *emphasis* and more _italic text_ here.

Another paragraph with *more emphasis* text.
"#;

    let document = create_test_document(content);
    let rule = MD049::new();
    let violations = rule.check(&document);
    assert_eq!(violations.len(), 1);
    assert_eq!(violations[0].rule_id, "MD049");
    assert_eq!(violations[0].line, 1);
    assert!(violations[0].message.contains("expected '*' but found '_'"));
}

#[test]
fn test_md049_preferred_asterisk_style() {
    let content = r#"This has _emphasis_ text.
"#;

    let document = create_test_document(content);
    let rule = MD049::with_style(EmphasisStyle::Asterisk);
    let violations = rule.check(&document);
    assert_eq!(violations.len(), 1);
    assert!(violations[0].message.contains("expected '*' but found '_'"));
}

#[test]
fn test_md049_preferred_underscore_style() {
    let content = r#"This has *emphasis* text.
"#;

    let document = create_test_document(content);
    let rule = MD049::with_style(EmphasisStyle::Underscore);
    let violations = rule.check(&document);
    assert_eq!(violations.len(), 1);
    assert!(violations[0].message.contains("expected '_' but found '*'"));
}

#[test]
fn test_md049_strong_emphasis_ignored() {
    let content = r#"This has **strong text** and _italic text_.

More **strong** and _italic_ here.
"#;

    let document = create_test_document(content);
    let rule = MD049::new();
    let violations = rule.check(&document);
    assert_eq!(violations.len(), 0); // All underscores, should be consistent
}

#[test]
fn test_md049_mixed_strong_and_emphasis() {
    let content = r#"This has **strong** and *italic* and _also italic_.

More text here.
"#;

    let document = create_test_document(content);
    let rule = MD049::new();
    let violations = rule.check(&document);
    assert_eq!(violations.len(), 1);
    assert!(violations[0].message.contains("expected '*' but found '_'"));
}

#[test]
fn test_md049_code_blocks_ignored() {
    let content = r#"This has *italic* text.

```
Code with *asterisks* and _underscores_ should be ignored.
```

This has _different style_ which should trigger violation.
"#;

    let document = create_test_document(content);
    let rule = MD049::new();
    let violations = rule.check(&document);
    assert_eq!(violations.len(), 1);
    assert_eq!(violations[0].line, 7);
}

#[test]
fn test_md049_inline_code_spans() {
    let content = r#"This has *italic* and `code with *asterisks*` text.

More *italic* text here.
"#;

    let document = create_test_document(content);
    let rule = MD049::new();
    let violations = rule.check(&document);
    // Code spans should be excluded - emphasis inside backticks should be ignored
    // Only the real emphasis outside code spans should be checked
    assert_eq!(violations.len(), 0);
}

#[test]
fn test_md049_no_emphasis() {
    let content = r#"This document has no emphasis at all.

Just regular text with **strong** formatting.
"#;

    let document = create_test_document(content);
    let rule = MD049::new();
    let violations = rule.check(&document);
    assert_eq!(violations.len(), 0);
}

#[test]
fn test_md049_multiple_violations() {
    let content = r#"Start with *italic* text.

Then switch to _different style_.

Back to *original style*.

And _different again_.
"#;

    let document = create_test_document(content);
    let rule = MD049::new();
    let violations = rule.check(&document);
    assert_eq!(violations.len(), 2); // Line 3 and line 7 violations
    assert_eq!(violations[0].line, 3);
    assert_eq!(violations[1].line, 7);
}

#[test]
fn test_md049_unclosed_emphasis() {
    let content = r#"This has *unclosed emphasis and _closed emphasis_.

More text here.
"#;

    let document = create_test_document(content);
    let rule = MD049::new();
    let violations = rule.check(&document);
    // Only the properly closed emphasis should be checked
    assert_eq!(violations.len(), 0); // _closed emphasis_ is the only valid emphasis, so no violation
}

#[test]
fn test_md049_code_spans_with_mixed_markers() {
    let content = r#"Use the `wrapping_*` methods, such as `wrapping_add`.

Return the `None` value if there is overflow with the `checked_*` methods.

Saturate at the value's minimum or maximum values with the `saturating_*` methods.

This has *real emphasis* outside code spans.
"#;

    let document = create_test_document(content);
    let rule = MD049::new();
    let violations = rule.check(&document);
    // Should not find any violations - all underscores are in code spans
    // Only the real emphasis should be detected and it's consistent
    assert_eq!(violations.len(), 0);
}

#[test]
fn test_md049_mixed_emphasis_and_code_spans() {
    let content = r#"Use the `wrapping_*` methods for *italic text*.

And `checked_*` with _different emphasis style_.
"#;

    let document = create_test_document(content);
    let rule = MD049::new();
    let violations = rule.check(&document);
    // Should find one violation - mixed emphasis styles outside code spans
    assert_eq!(violations.len(), 1);
    assert!(violations[0].message.contains("expected '*' but found '_'"));
}
