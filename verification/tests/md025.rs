use std::path::PathBuf;
use mdlint_rules::document::Document;
use mdlint_rules::md025::MD025;

#[test]
fn test_md025_single_h1() {
    let content = r#"# Single H1 heading
## H2 heading
### H3 heading
"#;
    let document = Document::new(content.to_string(), PathBuf::from("test.md")).unwrap();
    let rule = MD025::new();
    let violations = rule.check(&document);

    assert_eq!(violations.len(), 0);
}

#[test]
fn test_md025_multiple_h1_violation() {
    let content = r#"# First H1 heading
Some content here.

# Second H1 heading
More content.
"#;
    let document = Document::new(content.to_string(), PathBuf::from("test.md")).unwrap();
    let rule = MD025::new();
    let violations = rule.check(&document);

    assert_eq!(violations.len(), 1);
    assert!(
        violations[0]
            .message
            .contains("Multiple top-level headings")
    );
    assert!(violations[0].message.contains("first at line 1"));
    assert!(violations[0].message.contains("Second H1 heading"));
    assert_eq!(violations[0].line, 4);
}

#[test]
fn test_md025_three_h1_violations() {
    let content = r#"# First H1
Content here.

# Second H1
More content.

# Third H1
Even more content.
"#;
    let document = Document::new(content.to_string(), PathBuf::from("test.md")).unwrap();
    let rule = MD025::new();
    let violations = rule.check(&document);

    assert_eq!(violations.len(), 2);

    // Both violations should reference the first H1 at line 1
    assert!(violations[0].message.contains("first at line 1"));
    assert!(violations[1].message.contains("first at line 1"));

    // Check violation lines
    assert_eq!(violations[0].line, 4); // Second H1
    assert_eq!(violations[1].line, 7); // Third H1
}

#[test]
fn test_md025_no_h1_headings() {
    let content = r#"## H2 heading
### H3 heading
#### H4 heading
"#;
    let document = Document::new(content.to_string(), PathBuf::from("test.md")).unwrap();
    let rule = MD025::new();
    let violations = rule.check(&document);

    assert_eq!(violations.len(), 0);
}

#[test]
fn test_md025_setext_headings() {
    let content = r#"First H1 Setext
===============

Second H1 Setext
================
"#;
    let document = Document::new(content.to_string(), PathBuf::from("test.md")).unwrap();
    let rule = MD025::new();
    let violations = rule.check(&document);

    assert_eq!(violations.len(), 1);
    assert!(violations[0].message.contains("first at line 1"));
    assert!(violations[0].message.contains("Second H1 Setext"));
    assert_eq!(violations[0].line, 4);
}

#[test]
fn test_md025_mixed_atx_setext() {
    let content = r#"# ATX H1 heading

Setext H1 heading
=================
"#;
    let document = Document::new(content.to_string(), PathBuf::from("test.md")).unwrap();
    let rule = MD025::new();
    let violations = rule.check(&document);

    assert_eq!(violations.len(), 1);
    assert!(violations[0].message.contains("first at line 1"));
    assert!(violations[0].message.contains("Setext H1 heading"));
    assert_eq!(violations[0].line, 3);
}

#[test]
fn test_md025_custom_level() {
    let content = r#"# H1 heading
## First H2 heading
### H3 heading
## Second H2 heading
"#;
    let document = Document::new(content.to_string(), PathBuf::from("test.md")).unwrap();
    let rule = MD025::with_level(2);
    let violations = rule.check(&document);

    assert_eq!(violations.len(), 1);
    assert!(violations[0].message.contains("first at line 2"));
    assert!(violations[0].message.contains("Second H2 heading"));
    assert_eq!(violations[0].line, 4);
}

#[test]
fn test_md025_h1_with_other_levels() {
    let content = r#"# Main heading
## Introduction
### Details
## Conclusion
### More details
#### Sub-details
"#;
    let document = Document::new(content.to_string(), PathBuf::from("test.md")).unwrap();
    let rule = MD025::new();
    let violations = rule.check(&document);

    assert_eq!(violations.len(), 0);
}

#[test]
fn test_md025_empty_h1_headings() {
    let content = r#"#
Content here.

#
More content.
"#;
    let document = Document::new(content.to_string(), PathBuf::from("test.md")).unwrap();
    let rule = MD025::new();
    let violations = rule.check(&document);

    assert_eq!(violations.len(), 1);
    assert_eq!(violations[0].line, 4);
}

#[test]
fn test_md025_h1_in_code_blocks() {
    let content = r#"# Real H1 heading

```markdown
# Fake H1 in code block
```

Some content.
"#;
    let document = Document::new(content.to_string(), PathBuf::from("test.md")).unwrap();
    let rule = MD025::new();
    let violations = rule.check(&document);

    // Should not detect the H1 in the code block
    assert_eq!(violations.len(), 0);
}

#[test]
fn test_md025_regular_file_still_triggers() {
    let content = r#"# First H1 heading
Some content here.

# Second H1 heading
More content.
"#;
    let document = Document::new(content.to_string(), PathBuf::from("chapter.md")).unwrap();
    let rule = MD025::new();
    let violations = rule.check(&document);

    // Regular files should still trigger MD025 violations
    assert_eq!(violations.len(), 1);
    assert!(
        violations[0]
            .message
            .contains("Multiple top-level headings")
    );
}
