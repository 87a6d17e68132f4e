use std::path::PathBuf;
use mdlint_rules::document::Document;
use mdlint_rules::md004::MD004;
use mdlint_rules::md004::ListStyleConfig;

#[test]
fn test_md004_consistent_asterisk_style() {
    let content = r#"# List Test

* Item 1
* Item 2
* Item 3

Some text.

* Another list
* More items
"#;
    let document = Document::new(content.to_string(), PathBuf::from("test.md")).unwrap();
    let rule = MD004::new();
    let violations = rule.check(&document);

    assert_eq!(violations.len(), 0);
}

#[test]
fn test_md004_inconsistent_styles_violation() {
    let content = r#"# List Test

* Item 1
+ Item 2
- Item 3
"#;
    let document = Document::new(content.to_string(), PathBuf::from("test.md")).unwrap();
    let rule = MD004::new();
    let violations = rule.check(&document);

    assert_eq!(violations.len(), 2);
    assert!(violations[0].message.contains("Inconsistent list style"));
    assert!(violations[0].message.contains("expected '*' but found '+'"));
    assert!(violations[1].message.contains("expected '*' but found '-'"));
    assert_eq!(violations[0].line, 4);
    assert_eq!(violations[1].line, 5);
}

#[test]
fn test_md004_multiple_lists_consistent() {
    let content = r#"# Multiple Lists

First list:
- Item 1
- Item 2

Second list:
- Item 3
- Item 4

Third list:
- Item 5
- Item 6
"#;
    let document = Document::new(content.to_string(), PathBuf::from("test.md")).unwrap();
    let rule = MD004::new();
    let violations = rule.check(&document);

    assert_eq!(violations.len(), 0);
}

#[test]
fn test_md004_multiple_lists_inconsistent() {
    let content = r#"# Multiple Lists

First list:
* Item 1
* Item 2

Second list:
+ Item 3
+ Item 4

Third list:
- Item 5
- Item 6
"#;
    let document = Document::new(content.to_string(), PathBuf::from("test.md")).unwrap();
    let rule = MD004::new();
    let violations = rule.check(&document);

    assert_eq!(violations.len(), 4);
    // Should detect all items in second and third lists as violations
    assert_eq!(violations[0].line, 8); // First + item
    assert_eq!(violations[1].line, 9); // Second + item
    assert_eq!(violations[2].line, 12); // First - item
    assert_eq!(violations[3].line, 13); // Second - item
}

#[test]
fn test_md004_configured_asterisk_style() {
    let content = r#"# List Test

+ Item 1
+ Item 2
* Item 3
"#;
    let document = Document::new(content.to_string(), PathBuf::from("test.md")).unwrap();
    let rule = MD004::with_style(ListStyleConfig::Asterisk);
    let violations = rule.check(&document);

    assert_eq!(violations.len(), 2);
    assert!(violations[0].message.contains("expected '*' but found '+'"));
    assert!(violations[1].message.contains("expected '*' but found '+'"));
    assert_eq!(violations[0].line, 3);
    assert_eq!(violations[1].line, 4);
}

#[test]
fn test_md004_configured_plus_style() {
    let content = r#"# List Test

* Item 1
+ Item 2
- Item 3
"#;
    let document = Document::new(content.to_string(), PathBuf::from("test.md")).unwrap();
    let rule = MD004::with_style(ListStyleConfig::Plus);
    let violations = rule.check(&document);

    assert_eq!(violations.len(), 2);
    assert!(violations[0].message.contains("expected '+' but found '*'"));
    assert!(violations[1].message.contains("expected '+' but found '-'"));
    assert_eq!(violations[0].line, 3);
    assert_eq!(violations[1].line, 5);
}

#[test]
fn test_md004_configured_dash_style() {
    let content = r#"# List Test

* Item 1
+ Item 2
- Item 3
"#;
    let document = Document::new(content.to_string(), PathBuf::from("test.md")).unwrap();
    let rule = MD004::with_style(ListStyleConfig::Dash);
    let violations = rule.check(&document);

    assert_eq!(violations.len(), 2);
    assert!(violations[0].message.contains("expected '-' but found '*'"));
    assert!(violations[1].message.contains("expected '-' but found '+'"));
    assert_eq!(violations[0].line, 3);
    assert_eq!(violations[1].line, 4);
}

#[test]
fn test_md004_nested_lists() {
    let content = r#"# Nested Lists

* Top level item
  + Nested item (different style should be violation)
  + Another nested item
* Another top level item
"#;
    let document = Document::new(content.to_string(), PathBuf::from("test.md")).unwrap();
    let rule = MD004::new();
    let violations = rule.check(&document);

    // Should detect violations for the nested items
    assert_eq!(violations.len(), 2);
    assert_eq!(violations[0].line, 4);
    assert_eq!(violations[1].line, 5);
}

#[test]
fn test_md004_ordered_lists_ignored() {
    let content = r#"# Mixed Lists

1. Ordered item 1
2. Ordered item 2

* Unordered item 1
* Unordered item 2

3. More ordered items
4. Should be ignored
"#;
    let document = Document::new(content.to_string(), PathBuf::from("test.md")).unwrap();
    let rule = MD004::new();
    let violations = rule.check(&document);

    // Should only check unordered lists, ignore ordered lists
    assert_eq!(violations.len(), 0);
}

#[test]
fn test_md004_indented_lists() {
    let content = r#"# Indented Lists

Some paragraph with indented list:

  * Indented item 1
  * Indented item 2
  + Different style (should be violation)

Regular list:
* Regular item
"#;
    let document = Document::new(content.to_string(), PathBuf::from("test.md")).unwrap();
    let rule = MD004::new();
    let violations = rule.check(&document);

    assert_eq!(violations.len(), 1);
    assert_eq!(violations[0].line, 7);
    assert!(violations[0].message.contains("expected '*' but found '+'"));
}

#[test]
fn test_md004_empty_document() {
    let content = "";
    let document = Document::new(content.to_string(), PathBuf::from("test.md")).unwrap();
    let rule = MD004::new();
    let violations = rule.check(&document);

    assert_eq!(violations.len(), 0);
}

#[test]
fn test_md004_fix_inconsistent_to_asterisk() {
    let content = r#"# List Test

* Item 1
+ Item 2
- Item 3
"#;
    let document = Document::new(content.to_string(), PathBuf::from("test.md")).unwrap();
    let rule = MD004::new();
    let violations = rule.check(&document);

    assert_eq!(violations.len(), 2);

    // Check first fix (+ to *)
    assert!(violations[0].fix.is_some());
    let fix1 = violations[0].fix.as_ref().unwrap();
    assert_eq!(fix1.description, "Replace '+' with '*'");
    assert_eq!(fix1.replacement, Some("* Item 2".to_string()));
    assert_eq!(fix1.start.line, 4);
    assert_eq!(fix1.start.column, 1);

    // Check second fix (- to *)
    assert!(violations[1].fix.is_some());
    let fix2 = violations[1].fix.as_ref().unwrap();
    assert_eq!(fix2.description, "Replace '-' with '*'");
    assert_eq!(fix2.replacement, Some("* Item 3".to_string()));
    assert_eq!(fix2.start.line, 5);
    assert_eq!(fix2.start.column, 1);
}

#[test]
fn test_md004_fix_with_configured_style() {
    let content = r#"# List Test

* Item 1
* Item 2
"#;
    let document = Document::new(content.to_string(), PathBuf::from("test.md")).unwrap();
    let rule = MD004::with_style(ListStyleConfig::Dash);
    let violations = rule.check(&document);

    assert_eq!(violations.len(), 2);

    // Both should have fixes to change * to -
    assert!(violations[0].fix.is_some());
    let fix1 = violations[0].fix.as_ref().unwrap();
    assert_eq!(fix1.description, "Replace '*' with '-'");
    assert_eq!(fix1.replacement, Some("- Item 1".to_string()));

    assert!(violations[1].fix.is_some());
    let fix2 = violations[1].fix.as_ref().unwrap();
    assert_eq!(fix2.description, "Replace '*' with '-'");
    assert_eq!(fix2.replacement, Some("- Item 2".to_string()));
}

#[test]
fn test_md004_fix_preserves_indentation() {
    let content = r#"# Nested List

* Top level
  + Nested item
  + Another nested
"#;
    let document = Document::new(content.to_string(), PathBuf::from("test.md")).unwrap();
    let rule = MD004::new();
    let violations = rule.check(&document);

    assert_eq!(violations.len(), 2);

    // Check that indentation is preserved in the fix
    assert!(violations[0].fix.is_some());
    let fix1 = violations[0].fix.as_ref().unwrap();
    assert_eq!(fix1.replacement, Some("  * Nested item".to_string()));

    assert!(violations[1].fix.is_some());
    let fix2 = violations[1].fix.as_ref().unwrap();
    assert_eq!(fix2.replacement, Some("  * Another nested".to_string()));
}

#[test]
fn test_md004_no_lists() {
    let content = r#"# Document Without Lists

This document has no lists, so there should be no violations.

Just paragraphs and headings.

## Another Section

More text without any lists.
"#;
    let document = Document::new(content.to_string(), PathBuf::from("test.md")).unwrap();
    let rule = MD004::new();
    let violations = rule.check(&document);

    assert_eq!(violations.len(), 0);
}
