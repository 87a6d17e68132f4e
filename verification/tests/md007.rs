use std::path::PathBuf;
use mdlint_rules::document::Document;
use mdlint_rules::md007::MD007;

#[test]
fn test_md007_correct_indentation() {
    let content = r#"* Item 1
  * Nested item (2 spaces)
    * Deep nested item (4 spaces)
* Item 2
  * Another nested item
"#;

    let document = Document::new(content.to_string(), PathBuf::from("test.md")).unwrap();
    let rule = MD007::new();
    let violations = rule.check(&document);
    assert_eq!(violations.len(), 0);
}

#[test]
fn test_md007_incorrect_indentation() {
    let content = r#"* Item 1
   * Nested item (3 spaces - wrong!)
     * Deep nested item (5 spaces - wrong!)
* Item 2
"#;

    let document = Document::new(content.to_string(), PathBuf::from("test.md")).unwrap();
    let rule = MD007::new();
    let violations = rule.check(&document);
    assert_eq!(violations.len(), 2);
    assert_eq!(violations[0].line, 2);
    assert_eq!(violations[1].line, 3);
    assert!(violations[0].message.contains("Expected 2 spaces, found 3"));
    assert!(violations[1].message.contains("Expected 4 spaces, found 5"));
}

#[test]
fn test_md007_custom_indent() {
    let content = r#"* Item 1
    * Nested item (4 spaces)
        * Deep nested item (8 spaces)
"#;

    let document = Document::new(content.to_string(), PathBuf::from("test.md")).unwrap();
    let rule = MD007::new().with_indent(4);
    let violations = rule.check(&document);
    assert_eq!(violations.len(), 0);
}

#[test]
fn test_md007_start_indented() {
    let content = r#"  * Item 1 (2 spaces start)
    * Nested item (4 spaces total)
      * Deep nested item (6 spaces total)
"#;

    let document = Document::new(content.to_string(), PathBuf::from("test.md")).unwrap();
    let rule = MD007::new().with_start_indented(true);
    let violations = rule.check(&document);
    assert_eq!(violations.len(), 0);
}

#[test]
fn test_md007_start_indented_custom() {
    let content = r#"    * Item 1 (4 spaces start)
        * Nested item (8 spaces total)
            * Deep nested item (12 spaces total)
"#;

    let document = Document::new(content.to_string(), PathBuf::from("test.md")).unwrap();
    let rule = MD007::new()
        .with_start_indented(true)
        .with_start_indent(4)
        .with_indent(4);
    let violations = rule.check(&document);
    assert_eq!(violations.len(), 0);
}

#[test]
fn test_md007_mixed_list_types() {
    let content = r#"1. Ordered item
   * Unordered nested (should be ignored due to ordered parent)
     * Deep nested (should be ignored)
* Unordered item
  * Unordered nested (should be checked)
"#;

    let document = Document::new(content.to_string(), PathBuf::from("test.md")).unwrap();
    let rule = MD007::new();
    let violations = rule.check(&document);
    assert_eq!(violations.len(), 0); // Mixed list types are ignored
}

#[test]
fn test_md007_only_unordered_lists() {
    let content = r#"1. Ordered item
   2. Another ordered item (wrong indentation but ignored)
      3. Deep ordered item (also ignored)
"#;

    let document = Document::new(content.to_string(), PathBuf::from("test.md")).unwrap();
    let rule = MD007::new();
    let violations = rule.check(&document);
    assert_eq!(violations.len(), 0);
}

#[test]
fn test_md007_no_indentation_needed() {
    let content = r#"* Item 1
* Item 2
* Item 3
"#;

    let document = Document::new(content.to_string(), PathBuf::from("test.md")).unwrap();
    let rule = MD007::new();
    let violations = rule.check(&document);
    assert_eq!(violations.len(), 0);
}

#[test]
fn test_md007_zero_indentation_with_start_indented() {
    let content = r#"* Item 1 (should be indented)
* Item 2 (should be indented)
"#;

    let document = Document::new(content.to_string(), PathBuf::from("test.md")).unwrap();
    let rule = MD007::new().with_start_indented(true);
    let violations = rule.check(&document);
    assert_eq!(violations.len(), 2);
    assert!(violations[0].message.contains("Expected 2 spaces, found 0"));
    assert!(violations[1].message.contains("Expected 2 spaces, found 0"));
}

#[test]
fn test_md007_complex_nesting() {
    let content = r#"* Level 1
  * Level 2 correct
    * Level 3 correct
      * Level 4 correct
   * Level 2 wrong (3 spaces)
     * Level 3 wrong (5 spaces)
"#;

    let document = Document::new(content.to_string(), PathBuf::from("test.md")).unwrap();
    let rule = MD007::new();
    let violations = rule.check(&document);
    assert_eq!(violations.len(), 2);
    assert_eq!(violations[0].line, 5);
    assert_eq!(violations[1].line, 6);
}

#[test]
fn test_md007_fix_basic_indentation() {
    let content = "* Item 1\n   * Nested item (3 spaces - wrong!)\n";
    let document = Document::new(content.to_string(), PathBuf::from("test.md")).unwrap();
    let rule = MD007::new();
    let violations = rule.check(&document);

    assert_eq!(violations.len(), 1);
    assert!(violations[0].fix.is_some());

    let fix = violations[0].fix.as_ref().unwrap();
    assert_eq!(fix.description, "Fix indentation from 3 to 2 spaces");
    assert_eq!(
        fix.replacement,
        Some("  * Nested item (3 spaces - wrong!)".to_string())
    );
    assert_eq!(fix.start.line, 2);
    assert_eq!(fix.start.column, 1);
}

#[test]
fn test_md007_fix_multiple_levels() {
    let content = r#"* Item 1
     * Too many spaces (5)
         * Way too many spaces (9)
"#;
    let document = Document::new(content.to_string(), PathBuf::from("test.md")).unwrap();
    let rule = MD007::new();
    let violations = rule.check(&document);

    assert_eq!(violations.len(), 2);

    // First violation: 5 spaces should be 2
    assert!(violations[0].fix.is_some());
    let fix1 = violations[0].fix.as_ref().unwrap();
    assert_eq!(fix1.description, "Fix indentation from 5 to 2 spaces");
    assert_eq!(
        fix1.replacement,
        Some("  * Too many spaces (5)".to_string())
    );

    // Second violation: 9 spaces should be 4
    assert!(violations[1].fix.is_some());
    let fix2 = violations[1].fix.as_ref().unwrap();
    assert_eq!(fix2.description, "Fix indentation from 9 to 4 spaces");
    assert_eq!(
        fix2.replacement,
        Some("    * Way too many spaces (9)".to_string())
    );
}

#[test]
fn test_md007_fix_with_custom_indent() {
    let content = r#"* Item 1
  * Wrong for 4-space indent
      * Wrong again
"#;
    let document = Document::new(content.to_string(), PathBuf::from("test.md")).unwrap();
    let rule = MD007::new().with_indent(4);
    let violations = rule.check(&document);

    assert_eq!(violations.len(), 2);

    // Should expect 4 spaces
    let fix1 = violations[0].fix.as_ref().unwrap();
    assert_eq!(fix1.description, "Fix indentation from 2 to 4 spaces");
    assert_eq!(
        fix1.replacement,
        Some("    * Wrong for 4-space indent".to_string())
    );

    // Should expect 8 spaces for second level
    let fix2 = violations[1].fix.as_ref().unwrap();
    assert_eq!(fix2.description, "Fix indentation from 6 to 8 spaces");
    assert_eq!(fix2.replacement, Some("        * Wrong again".to_string()));
}

#[test]
fn test_md007_fix_with_start_indented() {
    let content = r#"* No indent (wrong when start_indented)
* Another no indent (also wrong)
  * Correct for level 0 with start_indented
    * Correct for level 1 (4 spaces = 2 base + 2 indent)
"#;
    let document = Document::new(content.to_string(), PathBuf::from("test.md")).unwrap();
    let rule = MD007::new().with_start_indented(true);
    let violations = rule.check(&document);

    // When start_indented is true, all top-level items without indent are violations
    // Let's just check the first two
    assert!(
        violations.len() >= 2,
        "Expected at least 2 violations, got {}",
        violations.len()
    );

    // First item should have 2 spaces when start_indented is true
    let fix1 = violations[0].fix.as_ref().unwrap();
    assert_eq!(fix1.description, "Fix indentation from 0 to 2 spaces");
    assert_eq!(
        fix1.replacement,
        Some("  * No indent (wrong when start_indented)".to_string())
    );

    // Second item should also have 2 spaces
    let fix2 = violations[1].fix.as_ref().unwrap();
    assert_eq!(fix2.description, "Fix indentation from 0 to 2 spaces");
    assert_eq!(
        fix2.replacement,
        Some("  * Another no indent (also wrong)".to_string())
    );
}

#[test]
fn test_md007_fix_removes_extra_spaces() {
    let content = "* Item\n        * Way too indented (8 spaces for first nested level)\n";
    let document = Document::new(content.to_string(), PathBuf::from("test.md")).unwrap();
    let rule = MD007::new();
    let violations = rule.check(&document);

    assert_eq!(violations.len(), 1);

    let fix = violations[0].fix.as_ref().unwrap();
    assert_eq!(fix.description, "Fix indentation from 8 to 2 spaces");
    assert_eq!(
        fix.replacement,
        Some("  * Way too indented (8 spaces for first nested level)".to_string())
    );
}

#[test]
fn test_md007_fix_adds_spaces() {
    let content = "* Item\n * Not enough indent (1 space)\n";
    let document = Document::new(content.to_string(), PathBuf::from("test.md")).unwrap();
    let rule = MD007::new();
    let violations = rule.check(&document);

    assert_eq!(violations.len(), 1);

    let fix = violations[0].fix.as_ref().unwrap();
    assert_eq!(fix.description, "Fix indentation from 1 to 2 spaces");
    assert_eq!(
        fix.replacement,
        Some("  * Not enough indent (1 space)".to_string())
    );
}

#[test]
fn test_md007_fix_preserves_content() {
    let content = "* Item\n   * This has **bold** and _italic_ text\n";
    let document = Document::new(content.to_string(), PathBuf::from("test.md")).unwrap();
    let rule = MD007::new();
    let violations = rule.check(&document);

    assert_eq!(violations.len(), 1);

    let fix = violations[0].fix.as_ref().unwrap();
    assert_eq!(
        fix.replacement,
        Some("  * This has **bold** and _italic_ text".to_string())
    );
}

#[test]
fn test_md007_fix_with_different_markers() {
    let content = r#"- Dash item
   + Plus item (wrong indent)
     * Star item (wrong indent)
"#;
    let document = Document::new(content.to_string(), PathBuf::from("test.md")).unwrap();
    let rule = MD007::new();
    let violations = rule.check(&document);

    assert_eq!(violations.len(), 2);

    // Different markers should still get fixed
    let fix1 = violations[0].fix.as_ref().unwrap();
    assert_eq!(
        fix1.replacement,
        Some("  + Plus item (wrong indent)".to_string())
    );

    let fix2 = violations[1].fix.as_ref().unwrap();
    assert_eq!(
        fix2.replacement,
        Some("    * Star item (wrong indent)".to_string())
    );
}

#[test]
fn test_md007_ignores_lists_in_code_blocks() {
    let content = r#"Regular list:
* Item 1
  * Item 2

Code block with list:
```yaml
steps:
  - uses: actions/checkout@v4
  - name: Install mdBook and mdbook-lint
    run: |
      cargo install mdbook
      cargo install mdbook-lint
  - name: Build book
    run: mdbook build
```

Another regular list:
* Item 3
    * Too much indent (4 spaces)
"#;
    let document = Document::new(content.to_string(), PathBuf::from("test.md")).unwrap();
    let rule = MD007::new();
    let violations = rule.check(&document);

    // Should only have 1 violation for the last list item (too much indent)
    // Should NOT have violations for the YAML list inside the code block
    assert_eq!(violations.len(), 1, "Should only flag the regular list item with wrong indent, not the YAML in code block");
    
    // Verify it's the right violation (line 19 is the "    * Too much indent" line)
    assert_eq!(violations[0].line, 19);
    assert!(violations[0].message.contains("Expected 2 spaces, found 4"));
}

#[test]
fn test_md007_ignores_indented_code_blocks() {
    let content = r#"Regular list:
* Item 1
  * Item 2

Indented code block:

    * This is code, not a list
      * Should not be checked
        * Even with multiple levels

Another list:
* Item 3
  * Correct indent
"#;
    let document = Document::new(content.to_string(), PathBuf::from("test.md")).unwrap();
    let rule = MD007::new();
    let violations = rule.check(&document);

    // Should have no violations - the indented code block should be ignored
    assert_eq!(violations.len(), 0, "Should not flag items in indented code blocks");
}
