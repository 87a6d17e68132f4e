use std::path::PathBuf;
use mdlint_rules::document::Document;
use mdlint_rules::md037::MD037;

#[test]
fn test_md037_no_violations() {
    let content = r#"Here is some **bold** text.

Here is some *italic* text.

Here is some more __bold__ text.

Here is some more _italic_ text.
"#;

    let document = Document::new(content.to_string(), PathBuf::from("test.md")).unwrap();
    let rule = MD037;
    let violations = rule.check(&document);
    assert_eq!(violations.len(), 0);
}

#[test]
fn test_md037_spaces_in_bold() {
    let content = r#"Here is some ** bold ** text.

Here is some __bold __ text.

Here is some __ bold__ text.
"#;

    let document = Document::new(content.to_string(), PathBuf::from("test.md")).unwrap();
    let rule = MD037;
    let violations = rule.check(&document);
    assert_eq!(violations.len(), 3);
    assert_eq!(violations[0].line, 1);
    assert_eq!(violations[1].line, 3);
    assert_eq!(violations[2].line, 5);
}

#[test]
fn test_md037_spaces_in_italic() {
    let content = r#"Here is some * italic * text.

Here is some _italic _ text.

Here is some _ italic_ text.
"#;

    let document = Document::new(content.to_string(), PathBuf::from("test.md")).unwrap();
    let rule = MD037;
    let violations = rule.check(&document);
    assert_eq!(violations.len(), 3);
    assert_eq!(violations[0].line, 1);
    assert_eq!(violations[1].line, 3);
    assert_eq!(violations[2].line, 5);
}

#[test]
fn test_md037_mixed_violations() {
    let content = r#"Here is ** bold ** and * italic * text.

Normal **bold** and *italic* are fine.

But __bold __ and _italic _ are not.
"#;

    let document = Document::new(content.to_string(), PathBuf::from("test.md")).unwrap();
    let rule = MD037;
    let violations = rule.check(&document);
    assert_eq!(violations.len(), 4);
    assert_eq!(violations[0].line, 1); // ** bold **
    assert_eq!(violations[1].line, 1); // * italic *
    assert_eq!(violations[2].line, 5); // __bold __
    assert_eq!(violations[3].line, 5); // _italic _
}

#[test]
fn test_md037_no_false_positives() {
    let content = r#"This line has * asterisk but not emphasis.

This line has ** two asterisks but not emphasis.

This has *proper* emphasis.

This has **proper** emphasis too.

Math: 2 times 3 times 4 = 24.
"#;

    let document = Document::new(content.to_string(), PathBuf::from("test.md")).unwrap();
    let rule = MD037;
    let violations = rule.check(&document);
    assert_eq!(violations.len(), 0);
}

#[test]
fn test_md037_nested_emphasis() {
    let content = r#"This has ** bold with *italic* inside ** which is wrong.

This has **bold with *italic* inside** which is correct.
"#;

    let document = Document::new(content.to_string(), PathBuf::from("test.md")).unwrap();
    let rule = MD037;
    let violations = rule.check(&document);
    assert_eq!(violations.len(), 1);
    assert_eq!(violations[0].line, 1);
}

#[test]
fn test_md037_emphasis_at_line_boundaries() {
    let content = r#"** bold at start **

**bold at end **

* italic at start *

*italic at end *
"#;

    let document = Document::new(content.to_string(), PathBuf::from("test.md")).unwrap();
    let rule = MD037;
    let violations = rule.check(&document);
    assert_eq!(violations.len(), 4);
    assert_eq!(violations[0].line, 1);
    assert_eq!(violations[1].line, 3);
    assert_eq!(violations[2].line, 5);
    assert_eq!(violations[3].line, 7);
}

#[test]
fn test_md037_multiple_spaces() {
    let content = r#"Here is some **  bold with multiple spaces  ** text.

Here is some *   italic with multiple spaces   * text.
"#;

    let document = Document::new(content.to_string(), PathBuf::from("test.md")).unwrap();
    let rule = MD037;
    let violations = rule.check(&document);
    assert_eq!(violations.len(), 2);
    assert_eq!(violations[0].line, 1);
    assert_eq!(violations[1].line, 3);
}

#[test]
fn test_md037_fix_leading_space() {
    let content = "Here is some ** bold** text.\n";
    let document = Document::new(content.to_string(), PathBuf::from("test.md")).unwrap();
    let rule = MD037;
    let violations = rule.check(&document);

    assert_eq!(violations.len(), 1);
    assert!(violations[0].fix.is_some());

    let fix = violations[0].fix.as_ref().unwrap();
    assert_eq!(fix.description, "Remove spaces inside emphasis markers");
    assert_eq!(
        fix.replacement,
        Some("Here is some **bold** text.\n".to_string())
    );
}

#[test]
fn test_md037_fix_trailing_space() {
    let content = "Here is some **bold ** text.\n";
    let document = Document::new(content.to_string(), PathBuf::from("test.md")).unwrap();
    let rule = MD037;
    let violations = rule.check(&document);

    assert_eq!(violations.len(), 1);
    assert!(violations[0].fix.is_some());

    let fix = violations[0].fix.as_ref().unwrap();
    assert_eq!(fix.description, "Remove spaces inside emphasis markers");
    assert_eq!(
        fix.replacement,
        Some("Here is some **bold** text.\n".to_string())
    );
}

#[test]
fn test_md037_fix_both_spaces() {
    let content = "Here is some ** bold ** text.\n";
    let document = Document::new(content.to_string(), PathBuf::from("test.md")).unwrap();
    let rule = MD037;
    let violations = rule.check(&document);

    assert_eq!(violations.len(), 1);
    assert!(violations[0].fix.is_some());

    let fix = violations[0].fix.as_ref().unwrap();
    assert_eq!(
        fix.replacement,
        Some("Here is some **bold** text.\n".to_string())
    );
}

#[test]
fn test_md037_fix_single_asterisk() {
    let content = "Here is some * italic * text.\n";
    let document = Document::new(content.to_string(), PathBuf::from("test.md")).unwrap();
    let rule = MD037;
    let violations = rule.check(&document);

    assert_eq!(violations.len(), 1);
    assert!(violations[0].fix.is_some());

    let fix = violations[0].fix.as_ref().unwrap();
    assert_eq!(
        fix.replacement,
        Some("Here is some *italic* text.\n".to_string())
    );
}

#[test]
fn test_md037_fix_underscore() {
    let content = "Here is some _ italic _ text.\n";
    let document = Document::new(content.to_string(), PathBuf::from("test.md")).unwrap();
    let rule = MD037;
    let violations = rule.check(&document);

    assert_eq!(violations.len(), 1);
    assert!(violations[0].fix.is_some());

    let fix = violations[0].fix.as_ref().unwrap();
    assert_eq!(
        fix.replacement,
        Some("Here is some _italic_ text.\n".to_string())
    );
}

#[test]
fn test_md037_fix_double_underscore() {
    let content = "Here is some __ bold __ text.\n";
    let document = Document::new(content.to_string(), PathBuf::from("test.md")).unwrap();
    let rule = MD037;
    let violations = rule.check(&document);

    assert_eq!(violations.len(), 1);
    assert!(violations[0].fix.is_some());

    let fix = violations[0].fix.as_ref().unwrap();
    assert_eq!(
        fix.replacement,
        Some("Here is some __bold__ text.\n".to_string())
    );
}

#[test]
fn test_md037_fix_multiple_in_line() {
    let content = "Some ** bold ** and * italic * text.\n";
    let document = Document::new(content.to_string(), PathBuf::from("test.md")).unwrap();
    let rule = MD037;
    let violations = rule.check(&document);

    assert_eq!(violations.len(), 2);

    // Both should have fixes
    assert!(violations[0].fix.is_some());
    assert!(violations[1].fix.is_some());
}

#[test]
fn test_md037_can_fix() {
    let rule = MD037;
    assert!(rule.can_fix());
}

#[test]
fn test_md037_code_spans_not_flagged() {
    // Asterisks inside code spans should not be flagged
    let content = r#"Here is some `* not emphasis *` code.

And here is `` ** also not emphasis ** `` with double backticks.

Table with code: `*` should be fine.

Regular `code` with **bold** outside is fine.
"#;
    let document = Document::new(content.to_string(), PathBuf::from("test.md")).unwrap();
    let rule = MD037;
    let violations = rule.check(&document);
    assert_eq!(violations.len(), 0);
}

#[test]
fn test_md037_table_with_code_spans() {
    // This is the real-world case from the Rust Book
    let content = r#"| Operator | Example | Description |
|----------|---------|-------------|
| `*`      | `expr * expr` | Arithmetic multiplication |
| `*=`     | `var *= expr` | Multiplication assignment |
| `*`      | `*expr`       | Dereference |
"#;
    let document = Document::new(content.to_string(), PathBuf::from("test.md")).unwrap();
    let rule = MD037;
    let violations = rule.check(&document);
    // All asterisks are inside code spans, should not be flagged
    assert_eq!(violations.len(), 0);
}

#[test]
fn test_md037_mixed_code_and_emphasis() {
    let content = r#"Here is `code` with ** bad emphasis ** nearby.

And `more code` with proper **bold** text.
"#;
    let document = Document::new(content.to_string(), PathBuf::from("test.md")).unwrap();
    let rule = MD037;
    let violations = rule.check(&document);
    // Only the "** bad emphasis **" should be flagged
    assert_eq!(violations.len(), 1);
    assert_eq!(violations[0].line, 1);
}

#[test]
fn test_md037_find_code_span_positions() {
    let rule = MD037;

    // Single backtick code span
    let chars1: Vec<char> = "text `code` more".chars().collect();
    let spans1 = rule.find_code_span_positions(&chars1);
    assert_eq!(spans1.len(), 1);
    assert_eq!(spans1[0], (5, 11)); // `code`

    // Double backtick code span
    let chars2: Vec<char> = "text ``code`` more".chars().collect();
    let spans2 = rule.find_code_span_positions(&chars2);
    assert_eq!(spans2.len(), 1);
    assert_eq!(spans2[0], (5, 13)); // ``code``

    // Multiple code spans
    let chars3: Vec<char> = "`a` and `b`".chars().collect();
    let spans3 = rule.find_code_span_positions(&chars3);
    assert_eq!(spans3.len(), 2);
}

#[test]
fn test_md037_indented_code_blocks_not_flagged() {
    // Indented code blocks should be skipped entirely
    let content = r#"Here is some regular text.

    println!("the area is {}", x * r * r);

More regular text with **bold**.
"#;
    let document = Document::new(content.to_string(), PathBuf::from("test.md")).unwrap();
    let rule = MD037;
    let violations = rule.check(&document);
    // The x * r * r in the indented code block should not be flagged
    assert_eq!(violations.len(), 0);
}

#[test]
fn test_md037_fenced_code_blocks_not_flagged() {
    // Fenced code blocks should be skipped entirely
    let content = r#"Here is some regular text.

```rust
println!("the area is {}", x * r * r);
let y = a * b * c;
```

More regular text with **bold**.
"#;
    let document = Document::new(content.to_string(), PathBuf::from("test.md")).unwrap();
    let rule = MD037;
    let violations = rule.check(&document);
    // The multiplication in the fenced code block should not be flagged
    assert_eq!(violations.len(), 0);
}

#[test]
fn test_md037_ascii_diagrams_in_code_blocks() {
    // ASCII diagrams inside fenced code blocks should not be flagged
    let content = r#"Release schedule:

```text
nightly: * - - * - - *
beta:    +       +
stable:          +
```

End of diagram.
"#;
    let document = Document::new(content.to_string(), PathBuf::from("test.md")).unwrap();
    let rule = MD037;
    let violations = rule.check(&document);
    // These are inside a fenced code block, so should not be flagged
    assert_eq!(violations.len(), 0);
}
