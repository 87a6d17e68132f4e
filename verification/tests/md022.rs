use std::path::PathBuf;
use mdlint_rules::document::Document;
use mdlint_rules::md022::{is_blank_line, MD022};
use mdlint_rules::violation::Violation;

/// Builds Markdown text line by line.
struct MarkdownBuilder {
    text: String,
}

impl MarkdownBuilder {
    fn new() -> Self {
        MarkdownBuilder { text: String::new() }
    }

    fn heading(mut self, level: usize, text: &str) -> Self {
        self.text.push_str(&"#".repeat(level));
        self.text.push(' ');
        self.text.push_str(text);
        self.text.push('\n');
        self
    }

    fn blank_line(mut self) -> Self {
        self.text.push('\n');
        self
    }

    fn unordered_list(mut self, items: &[&str]) -> Self {
        for item in items {
            self.text.push_str("- ");
            self.text.push_str(item);
            self.text.push('\n');
        }
        self
    }

    fn ordered_list(mut self, items: &[&str]) -> Self {
        for (i, item) in items.iter().enumerate() {
            self.text.push_str(&format!("{}. {}\n", i + 1, item));
        }
        self
    }

    fn paragraph(mut self, text: &str) -> Self {
        self.text.push_str(text);
        self.text.push('\n');
        self
    }

    fn line(mut self, text: &str) -> Self {
        self.text.push_str(text);
        self.text.push('\n');
        self
    }

    fn blockquote(mut self, text: &str) -> Self {
        self.text.push_str("> ");
        self.text.push_str(text);
        self.text.push('\n');
        self
    }

    fn code_block(mut self, language: &str, code: &str) -> Self {
        self.text.push_str("```");
        self.text.push_str(language);
        self.text.push('\n');
        self.text.push_str(code);
        self.text.push_str("\n```\n");
        self
    }

    fn build(self) -> String {
        self.text
    }
}

fn check(rule: MD022, content: &str) -> Vec<Violation> {
    let document = Document::new(content.to_string(), PathBuf::from("test.md")).unwrap();
    rule.check(&document)
}

fn assert_no_violations(rule: MD022, content: &str) {
    let violations = check(rule, content);
    assert!(violations.is_empty(), "expected no violations, got {:?}", violations);
}

fn assert_violation_count(rule: MD022, content: &str, count: usize) -> Vec<Violation> {
    let violations = check(rule, content);
    assert_eq!(violations.len(), count, "violations: {:?}", violations);
    violations
}

fn assert_violation_contains_message(violations: &[Violation], text: &str) {
    assert!(
        violations.iter().any(|v| v.message.contains(text)),
        "no violation mentions {:?}: {:?}",
        text,
        violations
    );
}


fn assert_violation_at_line(violations: &[Violation], line: usize) {
    assert!(
        violations.iter().any(|v| v.line == line),
        "no violation at line {}: {:?}",
        line,
        violations
    );
}

#[test]
fn test_is_blank_line() {
    // Regular blank lines
    assert!(is_blank_line(""));
    assert!(is_blank_line("   "));
    assert!(is_blank_line("\t"));

    // Blockquote blank lines
    assert!(is_blank_line(">"));
    assert!(is_blank_line("> "));
    assert!(is_blank_line(">  "));
    assert!(is_blank_line(" > "));
    assert!(is_blank_line("  >"));

    // Nested blockquote blank lines
    assert!(is_blank_line("> >"));
    assert!(is_blank_line(">> "));
    assert!(is_blank_line("> > "));

    // Non-blank lines
    assert!(!is_blank_line("text"));
    assert!(!is_blank_line("> text"));
    assert!(!is_blank_line("> > text"));
    assert!(!is_blank_line(">text")); // No space after >, but has content
}

#[test]
fn test_md022_heading_in_blockquote_with_blank_lines() {
    // Issue #275: Headings inside blockquotes with blank lines (>) should be valid
    let content = r#"> ### Command Line Notation
>
> In this chapter and throughout the book, we'll show some commands used in the
> terminal.
"#;
    let document = Document::new(content.to_string(), PathBuf::from("test.md")).unwrap();
    let rule = MD022;
    let violations = rule.check(&document);

    // The `>` line IS a blank line within the blockquote context
    assert_eq!(violations.len(), 0);
}

#[test]
fn test_md022_heading_in_blockquote_missing_blank() {
    // Heading in blockquote without proper blank line
    let content = r#"> ### Command Line Notation
> In this chapter immediately after.
"#;
    let document = Document::new(content.to_string(), PathBuf::from("test.md")).unwrap();
    let rule = MD022;
    let violations = rule.check(&document);

    // Should have 1 violation - missing blank after
    assert_eq!(violations.len(), 1);
    assert!(violations[0].message.contains("followed by a blank line"));
}

#[test]
fn test_md022_valid_headings() {
    let content = MarkdownBuilder::new()
        .heading(1, "Title")
        .blank_line()
        .paragraph("Some content here.")
        .blank_line()
        .heading(2, "Subtitle")
        .blank_line()
        .paragraph("More content.")
        .build();

    assert_no_violations(MD022, &content);
}

#[test]
fn test_md022_missing_blank_before() {
    let content = MarkdownBuilder::new()
        .paragraph("Some text before.")
        .heading(1, "Title")
        .blank_line()
        .paragraph("Content after.")
        .build();

    let violations = assert_violation_count(MD022, &content, 1);
    assert_violation_contains_message(&violations, "preceded by a blank line");
    assert_violation_at_line(&violations, 2);
}

#[test]
fn test_md022_missing_blank_after() {
    let content = MarkdownBuilder::new()
        .heading(1, "Title")
        .paragraph("Content immediately after.")
        .build();

    let violations = assert_violation_count(MD022, &content, 1);
    assert_violation_contains_message(&violations, "followed by a blank line");
    assert_violation_at_line(&violations, 1);
}

#[test]
fn test_md022_missing_both_blanks() {
    let content = MarkdownBuilder::new()
        .paragraph("Text before.")
        .heading(1, "Title")
        .paragraph("Text after.")
        .build();

    let violations = assert_violation_count(MD022, &content, 2);
    assert_violation_contains_message(&violations, "preceded by a blank line");
    assert_violation_contains_message(&violations, "followed by a blank line");
}

#[test]
fn test_md022_start_of_document() {
    let content = MarkdownBuilder::new()
        .heading(1, "Title")
        .blank_line()
        .paragraph("Content after.")
        .build();

    // Should be valid at start of document
    assert_no_violations(MD022, &content);
}

#[test]
fn test_md022_end_of_document() {
    let content = MarkdownBuilder::new()
        .paragraph("Some content.")
        .blank_line()
        .heading(1, "Final Heading")
        .build();

    // Should be valid at end of document
    assert_no_violations(MD022, &content);
}

#[test]
fn test_md022_multiple_headings() {
    let content = MarkdownBuilder::new()
        .heading(1, "Main Title")
        .blank_line()
        .paragraph("Introduction text.")
        .blank_line()
        .heading(2, "Section 1")
        .blank_line()
        .paragraph("Section content.")
        .blank_line()
        .heading(2, "Section 2")
        .blank_line()
        .paragraph("More content.")
        .build();

    assert_no_violations(MD022, &content);
}

#[test]
fn test_md022_consecutive_headings() {
    let content = MarkdownBuilder::new()
        .heading(1, "Main Title")
        .blank_line()
        .heading(2, "Subtitle")
        .blank_line()
        .paragraph("Content.")
        .build();

    assert_no_violations(MD022, &content);
}

#[test]
fn test_md022_mixed_heading_levels() {
    let content = MarkdownBuilder::new()
        .heading(1, "Level 1")
        .blank_line()
        .heading(3, "Level 3")
        .blank_line()
        .heading(2, "Level 2")
        .blank_line()
        .paragraph("Content.")
        .build();

    assert_no_violations(MD022, &content);
}

#[test]
fn test_md022_multiple_violations() {
    let content = MarkdownBuilder::new()
        .paragraph("Text before first heading.")
        .heading(1, "Title")
        .paragraph("No blank lines around this heading.")
        .heading(2, "Subtitle")
        .paragraph("More text.")
        .build();

    let violations = assert_violation_count(MD022, &content, 4);
    // First heading: missing before and after
    // Second heading: missing before and after
    assert_violation_contains_message(&violations, "preceded by a blank line");
    assert_violation_contains_message(&violations, "followed by a blank line");
}

#[test]
fn test_md022_headings_with_other_elements() {
    let content = MarkdownBuilder::new()
        .heading(1, "Document Title")
        .blank_line()
        .blockquote("This is a quote before the next heading.")
        .blank_line()
        .heading(2, "Section with Quote")
        .blank_line()
        .unordered_list(&["Item 1", "Item 2", "Item 3"])
        .blank_line()
        .heading(3, "Section with List")
        .blank_line()
        .code_block("rust", "fn main() {}")
        .build();

    assert_no_violations(MD022, &content);
}

#[test]
fn test_md022_heading_immediately_after_code_block() {
    let content = MarkdownBuilder::new()
        .code_block("rust", "fn main() {}")
        .heading(1, "Heading")
        .blank_line()
        .paragraph("Content.")
        .build();

    let violations = assert_violation_count(MD022, &content, 1);
    assert_violation_contains_message(&violations, "preceded by a blank line");
}

#[test]
fn test_md022_single_heading_document() {
    let content = MarkdownBuilder::new().heading(1, "Only Heading").build();

    // Single heading at start and end of document should be valid
    assert_no_violations(MD022, &content);
}

#[test]
fn test_md022_fix_missing_blank_before() {
    let content = r#"Some text before.
# Title

Content after."#;
    let document = Document::new(content.to_string(), PathBuf::from("test.md")).unwrap();
    let rule = MD022;
    let violations = rule.check(&document);

    assert_eq!(violations.len(), 1);
    assert!(violations[0].fix.is_some());

    let fix = violations[0].fix.as_ref().unwrap();
    assert_eq!(fix.description, "Add blank line before heading");
    assert_eq!(fix.replacement, Some("Some text before.\n".to_string()));
    assert_eq!(fix.start.line, 1);
    assert_eq!(fix.start.column, 1);
}

#[test]
fn test_md022_fix_missing_blank_after() {
    let content = r#"# Title
Content immediately after."#;
    let document = Document::new(content.to_string(), PathBuf::from("test.md")).unwrap();
    let rule = MD022;
    let violations = rule.check(&document);

    assert_eq!(violations.len(), 1);
    assert!(violations[0].fix.is_some());

    let fix = violations[0].fix.as_ref().unwrap();
    assert_eq!(fix.description, "Add blank line after heading");
    assert_eq!(fix.replacement, Some("# Title\n".to_string()));
    assert_eq!(fix.start.line, 1);
    assert_eq!(fix.start.column, 1);
}

#[test]
fn test_md022_fix_both_missing() {
    let content = r#"Text before.
## Heading
Text after."#;
    let document = Document::new(content.to_string(), PathBuf::from("test.md")).unwrap();
    let rule = MD022;
    let violations = rule.check(&document);

    assert_eq!(violations.len(), 2);

    // Check fix for missing blank before
    let before_fix = violations
        .iter()
        .find(|v| v.message.contains("preceded"))
        .unwrap();
    assert!(before_fix.fix.is_some());
    let fix = before_fix.fix.as_ref().unwrap();
    assert_eq!(fix.description, "Add blank line before heading");

    // Check fix for missing blank after
    let after_fix = violations
        .iter()
        .find(|v| v.message.contains("followed"))
        .unwrap();
    assert!(after_fix.fix.is_some());
    let fix = after_fix.fix.as_ref().unwrap();
    assert_eq!(fix.description, "Add blank line after heading");
}

#[test]
fn test_md022_fix_at_document_start() {
    let content = r#"# First Line Heading
No blank line after."#;
    let document = Document::new(content.to_string(), PathBuf::from("test.md")).unwrap();
    let rule = MD022;
    let violations = rule.check(&document);

    // Should only need blank line after, not before (at start of doc)
    assert_eq!(violations.len(), 1);
    assert!(violations[0].message.contains("followed"));
    assert!(violations[0].fix.is_some());
}

#[test]
fn test_md022_fix_multiple_headings() {
    let content = r#"# First
Content
## Second
More content"#;
    let document = Document::new(content.to_string(), PathBuf::from("test.md")).unwrap();
    let rule = MD022;
    let violations = rule.check(&document);

    // Both headings should have violations
    assert!(violations.len() >= 2);

    // All violations should have fixes
    for violation in &violations {
        assert!(violation.fix.is_some());
        let fix = violation.fix.as_ref().unwrap();
        assert!(fix.description.contains("blank line"));
    }
}
