use std::path::PathBuf;
use mdlint_rules::document::Document;
use mdlint_rules::md032::MD032;
use mdlint_rules::violation::Violation;

/// Builds Markdown text line by line.
struct MarkdownBuilder {
    text: String,
}

impl MarkdownBuilder {
    fn new() -> Self {
        MarkdownBuilder { text: String::new() }
    }

    fn heading(mut self, level: usize, text: &str) -> Self {
        self.text.push_str(&"#".repeat(level));
        self.text.push(' ');
        self.text.push_str(text);
        self.text.push('\n');
        self
    }

    fn blank_line(mut self) -> Self {
        self.text.push('\n');
        self
    }

    fn unordered_list(mut self, items: &[&str]) -> Self {
        for item in items {
            self.text.push_str("- ");
            self.text.push_str(item);
            self.text.push('\n');
        }
        self
    }

    fn ordered_list(mut self, items: &[&str]) -> Self {
        for (i, item) in items.iter().enumerate() {
            self.text.push_str(&format!("{}. {}\n", i + 1, item));
        }
        self
    }

    fn paragraph(mut self, text: &str) -> Self {
        self.text.push_str(text);
        self.text.push('\n');
        self
    }

    fn line(mut self, text: &str) -> Self {
        self.text.push_str(text);
        self.text.push('\n');
        self
    }

    fn build(self) -> String {
        self.text
    }
}

fn check(rule: MD032, content: &str) -> Vec<Violation> {
    let document = Document::new(content.to_string(), PathBuf::from("test.md")).unwrap();
    rule.check(&document)
}

fn assert_no_violations(rule: MD032, content: &str) {
    let violations = check(rule, content);
    assert!(violations.is_empty(), "expected no violations, got {:?}", violations);
}

fn assert_violation_count(rule: MD032, content: &str, count: usize) -> Vec<Violation> {
    let violations = check(rule, content);
    assert_eq!(violations.len(), count, "violations: {:?}", violations);
    violations
}

fn assert_violation_contains_message(violations: &[Violation], text: &str) {
    assert!(
        violations.iter().any(|v| v.message.contains(text)),
        "no violation mentions {:?}: {:?}",
        text,
        violations
    );
}

#[test]
fn test_md032_valid_unordered_list() {
    let content = MarkdownBuilder::new()
        .heading(1, "Title")
        .blank_line()
        .unordered_list(&["Item 1", "Item 2", "Item 3"])
        .blank_line()
        .paragraph("Some text after.")
        .build();

    assert_no_violations(MD032, &content);
}

#[test]
fn test_md032_valid_ordered_list() {
    let content = MarkdownBuilder::new()
        .heading(1, "Title")
        .blank_line()
        .ordered_list(&["First item", "Second item", "Third item"])
        .blank_line()
        .paragraph("Some text after.")
        .build();

    assert_no_violations(MD032, &content);
}

#[test]
fn test_md032_missing_blank_before() {
    let content = MarkdownBuilder::new()
        .heading(1, "Title")
        .unordered_list(&["Item 1", "Item 2", "Item 3"])
        .blank_line()
        .paragraph("Some text after.")
        .build();

    let violations = assert_violation_count(MD032, &content, 1);
    assert_violation_contains_message(&violations, "preceded by a blank line");
}

#[test]
fn test_md032_missing_blank_after() {
    // When there's no blank line after a list, markdown parsers treat
    // the following text as part of the last list item, so no violation occurs
    let content = MarkdownBuilder::new()
        .heading(1, "Title")
        .blank_line()
        .unordered_list(&["Item 1", "Item 2", "Item 3"])
        .paragraph("Some text after.")
        .build();

    // This is actually valid markdown - no violations expected
    assert_no_violations(MD032, &content);
}

#[test]
fn test_md032_missing_both_blanks() {
    let content = MarkdownBuilder::new()
        .heading(1, "Title")
        .unordered_list(&["Item 1", "Item 2", "Item 3"])
        .paragraph("Some text after.")
        .build();

    // Only the "before" violation is detected since "after" becomes part of the list
    let violations = assert_violation_count(MD032, &content, 1);
    assert_violation_contains_message(&violations, "preceded by a blank line");
}

#[test]
fn test_md032_start_of_document() {
    let content = MarkdownBuilder::new()
        .unordered_list(&["Item 1", "Item 2", "Item 3"])
        .blank_line()
        .paragraph("Some text after.")
        .build();

    // Should be valid at start of document
    assert_no_violations(MD032, &content);
}

#[test]
fn test_md032_end_of_document() {
    let content = MarkdownBuilder::new()
        .heading(1, "Title")
        .blank_line()
        .unordered_list(&["Item 1", "Item 2", "Item 3"])
        .build();

    // Should be valid at end of document
    assert_no_violations(MD032, &content);
}

#[test]
fn test_md032_nested_lists_ignored() {
    let content = r#"# Title

- Item 1
  - Nested item 1
  - Nested item 2
- Item 2
- Item 3

Some text after.
"#;
    // Only the top-level list should be checked, nested lists are ignored
    assert_no_violations(MD032, content);
}

#[test]
fn test_md032_multiple_lists() {
    let content = MarkdownBuilder::new()
        .heading(1, "Title")
        .blank_line()
        .unordered_list(&["First list item 1", "First list item 2"])
        .blank_line()
        .paragraph("Some text in between.")
        .blank_line()
        .ordered_list(&["Second list item 1", "Second list item 2"])
        .blank_line()
        .paragraph("End.")
        .build();

    assert_no_violations(MD032, &content);
}

#[test]
fn test_md032_mixed_list_types() {
    // Different list markers create separate lists in markdown
    let content = r#"# Title

- Unordered item

* Different marker

+ Another marker

Some text.

1. Ordered item
2. Another ordered item

End.
"#;
    assert_no_violations(MD032, content);
}

#[test]
fn test_md032_list_with_multiline_items() {
    let content = r#"# Title

- Item 1 with a very long line that wraps
  to multiple lines
- Item 2 which also has
  multiple lines of content
- Item 3

Some text after.
"#;
    assert_no_violations(MD032, content);
}

#[test]
fn test_md032_numbered_list_variations() {
    let content = MarkdownBuilder::new()
        .heading(1, "Title")
        .blank_line()
        .ordered_list(&["Item one", "Item two", "Item three"])
        .blank_line()
        .paragraph("Text between.")
        .blank_line()
        .line("1) Parenthesis style")
        .line("2) Another item")
        .line("3) Third item")
        .blank_line()
        .paragraph("End.")
        .build();

    assert_no_violations(MD032, &content);
}

#[test]
fn test_md032_markdown_parsing_behavior() {
    // This test documents how markdown parsers handle lists without blank lines
    let content = "# Title\n\n- Item 1\n- Item 2\n- Item 3\nText immediately after.";

    // In markdown, text without a blank line after a list becomes part of the last item
    // So this is actually valid markdown structure - no violations expected
    assert_no_violations(MD032, content);
}
