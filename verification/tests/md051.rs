use std::path::PathBuf;
use mdlint_rules::document::Document;
use mdlint_rules::md051::MD051;
use mdlint_rules::violation::Violation;

fn run(rule: &MD051, content: &str) -> Vec<Violation> {
    let document = Document::new(content.to_string(), PathBuf::from("test.md")).unwrap();
    rule.check(&document)
}

fn assert_no_violations(rule: MD051, content: &str) {
    let violations = run(&rule, content);
    assert!(violations.is_empty(), "expected no violations, got {:?}", violations);
}

fn assert_single_violation(rule: MD051, content: &str) -> Violation {
    let mut violations = run(&rule, content);
    assert_eq!(violations.len(), 1, "expected one violation, got {:?}", violations);
    violations.remove(0)
}

#[test]
fn test_valid_fragments() {
    let content = r#"# Heading Name

[Link](#heading-name)

## Another Heading

[Another link](#another-heading)

<div id="custom-id"></div>
[Custom](#custom-id)

<a name="bookmark"></a>
[Bookmark](#bookmark)

[Top link](#top)
"#;

    assert_no_violations(MD051::new(), content);
}

#[test]
fn test_invalid_fragments() {
    let content = r#"# Heading Name

[Invalid link](#invalid-fragment)
"#;

    let violation = assert_single_violation(MD051::new(), content);
    assert_eq!(violation.line, 3);
    assert!(violation.message.contains("invalid-fragment"));
}

#[test]
fn test_duplicate_headings() {
    let content = r#"# Test

[Link 1](#test)

# Test

[Link 2](#test-1)
"#;

    assert_no_violations(MD051::new(), content);
}

#[test]
fn test_github_line_references() {
    let content = r#"# Code

[Line 20](#L20)
[Range](#L19C5-L21C11)
"#;

    assert_no_violations(MD051::new(), content);
}

#[test]
fn test_case_sensitivity() {
    let content = r#"# Heading Name

[Link](#Heading-Name)
"#;

    let violation = assert_single_violation(MD051::new(), content);
    assert_eq!(violation.line, 3);

    assert_no_violations(MD051::new().ignore_case(true), content);
}

#[test]
fn test_custom_anchor() {
    let content = r#"# Heading Name {#custom-anchor}

[Link](#custom-anchor)
"#;

    assert_no_violations(MD051::new(), content);
}

#[test]
fn test_empty_fragment() {
    let content = r#"# Heading

[Empty fragment](#)
"#;

    let violation = assert_single_violation(MD051::new(), content);
    assert_eq!(violation.line, 3);
}

#[test]
fn test_html_id_attributes() {
    let content = r#"# Heading

<div id="custom-id">Content</div>
<span id="another-id">Text</span>

[Link to div](#custom-id)
[Link to span](#another-id)
"#;

    assert_no_violations(MD051::new(), content);
}

#[test]
fn test_html_name_attributes() {
    let content = r#"# Heading

<a name="anchor-name"></a>
<div name="form-element">Content</div>

[Link to anchor](#anchor-name)
[Link to element](#form-element)
"#;

    assert_no_violations(MD051::new(), content);
}

#[test]
fn test_html_block_extraction() {
    let content = r#"# Heading

<div class="content">
  <p id="paragraph-id">Text</p>
  <a name="link-name" href="/test">Link</a>
</div>

[Link to paragraph](#paragraph-id)
[Link to anchor](#link-name)
"#;

    assert_no_violations(MD051::new(), content);
}

#[test]
fn test_html_inline_extraction() {
    let content = r#"# Heading

This is text with <span id="inline-id">inline HTML</span> and <a name="inline-name">anchor</a>.

[Link to inline](#inline-id)
[Link to anchor](#inline-name)
"#;

    assert_no_violations(MD051::new(), content);
}

#[test]
fn test_complex_fragment_generation() {
    let content = r#"# Complex Heading with (Parentheses) & Symbols!

[Link](#complex-heading-with-parentheses--symbols)

## Another_Complex-Title 123

[Another link](#another_complex-title-123)

### Multiple   Spaces   Between   Words

[Space link](#multiple-spaces-between-words)
"#;

    assert_no_violations(MD051::new(), content);
}

#[test]
fn test_dash_consolidation() {
    let content = r#"# Title---With----Multiple-----Dashes

[Link](#title-with-multiple-dashes)

## --Leading-And-Trailing--

[Another link](#leading-and-trailing)
"#;

    assert_no_violations(MD051::new(), content);
}

#[test]
fn test_unicode_and_special_chars() {
    let content = r#"# Heading with émojis 🚀 and ñ

[Unicode link](#heading-with-émojis--and-ñ)

## Code `inline` and **bold**

[Code link](#code-inline-and-bold)
"#;

    assert_no_violations(MD051::new(), content);
}

#[test]
fn test_custom_anchor_validation() {
    let content = r#"# Valid Custom {#valid-anchor}

[Link](#valid-anchor)

# Invalid Custom {#invalid anchor}

[Bad link](#invalid-anchor)
"#;

    // Should have one violation for the invalid custom anchor reference
    let violation = assert_single_violation(MD051::new(), content);
    assert_eq!(violation.line, 7);
    assert!(violation.message.contains("invalid-anchor"));
}

#[test]
fn test_custom_anchor_edge_cases() {
    let content = r#"# Empty Custom {#}

# Valid Custom {#test123}

[Link](#test123)

# Invalid Chars {#test@123}

# Nested {#outer {#inner} }
"#;

    assert_no_violations(MD051::new(), content);
}

#[test]
fn test_github_line_references_detailed() {
    let content = r#"# Code Examples

[Line reference](#L42)
[Line range](#L10-L20)
[Complex range](#L15C3-L25C10)
[Another format](#L1C1-L1C5)
"#;

    assert_no_violations(MD051::new(), content);
}

#[test]
fn test_multiple_document_types() {
    let content = r#"# Main Heading

Regular text here.

<div id="html-id">HTML content</div>

<a name="html-name">Anchor</a>

## Sub Heading {#custom-sub}

More content.

[Link to main](#main-heading)
[Link to sub](#custom-sub)
[Link to HTML ID](#html-id)
[Link to HTML name](#html-name)
[GitHub reference](#L100)
[Invalid reference](#Invalid-Reference)
"#;

    let violation = assert_single_violation(MD051::new(), content);
    assert_eq!(violation.line, 18);
    assert!(violation.message.contains("Invalid-Reference"));
}

#[test]
fn test_duplicate_heading_numbering() {
    let content = r#"# Test

[First link](#test)

# Test

[Second link](#test-1)

# Test

[Third link](#test-2)

# Different

[Different link](#different)
"#;

    assert_no_violations(MD051::new(), content);
}

#[test]
fn test_html_parsing_edge_cases() {
    let content = r#"# Heading

<!-- Comment with id="not-real" -->
<div id='single-quotes'>Content</div>
<span id="no-closing-quote>Broken</span>
<p id=unquoted-id>Unquoted</p>

[Single quotes](#single-quotes)
[Unquoted](#unquoted-id)
"#;

    assert_no_violations(MD051::new(), content);
}

#[test]
fn test_configuration_options() {
    let content = r#"# Test Heading

[Case mismatch](#Test-Heading)
"#;

    // Default case sensitive - should fail
    let violation = assert_single_violation(MD051::new(), content);
    assert_eq!(violation.line, 3);

    // Case insensitive - should pass
    assert_no_violations(MD051::new().ignore_case(true), content);
}

#[test]
fn test_ignored_pattern() {
    let content = r#"# Heading

[External link](#external-pattern)
[Normal link](#invalid-fragment)
"#;

    // With ignored pattern, first link should pass, second should fail
    let rule = MD051::new().ignored_pattern(Some("external-*".to_string()));
    let violation = assert_single_violation(rule, content);
    assert_eq!(violation.line, 4);
    assert!(violation.message.contains("invalid-fragment"));
}

#[test]
fn test_empty_document() {
    let content = "";
    assert_no_violations(MD051::new(), content);
}

#[test]
fn test_no_headings_no_fragments() {
    let content = r#"Just some text without headings.

[Invalid link](#Invalid-Fragment)
"#;

    let violation = assert_single_violation(MD051::new(), content);
    assert_eq!(violation.line, 3);
    assert!(violation.message.contains("Invalid-Fragment"));
}

#[test]
fn test_top_fragment() {
    let content = r#"# Heading

[Link to top](#top)
"#;

    assert_no_violations(MD051::new(), content);
}

#[test]
fn test_malformed_html() {
    let content = r#"# Heading

<div id=>Empty value</div>
<span id>No value</span>
<p id="unclosed>Bad quote</p>

[Should still work](#heading)
"#;

    assert_no_violations(MD051::new(), content);
}

#[test]
fn test_nested_html_elements() {
    let content = r#"# Heading

<div class="outer">
  <div id="nested-id">
    <span name="deep-name">Content</span>
  </div>
</div>

[Link to nested](#nested-id)
[Link to deep](#deep-name)
"#;

    assert_no_violations(MD051::new(), content);
}

#[test]
fn test_heading_with_code_and_emphasis() {
    let content = r#"# Title with `code` and **bold** and *italic*

[Link](#title-with-code-and-bold-and-italic)

## Another `complex` **formatting** example

[Another link](#another-complex-formatting-example)
"#;

    assert_no_violations(MD051::new(), content);
}
