use std::path::PathBuf;
use mdlint_rules::violation::Severity;
use mdlint_rules::document::Document;
use mdlint_rules::md013::MD013;
use mdlint_rules::md013::LengthMode;

#[test]
fn test_md013_short_lines() {
    let content = "# Short title\n\nThis is a short line.\nAnother short line.";
    let document = Document::new(content.to_string(), PathBuf::from("test.md")).unwrap();
    let rule = MD013::new();
    let violations = rule.check(&document);

    assert_eq!(violations.len(), 0);
}

#[test]
fn test_md013_long_line() {
    let long_line = "a".repeat(100);
    let content = format!("# Title\n\n{long_line}");
    let document = Document::new(content, PathBuf::from("test.md")).unwrap();
    let rule = MD013::new();
    let violations = rule.check(&document);

    assert_eq!(violations.len(), 1);
    assert_eq!(violations[0].rule_id, "MD013");
    assert_eq!(violations[0].line, 3);
    assert_eq!(violations[0].column, 81);
    assert_eq!(violations[0].severity, Severity::Warning);
    assert!(violations[0].message.contains("100 characters"));
    assert!(violations[0].message.contains("no more than 80"));
}

#[test]
fn test_md013_custom_line_length() {
    let content = "This line is exactly fifty characters long here.";
    let document = Document::new(content.to_string(), PathBuf::from("test.md")).unwrap();
    let rule = MD013::with_line_length(40);
    let violations = rule.check(&document);

    assert_eq!(violations.len(), 1);
    assert!(violations[0].message.contains("48 characters"));
    assert!(violations[0].message.contains("no more than 40"));
}

#[test]
fn test_md013_ignore_headings() {
    let long_heading = format!("# {}", "a".repeat(100));
    let document = Document::new(long_heading, PathBuf::from("test.md")).unwrap();
    let rule = MD013::new(); // ignore_headings is true by default
    let violations = rule.check(&document);

    assert_eq!(violations.len(), 0);
}

#[test]
fn test_md013_ignore_code_blocks() {
    let content = r#"# Title

```rust
let very_long_line_of_code_that_exceeds_the_normal_line_length_limit_but_should_be_ignored = "value";
```

This is a normal line that should be checked."#;

    let document = Document::new(content.to_string(), PathBuf::from("test.md")).unwrap();
    let rule = MD013::new(); // ignore_code_blocks is true by default
    let violations = rule.check(&document);

    assert_eq!(violations.len(), 0);
}

#[test]
fn test_md013_ignore_urls() {
    let content = "https://example.com/very/long/path/that/exceeds/normal/line/length/limits/but/should/be/ignored";
    let document = Document::new(content.to_string(), PathBuf::from("test.md")).unwrap();
    let rule = MD013::new();
    let violations = rule.check(&document);

    assert_eq!(violations.len(), 0);
}

#[test]
fn test_md013_ignore_tables() {
    let content = r#"# Title

| Column 1 with very long content | Column 2 with very long content | Column 3 with very long content |
|----------------------------------|----------------------------------|----------------------------------|
| Data 1 with very long content   | Data 2 with very long content   | Data 3 with very long content   |

This is a normal line that should be checked if it's too long."#;

    let document = Document::new(content.to_string(), PathBuf::from("test.md")).unwrap();
    let rule = MD013::new(); // ignore_tables is true by default
    let violations = rule.check(&document);

    assert_eq!(violations.len(), 0);
}

#[test]
fn test_md013_multiple_violations() {
    let long_line = "a".repeat(100);
    let content = format!("Normal line\n{long_line}\nAnother normal line\n{long_line}");
    let document = Document::new(content, PathBuf::from("test.md")).unwrap();
    let rule = MD013::new();
    let violations = rule.check(&document);

    assert_eq!(violations.len(), 2);
    assert_eq!(violations[0].line, 2);
    assert_eq!(violations[1].line, 4);
}

#[test]
fn test_md013_visual_mode_excludes_urls() {
    // Line with URL that would be too long in strict mode but OK in visual mode
    // "See docs at " (12) + URL (60) + " for details" (12) = 84 chars total
    // Visual length = 84 - 60 = 24 chars (under 80)
    let content = "See docs at https://example.com/very/long/path/to/documentation for details";
    let document = Document::new(content.to_string(), PathBuf::from("test.md")).unwrap();

    // Strict mode should flag it if over limit
    let strict_rule = MD013::new();
    let strict_violations = strict_rule.check(&document);
    // This line is 75 chars, so no violation in strict mode either
    assert_eq!(strict_violations.len(), 0);

    // Now test with a longer line
    let long_content = "See the documentation at https://example.com/very/long/path/to/documentation/that/goes/on/and/on for more details about this feature";
    let long_doc = Document::new(long_content.to_string(), PathBuf::from("test.md")).unwrap();

    // Strict mode should flag it (136 chars)
    let strict_violations = strict_rule.check(&long_doc);
    assert_eq!(strict_violations.len(), 1);

    // Visual mode should not flag it (URL is ~90 chars, remaining text is ~46 chars)
    let mut visual_rule = MD013::new();
    visual_rule.length_mode = LengthMode::Visual;
    let visual_violations = visual_rule.check(&long_doc);
    assert_eq!(visual_violations.len(), 0);
}

#[test]
fn test_md013_visual_mode_multiple_urls() {
    // Line with multiple URLs
    let content = "Check https://example.com/path1 and https://example.com/path2 for info";

    let mut rule = MD013::new();
    rule.length_mode = LengthMode::Visual;

    // Visual length should exclude both URLs
    let visual_len = rule.visual_length(content);
    // Total: 70 chars, URL1: 27 chars, URL2: 27 chars
    // Visual: 70 - 27 - 27 = 16 chars (just "Check ", " and ", " for info")
    assert!(
        visual_len < 25,
        "Visual length should be small: {}",
        visual_len
    );
}

#[test]
fn test_md013_visual_mode_markdown_link() {
    // Markdown link with long URL
    let content =
        "See [the docs](https://example.com/very/long/path/to/documentation) for details";

    let mut rule = MD013::new();
    rule.length_mode = LengthMode::Visual;

    let visual_len = rule.visual_length(content);
    // URL should be excluded from count
    assert!(
        visual_len < 40,
        "Visual length should exclude URL: {}",
        visual_len
    );
}

#[test]
fn test_md013_from_config_length_mode() {
    let config: toml::Value = toml::from_str(
        r#"
            line-length = 100
            length-mode = "visual"
        "#,
    )
    .unwrap();

    let rule = MD013::from_config(&config);
    assert_eq!(rule.line_length, 100);
    assert_eq!(rule.length_mode, LengthMode::Visual);
}

#[test]
fn test_md013_from_config_length_mode_strict() {
    let config: toml::Value = toml::from_str(
        r#"
            length-mode = "strict"
        "#,
    )
    .unwrap();

    let rule = MD013::from_config(&config);
    assert_eq!(rule.length_mode, LengthMode::Strict);
}

#[test]
fn test_md013_visual_length_no_urls() {
    let rule = MD013::new();
    let line = "This is a normal line without any URLs in it.";
    assert_eq!(rule.visual_length(line), line.len());
}
