use std::path::PathBuf;
use mdlint_rules::document::Document;
use mdlint_rules::md033::MD033;

#[test]
fn test_md033_no_violations() {
    let content = r#"# Valid Markdown

This document contains only valid Markdown:

**Bold text** and *italic text*.

`code spans` are fine.

```html
<p>HTML in code blocks is fine</p>
<div class="example">
    <span>This is ignored</span>
</div>
```

[Links](https://example.com) are good.

> Blockquotes are fine

- List items
- More items

## Another heading

Regular paragraphs without HTML.
"#;
    let document = Document::new(content.to_string(), PathBuf::from("test.md")).unwrap();
    let rule = MD033;
    let violations = rule.check(&document);

    assert_eq!(violations.len(), 0);
}

#[test]
fn test_md033_html_violations() {
    let content = r#"# Document with HTML

This paragraph has <strong>inline HTML</strong>.

<p>This is a paragraph tag.</p>

Some text with <em>emphasis</em> and <code>code</code> tags.

<div class="container">
Block level HTML
</div>

More content with <span class="highlight">spans</span>.
"#;
    let document = Document::new(content.to_string(), PathBuf::from("test.md")).unwrap();
    let rule = MD033;
    let violations = rule.check(&document);

    // Only opening tags are flagged, not closing tags
    assert_eq!(violations.len(), 6);
    assert!(violations[0].message.contains("<strong>"));
    assert!(violations[1].message.contains("<p>"));
    assert!(violations[2].message.contains("<em>"));
    assert!(violations[3].message.contains("<code>"));
    assert!(violations[4].message.contains("<div"));
    assert!(violations[5].message.contains("<span"));
}

#[test]
fn test_md033_html_comments_not_flagged() {
    // Issue #280: HTML comments should NOT be flagged
    let content = r#"# Document with HTML Comments

This has <!-- a comment --> in it.

Regular text here.

<!-- Another comment -->

<!-- ignore -->
"#;
    let document = Document::new(content.to_string(), PathBuf::from("test.md")).unwrap();
    let rule = MD033;
    let violations = rule.check(&document);

    // HTML comments should not be flagged
    assert_eq!(violations.len(), 0);
}

#[test]
fn test_md033_code_blocks_ignored() {
    let content = r#"# Code Blocks Should Be Ignored

```html
<div class="example">
    <p>This HTML should be ignored</p>
    <span>Even this</span>
</div>
```

But this <strong>should be detected</strong>.

```javascript
const html = '<div>This is in JS code</div>';
```

And this <em>should also be detected</em>.

~~~html
<article>
    <header>More HTML to ignore</header>
</article>
~~~
"#;
    let document = Document::new(content.to_string(), PathBuf::from("test.md")).unwrap();
    let rule = MD033;
    let violations = rule.check(&document);

    // Only opening tags flagged, closing tags skipped
    assert_eq!(violations.len(), 2);
    assert!(violations[0].message.contains("<strong>"));
    assert!(violations[1].message.contains("<em>"));
}

#[test]
fn test_md033_inline_code_ignored() {
    let content = r#"# Inline Code Should Be Ignored

This `<span>HTML in backticks</span>` should be ignored.

But this <div>should be detected</div>.

Use `<strong>` tags for bold text, but don't use <strong>actual tags</strong>.

Multiple `<code>` spans with `<em>emphasis</em>` should be ignored.
"#;
    let document = Document::new(content.to_string(), PathBuf::from("test.md")).unwrap();
    let rule = MD033;
    let violations = rule.check(&document);

    // Only opening tags flagged, closing tags skipped
    assert_eq!(violations.len(), 2);
    assert!(violations[0].message.contains("<div>"));
    assert!(violations[1].message.contains("<strong>"));
}

#[test]
fn test_md033_mixed_content() {
    let content = r#"# Mixed Content

Regular text with <b>bold HTML</b> tag.

```html
<p>This should be ignored</p>
```

Back to regular content with <i>italic</i>.

The `<em>` tag is mentioned in code, but <em>this usage</em> is flagged.

More `<span class="test">code examples</span>` that should be ignored.

Final <strong>HTML usage</strong> to detect.
"#;
    let document = Document::new(content.to_string(), PathBuf::from("test.md")).unwrap();
    let rule = MD033;
    let violations = rule.check(&document);

    // Only opening tags flagged, closing tags skipped
    assert_eq!(violations.len(), 4);
    assert!(violations[0].message.contains("<b>"));
    assert!(violations[1].message.contains("<i>"));
    assert!(violations[2].message.contains("<em>"));
    assert!(violations[3].message.contains("<strong>"));
}

#[test]
fn test_md033_closing_tags_not_flagged() {
    // Issue #280: Closing tags should NOT be flagged separately
    let content = r#"# Document with Closing Tags

Text with </div> orphan closing tag.

And </span> another one.

Proper usage: <strong>bold</strong> text.
"#;
    let document = Document::new(content.to_string(), PathBuf::from("test.md")).unwrap();
    let rule = MD033;
    let violations = rule.check(&document);

    // Only the opening <strong> tag should be flagged
    assert_eq!(violations.len(), 1);
    assert!(violations[0].message.contains("<strong>"));
}
