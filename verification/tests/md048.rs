use std::path::PathBuf;
use mdlint_rules::document::Document;
use mdlint_rules::md048::MD048;
use mdlint_rules::md048::FenceStyle;

fn create_test_document(content: &str) -> Document {
    Document::new(content.to_string(), PathBuf::from("test.md")).unwrap()
}

#[test]
fn test_md048_consistent_backtick_style() {
    let content = r#"Here is some backtick fenced code:

```rust
fn main() {
    println!("Hello");
}
```

And another backtick block:

```python
print("Hello")
```
"#;

    let document = create_test_document(content);
    let rule = MD048::new();
    let violations = rule.check(&document);
    assert_eq!(violations.len(), 0);
}

#[test]
fn test_md048_consistent_tilde_style() {
    let content = r#"Here is some tilde fenced code:

~~~rust
fn main() {
    println!("Hello");
}
~~~

And another tilde block:

~~~python
print("Hello")
~~~
"#;

    let document = create_test_document(content);
    let rule = MD048::new();
    let violations = rule.check(&document);
    assert_eq!(violations.len(), 0);
}

#[test]
fn test_md048_mixed_fence_styles_violation() {
    let content = r#"Here is backtick fenced code:

```rust
fn main() {
    println!("Hello");
}
```

And here is tilde fenced code:

~~~python
print("Hello")
~~~
"#;

    let document = create_test_document(content);
    let rule = MD048::new();
    let violations = rule.check(&document);
    assert_eq!(violations.len(), 1);
    assert_eq!(violations[0].rule_id, "MD048");
    assert!(violations[0].message.contains("expected '`' but found '~'"));
}

#[test]
fn test_md048_preferred_backtick_style() {
    let content = r#"Here is tilde fenced code:

~~~rust
fn main() {}
~~~
"#;

    let document = create_test_document(content);
    let rule = MD048::with_style(FenceStyle::Backtick);
    let violations = rule.check(&document);
    assert_eq!(violations.len(), 1);
    assert!(violations[0].message.contains("expected '`' but found '~'"));
}

#[test]
fn test_md048_preferred_tilde_style() {
    let content = r#"Here is backtick fenced code:

```rust
fn main() {}
```
"#;

    let document = create_test_document(content);
    let rule = MD048::with_style(FenceStyle::Tilde);
    let violations = rule.check(&document);
    assert_eq!(violations.len(), 1);
    assert!(violations[0].message.contains("expected '~' but found '`'"));
}

#[test]
fn test_md048_indented_code_blocks_ignored() {
    let content = r#"Backtick fenced:

```rust
fn main() {}
```

Indented code (should be ignored):

    print("hello")

Tilde fenced (should be flagged):

~~~python
print("world")
~~~
"#;

    let document = create_test_document(content);
    let rule = MD048::new();
    let violations = rule.check(&document);
    assert_eq!(violations.len(), 1);
    assert!(violations[0].message.contains("expected '`' but found '~'"));
}

#[test]
fn test_md048_multiple_backtick_blocks() {
    let content = r#"First block:

```rust
fn main() {}
```

Second block:

```python
print("hello")
```

Third block:

```javascript
console.log("hello");
```
"#;

    let document = create_test_document(content);
    let rule = MD048::new();
    let violations = rule.check(&document);
    assert_eq!(violations.len(), 0);
}

#[test]
fn test_md048_multiple_tilde_blocks() {
    let content = r#"First block:

~~~rust
fn main() {}
~~~

Second block:

~~~python
print("hello")
~~~

Third block:

~~~javascript
console.log("hello");
~~~
"#;

    let document = create_test_document(content);
    let rule = MD048::new();
    let violations = rule.check(&document);
    assert_eq!(violations.len(), 0);
}

#[test]
fn test_md048_mixed_multiple_violations() {
    let content = r#"Start with backticks:

```rust
fn main() {}
```

Then tildes (violation):

~~~python
print("hello")
~~~

Then backticks again:

```javascript
console.log("hello");
```

And tildes again (violation):

~~~bash
echo "hello"
~~~
"#;

    let document = create_test_document(content);
    let rule = MD048::new();
    let violations = rule.check(&document);
    assert_eq!(violations.len(), 2);
    assert!(violations[0].message.contains("expected '`' but found '~'"));
    assert!(violations[1].message.contains("expected '`' but found '~'"));
}

#[test]
fn test_md048_no_fenced_code_blocks() {
    let content = r#"This document has no fenced code blocks.

Just regular text and paragraphs.

    This is indented code, not fenced.

And maybe some `inline code` but no fenced blocks.
"#;

    let document = create_test_document(content);
    let rule = MD048::new();
    let violations = rule.check(&document);
    assert_eq!(violations.len(), 0);
}

#[test]
fn test_md048_tilde_first_determines_style() {
    let content = r#"Start with tildes:

~~~rust
fn main() {}
~~~

Then backticks should be flagged:

```python
print("hello")
```
"#;

    let document = create_test_document(content);
    let rule = MD048::new();
    let violations = rule.check(&document);
    assert_eq!(violations.len(), 1);
    assert!(violations[0].message.contains("expected '~' but found '`'"));
}

#[test]
fn test_md048_with_languages() {
    let content = r#"Different languages, same fence style:

```rust
fn main() {}
```

```python
def hello():
    pass
```

```javascript
function hello() {}
```
"#;

    let document = create_test_document(content);
    let rule = MD048::new();
    let violations = rule.check(&document);
    assert_eq!(violations.len(), 0);
}
