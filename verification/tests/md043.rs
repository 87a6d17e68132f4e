use std::path::PathBuf;
use mdlint_rules::document::Document;
use mdlint_rules::md043::MD043;

fn create_test_document(content: &str) -> Document {
    Document::new(content.to_string(), PathBuf::from("test.md")).unwrap()
}

#[test]
fn test_md043_no_required_structure() {
    let content = r#"# Any Heading

## Any Subheading

### Any Sub-subheading
"#;

    let document = create_test_document(content);
    let rule = MD043::new();
    let violations = rule.check(&document);
    assert_eq!(violations.len(), 0); // No requirements, so no violations
}

#[test]
fn test_md043_correct_structure() {
    let content = r#"# Introduction

## Getting Started

## Configuration
"#;

    let required_headings = vec![
        "Introduction".to_string(),
        "Getting Started".to_string(),
        "Configuration".to_string(),
    ];

    let document = create_test_document(content);
    let rule = MD043::with_headings(required_headings);
    let violations = rule.check(&document);
    assert_eq!(violations.len(), 0);
}

#[test]
fn test_md043_incorrect_heading_text() {
    let content = r#"# Introduction

## Getting Started

## Setup
"#;

    let required_headings = vec![
        "Introduction".to_string(),
        "Getting Started".to_string(),
        "Configuration".to_string(),
    ];

    let document = create_test_document(content);
    let rule = MD043::with_headings(required_headings);
    let violations = rule.check(&document);
    assert_eq!(violations.len(), 1);
    assert_eq!(violations[0].rule_id, "MD043");
    assert!(
        violations[0]
            .message
            .contains("Expected heading 'Configuration' but found 'Setup'")
    );
    assert_eq!(violations[0].line, 5);
}

#[test]
fn test_md043_missing_headings() {
    let content = r#"# Introduction

## Getting Started
"#;

    let required_headings = vec![
        "Introduction".to_string(),
        "Getting Started".to_string(),
        "Configuration".to_string(),
    ];

    let document = create_test_document(content);
    let rule = MD043::with_headings(required_headings);
    let violations = rule.check(&document);
    assert_eq!(violations.len(), 1);
    assert!(
        violations[0]
            .message
            .contains("should have at least 3 headings but found 2")
    );
}

#[test]
fn test_md043_case_insensitive_matching() {
    let content = r#"# INTRODUCTION

## getting started

## Configuration
"#;

    let required_headings = vec![
        "Introduction".to_string(),
        "Getting Started".to_string(),
        "Configuration".to_string(),
    ];

    let document = create_test_document(content);
    let rule = MD043::with_headings(required_headings);
    let violations = rule.check(&document);
    assert_eq!(violations.len(), 0); // Case-insensitive matching should work
}

#[test]
fn test_md043_extra_headings_allowed() {
    let content = r#"# Introduction

## Getting Started

## Configuration

## Advanced Topics

### Customization
"#;

    let required_headings = vec![
        "Introduction".to_string(),
        "Getting Started".to_string(),
        "Configuration".to_string(),
    ];

    let document = create_test_document(content);
    let rule = MD043::with_headings(required_headings);
    let violations = rule.check(&document);
    assert_eq!(violations.len(), 0); // Extra headings are allowed
}

#[test]
fn test_md043_first_heading_wrong() {
    let content = r#"# Overview

## Getting Started

## Configuration
"#;

    let required_headings = vec![
        "Introduction".to_string(),
        "Getting Started".to_string(),
        "Configuration".to_string(),
    ];

    let document = create_test_document(content);
    let rule = MD043::with_headings(required_headings);
    let violations = rule.check(&document);
    assert_eq!(violations.len(), 1);
    assert!(
        violations[0]
            .message
            .contains("Expected heading 'Introduction' but found 'Overview'")
    );
    assert_eq!(violations[0].line, 1);
}

#[test]
fn test_md043_multiple_violations() {
    let content = r#"# Overview

## Setup

## Deployment
"#;

    let required_headings = vec![
        "Introduction".to_string(),
        "Getting Started".to_string(),
        "Configuration".to_string(),
    ];

    let document = create_test_document(content);
    let rule = MD043::with_headings(required_headings);
    let violations = rule.check(&document);
    assert_eq!(violations.len(), 3); // All three headings are wrong
    assert!(
        violations[0]
            .message
            .contains("Expected heading 'Introduction' but found 'Overview'")
    );
    assert!(
        violations[1]
            .message
            .contains("Expected heading 'Getting Started' but found 'Setup'")
    );
    assert!(
        violations[2]
            .message
            .contains("Expected heading 'Configuration' but found 'Deployment'")
    );
}

#[test]
fn test_md043_headings_with_formatting() {
    let content = r#"# **Introduction**

## *Getting Started*

## Configuration
"#;

    let required_headings = vec![
        "Introduction".to_string(),
        "Getting Started".to_string(),
        "Configuration".to_string(),
    ];

    let document = create_test_document(content);
    let rule = MD043::with_headings(required_headings);
    let violations = rule.check(&document);
    assert_eq!(violations.len(), 0); // Should extract text content ignoring formatting
}

#[test]
fn test_md043_headings_with_code() {
    let content = r#"# Introduction

## Getting Started with `npm`

## Configuration
"#;

    let required_headings = vec![
        "Introduction".to_string(),
        "Getting Started with npm".to_string(),
        "Configuration".to_string(),
    ];

    let document = create_test_document(content);
    let rule = MD043::with_headings(required_headings);
    let violations = rule.check(&document);
    assert_eq!(violations.len(), 0);
}

#[test]
fn test_md043_whitespace_handling() {
    let content = r#"#   Introduction

##    Getting Started

##  Configuration
"#;

    let required_headings = vec![
        "Introduction".to_string(),
        "Getting Started".to_string(),
        "Configuration".to_string(),
    ];

    let document = create_test_document(content);
    let rule = MD043::with_headings(required_headings);
    let violations = rule.check(&document);
    assert_eq!(violations.len(), 0); // Should handle whitespace properly
}
