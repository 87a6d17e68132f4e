use std::path::PathBuf;
use mdlint_rules::document::Document;
use mdlint_rules::md024::MD024;

#[test]
fn test_md024_no_violations() {
    let content = r#"# Unique First Heading
## Unique Second Heading
### Unique Third Heading
## Another Unique Second Heading
### Another Unique Third Heading
"#;
    let document = Document::new(content.to_string(), PathBuf::from("test.md")).unwrap();
    let rule = MD024::new();
    let violations = rule.check(&document);

    assert_eq!(violations.len(), 0);
}

#[test]
fn test_md024_duplicate_headings_violation() {
    let content = r#"# Introduction
## Getting Started
### Installation
## Getting Started
### Configuration
"#;
    let document = Document::new(content.to_string(), PathBuf::from("test.md")).unwrap();
    let rule = MD024::new();
    let violations = rule.check(&document);

    assert_eq!(violations.len(), 1);
    assert!(violations[0].message.contains("Duplicate heading content"));
    assert!(violations[0].message.contains("Getting Started"));
    assert!(violations[0].message.contains("first occurrence at line 2"));
    assert_eq!(violations[0].line, 4);
}

#[test]
fn test_md024_case_insensitive_duplicates() {
    let content = r#"# Getting Started
## Configuration
### getting started
## CONFIGURATION
"#;
    let document = Document::new(content.to_string(), PathBuf::from("test.md")).unwrap();
    let rule = MD024::new();
    let violations = rule.check(&document);

    assert_eq!(violations.len(), 2);
    assert!(violations[0].message.contains("getting started"));
    assert!(violations[1].message.contains("CONFIGURATION"));
}

#[test]
fn test_md024_whitespace_normalization() {
    let content = r#"# Getting   Started
## Multiple    Spaces
### Getting Started
## Multiple Spaces
"#;
    let document = Document::new(content.to_string(), PathBuf::from("test.md")).unwrap();
    let rule = MD024::new();
    let violations = rule.check(&document);

    assert_eq!(violations.len(), 2);
    assert!(violations[0].message.contains("Getting Started"));
    assert!(violations[1].message.contains("Multiple Spaces"));
}

#[test]
fn test_md024_siblings_only_mode() {
    let content = r#"# Main Heading
## Introduction
### Introduction
## Configuration
### Configuration
"#;
    let document = Document::new(content.to_string(), PathBuf::from("test.md")).unwrap();
    let rule = MD024::with_siblings_only(true);
    let violations = rule.check(&document);

    // Should only detect duplicates at the same level
    // Both "Introduction" headings are at different levels (## vs ###), so no violations
    // Both "Configuration" headings are at different levels (## vs ###), so no violations
    assert_eq!(violations.len(), 0);
}

#[test]
fn test_md024_siblings_only_with_same_level_duplicates() {
    let content = r#"# Main Heading
## Introduction
## Configuration
## Introduction
### Different Level Introduction
"#;
    let document = Document::new(content.to_string(), PathBuf::from("test.md")).unwrap();
    let rule = MD024::with_siblings_only(true);
    let violations = rule.check(&document);

    // Should detect the duplicate "Introduction" at level 2, but ignore the level 3 one
    assert_eq!(violations.len(), 1);
    assert!(
        violations[0]
            .message
            .contains("Duplicate heading content at level 2")
    );
    assert!(violations[0].message.contains("Introduction"));
    assert_eq!(violations[0].line, 4);
}

#[test]
fn test_md024_multiple_duplicates() {
    let content = r#"# Main
## Section A
### Subsection
## Section B
### Subsection
## Section A
### Another Subsection
### Subsection
"#;
    let document = Document::new(content.to_string(), PathBuf::from("test.md")).unwrap();
    let rule = MD024::new();
    let violations = rule.check(&document);

    assert_eq!(violations.len(), 3);

    // Check that all duplicates are detected
    let messages: Vec<&str> = violations.iter().map(|v| v.message.as_str()).collect();
    assert!(
        messages
            .iter()
            .any(|m| m.contains("Subsection") && m.contains("line 3"))
    );
    assert!(
        messages
            .iter()
            .any(|m| m.contains("Section A") && m.contains("line 2"))
    );
    assert!(
        messages
            .iter()
            .any(|m| m.contains("Subsection") && m.contains("line 3"))
    );
}

#[test]
fn test_md024_empty_headings_ignored() {
    let content = r#"# Main Heading
##
###
## Valid Heading
###
## Valid Heading
"#;
    let document = Document::new(content.to_string(), PathBuf::from("test.md")).unwrap();
    let rule = MD024::new();
    let violations = rule.check(&document);

    // Should only detect the duplicate "Valid Heading", not the empty ones
    assert_eq!(violations.len(), 1);
    assert!(violations[0].message.contains("Valid Heading"));
}

#[test]
fn test_md024_mixed_heading_types() {
    let content = r#"# ATX Heading

Setext Heading
==============

## Another Section

ATX Heading
-----------

### Final Section
"#;
    let document = Document::new(content.to_string(), PathBuf::from("test.md")).unwrap();
    let rule = MD024::new();
    let violations = rule.check(&document);

    // Should detect duplicate "ATX Heading" regardless of heading style
    assert_eq!(violations.len(), 1);
    assert!(violations[0].message.contains("ATX Heading"));
}

#[test]
fn test_md024_headings_with_formatting() {
    let content = r#"# Introduction to **Markdown**
## Getting Started
### Introduction to Markdown
## *Getting* Started
"#;
    let document = Document::new(content.to_string(), PathBuf::from("test.md")).unwrap();
    let rule = MD024::new();
    let violations = rule.check(&document);

    // Should detect duplicates based on text content, ignoring markdown formatting
    // document.node_text() correctly extracts plain text without formatting markers
    assert_eq!(violations.len(), 2); // Both pairs are duplicates when formatting is ignored
    assert!(violations[0].message.contains("Introduction to Markdown"));
    assert!(violations[1].message.contains("Getting Started"));
}

#[test]
fn test_md024_long_document_with_sections() {
    let content = r#"# User Guide

## Installation
### Prerequisites
### Download
### Setup

## Configuration
### Basic Settings
### Advanced Settings

## Usage
### Getting Started
### Advanced Features

## Troubleshooting
### Common Issues
### Getting Started

## Reference
### API Documentation
### Configuration
"#;
    let document = Document::new(content.to_string(), PathBuf::from("test.md")).unwrap();
    let rule = MD024::new();
    let violations = rule.check(&document);

    assert_eq!(violations.len(), 2);

    // Should detect "Getting Started" and "Configuration" duplicates
    let violation_texts: Vec<String> = violations.iter().map(|v| v.message.clone()).collect();
    assert!(
        violation_texts
            .iter()
            .any(|m| m.contains("Getting Started"))
    );
    assert!(violation_texts.iter().any(|m| m.contains("Configuration")));
}
