use std::path::PathBuf;
use mdlint_rules::document::Document;
use mdlint_rules::md023::MD023;

fn create_test_document(content: &str) -> Document {
    Document::new(content.to_string(), PathBuf::from("test.md")).unwrap()
}

#[test]
fn test_md023_valid_headings() {
    let content = "# Heading 1\n## Heading 2\n### Heading 3";
    let document = create_test_document(content);
    let rule = MD023;
    let violations = rule.check(&document);

    assert_eq!(violations.len(), 0);
}

#[test]
fn test_md023_single_space_indent() {
    let content = " # Indented heading";
    let document = create_test_document(content);
    let rule = MD023;
    let violations = rule.check(&document);

    assert_eq!(violations.len(), 1);
    assert_eq!(violations[0].rule_id, "MD023");
    assert_eq!(violations[0].line, 1);
    assert_eq!(violations[0].column, 1);
    assert!(violations[0].message.contains("indented by 1 character"));
}

#[test]
fn test_md023_multiple_spaces_indent() {
    let content = "   ## Heading with 3 spaces";
    let document = create_test_document(content);
    let rule = MD023;
    let violations = rule.check(&document);

    assert_eq!(violations.len(), 1);
    assert!(violations[0].message.contains("indented by 3 characters"));
}

#[test]
fn test_md023_tab_indent() {
    let content = "\t# Tab indented heading";
    let document = create_test_document(content);
    let rule = MD023;
    let violations = rule.check(&document);

    assert_eq!(violations.len(), 1);
    assert!(violations[0].message.contains("indented by 1 character"));
}

#[test]
fn test_md023_mixed_whitespace_indent() {
    let content = " \t # Mixed whitespace indent";
    let document = create_test_document(content);
    let rule = MD023;
    let violations = rule.check(&document);

    assert_eq!(violations.len(), 1);
    assert!(violations[0].message.contains("indented by 3 characters"));
}

#[test]
fn test_md023_multiple_violations() {
    let content = " # Heading 1\n## Valid heading\n  ### Heading 3\n#### Valid heading";
    let document = create_test_document(content);
    let rule = MD023;
    let violations = rule.check(&document);

    assert_eq!(violations.len(), 2);
    assert_eq!(violations[0].line, 1);
    assert_eq!(violations[1].line, 3);
}

#[test]
fn test_md023_setext_headings_ignored() {
    let content = "  Setext Heading\n  ==============\n\n  Another Setext\n  --------------";
    let document = create_test_document(content);
    let rule = MD023;
    let violations = rule.check(&document);

    // Setext headings should not trigger this rule (they don't start with #)
    assert_eq!(violations.len(), 0);
}

#[test]
fn test_md023_code_blocks_detected() {
    let content = "```\n  # This is in a code block\n  ## Should trigger\n```";
    let document = create_test_document(content);
    let rule = MD023;
    let violations = rule.check(&document);

    // Simple line-based approach will detect indented # as violations
    // even in code blocks (more sophisticated parsing would be needed to avoid this)
    assert_eq!(violations.len(), 2);
    assert_eq!(violations[0].line, 2);
    assert_eq!(violations[1].line, 3);
}

#[test]
fn test_md023_blockquote_headings() {
    let content = "> # Heading in blockquote\n>  ## Indented heading in blockquote";
    let document = create_test_document(content);
    let rule = MD023;
    let violations = rule.check(&document);

    // Simple line-based approach doesn't understand blockquote context
    // so it won't detect these as headings since they don't start with #
    assert_eq!(violations.len(), 0);
}

#[test]
fn test_md023_closed_atx_headings() {
    let content = "  # Indented closed heading #\n   ## Another indented ##";
    let document = create_test_document(content);
    let rule = MD023;
    let violations = rule.check(&document);

    assert_eq!(violations.len(), 2);
    assert!(violations[0].message.contains("indented by 2 characters"));
    assert!(violations[1].message.contains("indented by 3 characters"));
}

#[test]
fn test_md023_shebang_lines_ignored() {
    let content =
        "#!/bin/bash\n  #This should trigger\n  #!/usr/bin/env python3\n# This is valid";
    let document = create_test_document(content);
    let rule = MD023;
    let violations = rule.check(&document);

    // Only the actual indented heading should trigger, not shebangs
    assert_eq!(violations.len(), 1);
    assert_eq!(violations[0].line, 2);
    assert!(violations[0].message.contains("indented by 2 characters"));
}

#[test]
fn test_md023_fix_single_space_indent() {
    let content = " # Heading";
    let document = create_test_document(content);
    let rule = MD023;
    let violations = rule.check(&document);

    assert_eq!(violations.len(), 1);
    assert!(violations[0].fix.is_some());
    let fix = violations[0].fix.as_ref().unwrap();
    assert_eq!(fix.replacement.as_ref().unwrap(), "# Heading\n");
    assert_eq!(fix.description, "Remove 1 character of indentation");
}

#[test]
fn test_md023_fix_multiple_spaces_indent() {
    let content = "    ## Heading with 4 spaces";
    let document = create_test_document(content);
    let rule = MD023;
    let violations = rule.check(&document);

    assert_eq!(violations.len(), 1);
    let fix = violations[0].fix.as_ref().unwrap();
    assert_eq!(
        fix.replacement.as_ref().unwrap(),
        "## Heading with 4 spaces\n"
    );
    assert_eq!(fix.description, "Remove 4 characters of indentation");
}

#[test]
fn test_md023_fix_tab_indent() {
    let content = "\t# Tab indented";
    let document = create_test_document(content);
    let rule = MD023;
    let violations = rule.check(&document);

    assert_eq!(violations.len(), 1);
    let fix = violations[0].fix.as_ref().unwrap();
    assert_eq!(fix.replacement.as_ref().unwrap(), "# Tab indented\n");
    assert_eq!(fix.description, "Remove 1 character of indentation");
}

#[test]
fn test_md023_fix_mixed_whitespace() {
    let content = " \t ### Mixed indent";
    let document = create_test_document(content);
    let rule = MD023;
    let violations = rule.check(&document);

    assert_eq!(violations.len(), 1);
    let fix = violations[0].fix.as_ref().unwrap();
    assert_eq!(fix.replacement.as_ref().unwrap(), "### Mixed indent\n");
    assert_eq!(fix.description, "Remove 3 characters of indentation");
}

#[test]
fn test_md023_fix_closed_atx() {
    let content = "  ## Closed heading ##";
    let document = create_test_document(content);
    let rule = MD023;
    let violations = rule.check(&document);

    assert_eq!(violations.len(), 1);
    let fix = violations[0].fix.as_ref().unwrap();
    assert_eq!(fix.replacement.as_ref().unwrap(), "## Closed heading ##\n");
}

#[test]
fn test_md023_fix_multiple_headings() {
    let content = " # First\n  ## Second\n   ### Third";
    let document = create_test_document(content);
    let rule = MD023;
    let violations = rule.check(&document);

    assert_eq!(violations.len(), 3);
    assert_eq!(
        violations[0]
            .fix
            .as_ref()
            .unwrap()
            .replacement
            .as_ref()
            .unwrap(),
        "# First\n"
    );
    assert_eq!(
        violations[1]
            .fix
            .as_ref()
            .unwrap()
            .replacement
            .as_ref()
            .unwrap(),
        "## Second\n"
    );
    assert_eq!(
        violations[2]
            .fix
            .as_ref()
            .unwrap()
            .replacement
            .as_ref()
            .unwrap(),
        "### Third\n"
    );
}

#[test]
fn test_md023_fix_position_accuracy() {
    let content = "  # Indented";
    let document = create_test_document(content);
    let rule = MD023;
    let violations = rule.check(&document);

    assert_eq!(violations.len(), 1);
    let fix = violations[0].fix.as_ref().unwrap();
    assert_eq!(fix.start.line, 1);
    assert_eq!(fix.start.column, 1);
    assert_eq!(fix.end.line, 1);
    assert_eq!(fix.end.column, content.len() + 1);
}

#[test]
fn test_md023_fix_all_heading_levels() {
    let content = " #H1\n  ##H2\n   ###H3\n    ####H4\n     #####H5\n      ######H6";
    let document = create_test_document(content);
    let rule = MD023;
    let violations = rule.check(&document);

    assert_eq!(violations.len(), 6);
    for violation in violations.iter() {
        assert!(violation.fix.is_some());
        let fix = violation.fix.as_ref().unwrap();
        assert!(fix.replacement.as_ref().unwrap().starts_with("#"));
        assert!(!fix.replacement.as_ref().unwrap().starts_with(" "));
    }
}
