use std::path::PathBuf;
use mdlint_rules::atx::trailing_hash_sequence;
use mdlint_rules::document::Document;
use mdlint_rules::md003::{Md003Config, MD003};
use mdlint_rules::md004::{ListStyleConfig, MD004};
use mdlint_rules::md009::MD009;
use mdlint_rules::md010::MD010;
use mdlint_rules::md012::MD012;
use mdlint_rules::md013::{LengthMode, MD013};
use mdlint_rules::md022::MD022;
use mdlint_rules::md023::MD023;
use mdlint_rules::md024::MD024;
use mdlint_rules::md025::MD025;
use mdlint_rules::md026::MD026;
use mdlint_rules::md035::MD035;
use mdlint_rules::md040::MD040;
use mdlint_rules::md043::MD043;
use mdlint_rules::md046::{CodeBlockStyle, MD046};
use mdlint_rules::md048::{FenceStyle, MD048};
use mdlint_rules::md049::{EmphasisStyle, MD049};
use mdlint_rules::md050::{StrongStyle, MD050};
use mdlint_rules::md051::MD051;
use mdlint_rules::md052::MD052;

fn doc(content: &str) -> Document {
    Document::new(content.to_string(), PathBuf::from("law.md")).unwrap()
}

fn fixed_line(replacement: &str) -> String {
    replacement.strip_suffix('\n').unwrap_or(replacement).to_string()
}

#[test]
fn law_md009_fixed_line_is_clean() {
    let rule = MD009::new();
    let v = rule.check(&doc("text \t \n"));
    assert_eq!(v.len(), 1);
    let replacement = v[0].fix.as_ref().unwrap().replacement.clone().unwrap();
    assert_eq!(replacement, "text\n");
    assert!(rule.check(&doc(&fixed_line(&replacement))).is_empty());
}

#[test]
fn law_md010_fixed_line_has_no_tab() {
    let rule = MD010::new();
    let v = rule.check(&doc("a\tb\tc\n"));
    assert_eq!(v.len(), 1);
    let replacement = v[0].fix.as_ref().unwrap().replacement.clone().unwrap();
    assert_eq!(replacement, "a    b    c");
    assert!(rule.check(&doc(&replacement)).is_empty());
}

#[test]
fn law_md023_fixed_heading_is_clean() {
    let v = MD023.check(&doc("   ## Title\n"));
    assert_eq!(v.len(), 1);
    let replacement = v[0].fix.as_ref().unwrap().replacement.clone().unwrap();
    assert_eq!(replacement, "## Title\n");
    assert!(MD023.check(&doc(&fixed_line(&replacement))).is_empty());
}

#[test]
fn law_md048_one_fence_character_passes() {
    let content = "~~~\na\n~~~\n\n~~~rust\nb\n~~~\n";
    assert!(MD048::new().check(&doc(content)).is_empty());
    assert!(MD048::with_style(FenceStyle::Tilde).check(&doc(content)).is_empty());
    assert_eq!(MD048::with_style(FenceStyle::Backtick).check(&doc(content)).len(), 2);
}

#[test]
fn law_md046_one_block_style_passes() {
    let content = "Text\n\n    indented\n\nMore\n\n    again\n";
    assert!(MD046::new().check(&doc(content)).is_empty());
    assert!(MD046::with_style(CodeBlockStyle::Indented).check(&doc(content)).is_empty());
}

#[test]
fn law_md004_one_marker_passes() {
    let content = "+ a\n+ b\n\ntext\n\n+ c\n  + d\n";
    assert!(MD004::new().check(&doc(content)).is_empty());
    assert!(MD004::with_style(ListStyleConfig::Plus).check(&doc(content)).is_empty());
}

#[test]
fn law_md049_one_marker_passes() {
    let content = "Some _a_ and _b_ text.\nMore _c_.\n";
    assert!(MD049::new().check(&doc(content)).is_empty());
    assert!(MD049::with_style(EmphasisStyle::Underscore).check(&doc(content)).is_empty());
}

#[test]
fn law_md050_one_marker_passes() {
    let content = "Some **a** and **b** text.\n";
    assert!(MD050::new().check(&doc(content)).is_empty());
    assert!(MD050::with_style(StrongStyle::Asterisk).check(&doc(content)).is_empty());
}

#[test]
fn law_md051_repeated_headings_are_numbered() {
    let content = "# Intro\n\n# Intro\n\n# Intro\n\n[a](#intro) [b](#intro-2) [c](#intro-3)\n";
    let document = doc(content);
    let v = MD051::new().check_with_ast(&document, Some(document.nodes()));
    assert!(v.is_empty());
}

#[test]
fn law_md052_defined_label_any_case() {
    let content = "[text][MyLabel]\n\n[mylabel]: https://example.com\n";
    let document = doc(content);
    let rule = MD052::new();
    assert!(rule.input_ok(&document));
    assert!(rule.check(&document).is_empty());
}

#[test]
fn law_md052_reports_name_undefined_labels() {
    let content = "[a][one] ![b][two]\n";
    let document = doc(content);
    let rule = MD052::new();
    assert!(rule.input_ok(&document));
    let v = rule.check(&document);
    assert_eq!(v.len(), 2);
    assert_eq!(v[0].message, "Reference link uses undefined label 'one'");
    assert_eq!(v[1].message, "Reference image uses undefined label 'two'");
}

#[test]
fn law_md025_all_but_first_reported() {
    let v = MD025::new().check(&doc("# A\n\n# B\n\n## C\n\n# D\n"));
    assert_eq!(v.len(), 2);
    assert_eq!(v[0].line, 3);
    assert_eq!(v[1].line, 7);
}

#[test]
fn law_md043_matching_headings_pass() {
    let rule = MD043::with_headings(vec!["Intro".to_string(), "Usage".to_string()]);
    assert!(rule.check(&doc("# intro \n\n## USAGE\n\n## Extra\n")).is_empty());
}

#[test]
fn law_md013_visual_accepts_what_strict_accepts() {
    let strict = MD013::with_line_length(20);
    let visual = MD013 { length_mode: LengthMode::Visual, ..MD013::with_line_length(20) };
    let short = doc("see https://x.io ok\n");
    assert!(strict.check(&short).is_empty());
    assert!(visual.check(&short).is_empty());
    let long = doc("see https://example.com/a/long/path here\n");
    assert_eq!(strict.check(&long).len(), 1);
    assert!(visual.check(&long).is_empty());
}

#[test]
fn law_md012_short_blank_runs_pass() {
    assert!(MD012::new().check(&doc("a\n\nb\n\nc\n")).is_empty());
    assert!(MD012::with_maximum(2).check(&doc("a\n\n\nb\n")).is_empty());
    assert_eq!(MD012::new().check(&doc("a\n\n\nb\n")).len(), 1);
}

#[test]
fn law_md003_one_heading_style_passes() {
    let content = "# A #\n\n## B ##\n";
    assert!(MD003::new().check(&doc(content)).is_empty());
    let closed = MD003::with_config(Md003Config { style: "atx_closed".to_string() });
    assert!(closed.check(&doc(content)).is_empty());
}

#[test]
fn law_md035_one_rule_style_passes() {
    let content = "a\n\n* * *\n\nb\n\n*  *  *\n";
    assert!(MD035::new().check(&doc(content)).is_empty());
    assert!(MD035::new().with_style("* * *").check(&doc(content)).is_empty());
}

#[test]
fn law_md024_distinct_headings_pass() {
    assert!(MD024::new().check(&doc("# Title\n\n## Other   title\n\n## Title two\n")).is_empty());
    assert_eq!(MD024::new().check(&doc("# Some  Title\n\n## some title\n")).len(), 1);
}

#[test]
fn law_md004_fix_writes_expected_marker() {
    let v = MD004::new().check(&doc("* a\n- b\n"));
    assert_eq!(v.len(), 1);
    let replacement = v[0].fix.as_ref().unwrap().replacement.clone().unwrap();
    assert_eq!(replacement, "* b");
    assert!(MD004::new().check(&doc("* a\n* b\n")).is_empty());
}

#[test]
fn law_md026_fix_strips_all_trailing_punctuation() {
    let rule = MD026::new();
    let v = rule.check(&doc("# Title?!.\n"));
    assert_eq!(v.len(), 1);
    let replacement = v[0].fix.as_ref().unwrap().replacement.clone().unwrap();
    assert_eq!(replacement, "# Title?\n");
}

#[test]
fn law_md040_labelled_fences_pass() {
    assert!(MD040.check(&doc("```rust\nx\n```\n\n~~~ text\ny\n~~~\n")).is_empty());
    assert_eq!(MD040.check(&doc("```\nx\n```\n")).len(), 1);
}

#[test]
fn law_md022_spaced_headings_pass() {
    assert!(MD022.check(&doc("# A\n\ntext\n\n## B\n")).is_empty());
    assert_eq!(MD022.check(&doc("# A\ntext\n")).len(), 1);
}

#[test]
fn law_md010_tab_free_passes() {
    assert!(MD010::new().check(&doc("no tabs here\n    indented\n")).is_empty());
}

#[test]
fn law_md009_clean_lines_pass() {
    assert!(MD009::new().check(&doc("clean\nlines\n\nonly\n")).is_empty());
}

#[test]
fn law_md013_short_lines_pass() {
    assert!(MD013::with_line_length(10).check(&doc("0123456789\nshort\n")).is_empty());
    assert_eq!(MD013::with_line_length(10).check(&doc("01234567890\n")).len(), 1);
}

#[test]
fn law_md035_canonical_style_is_stable() {
    let rule = MD035::new().with_style("- - -");
    assert!(rule.check(&doc("a\n\n-  -  -\n\nb\n\n- - -\n")).is_empty());
}

#[test]
fn law_md013_visual_length_removes_every_url() {
    let rule = MD013::new();
    assert_eq!(rule.visual_length("https://a.com http://b.com"), 1);
    assert_eq!(rule.visual_length("see http://x.io and https://y.io/z."), 9);
}

#[test]
fn trailing_hash_sequence_gives_byte_range() {
    assert_eq!(trailing_hash_sequence("é #"), Some((3, 4)));
    assert_eq!(trailing_hash_sequence("## Title ##  \t"), Some((9, 11)));
    assert_eq!(trailing_hash_sequence("## C\\#"), None);
    assert_eq!(trailing_hash_sequence("## Title"), None);
}

#[test]
fn md052_documented_examples() {
    let good = doc("[Link text][label]\n[Collapsed][]\n\n[label]: https://example.com\n[collapsed]: https://example.com\n");
    assert!(MD052::new().input_ok(&good));
    assert!(MD052::new().check(&good).is_empty());
    let bad = doc("[Link text][undefined-label]\n[Collapsed][]\n\n[defined]: https://example.com\n");
    assert!(MD052::new().input_ok(&bad));
    let v = MD052::new().check(&bad);
    assert_eq!(v.len(), 2);
    assert_eq!(v[0].message, "Reference link uses undefined label 'undefined-label'");
    assert_eq!(v[0].line, 1);
    assert_eq!(v[1].line, 2);
}
