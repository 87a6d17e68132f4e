//! MD009: trailing spaces.
use vstd::prelude::*;
use crate::config::{
    as_bool, as_int, config_entry, entry_bool, entry_either, entry_int, toml_get, toml_get_either,
};
use vstd::string::StringExecFns;
use crate::document::Document;
use crate::lines::{check_lines, lemma_line_violations_empty, line_violations, LineRule};
use crate::nodes::{code_block_flags, in_code_block_node};
use crate::text::{
    byte_len, byte_len_prefix, decimal, lemma_run_back, run_back, scan_back, slice_chars, CharClass,
};
use crate::violation::{
    append_decimal, append_plural, fix_model, fix_text, new_fix, new_violation, plural_s,
    violation_model, with_newline, Severity, Violation, ViolationModel,
};

verus! {

/// Rule that flags trailing whitespace.
pub struct MD009 {
    /// Number of trailing spaces allowed for a hard line break.
    pub br_spaces: usize,
    /// Whether empty lines within list items may keep trailing spaces.
    pub list_item_empty_lines: bool,
    /// Whether code blocks and line breaks are checked too.
    pub strict: bool,
}

/// The violation MD009 reports on line `num`, where `in_code` tells whether
/// the line lies in a code block.
pub open spec fn md009_line(
    br_spaces: usize,
    strict: bool,
    num: int,
    line: Seq<char>,
    in_code: bool,
) -> Option<ViolationModel> {
    let keep = run_back(line, line.len() as int, CharClass::Whitespace);
    let ts = (line.len() - keep) as nat;
    if !(line.len() > 0 && (line.last() == ' ' || line.last() == '\t')) {
        None
    } else if in_code && !strict {
        None
    } else if !strict && ts == br_spaces {
        None
    } else {
        Some(
            violation_model(
                "MD009"@,
                "Trailing spaces detected (found "@ + decimal(ts) + " trailing space"@ + plural_s(ts)
                    + ")"@,
                num as usize,
                (byte_len(line) - ts + 1) as usize,
                Severity::Warning,
                Some(
                    fix_model(
                        "Remove "@ + decimal(ts) + " trailing space"@ + plural_s(ts),
                        Some(line.take(keep).push('\n')),
                        num as usize,
                        1,
                        num as usize,
                        (byte_len(line) + 1) as usize,
                    ),
                ),
            ),
        )
    }
}

/// Law: the line MD009's fix leaves behind (the reported line without its
/// trailing whitespace, before the line break the fix appends) draws no
/// report from MD009, whatever the settings and wherever the line stands.
pub proof fn md009_fix_leaves_clean_line(
    br_spaces: usize,
    strict: bool,
    num: int,
    line: Seq<char>,
    in_code: bool,
    fixed_in_code: bool,
)
    requires
        md009_line(br_spaces, strict, num, line, in_code) is Some,
    ensures
        md009_line(
            br_spaces,
            strict,
            num,
            fix_text(md009_line(br_spaces, strict, num, line, in_code)->0).drop_last(),
            fixed_in_code,
        ) is None,
{
    let keep = run_back(line, line.len() as int, CharClass::Whitespace);
    lemma_run_back(line, line.len() as int, CharClass::Whitespace);
    let fixed = line.take(keep);
    assert(fix_text(md009_line(br_spaces, strict, num, line, in_code)->0).drop_last() =~= fixed);
    if keep > 0 {
        assert(fixed.last() == line[keep - 1]);
    }
}

/// Law: a document whose lines end neither in a space nor in a tab draws no
/// report, whatever the settings.
pub proof fn md009_clean_lines_pass(rule: MD009, lines: Seq<Seq<char>>, flags: Seq<bool>)
    requires
        forall|i: int| 0 <= i < lines.len() && (#[trigger] lines[i]).len() > 0 ==> lines[i].last() != ' '
            && lines[i].last() != '\t',
    ensures
        line_violations(&rule, lines, flags, 0) == Seq::<ViolationModel>::empty(),
{
    assert forall|i: int| 0 <= i < lines.len() implies #[trigger] rule.line_spec(i + 1, lines[i], flags[i]) is None by {
        assert(lines[i].len() > 0 ==> lines[i].last() != ' ' && lines[i].last() != '\t');
    }
    lemma_line_violations_empty(&rule, lines, flags, 0);
}

impl LineRule for MD009 {
    open spec fn line_spec(&self, num: int, line: Seq<char>, flag: bool) -> Option<ViolationModel> {
        md009_line(self.br_spaces, self.strict, num, line, flag)
    }

    fn line_check(&self, num: usize, line: &[char], flag: bool) -> (r: Option<Violation>) {
        let n = line.len();
        if !(n > 0 && (line[n - 1] == ' ' || line[n - 1] == '\t')) {
            return None;
        }
        let keep = scan_back(line, n, CharClass::Whitespace);
        let ts = n - keep;
        if flag && !self.strict {
            return None;
        }
        if !self.strict && ts == self.br_spaces {
            return None;
        }
        let total = byte_len_prefix(line, n);
        proof {
            assert(line@.take(n as int) == line@);
        }
        let mut description = String::from_str("Remove ");
        append_decimal(&mut description, ts);
        description.append(" trailing space");
        append_plural(&mut description, ts);
        let mut message = String::from_str("Trailing spaces detected (found ");
        append_decimal(&mut message, ts);
        message.append(" trailing space");
        append_plural(&mut message, ts);
        message.append(")");
        let kept = slice_chars(line, 0, keep);
        proof {
            assert(kept@ == line@.take(keep as int));
        }
        let fix = new_fix(description, Some(with_newline(kept.as_slice())), num, 1, num, total + 1);
        Some(new_violation("MD009", message, num, total - ts + 1, Severity::Warning, Some(fix)))
    }
}

impl MD009 {
    /// The rule allowing two trailing spaces for line breaks.
    pub fn new() -> (r: Self)
        ensures
            r.br_spaces == 2 && !r.list_item_empty_lines && !r.strict,
    {
        MD009 { br_spaces: 2, list_item_empty_lines: false, strict: false }
    }

    /// The rule with the given settings.
    pub fn with_config(br_spaces: usize, list_item_empty_lines: bool, strict: bool) -> (r: Self)
        ensures
            r.br_spaces == br_spaces && r.list_item_empty_lines == list_item_empty_lines && r.strict
                == strict,
    {
        MD009 { br_spaces, list_item_empty_lines, strict }
    }

    /// The rule's identifier.
    pub fn id(&self) -> (r: &'static str)
        ensures
            r@ == "MD009"@,
    {
        "MD009"
    }

    /// The rule's name.
    pub fn name(&self) -> (r: &'static str)
        ensures
            r@ == "no-trailing-spaces"@,
    {
        "no-trailing-spaces"
    }

    /// What the rule checks.
    pub fn description(&self) -> (r: &'static str)
        ensures
            r@ == "Trailing spaces are not allowed"@,
    {
        "Trailing spaces are not allowed"
    }

    /// Checks a document.
    pub fn check(&self, document: &Document) -> (r: Vec<Violation>)
        ensures
            r.deep_view() == line_violations(
                self,
                document.lines_of(),
                Seq::new(
                    document.lines_of().len(),
                    |i: int| in_code_block_node(document.nodes_of(), i + 1),
                ),
                0,
            ),
    {
        let flags = code_block_flags(document);
        assert(flags@ =~= Seq::new(
            document.lines_of().len(),
            |i: int| in_code_block_node(document.nodes_of(), i + 1),
        ));
        check_lines(self, document, &flags)
    }
}

impl MD009 {
    /// The rule configured by a TOML table: `br-spaces`,
    /// `list-item-empty-lines` (or their snake-case forms) and `strict`.
    pub fn from_config(config: &toml::Value) -> (r: Self)
        ensures
            r.br_spaces == match as_int(toml_get_either(*config, "br-spaces"@, "br_spaces"@)) {
                Some(i) => i as usize,
                None => 2usize,
            },
            r.list_item_empty_lines == match as_bool(
                toml_get_either(*config, "list-item-empty-lines"@, "list_item_empty_lines"@),
            ) {
                Some(b) => b,
                None => false,
            },
            r.strict == match as_bool(toml_get(*config, "strict"@)) {
                Some(b) => b,
                None => false,
            },
    {
        let mut rule = MD009::new();
        match entry_int(&entry_either(config, "br-spaces", "br_spaces")) {
            Some(i) => {
                rule.br_spaces = i as usize;
            },
            None => {},
        }
        match entry_bool(&entry_either(config, "list-item-empty-lines", "list_item_empty_lines")) {
            Some(b) => {
                rule.list_item_empty_lines = b;
            },
            None => {},
        }
        match entry_bool(&config_entry(config, "strict")) {
            Some(b) => {
                rule.strict = b;
            },
            None => {},
        }
        rule
    }
}

impl Default for MD009 {
    fn default() -> (r: Self)
        ensures
            r.br_spaces == 2 && !r.list_item_empty_lines && !r.strict,
    {
        MD009::new()
    }
}

} // verus!
