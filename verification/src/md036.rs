//! MD036: emphasis used in place of a heading.
use vstd::prelude::*;
use crate::config::{as_str, config_entry, entry_str, toml_get};
use vstd::string::StringExecFns;
use crate::document::Document;
use crate::md026::contains_char_pub;
use crate::text::{
    lemma_byte_len_ascii, blank_line, byte_len, byte_len_prefix, chars_of, has_at, is_blank, lit_at,
    slice_chars, trim_chars, trimmed,
};
use crate::violation::{new_violation, violation_model, Severity, Violation, ViolationModel};

verus! {

/// Rule that flags a paragraph made of one emphasized line.
pub struct MD036 {
    /// Characters that, ending the emphasized text, show it is not a heading.
    pub punctuation: String,
}

/// `t` starts and ends with `m`.
pub open spec fn wrapped_in(t: Seq<char>, m: Seq<char>) -> bool {
    has_at(t, 0, m) && has_at(t, t.len() - m.len(), m)
}

/// `t` is bold: wrapped in `**` or `__`, more than four bytes long.
pub open spec fn bold_line(t: Seq<char>) -> bool {
    (wrapped_in(t, "**"@) || wrapped_in(t, "__"@)) && byte_len(t) > 4
}

/// `t` is italic: wrapped in `*` (not `**`) or `_` (not `__`), more than two
/// bytes long.
pub open spec fn italic_line(t: Seq<char>) -> bool {
    ||| wrapped_in(t, "*"@) && byte_len(t) > 2 && !has_at(t, 0, "**"@)
    ||| wrapped_in(t, "_"@) && byte_len(t) > 2 && !has_at(t, 0, "__"@)
}

/// The line, once trimmed, is emphasis alone whose text is not blank and
/// does not end with one of the punctuation characters.
pub open spec fn emphasis_heading(line: Seq<char>, punct: Seq<char>) -> bool {
    let t = trimmed(line);
    let inner = if bold_line(t) { t.subrange(2, t.len() - 2) } else { t.subrange(1, t.len() - 1) };
    &&& t.len() > 0
    &&& (bold_line(t) || italic_line(t))
    &&& !(inner.len() > 0 && punct.contains(inner.last()))
    &&& trimmed(inner).len() > 0
}

/// Line `i` lies between blank lines or the ends of the text.
pub open spec fn paragraph_context(lines: Seq<Seq<char>>, i: int) -> bool {
    &&& (i == 0 || is_blank(lines[i - 1]))
    &&& (i == lines.len() - 1 || is_blank(lines[i + 1]))
}

/// The violations on lines `i..`.
pub open spec fn md036_from(lines: Seq<Seq<char>>, punct: Seq<char>, i: int) -> Seq<ViolationModel>
    decreases lines.len() - i,
{
    if i < 0 || i >= lines.len() {
        seq![]
    } else {
        (if !is_blank(lines[i]) && emphasis_heading(lines[i], punct) && paragraph_context(lines, i) {
            seq![
                violation_model(
                    "MD036"@,
                    "Emphasis used instead of a heading"@,
                    (i + 1) as usize,
                    1,
                    Severity::Warning,
                    None,
                ),
            ]
        } else {
            seq![]
        }) + md036_from(lines, punct, i + 1)
    }
}

/// A text wrapped in a doubled marker and longer than four bytes has more
/// than three characters; one wrapped in a single marker and longer than two
/// bytes has more than one.
proof fn lemma_wrapped_len(t: Seq<char>)
    ensures
        bold_line(t) ==> t.len() >= 4,
        italic_line(t) ==> t.len() >= 2,
{
    reveal_strlit("**");
    reveal_strlit("__");
    reveal_strlit("*");
    reveal_strlit("_");
    if bold_line(t) && t.len() < 4 {
        assert(t.subrange(0, 2)[0] == t[0] && t.subrange(0, 2)[1] == t[1]);
        assert(t.subrange(t.len() - 2, t.len() as int)[1] == t[t.len() - 1]);
        assert forall|k: int| 0 <= k < t.len() implies (#[trigger] t[k] as u32) < 0x80 by {
            if k >= 2 {
                assert(k == t.len() - 1);
            }
        }
        lemma_byte_len_ascii(t);
    }
    if italic_line(t) && t.len() < 2 {
        assert(t.subrange(0, 1)[0] == t[0]);
        assert forall|k: int| 0 <= k < t.len() implies (#[trigger] t[k] as u32) < 0x80 by {
            assert(k == 0);
        }
        lemma_byte_len_ascii(t);
    }
}

fn wrapped(t: &[char], m: &str) -> (b: bool)
    ensures
        b == wrapped_in(t@, m@),
{
    let mc = chars_of(m);
    if mc.len() > t.len() {
        return false;
    }
    lit_at(t, 0, m) && lit_at(t, t.len() - mc.len(), m)
}

impl MD036 {
    /// The rule with the default punctuation `.,;:!?` and its full-width forms.
    pub fn new() -> (r: Self)
        ensures
            r.punctuation@ == ".,;:!?。，；：！？"@,
    {
        MD036 { punctuation: String::from_str(".,;:!?。，；：！？") }
    }

    /// The rule with custom punctuation characters.
    pub fn with_punctuation(self, punctuation: &str) -> (r: Self)
        ensures
            r.punctuation@ == punctuation@,
    {
        MD036 { punctuation: punctuation.to_owned() }
    }

    /// Whether `line` is emphasis alone, as a heading would be.
    fn is_emphasis_as_heading(&self, line: &[char]) -> (b: bool)
        requires
            line@.len() <= usize::MAX / 4,
        ensures
            b == emphasis_heading(line@, self.punctuation@),
    {
        let t = trim_chars(line);
        if t.len() == 0 {
            return false;
        }
        let tb = byte_len_prefix(t.as_slice(), t.len());
        assert(t@.take(t@.len() as int) == t@);
        let is_bold = (wrapped(t.as_slice(), "**") || wrapped(t.as_slice(), "__")) && tb > 4;
        let is_italic = (wrapped(t.as_slice(), "*") && tb > 2 && !lit_at(t.as_slice(), 0, "**")) || (
        wrapped(t.as_slice(), "_") && tb > 2 && !lit_at(t.as_slice(), 0, "__"));
        if !is_bold && !is_italic {
            return false;
        }
        proof {
            lemma_wrapped_len(t@);
        }
        let inner = if is_bold {
            slice_chars(t.as_slice(), 2, t.len() - 2)
        } else {
            slice_chars(t.as_slice(), 1, t.len() - 1)
        };
        if inner.len() > 0 {
            let p = chars_of(self.punctuation.as_str());
            if contains_char_pub(p.as_slice(), inner[inner.len() - 1]) {
                return false;
            }
        }
        if trim_chars(inner.as_slice()).len() == 0 {
            return false;
        }
        true
    }

    /// Whether line `line_index` lies between blank lines or the ends.
    fn is_paragraph_context(&self, document: &Document, line_index: usize) -> (b: bool)
        requires
            line_index < document.lines_of().len(),
        ensures
            b == paragraph_context(document.lines_of(), line_index as int),
    {
        let n = document.line_count();
        let before = line_index == 0 || blank_line(document.line(line_index - 1));
        let after = line_index == n - 1 || blank_line(document.line(line_index + 1));
        before && after
    }

    /// The rule's identifier.
    pub fn id(&self) -> (r: &'static str)
        ensures
            r@ == "MD036"@,
    {
        "MD036"
    }

    /// The rule's name.
    pub fn name(&self) -> (r: &'static str)
        ensures
            r@ == "no-emphasis-as-heading"@,
    {
        "no-emphasis-as-heading"
    }

    /// What the rule checks.
    pub fn description(&self) -> (r: &'static str)
        ensures
            r@ == "Emphasis used instead of a heading"@,
    {
        "Emphasis used instead of a heading"
    }

    /// Checks a document.
    pub fn check(&self, document: &Document) -> (r: Vec<Violation>)
        ensures
            r.deep_view() == md036_from(document.lines_of(), self.punctuation@, 0),
    {
        let ghost lines = document.lines_of();
        let n = document.line_count();
        let mut out: Vec<Violation> = Vec::new();
        let mut i: usize = 0;
        while i < n
            invariant
                n == lines.len(),
                lines == document.lines_of(),
                i <= n,
                out.deep_view() + md036_from(lines, self.punctuation@, i as int) == md036_from(
                    lines,
                    self.punctuation@,
                    0,
                ),
            decreases n - i,
        {
            let line = document.line(i);
            if !blank_line(line) && self.is_emphasis_as_heading(line) && self.is_paragraph_context(
                document,
                i,
            ) {
                let v = new_violation(
                    "MD036",
                    String::from_str("Emphasis used instead of a heading"),
                    i + 1,
                    1,
                    Severity::Warning,
                    None,
                );
                let ghost before = out.deep_view();
                out.push(v);
                assert(out.deep_view() == before.push(v.deep_view()));
            }
            i = i + 1;
        }
        out
    }
}

impl MD036 {
    /// The rule configured by a TOML table: `punctuation`.
    pub fn from_config(config: &toml::Value) -> (r: Self)
        ensures
            r.punctuation@ == match as_str(toml_get(*config, "punctuation"@)) {
                Some(s) => s,
                None => ".,;:!?。，；：！？"@,
            },
    {
        let mut rule = MD036::new();
        match entry_str(config_entry(config, "punctuation")) {
            Some(s) => {
                rule.punctuation = s;
            },
            None => {},
        }
        rule
    }
}

impl Default for MD036 {
    fn default() -> (r: Self)
        ensures
            r.punctuation@ == ".,;:!?。，；：！？"@,
    {
        MD036::new()
    }
}

} // verus!
