//! MD026: trailing punctuation in headings.
use vstd::prelude::*;
use crate::config::{as_str, config_entry, entry_str, toml_get};
use vstd::string::StringExecFns;
use crate::document::{Document, MdNode, NodeKind};
use crate::nodes::{check_nodes, node_violations, NodeRule};
use crate::text::{
    byte_len, byte_len_prefix, chars_of, equals_lit, lemma_run_back, lemma_run_fwd, push_all,
    run_back, run_fwd, scan_back, scan_fwd, skip_ws, slice_chars, string_of, trim_chars,
    trim_end_at, trim_end_index, trim_start, trimmed, CharClass,
};
use crate::violation::{
    fix_model, new_fix, new_violation, violation_model, Severity, Violation, ViolationModel,
};

verus! {

/// Rule that flags headings ending with punctuation.
pub struct MD026 {
    /// The characters that count as trailing punctuation.
    pub punctuation: String,
}

/// `w` is the name of a common Rust macro.
pub open spec fn known_macro(w: Seq<char>) -> bool {
    ||| w == "panic"@
    ||| w == "assert"@
    ||| w == "assert_eq"@
    ||| w == "assert_ne"@
    ||| w == "debug_assert"@
    ||| w == "debug_assert_eq"@
    ||| w == "debug_assert_ne"@
    ||| w == "format"@
    ||| w == "print"@
    ||| w == "println"@
    ||| w == "eprint"@
    ||| w == "eprintln"@
    ||| w == "write"@
    ||| w == "writeln"@
    ||| w == "vec"@
    ||| w == "todo"@
    ||| w == "unimplemented"@
    ||| w == "unreachable"@
    ||| w == "matches"@
    ||| w == "cfg"@
    ||| w == "env"@
    ||| w == "include"@
    ||| w == "include_str"@
    ||| w == "include_bytes"@
    ||| w == "concat"@
    ||| w == "stringify"@
    ||| w == "macro_rules"@
    ||| w == "dbg"@
    ||| w == "column"@
    ||| w == "file"@
    ||| w == "line"@
    ||| w == "module_path"@
    ||| w == "option_env"@
}

/// The last whitespace-separated word of `s`, or empty.
pub open spec fn last_word(s: Seq<char>) -> Seq<char> {
    let e = trim_end_at(s, s.len() as int);
    s.subrange(run_back(s, e, CharClass::NonWhitespace), e)
}

/// `text` ends with a Rust macro invocation such as `println!`.
pub open spec fn rust_macro_end(text: Seq<char>) -> bool {
    &&& text.len() > 0
    &&& text.last() == '!'
    &&& last_word(text.drop_last()).len() > 0
    &&& known_macro(last_word(text.drop_last()))
}

/// `text` ends with the range operator `..`.
pub open spec fn range_end(text: Seq<char>) -> bool {
    text.len() >= 2 && text[text.len() - 2] == '.' && text[text.len() - 1] == '.'
}

/// `text` without the punctuation characters it ends with.
pub open spec fn strip_punct(text: Seq<char>, punct: Seq<char>) -> Seq<char>
    decreases text.len(),
{
    if text.len() > 0 && punct.contains(text.last()) {
        strip_punct(text.drop_last(), punct)
    } else {
        text
    }
}

/// Law: the heading text MD026's fix writes ends with none of the
/// punctuation characters, so the fixed heading's text is not reported for
/// trailing punctuation again.
pub proof fn md026_fix_strips_all_punctuation(text: Seq<char>, punct: Seq<char>)
    ensures
        strip_punct(text, punct).len() == 0 || !punct.contains(strip_punct(text, punct).last()),
        strip_punct(text, punct).len() <= text.len(),
    decreases text.len(),
{
    if text.len() > 0 && punct.contains(text.last()) {
        md026_fix_strips_all_punctuation(text.drop_last(), punct);
    }
}

/// The heading line `line` with its text replaced by `text`: an ATX line keeps
/// its opening hashes, and its closing ones when it has them.
pub open spec fn md026_fixed(line: Seq<char>, text: Seq<char>) -> Seq<char> {
    let t = trim_start(line);
    if t.len() > 0 && t[0] == '#' {
        let h = run_fwd(t, 0, CharClass::Exactly('#'));
        let after = t.subrange(h, t.len() as int);
        let ae = trim_end_at(after, after.len() as int);
        if ae > 0 && after[ae - 1] == '#' {
            let cs = run_back(after, after.len() as int, CharClass::HashOrWhitespace);
            t.take(h) + seq![' '] + text + seq![' '] + trimmed(after.subrange(cs, after.len() as int))
                + seq!['\n']
        } else {
            t.take(h) + seq![' '] + text + seq!['\n']
        }
    } else {
        text + seq!['\n']
    }
}

/// The violation MD026 reports on node `i`, when it is a heading whose text
/// ends with one of the punctuation characters (Rust macros and ranges aside).
pub open spec fn md026_node(lines: Seq<Seq<char>>, nodes: Seq<MdNode>, i: int, punct: Seq<char>) -> Seq<
    ViolationModel,
> {
    let node = nodes[i];
    let t = trimmed(node.text@);
    let ln = node.start_line as int;
    if !(node.kind is Heading) || !(1 <= ln <= lines.len()) || t.len() == 0 || !punct.contains(
        t.last(),
    ) || (t.last() == '!' && rust_macro_end(t)) || (t.last() == '.' && range_end(t)) {
        seq![]
    } else {
        seq![
            violation_model(
                "MD026"@,
                "Heading should not end with punctuation '"@ + seq![t.last()] + "': "@ + t,
                node.start_line,
                node.start_column,
                Severity::Warning,
                Some(
                    fix_model(
                        "Remove trailing punctuation '"@ + seq![t.last()] + "'"@,
                        Some(md026_fixed(lines[ln - 1], strip_punct(t, punct))),
                        node.start_line,
                        1,
                        node.start_line,
                        (byte_len(lines[ln - 1]) + 1) as usize,
                    ),
                ),
            ),
        ]
    }
}

/// Whether `w` is the name of a common Rust macro.
pub fn is_known_macro(w: &[char]) -> (b: bool)
    ensures
        b == known_macro(w@),
{
    equals_lit(w, "panic") || equals_lit(w, "assert") || equals_lit(w, "assert_eq") ||
        equals_lit(w, "assert_ne") || equals_lit(w, "debug_assert") ||
        equals_lit(w, "debug_assert_eq") || equals_lit(w, "debug_assert_ne") ||
        equals_lit(w, "format") || equals_lit(w, "print") || equals_lit(w, "println") ||
        equals_lit(w, "eprint") || equals_lit(w, "eprintln") || equals_lit(w, "write") ||
        equals_lit(w, "writeln") || equals_lit(w, "vec") || equals_lit(w, "todo") ||
        equals_lit(w, "unimplemented") || equals_lit(w, "unreachable") ||
        equals_lit(w, "matches") || equals_lit(w, "cfg") || equals_lit(w, "env") ||
        equals_lit(w, "include") || equals_lit(w, "include_str") ||
        equals_lit(w, "include_bytes") || equals_lit(w, "concat") ||
        equals_lit(w, "stringify") || equals_lit(w, "macro_rules") || equals_lit(w, "dbg") ||
        equals_lit(w, "column") || equals_lit(w, "file") || equals_lit(w, "line") ||
        equals_lit(w, "module_path") || equals_lit(w, "option_env")
}

/// Whether `s` holds `c`.
pub fn contains_char_pub(s: &[char], c: char) -> (b: bool)
    ensures
        b == s@.contains(c),
{
    let mut k: usize = 0;
    while k < s.len()
        invariant
            k <= s@.len(),
            forall|m: int| 0 <= m < k ==> s@[m] != c,
        decreases s@.len() - k,
    {
        if s[k] == c {
            assert(s@[k as int] == c);
            return true;
        }
        k = k + 1;
    }
    false
}

fn strip_punct_chars(text: &[char], punct: &[char]) -> (r: Vec<char>)
    ensures
        r@ == strip_punct(text@, punct@),
{
    let mut e = text.len();
    assert(text@.take(e as int) == text@);
    while e > 0 && contains_char_pub(punct, text[e - 1])
        invariant
            e <= text@.len(),
            strip_punct(text@, punct@) == strip_punct(text@.take(e as int), punct@),
        decreases e,
    {
        assert(text@.take(e as int).drop_last() == text@.take(e - 1));
        e = e - 1;
    }
    assert(text@.take(e as int) == text@.subrange(0, e as int));
    slice_chars(text, 0, e)
}

fn fixed_line(line: &[char], text: &[char]) -> (r: Vec<char>)
    ensures
        r@ == md026_fixed(line@, text@),
{
    let a = skip_ws(line, 0);
    let t = slice_chars(line, a, line.len());
    let mut r: Vec<char> = Vec::new();
    if t.len() > 0 && t[0] == '#' {
        proof {
            lemma_run_fwd(t@, 0, CharClass::Exactly('#'));
        }
        let h = scan_fwd(t.as_slice(), 0, CharClass::Exactly('#'));
        let after = slice_chars(t.as_slice(), h, t.len());
        let ae = trim_end_index(after.as_slice(), after.len());
        r = slice_chars(t.as_slice(), 0, h);
        r.push(' ');
        push_all(&mut r, text);
        if ae > 0 && after[ae - 1] == '#' {
            proof {
                lemma_run_back(after@, after@.len() as int, CharClass::HashOrWhitespace);
            }
            let cs = scan_back(after.as_slice(), after.len(), CharClass::HashOrWhitespace);
            let closing = slice_chars(after.as_slice(), cs, after.len());
            let tc = trim_chars(closing.as_slice());
            r.push(' ');
            push_all(&mut r, tc.as_slice());
        }
        r.push('\n');
    } else {
        push_all(&mut r, text);
        r.push('\n');
    }
    assert(r@ =~= md026_fixed(line@, text@));
    r
}

impl MD026 {
    /// The rule with the default punctuation `.,;:!`.
    pub fn new() -> (r: Self)
        ensures
            r.punctuation@ == ".,;:!"@,
    {
        MD026 { punctuation: String::from_str(".,;:!") }
    }

    /// The rule with custom punctuation characters.
    pub fn with_punctuation(punctuation: String) -> (r: Self)
        ensures
            r.punctuation@ == punctuation@,
    {
        MD026 { punctuation }
    }

    /// Whether `ch` is one of the rule's punctuation characters.
    fn is_punctuation(&self, ch: char) -> (b: bool)
        ensures
            b == self.punctuation@.contains(ch),
    {
        let p = chars_of(self.punctuation.as_str());
        contains_char_pub(p.as_slice(), ch)
    }

    /// Whether `text` ends with a known Rust macro invocation.
    fn ends_with_rust_macro(&self, text: &[char]) -> (b: bool)
        ensures
            b == rust_macro_end(text@),
    {
        if text.len() == 0 || text[text.len() - 1] != '!' {
            return false;
        }
        let wb = slice_chars(text, 0, text.len() - 1);
        assert(wb@ == text@.drop_last());
        let e = trim_end_index(wb.as_slice(), wb.len());
        proof {
            lemma_run_back(wb@, e as int, CharClass::NonWhitespace);
        }
        let b = scan_back(wb.as_slice(), e, CharClass::NonWhitespace);
        let word = slice_chars(wb.as_slice(), b, e);
        if word.len() == 0 {
            return false;
        }
        is_known_macro(word.as_slice())
    }

    /// Whether `text` ends with `..`.
    fn ends_with_range_operator(&self, text: &[char]) -> (b: bool)
        ensures
            b == range_end(text@),
    {
        text.len() >= 2 && text[text.len() - 2] == '.' && text[text.len() - 1] == '.'
    }

    /// The rule's identifier.
    pub fn id(&self) -> (r: &'static str)
        ensures
            r@ == "MD026"@,
    {
        "MD026"
    }

    /// The rule's name.
    pub fn name(&self) -> (r: &'static str)
        ensures
            r@ == "no-trailing-punctuation"@,
    {
        "no-trailing-punctuation"
    }

    /// What the rule checks.
    pub fn description(&self) -> (r: &'static str)
        ensures
            r@ == "Trailing punctuation in heading"@,
    {
        "Trailing punctuation in heading"
    }

    /// The rule offers fixes.
    pub fn can_fix(&self) -> (b: bool)
        ensures
            b,
    {
        true
    }

    /// Checks a document.
    pub fn check(&self, document: &Document) -> (r: Vec<Violation>)
        ensures
            r.deep_view() == node_violations(self, document.lines_of(), document.nodes_of(), 0),
    {
        check_nodes(self, document)
    }
}

impl NodeRule for MD026 {
    open spec fn node_spec(&self, lines: Seq<Seq<char>>, nodes: Seq<MdNode>, i: int) -> Seq<ViolationModel> {
        md026_node(lines, nodes, i, self.punctuation@)
    }

    fn node_check(&self, document: &Document, nodes: &Vec<MdNode>, i: usize) -> (r: Vec<Violation>) {
        let ghost lines = document.lines_of();
        let mut out: Vec<Violation> = Vec::new();
        let node = &nodes[i];
        let is_heading = match &node.kind {
            NodeKind::Heading { .. } => true,
            _ => false,
        };
        let ln = node.start_line;
        if !is_heading || ln < 1 || ln > document.line_count() {
            return out;
        }
        let t = trim_chars(chars_of(node.text.as_str()).as_slice());
        if t.len() == 0 {
            return out;
        }
        let last = t[t.len() - 1];
        assert(last == t@.last());
        if !self.is_punctuation(last) {
            return out;
        }
        if last == '!' && self.ends_with_rust_macro(t.as_slice()) {
            return out;
        }
        if last == '.' && self.ends_with_range_operator(t.as_slice()) {
            return out;
        }
        let line = document.line(ln - 1);
        let p = chars_of(self.punctuation.as_str());
        let without = strip_punct_chars(t.as_slice(), p.as_slice());
        let fixed = fixed_line(line, without.as_slice());
        let blen = byte_len_prefix(line, line.len());
        assert(line@.take(line@.len() as int) == line@);
        let mut lc: Vec<char> = Vec::new();
        lc.push(last);
        let ls = string_of(lc.as_slice());
        let mut description = String::from_str("Remove trailing punctuation '");
        description.append(ls.as_str());
        description.append("'");
        let fix = new_fix(description, Some(string_of(fixed.as_slice())), ln, 1, ln, blen + 1);
        let mut message = String::from_str("Heading should not end with punctuation '");
        message.append(ls.as_str());
        message.append("': ");
        message.append(string_of(t.as_slice()).as_str());
        let v = new_violation("MD026", message, ln, node.start_column, Severity::Warning, Some(fix));
        out.push(v);
        assert(out.deep_view() =~= seq![v.deep_view()]);
        out
    }
}

impl MD026 {
    /// The rule configured by a TOML table: `punctuation`.
    pub fn from_config(config: &toml::Value) -> (r: Self)
        ensures
            r.punctuation@ == match as_str(toml_get(*config, "punctuation"@)) {
                Some(s) => s,
                None => ".,;:!"@,
            },
    {
        let mut rule = MD026::new();
        match entry_str(config_entry(config, "punctuation")) {
            Some(s) => {
                rule.punctuation = s;
            },
            None => {},
        }
        rule
    }
}

impl Default for MD026 {
    fn default() -> (r: Self)
        ensures
            r.punctuation@ == ".,;:!"@,
    {
        MD026::new()
    }
}

} // verus!
