//! MD035: one horizontal rule style throughout a document.
use vstd::prelude::*;
use crate::config::{as_str, config_entry, entry_str, toml_get};
use vstd::string::StringExecFns;
use crate::document::Document;
use crate::text::{
    byte_len, byte_len_prefix, chars_of, equals_lit, push_all, same_chars, skip_ws, skip_ws_from,
    slice_chars, string_of, trim_chars, trimmed,
};
use crate::violation::{
    fix_model, new_fix, new_violation, violation_model, Severity, Violation, ViolationModel,
};

verus! {

/// Rule that flags horizontal rules of another style than the expected one.
pub struct MD035 {
    /// `consistent`, or the style every rule should have, such as `---`.
    pub style: String,
}

/// How many times `c` occurs in `s`.
pub open spec fn count_char(s: Seq<char>, c: char) -> nat
    decreases s.len(),
{
    if s.len() == 0 {
        0
    } else {
        count_char(s.drop_last(), c) + if s.last() == c { 1nat } else { 0nat }
    }
}

/// `s` holds `c` somewhere.
pub open spec fn has_char(s: Seq<char>, c: char) -> bool {
    exists|k: int| 0 <= k < s.len() && s[k] == c
}

/// `t` is at least three `c`, with nothing else but spaces and tabs.
pub open spec fn hr_pattern(t: Seq<char>, c: char) -> bool {
    &&& forall|k: int| 0 <= k < t.len() ==> (t[k] == c || t[k] == ' ' || t[k] == '\t')
    &&& count_char(t, c) >= 3
}

/// `n` copies of `c`, separated by single spaces.
pub open spec fn spaced_run(c: char, n: nat) -> Seq<char>
    decreases n,
{
    if n == 0 {
        seq![]
    } else if n == 1 {
        seq![c]
    } else {
        spaced_run(c, (n - 1) as nat) + seq![' ', c]
    }
}

/// `n` copies of `c`.
pub open spec fn run_of(c: char, n: nat) -> Seq<char> {
    Seq::new(n, |k: int| c)
}

/// The style of the rule `t` made of `c`: its count of `c`, spaced when `t`
/// holds a space or a tab.
pub open spec fn normalized_hr(t: Seq<char>, c: char) -> Seq<char> {
    if has_char(t, ' ') || has_char(t, '\t') {
        spaced_run(c, count_char(t, c))
    } else {
        run_of(c, count_char(t, c))
    }
}

/// The style of `line` when it is a horizontal rule of `-`, `*` or `_`.
pub open spec fn hr_style(line: Seq<char>) -> Option<Seq<char>> {
    let t = trimmed(line);
    if byte_len(t) < 3 {
        None
    } else if hr_pattern(t, '-') {
        Some(normalized_hr(t, '-'))
    } else if hr_pattern(t, '*') {
        Some(normalized_hr(t, '*'))
    } else if hr_pattern(t, '_') {
        Some(normalized_hr(t, '_'))
    } else {
        None
    }
}

/// The canonical form of a style: three of its first character, spaced when
/// the style holds a space; other styles stay as they are.
pub open spec fn canonical_style(style: Seq<char>) -> Seq<char> {
    let f = if style.len() > 0 { style[0] } else { '-' };
    if has_char(style, ' ') {
        if f == '-' {
            "- - -"@
        } else if f == '*' {
            "* * *"@
        } else if f == '_' {
            "_ _ _"@
        } else {
            style
        }
    } else {
        if f == '-' {
            "---"@
        } else if f == '*' {
            "***"@
        } else if f == '_' {
            "___"@
        } else {
            style
        }
    }
}

/// Law: the canonical style of a style is its own canonical style, and for a
/// style that is empty or starts with `-`, `*` or `_` it is one of the six
/// canonical forms.
pub proof fn md035_canonical_style_idempotent(style: Seq<char>)
    ensures
        canonical_style(canonical_style(style)) == canonical_style(style),
        (style.len() == 0 || style[0] == '-' || style[0] == '*' || style[0] == '_') ==> {
            let c = canonical_style(style);
            ||| c == "---"@
            ||| c == "***"@
            ||| c == "___"@
            ||| c == "- - -"@
            ||| c == "* * *"@
            ||| c == "_ _ _"@
        },
{
    reveal_strlit("---");
    reveal_strlit("***");
    reveal_strlit("___");
    reveal_strlit("- - -");
    reveal_strlit("* * *");
    reveal_strlit("_ _ _");
    assert(has_char("- - -"@, ' ')) by {
        assert("- - -"@[1] == ' ');
    }
    assert(has_char("* * *"@, ' ')) by {
        assert("* * *"@[1] == ' ');
    }
    assert(has_char("_ _ _"@, ' ')) by {
        assert("_ _ _"@[1] == ' ');
    }
    assert(!has_char("---"@, ' '));
    assert(!has_char("***"@, ' '));
    assert(!has_char("___"@, ' '));
}

/// Index of the first horizontal rule line at or after `i`, or `lines.len()`.
pub open spec fn first_hr_from(lines: Seq<Seq<char>>, i: int) -> int
    decreases lines.len() - i,
{
    if i < 0 || i >= lines.len() {
        lines.len() as int
    } else if hr_style(lines[i]) is Some {
        i
    } else {
        first_hr_from(lines, i + 1)
    }
}

/// The violations on lines `i..`, when every rule should have style `expected`.
pub open spec fn md035_from(lines: Seq<Seq<char>>, i: int, expected: Seq<char>) -> Seq<ViolationModel>
    decreases lines.len() - i,
{
    if i < 0 || i >= lines.len() {
        seq![]
    } else {
        (match hr_style(lines[i]) {
            Some(st) => if canonical_style(st) != expected {
                seq![
                    violation_model(
                        "MD035"@,
                        "Horizontal rule style mismatch: Expected '"@ + expected + "', found '"@
                            + canonical_style(st) + "'"@,
                        (i + 1) as usize,
                        1,
                        Severity::Warning,
                        Some(
                            fix_model(
                                "Change horizontal rule style to '"@ + expected + "'"@,
                                Some(lines[i].take(skip_ws_from(lines[i], 0)) + expected + seq!['\n']),
                                (i + 1) as usize,
                                1,
                                (i + 1) as usize,
                                (byte_len(lines[i]) + 1) as usize,
                            ),
                        ),
                    ),
                ]
            } else {
                seq![]
            },
            None => seq![],
        }) + md035_from(lines, i + 1, expected)
    }
}

/// Every horizontal rule of the lines has canonical style `c`.
pub open spec fn rules_all(lines: Seq<Seq<char>>, c: Seq<char>) -> bool {
    forall|k: int| 0 <= k < lines.len() && (#[trigger] hr_style(lines[k])) is Some ==> canonical_style(
        hr_style(lines[k])->0,
    ) == c
}

proof fn lemma_first_hr(lines: Seq<Seq<char>>, i: int)
    requires
        0 <= i <= lines.len(),
    ensures
        i <= first_hr_from(lines, i) <= lines.len(),
        first_hr_from(lines, i) < lines.len() ==> hr_style(lines[first_hr_from(lines, i)]) is Some,
    decreases lines.len() - i,
{
    if i < lines.len() && hr_style(lines[i]) is None {
        lemma_first_hr(lines, i + 1);
    }
}

proof fn lemma_uniform_from(lines: Seq<Seq<char>>, i: int, c: Seq<char>)
    requires
        0 <= i,
        rules_all(lines, c),
    ensures
        md035_from(lines, i, c) == Seq::<ViolationModel>::empty(),
    decreases lines.len() - i,
{
    if i < lines.len() {
        assert(hr_style(lines[i]) is Some ==> canonical_style(hr_style(lines[i])->0) == c);
        lemma_uniform_from(lines, i + 1, c);
    }
}

/// Law: a document whose horizontal rules all have one canonical style draws
/// no report, in the consistent mode or when that style is the one
/// configured.
pub proof fn md035_uniform_rules_pass(lines: Seq<Seq<char>>, style: Seq<char>, c: Seq<char>)
    requires
        rules_all(lines, c),
        style == "consistent"@ || style == c,
    ensures
        md035_violations(lines, style) == Seq::<ViolationModel>::empty(),
{
    let f = first_hr_from(lines, 0);
    lemma_first_hr(lines, 0);
    if f < lines.len() {
        assert(canonical_style(hr_style(lines[f])->0) == c);
        lemma_uniform_from(lines, 0, c);
    }
}

/// The violations MD035 reports: with `consistent`, every rule should have
/// the canonical style of the first one.
pub open spec fn md035_violations(lines: Seq<Seq<char>>, style: Seq<char>) -> Seq<ViolationModel> {
    let f = first_hr_from(lines, 0);
    if f >= lines.len() {
        seq![]
    } else {
        md035_from(
            lines,
            0,
            if style == "consistent"@ {
                canonical_style(hr_style(lines[f])->0)
            } else {
                style
            },
        )
    }
}

fn count_of(s: &[char], c: char) -> (n: usize)
    ensures
        n == count_char(s@, c),
{
    let mut n: usize = 0;
    let mut k: usize = 0;
    while k < s.len()
        invariant
            k <= s@.len(),
            n == count_char(s@.take(k as int), c),
            n <= k,
        decreases s@.len() - k,
    {
        assert(s@.take(k + 1).drop_last() == s@.take(k as int));
        if s[k] == c {
            n = n + 1;
        }
        k = k + 1;
    }
    assert(s@.take(s@.len() as int) == s@);
    n
}

fn holds(s: &[char], c: char) -> (b: bool)
    ensures
        b == has_char(s@, c),
{
    let mut k: usize = 0;
    while k < s.len()
        invariant
            k <= s@.len(),
            forall|m: int| 0 <= m < k ==> s@[m] != c,
        decreases s@.len() - k,
    {
        if s[k] == c {
            return true;
        }
        k = k + 1;
    }
    false
}

fn spaced(c: char, n: usize) -> (r: Vec<char>)
    ensures
        r@ == spaced_run(c, n as nat),
{
    let mut r: Vec<char> = Vec::new();
    if n == 0 {
        return r;
    }
    r.push(c);
    assert(r@ == spaced_run(c, 1));
    let mut k: usize = 1;
    while k < n
        invariant
            1 <= k <= n,
            r@ == spaced_run(c, k as nat),
        decreases n - k,
    {
        r.push(' ');
        r.push(c);
        assert(r@ =~= spaced_run(c, (k + 1) as nat));
        k = k + 1;
    }
    r
}

fn run_chars(c: char, n: usize) -> (r: Vec<char>)
    ensures
        r@ == run_of(c, n as nat),
{
    let mut r: Vec<char> = Vec::new();
    for k in 0..n
        invariant
            r@ == run_of(c, k as nat),
    {
        r.push(c);
        assert(r@ =~= run_of(c, (k + 1) as nat));
    }
    r
}

fn lit_chars(s: &str) -> (r: Vec<char>)
    ensures
        r@ == s@,
{
    chars_of(s)
}

impl MD035 {
    /// The rule that follows the first rule's style.
    pub fn new() -> (r: Self)
        ensures
            r.style@ == "consistent"@,
    {
        MD035 { style: String::from_str("consistent") }
    }

    /// The rule with a given style.
    pub fn with_style(self, style: &str) -> (r: Self)
        ensures
            r.style@ == style@,
    {
        MD035 { style: style.to_owned() }
    }

    /// The style of `line` when it is a horizontal rule.
    fn is_horizontal_rule(&self, line: &[char]) -> (r: Option<Vec<char>>)
        requires
            line@.len() <= usize::MAX / 4,
        ensures
            match hr_style(line@) {
                Some(st) => r matches Some(v) && v@ == st,
                None => r is None,
            },
    {
        let t = trim_chars(line);
        let b = byte_len_prefix(t.as_slice(), t.len());
        assert(t@.take(t@.len() as int) == t@);
        if b < 3 {
            return None;
        }
        if self.is_hr_pattern(t.as_slice(), '-') {
            Some(self.normalize_hr_style(t.as_slice(), '-'))
        } else if self.is_hr_pattern(t.as_slice(), '*') {
            Some(self.normalize_hr_style(t.as_slice(), '*'))
        } else if self.is_hr_pattern(t.as_slice(), '_') {
            Some(self.normalize_hr_style(t.as_slice(), '_'))
        } else {
            None
        }
    }

    /// Whether `line` is at least three `c` among spaces and tabs.
    fn is_hr_pattern(&self, line: &[char], c: char) -> (b: bool)
        ensures
            b == hr_pattern(line@, c),
    {
        let mut k: usize = 0;
        while k < line.len()
            invariant
                k <= line@.len(),
                forall|m: int| 0 <= m < k ==> (line@[m] == c || line@[m] == ' ' || line@[m] == '\t'),
            decreases line@.len() - k,
        {
            let x = line[k];
            if x != c && x != ' ' && x != '\t' {
                return false;
            }
            k = k + 1;
        }
        count_of(line, c) >= 3
    }

    /// The style of the rule `line` made of `c`.
    fn normalize_hr_style(&self, line: &[char], c: char) -> (r: Vec<char>)
        ensures
            r@ == normalized_hr(line@, c),
    {
        let n = count_of(line, c);
        if holds(line, ' ') || holds(line, '\t') {
            spaced(c, n)
        } else {
            run_chars(c, n)
        }
    }

    /// The canonical form of a style.
    fn get_canonical_style(&self, style: &[char]) -> (r: Vec<char>)
        ensures
            r@ == canonical_style(style@),
    {
        let f = if style.len() > 0 { style[0] } else { '-' };
        if holds(style, ' ') {
            if f == '-' {
                lit_chars("- - -")
            } else if f == '*' {
                lit_chars("* * *")
            } else if f == '_' {
                lit_chars("_ _ _")
            } else {
                slice_chars(style, 0, style.len())
            }
        } else {
            if f == '-' {
                lit_chars("---")
            } else if f == '*' {
                lit_chars("***")
            } else if f == '_' {
                lit_chars("___")
            } else {
                slice_chars(style, 0, style.len())
            }
        }
    }

    /// The rule's identifier.
    pub fn id(&self) -> (r: &'static str)
        ensures
            r@ == "MD035"@,
    {
        "MD035"
    }

    /// The rule's name.
    pub fn name(&self) -> (r: &'static str)
        ensures
            r@ == "hr-style"@,
    {
        "hr-style"
    }

    /// What the rule checks.
    pub fn description(&self) -> (r: &'static str)
        ensures
            r@ == "Horizontal rule style"@,
    {
        "Horizontal rule style"
    }

    /// The rule offers fixes.
    pub fn can_fix(&self) -> (b: bool)
        ensures
            b,
    {
        true
    }

    /// Checks a document.
    pub fn check(&self, document: &Document) -> (r: Vec<Violation>)
        ensures
            r.deep_view() == md035_violations(document.lines_of(), self.style@),
    {
        let ghost lines = document.lines_of();
        let n = document.line_count();
        let mut f: usize = 0;
        let mut found = false;
        while f < n && !found
            invariant
                n == lines.len(),
                lines == document.lines_of(),
                f <= n,
                found ==> f < n && hr_style(lines[f as int]) is Some,
                first_hr_from(lines, 0) == first_hr_from(lines, f as int),
            decreases n - f + (if found { 0int } else { 1int }),
        {
            if self.is_horizontal_rule(document.line(f)).is_some() {
                found = true;
            } else {
                f = f + 1;
            }
        }
        let mut out: Vec<Violation> = Vec::new();
        if !found {
            return out;
        }
        let first_style = match self.is_horizontal_rule(document.line(f)) {
            Some(st) => st,
            None => {
                return out;
            },
        };
        let sc = chars_of(self.style.as_str());
        let expected = if equals_lit(sc.as_slice(), "consistent") {
            self.get_canonical_style(first_style.as_slice())
        } else {
            sc
        };
        let es = string_of(expected.as_slice());
        let mut i: usize = 0;
        while i < n
            invariant
                n == lines.len(),
                lines == document.lines_of(),
                i <= n,
                es@ == expected@,
                out.deep_view() + md035_from(lines, i as int, expected@) == md035_violations(
                    lines,
                    self.style@,
                ),
            decreases n - i,
        {
            let line = document.line(i);
            match self.is_horizontal_rule(line) {
                Some(st) => {
                    let cs = self.get_canonical_style(st.as_slice());
                    if !same_chars(cs.as_slice(), expected.as_slice()) {
                        let ind = skip_ws(line, 0);
                        let mut rep = slice_chars(line, 0, ind);
                        push_all(&mut rep, expected.as_slice());
                        rep.push('\n');
                        assert(rep@ =~= line@.take(skip_ws_from(line@, 0)) + expected@ + seq!['\n']);
                        let b = byte_len_prefix(line, line.len());
                        assert(line@.take(line@.len() as int) == line@);
                        let mut description = String::from_str("Change horizontal rule style to '");
                        description.append(es.as_str());
                        description.append("'");
                        let fix = new_fix(description, Some(string_of(rep.as_slice())), i + 1, 1, i + 1, b + 1);
                        let mut message = String::from_str("Horizontal rule style mismatch: Expected '");
                        message.append(es.as_str());
                        message.append("', found '");
                        message.append(string_of(cs.as_slice()).as_str());
                        message.append("'");
                        let v = new_violation("MD035", message, i + 1, 1, Severity::Warning, Some(fix));
                        let ghost before = out.deep_view();
                        out.push(v);
                        assert(out.deep_view() == before.push(v.deep_view()));
                    }
                },
                None => {},
            }
            i = i + 1;
        }
        out
    }
}

impl MD035 {
    /// The rule configured by a TOML table: `style`.
    pub fn from_config(config: &toml::Value) -> (r: Self)
        ensures
            r.style@ == match as_str(toml_get(*config, "style"@)) {
                Some(s) => s,
                None => "consistent"@,
            },
    {
        let mut rule = MD035::new();
        match entry_str(config_entry(config, "style")) {
            Some(s) => {
                rule.style = s;
            },
            None => {},
        }
        rule
    }
}

impl Default for MD035 {
    fn default() -> (r: Self)
        ensures
            r.style@ == "consistent"@,
    {
        MD035::new()
    }
}

} // verus!
