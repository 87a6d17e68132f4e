//! MD013: line length.
use vstd::prelude::*;
use crate::config::{
    as_bool, as_int, as_str, entry_bool, entry_either, entry_int, entry_str, toml_get_either,
};
use crate::text::{is_blank, is_ws, lowercase, trim_end_at};
use vstd::string::StringExecFns;
use crate::document::Document;
use crate::fences::starts_backtick_fence;
use crate::lines::{check_lines, lemma_line_violations_empty, line_violations, LineRule};
use crate::text::{
    byte_len, byte_len_prefix, lemma_byte_len_concat, chars_of, decimal, find_lit, first_occ, has_at, lemma_first_occ,
    lemma_run_fwd, lit_at, run_fwd, scan_fwd, skip_ws, skip_ws_from, trim_chars, trimmed, CharClass,
};
use crate::violation::{
    append_decimal, new_violation, violation_model, Severity, Violation, ViolationModel,
};

verus! {

/// How a line's length is measured.
#[derive(Debug, Clone, Copy, PartialEq, Eq, Structural)]
pub enum LengthMode {
    /// Every byte counts.
    Strict,
    /// Bytes of `http://` and `https://` URLs do not count.
    Visual,
}

/// Rule that limits line length.
pub struct MD013 {
    pub line_length: usize,
    pub ignore_code_blocks: bool,
    pub ignore_tables: bool,
    pub ignore_headings: bool,
    pub length_mode: LengthMode,
}

/// `a - b`, or zero when `b` is larger.
pub open spec fn sat_sub(a: int, b: int) -> int {
    if a >= b { a - b } else { 0 }
}

/// Where the next URL starts at or after `i`: the first `http://` or
/// `https://`, whichever comes first; `s.len()` when there is neither.
pub open spec fn next_url(s: Seq<char>, i: int) -> int {
    let h = first_occ(s, i, "http://"@);
    let hs = first_occ(s, i, "https://"@);
    if h <= hs { h } else { hs }
}

/// The visual length of `s` from index `i` on, starting from `len`: each URL
/// found takes its bytes off.
pub open spec fn visual_from(s: Seq<char>, i: int, len: int) -> int
    decreases s.len() - i,
{
    if i < 0 || i > s.len() {
        len
    } else {
        let a = next_url(s, i);
        if a >= s.len() {
            len
        } else {
            let e = run_fwd(s, a, CharClass::UrlBody);
            proof {
                lemma_url_end(s, i, a);
            }
            visual_from(s, e, sat_sub(len, byte_len(s.subrange(a, e)) as int))
        }
    }
}

/// A URL found at or after `i` ends after `i`.
pub proof fn lemma_url_end(s: Seq<char>, i: int, a: int)
    requires
        0 <= i <= s.len(),
        a == next_url(s, i),
        a < s.len(),
    ensures
        i <= a < run_fwd(s, a, CharClass::UrlBody) <= s.len(),
{
    lemma_first_occ(s, i, "http://"@);
    lemma_first_occ(s, i, "https://"@);
    reveal_strlit("http://");
    reveal_strlit("https://");
    assert(s[a] == 'h') by {
        if first_occ(s, i, "http://"@) <= first_occ(s, i, "https://"@) {
            assert(s.subrange(a, a + 7)[0] == 'h');
        } else {
            assert(s.subrange(a, a + 8)[0] == 'h');
        }
    }
    lemma_run_fwd(s, a, CharClass::UrlBody);
}

/// The visual length of a line: its bytes, less those of its URLs.
pub open spec fn visual_len(s: Seq<char>) -> int {
    visual_from(s, 0, byte_len(s) as int)
}

/// One step of the code-block and table tracking over a line.
pub open spec fn md013_step(st: (bool, bool), line: Seq<char>) -> (bool, bool) {
    if starts_backtick_fence(line) {
        (!st.0, st.1)
    } else {
        let t = trimmed(line);
        let table = if !st.0 && ((t.len() > 0 && t[0] == '|') || first_occ(t, 0, " | "@) < t.len()) {
            true
        } else if st.1 && t.len() == 0 {
            false
        } else {
            st.1
        };
        (st.0, table)
    }
}

/// Whether a code block and a table are open once lines `0..i` are read.
pub open spec fn md013_state(lines: Seq<Seq<char>>, i: int) -> (bool, bool)
    decreases i,
{
    if i <= 0 {
        (false, false)
    } else {
        md013_step(md013_state(lines, i - 1), lines[i - 1])
    }
}

proof fn lemma_trim_end_at_le(s: Seq<char>, j: int)
    requires
        0 <= j <= s.len(),
    ensures
        0 <= trim_end_at(s, j) <= j,
    decreases j,
{
    if j > 0 && is_ws(s[j - 1]) {
        lemma_trim_end_at_le(s, j - 1);
    }
}

/// Law: a blank line closes a table. On the line after it, unless that line
/// is itself a table row (it starts with `|` or holds ` | ` once trimmed) or
/// a backtick fence, no table is open, so the line is skipped only if it lies
/// in a code block and code blocks are ignored.
pub proof fn md013_blank_line_ends_table(rule: MD013, lines: Seq<Seq<char>>, i: int)
    requires
        1 <= i < lines.len(),
        is_blank(lines[i - 1]),
        !starts_backtick_fence(lines[i]),
        !(trimmed(lines[i]).len() > 0 && trimmed(lines[i])[0] == '|'),
        first_occ(trimmed(lines[i]), 0, " | "@) >= trimmed(lines[i]).len(),
    ensures
        !md013_state(lines, i + 1).1,
        md013_skip(rule, lines, i) == (md013_state(lines, i + 1).0 && rule.ignore_code_blocks),
{
    let b = lines[i - 1];
    lemma_trim_end_at_le(b, b.len() as int);
    assert(trimmed(b).len() == 0);
    reveal_strlit("```");
    assert(!has_at(b, skip_ws_from(b, 0), "```"@));
    assert(!md013_state(lines, i).1);
}

/// Whether MD013 skips line `i` for where it stands.
pub open spec fn md013_skip(rule: MD013, lines: Seq<Seq<char>>, i: int) -> bool {
    let st = md013_state(lines, i + 1);
    starts_backtick_fence(lines[i]) || (st.0 && rule.ignore_code_blocks) || (st.1 && rule.ignore_tables)
}

/// The violation MD013 reports on line `num`.
pub open spec fn md013_line(rule: MD013, num: int, line: Seq<char>, skip: bool) -> Option<ViolationModel> {
    let st = skip_ws_from(line, 0);
    let len = match rule.length_mode {
        LengthMode::Strict => byte_len(line) as int,
        LengthMode::Visual => visual_len(line),
    };
    if skip || (rule.ignore_headings && st < line.len() && line[st] == '#') || has_at(line, st, "http://"@)
        || has_at(line, st, "https://"@) || len <= rule.line_length {
        None
    } else {
        Some(
            violation_model(
                "MD013"@,
                "Line length is "@ + decimal(len as nat) + match rule.length_mode {
                    LengthMode::Strict => " characters, expected no more than "@,
                    LengthMode::Visual => " characters (visual), expected no more than "@,
                } + decimal(rule.line_length as nat),
                num as usize,
                (rule.line_length + 1) as usize,
                Severity::Warning,
                None,
            ),
        )
    }
}

/// The bytes of the URLs found from index `i` on, in the order the visual
/// length removes them.
pub open spec fn url_bytes_from(s: Seq<char>, i: int) -> int
    decreases s.len() - i,
{
    if i < 0 || i > s.len() {
        0
    } else {
        let a = next_url(s, i);
        if a >= s.len() {
            0
        } else {
            let e = run_fwd(s, a, CharClass::UrlBody);
            proof {
                lemma_url_end(s, i, a);
            }
            byte_len(s.subrange(a, e)) + url_bytes_from(s, e)
        }
    }
}

proof fn lemma_url_bytes(s: Seq<char>, i: int, len: int)
    requires
        0 <= i <= s.len(),
        url_bytes_from(s, i) <= len,
    ensures
        0 <= url_bytes_from(s, i) <= byte_len(s.subrange(i, s.len() as int)),
        visual_from(s, i, len) == len - url_bytes_from(s, i),
    decreases s.len() - i,
{
    let a = next_url(s, i);
    if a < s.len() {
        let e = run_fwd(s, a, CharClass::UrlBody);
        lemma_url_end(s, i, a);
        let b = byte_len(s.subrange(a, e));
        lemma_url_bytes_bound(s, e);
        lemma_url_bytes(s, e, len - b);
        assert(s.subrange(i, s.len() as int) =~= s.subrange(i, a) + (s.subrange(a, e) + s.subrange(
            e,
            s.len() as int,
        )));
        lemma_byte_len_concat(s.subrange(a, e), s.subrange(e, s.len() as int));
        lemma_byte_len_concat(s.subrange(i, a), s.subrange(a, e) + s.subrange(e, s.len() as int));
    } else {
        assert(url_bytes_from(s, i) == 0);
    }
}

proof fn lemma_url_bytes_bound(s: Seq<char>, i: int)
    requires
        0 <= i <= s.len(),
    ensures
        0 <= url_bytes_from(s, i) <= byte_len(s.subrange(i, s.len() as int)),
    decreases s.len() - i,
{
    let a = next_url(s, i);
    if a < s.len() {
        let e = run_fwd(s, a, CharClass::UrlBody);
        lemma_url_end(s, i, a);
        lemma_url_bytes_bound(s, e);
        assert(s.subrange(i, s.len() as int) =~= s.subrange(i, a) + (s.subrange(a, e) + s.subrange(
            e,
            s.len() as int,
        )));
        lemma_byte_len_concat(s.subrange(a, e), s.subrange(e, s.len() as int));
        lemma_byte_len_concat(s.subrange(i, a), s.subrange(a, e) + s.subrange(e, s.len() as int));
    }
}

/// Law: the visual length of a line is its length in bytes less the bytes
/// of every `http://` or `https://` URL in it, each URL running up to
/// whitespace, `)`, `]`, `>`, `"` or `'`.
pub proof fn md013_visual_length_removes_every_url(s: Seq<char>)
    ensures
        0 <= url_bytes_from(s, 0) <= byte_len(s),
        visual_len(s) == byte_len(s) - url_bytes_from(s, 0),
{
    assert(s.subrange(0, s.len() as int) =~= s);
    lemma_url_bytes_bound(s, 0);
    lemma_url_bytes(s, 0, byte_len(s) as int);
}

proof fn lemma_visual_from_le(s: Seq<char>, i: int, len: int)
    requires
        0 <= len,
    ensures
        0 <= visual_from(s, i, len) <= len,
    decreases s.len() - i,
{
    if 0 <= i <= s.len() {
        let a = next_url(s, i);
        if a < s.len() {
            let e = run_fwd(s, a, CharClass::UrlBody);
            lemma_url_end(s, i, a);
            lemma_visual_from_le(s, e, sat_sub(len, byte_len(s.subrange(a, e)) as int));
        }
    }
}

/// Law: the visual length of a line never exceeds its length in bytes, so a
/// line that the strict mode accepts the visual mode accepts too, the other
/// settings being the same.
pub proof fn md013_visual_accepts_what_strict_accepts(
    strict: MD013,
    visual: MD013,
    num: int,
    line: Seq<char>,
    skip: bool,
)
    requires
        strict.length_mode == LengthMode::Strict,
        visual.length_mode == LengthMode::Visual,
        visual.line_length == strict.line_length,
        visual.ignore_headings == strict.ignore_headings,
        md013_line(strict, num, line, skip) is None,
    ensures
        md013_line(visual, num, line, skip) is None,
{
    lemma_visual_from_le(line, 0, byte_len(line) as int);
}

/// Law: in the strict mode, a document whose lines are all at most the
/// limit long (in bytes) draws no report.
pub proof fn md013_short_lines_pass(rule: MD013, lines: Seq<Seq<char>>, flags: Seq<bool>)
    requires
        rule.length_mode == LengthMode::Strict,
        forall|i: int| 0 <= i < lines.len() ==> byte_len(#[trigger] lines[i]) <= rule.line_length,
    ensures
        line_violations(&rule, lines, flags, 0) == Seq::<ViolationModel>::empty(),
{
    assert forall|i: int| 0 <= i < lines.len() implies #[trigger] rule.line_spec(i + 1, lines[i], flags[i]) is None by {
        assert(byte_len(lines[i]) <= rule.line_length);
    }
    lemma_line_violations_empty(&rule, lines, flags, 0);
}

impl LineRule for MD013 {
    open spec fn line_spec(&self, num: int, line: Seq<char>, flag: bool) -> Option<ViolationModel> {
        md013_line(*self, num, line, flag)
    }

    fn line_check(&self, num: usize, line: &[char], flag: bool) -> (r: Option<Violation>) {
        if flag {
            return None;
        }
        let st = skip_ws(line, 0);
        if (self.ignore_headings && st < line.len() && line[st] == '#') || lit_at(line, st, "http://")
            || lit_at(line, st, "https://") {
            return None;
        }
        let len = match self.length_mode {
            LengthMode::Strict => {
                let b = byte_len_prefix(line, line.len());
                proof {
                    assert(line@.take(line@.len() as int) == line@);
                }
                b
            },
            LengthMode::Visual => visual_length_chars(line),
        };
        if len <= self.line_length {
            return None;
        }
        let mut message = String::from_str("Line length is ");
        append_decimal(&mut message, len);
        match self.length_mode {
            LengthMode::Strict => message.append(" characters, expected no more than "),
            LengthMode::Visual => message.append(" characters (visual), expected no more than "),
        }
        append_decimal(&mut message, self.line_length);
        Some(new_violation("MD013", message, num, self.line_length + 1, Severity::Warning, None))
    }
}

fn visual_length_chars(s: &[char]) -> (r: usize)
    requires
        s@.len() <= usize::MAX / 4,
    ensures
        r as int == visual_len(s@),
{
    let total = byte_len_prefix(s, s.len());
    proof {
        assert(s@.take(s@.len() as int) == s@);
    }
    let mut len = total;
    let mut i: usize = 0;
    while i <= s.len()
        invariant
            i <= s@.len() + 1,
            s@.len() <= usize::MAX / 4,
            i <= s@.len() ==> visual_from(s@, i as int, len as int) == visual_len(s@),
            i > s@.len() ==> len as int == visual_len(s@),
        decreases s@.len() + 1 - i,
    {
        let h = find_lit(s, i, "http://");
        let hs = find_lit(s, i, "https://");
        let a = if h <= hs { h } else { hs };
        if a >= s.len() {
            return len;
        }
        proof {
            lemma_url_end(s@, i as int, a as int);
        }
        let e = scan_fwd(s, a, CharClass::UrlBody);
        let url_bytes = url_byte_len(s, a, e);
        len = if len >= url_bytes { len - url_bytes } else { 0 };
        i = e;
    }
    len
}

fn url_byte_len(s: &[char], a: usize, e: usize) -> (r: usize)
    requires
        a <= e <= s@.len(),
        s@.len() <= usize::MAX / 4,
    ensures
        r == byte_len(s@.subrange(a as int, e as int)),
{
    let part = crate::text::slice_chars(s, a, e);
    let r = byte_len_prefix(part.as_slice(), part.len());
    proof {
        assert(part@.take(part@.len() as int) == part@);
    }
    r
}

/// For each line, whether MD013 skips it for where it stands.
fn md013_flags(rule: &MD013, document: &Document) -> (f: Vec<bool>)
    ensures
        f@.len() == document.lines_of().len(),
        forall|i: int| 0 <= i < f@.len() ==> #[trigger] f@[i] == md013_skip(*rule, document.lines_of(), i),
{
    let ghost lines = document.lines_of();
    let n = document.line_count();
    let mut f: Vec<bool> = Vec::new();
    let mut code = false;
    let mut table = false;
    for i in 0..n
        invariant
            n == lines.len(),
            lines == document.lines_of(),
            f@.len() == i,
            (code, table) == md013_state(lines, i as int),
            forall|k: int| 0 <= k < f@.len() ==> #[trigger] f@[k] == md013_skip(*rule, lines, k),
    {
        let line = document.line(i);
        let st = skip_ws(line, 0);
        let fence = lit_at(line, st, "```");
        if fence {
            code = !code;
        } else {
            let t = trim_chars(line);
            if !code && ((t.len() > 0 && t[0] == '|') || find_lit(t.as_slice(), 0, " | ") < t.len()) {
                table = true;
            } else if table && t.len() == 0 {
                table = false;
            }
        }
        f.push(fence || (code && rule.ignore_code_blocks) || (table && rule.ignore_tables));
    }
    f
}

impl MD013 {
    /// The rule with an 80-byte limit that ignores code blocks, tables and headings.
    pub fn new() -> (r: Self)
        ensures
            r.line_length == 80 && r.ignore_code_blocks && r.ignore_tables && r.ignore_headings
                && r.length_mode == LengthMode::Strict,
    {
        MD013 {
            line_length: 80,
            ignore_code_blocks: true,
            ignore_tables: true,
            ignore_headings: true,
            length_mode: LengthMode::Strict,
        }
    }

    /// The rule with a custom limit.
    pub fn with_line_length(line_length: usize) -> (r: Self)
        ensures
            r.line_length == line_length && r.ignore_code_blocks && r.ignore_tables
                && r.ignore_headings && r.length_mode == LengthMode::Strict,
    {
        MD013 {
            line_length,
            ignore_code_blocks: true,
            ignore_tables: true,
            ignore_headings: true,
            length_mode: LengthMode::Strict,
        }
    }

    /// The length of a line without the bytes of its `http://` and
    /// `https://` URLs.
    pub fn visual_length(&self, line: &str) -> (r: usize)
        requires
            line@.len() <= usize::MAX / 4,
        ensures
            r as int == visual_len(line@),
    {
        let chars = chars_of(line);
        visual_length_chars(chars.as_slice())
    }

    /// The rule's identifier.
    pub fn id(&self) -> (r: &'static str)
        ensures
            r@ == "MD013"@,
    {
        "MD013"
    }

    /// The rule's name.
    pub fn name(&self) -> (r: &'static str)
        ensures
            r@ == "line-length"@,
    {
        "line-length"
    }

    /// What the rule checks.
    pub fn description(&self) -> (r: &'static str)
        ensures
            r@ == "Line length should not exceed a specified limit"@,
    {
        "Line length should not exceed a specified limit"
    }

    /// Checks a document.
    pub fn check(&self, document: &Document) -> (r: Vec<Violation>)
        ensures
            r.deep_view() == line_violations(
                self,
                document.lines_of(),
                Seq::new(document.lines_of().len(), |i: int| md013_skip(*self, document.lines_of(), i)),
                0,
            ),
    {
        let flags = md013_flags(self, document);
        assert(flags@ =~= Seq::new(
            document.lines_of().len(),
            |i: int| md013_skip(*self, document.lines_of(), i),
        ));
        check_lines(self, document, &flags)
    }
}

impl MD013 {
    /// The rule configured by a TOML table: `line-length`,
    /// `ignore-code-blocks`, `ignore-tables`, `ignore-headings` and
    /// `length-mode` (or their snake-case forms); a length mode is visual when
    /// it reads `visual` in any case.
    pub fn from_config(config: &toml::Value) -> (r: Self)
        ensures
            r.line_length == match as_int(toml_get_either(*config, "line-length"@, "line_length"@)) {
                Some(i) => i as usize,
                None => 80usize,
            },
            r.ignore_code_blocks == match as_bool(
                toml_get_either(*config, "ignore-code-blocks"@, "ignore_code_blocks"@),
            ) {
                Some(b) => b,
                None => true,
            },
            r.ignore_tables == match as_bool(
                toml_get_either(*config, "ignore-tables"@, "ignore_tables"@),
            ) {
                Some(b) => b,
                None => true,
            },
            r.ignore_headings == match as_bool(
                toml_get_either(*config, "ignore-headings"@, "ignore_headings"@),
            ) {
                Some(b) => b,
                None => true,
            },
            r.length_mode == match as_str(toml_get_either(*config, "length-mode"@, "length_mode"@)) {
                Some(m) => if lowercase(m) == "visual"@ {
                    LengthMode::Visual
                } else {
                    LengthMode::Strict
                },
                None => LengthMode::Strict,
            },
    {
        let mut rule = MD013::new();
        match entry_int(&entry_either(config, "line-length", "line_length")) {
            Some(i) => {
                rule.line_length = i as usize;
            },
            None => {},
        }
        match entry_bool(&entry_either(config, "ignore-code-blocks", "ignore_code_blocks")) {
            Some(b) => {
                rule.ignore_code_blocks = b;
            },
            None => {},
        }
        match entry_bool(&entry_either(config, "ignore-tables", "ignore_tables")) {
            Some(b) => {
                rule.ignore_tables = b;
            },
            None => {},
        }
        match entry_bool(&entry_either(config, "ignore-headings", "ignore_headings")) {
            Some(b) => {
                rule.ignore_headings = b;
            },
            None => {},
        }
        match entry_str(entry_either(config, "length-mode", "length_mode")) {
            Some(m) => {
                let l = crate::text::chars_of(crate::text::to_lowercase(m.as_str()).as_str());
                rule.length_mode = if crate::text::equals_lit(l.as_slice(), "visual") {
                    LengthMode::Visual
                } else {
                    LengthMode::Strict
                };
            },
            None => {},
        }
        rule
    }
}

impl Default for MD013 {
    fn default() -> (r: Self)
        ensures
            r.line_length == 80 && r.ignore_code_blocks && r.ignore_tables && r.ignore_headings
                && r.length_mode == LengthMode::Strict,
    {
        MD013::new()
    }
}

} // verus!
