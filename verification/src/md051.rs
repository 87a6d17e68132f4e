//! MD051: link fragments should name a place in the document.
//!
//! With the parsed tree, the places are the heading fragments (as GitHub
//! derives them), custom `{#id}` anchors, HTML `id` and `<a name>` attributes
//! and `top`. Without it, each line is scanned for `[text](#fragment)` and
//! only suspicious fragments are reported.
use vstd::prelude::*;
use vstd::string::StringExecFns;
use crate::document::{Document, MdNode, NodeKind};
use crate::md043::{node_literal, string_views};
use crate::nodes::{find_subtree_end, lemma_subtree_end, subtree_end};
use crate::lines::{check_multi_lines, multi_line_violations, no_flags, push_vec, MultiLineRule};
use crate::text::{
    alphanumeric, byte_len, byte_len_prefix, chars_of, contains_seq, find_chars, find_lit,
    first_occ, has_at, is_alphanumeric, is_whitespace, is_ws, lemma_byte_len_ge, lemma_first_occ,
    lowercase, run_back, run_fwd, same_chars, scan_back, scan_fwd, slice_chars, starts_with,
    string_of, to_lowercase, trimmed, trim_chars, decimal, push_decimal, push_all, CharClass,
};
use crate::violation::{new_violation, violation_model, Severity, Violation, ViolationModel};

verus! {

/// Rule that flags links to fragments that name no place in the document.
pub struct MD051 {
    /// Whether fragments are compared without regard to case.
    pub ignore_case: bool,
    /// Fragments that hold this text are not checked.
    pub ignored_pattern: Option<String>,
}

/// A character that a heading fragment keeps: alphanumeric, whitespace, `-`
/// or `_`.
pub open spec fn fragment_char(c: char) -> bool {
    alphanumeric(c) || is_ws(c) || c == '-' || c == '_'
}

/// The characters of `s` that a fragment keeps, each space as a dash.
pub open spec fn dashed_kept(s: Seq<char>) -> Seq<char>
    decreases s.len(),
{
    if s.len() == 0 {
        seq![]
    } else {
        dashed_kept(s.drop_last()) + if fragment_char(s.last()) {
            seq![if s.last() == ' ' { '-' } else { s.last() }]
        } else {
            seq![]
        }
    }
}

/// `s` with each run of dashes cut to one dash.
pub open spec fn consolidated(s: Seq<char>) -> Seq<char>
    decreases s.len(),
{
    if s.len() == 0 {
        seq![]
    } else if s.last() == '-' && s.len() >= 2 && s[s.len() - 2] == '-' {
        consolidated(s.drop_last())
    } else {
        consolidated(s.drop_last()).push(s.last())
    }
}

/// `s` without its leading and trailing dashes.
pub open spec fn trim_dashes(s: Seq<char>) -> Seq<char> {
    let a = run_fwd(s, 0, CharClass::Exactly('-'));
    let b = run_back(s, s.len() as int, CharClass::Exactly('-'));
    if b <= a {
        seq![]
    } else {
        s.subrange(a, b)
    }
}

/// The fragment of a heading with text `t`: lowercased, with the characters
/// other than alphanumerics, whitespace, `-` and `_` dropped, spaces as
/// dashes, runs of dashes cut to one and no dash at either end.
pub open spec fn heading_fragment(t: Seq<char>) -> Seq<char> {
    trim_dashes(consolidated(dashed_kept(lowercase(t))))
}

/// A character of a custom anchor: alphanumeric, `-` or `_`.
pub open spec fn anchor_char(c: char) -> bool {
    alphanumeric(c) || c == '-' || c == '_'
}

/// `s` with each space written as a dash.
pub open spec fn spaces_as_dashes(s: Seq<char>) -> Seq<char> {
    s.map_values(|c: char| if c == ' ' { '-' } else { c })
}

/// A lowercased heading text of words: every character is a space, an
/// underscore or an alphanumeric character other than `-`, with no space at
/// either end and no two spaces in a row.
pub open spec fn plain_words(l: Seq<char>) -> bool {
    &&& forall|k: int| 0 <= k < l.len() ==> (#[trigger] l[k] == ' ' || l[k] == '_' || (alphanumeric(l[k]) && l[k] != '-'))
    &&& (l.len() > 0 ==> l[0] != ' ' && l.last() != ' ')
    &&& forall|k: int| 0 <= k < l.len() - 1 ==> !(#[trigger] l[k] == ' ' && l[k + 1] == ' ')
}

proof fn lemma_dashed_kept_all(l: Seq<char>)
    requires
        forall|k: int| 0 <= k < l.len() ==> (#[trigger] l[k] == ' ' || l[k] == '_' || alphanumeric(l[k])),
    ensures
        dashed_kept(l) == spaces_as_dashes(l),
    decreases l.len(),
{
    if l.len() > 0 {
        let p = l.drop_last();
        assert forall|k: int| 0 <= k < p.len() implies (#[trigger] p[k] == ' ' || p[k] == '_' || alphanumeric(p[k])) by {
            assert(p[k] == l[k]);
        }
        lemma_dashed_kept_all(p);
        assert(l[l.len() - 1] == ' ' || l[l.len() - 1] == '_' || alphanumeric(l[l.len() - 1]));
        assert(spaces_as_dashes(l) =~= spaces_as_dashes(p) + seq![
            if l.last() == ' ' { '-' } else { l.last() },
        ]);
    }
}

proof fn lemma_consolidated_single(m: Seq<char>)
    requires
        forall|k: int| 0 <= k < m.len() - 1 ==> !(#[trigger] m[k] == '-' && m[k + 1] == '-'),
    ensures
        consolidated(m) == m,
    decreases m.len(),
{
    if m.len() > 0 {
        let p = m.drop_last();
        assert forall|k: int| 0 <= k < p.len() - 1 implies !(#[trigger] p[k] == '-' && p[k + 1] == '-') by {
            assert(p[k] == m[k] && p[k + 1] == m[k + 1]);
        }
        lemma_consolidated_single(p);
        if m.len() >= 2 {
            assert(!(m[m.len() - 2] == '-' && m[m.len() - 1] == '-'));
        }
        assert(p.push(m.last()) =~= m);
    }
}

/// Law: the fragment of a heading whose lowercased text is words of
/// alphanumeric characters (digits included) and underscores separated by
/// single spaces is that text with each space written as a dash: no
/// alphanumeric character or underscore is dropped. For instance `Step 1`
/// gives `step-1`.
pub proof fn md051_fragment_keeps_alphanumerics(t: Seq<char>)
    requires
        plain_words(lowercase(t)),
    ensures
        heading_fragment(t) == spaces_as_dashes(lowercase(t)),
{
    let l = lowercase(t);
    let m = spaces_as_dashes(l);
    assert forall|k: int| 0 <= k < l.len() implies (#[trigger] l[k] == ' ' || l[k] == '_' || alphanumeric(l[k])) by {
        assert(l[k] == ' ' || l[k] == '_' || (alphanumeric(l[k]) && l[k] != '-'));
    }
    lemma_dashed_kept_all(l);
    assert forall|k: int| 0 <= k < m.len() - 1 implies !(#[trigger] m[k] == '-' && m[k + 1] == '-') by {
        assert(l[k] == ' ' || l[k] == '_' || (alphanumeric(l[k]) && l[k] != '-'));
        assert(l[k + 1] == ' ' || l[k + 1] == '_' || (alphanumeric(l[k + 1]) && l[k + 1] != '-'));
        assert(!(l[k] == ' ' && l[k + 1] == ' '));
    }
    lemma_consolidated_single(m);
    if m.len() > 0 {
        assert(l[0] == ' ' || l[0] == '_' || (alphanumeric(l[0]) && l[0] != '-'));
        assert(l[l.len() - 1] == ' ' || l[l.len() - 1] == '_' || (alphanumeric(l[l.len() - 1]) && l[l.len() - 1] != '-'));
        assert(m[0] != '-');
        assert(m[m.len() - 1] != '-');
        assert(run_fwd(m, 0, CharClass::Exactly('-')) == 0);
        assert(run_back(m, m.len() as int, CharClass::Exactly('-')) == m.len());
        assert(m.subrange(0, m.len() as int) =~= m);
    } else {
        assert(trim_dashes(m) =~= m);
    }
}

/// The custom anchor of a heading text: what stands between the first `{#`
/// and the next `}`, when it is not empty and holds only anchor characters.
pub open spec fn custom_anchor(t: Seq<char>) -> Option<Seq<char>> {
    let s = first_occ(t, 0, "{#"@);
    if s >= t.len() {
        None
    } else {
        let rest = t.subrange(s + 2, t.len() as int);
        let e = first_occ(rest, 0, "}"@);
        if e >= rest.len() {
            None
        } else {
            let id = rest.take(e);
            if id.len() > 0 && forall|k: int| 0 <= k < id.len() ==> anchor_char(#[trigger] id[k]) {
                Some(id)
            } else {
                None
            }
        }
    }
}

/// End of a line position `L<digits>` with an optional `C<digits>` that
/// starts at `i`, or -1 when there is none.
pub open spec fn line_part(s: Seq<char>, i: int) -> int {
    if 0 <= i < s.len() && s[i] == 'L' {
        let a = run_fwd(s, i + 1, CharClass::AsciiDigit);
        if a == i + 1 {
            -1
        } else if a < s.len() && s[a] == 'C' {
            let b = run_fwd(s, a + 1, CharClass::AsciiDigit);
            if b == a + 1 {
                -1
            } else {
                b
            }
        } else {
            a
        }
    } else {
        -1
    }
}

/// A GitHub line reference: a line position, or two joined by `-`, such as
/// `L12`, `L3C4` or `L10-L20C2`.
pub open spec fn github_line_reference(s: Seq<char>) -> bool {
    let e = line_part(s, 0);
    e >= 0 && (e == s.len() || (s[e] == '-' && line_part(s, e + 1) == s.len()))
}

/// Index of the `]` that brings the count of open brackets back to zero,
/// scanning from `i` with `depth` open, or -1.
pub open spec fn balance_close(t: Seq<char>, i: int, depth: int) -> int
    decreases t.len() - i,
{
    if i < 0 || i >= t.len() {
        -1
    } else if t[i] == '[' {
        balance_close(t, i + 1, depth + 1)
    } else if t[i] == ']' {
        if depth - 1 == 0 {
            i
        } else {
            balance_close(t, i + 1, depth - 1)
        }
    } else {
        balance_close(t, i + 1, depth)
    }
}

pub proof fn lemma_balance_close(t: Seq<char>, i: int, depth: int)
    requires
        0 <= i,
    ensures
        balance_close(t, i, depth) == -1 || (i <= balance_close(t, i, depth) < t.len()),
    decreases t.len() - i,
{
    if i < t.len() {
        if t[i] == '[' {
            lemma_balance_close(t, i + 1, depth + 1);
        } else if t[i] == ']' {
            if depth - 1 != 0 {
                lemma_balance_close(t, i + 1, depth - 1);
            }
        } else {
            lemma_balance_close(t, i + 1, depth);
        }
    }
}

/// A link to a fragment at the start of `t`, `[text](#fragment)`: the
/// fragment and the link's length in bytes. The text ends at the `]` that
/// balances the brackets; the fragment at the first `)` after it.
pub open spec fn fragment_link(t: Seq<char>) -> Option<(Seq<char>, nat)> {
    if t.len() == 0 || t[0] != '[' {
        None
    } else {
        let c = balance_close(t, 0, 0);
        if c < 0 {
            None
        } else {
            let rest = t.subrange(c + 1, t.len() as int);
            if !starts_with(rest, "(#"@) {
                None
            } else {
                let p = first_occ(rest, 0, ")"@);
                if p >= rest.len() {
                    None
                } else {
                    Some((t.subrange(c + 3, c + 1 + p), byte_len(t.take(c + 2 + p))))
                }
            }
        }
    }
}

pub proof fn lemma_fragment_link(t: Seq<char>)
    ensures
        fragment_link(t) matches Some((f, n)) ==> n >= 1,
{
    if t.len() > 0 && t[0] == '[' {
        let c = balance_close(t, 0, 0);
        lemma_balance_close(t, 0, 0);
        if c >= 0 {
            let rest = t.subrange(c + 1, t.len() as int);
            lemma_first_occ(rest, 0, ")"@);
            let p = first_occ(rest, 0, ")"@);
            if p < rest.len() {
                lemma_byte_len_ge(t.take(c + 2 + p));
            }
        }
    }
}

/// The report for fragment `f` of a link at column `col` of line `num`, when
/// no tree is at hand: none for `top` or a line reference; an error for an
/// empty one; a warning when it holds `invalid` or `undefined` or, unless
/// case is ignored, is not all lowercase.
pub open spec fn fallback_report(ignore_case: bool, num: int, col: int, f: Seq<char>) -> Seq<
    ViolationModel,
> {
    if f.len() == 0 {
        seq![
            violation_model(
                "MD051"@,
                "Link fragment is empty"@,
                num as usize,
                col as usize,
                Severity::Error,
                None,
            ),
        ]
    } else if f == "top"@ || github_line_reference(f) {
        seq![]
    } else if contains_seq(f, "invalid"@) || contains_seq(f, "undefined"@) || (!ignore_case && f
        != lowercase(f)) {
        seq![
            violation_model(
                "MD051"@,
                "Link fragment '"@ + f + "' may not be valid"@,
                num as usize,
                col as usize,
                Severity::Warning,
                None,
            ),
        ]
    } else {
        seq![]
    }
}

/// The reports on line `num` from index `k` on, without a tree: a `[` outside
/// backticks that starts a fragment link is judged, and the scan goes on as
/// many characters after the `[` as the link has bytes, less one.
pub open spec fn fallback_scan(ignore_case: bool, num: int, s: Seq<char>, k: int, in_code: bool) -> Seq<
    ViolationModel,
>
    decreases s.len() - k,
{
    if k < 0 || k >= s.len() {
        seq![]
    } else if s[k] == '`' {
        fallback_scan(ignore_case, num, s, k + 1, !in_code)
    } else if s[k] == '[' && !in_code {
        match fragment_link(s.subrange(k, s.len() as int)) {
            Some((f, n)) => {
                proof {
                    lemma_fragment_link(s.subrange(k, s.len() as int));
                }
                fallback_report(ignore_case, num, (byte_len(s.take(k)) + 1) as int, f) + fallback_scan(
                    ignore_case,
                    num,
                    s,
                    if k + n < s.len() { k + n } else { s.len() as int },
                    in_code,
                )
            },
            None => fallback_scan(ignore_case, num, s, k + 1, in_code),
        }
    } else {
        fallback_scan(ignore_case, num, s, k + 1, in_code)
    }
}

/// Whether every character of `id` is an anchor character.
fn all_anchor_chars(id: &[char]) -> (r: bool)
    ensures
        r == forall|m: int| 0 <= m < id@.len() ==> anchor_char(#[trigger] id@[m]),
{
    let mut k: usize = 0;
    while k < id.len()
        invariant
            k <= id@.len(),
            forall|m: int| 0 <= m < k ==> anchor_char(#[trigger] id@[m]),
        decreases id@.len() - k,
    {
        let c = id[k];
        if !(is_alphanumeric(c) || c == '-' || c == '_') {
            assert(!anchor_char(id@[k as int]));
            return false;
        }
        k = k + 1;
    }
    true
}

impl MD051 {
    /// The rule with case-sensitive comparison and no ignored pattern.
    pub fn new() -> (r: Self)
        ensures
            !r.ignore_case,
            r.ignored_pattern is None,
    {
        MD051 { ignore_case: false, ignored_pattern: None }
    }

    /// The rule with case-insensitive comparison set or not.
    pub fn ignore_case(self, ignore_case: bool) -> (r: Self)
        ensures
            r.ignore_case == ignore_case,
            r.ignored_pattern == self.ignored_pattern,
    {
        MD051 { ignore_case, ignored_pattern: self.ignored_pattern }
    }

    /// The rule with another ignored pattern.
    pub fn ignored_pattern(self, pattern: Option<String>) -> (r: Self)
        ensures
            r.ignore_case == self.ignore_case,
            r.ignored_pattern == pattern,
    {
        MD051 { ignore_case: self.ignore_case, ignored_pattern: pattern }
    }

    /// Cuts each run of dashes to one dash.
    fn consolidate_dashes(&self, text: &[char]) -> (r: Vec<char>)
        ensures
            r@ == consolidated(text@),
    {
        let mut result: Vec<char> = Vec::new();
        let mut prev_was_dash = false;
        let mut k: usize = 0;
        while k < text.len()
            invariant
                k <= text@.len(),
                result@ == consolidated(text@.take(k as int)),
                prev_was_dash == (k > 0 && text@[k - 1] == '-'),
            decreases text@.len() - k,
        {
            let ch = text[k];
            assert(text@.take(k + 1).drop_last() == text@.take(k as int));
            if ch == '-' {
                if !prev_was_dash {
                    result.push(ch);
                }
                prev_was_dash = true;
            } else {
                result.push(ch);
                prev_was_dash = false;
            }
            k = k + 1;
        }
        assert(text@.take(text@.len() as int) == text@);
        result
    }

    /// The fragment GitHub derives from a heading text.
    fn generate_heading_fragment(&self, text: &[char]) -> (r: Vec<char>)
        ensures
            r@ == heading_fragment(text@),
    {
        let lower = chars_of(to_lowercase(string_of(text).as_str()).as_str());
        let mut kept: Vec<char> = Vec::new();
        let mut k: usize = 0;
        while k < lower.len()
            invariant
                k <= lower@.len(),
                kept@ == dashed_kept(lower@.take(k as int)),
            decreases lower@.len() - k,
        {
            let c = lower[k];
            assert(lower@.take(k + 1).drop_last() == lower@.take(k as int));
            if is_alphanumeric(c) || is_whitespace(c) || c == '-' || c == '_' {
                if c == ' ' {
                    kept.push('-');
                } else {
                    kept.push(c);
                }
            }
            assert(kept@ =~= dashed_kept(lower@.take(k + 1)));
            k = k + 1;
        }
        assert(lower@.take(lower@.len() as int) == lower@);
        let cons = self.consolidate_dashes(kept.as_slice());
        let a = scan_fwd(cons.as_slice(), 0, CharClass::Exactly('-'));
        let b = scan_back(cons.as_slice(), cons.len(), CharClass::Exactly('-'));
        if b <= a {
            Vec::new()
        } else {
            slice_chars(cons.as_slice(), a, b)
        }
    }

    /// The custom anchor `{#id}` of a heading text, if it has a valid one.
    fn extract_custom_anchor(&self, text: &[char]) -> (r: Option<Vec<char>>)
        ensures
            match r {
                Some(v) => custom_anchor(text@) == Some(v@),
                None => custom_anchor(text@) is None,
            },
    {
        proof {
            reveal_strlit("{#");
            reveal_strlit("}");
            lemma_first_occ(text@, 0, "{#"@);
        }
        let s = find_lit(text, 0, "{#");
        if s >= text.len() {
            return None;
        }
        let rest = slice_chars(text, s + 2, text.len());
        let e = find_lit(rest.as_slice(), 0, "}");
        if e >= rest.len() {
            return None;
        }
        proof {
            lemma_first_occ(rest@, 0, "}"@);
        }
        let id = slice_chars(rest.as_slice(), 0, e);
        assert(id@ == rest@.take(e as int));
        let ghost idv = text@.subrange(s + 2, text@.len() as int).take(e as int);
        assert(idv == id@);
        if id.len() == 0 {
            return None;
        }
        if !all_anchor_chars(id.as_slice()) {
            let ghost k = choose|k: int| 0 <= k < id@.len() && !anchor_char(#[trigger] id@[k]);
            assert(!anchor_char(idv[k]));
            return None;
        }
        assert(forall|m: int| 0 <= m < idv.len() ==> anchor_char(#[trigger] idv[m]));
        Some(id)
    }

    /// End of the run of digits from `i`.
    fn consume_digits(&self, s: &[char], i: usize) -> (r: usize)
        requires
            i <= s@.len(),
        ensures
            r as int == run_fwd(s@, i as int, CharClass::AsciiDigit),
            i <= r <= s@.len(),
    {
        scan_fwd(s, i, CharClass::AsciiDigit)
    }

    /// End of the line position that starts at `i`, if one does.
    fn line_part_end(&self, s: &[char], i: usize) -> (r: Option<usize>)
        requires
            i <= s@.len(),
        ensures
            match r {
                Some(e) => e as int == line_part(s@, i as int) && i < e <= s@.len(),
                None => line_part(s@, i as int) == -1,
            },
    {
        if i >= s.len() || s[i] != 'L' {
            return None;
        }
        let a = self.consume_digits(s, i + 1);
        if a == i + 1 {
            return None;
        }
        if a < s.len() && s[a] == 'C' {
            let b = self.consume_digits(s, a + 1);
            if b == a + 1 {
                return None;
            }
            Some(b)
        } else {
            Some(a)
        }
    }

    /// Whether a fragment is a GitHub line reference.
    fn is_github_line_reference(&self, fragment: &[char]) -> (r: bool)
        ensures
            r == github_line_reference(fragment@),
    {
        match self.line_part_end(fragment, 0) {
            None => false,
            Some(e) => {
                if e == fragment.len() {
                    true
                } else if fragment[e] == '-' {
                    match self.line_part_end(fragment, e + 1) {
                        Some(f) => f == fragment.len(),
                        None => false,
                    }
                } else {
                    false
                }
            },
        }
    }

    /// Index of the `]` that balances the brackets of `text`, which starts
    /// with `[`.
    fn balancing_bracket(&self, text: &[char]) -> (r: Option<usize>)
        requires
            text@.len() > 0,
            text@[0] == '[',
        ensures
            match r {
                Some(c) => c as int == balance_close(text@, 0, 0) && c < text@.len(),
                None => balance_close(text@, 0, 0) == -1,
            },
    {
        proof {
            lemma_balance_close(text@, 0, 0);
        }
        let n = text.len();
        let mut depth: usize = 0;
        let mut i: usize = 0;
        while i < n
            invariant
                n == text@.len(),
                i <= n,
                depth <= i,
                i > 0 ==> depth > 0,
                text@[0] == '[',
                balance_close(text@, 0, 0) == balance_close(text@, i as int, depth as int),
            decreases n - i,
        {
            let ch = text[i];
            if ch == '[' {
                depth = depth + 1;
            } else if ch == ']' {
                if depth == 1 {
                    return Some(i);
                }
                depth = depth - 1;
            }
            i = i + 1;
        }
        None
    }

    /// The fragment link at the start of `text`: the fragment and the link's
    /// length in bytes.
    fn parse_fragment_link(&self, text: &[char]) -> (r: Option<(Vec<char>, usize)>)
        requires
            text@.len() <= usize::MAX / 4,
        ensures
            match r {
                Some((f, n)) => fragment_link(text@) == Some((f@, n as nat)),
                None => fragment_link(text@) is None,
            },
    {
        if text.len() == 0 || text[0] != '[' {
            return None;
        }
        let n = text.len();
        let close = match self.balancing_bracket(text) {
            Some(c) => c,
            None => {
                return None;
            },
        };
        proof {
            reveal_strlit("(#");
            reveal_strlit(")");
        }
        let rest = slice_chars(text, close + 1, n);
        assert("(#"@.len() == 2 && "(#"@[0] == '(' && "(#"@[1] == '#');
        if !(rest.len() >= 2 && rest[0] == '(' && rest[1] == '#') {
            if rest.len() >= 2 {
                assert(rest@.subrange(0, 2)[0] == rest@[0]);
                assert(rest@.subrange(0, 2)[1] == rest@[1]);
            }
            assert(!starts_with(rest@, "(#"@));
            return None;
        }
        assert(rest@.subrange(0, 2) =~= "(#"@);
        assert(starts_with(rest@, "(#"@));
        let p = find_lit(rest.as_slice(), 0, ")");
        if p >= rest.len() {
            return None;
        }
        proof {
            lemma_first_occ(rest@, 0, ")"@);
            assert(")"@.len() == 1 && ")"@[0] == ')');
            if p < 2 {
                assert(has_at(rest@, p as int, ")"@));
                assert(rest@.subrange(p as int, p + 1)[0] == rest@[p as int]);
            }
        }
        let frag = slice_chars(text, close + 3, close + 1 + p);
        let total = byte_len_prefix(text, close + 2 + p);
        Some((frag, total))
    }
}

impl MD051 {
    /// The report for a fragment found without a tree, at column `col` of
    /// line `num`.
    fn fallback_report(&self, num: usize, col: usize, f: &[char]) -> (r: Vec<Violation>)
        ensures
            r.deep_view() == fallback_report(self.ignore_case, num as int, col as int, f@),
    {
        let mut out: Vec<Violation> = Vec::new();
        if f.len() == 0 {
            let v = new_violation("MD051", String::from_str("Link fragment is empty"), num, col, Severity::Error, None);
            out.push(v);
            assert(out.deep_view() =~= seq![v.deep_view()]);
            return out;
        }
        let top = chars_of("top");
        if same_chars(f, top.as_slice()) || self.is_github_line_reference(f) {
            assert(out.deep_view() =~= Seq::<ViolationModel>::empty());
            return out;
        }
        let fs = string_of(f);
        let lower = chars_of(to_lowercase(fs.as_str()).as_str());
        let n = f.len();
        let suspicious = find_lit(f, 0, "invalid") < n || find_lit(f, 0, "undefined") < n
            || (!self.ignore_case && !same_chars(f, lower.as_slice()));
        if suspicious {
            let mut message = String::from_str("Link fragment '");
            message.append(fs.as_str());
            message.append("' may not be valid");
            let v = new_violation("MD051", message, num, col, Severity::Warning, None);
            out.push(v);
            assert(out.deep_view() =~= seq![v.deep_view()]);
        } else {
            assert(out.deep_view() =~= Seq::<ViolationModel>::empty());
        }
        out
    }

    /// Checks a document line by line, without a tree.
    fn check_fragments_fallback(&self, document: &Document) -> (r: Vec<Violation>)
        ensures
            r.deep_view() == fallback_violations(self, document.lines_of()),
    {
        let flags = no_flags(document);
        assert(flags@ =~= Seq::new(document.lines_of().len(), |i: int| false));
        check_multi_lines(self, document, &flags)
    }
}

/// The reports of the line scan without a tree, over all lines.
pub open spec fn fallback_violations(rule: &MD051, lines: Seq<Seq<char>>) -> Seq<ViolationModel> {
    multi_line_violations(rule, lines, Seq::new(lines.len(), |i: int| false), 0)
}

impl MultiLineRule for MD051 {
    open spec fn line_spec(&self, num: int, line: Seq<char>, flag: bool) -> Seq<ViolationModel> {
        fallback_scan(self.ignore_case, num, line, 0, false)
    }

    fn line_check(&self, num: usize, line: &[char], flag: bool) -> (r: Vec<Violation>) {
        let ghost s = line@;
        let n = line.len();
        let mut out: Vec<Violation> = Vec::new();
        let mut in_backticks = false;
        let mut k: usize = 0;
        while k < n
            invariant
                n == s.len(),
                s == line@,
                n <= usize::MAX / 4,
                k <= n,
                out.deep_view() + fallback_scan(self.ignore_case, num as int, s, k as int, in_backticks)
                    == fallback_scan(self.ignore_case, num as int, s, 0, false),
            decreases n - k,
        {
            let ch = line[k];
            if ch == '`' {
                in_backticks = !in_backticks;
                k = k + 1;
            } else if ch == '[' && !in_backticks {
                let rest = slice_chars(line, k, n);
                proof {
                    lemma_fragment_link(rest@);
                }
                match self.parse_fragment_link(rest.as_slice()) {
                    Some((f, total)) => {
                        let col = byte_len_prefix(line, k) + 1;
                        let v = self.fallback_report(num, col, f.as_slice());
                        let ghost before = out.deep_view();
                        push_vec(&mut out, v);
                        assert(out.deep_view() == before + v.deep_view());
                        if total >= n - k {
                            k = n;
                        } else {
                            k = k + total;
                        }
                    },
                    None => {
                        k = k + 1;
                    },
                }
            } else {
                k = k + 1;
            }
        }
        out
    }
}

/// The regular expression for `id` attributes: `id`, then `=`, then a value
/// in double quotes, in single quotes or bare, without regard to case.
pub open spec fn id_pattern() -> Seq<char> {
    "(?i)id\\s*=\\s*(?:\"([^\"]*)\"|'([^']*)'|([^\\s>]*))"@
}

/// The regular expression for the `name` attribute of an `<a>` tag.
pub open spec fn name_pattern() -> Seq<char> {
    "(?i)<a[^>]*name\\s*=\\s*(?:\"([^\"]*)\"|'([^']*)'|([^\\s>]*)).*?>"@
}

/// The capture groups (group 0 first, `None` for a group that took no part)
/// of each successive match of the regular expression `pattern` in `text`,
/// or `None` when the pattern does not compile.
pub uninterp spec fn regex_captures(pattern: Seq<char>, text: Seq<char>) -> Option<
    Seq<Seq<Option<Seq<char>>>>,
>;

/// `regex::Regex::new` and `Regex::captures_iter`: the groups of every match
/// of `pattern` in `text`, each group's text as a string. The contract only
/// names the result.
#[verifier::external_body]
fn captures_of(pattern: &str, text: &str) -> (r: Option<Vec<Vec<Option<String>>>>)
    ensures
        r.deep_view() == regex_captures(pattern@, text@),
{
    let Ok(re) = regex::Regex::new(pattern) else { return None };
    let mut out = Vec::new();
    for caps in re.captures_iter(text) {
        let mut groups = Vec::new();
        for g in caps.iter() {
            groups.push(match g {
                Some(m) => Some(m.as_str().to_string()),
                None => None,
            });
        }
        out.push(groups);
    }
    Some(out)
}

/// The first of groups `i..=3` whose text, trimmed, is not empty, trimmed.
pub open spec fn first_group(groups: Seq<Option<Seq<char>>>, i: int) -> Option<Seq<char>>
    decreases 4 - i,
{
    if i < 1 || i > 3 {
        None
    } else {
        let g = if i < groups.len() { groups[i] } else { None };
        match g {
            Some(t) => if trimmed(t).len() > 0 { Some(trimmed(t)) } else { first_group(groups, i + 1) },
            None => first_group(groups, i + 1),
        }
    }
}

/// The attribute values of a list of matches: of each, the first of its
/// groups 1 to 3 that is not blank, trimmed.
pub open spec fn attribute_values(caps: Seq<Seq<Option<Seq<char>>>>) -> Seq<Seq<char>>
    decreases caps.len(),
{
    if caps.len() == 0 {
        seq![]
    } else {
        attribute_values(caps.drop_last()) + match first_group(caps.last(), 1) {
            Some(v) => seq![v],
            None => seq![],
        }
    }
}

/// The attribute values that `pattern` finds in an HTML text.
pub open spec fn html_values(pattern: Seq<char>, html: Seq<char>) -> Seq<Seq<char>> {
    match regex_captures(pattern, html) {
        Some(caps) => attribute_values(caps),
        None => seq![],
    }
}

/// The views of a list of character vectors.
pub open spec fn char_views(v: Seq<Vec<char>>) -> Seq<Seq<char>> {
    v.map_values(|x: Vec<char>| x@)
}

/// The text a heading's nodes `j..e` give: the literals of the text and code
/// span nodes that only emphasis and strong emphasis nodes separate from the
/// heading. Nodes deeper than `skip` belong to a node passed over.
pub open spec fn heading_text_from(nodes: Seq<MdNode>, j: int, e: int, skip: Option<usize>) -> Seq<char>
    decreases e - j,
{
    if j < 0 || j >= e || j >= nodes.len() {
        seq![]
    } else if skip matches Some(d) && nodes[j].depth > d {
        heading_text_from(nodes, j + 1, e, skip)
    } else {
        match nodes[j].kind {
            NodeKind::Emph => heading_text_from(nodes, j + 1, e, None),
            NodeKind::Strong => heading_text_from(nodes, j + 1, e, None),
            _ => node_literal(nodes[j]) + heading_text_from(nodes, j + 1, e, Some(nodes[j].depth)),
        }
    }
}

/// The text of heading node `i`.
pub open spec fn heading_text(nodes: Seq<MdNode>, i: int) -> Seq<char> {
    heading_text_from(nodes, i + 1, subtree_end(nodes, i), None)
}

/// How often `x` occurs in `s`.
pub open spec fn count_of(s: Seq<Seq<char>>, x: Seq<char>) -> nat
    decreases s.len(),
{
    if s.len() == 0 {
        0
    } else {
        count_of(s.drop_last(), x) + if s.last() == x { 1nat } else { 0nat }
    }
}

/// The fragment of a heading whose plain fragment `f` came `c` times before:
/// `f` the first time, else `f-(c+1)`.
pub open spec fn numbered(f: Seq<char>, c: nat) -> Seq<char> {
    if c == 0 {
        f
    } else {
        f + seq!['-'] + decimal(c + 1)
    }
}

/// The fragments that nodes `i..` define, given the plain heading fragments
/// before them: a heading's (numbered) fragment and custom anchor, and the
/// `id` and `<a name>` values of HTML.
pub open spec fn fragments_from(nodes: Seq<MdNode>, i: int, bases: Seq<Seq<char>>) -> Seq<Seq<char>>
    decreases nodes.len() - i,
{
    if i < 0 || i >= nodes.len() {
        seq![]
    } else {
        match nodes[i].kind {
            NodeKind::Heading { .. } => {
                let t = heading_text(nodes, i);
                let f = heading_fragment(t);
                seq![numbered(f, count_of(bases, f))] + match custom_anchor(t) {
                    Some(a) => seq![a],
                    None => seq![],
                } + fragments_from(nodes, i + 1, bases.push(f))
            },
            NodeKind::HtmlBlock { literal } => html_values(id_pattern(), literal@) + html_values(
                name_pattern(),
                literal@,
            ) + fragments_from(nodes, i + 1, bases),
            NodeKind::HtmlInline { literal } => html_values(id_pattern(), literal@) + html_values(
                name_pattern(),
                literal@,
            ) + fragments_from(nodes, i + 1, bases),
            _ => fragments_from(nodes, i + 1, bases),
        }
    }
}

/// The fragments a document with these nodes defines: `top` and those of its
/// nodes.
pub open spec fn valid_fragments(nodes: Seq<MdNode>) -> Seq<Seq<char>> {
    seq!["top"@] + fragments_from(nodes, 0, seq![])
}

/// Whether fragment `f` is among `valid`, compared with or without case.
pub open spec fn fragment_known(ignore_case: bool, valid: Seq<Seq<char>>, f: Seq<char>) -> bool {
    if ignore_case {
        valid.map_values(|v: Seq<char>| lowercase(v)).contains(lowercase(f))
    } else {
        valid.contains(f)
    }
}

/// Whether a fragment holds the ignored pattern.
pub open spec fn fragment_ignored(ignored: Option<String>, f: Seq<char>) -> bool {
    match ignored {
        Some(p) => contains_seq(f, p@),
        None => false,
    }
}

/// The reports for the links of nodes `i..` whose target is a fragment: an
/// error for an empty fragment and for one not in `valid`. A link with an
/// empty, ignored or line reference fragment is not looked into.
pub open spec fn link_reports(
    ignore_case: bool,
    ignored: Option<String>,
    nodes: Seq<MdNode>,
    valid: Seq<Seq<char>>,
    i: int,
) -> Seq<ViolationModel>
    decreases nodes.len() - i,
{
    if i < 0 || i >= nodes.len() {
        seq![]
    } else {
        match nodes[i].kind {
            NodeKind::Link { url } => {
                if url@.len() > 0 && url@[0] == '#' {
                    let f = url@.drop_first();
                    let end = subtree_end(nodes, i);
                    proof {
                        lemma_subtree_end(nodes, i, i + 1);
                    }
                    if f.len() == 0 {
                        seq![
                            violation_model(
                                "MD051"@,
                                "Link fragment is empty"@,
                                nodes[i].start_line,
                                nodes[i].start_column,
                                Severity::Error,
                                None,
                            ),
                        ] + link_reports(ignore_case, ignored, nodes, valid, end)
                    } else if fragment_ignored(ignored, f) || github_line_reference(f) {
                        link_reports(ignore_case, ignored, nodes, valid, end)
                    } else {
                        (if fragment_known(ignore_case, valid, f) {
                            seq![]
                        } else {
                            seq![
                                violation_model(
                                    "MD051"@,
                                    "Link fragment '"@ + f + "' is not valid"@,
                                    nodes[i].start_line,
                                    nodes[i].start_column,
                                    Severity::Error,
                                    None,
                                ),
                            ]
                        }) + link_reports(ignore_case, ignored, nodes, valid, i + 1)
                    }
                } else {
                    link_reports(ignore_case, ignored, nodes, valid, i + 1)
                }
            },
            _ => link_reports(ignore_case, ignored, nodes, valid, i + 1),
        }
    }
}

/// The plain fragments of the headings among nodes `j..i`, in order.
pub open spec fn heading_bases(nodes: Seq<MdNode>, j: int, i: int) -> Seq<Seq<char>>
    decreases i - j,
{
    if j < 0 || j >= i || j >= nodes.len() {
        seq![]
    } else {
        (if nodes[j].kind is Heading {
            seq![heading_fragment(heading_text(nodes, j))]
        } else {
            seq![]
        }) + heading_bases(nodes, j + 1, i)
    }
}

proof fn lemma_contains_suffix(a: Seq<Seq<char>>, b: Seq<Seq<char>>, x: Seq<char>)
    requires
        b.contains(x),
    ensures
        (a + b).contains(x),
{
    let k = choose|k: int| 0 <= k < b.len() && b[k] == x;
    assert((a + b)[a.len() + k] == x);
}

proof fn lemma_heading_fragment_from(nodes: Seq<MdNode>, j: int, i: int, b: Seq<Seq<char>>)
    requires
        0 <= j <= i < nodes.len(),
        nodes[i].kind is Heading,
    ensures
        fragments_from(nodes, j, b).contains(
            numbered(
                heading_fragment(heading_text(nodes, i)),
                count_of(b + heading_bases(nodes, j, i), heading_fragment(heading_text(nodes, i))),
            ),
        ),
    decreases i - j,
{
    let f = heading_fragment(heading_text(nodes, i));
    if j == i {
        assert(b + heading_bases(nodes, j, i) =~= b);
        let x = numbered(f, count_of(b, f));
        assert(fragments_from(nodes, j, b)[0] == x);
    } else {
        match nodes[j].kind {
            NodeKind::Heading { .. } => {
                let fj = heading_fragment(heading_text(nodes, j));
                lemma_heading_fragment_from(nodes, j + 1, i, b.push(fj));
                assert(b + heading_bases(nodes, j, i) =~= b.push(fj) + heading_bases(nodes, j + 1, i));
                let t = heading_text(nodes, j);
                lemma_contains_suffix(
                    seq![numbered(fj, count_of(b, fj))] + match custom_anchor(t) {
                        Some(a) => seq![a],
                        None => Seq::<Seq<char>>::empty(),
                    },
                    fragments_from(nodes, j + 1, b.push(fj)),
                    numbered(f, count_of(b.push(fj) + heading_bases(nodes, j + 1, i), f)),
                );
            },
            NodeKind::HtmlBlock { literal } => {
                lemma_heading_fragment_from(nodes, j + 1, i, b);
                assert(heading_bases(nodes, j, i) == heading_bases(nodes, j + 1, i));
                lemma_contains_suffix(
                    html_values(id_pattern(), literal@) + html_values(name_pattern(), literal@),
                    fragments_from(nodes, j + 1, b),
                    numbered(f, count_of(b + heading_bases(nodes, j + 1, i), f)),
                );
            },
            NodeKind::HtmlInline { literal } => {
                lemma_heading_fragment_from(nodes, j + 1, i, b);
                assert(heading_bases(nodes, j, i) == heading_bases(nodes, j + 1, i));
                lemma_contains_suffix(
                    html_values(id_pattern(), literal@) + html_values(name_pattern(), literal@),
                    fragments_from(nodes, j + 1, b),
                    numbered(f, count_of(b + heading_bases(nodes, j + 1, i), f)),
                );
            },
            _ => {
                lemma_heading_fragment_from(nodes, j + 1, i, b);
                assert(heading_bases(nodes, j, i) == heading_bases(nodes, j + 1, i));
            },
        }
    }
}

/// Law: every heading defines a fragment: the one GitHub derives from its
/// text, with `-n` appended for the n-th heading (n from 2) of the same
/// fragment.
pub proof fn md051_heading_fragments_are_valid(nodes: Seq<MdNode>, i: int)
    requires
        0 <= i < nodes.len(),
        nodes[i].kind is Heading,
    ensures
        valid_fragments(nodes).contains(
            numbered(
                heading_fragment(heading_text(nodes, i)),
                count_of(heading_bases(nodes, 0, i), heading_fragment(heading_text(nodes, i))),
            ),
        ),
{
    lemma_heading_fragment_from(nodes, 0, i, seq![]);
    assert(Seq::<Seq<char>>::empty() + heading_bases(nodes, 0, i) =~= heading_bases(nodes, 0, i));
    lemma_contains_suffix(
        seq!["top"@],
        fragments_from(nodes, 0, seq![]),
        numbered(
            heading_fragment(heading_text(nodes, i)),
            count_of(heading_bases(nodes, 0, i), heading_fragment(heading_text(nodes, i))),
        ),
    );
}

/// Law: a link whose fragment is among the valid ones (compared as the rule
/// is set to compare) draws no report of its own: the reports from it on
/// are those from the next node on, or from the end of its subtree on.
pub proof fn md051_known_fragment_passes(rule: MD051, nodes: Seq<MdNode>, i: int, f: Seq<char>)
    requires
        0 <= i < nodes.len(),
        nodes[i].kind matches NodeKind::Link { url } && url@ == seq!['#'] + f,
        f.len() > 0,
        fragment_known(rule.ignore_case, valid_fragments(nodes), f),
    ensures
        tree_reports_from(rule, nodes, i) == tree_reports_from(rule, nodes, i + 1)
            || tree_reports_from(rule, nodes, i) == tree_reports_from(rule, nodes, subtree_end(nodes, i)),
{
    let url = nodes[i].kind->url;
    assert(url@.drop_first() =~= f);
}

/// The reports of MD051 with the tree, from node `i` on.
pub open spec fn tree_reports_from(rule: MD051, nodes: Seq<MdNode>, i: int) -> Seq<ViolationModel> {
    link_reports(rule.ignore_case, rule.ignored_pattern, nodes, valid_fragments(nodes), i)
}

/// What MD051 reports with the tree of a document.
pub open spec fn tree_violations(rule: MD051, nodes: Seq<MdNode>) -> Seq<ViolationModel> {
    link_reports(rule.ignore_case, rule.ignored_pattern, nodes, valid_fragments(nodes), 0)
}

/// The first of groups 1 to 3 that is not blank, trimmed.
fn first_group_of(groups: &Vec<Option<String>>) -> (r: Option<String>)
    ensures
        r.deep_view() == first_group(groups.deep_view(), 1),
{
    let ghost gv = groups.deep_view();
    let mut i: usize = 1;
    while i <= 3
        invariant
            1 <= i <= 4,
            gv == groups.deep_view(),
            first_group(gv, 1) == first_group(gv, i as int),
        decreases 4 - i,
    {
        if i < groups.len() {
            match &groups[i] {
                Some(t) => {
                    let tr = trim_chars(chars_of(t.as_str()).as_slice());
                    if tr.len() > 0 {
                        return Some(string_of(tr.as_slice()));
                    }
                },
                None => {},
            }
        }
        i = i + 1;
    }
    None
}

/// The attribute values of a list of matches (group 0 first in each): of
/// each match, the first of groups 1 to 3 that is not blank, trimmed.
pub fn attribute_values_of(caps: &Vec<Vec<Option<String>>>) -> (r: Vec<String>)
    ensures
        string_views(r@) == attribute_values(caps.deep_view()),
{
    let ghost cv = caps.deep_view();
    let mut out: Vec<String> = Vec::new();
    let mut k: usize = 0;
    while k < caps.len()
        invariant
            k <= caps@.len(),
            cv == caps.deep_view(),
            string_views(out@) == attribute_values(cv.take(k as int)),
        decreases caps@.len() - k,
    {
        assert(cv.take(k + 1).drop_last() == cv.take(k as int));
        let ghost before = out@;
        match first_group_of(&caps[k]) {
            Some(v) => {
                out.push(v);
                assert(string_views(out@) =~= string_views(before) + seq![v@]);
            },
            None => {
                assert(string_views(out@) =~= string_views(before) + Seq::<Seq<char>>::empty());
            },
        }
        k = k + 1;
    }
    assert(cv.take(caps@.len() as int) == cv);
    out
}

/// The attribute values that the pattern finds in an HTML text.
fn values_in(pattern: &str, html: &str) -> (r: Vec<String>)
    ensures
        string_views(r@) == html_values(pattern@, html@),
{
    match captures_of(pattern, html) {
        Some(caps) => attribute_values_of(&caps),
        None => {
            let out: Vec<String> = Vec::new();
            assert(string_views(out@) =~= Seq::<Seq<char>>::empty());
            out
        },
    }
}

/// Whether `x` is among the vectors of `list`.
fn holds_chars(list: &Vec<Vec<char>>, x: &[char]) -> (r: bool)
    ensures
        r == char_views(list@).contains(x@),
{
    let ghost lv = char_views(list@);
    let mut k: usize = 0;
    while k < list.len()
        invariant
            k <= list@.len(),
            lv == char_views(list@),
            forall|m: int| 0 <= m < k ==> lv[m] != x@,
        decreases list@.len() - k,
    {
        if same_chars(list[k].as_slice(), x) {
            assert(lv[k as int] == x@);
            return true;
        }
        k = k + 1;
    }
    false
}

/// The lowercase forms of the vectors of `list`.
fn lowercase_all(list: &Vec<Vec<char>>) -> (r: Vec<Vec<char>>)
    ensures
        char_views(r@) == char_views(list@).map_values(|v: Seq<char>| lowercase(v)),
{
    let mut out: Vec<Vec<char>> = Vec::new();
    let mut k: usize = 0;
    while k < list.len()
        invariant
            k <= list@.len(),
            out@.len() == k,
            forall|m: int| 0 <= m < k ==> #[trigger] out@[m]@ == lowercase(list@[m]@),
        decreases list@.len() - k,
    {
        out.push(lowercase_chars(list[k].as_slice()));
        k = k + 1;
    }
    assert(char_views(out@) =~= char_views(list@).map_values(|v: Seq<char>| lowercase(v)));
    out
}

/// The lowercase form of a text.
fn lowercase_chars(s: &[char]) -> (r: Vec<char>)
    ensures
        r@ == lowercase(s@),
{
    chars_of(to_lowercase(string_of(s).as_str()).as_str())
}

impl MD051 {
    /// The text of heading node `i`.
    fn extract_heading_text(nodes: &Vec<MdNode>, i: usize) -> (r: Vec<char>)
        requires
            i < nodes@.len(),
        ensures
            r@ == heading_text(nodes@, i as int),
    {
        let e = find_subtree_end(nodes, i);
        let mut text: Vec<char> = Vec::new();
        let mut skip: Option<usize> = None;
        let mut j = i + 1;
        while j < e
            invariant
                i < j <= e <= nodes@.len(),
                e as int == subtree_end(nodes@, i as int),
                text@ + heading_text_from(nodes@, j as int, e as int, skip) == heading_text(nodes@, i as int),
            decreases e - j,
        {
            let passed = match skip {
                Some(d) => nodes[j].depth > d,
                None => false,
            };
            if !passed {
                let ghost before = text@;
                match &nodes[j].kind {
                    NodeKind::Emph => {
                        skip = None;
                    },
                    NodeKind::Strong => {
                        skip = None;
                    },
                    NodeKind::Text { literal } => {
                        push_all(&mut text, chars_of(literal.as_str()).as_slice());
                        skip = Some(nodes[j].depth);
                    },
                    NodeKind::Code { literal } => {
                        push_all(&mut text, chars_of(literal.as_str()).as_slice());
                        skip = Some(nodes[j].depth);
                    },
                    _ => {
                        skip = Some(nodes[j].depth);
                        assert(text@ == before + node_literal(nodes@[j as int]));
                    },
                }
            }
            j = j + 1;
        }
        text
    }

    /// The fragments the document's nodes define, `top` first.
    fn collect_valid_fragments(&self, nodes: &Vec<MdNode>) -> (r: Vec<Vec<char>>)
        ensures
            char_views(r@) == valid_fragments(nodes@),
    {
        let mut fragments: Vec<Vec<char>> = Vec::new();
        fragments.push(chars_of("top"));
        let mut bases: Vec<Vec<char>> = Vec::new();
        assert(char_views(fragments@) =~= seq!["top"@]);
        assert(char_views(bases@) =~= Seq::<Seq<char>>::empty());
        let mut i: usize = 0;
        while i < nodes.len()
            invariant
                i <= nodes@.len(),
                bases@.len() <= i,
                char_views(fragments@) + fragments_from(nodes@, i as int, char_views(bases@))
                    == valid_fragments(nodes@),
            decreases nodes@.len() - i,
        {
            let ghost before = char_views(fragments@);
            let ghost bv = char_views(bases@);
            match &nodes[i].kind {
                NodeKind::Heading { .. } => {
                    let t = MD051::extract_heading_text(nodes, i);
                    let f = self.generate_heading_fragment(t.as_slice());
                    let c = count_in(&bases, f.as_slice());
                    let mut frag = f.clone();
                    if c > 0 {
                        frag.push('-');
                        push_decimal(&mut frag, c + 1);
                    }
                    assert(frag@ == numbered(f@, count_of(bv, f@)));
                    fragments.push(frag);
                    match self.extract_custom_anchor(t.as_slice()) {
                        Some(a) => {
                            fragments.push(a);
                        },
                        None => {},
                    }
                    bases.push(f);
                    assert(char_views(bases@) =~= bv.push(f@));
                    assert(char_views(fragments@) =~= before + seq![numbered(f@, count_of(bv, f@))]
                        + match custom_anchor(t@) {
                        Some(a) => seq![a],
                        None => Seq::<Seq<char>>::empty(),
                    });
                },
                NodeKind::HtmlBlock { literal } => {
                    self.add_html_values(&mut fragments, literal.as_str());
                },
                NodeKind::HtmlInline { literal } => {
                    self.add_html_values(&mut fragments, literal.as_str());
                },
                _ => {},
            }
            i = i + 1;
        }
        fragments
    }

    /// Appends the `id` and `<a name>` values of an HTML text.
    fn add_html_values(&self, fragments: &mut Vec<Vec<char>>, html: &str)
        ensures
            char_views(final(fragments)@) == char_views(old(fragments)@) + html_values(id_pattern(), html@)
                + html_values(name_pattern(), html@),
    {
        let ids = self.extract_html_ids(html);
        let names = self.extract_html_names(html);
        append_strings(fragments, &ids);
        append_strings(fragments, &names);
    }

    /// The `id` attribute values of an HTML text.
    fn extract_html_ids(&self, html: &str) -> (r: Vec<String>)
        ensures
            string_views(r@) == html_values(id_pattern(), html@),
    {
        values_in("(?i)id\\s*=\\s*(?:\"([^\"]*)\"|'([^']*)'|([^\\s>]*))", html)
    }

    /// The `name` attribute values of the `<a>` tags of an HTML text.
    fn extract_html_names(&self, html: &str) -> (r: Vec<String>)
        ensures
            string_views(r@) == html_values(name_pattern(), html@),
    {
        values_in("(?i)<a[^>]*name\\s*=\\s*(?:\"([^\"]*)\"|'([^']*)'|([^\\s>]*)).*?>", html)
    }
}

/// How often `x` occurs among the vectors of `list`.
fn count_in(list: &Vec<Vec<char>>, x: &[char]) -> (r: usize)
    ensures
        r as nat == count_of(char_views(list@), x@),
        r <= list@.len(),
{
    let ghost lv = char_views(list@);
    let mut c: usize = 0;
    let mut k: usize = 0;
    while k < list.len()
        invariant
            k <= list@.len(),
            lv == char_views(list@),
            c <= k,
            c as nat == count_of(lv.take(k as int), x@),
        decreases list@.len() - k,
    {
        assert(lv.take(k + 1).drop_last() == lv.take(k as int));
        if same_chars(list[k].as_slice(), x) {
            c = c + 1;
        }
        k = k + 1;
    }
    assert(lv.take(list@.len() as int) == lv);
    c
}

/// Appends the characters of each string.
fn append_strings(out: &mut Vec<Vec<char>>, v: &Vec<String>)
    ensures
        char_views(final(out)@) == char_views(old(out)@) + string_views(v@),
{
    let ghost start = char_views(out@);
    let mut k: usize = 0;
    while k < v.len()
        invariant
            k <= v@.len(),
            char_views(out@) == start + string_views(v@).take(k as int),
        decreases v@.len() - k,
    {
        let ghost before = char_views(out@);
        out.push(chars_of(v[k].as_str()));
        assert(char_views(out@) =~= before.push(v@[k as int]@));
        assert(string_views(v@).take(k + 1) =~= string_views(v@).take(k as int).push(v@[k as int]@));
        k = k + 1;
    }
    assert(string_views(v@).take(v@.len() as int) =~= string_views(v@));
}

impl MD051 {
    /// The reports for the links of the nodes whose target is a fragment.
    fn check_link_fragments(&self, nodes: &Vec<MdNode>, valid: &Vec<Vec<char>>) -> (r: Vec<Violation>)
        ensures
            r.deep_view() == link_reports(
                self.ignore_case,
                self.ignored_pattern,
                nodes@,
                char_views(valid@),
                0,
            ),
    {
        let ghost vv = char_views(valid@);
        let lowered = lowercase_all(valid);
        let mut out: Vec<Violation> = Vec::new();
        let mut i: usize = 0;
        while i < nodes.len()
            invariant
                i <= nodes@.len(),
                vv == char_views(valid@),
                char_views(lowered@) == vv.map_values(|v: Seq<char>| lowercase(v)),
                out.deep_view() + link_reports(self.ignore_case, self.ignored_pattern, nodes@, vv, i as int)
                    == link_reports(self.ignore_case, self.ignored_pattern, nodes@, vv, 0),
            decreases nodes@.len() - i,
        {
            proof {
                lemma_subtree_end(nodes@, i as int, i + 1);
            }
            let ghost before = out.deep_view();
            let mut next = i + 1;
            match &nodes[i].kind {
                NodeKind::Link { url } => {
                    let u = chars_of(url.as_str());
                    if u.len() > 0 && u[0] == '#' {
                        let f = slice_chars(u.as_slice(), 1, u.len());
                        assert(f@ == url@.drop_first());
                        let line = nodes[i].start_line;
                        let column = nodes[i].start_column;
                        if f.len() == 0 {
                            let v = new_violation(
                                "MD051",
                                String::from_str("Link fragment is empty"),
                                line,
                                column,
                                Severity::Error,
                                None,
                            );
                            out.push(v);
                            assert(out.deep_view() =~= before + seq![v.deep_view()]);
                            next = find_subtree_end(nodes, i);
                        } else if self.is_ignored(f.as_slice()) || self.is_github_line_reference(
                            f.as_slice(),
                        ) {
                            next = find_subtree_end(nodes, i);
                        } else {
                            let known = if self.ignore_case {
                                holds_chars(&lowered, lowercase_chars(f.as_slice()).as_slice())
                            } else {
                                holds_chars(valid, f.as_slice())
                            };
                            if !known {
                                let mut message = String::from_str("Link fragment '");
                                message.append(string_of(f.as_slice()).as_str());
                                message.append("' is not valid");
                                let v = new_violation("MD051", message, line, column, Severity::Error, None);
                                out.push(v);
                                assert(out.deep_view() =~= before + seq![v.deep_view()]);
                            } else {
                                assert(out.deep_view() =~= before + Seq::<ViolationModel>::empty());
                            }
                        }
                    }
                },
                _ => {},
            }
            i = next;
        }
        out
    }

    /// Whether a fragment holds the ignored pattern.
    fn is_ignored(&self, f: &[char]) -> (r: bool)
        ensures
            r == fragment_ignored(self.ignored_pattern, f@),
    {
        match &self.ignored_pattern {
            Some(p) => find_chars(f, 0, chars_of(p.as_str()).as_slice()) < f.len(),
            None => false,
        }
    }

    /// The rule's identifier.
    pub fn id(&self) -> (r: &'static str)
        ensures
            r@ == "MD051"@,
    {
        "MD051"
    }

    /// The rule's name.
    pub fn name(&self) -> (r: &'static str)
        ensures
            r@ == "link-fragments"@,
    {
        "link-fragments"
    }

    /// What the rule checks.
    pub fn description(&self) -> (r: &'static str)
        ensures
            r@ == "Link fragments should be valid"@,
    {
        "Link fragments should be valid"
    }

    /// Checks a document, with the nodes of its tree when given, else line by
    /// line.
    pub fn check_with_ast(&self, document: &Document, ast: Option<&Vec<MdNode>>) -> (r: Vec<Violation>)
        ensures
            r.deep_view() == match ast {
                Some(nodes) => tree_violations(*self, nodes@),
                None => fallback_violations(self, document.lines_of()),
            },
    {
        match ast {
            Some(nodes) => {
                let valid = self.collect_valid_fragments(nodes);
                self.check_link_fragments(nodes, &valid)
            },
            None => self.check_fragments_fallback(document),
        }
    }

    /// Checks a document without its tree, line by line.
    pub fn check(&self, document: &Document) -> (r: Vec<Violation>)
        ensures
            r.deep_view() == fallback_violations(self, document.lines_of()),
    {
        self.check_with_ast(document, None)
    }
}

impl Default for MD051 {
    fn default() -> (r: Self)
        ensures
            !r.ignore_case,
            r.ignored_pattern is None,
    {
        MD051::new()
    }
}

} // verus!
