//! MD034: bare URLs that are not wrapped in angle brackets.
use vstd::prelude::*;
use vstd::string::StringExecFns;
use crate::document::Document;
use crate::lines::{check_multi_lines, multi_line_violations, MultiLineRule};
use crate::nodes::{code_block_flags, in_code_block_node};
use crate::text::{
    byte_len, byte_len_prefix, contains_seq, find_lit, lemma_first_occ, lemma_run_back,
    lemma_run_fwd, lit_at, first_occ, run_back, run_fwd, scan_back, scan_fwd, skip_ws, slice_chars,
    string_of, trim_start, CharClass,
};
use crate::violation::{
    fix_model, new_fix, new_violation, violation_model, Severity, Violation, ViolationModel,
};

verus! {

/// Rule that flags URLs written out bare in running text.
pub struct MD034;

/// `s` holds one of the schemes `http://`, `https://`, `ftp://` or `mailto:` at `i`.
pub open spec fn scheme_at(s: Seq<char>, i: int) -> bool {
    ||| crate::text::has_at(s, i, "http://"@)
    ||| crate::text::has_at(s, i, "https://"@)
    ||| crate::text::has_at(s, i, "ftp://"@)
    ||| crate::text::has_at(s, i, "mailto:"@)
}

/// The URL that starts at `i`: the run of URL characters there, without the
/// sentence punctuation it ends with.
pub open spec fn url_at(s: Seq<char>, i: int) -> Seq<char> {
    let raw = s.subrange(i, run_fwd(s, i, CharClass::UrlBody));
    raw.subrange(0, run_back(raw, raw.len() as int, CharClass::SentencePunct))
}

/// The violation for the bare URL `url` found at index `i` of line `num`.
pub open spec fn md034_violation(num: int, url: Seq<char>, i: int) -> ViolationModel {
    violation_model(
        "MD034"@,
        "Bare URL used: "@ + url + ". Consider wrapping in angle brackets: <"@ + url + ">"@,
        num as usize,
        (i + 1) as usize,
        Severity::Warning,
        Some(
            fix_model(
                "Wrap URL in angle brackets"@,
                Some("<"@ + url + ">"@),
                num as usize,
                (i + 1) as usize,
                num as usize,
                (i + byte_len(url) + 1) as usize,
            ),
        ),
    )
}

/// Index just past a closing `c` found by scanning from `i`: one past the
/// first `c` at or after `i`, or `s.len()` when there is none.
pub open spec fn past_closing(s: Seq<char>, i: int, c: char) -> int {
    let j = run_fwd(s, i, CharClass::Except(c));
    if j < s.len() { j + 1 } else { j }
}

/// Where the scan goes on after the `[` at `i`: past the `]`, and past a
/// `(...)` that follows it directly.
pub open spec fn past_link(s: Seq<char>, i: int) -> int {
    let j = past_closing(s, i + 1, ']');
    if j < s.len() && s[j] == '(' {
        past_closing(s, j + 1, ')')
    } else {
        j
    }
}

/// The violations MD034 reports on line `num` from index `i` on. Code spans,
/// links and text in angle brackets are skipped.
pub open spec fn md034_scan(num: int, s: Seq<char>, i: int) -> Seq<ViolationModel>
    decreases if 0 <= i < s.len() { s.len() - i } else { 0 },
{
    if i < 0 || i >= s.len() {
        seq![]
    } else if s[i] == '`' {
        proof {
            lemma_run_fwd(s, i + 1, CharClass::Except('`'));
        }
        md034_scan(num, s, past_closing(s, i + 1, '`'))
    } else if s[i] == '[' {
        proof {
            lemma_run_fwd(s, i + 1, CharClass::Except(']'));
            let j = past_closing(s, i + 1, ']');
            if j < s.len() {
                lemma_run_fwd(s, j + 1, CharClass::Except(')'));
            }
        }
        md034_scan(num, s, past_link(s, i))
    } else if s[i] == '<' {
        proof {
            lemma_run_fwd(s, i + 1, CharClass::Except('>'));
        }
        md034_scan(num, s, past_closing(s, i + 1, '>'))
    } else if i + 7 < s.len() && scheme_at(s, i) {
        let u = url_at(s, i);
        if u.len() > 0 {
            proof {
                assert(byte_len(u) >= 1);
            }
            seq![md034_violation(num, u, i)] + md034_scan(num, s, i + byte_len(u))
        } else {
            md034_scan(num, s, i + 1)
        }
    } else {
        md034_scan(num, s, i + 1)
    }
}

/// `line` is a reference definition `[label]: url` whose label holds no
/// bracket.
pub open spec fn is_reference_definition(line: Seq<char>) -> bool {
    let t = trim_start(line);
    let c = first_occ(t, 0, "]:"@);
    &&& t.len() > 0
    &&& t[0] == '['
    &&& 1 <= c < t.len()
    &&& !contains_seq(t.subrange(1, c), "["@)
    &&& !contains_seq(t.subrange(1, c), "]"@)
}

/// The violations MD034 reports on line `num`, which `in_code` tells to lie in
/// a code block.
pub open spec fn md034_line(num: int, line: Seq<char>, in_code: bool) -> Seq<ViolationModel> {
    if in_code || is_reference_definition(line) {
        seq![]
    } else {
        md034_scan(num, line, 0)
    }
}

fn reference_definition(line: &[char]) -> (b: bool)
    ensures
        b == is_reference_definition(line@),
{
    let a = skip_ws(line, 0);
    let t = slice_chars(line, a, line.len());
    if t.len() == 0 || t[0] != '[' {
        return false;
    }
    proof {
        lemma_first_occ(t@, 0, "]:"@);
    }
    let c = find_lit(t.as_slice(), 0, "]:");
    if c < 1 || c >= t.len() {
        return false;
    }
    let inner = slice_chars(t.as_slice(), 1, c);
    find_lit(inner.as_slice(), 0, "[") >= inner.len() && find_lit(inner.as_slice(), 0, "]")
        >= inner.len()
}

fn skip_closing(s: &[char], i: usize, c: char) -> (r: usize)
    requires
        i <= s@.len(),
    ensures
        r == past_closing(s@, i as int, c),
        i <= r <= s@.len(),
{
    proof {
        lemma_run_fwd(s@, i as int, CharClass::Except(c));
    }
    let j = scan_fwd(s, i, CharClass::Except(c));
    if j < s.len() { j + 1 } else { j }
}

impl MD034 {
    /// Whether `chars` holds a URL scheme at `pos`.
    fn starts_with_url_scheme(&self, chars: &[char], pos: usize) -> (b: bool)
        ensures
            b == scheme_at(chars@, pos as int),
    {
        lit_at(chars, pos, "http://") || lit_at(chars, pos, "https://") || lit_at(
            chars,
            pos,
            "ftp://",
        ) || lit_at(chars, pos, "mailto:")
    }

    /// The URL that starts at `start`.
    fn extract_url(&self, chars: &[char], start: usize) -> (r: Vec<char>)
        requires
            start <= chars@.len(),
        ensures
            r@ == url_at(chars@, start as int),
            start + r@.len() <= chars@.len(),
    {
        proof {
            lemma_run_fwd(chars@, start as int, CharClass::UrlBody);
        }
        let e = scan_fwd(chars, start, CharClass::UrlBody);
        let raw = slice_chars(chars, start, e);
        proof {
            lemma_run_back(raw@, raw@.len() as int, CharClass::SentencePunct);
        }
        let b = scan_back(raw.as_slice(), raw.len(), CharClass::SentencePunct);
        slice_chars(raw.as_slice(), 0, b)
    }

    fn report(&self, num: usize, url: &[char], i: usize, n: usize) -> (v: Violation)
        requires
            i + url@.len() <= n,
            n <= usize::MAX / 4,
        ensures
            v.deep_view() == md034_violation(num as int, url@, i as int),
    {
        let blen = byte_len_prefix(url, url.len());
        assert(url@.take(url@.len() as int) == url@);
        let u = string_of(url);
        let mut message = String::from_str("Bare URL used: ");
        message.append(u.as_str());
        message.append(". Consider wrapping in angle brackets: <");
        message.append(u.as_str());
        message.append(">");
        let mut replacement = String::from_str("<");
        replacement.append(u.as_str());
        replacement.append(">");
        let fix = new_fix(
            String::from_str("Wrap URL in angle brackets"),
            Some(replacement),
            num,
            i + 1,
            num,
            i + blen + 1,
        );
        new_violation("MD034", message, num, i + 1, Severity::Warning, Some(fix))
    }

    /// The rule's identifier.
    pub fn id(&self) -> (r: &'static str)
        ensures
            r@ == "MD034"@,
    {
        "MD034"
    }

    /// The rule's name.
    pub fn name(&self) -> (r: &'static str)
        ensures
            r@ == "no-bare-urls"@,
    {
        "no-bare-urls"
    }

    /// What the rule checks.
    pub fn description(&self) -> (r: &'static str)
        ensures
            r@ == "Bare URL used"@,
    {
        "Bare URL used"
    }

    /// The rule offers fixes.
    pub fn can_fix(&self) -> (b: bool)
        ensures
            b,
    {
        true
    }

    /// Checks a document: every line outside code blocks is scanned.
    pub fn check(&self, document: &Document) -> (r: Vec<Violation>)
        ensures
            r.deep_view() == multi_line_violations(
                self,
                document.lines_of(),
                Seq::new(
                    document.lines_of().len(),
                    |i: int| in_code_block_node(document.nodes_of(), i + 1),
                ),
                0,
            ),
    {
        let flags = code_block_flags(document);
        assert(flags@ =~= Seq::new(
            document.lines_of().len(),
            |i: int| in_code_block_node(document.nodes_of(), i + 1),
        ));
        check_multi_lines(self, document, &flags)
    }
}

impl MultiLineRule for MD034 {
    open spec fn line_spec(&self, num: int, line: Seq<char>, flag: bool) -> Seq<ViolationModel> {
        md034_line(num, line, flag)
    }

    fn line_check(&self, num: usize, line: &[char], flag: bool) -> (r: Vec<Violation>) {
        let mut out: Vec<Violation> = Vec::new();
        if flag || reference_definition(line) {
            return out;
        }
        let ghost s = line@;
        let n = line.len();
        let mut i: usize = 0;
        while i < n
            invariant
                n == s.len(),
                n <= usize::MAX / 4,
                s == line@,
                i <= n,
                out.deep_view() + md034_scan(num as int, s, i as int) == md034_scan(num as int, s, 0),
            decreases n - i,
        {
            let c = line[i];
            if c == '`' {
                i = skip_closing(line, i + 1, '`');
            } else if c == '[' {
                let j = skip_closing(line, i + 1, ']');
                if j < n && line[j] == '(' {
                    i = skip_closing(line, j + 1, ')');
                } else {
                    i = j;
                }
            } else if c == '<' {
                i = skip_closing(line, i + 1, '>');
            } else if i + 7 < n && self.starts_with_url_scheme(line, i) {
                let url = self.extract_url(line, i);
                if url.len() > 0 {
                    let v = self.report(num, url.as_slice(), i, n);
                    let blen = byte_len_prefix(url.as_slice(), url.len());
                    assert(url@.take(url@.len() as int) == url@);
                    let ghost before = out.deep_view();
                    out.push(v);
                    assert(out.deep_view() == before.push(v.deep_view()));
                    let next = i + blen;
                    assert(md034_scan(num as int, s, i as int) == seq![v.deep_view()] + md034_scan(
                        num as int,
                        s,
                        next as int,
                    ));
                    assert(before + md034_scan(num as int, s, i as int) == out.deep_view()
                        + md034_scan(num as int, s, next as int));
                    if next < n {
                        i = next;
                    } else {
                        assert(md034_scan(num as int, s, next as int) == Seq::<ViolationModel>::empty());
                        assert(md034_scan(num as int, s, n as int) == Seq::<ViolationModel>::empty());
                        i = n;
                    }
                } else {
                    i = i + 1;
                }
            } else {
                i = i + 1;
            }
        }
        out
    }
}

} // verus!
