//! MD033: inline HTML.
use vstd::prelude::*;
use vstd::string::StringExecFns;
use crate::document::Document;
use crate::fences::{fence_flags, fence_state, starts_fence};
use crate::lines::{check_multi_lines, multi_line_violations, MultiLineRule};
use crate::text::{
    byte_len, byte_len_prefix, chars_of, equals_lit, first_occ, find_lit, has_at, lemma_first_occ,
    in_class, lemma_run_fwd, lit_at, lowercase, run_fwd, scan_fwd, skip_ws, skip_ws_from, slice_chars,
    string_of, to_lowercase, CharClass,
};
use crate::violation::{new_violation, violation_model, Severity, Violation, ViolationModel};

verus! {

/// Rule that flags HTML elements written in Markdown text.
pub struct MD033;

/// `t` is one of the HTML element names the rule knows.
pub open spec fn known_html_tag(t: Seq<char>) -> bool {
    ||| t == "a"@
    ||| t == "abbr"@
    ||| t == "b"@
    ||| t == "br"@
    ||| t == "cite"@
    ||| t == "code"@
    ||| t == "em"@
    ||| t == "i"@
    ||| t == "img"@
    ||| t == "kbd"@
    ||| t == "mark"@
    ||| t == "q"@
    ||| t == "s"@
    ||| t == "samp"@
    ||| t == "small"@
    ||| t == "span"@
    ||| t == "strong"@
    ||| t == "sub"@
    ||| t == "sup"@
    ||| t == "time"@
    ||| t == "u"@
    ||| t == "var"@
    ||| t == "wbr"@
    ||| t == "h1"@
    ||| t == "h2"@
    ||| t == "h3"@
    ||| t == "h4"@
    ||| t == "h5"@
    ||| t == "h6"@
    ||| t == "p"@
    ||| t == "div"@
    ||| t == "section"@
    ||| t == "article"@
    ||| t == "header"@
    ||| t == "footer"@
    ||| t == "nav"@
    ||| t == "aside"@
    ||| t == "main"@
    ||| t == "figure"@
    ||| t == "figcaption"@
    ||| t == "blockquote"@
    ||| t == "pre"@
    ||| t == "ul"@
    ||| t == "ol"@
    ||| t == "li"@
    ||| t == "dl"@
    ||| t == "dt"@
    ||| t == "dd"@
    ||| t == "table"@
    ||| t == "thead"@
    ||| t == "tbody"@
    ||| t == "tfoot"@
    ||| t == "tr"@
    ||| t == "th"@
    ||| t == "td"@
    ||| t == "form"@
    ||| t == "input"@
    ||| t == "button"@
    ||| t == "select"@
    ||| t == "option"@
    ||| t == "textarea"@
    ||| t == "label"@
    ||| t == "fieldset"@
    ||| t == "legend"@
}

/// The HTML element names MD033 reports, in the order of its documentation.
pub open spec fn html_element_names() -> Seq<Seq<char>> {
    seq![
        "a"@, "abbr"@, "b"@, "br"@, "cite"@, "code"@, "em"@, "i"@, "img"@, "kbd"@, "mark"@, "q"@,
        "s"@, "samp"@, "small"@, "span"@, "strong"@, "sub"@, "sup"@, "time"@, "u"@, "var"@, "wbr"@,
        "h1"@, "h2"@, "h3"@, "h4"@, "h5"@, "h6"@, "p"@, "div"@, "section"@, "article"@, "header"@,
        "footer"@, "nav"@, "aside"@, "main"@, "figure"@, "figcaption"@, "blockquote"@, "pre"@,
        "ul"@, "ol"@, "li"@, "dl"@, "dt"@, "dd"@, "table"@, "thead"@, "tbody"@, "tfoot"@, "tr"@,
        "th"@, "td"@, "form"@, "input"@, "button"@, "select"@, "option"@, "textarea"@, "label"@,
        "fieldset"@, "legend"@,
    ]
}

/// Law: every element name in the rule's list is one it knows.
pub proof fn md033_listed_names_known(t: Seq<char>)
    requires
        html_element_names().contains(t),
    ensures
        known_html_tag(t),
{
    let k = choose|k: int| 0 <= k < html_element_names().len() && html_element_names()[k] == t;
    assert(k != 0 || known_html_tag(t));
    assert(k != 1 || known_html_tag(t));
    assert(k != 2 || known_html_tag(t));
    assert(k != 3 || known_html_tag(t));
    assert(k != 4 || known_html_tag(t));
    assert(k != 5 || known_html_tag(t));
    assert(k != 6 || known_html_tag(t));
    assert(k != 7 || known_html_tag(t));
    assert(k != 8 || known_html_tag(t));
    assert(k != 9 || known_html_tag(t));
    assert(k != 10 || known_html_tag(t));
    assert(k != 11 || known_html_tag(t));
    assert(k != 12 || known_html_tag(t));
    assert(k != 13 || known_html_tag(t));
    assert(k != 14 || known_html_tag(t));
    assert(k != 15 || known_html_tag(t));
    assert(k != 16 || known_html_tag(t));
    assert(k != 17 || known_html_tag(t));
    assert(k != 18 || known_html_tag(t));
    assert(k != 19 || known_html_tag(t));
    assert(k != 20 || known_html_tag(t));
    assert(k != 21 || known_html_tag(t));
    assert(k != 22 || known_html_tag(t));
    assert(k != 23 || known_html_tag(t));
    assert(k != 24 || known_html_tag(t));
    assert(k != 25 || known_html_tag(t));
    assert(k != 26 || known_html_tag(t));
    assert(k != 27 || known_html_tag(t));
    assert(k != 28 || known_html_tag(t));
    assert(k != 29 || known_html_tag(t));
    assert(k != 30 || known_html_tag(t));
    assert(k != 31 || known_html_tag(t));
    assert(k != 32 || known_html_tag(t));
    assert(k != 33 || known_html_tag(t));
    assert(k != 34 || known_html_tag(t));
    assert(k != 35 || known_html_tag(t));
    assert(k != 36 || known_html_tag(t));
    assert(k != 37 || known_html_tag(t));
    assert(k != 38 || known_html_tag(t));
    assert(k != 39 || known_html_tag(t));
    assert(k != 40 || known_html_tag(t));
    assert(k != 41 || known_html_tag(t));
    assert(k != 42 || known_html_tag(t));
    assert(k != 43 || known_html_tag(t));
    assert(k != 44 || known_html_tag(t));
    assert(k != 45 || known_html_tag(t));
    assert(k != 46 || known_html_tag(t));
    assert(k != 47 || known_html_tag(t));
    assert(k != 48 || known_html_tag(t));
    assert(k != 49 || known_html_tag(t));
    assert(k != 50 || known_html_tag(t));
    assert(k != 51 || known_html_tag(t));
    assert(k != 52 || known_html_tag(t));
    assert(k != 53 || known_html_tag(t));
    assert(k != 54 || known_html_tag(t));
    assert(k != 55 || known_html_tag(t));
    assert(k != 56 || known_html_tag(t));
    assert(k != 57 || known_html_tag(t));
    assert(k != 58 || known_html_tag(t));
    assert(k != 59 || known_html_tag(t));
    assert(k != 60 || known_html_tag(t));
    assert(k != 61 || known_html_tag(t));
    assert(k != 62 || known_html_tag(t));
    assert(k != 63 || known_html_tag(t));
}

/// Law: an opening tag `<name ...>` outside code spans, whose element name
/// lowercased is in the rule's list, is reported at its position, and the
/// scan goes on after it.
pub proof fn md033_listed_tag_reported(num: int, s: Seq<char>, k: int, t: int)
    requires
        0 <= k,
        k + 1 < t < s.len(),
        s[k] == '<',
        s[t] == '>',
        forall|j: int| k <= j < t ==> #[trigger] s[j] != '>',
        !has_at(s, k, "<!--"@),
        !has_at(s, k, "</"@),
        html_element_names().contains(lowercase(tag_name(s.subrange(k + 1, t)))),
    ensures
        md033_scan(num, s, k, false) == seq![md033_violation(num, s.subrange(k, t + 1), byte_len(s.take(k)) as int)]
            + md033_scan(num, s, k + 1 + byte_len(s.subrange(k, t)), false),
{
    md033_listed_names_known(lowercase(tag_name(s.subrange(k + 1, t))));
    lemma_run_fwd(s, k, CharClass::Except('>'));
    let e = run_fwd(s, k, CharClass::Except('>'));
    if e < t {
        assert(s[e] != '>');
    }
    if e > t {
        assert(in_class(s[t], CharClass::Except('>')));
    }
    assert(e == t);
    let w = s.subrange(k, t + 1);
    assert(w.subrange(1, w.len() - 1) =~= s.subrange(k + 1, t));
    assert(html_tag(w));
}

/// The element name of a tag's inner text: after an optional `/`, the first
/// whitespace-separated word (empty when there is none).
pub open spec fn tag_name(content: Seq<char>) -> Seq<char> {
    let c = if content.len() > 0 && content[0] == '/' {
        content.subrange(1, content.len() as int)
    } else {
        content
    };
    let a = skip_ws_from(c, 0);
    c.subrange(a, run_fwd(c, a, CharClass::NonWhitespace))
}

/// `s` is a tag `<...>` whose element name, lowercased, is a known HTML
/// element.
pub open spec fn html_tag(s: Seq<char>) -> bool {
    &&& s.len() >= 2
    &&& s[0] == '<'
    &&& s[s.len() - 1] == '>'
    &&& s.len() > 2
    &&& known_html_tag(lowercase(tag_name(s.subrange(1, s.len() - 1))))
}

/// The violation for the tag `tag` that starts at byte offset `b` of line `num`.
pub open spec fn md033_violation(num: int, tag: Seq<char>, b: int) -> ViolationModel {
    violation_model(
        "MD033"@,
        "Inline HTML element found: "@ + tag,
        num as usize,
        (b + 1) as usize,
        Severity::Warning,
        None,
    )
}

/// The violations MD033 reports on line `num` from character `k` on, where
/// `in_code` tells whether an odd number of backticks came before. Comments
/// and closing tags are passed over; after a `<`, the scan moves on by as
/// many characters as the tag takes bytes.
pub open spec fn md033_scan(num: int, s: Seq<char>, k: int, in_code: bool) -> Seq<ViolationModel>
    decreases if 0 <= k < s.len() { s.len() - k } else { 0 },
{
    if k < 0 || k >= s.len() {
        seq![]
    } else if s[k] == '`' {
        md033_scan(num, s, k + 1, !in_code)
    } else if s[k] == '<' && !in_code {
        if has_at(s, k, "<!--"@) {
            let e = first_occ(s, k, "-->"@);
            if e < s.len() {
                md033_scan(num, s, k + 1 + byte_len(s.subrange(k, e)) + 2, in_code)
            } else {
                md033_scan(num, s, k + 1, in_code)
            }
        } else {
            let t = run_fwd(s, k, CharClass::Except('>'));
            if t >= s.len() {
                md033_scan(num, s, k + 1, in_code)
            } else if has_at(s, k, "</"@) {
                md033_scan(num, s, k + 1 + byte_len(s.subrange(k, t)), in_code)
            } else if html_tag(s.subrange(k, t + 1)) {
                seq![md033_violation(num, s.subrange(k, t + 1), byte_len(s.take(k)) as int)]
                    + md033_scan(num, s, k + 1 + byte_len(s.subrange(k, t)), in_code)
            } else {
                md033_scan(num, s, k + 1, in_code)
            }
        }
    } else {
        md033_scan(num, s, k + 1, in_code)
    }
}

/// The violations MD033 reports on line `num`; `in_fence` tells whether a
/// fence is open once the line has been read.
pub open spec fn md033_line(num: int, line: Seq<char>, in_fence: bool) -> Seq<ViolationModel> {
    if starts_fence(line) || in_fence {
        seq![]
    } else {
        md033_scan(num, line, 0, false)
    }
}

/// Whether `t` is one of the HTML element names the rule knows.
pub fn is_known_html_tag(t: &[char]) -> (b: bool)
    ensures
        b == known_html_tag(t@),
{
    equals_lit(t, "a") || equals_lit(t, "abbr") || equals_lit(t, "b") || equals_lit(t, "br") ||
        equals_lit(t, "cite") || equals_lit(t, "code") || equals_lit(t, "em") ||
        equals_lit(t, "i") || equals_lit(t, "img") || equals_lit(t, "kbd") ||
        equals_lit(t, "mark") || equals_lit(t, "q") || equals_lit(t, "s") ||
        equals_lit(t, "samp") || equals_lit(t, "small") || equals_lit(t, "span") ||
        equals_lit(t, "strong") || equals_lit(t, "sub") || equals_lit(t, "sup") ||
        equals_lit(t, "time") || equals_lit(t, "u") || equals_lit(t, "var") ||
        equals_lit(t, "wbr") || equals_lit(t, "h1") || equals_lit(t, "h2") ||
        equals_lit(t, "h3") || equals_lit(t, "h4") || equals_lit(t, "h5") ||
        equals_lit(t, "h6") || equals_lit(t, "p") || equals_lit(t, "div") ||
        equals_lit(t, "section") || equals_lit(t, "article") || equals_lit(t, "header") ||
        equals_lit(t, "footer") || equals_lit(t, "nav") || equals_lit(t, "aside") ||
        equals_lit(t, "main") || equals_lit(t, "figure") || equals_lit(t, "figcaption") ||
        equals_lit(t, "blockquote") || equals_lit(t, "pre") || equals_lit(t, "ul") ||
        equals_lit(t, "ol") || equals_lit(t, "li") || equals_lit(t, "dl") ||
        equals_lit(t, "dt") || equals_lit(t, "dd") || equals_lit(t, "table") ||
        equals_lit(t, "thead") || equals_lit(t, "tbody") || equals_lit(t, "tfoot") ||
        equals_lit(t, "tr") || equals_lit(t, "th") || equals_lit(t, "td") ||
        equals_lit(t, "form") || equals_lit(t, "input") || equals_lit(t, "button") ||
        equals_lit(t, "select") || equals_lit(t, "option") || equals_lit(t, "textarea") ||
        equals_lit(t, "label") || equals_lit(t, "fieldset") || equals_lit(t, "legend")
}

/// Number of bytes of `s[from..to]`.
fn byte_span(s: &[char], from: usize, to: usize) -> (r: usize)
    requires
        from <= to <= s@.len(),
        s@.len() <= usize::MAX / 4,
    ensures
        r == byte_len(s@.subrange(from as int, to as int)),
        r <= 4 * (to - from),
{
    let part = slice_chars(s, from, to);
    let r = byte_len_prefix(part.as_slice(), part.len());
    assert(part@.take(part@.len() as int) == part@);
    r
}

impl MD033 {
    /// Whether `s` is a tag `<...>` naming a known HTML element.
    fn is_html_tag(&self, s: &[char]) -> (b: bool)
        ensures
            b == html_tag(s@),
    {
        if s.len() < 2 || s[0] != '<' || s[s.len() - 1] != '>' {
            return false;
        }
        let content = slice_chars(s, 1, s.len() - 1);
        if content.len() == 0 {
            return false;
        }
        let c = if content[0] == '/' {
            slice_chars(content.as_slice(), 1, content.len())
        } else {
            content
        };
        let a = skip_ws(c.as_slice(), 0);
        let e = scan_fwd(c.as_slice(), a, CharClass::NonWhitespace);
        let name = slice_chars(c.as_slice(), a, e);
        let lower = to_lowercase(string_of(name.as_slice()).as_str());
        let lc = chars_of(lower.as_str());
        is_known_html_tag(lc.as_slice())
    }

    fn report(&self, num: usize, s: &[char], k: usize, t: usize) -> (v: Violation)
        requires
            k <= t < s@.len(),
            s@.len() <= usize::MAX / 4,
        ensures
            v.deep_view() == md033_violation(num as int, s@.subrange(k as int, t + 1), byte_len(
                s@.take(k as int),
            ) as int),
    {
        let b = byte_len_prefix(s, k);
        let tag = slice_chars(s, k, t + 1);
        let mut message = String::from_str("Inline HTML element found: ");
        message.append(string_of(tag.as_slice()).as_str());
        new_violation("MD033", message, num, b + 1, Severity::Warning, None)
    }

    /// The rule's identifier.
    pub fn id(&self) -> (r: &'static str)
        ensures
            r@ == "MD033"@,
    {
        "MD033"
    }

    /// The rule's name.
    pub fn name(&self) -> (r: &'static str)
        ensures
            r@ == "no-inline-html"@,
    {
        "no-inline-html"
    }

    /// What the rule checks.
    pub fn description(&self) -> (r: &'static str)
        ensures
            r@ == "Inline HTML should be avoided"@,
    {
        "Inline HTML should be avoided"
    }

    /// Checks a document: fence lines and the lines between fences are passed
    /// over.
    pub fn check(&self, document: &Document) -> (r: Vec<Violation>)
        ensures
            r.deep_view() == multi_line_violations(
                self,
                document.lines_of(),
                Seq::new(
                    document.lines_of().len(),
                    |i: int| fence_state(document.lines_of(), i + 1),
                ),
                0,
            ),
    {
        let flags = fence_flags(document);
        assert(flags@ =~= Seq::new(
            document.lines_of().len(),
            |i: int| fence_state(document.lines_of(), i + 1),
        ));
        check_multi_lines(self, document, &flags)
    }
}

impl MultiLineRule for MD033 {
    open spec fn line_spec(&self, num: int, line: Seq<char>, flag: bool) -> Seq<ViolationModel> {
        md033_line(num, line, flag)
    }

    fn line_check(&self, num: usize, line: &[char], flag: bool) -> (r: Vec<Violation>) {
        let mut out: Vec<Violation> = Vec::new();
        if crate::fences::line_starts_fence(line) || flag {
            return out;
        }
        let ghost s = line@;
        let n = line.len();
        let mut k: usize = 0;
        let mut in_code = false;
        while k < n
            invariant
                n == s.len(),
                n <= usize::MAX / 4,
                s == line@,
                k <= n,
                out.deep_view() + md033_scan(num as int, s, k as int, in_code) == md033_scan(
                    num as int,
                    s,
                    0,
                    false,
                ),
            decreases n - k,
        {
            let c = line[k];
            if c == '`' {
                in_code = !in_code;
                k = k + 1;
            } else if c == '<' && !in_code {
                if lit_at(line, k, "<!--") {
                    proof {
                        lemma_first_occ(s, k as int, "-->"@);
                    }
                    let e = find_lit(line, k, "-->");
                    if e < n {
                        let bl = byte_span(line, k, e);
                        let ghost next = k + 1 + bl + 2;
                        if bl + 3 >= n - k {
                            assert(md033_scan(num as int, s, next, in_code) == Seq::<ViolationModel>::empty());
                            k = n;
                        } else {
                            k = k + bl + 3;
                        }
                    } else {
                        k = k + 1;
                    }
                } else {
                    proof {
                        lemma_run_fwd(s, k as int, CharClass::Except('>'));
                    }
                    let t = scan_fwd(line, k, CharClass::Except('>'));
                    if t >= n {
                        k = k + 1;
                    } else if lit_at(line, k, "</") {
                        let bl = byte_span(line, k, t);
                        let ghost next = k + 1 + bl;
                        if bl + 1 >= n - k {
                            assert(md033_scan(num as int, s, next, in_code) == Seq::<ViolationModel>::empty());
                            k = n;
                        } else {
                            k = k + bl + 1;
                        }
                    } else {
                        let tag = slice_chars(line, k, t + 1);
                        if self.is_html_tag(tag.as_slice()) {
                            let v = self.report(num, line, k, t);
                            let bl = byte_span(line, k, t);
                            let ghost next = k + 1 + bl;
                            let ghost before = out.deep_view();
                            out.push(v);
                            assert(out.deep_view() == before.push(v.deep_view()));
                            assert(md033_scan(num as int, s, k as int, in_code) == seq![v.deep_view()]
                                + md033_scan(num as int, s, next, in_code));
                            assert(before + md033_scan(num as int, s, k as int, in_code)
                                == out.deep_view() + md033_scan(num as int, s, next, in_code));
                            if bl + 1 >= n - k {
                                assert(md033_scan(num as int, s, next, in_code) == Seq::<ViolationModel>::empty());
                                k = n;
                            } else {
                                k = k + bl + 1;
                            }
                        } else {
                            k = k + 1;
                        }
                    }
                }
            } else {
                k = k + 1;
            }
        }
        out
    }
}

} // verus!
