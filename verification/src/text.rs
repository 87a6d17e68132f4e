//! Character-level text model: whitespace, trimming, UTF-8 widths,
//! decimal rendering and conversions between `str` and `char` vectors.
use vstd::prelude::*;

verus! {

/// Unicode `White_Space`, as `char::is_whitespace` defines it.
pub open spec fn is_ws(c: char) -> bool {
    ||| c == ' '
    ||| c == '\t'
    ||| c == '\n'
    ||| c == '\x0B'
    ||| c == '\x0C'
    ||| c == '\r'
    ||| c == '\u{85}'
    ||| c == '\u{A0}'
    ||| c == '\u{1680}'
    ||| (0x2000 <= (c as u32) && (c as u32) <= 0x200A)
    ||| c == '\u{2028}'
    ||| c == '\u{2029}'
    ||| c == '\u{202F}'
    ||| c == '\u{205F}'
    ||| c == '\u{3000}'
}

/// Space or tab.
pub open spec fn is_blank_char(c: char) -> bool {
    c == ' ' || c == '\t'
}

/// Number of bytes the UTF-8 encoding of `c` takes.
pub open spec fn utf8_width(c: char) -> nat {
    if (c as u32) < 0x80 {
        1
    } else if (c as u32) < 0x800 {
        2
    } else if (c as u32) < 0x10000 {
        3
    } else {
        4
    }
}

/// Number of bytes the UTF-8 encoding of `s` takes (what `str::len` gives).
pub open spec fn byte_len(s: Seq<char>) -> nat
    decreases s.len(),
{
    if s.len() == 0 {
        0
    } else {
        byte_len(s.drop_last()) + utf8_width(s.last())
    }
}

/// A text takes at least one byte per character.
pub proof fn lemma_byte_len_ge(s: Seq<char>)
    ensures
        byte_len(s) >= s.len(),
    decreases s.len(),
{
    if s.len() > 0 {
        lemma_byte_len_ge(s.drop_last());
    }
}

/// The bytes of two texts joined are the bytes of each.
pub proof fn lemma_byte_len_concat(x: Seq<char>, y: Seq<char>)
    ensures
        byte_len(x + y) == byte_len(x) + byte_len(y),
    decreases y.len(),
{
    if y.len() > 0 {
        lemma_byte_len_concat(x, y.drop_last());
        assert((x + y).drop_last() =~= x + y.drop_last());
    } else {
        assert(x + y =~= x);
    }
}

/// A text of ASCII characters takes one byte per character.
pub proof fn lemma_byte_len_ascii(s: Seq<char>)
    requires
        forall|k: int| 0 <= k < s.len() ==> (#[trigger] s[k] as u32) < 0x80,
    ensures
        byte_len(s) == s.len(),
    decreases s.len(),
{
    if s.len() > 0 {
        lemma_byte_len_ascii(s.drop_last());
    }
}

/// First index at or after `i` whose character is not whitespace, or `s.len()`.
pub open spec fn skip_ws_from(s: Seq<char>, i: int) -> int
    decreases s.len() - i,
{
    if i >= s.len() {
        s.len() as int
    } else if !is_ws(s[i]) {
        i
    } else {
        skip_ws_from(s, i + 1)
    }
}

/// Length of `s.take(j)` once trailing whitespace is removed.
pub open spec fn trim_end_at(s: Seq<char>, j: int) -> int
    decreases j,
{
    if j <= 0 {
        0
    } else if !is_ws(s[j - 1]) {
        j
    } else {
        trim_end_at(s, j - 1)
    }
}

/// `str::trim_start`.
pub open spec fn trim_start(s: Seq<char>) -> Seq<char> {
    s.subrange(skip_ws_from(s, 0), s.len() as int)
}

/// A line holding nothing but whitespace.
pub open spec fn is_blank(s: Seq<char>) -> bool {
    skip_ws_from(s, 0) == s.len()
}

/// `s` starts with `p`.
pub open spec fn starts_with(s: Seq<char>, p: Seq<char>) -> bool {
    p.len() <= s.len() && s.subrange(0, p.len() as int) == p
}

/// The ASCII digit for `d < 10`.
pub open spec fn digit_char(d: nat) -> char {
    if d == 0 { '0' }
    else if d == 1 { '1' }
    else if d == 2 { '2' }
    else if d == 3 { '3' }
    else if d == 4 { '4' }
    else if d == 5 { '5' }
    else if d == 6 { '6' }
    else if d == 7 { '7' }
    else if d == 8 { '8' }
    else { '9' }
}

/// Decimal rendering of `n`, as `format!("{}", n)` writes it.
pub open spec fn decimal(n: nat) -> Seq<char>
    decreases n,
{
    if n < 10 {
        seq![digit_char(n)]
    } else {
        decimal(n / 10).push(digit_char(n % 10))
    }
}

/// `char::is_whitespace`.
pub fn is_whitespace(c: char) -> (b: bool)
    ensures
        b == is_ws(c),
{
    let u = c as u32;
    c == ' ' || c == '\t' || c == '\n' || c == '\x0B' || c == '\x0C' || c == '\r' || c == '\u{85}'
        || c == '\u{A0}' || c == '\u{1680}' || (0x2000 <= u && u <= 0x200A) || c == '\u{2028}'
        || c == '\u{2029}' || c == '\u{202F}' || c == '\u{205F}' || c == '\u{3000}'
}

/// Index of the first non-whitespace character at or after `i`.
pub fn skip_ws(s: &[char], i: usize) -> (r: usize)
    requires
        i <= s@.len(),
    ensures
        r as int == skip_ws_from(s@, i as int),
        i <= r <= s@.len(),
{
    let mut k = i;
    while k < s.len()
        invariant
            i <= k <= s@.len(),
            skip_ws_from(s@, i as int) == skip_ws_from(s@, k as int),
        decreases s@.len() - k,
    {
        if !is_whitespace(s[k]) {
            return k;
        }
        k = k + 1;
    }
    k
}

/// Length of `s.take(j)` without its trailing whitespace.
pub fn trim_end_index(s: &[char], j: usize) -> (r: usize)
    requires
        j <= s@.len(),
    ensures
        r as int == trim_end_at(s@, j as int),
        r <= j,
{
    let mut k = j;
    while k > 0
        invariant
            k <= j <= s@.len(),
            trim_end_at(s@, j as int) == trim_end_at(s@, k as int),
        decreases k,
    {
        if !is_whitespace(s[k - 1]) {
            return k;
        }
        k = k - 1;
    }
    k
}

/// Whether the line holds only whitespace.
pub fn blank_line(s: &[char]) -> (b: bool)
    ensures
        b == is_blank(s@),
{
    skip_ws(s, 0) == s.len()
}

/// Decimal digits of `n` appended to `out`.
pub fn push_decimal(out: &mut Vec<char>, n: usize)
    ensures
        final(out)@ == old(out)@ + decimal(n as nat),
    decreases n,
{
    if n >= 10 {
        push_decimal(out, n / 10);
    }
    let d = n % 10;
    let c = if d == 0 { '0' } else if d == 1 { '1' } else if d == 2 { '2' } else if d == 3 {
        '3'
    } else if d == 4 { '4' } else if d == 5 { '5' } else if d == 6 { '6' } else if d == 7 {
        '7'
    } else if d == 8 { '8' } else { '9' };
    out.push(c);
    assert(c == digit_char((n % 10) as nat));
}

/// Appends every character of `s` to `out`.
pub fn push_all(out: &mut Vec<char>, s: &[char])
    ensures
        final(out)@ == old(out)@ + s@,
{
    let ghost start = out@;
    for i in 0..s.len()
        invariant
            out@ == start + s@.subrange(0, i as int),
    {
        out.push(s[i]);
        assert(s@.subrange(0, i + 1) == s@.subrange(0, i as int).push(s@[i as int]));
    }
    assert(s@.subrange(0, s@.len() as int) == s@);
}

/// The characters of a string slice, in order.
#[verifier::external_body]
pub(crate) fn chars_of(s: &str) -> (v: Vec<char>)
    ensures
        v@ == s@,
{
    s.chars().collect()
}

/// The string made of the given characters.
#[verifier::external_body]
pub(crate) fn string_of(v: &[char]) -> (s: String)
    ensures
        s@ == v@,
{
    v.iter().collect()
}

/// Number of bytes of the UTF-8 encoding of `c`.
pub fn char_width(c: char) -> (w: usize)
    ensures
        w == utf8_width(c),
{
    let u = c as u32;
    if u < 0x80 {
        1
    } else if u < 0x800 {
        2
    } else if u < 0x10000 {
        3
    } else {
        4
    }
}

/// Number of bytes of the UTF-8 encoding of `s.take(n)`.
pub fn byte_len_prefix(s: &[char], n: usize) -> (r: usize)
    requires
        n <= s@.len(),
        s@.len() <= usize::MAX / 4,
    ensures
        r == byte_len(s@.take(n as int)),
        n <= r <= 4 * n,
{
    let mut acc: usize = 0;
    let mut i: usize = 0;
    while i < n
        invariant
            i <= n <= s@.len(),
            s@.len() <= usize::MAX / 4,
            acc == byte_len(s@.take(i as int)),
            i <= acc <= 4 * i,
        decreases n - i,
    {
        assert(s@.take(i + 1).drop_last() == s@.take(i as int));
        acc = acc + char_width(s[i]);
        i = i + 1;
    }
    acc
}

/// A class of characters that a scan runs over.
#[derive(Clone, Copy, Debug, PartialEq, Eq, Structural)]
pub enum CharClass {
    /// Unicode whitespace.
    Whitespace,
    /// A space or a tab.
    SpaceOrTab,
    /// One given character.
    Exactly(char),
    /// Any character but the given one.
    Except(char),
    /// Anything but whitespace and the characters that end a bare URL:
    /// `)`, `]`, `>`, `"` and `'`.
    UrlBody,
    /// Punctuation that ends a sentence or clause: `.`, `,`, `;`, `:`, `!` and `?`.
    SentencePunct,
    /// Anything but Unicode whitespace.
    NonWhitespace,
    /// `#` or Unicode whitespace.
    HashOrWhitespace,
    /// An ASCII digit.
    AsciiDigit,
}

/// `c` belongs to `cls`.
pub open spec fn in_class(c: char, cls: CharClass) -> bool {
    match cls {
        CharClass::Whitespace => is_ws(c),
        CharClass::SpaceOrTab => is_blank_char(c),
        CharClass::Exactly(x) => c == x,
        CharClass::Except(x) => c != x,
        CharClass::UrlBody => !(is_ws(c) || c == ')' || c == ']' || c == '>' || c == '"' || c
            == '\''),
        CharClass::SentencePunct => c == '.' || c == ',' || c == ';' || c == ':' || c == '!' || c
            == '?',
        CharClass::NonWhitespace => !is_ws(c),
        CharClass::HashOrWhitespace => c == '#' || is_ws(c),
        CharClass::AsciiDigit => '0' <= c && c <= '9',
    }
}

/// First index at or after `i` whose character is not in `cls`, or `s.len()`.
pub open spec fn run_fwd(s: Seq<char>, i: int, cls: CharClass) -> int
    decreases s.len() - i,
{
    if i >= s.len() {
        s.len() as int
    } else if !in_class(s[i], cls) {
        i
    } else {
        run_fwd(s, i + 1, cls)
    }
}

/// Start of the run of characters in `cls` that ends at index `j`.
pub open spec fn run_back(s: Seq<char>, j: int, cls: CharClass) -> int
    decreases j,
{
    if j <= 0 {
        0
    } else if !in_class(s[j - 1], cls) {
        j
    } else {
        run_back(s, j - 1, cls)
    }
}

pub proof fn lemma_run_fwd(s: Seq<char>, i: int, cls: CharClass)
    requires
        0 <= i <= s.len(),
    ensures
        i <= run_fwd(s, i, cls) <= s.len(),
        run_fwd(s, i, cls) < s.len() ==> !in_class(s[run_fwd(s, i, cls)], cls),
        forall|k: int| i <= k < run_fwd(s, i, cls) ==> in_class(#[trigger] s[k], cls),
    decreases s.len() - i,
{
    if i < s.len() && in_class(s[i], cls) {
        lemma_run_fwd(s, i + 1, cls);
    }
}

pub proof fn lemma_run_back(s: Seq<char>, j: int, cls: CharClass)
    requires
        0 <= j <= s.len(),
    ensures
        0 <= run_back(s, j, cls) <= j,
        run_back(s, j, cls) > 0 ==> !in_class(s[run_back(s, j, cls) - 1], cls),
        forall|k: int| run_back(s, j, cls) <= k < j ==> in_class(#[trigger] s[k], cls),
    decreases j,
{
    if j > 0 && in_class(s[j - 1], cls) {
        lemma_run_back(s, j - 1, cls);
    }
}

/// Whether `c` is in `cls`.
pub fn char_in(c: char, cls: CharClass) -> (b: bool)
    ensures
        b == in_class(c, cls),
{
    match cls {
        CharClass::Whitespace => is_whitespace(c),
        CharClass::SpaceOrTab => c == ' ' || c == '\t',
        CharClass::Exactly(x) => c == x,
        CharClass::Except(x) => c != x,
        CharClass::UrlBody => !(is_whitespace(c) || c == ')' || c == ']' || c == '>' || c == '"'
            || c == '\''),
        CharClass::SentencePunct => c == '.' || c == ',' || c == ';' || c == ':' || c == '!' || c
            == '?',
        CharClass::NonWhitespace => !is_whitespace(c),
        CharClass::HashOrWhitespace => c == '#' || is_whitespace(c),
        CharClass::AsciiDigit => '0' <= c && c <= '9',
    }
}

/// End of the run of `cls` characters that starts at `i`.
pub fn scan_fwd(s: &[char], i: usize, cls: CharClass) -> (r: usize)
    requires
        i <= s@.len(),
    ensures
        r as int == run_fwd(s@, i as int, cls),
        i <= r <= s@.len(),
{
    let mut k = i;
    while k < s.len()
        invariant
            i <= k <= s@.len(),
            run_fwd(s@, i as int, cls) == run_fwd(s@, k as int, cls),
        decreases s@.len() - k,
    {
        if !char_in(s[k], cls) {
            return k;
        }
        k = k + 1;
    }
    k
}

/// Start of the run of `cls` characters that ends at `j`.
pub fn scan_back(s: &[char], j: usize, cls: CharClass) -> (r: usize)
    requires
        j <= s@.len(),
    ensures
        r as int == run_back(s@, j as int, cls),
        r <= j,
{
    let mut k = j;
    while k > 0
        invariant
            k <= j <= s@.len(),
            run_back(s@, j as int, cls) == run_back(s@, k as int, cls),
        decreases k,
    {
        if !char_in(s[k - 1], cls) {
            return k;
        }
        k = k - 1;
    }
    k
}

/// The characters `s[from..to]`.
pub fn slice_chars(s: &[char], from: usize, to: usize) -> (r: Vec<char>)
    requires
        from <= to <= s@.len(),
    ensures
        r@ == s@.subrange(from as int, to as int),
{
    let mut r: Vec<char> = Vec::new();
    let mut k = from;
    while k < to
        invariant
            from <= k <= to <= s@.len(),
            r@ == s@.subrange(from as int, k as int),
        decreases to - k,
    {
        r.push(s[k]);
        assert(s@.subrange(from as int, k + 1) == s@.subrange(from as int, k as int).push(s@[k as int]));
        k = k + 1;
    }
    r
}

/// Whether `s` holds `p` at index `i`.
pub open spec fn has_at(s: Seq<char>, i: int, p: Seq<char>) -> bool {
    0 <= i && i + p.len() <= s.len() && s.subrange(i, i + p.len()) == p
}

/// Whether `s` holds `p` at index `i`.
pub fn matches_at(s: &[char], i: usize, p: &[char]) -> (b: bool)
    ensures
        b == has_at(s@, i as int, p@),
{
    if i > s.len() || p.len() > s.len() - i {
        return false;
    }
    let mut k: usize = 0;
    while k < p.len()
        invariant
            i + p@.len() <= s@.len(),
            s@.len() == s.len(),
            k <= p@.len(),
            forall|m: int| 0 <= m < k ==> s@[i + m] == p@[m],
        decreases p@.len() - k,
    {
        if s[i + k] != p[k] {
            assert(s@.subrange(i as int, i + p@.len())[k as int] != p@[k as int]);
            return false;
        }
        k = k + 1;
    }
    assert(s@.subrange(i as int, i + p@.len()) =~= p@);
    true
}

/// Whether `s` holds the literal `p` at index `i`.
pub fn lit_at(s: &[char], i: usize, p: &str) -> (b: bool)
    ensures
        b == has_at(s@, i as int, p@),
{
    let pc = chars_of(p);
    matches_at(s, i, pc.as_slice())
}

/// `str::trim`: `s` without leading and trailing whitespace.
pub open spec fn trimmed(s: Seq<char>) -> Seq<char> {
    let a = skip_ws_from(s, 0);
    let b = trim_end_at(s, s.len() as int);
    if b <= a {
        seq![]
    } else {
        s.subrange(a, b)
    }
}

/// `str::trim`.
pub fn trim_chars(s: &[char]) -> (r: Vec<char>)
    ensures
        r@ == trimmed(s@),
        r@.len() <= s@.len(),
{
    let a = skip_ws(s, 0);
    let b = trim_end_index(s, s.len());
    if b <= a {
        Vec::new()
    } else {
        slice_chars(s, a, b)
    }
}

/// First index at or after `i` where `p` occurs in `s`, or `s.len()`.
pub open spec fn first_occ(s: Seq<char>, i: int, p: Seq<char>) -> int
    decreases s.len() - i,
{
    if i >= s.len() {
        s.len() as int
    } else if has_at(s, i, p) {
        i
    } else {
        first_occ(s, i + 1, p)
    }
}

pub proof fn lemma_first_occ(s: Seq<char>, i: int, p: Seq<char>)
    requires
        0 <= i <= s.len(),
    ensures
        i <= first_occ(s, i, p) <= s.len(),
        first_occ(s, i, p) < s.len() ==> has_at(s, first_occ(s, i, p), p),
        forall|k: int| i <= k < first_occ(s, i, p) ==> !#[trigger] has_at(s, k, p),
    decreases s.len() - i,
{
    if i < s.len() && !has_at(s, i, p) {
        lemma_first_occ(s, i + 1, p);
    }
}

/// First index at or after `i` where `p` occurs, or `s.len()`.
pub fn find_chars(s: &[char], i: usize, p: &[char]) -> (r: usize)
    requires
        i <= s@.len(),
    ensures
        r as int == first_occ(s@, i as int, p@),
{
    let mut k = i;
    while k < s.len()
        invariant
            i <= k <= s@.len(),
            first_occ(s@, i as int, p@) == first_occ(s@, k as int, p@),
        decreases s@.len() - k,
    {
        if matches_at(s, k, p) {
            return k;
        }
        k = k + 1;
    }
    k
}

/// First index at or after `i` where the literal `p` occurs, or `s.len()`.
pub fn find_lit(s: &[char], i: usize, p: &str) -> (r: usize)
    requires
        i <= s@.len(),
    ensures
        r as int == first_occ(s@, i as int, p@),
{
    let pc = chars_of(p);
    find_chars(s, i, pc.as_slice())
}

/// Whether `a` and `b` hold the same characters.
pub fn same_chars(a: &[char], b: &[char]) -> (r: bool)
    ensures
        r == (a@ == b@),
{
    if a.len() != b.len() {
        return false;
    }
    let mut i: usize = 0;
    while i < a.len()
        invariant
            a@.len() == b@.len(),
            i <= a@.len(),
            forall|k: int| 0 <= k < i ==> a@[k] == b@[k],
        decreases a@.len() - i,
    {
        if a[i] != b[i] {
            return false;
        }
        i = i + 1;
    }
    assert(a@ =~= b@);
    true
}

/// Whether `a` holds exactly the characters of the literal `lit`.
pub fn equals_lit(a: &[char], lit: &str) -> (r: bool)
    ensures
        r == (a@ == lit@),
{
    let l = chars_of(lit);
    same_chars(a, l.as_slice())
}

/// `s` contains `p`.
pub open spec fn contains_seq(s: Seq<char>, p: Seq<char>) -> bool {
    first_occ(s, 0, p) < s.len()
}

/// `str::to_lowercase` of the text `s`.
pub uninterp spec fn lowercase(s: Seq<char>) -> Seq<char>;

/// `str::to_lowercase`: the Unicode lowercase mapping of the text, as a new
/// string. The contract only names the result.
#[verifier::external_body]
pub(crate) fn to_lowercase(s: &str) -> (r: String)
    ensures
        r@ == lowercase(s@),
{
    s.to_lowercase()
}

/// `char::is_alphanumeric`: the Unicode `Alphabetic` or `Numeric` property.
pub uninterp spec fn alphanumeric(c: char) -> bool;

/// `char::is_alphanumeric`. The contract only names the result.
#[verifier::external_body]
pub(crate) fn is_alphanumeric(c: char) -> (b: bool)
    ensures
        b == alphanumeric(c),
{
    c.is_alphanumeric()
}

} // verus!
