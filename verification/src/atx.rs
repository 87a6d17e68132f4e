//! Recognizing the closing hash sequence of an ATX heading.
use vstd::prelude::*;
use crate::text::{lemma_run_back, run_back, scan_back, slice_chars, string_of, CharClass};
use vstd::utf8::encode_utf8;

verus! {

/// Number of backslashes that end `s.take(j)`.
pub open spec fn backslashes_before(s: Seq<char>, j: int) -> int {
    j - run_back(s, j, CharClass::Exactly('\\'))
}

/// The trailing hash sequence of `s` as character indices `(start, end)`:
/// the run of `#` that ends where trailing spaces and tabs begin, unless it
/// is empty or its first hash is escaped by an odd number of backslashes.
pub open spec fn trailing_hashes(s: Seq<char>) -> Option<(int, int)> {
    let end = run_back(s, s.len() as int, CharClass::SpaceOrTab);
    let start = run_back(s, end, CharClass::Exactly('#'));
    if start == end {
        None
    } else if backslashes_before(s, start) % 2 == 1 {
        None
    } else {
        Some((start, end))
    }
}

/// The part of `s` before a CommonMark closing sequence: one preceded by a
/// space or a tab.
pub open spec fn before_closing(s: Seq<char>) -> Option<Seq<char>> {
    match trailing_hashes(s) {
        Some((start, _)) => if start > 0 && (s[start - 1] == ' ' || s[start - 1] == '\t') {
            Some(s.take(start))
        } else {
            None
        },
        None => None,
    }
}

/// The character range of an unescaped trailing hash sequence, ignoring
/// spaces and tabs after it.
pub fn trailing_hash_chars(line: &[char]) -> (r: Option<(usize, usize)>)
    ensures
        match r {
            Some((a, b)) => trailing_hashes(line@) == Some((a as int, b as int)),
            None => trailing_hashes(line@) is None,
        },
        r matches Some((a, b)) ==> a < b <= line@.len(),
{
    proof {
        lemma_run_back(line@, line@.len() as int, CharClass::SpaceOrTab);
    }
    let end = scan_back(line, line.len(), CharClass::SpaceOrTab);
    let start = scan_back(line, end, CharClass::Exactly('#'));
    if start == end {
        return None;
    }
    let escapes = start - scan_back(line, start, CharClass::Exactly('\\'));
    if escapes % 2 == 1 {
        return None;
    }
    Some((start, end))
}

/// Start of the run of bytes equal to `c` that ends at index `j`.
pub open spec fn byte_run_back(b: Seq<u8>, j: int, c: u8) -> int
    decreases j,
{
    if j <= 0 || j > b.len() {
        if j > b.len() { b.len() as int } else { 0 }
    } else if b[j - 1] != c {
        j
    } else {
        byte_run_back(b, j - 1, c)
    }
}

/// Start of the run of space and tab bytes that ends at index `j`.
pub open spec fn blank_run_back(b: Seq<u8>, j: int) -> int
    decreases j,
{
    if j <= 0 || j > b.len() {
        if j > b.len() { b.len() as int } else { 0 }
    } else if b[j - 1] != 32u8 && b[j - 1] != 9u8 {
        j
    } else {
        blank_run_back(b, j - 1)
    }
}

/// The trailing hash sequence of a line's UTF-8 bytes `b`, as a byte range
/// `(start, end)`: `end` is where the trailing spaces and tabs begin, `start`
/// where the run of `#` before it begins. `None` when that run is empty or a
/// backslash run of odd length stands right before it. (Spaces, tabs, `#` and
/// `\` are ASCII, so no byte of another character is taken for one of them.)
pub open spec fn trailing_hash_bytes(b: Seq<u8>) -> Option<(int, int)> {
    let end = blank_run_back(b, b.len() as int);
    let start = byte_run_back(b, end, 35u8);
    if start == end {
        None
    } else if (start - byte_run_back(b, start, 92u8)) % 2 == 1 {
        None
    } else {
        Some((start, end))
    }
}

proof fn lemma_byte_run_back(b: Seq<u8>, j: int, c: u8)
    requires
        0 <= j <= b.len(),
    ensures
        0 <= byte_run_back(b, j, c) <= j,
    decreases j,
{
    if j > 0 && b[j - 1] == c {
        lemma_byte_run_back(b, j - 1, c);
    }
}

proof fn lemma_blank_run_back(b: Seq<u8>, j: int)
    requires
        0 <= j <= b.len(),
    ensures
        0 <= blank_run_back(b, j) <= j,
    decreases j,
{
    if j > 0 && (b[j - 1] == 32u8 || b[j - 1] == 9u8) {
        lemma_blank_run_back(b, j - 1);
    }
}

/// Start of the run of bytes equal to `c` that ends at index `j`.
fn scan_back_byte(b: &[u8], j: usize, c: u8) -> (r: usize)
    requires
        j <= b@.len(),
    ensures
        r as int == byte_run_back(b@, j as int, c),
        r <= j,
{
    proof {
        lemma_byte_run_back(b@, j as int, c);
    }
    let mut k = j;
    while k > 0
        invariant
            k <= j <= b@.len(),
            byte_run_back(b@, j as int, c) == byte_run_back(b@, k as int, c),
        decreases k,
    {
        if b[k - 1] != c {
            return k;
        }
        k = k - 1;
    }
    k
}

/// Start of the run of space and tab bytes that ends at index `j`.
fn scan_back_blank(b: &[u8], j: usize) -> (r: usize)
    requires
        j <= b@.len(),
    ensures
        r as int == blank_run_back(b@, j as int),
        r <= j,
{
    proof {
        lemma_blank_run_back(b@, j as int);
    }
    let mut k = j;
    while k > 0
        invariant
            k <= j <= b@.len(),
            blank_run_back(b@, j as int) == blank_run_back(b@, k as int),
        decreases k,
    {
        if b[k - 1] != 32u8 && b[k - 1] != 9u8 {
            return k;
        }
        k = k - 1;
    }
    k
}

/// The byte range of an unescaped trailing hash sequence, ignoring spaces
/// and tabs after it.
pub fn trailing_hash_sequence(line: &str) -> (r: Option<(usize, usize)>)
    ensures
        match r {
            Some((a, b)) => trailing_hash_bytes(encode_utf8(line@)) == Some((a as int, b as int)),
            None => trailing_hash_bytes(encode_utf8(line@)) is None,
        },
{
    let b = line.as_bytes();
    let end = scan_back_blank(b, b.len());
    let start = scan_back_byte(b, end, 35u8);
    if start == end {
        return None;
    }
    let escapes = start - scan_back_byte(b, start, 92u8);
    if escapes % 2 == 1 {
        return None;
    }
    Some((start, end))
}

/// The part of a line before a valid CommonMark closing hash sequence.
pub fn before_closing_hash_sequence(line: &str) -> (r: Option<String>)
    ensures
        match r {
            Some(p) => before_closing(line@) == Some(p@),
            None => before_closing(line@) is None,
        },
{
    let chars = crate::text::chars_of(line);
    let s = chars.as_slice();
    match trailing_hash_chars(s) {
        Some((start, _)) => {
            if start > 0 && (s[start - 1] == ' ' || s[start - 1] == '\t') {
                Some(string_of(slice_chars(s, 0, start).as_slice()))
            } else {
                None
            }
        },
        None => None,
    }
}

} // verus!
