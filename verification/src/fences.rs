//! Tracking fenced code blocks line by line, by their opening and closing
//! fences alone.
use vstd::prelude::*;
use crate::document::Document;
use crate::text::{has_at, lit_at, skip_ws, skip_ws_from};

verus! {

/// The line, once its leading whitespace is removed, starts with a code fence.
pub open spec fn starts_fence(line: Seq<char>) -> bool {
    let st = skip_ws_from(line, 0);
    has_at(line, st, "```"@) || has_at(line, st, "~~~"@)
}

/// Whether a fence is open after lines `0..i` when each fence line toggles.
pub open spec fn fence_state(lines: Seq<Seq<char>>, i: int) -> bool
    decreases i,
{
    if i <= 0 {
        false
    } else {
        fence_state(lines, i - 1) != starts_fence(lines[i - 1])
    }
}

/// Whether a line starts with a code fence after its leading whitespace.
pub fn line_starts_fence(line: &[char]) -> (b: bool)
    ensures
        b == starts_fence(line@),
{
    let st = skip_ws(line, 0);
    lit_at(line, st, "```") || lit_at(line, st, "~~~")
}

/// For each line, whether a fence is open once that line has been read.
pub fn fence_flags(document: &Document) -> (f: Vec<bool>)
    ensures
        f@.len() == document.lines_of().len(),
        forall|i: int| 0 <= i < f@.len() ==> #[trigger] f@[i] == fence_state(document.lines_of(), i + 1),
{
    let ghost lines = document.lines_of();
    let n = document.line_count();
    let mut f: Vec<bool> = Vec::new();
    let mut open = false;
    for i in 0..n
        invariant
            n == lines.len(),
            lines == document.lines_of(),
            f@.len() == i,
            open == fence_state(lines, i as int),
            forall|k: int| 0 <= k < f@.len() ==> #[trigger] f@[k] == fence_state(lines, k + 1),
    {
        if line_starts_fence(document.line(i)) {
            open = !open;
        }
        f.push(open);
    }
    f
}

/// The line, once its leading whitespace is removed, starts with three backticks.
pub open spec fn starts_backtick_fence(line: Seq<char>) -> bool {
    has_at(line, skip_ws_from(line, 0), "```"@)
}

/// Whether a backtick fence is open after lines `0..i` when each backtick
/// fence line toggles.
pub open spec fn backtick_fence_state(lines: Seq<Seq<char>>, i: int) -> bool
    decreases i,
{
    if i <= 0 {
        false
    } else {
        backtick_fence_state(lines, i - 1) != starts_backtick_fence(lines[i - 1])
    }
}

/// For each line, whether it is a backtick fence line or lies inside a
/// backtick fence.
pub fn backtick_fence_flags(document: &Document) -> (f: Vec<bool>)
    ensures
        f@.len() == document.lines_of().len(),
        forall|i: int|
            0 <= i < f@.len() ==> #[trigger] f@[i] == (starts_backtick_fence(document.lines_of()[i])
                || backtick_fence_state(document.lines_of(), i)),
{
    let ghost lines = document.lines_of();
    let n = document.line_count();
    let mut f: Vec<bool> = Vec::new();
    let mut open = false;
    for i in 0..n
        invariant
            n == lines.len(),
            lines == document.lines_of(),
            f@.len() == i,
            open == backtick_fence_state(lines, i as int),
            forall|k: int|
                0 <= k < f@.len() ==> #[trigger] f@[k] == (starts_backtick_fence(lines[k])
                    || backtick_fence_state(lines, k)),
    {
        let line = document.line(i);
        let st = skip_ws(line, 0);
        let fence = lit_at(line, st, "```");
        f.push(fence || open);
        if fence {
            open = !open;
        }
    }
    f
}

} // verus!
