//! MD007: indentation of unordered list items.
use vstd::prelude::*;
use crate::config::{
    as_bool, as_int, config_entry, entry_bool, entry_either, entry_int, toml_get, toml_get_either,
};
use vstd::string::StringExecFns;
use crate::document::Document;
use crate::nodes::{code_block_flags, in_code_block_node};
use crate::text::{
    blank_line, byte_len, char_width, decimal, is_blank, is_whitespace, is_ws, lemma_run_fwd,
    push_all, run_fwd, scan_fwd, slice_chars, string_of, CharClass,
};
use crate::violation::{
    append_decimal, fix_model, new_fix, new_violation, violation_model, Severity, Violation,
    ViolationModel,
};

verus! {

/// Rule that flags unordered list items indented otherwise than their depth asks.
pub struct MD007 {
    /// Spaces per nesting level.
    pub indent: usize,
    /// Spaces before a top-level item when `start_indented` is set.
    pub start_indent: usize,
    /// Whether top-level items are indented.
    pub start_indented: bool,
}

/// Width of the first `k` characters of `s`, counting a tab as four.
pub open spec fn indent_width(s: Seq<char>, k: int) -> int
    decreases k,
{
    if k <= 0 {
        0
    } else {
        indent_width(s, k - 1) + if s[k - 1] == '\t' { 4int } else { 1int }
    }
}

/// The list item that `line` starts, as its indentation width, its marker
/// and whether it is ordered: spaces and tabs, then `*`, `+` or `-` followed
/// by whitespace, or digits followed by `.` or `)` and whitespace.
pub open spec fn list_item(line: Seq<char>) -> Option<(int, char, bool)> {
    let k = run_fwd(line, 0, CharClass::SpaceOrTab);
    let w = indent_width(line, k);
    if k >= line.len() {
        None
    } else if line[k] == '*' || line[k] == '+' || line[k] == '-' {
        if k + 1 < line.len() && is_ws(line[k + 1]) {
            Some((w, line[k], false))
        } else {
            None
        }
    } else if '0' <= line[k] && line[k] <= '9' {
        let d = run_fwd(line, k + 1, CharClass::AsciiDigit);
        if d < line.len() && (line[d] == '.' || line[d] == ')') && d + 1 < line.len() && is_ws(
            line[d + 1],
        ) {
            Some((w, line[k], true))
        } else {
            None
        }
    } else {
        None
    }
}

/// The nesting depth of an item indented by `indent`: the first stack entry
/// indented at least as much, or the stack's length.
pub open spec fn stack_depth(stack: Seq<(int, char, bool)>, indent: int, k: int) -> int
    decreases stack.len() - k,
{
    if k < 0 || k >= stack.len() {
        stack.len() as int
    } else if indent <= stack[k].0 {
        k
    } else {
        stack_depth(stack, indent, k + 1)
    }
}

/// Some entry of the stack is an ordered list item.
pub open spec fn has_ordered(stack: Seq<(int, char, bool)>) -> bool {
    exists|k: int| 0 <= k < stack.len() && #[trigger] stack[k].2
}

/// The entries of the stack indented less than `indent`.
pub open spec fn keep_below(stack: Seq<(int, char, bool)>, indent: int) -> Seq<(int, char, bool)>
    decreases stack.len(),
{
    if stack.len() == 0 {
        seq![]
    } else {
        keep_below(stack.drop_last(), indent) + if stack.last().0 < indent {
            seq![stack.last()]
        } else {
            seq![]
        }
    }
}

/// The smallest `c >= k` such that `s.take(c)` takes at least `off` bytes, or
/// `s.len() + 1` when all of `s` takes fewer.
pub open spec fn byte_index(s: Seq<char>, off: int, k: int) -> int
    decreases s.len() + 1 - k,
{
    if k < 0 || k > s.len() {
        s.len() as int + 1
    } else if byte_len(s.take(k)) >= off {
        k
    } else {
        byte_index(s, off, k + 1)
    }
}

/// Byte offset `off` of `s` falls between two characters or at its end.
pub open spec fn char_boundary(s: Seq<char>, off: int) -> bool {
    let c = byte_index(s, off, 0);
    c <= s.len() && byte_len(s.take(c)) == off
}

/// The expected indentation at depth `depth`.
pub open spec fn expected_indent(rule: MD007, depth: int) -> int {
    (if rule.start_indented { rule.start_indent as int } else { 0 }) + depth * rule.indent
}

/// The violations on lines `i..`, with the stack of enclosing items; lines in
/// code blocks and blank lines leave the stack as it is, other lines that are
/// not list items empty it.
pub open spec fn md007_from(
    rule: MD007,
    lines: Seq<Seq<char>>,
    skip: Seq<bool>,
    i: int,
    stack: Seq<(int, char, bool)>,
) -> Seq<ViolationModel>
    decreases lines.len() - i,
{
    if i < 0 || i >= lines.len() {
        seq![]
    } else if skip[i] || is_blank(lines[i]) {
        md007_from(rule, lines, skip, i + 1, stack)
    } else {
        match list_item(lines[i]) {
            Some((w, m, ordered)) => {
                let e = expected_indent(rule, stack_depth(stack, w, 0));
                let line = lines[i];
                (if !ordered && !has_ordered(stack) && w != e {
                    seq![
                        violation_model(
                            "MD007"@,
                            "Unordered list indentation: Expected "@ + decimal(e as nat)
                                + " spaces, found "@ + decimal(w as nat),
                            (i + 1) as usize,
                            (w + 1) as usize,
                            Severity::Warning,
                            Some(
                                fix_model(
                                    "Fix indentation from "@ + decimal(w as nat) + " to "@ + decimal(
                                        e as nat,
                                    ) + " spaces"@,
                                    Some(Seq::new(e as nat, |k: int| ' ') + line.skip(byte_index(line, w, 0))),
                                    (i + 1) as usize,
                                    1,
                                    (i + 1) as usize,
                                    (byte_len(line) + 1) as usize,
                                ),
                            ),
                        ),
                    ]
                } else {
                    seq![]
                }) + md007_from(rule, lines, skip, i + 1, keep_below(stack, w).push((w, m, ordered)))
            },
            None => md007_from(rule, lines, skip, i + 1, seq![]),
        }
    }
}

/// The violations MD007 reports; lines in code blocks are skipped.
pub open spec fn md007_violations(rule: MD007, lines: Seq<Seq<char>>, skip: Seq<bool>) -> Seq<
    ViolationModel,
> {
    md007_from(rule, lines, skip, 0, seq![])
}

/// Whether MD007 can read lines `i..` with the stack of enclosing items:
/// each unordered item it judges (one without ordered ancestors) has an
/// expected indentation that fits a `usize`, and when that differs from its
/// width, the width read as a byte offset into the line falls between two
/// characters.
pub open spec fn md007_safe_from(
    rule: MD007,
    lines: Seq<Seq<char>>,
    skip: Seq<bool>,
    i: int,
    stack: Seq<(int, char, bool)>,
) -> bool
    decreases lines.len() - i,
{
    if i < 0 || i >= lines.len() {
        true
    } else if skip[i] || is_blank(lines[i]) {
        md007_safe_from(rule, lines, skip, i + 1, stack)
    } else {
        match list_item(lines[i]) {
            Some((w, m, ordered)) => {
                let e = expected_indent(rule, stack_depth(stack, w, 0));
                &&& (ordered || has_ordered(stack) || (e <= usize::MAX && (w == e || char_boundary(
                    lines[i],
                    w,
                ))))
                &&& md007_safe_from(rule, lines, skip, i + 1, keep_below(stack, w).push((w, m, ordered)))
            },
            None => md007_safe_from(rule, lines, skip, i + 1, seq![]),
        }
    }
}

/// The inputs MD007 can check: those it reads without its arithmetic
/// overflowing or its cut of a misindented item's line falling inside a
/// character.
pub open spec fn md007_input_ok(rule: MD007, lines: Seq<Seq<char>>, skip: Seq<bool>) -> bool {
    md007_safe_from(rule, lines, skip, 0, seq![])
}

proof fn lemma_width_bound(s: Seq<char>, k: int)
    requires
        0 <= k <= s.len(),
    ensures
        k <= indent_width(s, k) <= 4 * k,
    decreases k,
{
    if k > 0 {
        lemma_width_bound(s, k - 1);
    }
}

proof fn lemma_keep_below_len(stack: Seq<(int, char, bool)>, indent: int)
    ensures
        keep_below(stack, indent).len() <= stack.len(),
    decreases stack.len(),
{
    if stack.len() > 0 {
        lemma_keep_below_len(stack.drop_last(), indent);
    }
}

proof fn lemma_stack_depth(stack: Seq<(int, char, bool)>, indent: int, k: int)
    requires
        0 <= k <= stack.len(),
    ensures
        k <= stack_depth(stack, indent, k) <= stack.len(),
    decreases stack.len() - k,
{
    if k < stack.len() && indent > stack[k].0 {
        lemma_stack_depth(stack, indent, k + 1);
    }
}

/// The stack as integers.
pub open spec fn stack_view(v: Seq<(usize, char, bool)>) -> Seq<(int, char, bool)> {
    v.map_values(|e: (usize, char, bool)| (e.0 as int, e.1, e.2))
}

impl MD007 {
    /// The rule with two spaces per level and unindented top-level items.
    pub fn new() -> (r: Self)
        ensures
            r.indent == 2,
            r.start_indent == 2,
            !r.start_indented,
    {
        MD007 { indent: 2, start_indent: 2, start_indented: false }
    }

    /// The rule with another number of spaces per level.
    pub fn with_indent(self, indent: usize) -> (r: Self)
        ensures
            r.indent == indent,
            r.start_indent == self.start_indent,
            r.start_indented == self.start_indented,
    {
        MD007 { indent, start_indent: self.start_indent, start_indented: self.start_indented }
    }

    /// The rule with another indentation of top-level items.
    pub fn with_start_indent(self, start_indent: usize) -> (r: Self)
        ensures
            r.indent == self.indent,
            r.start_indent == start_indent,
            r.start_indented == self.start_indented,
    {
        MD007 { indent: self.indent, start_indent, start_indented: self.start_indented }
    }

    /// The rule with top-level items indented or not.
    pub fn with_start_indented(self, start_indented: bool) -> (r: Self)
        ensures
            r.indent == self.indent,
            r.start_indent == self.start_indent,
            r.start_indented == start_indented,
    {
        MD007 { indent: self.indent, start_indent: self.start_indent, start_indented }
    }

    /// The list item a line starts, if any.
    fn parse_list_item(&self, line: &[char]) -> (r: Option<(usize, char, bool)>)
        requires
            line@.len() <= usize::MAX / 4,
        ensures
            match list_item(line@) {
                Some((w, m, o)) => r == Some((w as usize, m, o)) && 0 <= w <= 4 * line@.len(),
                None => r is None,
            },
    {
        let ghost s = line@;
        proof {
            lemma_run_fwd(s, 0, CharClass::SpaceOrTab);
        }
        let k = scan_fwd(line, 0, CharClass::SpaceOrTab);
        let mut w: usize = 0;
        let mut j: usize = 0;
        while j < k
            invariant
                s == line@,
                k <= s.len(),
                s.len() <= usize::MAX / 4,
                j <= k,
                w == indent_width(s, j as int),
                w <= 4 * j,
            decreases k - j,
        {
            if line[j] == '\t' {
                w = w + 4;
            } else {
                w = w + 1;
            }
            j = j + 1;
        }
        proof {
            lemma_width_bound(s, k as int);
        }
        if k >= line.len() {
            return None;
        }
        let c = line[k];
        if c == '*' || c == '+' || c == '-' {
            if k + 1 < line.len() && is_whitespace(line[k + 1]) {
                return Some((w, c, false));
            }
            return None;
        }
        if '0' <= c && c <= '9' {
            proof {
                lemma_run_fwd(s, k + 1, CharClass::AsciiDigit);
            }
            let d = scan_fwd(line, k + 1, CharClass::AsciiDigit);
            if d < line.len() && (line[d] == '.' || line[d] == ')') && d + 1 < line.len()
                && is_whitespace(line[d + 1]) {
                return Some((w, c, true));
            }
            return None;
        }
        None
    }

    /// The nesting depth of an item indented by `current_indent`.
    fn calculate_depth(&self, list_stack: &Vec<(usize, char, bool)>, current_indent: usize) -> (r:
        usize)
        ensures
            r == stack_depth(stack_view(list_stack@), current_indent as int, 0),
    {
        let ghost sv = stack_view(list_stack@);
        proof {
            lemma_stack_depth(sv, current_indent as int, 0);
        }
        let mut k: usize = 0;
        while k < list_stack.len()
            invariant
                sv == stack_view(list_stack@),
                k <= list_stack@.len(),
                stack_depth(sv, current_indent as int, 0) == stack_depth(sv, current_indent as int, k as int),
            decreases list_stack@.len() - k,
        {
            if current_indent <= list_stack[k].0 {
                return k;
            }
            k = k + 1;
        }
        k
    }

    /// Whether some entry of the stack is an ordered item.
    fn has_ordered_ancestors(&self, list_stack: &Vec<(usize, char, bool)>) -> (b: bool)
        ensures
            b == has_ordered(stack_view(list_stack@)),
    {
        let ghost sv = stack_view(list_stack@);
        let mut k: usize = 0;
        while k < list_stack.len()
            invariant
                sv == stack_view(list_stack@),
                k <= list_stack@.len(),
                forall|m: int| 0 <= m < k ==> !(#[trigger] sv[m]).2,
            decreases list_stack@.len() - k,
        {
            if list_stack[k].2 {
                assert(sv[k as int].2);
                return true;
            }
            k = k + 1;
        }
        false
    }

    /// Drops the entries indented at least `indent` and pushes the new item.
    fn update_list_stack(
        &self,
        list_stack: &mut Vec<(usize, char, bool)>,
        indent: usize,
        marker: char,
        is_ordered: bool,
    )
        ensures
            stack_view(final(list_stack)@) == keep_below(stack_view(old(list_stack)@), indent as int).push(
                (indent as int, marker, is_ordered),
            ),
    {
        let ghost old_view = stack_view(list_stack@);
        let mut kept: Vec<(usize, char, bool)> = Vec::new();
        let mut k: usize = 0;
        while k < list_stack.len()
            invariant
                old_view == stack_view(list_stack@),
                k <= list_stack@.len(),
                stack_view(kept@) == keep_below(old_view.take(k as int), indent as int),
            decreases list_stack@.len() - k,
        {
            let e = list_stack[k];
            assert(old_view.take(k + 1).drop_last() == old_view.take(k as int));
            if e.0 < indent {
                kept.push(e);
            }
            assert(stack_view(kept@) =~= keep_below(old_view.take(k + 1), indent as int));
            k = k + 1;
        }
        assert(old_view.take(old_view.len() as int) == old_view);
        kept.push((indent, marker, is_ordered));
        assert(stack_view(kept@) =~= keep_below(old_view, indent as int).push(
            (indent as int, marker, is_ordered),
        ));
        *list_stack = kept;
    }

    /// Whether the rule can check a document: see [`md007_input_ok`].
    pub fn input_ok(&self, document: &Document) -> (b: bool)
        ensures
            b == md007_input_ok(
                *self,
                document.lines_of(),
                Seq::new(
                    document.lines_of().len(),
                    |i: int| in_code_block_node(document.nodes_of(), i + 1),
                ),
            ),
    {
        let ghost lines = document.lines_of();
        let ghost skip = Seq::new(lines.len(), |i: int| in_code_block_node(document.nodes_of(), i + 1));
        let flags = code_block_flags(document);
        let n = document.line_count();
        let mut stack: Vec<(usize, char, bool)> = Vec::new();
        assert(stack_view(stack@) =~= Seq::<(int, char, bool)>::empty());
        let mut i: usize = 0;
        while i < n
            invariant
                n == lines.len(),
                n <= usize::MAX / 4,
                lines == document.lines_of(),
                skip == Seq::new(lines.len(), |k: int| in_code_block_node(document.nodes_of(), k + 1)),
                flags@.len() == n,
                forall|k: int| 0 <= k < n ==> #[trigger] flags@[k] == skip[k],
                i <= n,
                md007_safe_from(*self, lines, skip, i as int, stack_view(stack@)) == md007_input_ok(
                    *self,
                    lines,
                    skip,
                ),
            decreases n - i,
        {
            let line = document.line(i);
            if flags[i] || blank_line(line) {
                i = i + 1;
            } else {
                match self.parse_list_item(line) {
                    Some((w, m, ordered)) => {
                        if !ordered && !self.has_ordered_ancestors(&stack) {
                            let depth = self.calculate_depth(&stack, w);
                            let base = if self.start_indented { self.start_indent } else { 0 };
                            match depth.checked_mul(self.indent) {
                                None => {
                                    return false;
                                },
                                Some(p) => match base.checked_add(p) {
                                    None => {
                                        return false;
                                    },
                                    Some(e) => {
                                        if w != e && boundary_suffix(line, w).is_none() {
                                            return false;
                                        }
                                    },
                                },
                            }
                        }
                        self.update_list_stack(&mut stack, w, m, ordered);
                    },
                    None => {
                        stack = Vec::new();
                        assert(stack_view(stack@) =~= Seq::<(int, char, bool)>::empty());
                    },
                }
                i = i + 1;
            }
        }
        true
    }

    /// The rule's identifier.
    pub fn id(&self) -> (r: &'static str)
        ensures
            r@ == "MD007"@,
    {
        "MD007"
    }

    /// The rule's name.
    pub fn name(&self) -> (r: &'static str)
        ensures
            r@ == "ul-indent"@,
    {
        "ul-indent"
    }

    /// What the rule checks.
    pub fn description(&self) -> (r: &'static str)
        ensures
            r@ == "Unordered list indentation"@,
    {
        "Unordered list indentation"
    }

    /// The rule offers fixes.
    pub fn can_fix(&self) -> (b: bool)
        ensures
            b,
    {
        true
    }

    /// Checks a document.
    pub fn check(&self, document: &Document) -> (r: Vec<Violation>)
        requires
            md007_input_ok(
                *self,
                document.lines_of(),
                Seq::new(
                    document.lines_of().len(),
                    |i: int| in_code_block_node(document.nodes_of(), i + 1),
                ),
            ),
        ensures
            r.deep_view() == md007_violations(
                *self,
                document.lines_of(),
                Seq::new(
                    document.lines_of().len(),
                    |i: int| in_code_block_node(document.nodes_of(), i + 1),
                ),
            ),
    {
        let ghost lines = document.lines_of();
        let ghost skip = Seq::new(lines.len(), |i: int| in_code_block_node(document.nodes_of(), i + 1));
        let flags = code_block_flags(document);
        let n = document.line_count();
        let mut stack: Vec<(usize, char, bool)> = Vec::new();
        let mut out: Vec<Violation> = Vec::new();
        assert(stack_view(stack@) =~= Seq::<(int, char, bool)>::empty());
        let mut i: usize = 0;
        while i < n
            invariant
                n == lines.len(),
                n <= usize::MAX / 4,
                lines == document.lines_of(),
                skip == Seq::new(lines.len(), |k: int| in_code_block_node(document.nodes_of(), k + 1)),
                flags@.len() == n,
                forall|k: int| 0 <= k < n ==> #[trigger] flags@[k] == skip[k],
                md007_safe_from(*self, lines, skip, i as int, stack_view(stack@)),
                i <= n,
                stack@.len() <= i,
                out.deep_view() + md007_from(*self, lines, skip, i as int, stack_view(stack@))
                    == md007_violations(*self, lines, skip),
            decreases n - i,
        {
            let line = document.line(i);
            if flags[i] || blank_line(line) {
                i = i + 1;
            } else {
                match self.parse_list_item(line) {
                    Some((w, m, ordered)) => {
                        let ghost before = out.deep_view();
                        let ghost sv = stack_view(stack@);
                        if !ordered && !self.has_ordered_ancestors(&stack) {
                            let depth = self.calculate_depth(&stack, w);
                            proof {
                                lemma_stack_depth(sv, w as int, 0);
                            }
                            let base = if self.start_indented { self.start_indent } else { 0 };
                            let e = base + depth * self.indent;
                            if w != e {
                                assert(list_item(lines[i as int]) matches Some((ww, _, o)) && (ww
                                    == w && !o));
                                let v = self.report(document, i, line, w, e);
                                out.push(v);
                                assert(out.deep_view() == before.push(v.deep_view()));
                            }
                        }
                        proof {
                            lemma_keep_below_len(sv, w as int);
                        }
                        self.update_list_stack(&mut stack, w, m, ordered);
                        assert(before + md007_from(*self, lines, skip, i as int, sv) == out.deep_view()
                            + md007_from(*self, lines, skip, i + 1, stack_view(stack@)));
                    },
                    None => {
                        stack = Vec::new();
                        assert(stack_view(stack@) =~= Seq::<(int, char, bool)>::empty());
                    },
                }
                i = i + 1;
            }
        }
        out
    }

    fn report(&self, document: &Document, i: usize, line: &[char], w: usize, e: usize) -> (v: Violation)
        requires
            i < document.lines_of().len(),
            i < usize::MAX / 4,
            line@ == document.lines_of()[i as int],
            line@.len() <= usize::MAX / 4,
            w <= 4 * line@.len(),
            char_boundary(line@, w as int),
        ensures
            v.deep_view() == violation_model(
                "MD007"@,
                "Unordered list indentation: Expected "@ + decimal(e as nat) + " spaces, found "@
                    + decimal(w as nat),
                (i + 1) as usize,
                (w + 1) as usize,
                Severity::Warning,
                Some(
                    fix_model(
                        "Fix indentation from "@ + decimal(w as nat) + " to "@ + decimal(e as nat)
                            + " spaces"@,
                        Some(Seq::new(e as nat, |k: int| ' ') + line@.skip(byte_index(line@, w as int, 0))),
                        (i + 1) as usize,
                        1,
                        (i + 1) as usize,
                        (byte_len(line@) + 1) as usize,
                    ),
                ),
            ),
    {
        let rest = match boundary_suffix(line, w) {
            Some(r) => r,
            None => Vec::new(),
        };
        let mut rep: Vec<char> = Vec::new();
        let mut k: usize = 0;
        while k < e
            invariant
                k <= e,
                rep@ == Seq::new(k as nat, |m: int| ' '),
            decreases e - k,
        {
            rep.push(' ');
            assert(rep@ =~= Seq::new((k + 1) as nat, |m: int| ' '));
            k = k + 1;
        }
        push_all(&mut rep, rest.as_slice());
        let b = crate::text::byte_len_prefix(line, line.len());
        assert(line@.take(line@.len() as int) == line@);
        let mut description = String::from_str("Fix indentation from ");
        append_decimal(&mut description, w);
        description.append(" to ");
        append_decimal(&mut description, e);
        description.append(" spaces");
        let fix = new_fix(description, Some(string_of(rep.as_slice())), i + 1, 1, i + 1, b + 1);
        let mut message = String::from_str("Unordered list indentation: Expected ");
        append_decimal(&mut message, e);
        message.append(" spaces, found ");
        append_decimal(&mut message, w);
        new_violation("MD007", message, i + 1, w + 1, Severity::Warning, Some(fix))
    }
}

/// The characters of `s` after byte offset `off`, when the offset falls
/// between two characters or at the end.
fn boundary_suffix(s: &[char], off: usize) -> (r: Option<Vec<char>>)
    requires
        s@.len() <= usize::MAX / 4,
    ensures
        char_boundary(s@, off as int) ==> (r matches Some(v) && v@ == s@.skip(byte_index(s@, off as int, 0))),
        !char_boundary(s@, off as int) ==> r is None,
{
    let ghost t = s@;
    let mut acc: usize = 0;
    let mut c: usize = 0;
    assert(t.take(0) =~= Seq::<char>::empty());
    while c < s.len() && acc < off
        invariant
            t == s@,
            c <= t.len(),
            t.len() <= usize::MAX / 4,
            acc == byte_len(t.take(c as int)),
            acc <= 4 * c,
            byte_index(t, off as int, 0) == byte_index(t, off as int, c as int),
        decreases t.len() - c,
    {
        assert(t.take(c + 1).drop_last() == t.take(c as int));
        acc = acc + char_width(s[c]);
        c = c + 1;
    }
    if acc < off {
        assert(t.take(c as int) == t);
        assert(byte_index(t, off as int, c as int) == t.len() + 1) by {
            assert(byte_index(t, off as int, c + 1) == t.len() + 1);
        }
        return None;
    }
    if acc != off {
        return None;
    }
    Some(slice_chars(s, c, s.len()))
}

impl MD007 {
    /// The rule configured by a TOML table: `indent`, and `start-indent` and
    /// `start-indented` (or their snake-case forms).
    pub fn from_config(config: &toml::Value) -> (r: Self)
        ensures
            r.indent == match as_int(toml_get(*config, "indent"@)) {
                Some(i) => i as usize,
                None => 2usize,
            },
            r.start_indent == match as_int(toml_get_either(*config, "start-indent"@, "start_indent"@)) {
                Some(i) => i as usize,
                None => 2usize,
            },
            r.start_indented == match as_bool(
                toml_get_either(*config, "start-indented"@, "start_indented"@),
            ) {
                Some(b) => b,
                None => false,
            },
    {
        let mut rule = MD007::new();
        match entry_int(&config_entry(config, "indent")) {
            Some(i) => {
                rule.indent = i as usize;
            },
            None => {},
        }
        match entry_int(&entry_either(config, "start-indent", "start_indent")) {
            Some(i) => {
                rule.start_indent = i as usize;
            },
            None => {},
        }
        match entry_bool(&entry_either(config, "start-indented", "start_indented")) {
            Some(b) => {
                rule.start_indented = b;
            },
            None => {},
        }
        rule
    }
}

impl Default for MD007 {
    fn default() -> (r: Self)
        ensures
            r.indent == 2,
            r.start_indent == 2,
            !r.start_indented,
    {
        MD007::new()
    }
}

} // verus!
