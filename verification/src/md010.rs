//! MD010: hard tabs.
use vstd::prelude::*;
use crate::config::{as_bool, as_int, entry_bool, entry_either, entry_int, toml_get_either};
use vstd::string::StringExecFns;
use crate::document::Document;
use crate::fences::{fence_flags, fence_state, line_starts_fence, starts_fence};
use crate::lines::{check_lines, lemma_line_violations_empty, line_violations, LineRule};
use crate::text::{byte_len, byte_len_prefix, decimal, string_of};
use crate::violation::{
    append_decimal, fix_model, fix_text, new_fix, new_violation, violation_model, Severity,
    Violation, ViolationModel,
};

verus! {

/// Rule that flags tab characters.
pub struct MD010 {
    /// Number of spaces a tab stands for.
    pub spaces_per_tab: usize,
    /// Whether lines inside fenced code blocks are checked.
    pub code_blocks: bool,
}

/// `s` with every tab replaced by `n` spaces.
pub open spec fn replace_tabs(s: Seq<char>, n: nat) -> Seq<char>
    decreases s.len(),
{
    if s.len() == 0 {
        seq![]
    } else {
        replace_tabs(s.drop_last(), n) + if s.last() == '\t' {
            Seq::new(n, |k: int| ' ')
        } else {
            seq![s.last()]
        }
    }
}

/// `replace_tabs` leaves no tab.
pub proof fn lemma_replace_tabs_no_tab(s: Seq<char>, n: nat)
    ensures
        forall|k: int| 0 <= k < replace_tabs(s, n).len() ==> #[trigger] replace_tabs(s, n)[k] != '\t',
    decreases s.len(),
{
    if s.len() > 0 {
        lemma_replace_tabs_no_tab(s.drop_last(), n);
        let head = replace_tabs(s.drop_last(), n);
        let tail = if s.last() == '\t' { Seq::new(n, |k: int| ' ') } else { seq![s.last()] };
        assert forall|k: int| 0 <= k < replace_tabs(s, n).len() implies #[trigger] replace_tabs(s, n)[k]
            != '\t' by {
            if k < head.len() {
                assert(replace_tabs(s, n)[k] == head[k]);
            } else {
                assert(replace_tabs(s, n)[k] == tail[k - head.len()]);
            }
        }
    }
}

/// A text without tabs has its first tab at its end.
pub proof fn lemma_first_tab_none(s: Seq<char>, i: int)
    requires
        0 <= i <= s.len(),
        forall|k: int| 0 <= k < s.len() ==> #[trigger] s[k] != '\t',
    ensures
        first_tab_from(s, i) == s.len(),
    decreases s.len() - i,
{
    if i < s.len() {
        lemma_first_tab_none(s, i + 1);
    }
}

/// Law: the line MD010's fix leaves behind (every tab replaced by the
/// configured number of spaces) has no tab, so MD010 does not report it,
/// whatever the settings and wherever the line stands.
pub proof fn md010_fix_leaves_clean_line(
    spaces: usize,
    code_blocks: bool,
    num: int,
    line: Seq<char>,
    in_code: bool,
    fixed_in_code: bool,
)
    requires
        md010_line(spaces, code_blocks, num, line, in_code) is Some,
    ensures
        md010_line(
            spaces,
            code_blocks,
            num,
            fix_text(md010_line(spaces, code_blocks, num, line, in_code)->0),
            fixed_in_code,
        ) is None,
{
    let fixed = replace_tabs(line, spaces as nat);
    lemma_replace_tabs_no_tab(line, spaces as nat);
    lemma_first_tab_none(fixed, 0);
}

/// The violation MD010 reports on line `num`, where `in_code` tells whether a
/// fence is open once the line has been read.
pub open spec fn md010_line(
    spaces: usize,
    code_blocks: bool,
    num: int,
    line: Seq<char>,
    in_code: bool,
) -> Option<ViolationModel> {
    let p = first_tab_index(line);
    if !code_blocks && in_code && !starts_fence(line) {
        None
    } else if p >= line.len() {
        None
    } else {
        Some(
            violation_model(
                "MD010"@,
                "Hard tab character found (consider using "@ + decimal(spaces as nat) + " spaces)"@,
                num as usize,
                (byte_len(line.take(p)) + 1) as usize,
                Severity::Warning,
                Some(
                    fix_model(
                        "Replace tab with "@ + decimal(spaces as nat) + " spaces"@,
                        Some(replace_tabs(line, spaces as nat)),
                        num as usize,
                        1,
                        num as usize,
                        (byte_len(line) + 1) as usize,
                    ),
                ),
            ),
        )
    }
}

/// Index of the first tab of `s`, or `s.len()`.
pub open spec fn first_tab_index(s: Seq<char>) -> int {
    first_tab_from(s, 0)
}

/// Index of the first tab of `s` at or after `i`, or `s.len()`.
pub open spec fn first_tab_from(s: Seq<char>, i: int) -> int
    decreases s.len() - i,
{
    if i >= s.len() {
        s.len() as int
    } else if s[i] == '\t' {
        i
    } else {
        first_tab_from(s, i + 1)
    }
}

fn find_tab(s: &[char]) -> (r: usize)
    ensures
        r as int == first_tab_index(s@),
        r <= s@.len(),
{
    let mut k: usize = 0;
    while k < s.len()
        invariant
            k <= s@.len(),
            first_tab_from(s@, 0) == first_tab_from(s@, k as int),
        decreases s@.len() - k,
    {
        if s[k] == '\t' {
            return k;
        }
        k = k + 1;
    }
    k
}

fn expand_tabs(s: &[char], n: usize) -> (r: Vec<char>)
    ensures
        r@ == replace_tabs(s@, n as nat),
{
    let mut out: Vec<char> = Vec::new();
    let mut i: usize = 0;
    while i < s.len()
        invariant
            i <= s@.len(),
            out@ == replace_tabs(s@.take(i as int), n as nat),
        decreases s@.len() - i,
    {
        assert(s@.take(i + 1).drop_last() == s@.take(i as int));
        if s[i] == '\t' {
            let ghost before = out@;
            let mut k: usize = 0;
            while k < n
                invariant
                    k <= n,
                    out@ == before + Seq::new(k as nat, |m: int| ' '),
                decreases n - k,
            {
                out.push(' ');
                assert(before + Seq::new((k + 1) as nat, |m: int| ' ') =~= (before + Seq::new(
                    k as nat,
                    |m: int| ' ',
                )).push(' '));
                k = k + 1;
            }
        } else {
            out.push(s[i]);
        }
        i = i + 1;
    }
    assert(s@.take(s@.len() as int) == s@);
    out
}

/// Law: a document without tab characters draws no report, whatever the
/// settings.
pub proof fn md010_tab_free_passes(rule: MD010, lines: Seq<Seq<char>>, flags: Seq<bool>)
    requires
        forall|i: int, k: int| 0 <= i < lines.len() && 0 <= k < lines[i].len() ==> #[trigger] lines[i][k] != '\t',
    ensures
        line_violations(&rule, lines, flags, 0) == Seq::<ViolationModel>::empty(),
{
    assert forall|i: int| 0 <= i < lines.len() implies #[trigger] rule.line_spec(i + 1, lines[i], flags[i]) is None by {
        let l = lines[i];
        assert forall|k: int| 0 <= k < l.len() implies #[trigger] l[k] != '\t' by {
            assert(lines[i][k] != '\t');
        }
        lemma_first_tab_none(l, 0);
    }
    lemma_line_violations_empty(&rule, lines, flags, 0);
}

impl LineRule for MD010 {
    open spec fn line_spec(&self, num: int, line: Seq<char>, flag: bool) -> Option<ViolationModel> {
        md010_line(self.spaces_per_tab, self.code_blocks, num, line, flag)
    }

    #[verifier::spinoff_prover]
    #[verifier::rlimit(30)]
    fn line_check(&self, num: usize, line: &[char], flag: bool) -> (r: Option<Violation>) {
        if !self.code_blocks && flag && !line_starts_fence(line) {
            return None;
        }
        let p = find_tab(line);
        if p >= line.len() {
            return None;
        }
        let before = byte_len_prefix(line, p);
        let total = byte_len_prefix(line, line.len());
        proof {
            assert(line@.take(line@.len() as int) == line@);
        }
        let mut description = String::from_str("Replace tab with ");
        append_decimal(&mut description, self.spaces_per_tab);
        description.append(" spaces");
        let mut message = String::from_str("Hard tab character found (consider using ");
        append_decimal(&mut message, self.spaces_per_tab);
        message.append(" spaces)");
        let fixed = expand_tabs(line, self.spaces_per_tab);
        let fix = new_fix(description, Some(string_of(fixed.as_slice())), num, 1, num, total + 1);
        Some(new_violation("MD010", message, num, before + 1, Severity::Warning, Some(fix)))
    }
}

impl MD010 {
    /// The rule with four spaces per tab, checking code blocks.
    pub fn new() -> (r: Self)
        ensures
            r.spaces_per_tab == 4 && r.code_blocks,
    {
        MD010 { spaces_per_tab: 4, code_blocks: true }
    }

    /// The rule with a custom number of spaces per tab, checking code blocks.
    pub fn with_spaces_per_tab(spaces_per_tab: usize) -> (r: Self)
        ensures
            r.spaces_per_tab == spaces_per_tab && r.code_blocks,
    {
        MD010 { spaces_per_tab, code_blocks: true }
    }

    /// The rule, checking code blocks or not.
    pub fn with_code_blocks(self, check_code_blocks: bool) -> (r: Self)
        ensures
            r.spaces_per_tab == self.spaces_per_tab && r.code_blocks == check_code_blocks,
    {
        MD010 { spaces_per_tab: self.spaces_per_tab, code_blocks: check_code_blocks }
    }

    /// The rule's identifier.
    pub fn id(&self) -> (r: &'static str)
        ensures
            r@ == "MD010"@,
    {
        "MD010"
    }

    /// The rule's name.
    pub fn name(&self) -> (r: &'static str)
        ensures
            r@ == "no-hard-tabs"@,
    {
        "no-hard-tabs"
    }

    /// What the rule checks.
    pub fn description(&self) -> (r: &'static str)
        ensures
            r@ == "Hard tabs are not allowed"@,
    {
        "Hard tabs are not allowed"
    }

    /// Whether the rule suggests fixes.
    pub fn can_fix(&self) -> (b: bool)
        ensures
            b,
    {
        true
    }

    /// Checks a document.
    pub fn check(&self, document: &Document) -> (r: Vec<Violation>)
        ensures
            r.deep_view() == line_violations(
                self,
                document.lines_of(),
                Seq::new(document.lines_of().len(), |i: int| fence_state(document.lines_of(), i + 1)),
                0,
            ),
    {
        let flags = fence_flags(document);
        assert(flags@ =~= Seq::new(document.lines_of().len(), |i: int| fence_state(document.lines_of(), i + 1)));
        check_lines(self, document, &flags)
    }
}

impl MD010 {
    /// The rule configured by a TOML table: `spaces-per-tab` and
    /// `code-blocks` (or their snake-case forms).
    pub fn from_config(config: &toml::Value) -> (r: Self)
        ensures
            r.spaces_per_tab == match as_int(
                toml_get_either(*config, "spaces-per-tab"@, "spaces_per_tab"@),
            ) {
                Some(i) => i as usize,
                None => 4usize,
            },
            r.code_blocks == match as_bool(toml_get_either(*config, "code-blocks"@, "code_blocks"@)) {
                Some(b) => b,
                None => true,
            },
    {
        let mut rule = MD010::new();
        match entry_int(&entry_either(config, "spaces-per-tab", "spaces_per_tab")) {
            Some(i) => {
                rule.spaces_per_tab = i as usize;
            },
            None => {},
        }
        match entry_bool(&entry_either(config, "code-blocks", "code_blocks")) {
            Some(b) => {
                rule.code_blocks = b;
            },
            None => {},
        }
        rule
    }
}

impl Default for MD010 {
    fn default() -> (r: Self)
        ensures
            r.spaces_per_tab == 4 && r.code_blocks,
    {
        MD010::new()
    }
}

} // verus!
