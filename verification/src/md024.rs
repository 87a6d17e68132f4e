//! MD024: headings with the same content.
use vstd::prelude::*;
use crate::config::{as_bool, as_str, config_entry, entry_bool, toml_get};
use vstd::string::StringExecFns;
use crate::document::{Document, MdNode, NodeKind};
use crate::text::{
    chars_of, decimal, is_ws, is_whitespace, lowercase, string_of, to_lowercase, trim_chars,
    trimmed,
};
use crate::violation::{
    append_decimal, new_violation, violation_model, Severity, Violation, ViolationModel,
};

verus! {

/// Rule that flags headings whose text repeats an earlier heading's.
pub struct MD024 {
    /// Only headings of the same level count as duplicates.
    pub siblings_only: bool,
}

/// `s[i..]` with whitespace runs squeezed to one space and no whitespace at
/// either end, given whether something was written already and whether a gap
/// is pending.
pub open spec fn squash_from(s: Seq<char>, i: int, emitted: bool, gap: bool) -> Seq<char>
    decreases s.len() - i,
{
    if i < 0 || i >= s.len() {
        seq![]
    } else if is_ws(s[i]) {
        squash_from(s, i + 1, emitted, true)
    } else {
        (if emitted && gap { seq![' ', s[i]] } else { seq![s[i]] }) + squash_from(s, i + 1, true, false)
    }
}

/// The comparison key of a heading text: lowercased, its words joined by
/// single spaces.
pub open spec fn normalize(text: Seq<char>) -> Seq<char> {
    squash_from(lowercase(text), 0, false, false)
}

/// A heading already seen: its key, level and line.
pub struct Seen {
    pub key: Vec<char>,
    pub level: u8,
    pub line: usize,
}

/// The key, level and line of a heading already seen.
pub open spec fn seen_view(s: Seen) -> (Seq<char>, u8, usize) {
    (s.key@, s.level, s.line)
}

/// Index of the first seen heading with the key (and level, when only
/// siblings count), or `seen.len()`.
pub open spec fn find_seen(
    seen: Seq<(Seq<char>, u8, usize)>,
    key: Seq<char>,
    level: u8,
    siblings: bool,
    k: int,
) -> int
    decreases seen.len() - k,
{
    if k < 0 || k >= seen.len() {
        seen.len() as int
    } else if seen[k].0 == key && (!siblings || seen[k].1 == level) {
        k
    } else {
        find_seen(seen, key, level, siblings, k + 1)
    }
}

/// The violations for nodes `i..`, given the headings seen so far.
pub open spec fn md024_scan(
    nodes: Seq<MdNode>,
    siblings: bool,
    i: int,
    seen: Seq<(Seq<char>, u8, usize)>,
) -> Seq<ViolationModel>
    decreases nodes.len() - i,
{
    if i < 0 || i >= nodes.len() {
        seq![]
    } else {
        match nodes[i].kind {
            NodeKind::Heading { level, .. } => {
                let text = trimmed(nodes[i].text@);
                if text.len() == 0 {
                    md024_scan(nodes, siblings, i + 1, seen)
                } else {
                    let key = normalize(text);
                    let f = find_seen(seen, key, level, siblings, 0);
                    if f < seen.len() {
                        seq![
                            violation_model(
                                "MD024"@,
                                (if siblings {
                                    "Duplicate heading content at level "@ + decimal(level as nat)
                                        + ": '"@
                                } else {
                                    "Duplicate heading content: '"@
                                }) + text + "' (first occurrence at line "@ + decimal(
                                    seen[f].2 as nat,
                                ) + ")"@,
                                nodes[i].start_line,
                                nodes[i].start_column,
                                Severity::Warning,
                                None,
                            ),
                        ] + md024_scan(nodes, siblings, i + 1, seen)
                    } else {
                        md024_scan(nodes, siblings, i + 1, seen.push((key, level, nodes[i].start_line)))
                    }
                }
            },
            _ => md024_scan(nodes, siblings, i + 1, seen),
        }
    }
}

/// The violations MD024 reports on a document with the given nodes.
pub open spec fn md024_violations(nodes: Seq<MdNode>, siblings: bool) -> Seq<ViolationModel> {
    md024_scan(nodes, siblings, 0, seq![])
}

/// Node `k` is a heading with a text that is not blank.
pub open spec fn keyed_heading(nodes: Seq<MdNode>, k: int) -> bool {
    nodes[k].kind is Heading && trimmed(nodes[k].text@).len() > 0
}

/// The comparison key of node `k`'s text.
pub open spec fn heading_key(nodes: Seq<MdNode>, k: int) -> Seq<char> {
    normalize(trimmed(nodes[k].text@))
}

/// No two headings with text share a key.
pub open spec fn keys_distinct(nodes: Seq<MdNode>) -> bool {
    forall|a: int, b: int|
        0 <= a < b < nodes.len() && keyed_heading(nodes, a) && keyed_heading(nodes, b) ==> #[trigger] heading_key(
            nodes,
            a,
        ) != #[trigger] heading_key(nodes, b)
}

proof fn lemma_find_seen(seen: Seq<(Seq<char>, u8, usize)>, key: Seq<char>, level: u8, siblings: bool, k: int)
    requires
        0 <= k,
    ensures
        find_seen(seen, key, level, siblings, k) >= 0,
        find_seen(seen, key, level, siblings, k) < seen.len() ==> seen[find_seen(seen, key, level, siblings, k)].0
            == key,
    decreases seen.len() - k,
{
    if k < seen.len() && !(seen[k].0 == key && (!siblings || seen[k].1 == level)) {
        lemma_find_seen(seen, key, level, siblings, k + 1);
    }
}

/// Some heading with text among nodes `0..i` has key `key`.
pub open spec fn key_before(nodes: Seq<MdNode>, i: int, key: Seq<char>) -> bool {
    exists|k: int| 0 <= k < i && keyed_heading(nodes, k) && #[trigger] heading_key(nodes, k) == key
}

proof fn lemma_distinct_scan(nodes: Seq<MdNode>, siblings: bool, i: int, seen: Seq<(Seq<char>, u8, usize)>)
    requires
        0 <= i <= nodes.len(),
        keys_distinct(nodes),
        forall|m: int| 0 <= m < seen.len() ==> key_before(nodes, i, (#[trigger] seen[m]).0),
    ensures
        md024_scan(nodes, siblings, i, seen) == Seq::<ViolationModel>::empty(),
    decreases nodes.len() - i,
{
    if i < nodes.len() {
        match nodes[i].kind {
            NodeKind::Heading { level, .. } => {
                let text = trimmed(nodes[i].text@);
                if text.len() == 0 {
                    lemma_distinct_scan(nodes, siblings, i + 1, seen);
                } else {
                    let key = normalize(text);
                    assert(key == heading_key(nodes, i));
                    assert(keyed_heading(nodes, i));
                    let f = find_seen(seen, key, level, siblings, 0);
                    lemma_find_seen(seen, key, level, siblings, 0);
                    if f < seen.len() {
                        assert(key_before(nodes, i, seen[f].0));
                        let k = choose|k: int|
                            0 <= k < i && keyed_heading(nodes, k) && #[trigger] heading_key(nodes, k) == seen[f].0;
                        assert(heading_key(nodes, k) != heading_key(nodes, i));
                    } else {
                        let next = seen.push((key, level, nodes[i].start_line));
                        assert forall|m: int| 0 <= m < next.len() implies key_before(nodes, i + 1, (#[trigger] next[m]).0) by {
                            if m < seen.len() {
                                assert(next[m] == seen[m]);
                                assert(key_before(nodes, i, seen[m].0));
                                let k = choose|k: int|
                                    0 <= k < i && keyed_heading(nodes, k) && #[trigger] heading_key(nodes, k)
                                        == seen[m].0;
                                assert(heading_key(nodes, k) == next[m].0);
                            } else {
                                assert(heading_key(nodes, i) == next[m].0);
                            }
                        }
                        lemma_distinct_scan(nodes, siblings, i + 1, next);
                    }
                }
            },
            _ => {
                assert forall|m: int| 0 <= m < seen.len() implies key_before(nodes, i + 1, (#[trigger] seen[m]).0) by {
                    assert(key_before(nodes, i, seen[m].0));
                    let k = choose|k: int|
                        0 <= k < i && keyed_heading(nodes, k) && #[trigger] heading_key(nodes, k) == seen[m].0;
                    assert(heading_key(nodes, k) == seen[m].0);
                }
                lemma_distinct_scan(nodes, siblings, i + 1, seen);
            },
        }
    }
}

/// Law: a document in which no two headings have the same text (compared
/// without regard to case and spacing) draws no report, whether only
/// siblings count or all headings do.
pub proof fn md024_distinct_headings_pass(nodes: Seq<MdNode>, siblings: bool)
    requires
        keys_distinct(nodes),
    ensures
        md024_violations(nodes, siblings) == Seq::<ViolationModel>::empty(),
{
    lemma_distinct_scan(nodes, siblings, 0, seq![]);
}

fn squash(s: &[char]) -> (r: Vec<char>)
    ensures
        r@ == squash_from(s@, 0, false, false),
{
    let mut out: Vec<char> = Vec::new();
    let mut emitted = false;
    let mut gap = false;
    let mut i: usize = 0;
    while i < s.len()
        invariant
            i <= s@.len(),
            out@ + squash_from(s@, i as int, emitted, gap) == squash_from(s@, 0, false, false),
        decreases s@.len() - i,
    {
        let ghost before = out@;
        if is_whitespace(s[i]) {
            gap = true;
        } else {
            if emitted && gap {
                out.push(' ');
            }
            out.push(s[i]);
            assert(before + squash_from(s@, i as int, emitted, gap) == out@ + squash_from(
                s@,
                i + 1,
                true,
                false,
            ));
            emitted = true;
            gap = false;
        }
        i = i + 1;
    }
    out
}

/// The comparison key of a heading text.
fn normalize_text(text: &[char]) -> (r: Vec<char>)
    ensures
        r@ == normalize(text@),
{
    let lower = to_lowercase(string_of(text).as_str());
    let lc = chars_of(lower.as_str());
    squash(lc.as_slice())
}

fn same(a: &[char], b: &[char]) -> (r: bool)
    ensures
        r == (a@ == b@),
{
    if a.len() != b.len() {
        return false;
    }
    let mut i: usize = 0;
    while i < a.len()
        invariant
            a@.len() == b@.len(),
            i <= a@.len(),
            forall|k: int| 0 <= k < i ==> a@[k] == b@[k],
        decreases a@.len() - i,
    {
        if a[i] != b[i] {
            return false;
        }
        i = i + 1;
    }
    assert(a@ =~= b@);
    true
}

fn lookup(seen: &Vec<Seen>, key: &[char], level: u8, siblings: bool) -> (r: usize)
    ensures
        r as int == find_seen(seen@.map_values(|s: Seen| seen_view(s)), key@, level, siblings, 0),
        r <= seen@.len(),
{
    let ghost sv = seen@.map_values(|s: Seen| seen_view(s));
    let mut k: usize = 0;
    while k < seen.len()
        invariant
            k <= seen@.len(),
            sv == seen@.map_values(|s: Seen| seen_view(s)),
            find_seen(sv, key@, level, siblings, 0) == find_seen(sv, key@, level, siblings, k as int),
        decreases seen@.len() - k,
    {
        if same(seen[k].key.as_slice(), key) && (!siblings || seen[k].level == level) {
            return k;
        }
        k = k + 1;
    }
    k
}

impl MD024 {
    /// The rule that compares headings of all levels.
    pub fn new() -> (r: Self)
        ensures
            !r.siblings_only,
    {
        MD024 { siblings_only: false }
    }

    /// The rule, comparing only headings of the same level or not.
    pub fn with_siblings_only(siblings_only: bool) -> (r: Self)
        ensures
            r.siblings_only == siblings_only,
    {
        MD024 { siblings_only }
    }

    /// The rule's identifier.
    pub fn id(&self) -> (r: &'static str)
        ensures
            r@ == "MD024"@,
    {
        "MD024"
    }

    /// The rule's name.
    pub fn name(&self) -> (r: &'static str)
        ensures
            r@ == "no-duplicate-heading"@,
    {
        "no-duplicate-heading"
    }

    /// What the rule checks.
    pub fn description(&self) -> (r: &'static str)
        ensures
            r@ == "Multiple headings with the same content"@,
    {
        "Multiple headings with the same content"
    }

    /// Checks a document.
    pub fn check(&self, document: &Document) -> (r: Vec<Violation>)
        ensures
            r.deep_view() == md024_violations(document.nodes_of(), self.siblings_only),
    {
        let nodes = document.nodes();
        let mut out: Vec<Violation> = Vec::new();
        let mut seen: Vec<Seen> = Vec::new();
        assert(seen@.map_values(|s: Seen| seen_view(s)) =~= Seq::<(Seq<char>, u8, usize)>::empty());
        let mut i: usize = 0;
        while i < nodes.len()
            invariant
                nodes@ == document.nodes_of(),
                i <= nodes@.len(),
                out.deep_view() + md024_scan(
                    nodes@,
                    self.siblings_only,
                    i as int,
                    seen@.map_values(|s: Seen| seen_view(s)),
                ) == md024_violations(nodes@, self.siblings_only),
            decreases nodes@.len() - i,
        {
            let node = &nodes[i];
            let ghost sv = seen@.map_values(|s: Seen| seen_view(s));
            let ghost before = out.deep_view();
            match &node.kind {
                NodeKind::Heading { level, .. } => {
                    let text = trim_chars(chars_of(node.text.as_str()).as_slice());
                    if text.len() != 0 {
                        let key = normalize_text(text.as_slice());
                        let f = lookup(&seen, key.as_slice(), *level, self.siblings_only);
                        if f < seen.len() {
                            let mut message = if self.siblings_only {
                                let mut m = String::from_str("Duplicate heading content at level ");
                                append_decimal(&mut m, *level as usize);
                                m.append(": '");
                                m
                            } else {
                                String::from_str("Duplicate heading content: '")
                            };
                            message.append(string_of(text.as_slice()).as_str());
                            message.append("' (first occurrence at line ");
                            append_decimal(&mut message, seen[f].line);
                            message.append(")");
                            let v = new_violation(
                                "MD024",
                                message,
                                node.start_line,
                                node.start_column,
                                Severity::Warning,
                                None,
                            );
                            out.push(v);
                            assert(out.deep_view() == before.push(v.deep_view()));
                        } else {
                            seen.push(Seen { key, level: *level, line: node.start_line });
                            assert(seen@.map_values(|s: Seen| seen_view(s)) =~= sv.push(
                                (key@, *level, node.start_line),
                            ));
                        }
                    }
                },
                _ => {},
            }
            i = i + 1;
        }
        out
    }
}

impl MD024 {
    /// The rule configured by a TOML table: `siblings_only`, or else
    /// `siblings-only`.
    pub fn from_config(config: &toml::Value) -> (r: Self)
        ensures
            r.siblings_only == match as_bool(toml_get(*config, "siblings_only"@)) {
                Some(b) => b,
                None => match as_bool(toml_get(*config, "siblings-only"@)) {
                    Some(b) => b,
                    None => false,
                },
            },
    {
        let mut rule = MD024::new();
        match entry_bool(&config_entry(config, "siblings_only")) {
            Some(b) => {
                rule.siblings_only = b;
            },
            None => {
                match entry_bool(&config_entry(config, "siblings-only")) {
                    Some(b) => {
                        rule.siblings_only = b;
                    },
                    None => {},
                }
            },
        }
        rule
    }
}

impl Default for MD024 {
    fn default() -> (r: Self)
        ensures
            !r.siblings_only,
    {
        MD024::new()
    }
}

} // verus!
