//! MD002: the first heading should be a top-level heading.
use vstd::prelude::*;
use crate::config::{as_int, as_str, config_entry, entry_int, toml_get};
use vstd::string::StringExecFns;
use crate::document::{Document, MdNode, NodeKind};
use crate::text::{
    byte_len, byte_len_prefix, chars_of, decimal, push_all, run_fwd, scan_fwd, skip_ws,
    skip_ws_from, slice_chars, string_of, trim_chars, trimmed, CharClass,
};
use crate::violation::{
    append_decimal, fix_model, new_fix, new_violation, violation_model, Severity, Violation,
    ViolationModel,
};

verus! {

/// Rule that checks the level of the first heading.
pub struct MD002 {
    /// The level the first heading should have.
    pub level: u32,
}

/// Index of the first heading node at or after `i`, or `nodes.len()`.
pub open spec fn first_heading_from(nodes: Seq<MdNode>, i: int) -> int
    decreases nodes.len() - i,
{
    if i < 0 || i >= nodes.len() {
        nodes.len() as int
    } else if nodes[i].kind is Heading {
        i
    } else {
        first_heading_from(nodes, i + 1)
    }
}

/// `n` hashes.
pub open spec fn hashes(n: nat) -> Seq<char> {
    Seq::new(n, |k: int| '#')
}

/// The line that replaces a heading line: an ATX line gets `level` hashes in
/// place of its own, any other line becomes an ATX heading of the text.
pub open spec fn md002_fixed(line: Seq<char>, text: Seq<char>, level: nat) -> Seq<char> {
    let st = skip_ws_from(line, 0);
    if st < line.len() && line[st] == '#' {
        let c = run_fwd(line, st, CharClass::Exactly('#'));
        hashes(level) + line.subrange(c, line.len() as int) + seq!['\n']
    } else {
        hashes(level) + seq![' '] + trimmed(text) + seq!['\n']
    }
}

/// The violations MD002 reports.
pub open spec fn md002_violations(lines: Seq<Seq<char>>, nodes: Seq<MdNode>, level: u32) -> Seq<ViolationModel> {
    let f = first_heading_from(nodes, 0);
    if f >= nodes.len() {
        seq![]
    } else {
        let node = nodes[f];
        let got = match node.kind {
            NodeKind::Heading { level: l, .. } => l as nat,
            _ => 0,
        };
        let ln = node.start_line as int;
        if got == level || !(1 <= ln <= lines.len()) {
            seq![]
        } else {
            let line = lines[ln - 1];
            seq![
                violation_model(
                    "MD002"@,
                    "First heading should be level "@ + decimal(level as nat) + " but got level "@
                        + decimal(got) + (if node.text@.len() == 0 {
                        seq![]
                    } else {
                        ": "@ + trimmed(node.text@)
                    }),
                    node.start_line,
                    node.start_column,
                    Severity::Warning,
                    Some(
                        fix_model(
                            "Change first heading level from "@ + decimal(got) + " to "@ + decimal(
                                level as nat,
                            ),
                            Some(md002_fixed(line, node.text@, level as nat)),
                            node.start_line,
                            1,
                            node.start_line,
                            (byte_len(line) + 1) as usize,
                        ),
                    ),
                ),
            ]
        }
    }
}

/// Index of the first heading node, or `nodes.len()`.
pub fn find_first_heading(nodes: &Vec<MdNode>) -> (f: usize)
    ensures
        f as int == first_heading_from(nodes@, 0),
        f <= nodes@.len(),
{
    let mut f: usize = 0;
    while f < nodes.len()
        invariant
            f <= nodes@.len(),
            first_heading_from(nodes@, 0) == first_heading_from(nodes@, f as int),
        decreases nodes@.len() - f,
    {
        let is_heading = match &nodes[f].kind {
            NodeKind::Heading { .. } => true,
            _ => false,
        };
        if is_heading {
            return f;
        }
        f = f + 1;
    }
    f
}

fn push_hashes(out: &mut Vec<char>, n: u32)
    ensures
        final(out)@ == old(out)@ + hashes(n as nat),
{
    let ghost start = out@;
    let mut k: u32 = 0;
    while k < n
        invariant
            k <= n,
            out@ == start + hashes(k as nat),
        decreases n - k,
    {
        out.push('#');
        assert(start + hashes((k + 1) as nat) =~= (start + hashes(k as nat)).push('#'));
        k = k + 1;
    }
}

fn fixed_line(line: &[char], text: &[char], level: u32) -> (r: Vec<char>)
    ensures
        r@ == md002_fixed(line@, text@, level as nat),
{
    let st = skip_ws(line, 0);
    let mut out: Vec<char> = Vec::new();
    push_hashes(&mut out, level);
    if st < line.len() && line[st] == '#' {
        let c = scan_fwd(line, st, CharClass::Exactly('#'));
        push_all(&mut out, slice_chars(line, c, line.len()).as_slice());
    } else {
        out.push(' ');
        push_all(&mut out, trim_chars(text).as_slice());
    }
    out.push('\n');
    out
}

impl MD002 {
    /// The rule expecting a level-1 first heading.
    pub fn new() -> (r: Self)
        ensures
            r.level == 1,
    {
        MD002 { level: 1 }
    }

    /// The rule expecting a custom level.
    pub fn with_level(level: u32) -> (r: Self)
        ensures
            r.level == level,
    {
        MD002 { level }
    }

    /// The rule's identifier.
    pub fn id(&self) -> (r: &'static str)
        ensures
            r@ == "MD002"@,
    {
        "MD002"
    }

    /// The rule's name.
    pub fn name(&self) -> (r: &'static str)
        ensures
            r@ == "first-heading-h1"@,
    {
        "first-heading-h1"
    }

    /// What the rule checks.
    pub fn description(&self) -> (r: &'static str)
        ensures
            r@ == "First heading should be a top-level heading"@,
    {
        "First heading should be a top-level heading"
    }

    /// Whether the rule suggests fixes.
    pub fn can_fix(&self) -> (b: bool)
        ensures
            b,
    {
        true
    }

    /// Checks a document.
    pub fn check(&self, document: &Document) -> (r: Vec<Violation>)
        ensures
            r.deep_view() == md002_violations(document.lines_of(), document.nodes_of(), self.level),
    {
        let nodes = document.nodes();
        let mut out: Vec<Violation> = Vec::new();
        let f = find_first_heading(nodes);
        if f >= nodes.len() {
            return out;
        }
        let node = &nodes[f];
        let got: u32 = match &node.kind {
            NodeKind::Heading { level, .. } => *level as u32,
            _ => 0,
        };
        let ln = node.start_line;
        if got == self.level || !(1 <= ln && ln <= document.line_count()) {
            return out;
        }
        let line = document.line(ln - 1);
        let text = chars_of(node.text.as_str());
        let mut message = String::from_str("First heading should be level ");
        append_decimal(&mut message, self.level as usize);
        message.append(" but got level ");
        append_decimal(&mut message, got as usize);
        if text.len() != 0 {
            message.append(": ");
            message.append(string_of(trim_chars(text.as_slice()).as_slice()).as_str());
        }
        let mut description = String::from_str("Change first heading level from ");
        append_decimal(&mut description, got as usize);
        description.append(" to ");
        append_decimal(&mut description, self.level as usize);
        let total = byte_len_prefix(line, line.len());
        proof {
            assert(line@.take(line@.len() as int) == line@);
        }
        let fixed = fixed_line(line, text.as_slice(), self.level);
        let fix = new_fix(description, Some(string_of(fixed.as_slice())), ln, 1, ln, total + 1);
        let v = new_violation("MD002", message, ln, node.start_column, Severity::Warning, Some(fix));
        proof {
            let ghost sv = md002_violations(document.lines_of(), document.nodes_of(), self.level);
            assert(nodes@[f as int] == *node);
            assert(got as nat == match node.kind { NodeKind::Heading { level: l, .. } => l as nat, _ => 0 });
            assert(sv.len() == 1);
            assert(sv[0].message == v.deep_view().message);
            assert(sv[0].fix == v.deep_view().fix);
            assert(sv[0] == v.deep_view());
        }
        out.push(v);
        assert(out.deep_view() =~= seq![v.deep_view()]);
        out
    }
}

impl MD002 {
    /// The rule configured by a TOML table: `level`.
    pub fn from_config(config: &toml::Value) -> (r: Self)
        ensures
            r.level == match as_int(toml_get(*config, "level"@)) {
                Some(i) => i as u32,
                None => 1u32,
            },
    {
        let mut rule = MD002::new();
        let e = config_entry(config, "level");
        match entry_int(&e) {
            Some(level) => {
                rule.level = level as u32;
            },
            None => {},
        }
        rule
    }
}

impl Default for MD002 {
    fn default() -> (r: Self)
        ensures
            r.level == 1,
    {
        MD002::new()
    }
}

} // verus!
