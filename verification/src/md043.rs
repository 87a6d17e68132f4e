//! MD043: a required sequence of headings.
use vstd::prelude::*;
use crate::config::{as_str_array, config_entry, entry_strings, toml_get};
use vstd::string::StringExecFns;
use crate::document::{Document, MdNode, NodeKind};
use crate::nodes::{find_subtree_end, subtree_end};
use crate::text::{
    chars_of, decimal, lowercase, push_all, same_chars, string_of, to_lowercase, trim_chars,
    trimmed,
};
use crate::violation::{
    append_decimal, new_violation, violation_model, Severity, Violation, ViolationModel,
};

verus! {

/// Rule that checks the document's headings against required texts.
pub struct MD043 {
    /// The texts the first headings should have, in order.
    pub headings: Vec<String>,
}

/// The literal a node contributes to a heading's text: that of a text or a
/// code span node.
pub open spec fn node_literal(n: MdNode) -> Seq<char> {
    match n.kind {
        NodeKind::Text { literal } => literal@,
        NodeKind::Code { literal } => literal@,
        _ => seq![],
    }
}

/// The literals of nodes `j..e`, in order.
pub open spec fn literals_between(nodes: Seq<MdNode>, j: int, e: int) -> Seq<char>
    decreases e - j,
{
    if j >= e {
        seq![]
    } else {
        literals_between(nodes, j, e - 1) + node_literal(nodes[e - 1])
    }
}

/// The text of node `i`: the literals of the text and code nodes below it.
pub open spec fn heading_text_of(nodes: Seq<MdNode>, i: int) -> Seq<char> {
    literals_between(nodes, i + 1, subtree_end(nodes, i))
}

/// The headings of nodes `i..`, as line and text.
pub open spec fn headings_from(nodes: Seq<MdNode>, i: int) -> Seq<(usize, Seq<char>)>
    decreases nodes.len() - i,
{
    if i < 0 || i >= nodes.len() {
        seq![]
    } else if nodes[i].kind is Heading {
        seq![(nodes[i].start_line, heading_text_of(nodes, i))] + headings_from(nodes, i + 1)
    } else {
        headings_from(nodes, i + 1)
    }
}

/// A heading text matches a required text: equal once trimmed and lowercased.
pub open spec fn heading_matches(text: Seq<char>, pattern: Seq<char>) -> bool {
    lowercase(trimmed(text)) == lowercase(trimmed(pattern))
}

/// The violations for required headings `k..`, against the document's headings.
pub open spec fn md043_from(required: Seq<Seq<char>>, found: Seq<(usize, Seq<char>)>, k: int) -> Seq<
    ViolationModel,
>
    decreases required.len() - k,
{
    if k < 0 || k >= required.len() {
        seq![]
    } else {
        (if k < found.len() && !heading_matches(found[k].1, required[k]) {
            seq![
                violation_model(
                    "MD043"@,
                    "Expected heading '"@ + required[k] + "' but found '"@ + found[k].1 + "'"@,
                    found[k].0,
                    1,
                    Severity::Warning,
                    None,
                ),
            ]
        } else {
            seq![]
        }) + md043_from(required, found, k + 1)
    }
}

/// The violations MD043 reports: none without requirements; one when the
/// document has fewer headings than required; else one per mismatch.
pub open spec fn md043_violations(required: Seq<Seq<char>>, nodes: Seq<MdNode>) -> Seq<ViolationModel> {
    let found = headings_from(nodes, 0);
    if required.len() == 0 {
        seq![]
    } else if found.len() < required.len() {
        seq![
            violation_model(
                "MD043"@,
                "Document should have at least "@ + decimal(required.len()) + " headings but found "@
                    + decimal(found.len()),
                1,
                1,
                Severity::Warning,
                None,
            ),
        ]
    } else {
        md043_from(required, found, 0)
    }
}

/// The views of a list of strings.
pub open spec fn string_views(v: Seq<String>) -> Seq<Seq<char>> {
    v.map_values(|s: String| s@)
}

proof fn lemma_matching_from(required: Seq<Seq<char>>, found: Seq<(usize, Seq<char>)>, k: int)
    requires
        0 <= k,
        found.len() >= required.len(),
        forall|m: int| 0 <= m < required.len() ==> heading_matches(#[trigger] found[m].1, required[m]),
    ensures
        md043_from(required, found, k) == Seq::<ViolationModel>::empty(),
    decreases required.len() - k,
{
    if k < required.len() {
        assert(heading_matches(found[k].1, required[k]));
        lemma_matching_from(required, found, k + 1);
    }
}

/// Law: a document whose first headings match the required texts one by
/// one (trimmed, ignoring case) draws no report; nor does any document when
/// nothing is required.
pub proof fn md043_matching_headings_pass(required: Seq<Seq<char>>, nodes: Seq<MdNode>)
    requires
        headings_from(nodes, 0).len() >= required.len(),
        forall|m: int|
            0 <= m < required.len() ==> heading_matches(#[trigger] headings_from(nodes, 0)[m].1, required[m]),
    ensures
        md043_violations(required, nodes) == Seq::<ViolationModel>::empty(),
{
    lemma_matching_from(required, headings_from(nodes, 0), 0);
}

impl MD043 {
    /// The rule without requirements.
    pub fn new() -> (r: Self)
        ensures
            r.headings@.len() == 0,
    {
        MD043 { headings: Vec::new() }
    }

    /// The rule with required heading texts.
    pub fn with_headings(headings: Vec<String>) -> (r: Self)
        ensures
            r.headings@ == headings@,
    {
        MD043 { headings }
    }

    /// The text of heading node `i`.
    fn extract_heading_text(&self, nodes: &Vec<MdNode>, i: usize) -> (r: Vec<char>)
        requires
            i < nodes@.len(),
        ensures
            r@ == heading_text_of(nodes@, i as int),
    {
        let e = find_subtree_end(nodes, i);
        let mut r: Vec<char> = Vec::new();
        let mut j = i + 1;
        while j < e
            invariant
                i < j <= e <= nodes@.len(),
                e as int == subtree_end(nodes@, i as int),
                r@ == literals_between(nodes@, i + 1, j as int),
            decreases e - j,
        {
            match &nodes[j].kind {
                NodeKind::Text { literal } => {
                    let c = chars_of(literal.as_str());
                    push_all(&mut r, c.as_slice());
                },
                NodeKind::Code { literal } => {
                    let c = chars_of(literal.as_str());
                    push_all(&mut r, c.as_slice());
                },
                _ => {},
            }
            assert(r@ =~= literals_between(nodes@, i + 1, j + 1));
            j = j + 1;
        }
        r
    }

    /// Whether a heading text matches a required text.
    fn matches_pattern(&self, heading_text: &[char], pattern: &str) -> (b: bool)
        ensures
            b == heading_matches(heading_text@, pattern@),
    {
        let a = string_of(trim_chars(heading_text).as_slice());
        let b = string_of(trim_chars(chars_of(pattern).as_slice()).as_slice());
        let la = chars_of(to_lowercase(a.as_str()).as_str());
        let lb = chars_of(to_lowercase(b.as_str()).as_str());
        same_chars(la.as_slice(), lb.as_slice())
    }

    /// The rule's identifier.
    pub fn id(&self) -> (r: &'static str)
        ensures
            r@ == "MD043"@,
    {
        "MD043"
    }

    /// The rule's name.
    pub fn name(&self) -> (r: &'static str)
        ensures
            r@ == "required-headings"@,
    {
        "required-headings"
    }

    /// What the rule checks.
    pub fn description(&self) -> (r: &'static str)
        ensures
            r@ == "Required heading structure"@,
    {
        "Required heading structure"
    }

    /// Checks a document.
    pub fn check(&self, document: &Document) -> (r: Vec<Violation>)
        ensures
            r.deep_view() == md043_violations(string_views(self.headings@), document.nodes_of()),
    {
        let ghost required = string_views(self.headings@);
        let nodes = document.nodes();
        let mut out: Vec<Violation> = Vec::new();
        if self.headings.len() == 0 {
            return out;
        }
        let mut lines_found: Vec<usize> = Vec::new();
        let mut texts: Vec<Vec<char>> = Vec::new();
        let ghost mut found: Seq<(usize, Seq<char>)> = seq![];
        let mut i: usize = 0;
        while i < nodes.len()
            invariant
                nodes@ == document.nodes_of(),
                i <= nodes@.len(),
                lines_found@.len() == found.len(),
                texts@.len() == found.len(),
                forall|k: int| 0 <= k < found.len() ==> #[trigger] found[k] == (lines_found@[k], texts@[k]@),
                found + headings_from(nodes@, i as int) == headings_from(nodes@, 0),
            decreases nodes@.len() - i,
        {
            let is_heading = match &nodes[i].kind {
                NodeKind::Heading { .. } => true,
                _ => false,
            };
            if is_heading {
                let t = self.extract_heading_text(nodes, i);
                proof {
                    found = found.push((nodes@[i as int].start_line, t@));
                }
                lines_found.push(nodes[i].start_line);
                texts.push(t);
            }
            i = i + 1;
        }
        assert(found == headings_from(nodes@, 0));
        let n_req = self.headings.len();
        if texts.len() < n_req {
            let mut message = String::from_str("Document should have at least ");
            append_decimal(&mut message, n_req);
            message.append(" headings but found ");
            append_decimal(&mut message, texts.len());
            let v = new_violation("MD043", message, 1, 1, Severity::Warning, None);
            out.push(v);
            assert(out.deep_view() =~= seq![v.deep_view()]);
            return out;
        }
        let mut k: usize = 0;
        while k < n_req
            invariant
                n_req == self.headings@.len(),
                required == string_views(self.headings@),
                texts@.len() >= n_req,
                lines_found@.len() == found.len(),
                texts@.len() == found.len(),
                forall|m: int| 0 <= m < found.len() ==> #[trigger] found[m] == (lines_found@[m], texts@[m]@),
                found == headings_from(nodes@, 0),
                k <= n_req,
                out.deep_view() + md043_from(required, found, k as int) == md043_from(required, found, 0),
            decreases n_req - k,
        {
            let req = &self.headings[k];
            if !self.matches_pattern(texts[k].as_slice(), req.as_str()) {
                let mut message = String::from_str("Expected heading '");
                message.append(req.as_str());
                message.append("' but found '");
                message.append(string_of(texts[k].as_slice()).as_str());
                message.append("'");
                let v = new_violation("MD043", message, lines_found[k], 1, Severity::Warning, None);
                let ghost before = out.deep_view();
                out.push(v);
                assert(out.deep_view() == before.push(v.deep_view()));
            }
            k = k + 1;
        }
        out
    }
}

impl MD043 {
    /// The rule configured by a TOML table: the strings of the array
    /// `headings`.
    pub fn from_config(config: &toml::Value) -> (r: Self)
        ensures
            string_views(r.headings@) == match as_str_array(toml_get(*config, "headings"@)) {
                Some(v) => v,
                None => Seq::<Seq<char>>::empty(),
            },
    {
        let mut rule = MD043::new();
        match entry_strings(config_entry(config, "headings")) {
            Some(v) => {
                rule.headings = v;
            },
            None => {},
        }
        assert(string_views(rule.headings@) =~= match as_str_array(toml_get(*config, "headings"@)) {
            Some(v) => v,
            None => Seq::<Seq<char>>::empty(),
        });
        rule
    }
}

impl Default for MD043 {
    fn default() -> (r: Self)
        ensures
            r.headings@.len() == 0,
    {
        MD043::new()
    }
}

} // verus!
