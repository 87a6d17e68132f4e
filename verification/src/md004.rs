//! MD004: one bullet marker for unordered lists throughout a document.
use vstd::prelude::*;
use crate::config::{as_str, config_entry, entry_str, toml_get};
use vstd::string::StringExecFns;
use crate::document::{Document, MdNode, NodeKind};
use crate::nodes::{find_subtree_end, is_child, subtree_end};
use crate::text::{byte_len, byte_len_prefix, is_ws, skip_ws, skip_ws_from, string_of};
use crate::violation::{
    fix_model, new_fix, new_violation, violation_model, FixModel, Severity, Violation,
    ViolationModel,
};

verus! {

/// A bullet marker.
#[derive(Debug, Clone, Copy, PartialEq, Eq, Structural)]
pub enum ListStyle {
    /// `*`.
    Asterisk,
    /// `+`.
    Plus,
    /// `-`.
    Dash,
}

/// Which bullet marker lists should use.
#[derive(Debug, Clone, Copy, PartialEq, Eq, Structural)]
pub enum ListStyleConfig {
    /// Whichever the document uses first.
    Consistent,
    /// `*`.
    Asterisk,
    /// `+`.
    Plus,
    /// `-`.
    Dash,
}

/// The marker of a character, if it is one.
pub open spec fn style_from_char(c: char) -> Option<ListStyle> {
    if c == '*' {
        Some(ListStyle::Asterisk)
    } else if c == '+' {
        Some(ListStyle::Plus)
    } else if c == '-' {
        Some(ListStyle::Dash)
    } else {
        None
    }
}

/// The character of a marker.
pub open spec fn style_char(s: ListStyle) -> char {
    match s {
        ListStyle::Asterisk => '*',
        ListStyle::Plus => '+',
        ListStyle::Dash => '-',
    }
}

impl ListStyle {
    /// The marker of a character, if it is one.
    pub fn from_char(c: char) -> (r: Option<Self>)
        ensures
            r == style_from_char(c),
    {
        match c {
            '*' => Some(ListStyle::Asterisk),
            '+' => Some(ListStyle::Plus),
            '-' => Some(ListStyle::Dash),
            _ => None,
        }
    }

    /// The character of the marker.
    pub fn to_char(self) -> (c: char)
        ensures
            c == style_char(self),
    {
        match self {
            ListStyle::Asterisk => '*',
            ListStyle::Plus => '+',
            ListStyle::Dash => '-',
        }
    }
}

/// Rule that flags list items whose bullet differs from the expected one.
pub struct MD004 {
    /// The configured marker.
    pub style: ListStyleConfig,
}

/// The marker a configuration asks for.
pub open spec fn configured_style(c: ListStyleConfig) -> Option<ListStyle> {
    match c {
        ListStyleConfig::Consistent => None,
        ListStyleConfig::Asterisk => Some(ListStyle::Asterisk),
        ListStyleConfig::Plus => Some(ListStyle::Plus),
        ListStyleConfig::Dash => Some(ListStyle::Dash),
    }
}

/// The marker of line `ln` (1-based): its first non-whitespace character,
/// when that is a marker.
pub open spec fn marker_of_line(lines: Seq<Seq<char>>, ln: usize) -> Option<ListStyle> {
    if ln == 0 || ln > lines.len() {
        None
    } else {
        let l = lines[ln - 1];
        let a = skip_ws_from(l, 0);
        if a < l.len() { style_from_char(l[a]) } else { None }
    }
}

/// `s` with every `from` replaced by `to`.
pub open spec fn replace_char(s: Seq<char>, from: char, to: char) -> Seq<char> {
    s.map_values(|c: char| if c == from { to } else { c })
}

/// The fix that changes the marker of line `ln` from `current` to `expected`:
/// every `current` character of the line is replaced.
pub open spec fn marker_fix(lines: Seq<Seq<char>>, ln: usize, current: ListStyle, expected: ListStyle) -> FixModel {
    if ln == 0 || ln > lines.len() || !lines[ln - 1].contains(style_char(current)) {
        fix_model("Replace list marker"@, None, ln, 1, ln, 1)
    } else {
        fix_model(
            "Replace '"@ + seq![style_char(current)] + "' with '"@ + seq![style_char(expected)] + "'"@,
            Some(replace_char(lines[ln - 1], style_char(current), style_char(expected))),
            ln,
            1,
            ln,
            (byte_len(lines[ln - 1]) + 1) as usize,
        )
    }
}

/// The violations for the items among nodes `j..` that are children of list
/// node `i`, and the marker in force afterwards.
pub open spec fn md004_items(
    lines: Seq<Seq<char>>,
    nodes: Seq<MdNode>,
    i: int,
    j: int,
    expected: Option<ListStyle>,
) -> (Seq<ViolationModel>, Option<ListStyle>)
    decreases nodes.len() - j,
{
    if j < 0 || j >= nodes.len() || j >= subtree_end(nodes, i) {
        (seq![], expected)
    } else if is_child(nodes, i, j) && nodes[j].kind is Item && marker_of_line(
        lines,
        nodes[j].start_line,
    ) is Some {
        let d = marker_of_line(lines, nodes[j].start_line)->0;
        match expected {
            Some(e) => {
                let rest = md004_items(lines, nodes, i, j + 1, expected);
                if d != e {
                    (
                        seq![
                            violation_model(
                                "MD004"@,
                                "Inconsistent list style: expected '"@ + seq![style_char(e)]
                                    + "' but found '"@ + seq![style_char(d)] + "'"@,
                                nodes[j].start_line,
                                nodes[j].start_column,
                                Severity::Warning,
                                Some(marker_fix(lines, nodes[j].start_line, d, e)),
                            ),
                        ] + rest.0,
                        rest.1,
                    )
                } else {
                    rest
                }
            },
            None => md004_items(lines, nodes, i, j + 1, Some(d)),
        }
    } else {
        md004_items(lines, nodes, i, j + 1, expected)
    }
}

/// The violations for the bullet lists among nodes `i..`, with the marker in
/// force before them.
pub open spec fn md004_from(
    lines: Seq<Seq<char>>,
    nodes: Seq<MdNode>,
    i: int,
    expected: Option<ListStyle>,
) -> Seq<ViolationModel>
    decreases nodes.len() - i,
{
    if i < 0 || i >= nodes.len() {
        seq![]
    } else if nodes[i].kind matches NodeKind::List { ordered, .. } && !ordered {
        let r = md004_items(lines, nodes, i, i + 1, expected);
        r.0 + md004_from(lines, nodes, i + 1, r.1)
    } else {
        md004_from(lines, nodes, i + 1, expected)
    }
}

/// The violations MD004 reports.
pub open spec fn md004_violations(lines: Seq<Seq<char>>, nodes: Seq<MdNode>, style: ListStyleConfig) -> Seq<
    ViolationModel,
> {
    md004_from(lines, nodes, 0, configured_style(style))
}

proof fn lemma_skip_ws_replaced(l: Seq<char>, from: char, to: char, i: int)
    requires
        0 <= i <= l.len(),
        !is_ws(from),
        !is_ws(to),
    ensures
        skip_ws_from(replace_char(l, from, to), i) == skip_ws_from(l, i),
    decreases l.len() - i,
{
    let r = replace_char(l, from, to);
    if i < l.len() {
        assert(r[i] == (if l[i] == from { to } else { l[i] }));
        if is_ws(l[i]) {
            lemma_skip_ws_replaced(l, from, to, i + 1);
        }
    }
}

/// Law: the line MD004's fix writes for a list item starts with the
/// expected marker.
pub proof fn md004_fix_sets_marker(lines: Seq<Seq<char>>, ln: usize, current: ListStyle, expected: ListStyle)
    requires
        marker_of_line(lines, ln) == Some(current),
    ensures
        marker_fix(lines, ln, current, expected).replacement matches Some(r) && marker_of_line(seq![r], 1)
            == Some(expected),
{
    let l = lines[ln - 1];
    let a = skip_ws_from(l, 0);
    lemma_skip_ws_from_bounds(l, 0);
    assert(l[a] == style_char(current));
    assert(l.contains(style_char(current)));
    let r = replace_char(l, style_char(current), style_char(expected));
    lemma_skip_ws_replaced(l, style_char(current), style_char(expected), 0);
    assert(r[a] == style_char(expected));
    assert(seq![r][0] == r);
}

proof fn lemma_skip_ws_from_bounds(s: Seq<char>, i: int)
    requires
        0 <= i <= s.len(),
    ensures
        i <= skip_ws_from(s, i) <= s.len(),
    decreases s.len() - i,
{
    if i < s.len() && is_ws(s[i]) {
        lemma_skip_ws_from_bounds(s, i + 1);
    }
}

/// Every list item of the nodes has marker `s` on its line, or no marker.
pub open spec fn markers_all(lines: Seq<Seq<char>>, nodes: Seq<MdNode>, s: ListStyle) -> bool {
    forall|k: int|
        0 <= k < nodes.len() && (#[trigger] nodes[k]).kind is Item ==> (marker_of_line(
            lines,
            nodes[k].start_line,
        ) is None || marker_of_line(lines, nodes[k].start_line) == Some(s))
}

proof fn lemma_uniform_items(
    lines: Seq<Seq<char>>,
    nodes: Seq<MdNode>,
    i: int,
    j: int,
    expected: Option<ListStyle>,
    s: ListStyle,
)
    requires
        0 <= j,
        markers_all(lines, nodes, s),
        expected is None || expected == Some(s),
    ensures
        md004_items(lines, nodes, i, j, expected).0 == Seq::<ViolationModel>::empty(),
        md004_items(lines, nodes, i, j, expected).1 is None || md004_items(lines, nodes, i, j, expected).1
            == Some(s),
    decreases nodes.len() - j,
{
    if j < nodes.len() && j < subtree_end(nodes, i) {
        if is_child(nodes, i, j) && nodes[j].kind is Item && marker_of_line(lines, nodes[j].start_line) is Some {
            assert(marker_of_line(lines, nodes[j].start_line) == Some(s));
            lemma_uniform_items(lines, nodes, i, j + 1, Some(s), s);
        } else {
            lemma_uniform_items(lines, nodes, i, j + 1, expected, s);
        }
    }
}

proof fn lemma_uniform_from(
    lines: Seq<Seq<char>>,
    nodes: Seq<MdNode>,
    i: int,
    expected: Option<ListStyle>,
    s: ListStyle,
)
    requires
        0 <= i,
        markers_all(lines, nodes, s),
        expected is None || expected == Some(s),
    ensures
        md004_from(lines, nodes, i, expected) == Seq::<ViolationModel>::empty(),
    decreases nodes.len() - i,
{
    if i < nodes.len() {
        if nodes[i].kind matches NodeKind::List { ordered, .. } && !ordered {
            lemma_uniform_items(lines, nodes, i, i + 1, expected, s);
            let r = md004_items(lines, nodes, i, i + 1, expected);
            lemma_uniform_from(lines, nodes, i + 1, r.1, s);
        } else {
            lemma_uniform_from(lines, nodes, i + 1, expected, s);
        }
    }
}

/// Law: a document whose list items all use one marker draws no report, in
/// the consistent mode or when that marker is the one configured.
pub proof fn md004_uniform_markers_pass(
    lines: Seq<Seq<char>>,
    nodes: Seq<MdNode>,
    style: ListStyleConfig,
    s: ListStyle,
)
    requires
        markers_all(lines, nodes, s),
        configured_style(style) is None || configured_style(style) == Some(s),
    ensures
        md004_violations(lines, nodes, style) == Seq::<ViolationModel>::empty(),
{
    lemma_uniform_from(lines, nodes, 0, configured_style(style), s);
}

impl MD004 {
    /// The rule that follows the first marker the document uses.
    pub fn new() -> (r: Self)
        ensures
            r.style == ListStyleConfig::Consistent,
    {
        MD004 { style: ListStyleConfig::Consistent }
    }

    /// The rule with a given marker.
    pub fn with_style(style: ListStyleConfig) -> (r: Self)
        ensures
            r.style == style,
    {
        MD004 { style }
    }

    /// The marker the configuration asks for.
    fn get_configured_style(&self) -> (r: Option<ListStyle>)
        ensures
            r == configured_style(self.style),
    {
        match self.style {
            ListStyleConfig::Consistent => None,
            ListStyleConfig::Asterisk => Some(ListStyle::Asterisk),
            ListStyleConfig::Plus => Some(ListStyle::Plus),
            ListStyleConfig::Dash => Some(ListStyle::Dash),
        }
    }

    /// The marker of line `line_number`.
    fn detect_list_marker_style(&self, document: &Document, line_number: usize) -> (r: Option<
        ListStyle,
    >)
        ensures
            r == marker_of_line(document.lines_of(), line_number),
    {
        if line_number == 0 || line_number > document.line_count() {
            return None;
        }
        let l = document.line(line_number - 1);
        let a = skip_ws(l, 0);
        if a < l.len() {
            ListStyle::from_char(l[a])
        } else {
            None
        }
    }

    /// The fix that changes the marker of a line.
    fn create_list_marker_fix(
        &self,
        document: &Document,
        line_number: usize,
        current_style: ListStyle,
        expected_style: ListStyle,
    ) -> (f: crate::violation::Fix)
        ensures
            f.deep_view() == marker_fix(document.lines_of(), line_number, current_style, expected_style),
    {
        let ghost lines = document.lines_of();
        if line_number == 0 || line_number > document.line_count() {
            return new_fix(String::from_str("Replace list marker"), None, line_number, 1, line_number, 1);
        }
        let l = document.line(line_number - 1);
        let cc = current_style.to_char();
        let ec = expected_style.to_char();
        let mut rep: Vec<char> = Vec::new();
        let mut found = false;
        let mut k: usize = 0;
        while k < l.len()
            invariant
                k <= l@.len(),
                rep@ == replace_char(l@.take(k as int), cc, ec),
                found == l@.take(k as int).contains(cc),
            decreases l@.len() - k,
        {
            let c = l[k];
            if c == cc {
                found = true;
                rep.push(ec);
            } else {
                rep.push(c);
            }
            assert(l@.take(k + 1) == l@.take(k as int).push(c));
            assert(rep@ =~= replace_char(l@.take(k + 1), cc, ec));
            assert(found == l@.take(k + 1).contains(cc)) by {
                if c == cc {
                    assert(l@.take(k + 1)[k as int] == cc);
                }
            }
            k = k + 1;
        }
        assert(l@.take(l@.len() as int) == l@);
        if !found {
            return new_fix(String::from_str("Replace list marker"), None, line_number, 1, line_number, 1);
        }
        let b = byte_len_prefix(l, l.len());
        let mut cv: Vec<char> = Vec::new();
        cv.push(cc);
        let mut ev: Vec<char> = Vec::new();
        ev.push(ec);
        let mut description = String::from_str("Replace '");
        description.append(string_of(cv.as_slice()).as_str());
        description.append("' with '");
        description.append(string_of(ev.as_slice()).as_str());
        description.append("'");
        new_fix(description, Some(string_of(rep.as_slice())), line_number, 1, line_number, b + 1)
    }

    /// The violations for the items of list node `i`, and the marker in force
    /// afterwards.
    fn check_list_items(
        &self,
        document: &Document,
        nodes: &Vec<MdNode>,
        i: usize,
        expected_style: Option<ListStyle>,
    ) -> (r: (Vec<Violation>, Option<ListStyle>))
        requires
            i < nodes@.len(),
            nodes@ == document.nodes_of(),
        ensures
            r.0.deep_view() == md004_items(document.lines_of(), nodes@, i as int, i + 1, expected_style).0,
            r.1 == md004_items(document.lines_of(), nodes@, i as int, i + 1, expected_style).1,
    {
        let ghost lines = document.lines_of();
        let e = find_subtree_end(nodes, i);
        let d = nodes[i].depth;
        let mut expected = expected_style;
        let mut out: Vec<Violation> = Vec::new();
        let mut j = i + 1;
        while j < e
            invariant
                nodes@ == document.nodes_of(),
                lines == document.lines_of(),
                i < j <= e <= nodes@.len(),
                e as int == subtree_end(nodes@, i as int),
                d == nodes@[i as int].depth,
                out.deep_view() + md004_items(lines, nodes@, i as int, j as int, expected).0
                    == md004_items(lines, nodes@, i as int, i + 1, expected_style).0,
                md004_items(lines, nodes@, i as int, j as int, expected).1 == md004_items(
                    lines,
                    nodes@,
                    i as int,
                    i + 1,
                    expected_style,
                ).1,
            decreases e - j,
        {
            let child = &nodes[j];
            let is_item = match &child.kind {
                NodeKind::Item => true,
                _ => false,
            };
            if d < usize::MAX && child.depth == d + 1 && is_item {
                match self.detect_list_marker_style(document, child.start_line) {
                    Some(detected) => {
                        match expected {
                            Some(x) => {
                                if detected != x {
                                    let fix = self.create_list_marker_fix(
                                        document,
                                        child.start_line,
                                        detected,
                                        x,
                                    );
                                    let mut message = String::from_str(
                                        "Inconsistent list style: expected '",
                                    );
                                    let mut xv: Vec<char> = Vec::new();
                                    xv.push(x.to_char());
                                    let mut dv: Vec<char> = Vec::new();
                                    dv.push(detected.to_char());
                                    message.append(string_of(xv.as_slice()).as_str());
                                    message.append("' but found '");
                                    message.append(string_of(dv.as_slice()).as_str());
                                    message.append("'");
                                    let v = new_violation(
                                        "MD004",
                                        message,
                                        child.start_line,
                                        child.start_column,
                                        Severity::Warning,
                                        Some(fix),
                                    );
                                    let ghost before = out.deep_view();
                                    out.push(v);
                                    assert(out.deep_view() == before.push(v.deep_view()));
                                }
                            },
                            None => {
                                expected = Some(detected);
                            },
                        }
                    },
                    None => {},
                }
            }
            j = j + 1;
        }
        (out, expected)
    }

    /// The rule's identifier.
    pub fn id(&self) -> (r: &'static str)
        ensures
            r@ == "MD004"@,
    {
        "MD004"
    }

    /// The rule's name.
    pub fn name(&self) -> (r: &'static str)
        ensures
            r@ == "ul-style"@,
    {
        "ul-style"
    }

    /// What the rule checks.
    pub fn description(&self) -> (r: &'static str)
        ensures
            r@ == "Unordered list style"@,
    {
        "Unordered list style"
    }

    /// Checks a document: the items of each bullet list, lists in document
    /// order.
    pub fn check(&self, document: &Document) -> (r: Vec<Violation>)
        ensures
            r.deep_view() == md004_violations(document.lines_of(), document.nodes_of(), self.style),
    {
        let ghost lines = document.lines_of();
        let nodes = document.nodes();
        let mut expected = self.get_configured_style();
        let mut out: Vec<Violation> = Vec::new();
        let mut i: usize = 0;
        while i < nodes.len()
            invariant
                nodes@ == document.nodes_of(),
                lines == document.lines_of(),
                i <= nodes@.len(),
                out.deep_view() + md004_from(lines, nodes@, i as int, expected) == md004_violations(
                    lines,
                    nodes@,
                    self.style,
                ),
            decreases nodes@.len() - i,
        {
            let bullet = match &nodes[i].kind {
                NodeKind::List { ordered, .. } => !*ordered,
                _ => false,
            };
            if bullet {
                let (v, st) = self.check_list_items(document, nodes, i, expected);
                crate::lines::push_vec(&mut out, v);
                expected = st;
            }
            i = i + 1;
        }
        out
    }
}

impl MD004 {
    /// The rule configured by a TOML table: `style`, one of `asterisk`,
    /// `plus` and `dash`, anything else meaning consistent.
    pub fn from_config(config: &toml::Value) -> (r: Self)
        ensures
            r.style == match as_str(toml_get(*config, "style"@)) {
                Some(s) => if s == "asterisk"@ {
                    ListStyleConfig::Asterisk
                } else if s == "plus"@ {
                    ListStyleConfig::Plus
                } else if s == "dash"@ {
                    ListStyleConfig::Dash
                } else {
                    ListStyleConfig::Consistent
                },
                None => ListStyleConfig::Consistent,
            },
    {
        let mut rule = MD004::new();
        match entry_str(config_entry(config, "style")) {
            Some(s) => {
                let c = crate::text::chars_of(s.as_str());
                rule.style = if crate::text::equals_lit(c.as_slice(), "asterisk") {
                    ListStyleConfig::Asterisk
                } else if crate::text::equals_lit(c.as_slice(), "plus") {
                    ListStyleConfig::Plus
                } else if crate::text::equals_lit(c.as_slice(), "dash") {
                    ListStyleConfig::Dash
                } else {
                    ListStyleConfig::Consistent
                };
            },
            None => {},
        }
        rule
    }
}

impl Default for MD004 {
    fn default() -> (r: Self)
        ensures
            r.style == ListStyleConfig::Consistent,
    {
        MD004::new()
    }
}

} // verus!
