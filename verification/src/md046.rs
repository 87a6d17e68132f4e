//! MD046: one code block style, fenced or indented, throughout a document.
use vstd::prelude::*;
use crate::config::{as_str, config_entry, entry_str, toml_get};
use crate::text::lowercase;
use vstd::string::StringExecFns;
use crate::document::{split_into_lines, split_lines, Document, MdNode, NodeKind};
use crate::text::{byte_len, byte_len_prefix, chars_of, push_all, string_of};
use crate::violation::{
    fix_model, new_fix, new_violation, violation_model, FixModel, Severity, Violation,
    ViolationModel,
};

verus! {

/// Which kind of code block a document should use.
#[derive(Debug, Clone, Copy, PartialEq, Eq, Structural)]
pub enum CodeBlockStyle {
    /// Code between fences.
    Fenced,
    /// Code indented by four spaces or a tab.
    Indented,
    /// Whichever the document uses first.
    Consistent,
}

/// Rule that flags code blocks of the other style.
pub struct MD046 {
    /// The preferred style.
    pub style: CodeBlockStyle,
}

/// The name of a style in messages.
pub open spec fn style_name(s: CodeBlockStyle) -> Seq<char> {
    match s {
        CodeBlockStyle::Fenced => "fenced"@,
        CodeBlockStyle::Indented => "indented"@,
        CodeBlockStyle::Consistent => "consistent"@,
    }
}

/// The name of a style in fix descriptions.
pub open spec fn fix_style_name(s: CodeBlockStyle) -> Seq<char> {
    match s {
        CodeBlockStyle::Fenced => "fenced"@,
        CodeBlockStyle::Indented => "indented"@,
        CodeBlockStyle::Consistent => "unknown"@,
    }
}

/// Each of `ls` indented by four spaces and ended by a line feed.
pub open spec fn indent_lines(ls: Seq<Seq<char>>) -> Seq<char>
    decreases ls.len(),
{
    if ls.len() == 0 {
        seq![]
    } else {
        indent_lines(ls.drop_last()) + "    "@ + ls.last() + seq!['\n']
    }
}

/// The text that replaces a code block with content `content` and info
/// string `info` when it is converted from style `from` to style `to`.
pub open spec fn converted_block(
    info: Seq<char>,
    content: Seq<char>,
    from: CodeBlockStyle,
    to: CodeBlockStyle,
) -> Option<Seq<char>> {
    if from == CodeBlockStyle::Indented && to == CodeBlockStyle::Fenced {
        Some(
            "```"@ + info + seq!['\n'] + content + (if content.len() > 0 && content.last() == '\n' {
                seq![]
            } else {
                seq!['\n']
            }) + "```\n"@,
        )
    } else if from == CodeBlockStyle::Fenced && to == CodeBlockStyle::Indented {
        Some(indent_lines(split_lines(content)))
    } else {
        None
    }
}

/// The column just past line `end` (1-based) of `lines`, or 1 when there is
/// no such line.
pub open spec fn end_column(lines: Seq<Seq<char>>, end: usize) -> usize {
    if 1 <= end <= lines.len() {
        (byte_len(lines[end - 1]) + 1) as usize
    } else {
        1
    }
}

/// The fix that converts code block `node` from style `from` to style `to`.
pub open spec fn md046_fix(
    lines: Seq<Seq<char>>,
    node: MdNode,
    from: CodeBlockStyle,
    to: CodeBlockStyle,
) -> Option<FixModel> {
    match node.kind {
        NodeKind::CodeBlock { info, literal, .. } => match converted_block(info@, literal@, from, to) {
            Some(r) => Some(
                fix_model(
                    "Convert "@ + fix_style_name(from) + " code block to "@ + fix_style_name(to),
                    Some(r),
                    node.start_line,
                    1,
                    node.end_line,
                    end_column(lines, node.end_line),
                ),
            ),
            None => None,
        },
        _ => None,
    }
}

/// The violations on nodes `i..`, when `expected` is the style in force.
pub open spec fn md046_from(
    lines: Seq<Seq<char>>,
    nodes: Seq<MdNode>,
    i: int,
    expected: Option<CodeBlockStyle>,
    style: CodeBlockStyle,
) -> Seq<ViolationModel>
    decreases nodes.len() - i,
{
    if i < 0 || i >= nodes.len() {
        seq![]
    } else {
        match nodes[i].kind {
            NodeKind::CodeBlock { fenced, .. } => {
                let current = if fenced { CodeBlockStyle::Fenced } else { CodeBlockStyle::Indented };
                match expected {
                    Some(e) => (if e != current {
                        seq![
                            violation_model(
                                "MD046"@,
                                "Code block style inconsistent - expected "@ + style_name(e)
                                    + " but found "@ + style_name(current),
                                nodes[i].start_line,
                                nodes[i].start_column,
                                Severity::Warning,
                                md046_fix(lines, nodes[i], current, e),
                            ),
                        ]
                    } else {
                        seq![]
                    }) + md046_from(lines, nodes, i + 1, expected, style),
                    None => md046_from(
                        lines,
                        nodes,
                        i + 1,
                        Some(
                            match style {
                                CodeBlockStyle::Consistent => current,
                                _ => style,
                            },
                        ),
                        style,
                    ),
                }
            },
            _ => md046_from(lines, nodes, i + 1, expected, style),
        }
    }
}

/// The violations MD046 reports.
pub open spec fn md046_violations(lines: Seq<Seq<char>>, nodes: Seq<MdNode>, style: CodeBlockStyle) -> Seq<
    ViolationModel,
> {
    md046_from(
        lines,
        nodes,
        0,
        match style {
            CodeBlockStyle::Consistent => None,
            _ => Some(style),
        },
        style,
    )
}

/// The style of a code block node: fenced or indented; `None` for another node.
pub open spec fn block_style_of(node: MdNode) -> Option<CodeBlockStyle> {
    match node.kind {
        NodeKind::CodeBlock { fenced, .. } => Some(
            if fenced { CodeBlockStyle::Fenced } else { CodeBlockStyle::Indented },
        ),
        _ => None,
    }
}

/// The code blocks of nodes `i..` all have style `s`.
pub open spec fn blocks_all(nodes: Seq<MdNode>, i: int, s: CodeBlockStyle) -> bool {
    forall|k: int| i <= k < nodes.len() ==> (#[trigger] block_style_of(nodes[k]) is None
        || block_style_of(nodes[k]) == Some(s))
}

proof fn lemma_uniform_from(
    lines: Seq<Seq<char>>,
    nodes: Seq<MdNode>,
    i: int,
    expected: Option<CodeBlockStyle>,
    style: CodeBlockStyle,
    s: CodeBlockStyle,
)
    requires
        0 <= i,
        blocks_all(nodes, i, s),
        expected is None || expected == Some(s),
        style == CodeBlockStyle::Consistent || style == s,
    ensures
        md046_from(lines, nodes, i, expected, style) == Seq::<ViolationModel>::empty(),
    decreases nodes.len() - i,
{
    if i < nodes.len() {
        assert(block_style_of(nodes[i]) is None || block_style_of(nodes[i]) == Some(s));
        match nodes[i].kind {
            NodeKind::CodeBlock { .. } => {
                lemma_uniform_from(lines, nodes, i + 1, Some(s), style, s);
            },
            _ => {
                lemma_uniform_from(lines, nodes, i + 1, expected, style, s);
            },
        }
    }
}

/// Law: a document whose code blocks all have one style (all fenced or all
/// indented) draws no report, in the consistent mode or when that style is
/// the one configured.
pub proof fn md046_uniform_blocks_pass(
    lines: Seq<Seq<char>>,
    nodes: Seq<MdNode>,
    style: CodeBlockStyle,
    s: CodeBlockStyle,
)
    requires
        blocks_all(nodes, 0, s),
        style == CodeBlockStyle::Consistent || style == s,
    ensures
        md046_violations(lines, nodes, style) == Seq::<ViolationModel>::empty(),
{
    lemma_uniform_from(
        lines,
        nodes,
        0,
        match style {
            CodeBlockStyle::Consistent => None,
            _ => Some(style),
        },
        style,
        s,
    );
}

fn name_of(s: CodeBlockStyle) -> (r: &'static str)
    ensures
        r@ == style_name(s),
{
    match s {
        CodeBlockStyle::Fenced => "fenced",
        CodeBlockStyle::Indented => "indented",
        CodeBlockStyle::Consistent => "consistent",
    }
}

fn fix_name_of(s: CodeBlockStyle) -> (r: &'static str)
    ensures
        r@ == fix_style_name(s),
{
    match s {
        CodeBlockStyle::Fenced => "fenced",
        CodeBlockStyle::Indented => "indented",
        CodeBlockStyle::Consistent => "unknown",
    }
}

fn convert(info: &str, content: &str, from: CodeBlockStyle, to: CodeBlockStyle) -> (r: Option<Vec<char>>)
    ensures
        match r {
            Some(v) => converted_block(info@, content@, from, to) == Some(v@),
            None => converted_block(info@, content@, from, to) is None,
        },
{
    let c = chars_of(content);
    if from == CodeBlockStyle::Indented && to == CodeBlockStyle::Fenced {
        let mut r: Vec<char> = Vec::new();
        r.push('`');
        r.push('`');
        r.push('`');
        let ic = chars_of(info);
        push_all(&mut r, ic.as_slice());
        r.push('\n');
        push_all(&mut r, c.as_slice());
        if !(c.len() > 0 && c[c.len() - 1] == '\n') {
            r.push('\n');
        }
        r.push('`');
        r.push('`');
        r.push('`');
        r.push('\n');
        proof {
            reveal_strlit("```");
            reveal_strlit("```\n");
        }
        assert(r@ =~= converted_block(info@, content@, from, to)->0);
        Some(r)
    } else if from == CodeBlockStyle::Fenced && to == CodeBlockStyle::Indented {
        let ls = split_into_lines(c.as_slice());
        let ghost all = split_lines(c@);
        let mut r: Vec<char> = Vec::new();
        let mut k: usize = 0;
        while k < ls.len()
            invariant
                ls@.len() == all.len(),
                forall|m: int| 0 <= m < ls@.len() ==> #[trigger] ls@[m]@ == all[m],
                k <= ls@.len(),
                r@ == indent_lines(all.take(k as int)),
            decreases ls@.len() - k,
        {
            r.push(' ');
            r.push(' ');
            r.push(' ');
            r.push(' ');
            push_all(&mut r, ls[k].as_slice());
            r.push('\n');
            proof {
                reveal_strlit("    ");
                assert(all.take(k + 1).drop_last() == all.take(k as int));
                assert(r@ =~= indent_lines(all.take(k + 1)));
            }
            k = k + 1;
        }
        assert(all.take(ls@.len() as int) == all);
        Some(r)
    } else {
        None
    }
}

impl MD046 {
    /// The rule that follows the first style the document uses.
    pub fn new() -> (r: Self)
        ensures
            r.style == CodeBlockStyle::Consistent,
    {
        MD046 { style: CodeBlockStyle::Consistent }
    }

    /// The rule with a given style.
    pub fn with_style(style: CodeBlockStyle) -> (r: Self)
        ensures
            r.style == style,
    {
        MD046 { style }
    }

    /// The style of a node: `Some` for code blocks.
    fn get_code_block_style(&self, node: &MdNode) -> (r: Option<CodeBlockStyle>)
        ensures
            match node.kind {
                NodeKind::CodeBlock { fenced, .. } => r == Some(
                    if fenced { CodeBlockStyle::Fenced } else { CodeBlockStyle::Indented },
                ),
                _ => r is None,
            },
    {
        match &node.kind {
            NodeKind::CodeBlock { fenced, .. } => {
                if *fenced {
                    Some(CodeBlockStyle::Fenced)
                } else {
                    Some(CodeBlockStyle::Indented)
                }
            },
            _ => None,
        }
    }

    /// The fix that converts a code block from one style to the other.
    fn create_code_block_fix(
        &self,
        node: &MdNode,
        document: &Document,
        from_style: CodeBlockStyle,
        to_style: CodeBlockStyle,
    ) -> (r: Option<crate::violation::Fix>)
        ensures
            match r {
                Some(f) => md046_fix(document.lines_of(), *node, from_style, to_style) == Some(
                    f.deep_view(),
                ),
                None => md046_fix(document.lines_of(), *node, from_style, to_style) is None,
            },
    {
        match &node.kind {
            NodeKind::CodeBlock { info, literal, .. } => {
                match convert(info.as_str(), literal.as_str(), from_style, to_style) {
                    Some(rep) => {
                        let end = node.end_line;
                        let col = if 1 <= end && end <= document.line_count() {
                            let l = document.line(end - 1);
                            let b = byte_len_prefix(l, l.len());
                            assert(l@.take(l@.len() as int) == l@);
                            b + 1
                        } else {
                            1
                        };
                        let mut description = String::from_str("Convert ");
                        description.append(fix_name_of(from_style));
                        description.append(" code block to ");
                        description.append(fix_name_of(to_style));
                        Some(
                            new_fix(
                                description,
                                Some(string_of(rep.as_slice())),
                                node.start_line,
                                1,
                                end,
                                col,
                            ),
                        )
                    },
                    None => None,
                }
            },
            _ => None,
        }
    }

    /// The rule's identifier.
    pub fn id(&self) -> (r: &'static str)
        ensures
            r@ == "MD046"@,
    {
        "MD046"
    }

    /// The rule's name.
    pub fn name(&self) -> (r: &'static str)
        ensures
            r@ == "code-block-style"@,
    {
        "code-block-style"
    }

    /// What the rule checks.
    pub fn description(&self) -> (r: &'static str)
        ensures
            r@ == "Code block style should be consistent"@,
    {
        "Code block style should be consistent"
    }

    /// The rule offers fixes.
    pub fn can_fix(&self) -> (b: bool)
        ensures
            b,
    {
        true
    }

    /// Checks a document: every code block, in document order.
    pub fn check(&self, document: &Document) -> (r: Vec<Violation>)
        ensures
            r.deep_view() == md046_violations(document.lines_of(), document.nodes_of(), self.style),
    {
        let ghost lines = document.lines_of();
        let nodes = document.nodes();
        let mut expected = match self.style {
            CodeBlockStyle::Fenced => Some(CodeBlockStyle::Fenced),
            CodeBlockStyle::Indented => Some(CodeBlockStyle::Indented),
            CodeBlockStyle::Consistent => None,
        };
        let mut out: Vec<Violation> = Vec::new();
        let mut i: usize = 0;
        while i < nodes.len()
            invariant
                nodes@ == document.nodes_of(),
                lines == document.lines_of(),
                i <= nodes@.len(),
                out.deep_view() + md046_from(lines, nodes@, i as int, expected, self.style)
                    == md046_violations(lines, nodes@, self.style),
            decreases nodes@.len() - i,
        {
            let node = &nodes[i];
            match self.get_code_block_style(node) {
                Some(current) => {
                    match expected {
                        Some(e) => {
                            if e != current {
                                let mut message = String::from_str(
                                    "Code block style inconsistent - expected ",
                                );
                                message.append(name_of(e));
                                message.append(" but found ");
                                message.append(name_of(current));
                                let fix = self.create_code_block_fix(node, document, current, e);
                                let v = new_violation(
                                    "MD046",
                                    message,
                                    node.start_line,
                                    node.start_column,
                                    Severity::Warning,
                                    fix,
                                );
                                let ghost before = out.deep_view();
                                out.push(v);
                                assert(out.deep_view() == before.push(v.deep_view()));
                            }
                        },
                        None => {
                            expected = match self.style {
                                CodeBlockStyle::Fenced => Some(CodeBlockStyle::Fenced),
                                CodeBlockStyle::Indented => Some(CodeBlockStyle::Indented),
                                CodeBlockStyle::Consistent => Some(current),
                            };
                        },
                    }
                },
                None => {},
            }
            i = i + 1;
        }
        out
    }
}

impl MD046 {
    /// The rule configured by a TOML table: `style`, read in any case; an
    /// unknown style means consistent.
    pub fn from_config(config: &toml::Value) -> (r: Self)
        ensures
            r.style == match as_str(toml_get(*config, "style"@)) {
                Some(s) => if lowercase(s) == "fenced"@ {
                    CodeBlockStyle::Fenced
                } else if lowercase(s) == "indented"@ {
                    CodeBlockStyle::Indented
                } else if lowercase(s) == "consistent"@ {
                    CodeBlockStyle::Consistent
                } else {
                    CodeBlockStyle::Consistent
                },
                None => CodeBlockStyle::Consistent,
            },
    {
        let mut rule = MD046::new();
        match entry_str(config_entry(config, "style")) {
            Some(s) => {
                let l = crate::text::chars_of(crate::text::to_lowercase(s.as_str()).as_str());
                rule.style = if crate::text::equals_lit(l.as_slice(), "fenced") {
                    CodeBlockStyle::Fenced
                } else if crate::text::equals_lit(l.as_slice(), "indented") {
                    CodeBlockStyle::Indented
                } else if crate::text::equals_lit(l.as_slice(), "consistent") {
                    CodeBlockStyle::Consistent
                } else {
                    CodeBlockStyle::Consistent
                };
            },
            None => {},
        }
        rule
    }
}

impl Default for MD046 {
    fn default() -> (r: Self)
        ensures
            r.style == CodeBlockStyle::Consistent,
    {
        MD046::new()
    }
}

} // verus!
