//! MD014: dollar-sign prompts before shell commands without output.
use vstd::prelude::*;
use vstd::string::StringExecFns;
use crate::document::{split_into_lines, split_lines, Document, MdNode, NodeKind};
use crate::nodes::{check_nodes, node_violations, sat_add, saturating_add, NodeRule};
use crate::text::{chars_of, has_at, lowercase, string_of, to_lowercase, trim_chars, trimmed};
use crate::violation::{new_violation, violation_model, Severity, Violation, ViolationModel};

verus! {

/// Rule that flags `$` prompts in shell code blocks.
pub struct MD014;

/// `info` names the shell language `lang`, alone or followed by `,` or a space.
pub open spec fn names_lang(info: Seq<char>, lang: Seq<char>) -> bool {
    info == lang || has_at(info, 0, lang.push(',')) || has_at(info, 0, lang.push(' '))
}

/// `info` (already lowercased) names a shell language.
pub open spec fn shell_language(info: Seq<char>) -> bool {
    ||| names_lang(info, "sh"@)
    ||| names_lang(info, "bash"@)
    ||| names_lang(info, "shell"@)
    ||| names_lang(info, "zsh"@)
    ||| names_lang(info, "fish"@)
    ||| names_lang(info, "csh"@)
    ||| names_lang(info, "tcsh"@)
    ||| names_lang(info, "ksh"@)
    ||| names_lang(info, "console"@)
    ||| names_lang(info, "terminal"@)
    ||| names_lang(info, "cmd"@)
    ||| names_lang(info, "powershell"@)
    ||| names_lang(info, "ps1"@)
}

/// The trimmed line is a `$` prompt followed by a command: `$` alone, `$ `,
/// or `$` and a lowercase ASCII letter (not `$(`, `${`, `$$`, `$_` or `$VAR`).
pub open spec fn prompt_dollar(line: Seq<char>) -> bool {
    let t = trimmed(line);
    if !(t.len() > 0 && t[0] == '$') {
        false
    } else if t.len() == 1 || t[1] == ' ' {
        true
    } else {
        'a' <= t[1] && t[1] <= 'z'
    }
}

fn names_lang_exec(info: &[char], lang: &str) -> (b: bool)
    ensures
        b == names_lang(info@, lang@),
{
    let l = chars_of(lang);
    let mut comma = chars_of(lang);
    comma.push(',');
    let mut space = chars_of(lang);
    space.push(' ');
    let same = info.len() == l.len() && crate::text::matches_at(info, 0, l.as_slice());
    proof {
        if info@ == l@ {
            assert(info@.subrange(0, info@.len() as int) =~= info@);
        }
        if info@.len() == l@.len() && has_at(info@, 0, l@) {
            assert(info@ =~= l@) by {
                assert(info@.subrange(0, l@.len() as int) == l@);
                assert(info@.subrange(0, info@.len() as int) == info@);
            }
        }
    }
    same || crate::text::matches_at(info, 0, comma.as_slice()) || crate::text::matches_at(
        info,
        0,
        space.as_slice(),
    )
}

fn shell_language_chars(info: &[char]) -> (b: bool)
    ensures
        b == shell_language(info@),
{
    names_lang_exec(info, "sh") || names_lang_exec(info, "bash") || names_lang_exec(info, "shell")
        || names_lang_exec(info, "zsh") || names_lang_exec(info, "fish") || names_lang_exec(
        info,
        "csh",
    ) || names_lang_exec(info, "tcsh") || names_lang_exec(info, "ksh") || names_lang_exec(
        info,
        "console",
    ) || names_lang_exec(info, "terminal") || names_lang_exec(info, "cmd") || names_lang_exec(
        info,
        "powershell",
    ) || names_lang_exec(info, "ps1")
}

/// Whether a lowercased info string names a shell language.
pub fn is_shell_language(info: &str) -> (b: bool)
    ensures
        b == shell_language(info@),
{
    let c = chars_of(info);
    shell_language_chars(c.as_slice())
}

fn prompt_dollar_chars(line: &[char]) -> (b: bool)
    ensures
        b == prompt_dollar(line@),
{
    let t = trim_chars(line);
    if !(t.len() > 0 && t[0] == '$') {
        false
    } else if t.len() == 1 || t[1] == ' ' {
        true
    } else {
        'a' <= t[1] && t[1] <= 'z'
    }
}

/// Whether a line is a `$` prompt followed by a command.
pub fn is_command_prompt_dollar(line: &str) -> (b: bool)
    ensures
        b == prompt_dollar(line@),
{
    let c = chars_of(line);
    prompt_dollar_chars(c.as_slice())
}

/// The violations for the lines `i..` of a shell code block whose first line
/// (the fence) is line `base`.
pub open spec fn md014_lines(base: int, ls: Seq<Seq<char>>, i: int) -> Seq<ViolationModel>
    decreases ls.len() - i,
{
    if i < 0 || i >= ls.len() {
        seq![]
    } else {
        let t = trimmed(ls[i]);
        (if t.len() > 0 && t[0] != '#' && prompt_dollar(ls[i]) {
            seq![
                violation_model(
                    "MD014"@,
                    "Shell command should not include dollar sign prompt: '"@ + t + "'"@,
                    sat_add(sat_add(base, i) as int, 1),
                    1,
                    Severity::Warning,
                    None,
                ),
            ]
        } else {
            seq![]
        }) + md014_lines(base, ls, i + 1)
    }
}

/// The violations MD014 reports on a node.
pub open spec fn md014_node(node: MdNode) -> Seq<ViolationModel> {
    match node.kind {
        NodeKind::CodeBlock { info, literal, .. } => if shell_language(lowercase(trimmed(info@))) {
            md014_lines(node.start_line as int, split_lines(literal@), 0)
        } else {
            seq![]
        },
        _ => seq![],
    }
}

impl NodeRule for MD014 {
    open spec fn node_spec(&self, lines: Seq<Seq<char>>, nodes: Seq<MdNode>, i: int) -> Seq<ViolationModel> {
        md014_node(nodes[i])
    }

    fn node_check(&self, document: &Document, nodes: &Vec<MdNode>, i: usize) -> (r: Vec<Violation>) {
        let node = &nodes[i];
        let mut out: Vec<Violation> = Vec::new();
        match &node.kind {
            NodeKind::CodeBlock { info, literal, .. } => {
                let ic = chars_of(info.as_str());
                let it = trim_chars(ic.as_slice());
                let lower = to_lowercase(string_of(it.as_slice()).as_str());
                let lc = chars_of(lower.as_str());
                if !shell_language_chars(lc.as_slice()) {
                    return out;
                }
                let body = chars_of(literal.as_str());
                let ls = split_into_lines(body.as_slice());
                let ghost lsv = split_lines(literal@);
                let base = node.start_line;
                let mut i: usize = 0;
                while i < ls.len()
                    invariant
                        ls@.len() == lsv.len(),
                        forall|k: int| 0 <= k < ls@.len() ==> #[trigger] ls@[k]@ == lsv[k],
                        i <= ls@.len(),
                        out.deep_view() + md014_lines(base as int, lsv, i as int) == md014_lines(
                            base as int,
                            lsv,
                            0,
                        ),
                    decreases ls@.len() - i,
                {
                    let line = ls[i].as_slice();
                    let t = trim_chars(line);
                    let ghost before = out.deep_view();
                    if t.len() > 0 && t[0] != '#' && prompt_dollar_chars(line) {
                        let mut message = String::from_str(
                            "Shell command should not include dollar sign prompt: '",
                        );
                        message.append(string_of(t.as_slice()).as_str());
                        message.append("'");
                        let at = saturating_add(saturating_add(base, i), 1);
                        let v = new_violation("MD014", message, at, 1, Severity::Warning, None);
                        out.push(v);
                        assert(out.deep_view() == before.push(v.deep_view()));
                    }
                    assert(before + md014_lines(base as int, lsv, i as int) == out.deep_view()
                        + md014_lines(base as int, lsv, i + 1));
                    i = i + 1;
                }
                out
            },
            _ => out,
        }
    }
}

impl MD014 {
    /// The rule's identifier.
    pub fn id(&self) -> (r: &'static str)
        ensures
            r@ == "MD014"@,
    {
        "MD014"
    }

    /// The rule's name.
    pub fn name(&self) -> (r: &'static str)
        ensures
            r@ == "no-dollar-signs"@,
    {
        "no-dollar-signs"
    }

    /// What the rule checks.
    pub fn description(&self) -> (r: &'static str)
        ensures
            r@ == "Dollar signs used before commands without showing output"@,
    {
        "Dollar signs used before commands without showing output"
    }

    /// Checks a document.
    pub fn check(&self, document: &Document) -> (r: Vec<Violation>)
        ensures
            r.deep_view() == node_violations(self, document.lines_of(), document.nodes_of(), 0),
    {
        check_nodes(self, document)
    }
}

} // verus!
