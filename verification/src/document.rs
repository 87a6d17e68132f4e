//! A Markdown document: its text, its lines, and the nodes that the
//! CommonMark parser finds in it.
use vstd::prelude::*;
use crate::text::{chars_of, equals_lit, slice_chars, string_of};
use comrak::nodes::{ListType, NodeValue};
use std::path::PathBuf;

verus! {

/// First index at or after `i` that holds a line feed, or `s.len()`.
pub open spec fn next_newline(s: Seq<char>, i: int) -> int
    decreases s.len() - i,
{
    if i >= s.len() {
        s.len() as int
    } else if s[i] == '\n' {
        i
    } else {
        next_newline(s, i + 1)
    }
}

/// A line that a line feed ended, without its carriage return.
pub open spec fn strip_cr(l: Seq<char>) -> Seq<char> {
    if l.len() > 0 && l.last() == '\r' {
        l.drop_last()
    } else {
        l
    }
}

/// The lines of `s` from index `i` on, as `str::lines` yields them: split at
/// `\n` or `\r\n`, and no empty line after a final line ending.
pub open spec fn lines_from(s: Seq<char>, i: int) -> Seq<Seq<char>>
    decreases s.len() - i,
{
    if i >= s.len() || i < 0 {
        seq![]
    } else {
        let e = next_newline(s, i);
        if e < s.len() {
            proof {
                lemma_next_newline_bounds(s, i);
            }
            seq![strip_cr(s.subrange(i, e))] + lines_from(s, e + 1)
        } else {
            seq![s.subrange(i, s.len() as int)]
        }
    }
}

/// The lines of `s`.
pub open spec fn split_lines(s: Seq<char>) -> Seq<Seq<char>> {
    lines_from(s, 0)
}

pub proof fn lemma_next_newline_bounds(s: Seq<char>, i: int)
    requires
        0 <= i <= s.len(),
    ensures
        i <= next_newline(s, i) <= s.len(),
        next_newline(s, i) < s.len() ==> s[next_newline(s, i)] == '\n',
    decreases s.len() - i,
{
    if i < s.len() && s[i] != '\n' {
        lemma_next_newline_bounds(s, i + 1);
    }
}

fn find_newline(s: &[char], i: usize) -> (r: usize)
    requires
        i <= s@.len(),
    ensures
        r as int == next_newline(s@, i as int),
{
    let mut k = i;
    while k < s.len()
        invariant
            i <= k <= s@.len(),
            next_newline(s@, i as int) == next_newline(s@, k as int),
        decreases s@.len() - k,
    {
        if s[k] == '\n' {
            return k;
        }
        k = k + 1;
    }
    k
}

/// Splits text into lines as `str::lines` does.
pub fn split_into_lines(s: &[char]) -> (r: Vec<Vec<char>>)
    ensures
        r@.len() == split_lines(s@).len(),
        forall|i: int| 0 <= i < r@.len() ==> #[trigger] r@[i]@ == split_lines(s@)[i],
{
    let mut out: Vec<Vec<char>> = Vec::new();
    let mut i: usize = 0;
    let ghost done: Seq<Seq<char>> = seq![];
    while i < s.len()
        invariant
            i <= s@.len(),
            split_lines(s@) == done + lines_from(s@, i as int),
            out@.len() == done.len(),
            forall|k: int| 0 <= k < out@.len() ==> #[trigger] out@[k]@ == done[k],
        decreases s@.len() - i,
    {
        let e = find_newline(s, i);
        proof { lemma_next_newline_bounds(s@, i as int); }
        if e < s.len() {
            let mut end = e;
            if e > i && s[e - 1] == '\r' {
                end = e - 1;
            }
            let piece = slice_chars(s, i, end);
            proof {
                let full = s@.subrange(i as int, e as int);
                assert(piece@ == strip_cr(full));
                assert(lines_from(s@, i as int) == seq![strip_cr(full)] + lines_from(s@, e + 1));
                done = done.push(piece@);
                assert(seq![strip_cr(full)] + lines_from(s@, e + 1) == seq![strip_cr(full)].add(lines_from(s@, e + 1)));
                assert(split_lines(s@) == done + lines_from(s@, e + 1));
            }
            out.push(piece);
            i = e + 1;
        } else {
            let piece = slice_chars(s, i, s.len());
            proof {
                assert(lines_from(s@, i as int) == seq![s@.subrange(i as int, s@.len() as int)]);
                assert(lines_from(s@, s@.len() as int) == Seq::<Seq<char>>::empty());
                done = done.push(piece@);
                assert(split_lines(s@) == done + lines_from(s@, s@.len() as int));
            }
            out.push(piece);
            i = s.len();
        }
    }
    proof {
        assert(lines_from(s@, i as int) == Seq::<Seq<char>>::empty());
        assert(split_lines(s@) == done);
    }
    out
}

/// The kind of a parsed node, with the attributes the rules read.
#[derive(Debug)]
pub enum NodeKind {
    Document,
    Heading { level: u8, setext: bool },
    CodeBlock { fenced: bool, fence_char: char, info: String, literal: String },
    List { ordered: bool, bullet_char: char },
    Item,
    Paragraph,
    Text { literal: String },
    Code { literal: String },
    HtmlInline { literal: String },
    HtmlBlock { literal: String },
    Link { url: String },
    Emph,
    Strong,
    Other,
}

/// One node of the parsed document, in document (pre-)order.
#[derive(Debug)]
pub struct MdNode {
    pub kind: NodeKind,
    /// Distance from the document node (which has depth 0).
    pub depth: usize,
    pub start_line: usize,
    pub start_column: usize,
    pub end_line: usize,
    pub end_column: usize,
    /// The text of the node's text, code and break descendants.
    pub text: String,
}

/// A parsed node as the parser reports it: the name of its kind, how many
/// nodes lead to it from the root (itself included), its source position and
/// its text.
#[derive(Debug)]
pub struct RawNode {
    pub name: String,
    pub ancestors: usize,
    pub start_line: usize,
    pub start_column: usize,
    pub end_line: usize,
    pub end_column: usize,
    pub text: String,
}

/// The nodes of the CommonMark tree of `content`, in document order.
pub uninterp spec fn markdown_tree(content: Seq<char>) -> Seq<RawNode>;

/// Level and setext flag of each heading of `content`, in document order.
pub uninterp spec fn markdown_headings(content: Seq<char>) -> Seq<(u8, bool)>;

/// Fenced flag, fence character, info string and literal of each code block
/// of `content`, in document order.
pub uninterp spec fn markdown_code_blocks(content: Seq<char>) -> Seq<(bool, char, String, String)>;

/// Ordered flag and bullet character of each list of `content`, in document order.
pub uninterp spec fn markdown_lists(content: Seq<char>) -> Seq<(bool, char)>;

/// Literal of each text, code span, inline HTML and HTML block node of
/// `content`, in document order.
pub uninterp spec fn markdown_literals(content: Seq<char>) -> Seq<String>;

/// Destination of each link of `content`, in document order.
pub uninterp spec fn markdown_link_urls(content: Seq<char>) -> Seq<String>;

/// `comrak::parse_document` (CommonMark options): every node of the tree in
/// document order, with `xml_node_name`, the count of `ancestors` (the node
/// itself included), `sourcepos` and `collect_text`.
#[verifier::external_body]
fn parse_tree(content: &str) -> (r: Vec<RawNode>)
    ensures
        r@ == markdown_tree(content@),
{
    let arena = comrak::Arena::new();
    let root = comrak::parse_document(&arena, content, &comrak::Options::default());
    let mut out = Vec::new();
    for n in root.descendants() {
        let (a, p) = (n.data(), n.data().sourcepos);
        out.push(RawNode { name: a.value.xml_node_name().to_string(), ancestors: n.ancestors().count(),
            start_line: p.start.line, start_column: p.start.column, end_line: p.end.line,
            end_column: p.end.column, text: n.collect_text() });
    }
    out
}

/// `comrak::parse_document`: `level` and `setext` of each `NodeValue::Heading`.
#[verifier::external_body]
fn parse_headings(content: &str) -> (r: Vec<(u8, bool)>)
    ensures
        r@ == markdown_headings(content@),
{
    let arena = comrak::Arena::new();
    let root = comrak::parse_document(&arena, content, &comrak::Options::default());
    let mut out = Vec::new();
    for n in root.descendants() {
        if let NodeValue::Heading(h) = &n.data().value {
            out.push((h.level, h.setext));
        }
    }
    out
}

/// `comrak::parse_document`: `fenced`, `fence_char`, `info` and `literal` of
/// each `NodeValue::CodeBlock`.
#[verifier::external_body]
fn parse_code_blocks(content: &str) -> (r: Vec<(bool, char, String, String)>)
    ensures
        r@ == markdown_code_blocks(content@),
{
    let arena = comrak::Arena::new();
    let root = comrak::parse_document(&arena, content, &comrak::Options::default());
    let mut out = Vec::new();
    for n in root.descendants() {
        if let NodeValue::CodeBlock(c) = &n.data().value {
            out.push((c.fenced, c.fence_char as char, c.info.clone(), c.literal.clone()));
        }
    }
    out
}

/// `comrak::parse_document`: whether each `NodeValue::List` is ordered, and its
/// `bullet_char`.
#[verifier::external_body]
fn parse_lists(content: &str) -> (r: Vec<(bool, char)>)
    ensures
        r@ == markdown_lists(content@),
{
    let arena = comrak::Arena::new();
    let root = comrak::parse_document(&arena, content, &comrak::Options::default());
    let mut out = Vec::new();
    for n in root.descendants() {
        if let NodeValue::List(l) = &n.data().value {
            let ordered = match l.list_type { ListType::Ordered => true, ListType::Bullet => false };
            out.push((ordered, l.bullet_char as char));
        }
    }
    out
}

/// `comrak::parse_document`: the literal of each `Text`, `Code`, `HtmlInline`
/// and `HtmlBlock` node.
#[verifier::external_body]
fn parse_literals(content: &str) -> (r: Vec<String>)
    ensures
        r@ == markdown_literals(content@),
{
    let arena = comrak::Arena::new();
    let root = comrak::parse_document(&arena, content, &comrak::Options::default());
    let mut out = Vec::new();
    for n in root.descendants() {
        match &n.data().value {
            NodeValue::Text(t) => out.push(t.to_string()),
            NodeValue::Code(c) => out.push(c.literal.clone()),
            NodeValue::HtmlInline(h) => out.push(h.clone()),
            NodeValue::HtmlBlock(h) => out.push(h.literal.clone()),
            _ => {},
        }
    }
    out
}

/// `comrak::parse_document`: the `url` of each `NodeValue::Link`.
#[verifier::external_body]
fn parse_link_urls(content: &str) -> (r: Vec<String>)
    ensures
        r@ == markdown_link_urls(content@),
{
    let arena = comrak::Arena::new();
    let root = comrak::parse_document(&arena, content, &comrak::Options::default());
    let mut out = Vec::new();
    for n in root.descendants() {
        if let NodeValue::Link(l) = &n.data().value {
            out.push(l.url.clone());
        }
    }
    out
}

/// Names of nodes that carry a literal.
pub open spec fn is_literal_name(n: Seq<char>) -> bool {
    n == "text"@ || n == "code"@ || n == "html_inline"@ || n == "html_block"@
}

/// Which attribute list a node of the given name draws from (0: none).
pub open spec fn attr_class(n: Seq<char>) -> int {
    if n == "heading"@ {
        1
    } else if n == "code_block"@ {
        2
    } else if n == "list"@ {
        3
    } else if is_literal_name(n) {
        4
    } else if n == "link"@ {
        5
    } else {
        0
    }
}

/// Number of nodes among `raw.take(i)` that draw from attribute list `c`.
pub open spec fn count_named(raw: Seq<RawNode>, i: int, c: int) -> nat
    decreases i,
{
    if i <= 0 {
        0
    } else {
        count_named(raw, i - 1, c) + if attr_class(raw[i - 1].name@) == c { 1nat } else { 0nat }
    }
}

/// The `k`-th element of `s`, or `d` past its end.
pub open spec fn nth_or<T>(s: Seq<T>, k: int, d: T) -> T {
    if 0 <= k < s.len() { s[k] } else { d }
}

/// The literal at index `k` of `lits`, empty past its end.
pub open spec fn lit_at(lits: Seq<String>, k: int) -> Seq<char> {
    if 0 <= k < lits.len() { lits[k]@ } else { seq![] }
}

/// `kind` is what node `i` of `raw` becomes, given the per-kind attribute
/// lists of the same parse.
pub open spec fn kind_fits(
    kind: NodeKind,
    raw: Seq<RawNode>,
    i: int,
    heads: Seq<(u8, bool)>,
    codes: Seq<(bool, char, String, String)>,
    lists: Seq<(bool, char)>,
    lits: Seq<String>,
    urls: Seq<String>,
) -> bool {
    kind_fits_at(
        kind,
        raw[i].name@,
        count_named(raw, i, 1) as int,
        count_named(raw, i, 2) as int,
        count_named(raw, i, 3) as int,
        count_named(raw, i, 4) as int,
        count_named(raw, i, 5) as int,
        heads,
        codes,
        lists,
        lits,
        urls,
    )
}

/// `kind` is what a node named `n` becomes when `hk`, `ck`, `lk`, `tk` and
/// `uk` nodes before it drew from each attribute list.
pub open spec fn kind_fits_at(
    kind: NodeKind,
    n: Seq<char>,
    hk: int,
    ck: int,
    lk: int,
    tk: int,
    uk: int,
    heads: Seq<(u8, bool)>,
    codes: Seq<(bool, char, String, String)>,
    lists: Seq<(bool, char)>,
    lits: Seq<String>,
    urls: Seq<String>,
) -> bool {
    if n == "document"@ {
        kind == NodeKind::Document
    } else if n == "heading"@ {
        let h = nth_or(heads, hk, (0u8, false));
        kind == NodeKind::Heading { level: h.0, setext: h.1 }
    } else if n == "code_block"@ {
        match kind {
            NodeKind::CodeBlock { fenced, fence_char, info, literal } => if 0 <= ck < codes.len() {
                fenced == codes[ck].0 && fence_char == codes[ck].1 && info@ == codes[ck].2@
                    && literal@ == codes[ck].3@
            } else {
                !fenced && fence_char == ' ' && info@.len() == 0 && literal@.len() == 0
            },
            _ => false,
        }
    } else if n == "list"@ {
        let l = nth_or(lists, lk, (false, ' '));
        kind == NodeKind::List { ordered: l.0, bullet_char: l.1 }
    } else if n == "item"@ {
        kind == NodeKind::Item
    } else if n == "paragraph"@ {
        kind == NodeKind::Paragraph
    } else if n == "text"@ {
        kind matches NodeKind::Text { literal } && literal@ == lit_at(lits, tk)
    } else if n == "code"@ {
        kind matches NodeKind::Code { literal } && literal@ == lit_at(lits, tk)
    } else if n == "html_inline"@ {
        kind matches NodeKind::HtmlInline { literal } && literal@ == lit_at(lits, tk)
    } else if n == "html_block"@ {
        kind matches NodeKind::HtmlBlock { literal } && literal@ == lit_at(lits, tk)
    } else if n == "link"@ {
        kind matches NodeKind::Link { url } && url@ == lit_at(urls, uk)
    } else if n == "emph"@ {
        kind == NodeKind::Emph
    } else if n == "strong"@ {
        kind == NodeKind::Strong
    } else {
        kind == NodeKind::Other
    }
}

/// The depth of a parsed node: its distance from the root.
pub open spec fn depth_of(r: RawNode) -> usize {
    if r.ancestors > 0 { (r.ancestors - 1) as usize } else { 0 }
}

/// `node` is node `i` of `raw`, with its kind filled from the attribute lists.
pub open spec fn node_fits(
    node: MdNode,
    raw: Seq<RawNode>,
    i: int,
    heads: Seq<(u8, bool)>,
    codes: Seq<(bool, char, String, String)>,
    lists: Seq<(bool, char)>,
    lits: Seq<String>,
    urls: Seq<String>,
) -> bool {
    &&& node.depth == depth_of(raw[i])
    &&& node.start_line == raw[i].start_line
    &&& node.start_column == raw[i].start_column
    &&& node.end_line == raw[i].end_line
    &&& node.end_column == raw[i].end_column
    &&& node.text@ == raw[i].text@
    &&& kind_fits(node.kind, raw, i, heads, codes, lists, lits, urls)
}

/// The nodes of `content`: the parser's tree with each node's attributes.
pub open spec fn nodes_fit(nodes: Seq<MdNode>, content: Seq<char>) -> bool {
    let raw = markdown_tree(content);
    &&& nodes.len() == raw.len()
    &&& forall|i: int|
        0 <= i < nodes.len() ==> node_fits(
            #[trigger] nodes[i],
            raw,
            i,
            markdown_headings(content),
            markdown_code_blocks(content),
            markdown_lists(content),
            markdown_literals(content),
            markdown_link_urls(content),
        )
}

fn literal_or_empty(lits: &Vec<String>, k: usize) -> (s: String)
    ensures
        s@ == lit_at(lits@, k as int),
{
    if k < lits.len() {
        lits[k].clone()
    } else {
        String::new()
    }
}

proof fn lemma_count_step(raw: Seq<RawNode>, i: int, c: int)
    requires
        0 <= i,
    ensures
        count_named(raw, i + 1, c) == count_named(raw, i, c) + if attr_class(raw[i].name@) == c { 1nat } else { 0nat },
{
}

fn kind_for(
    n: &[char],
    hk: usize,
    ck: usize,
    lk: usize,
    tk: usize,
    uk: usize,
    heads: &Vec<(u8, bool)>,
    codes: &Vec<(bool, char, String, String)>,
    lists: &Vec<(bool, char)>,
    lits: &Vec<String>,
    urls: &Vec<String>,
) -> (kind: NodeKind)
    ensures
        kind_fits_at(
            kind,
            n@,
            hk as int,
            ck as int,
            lk as int,
            tk as int,
            uk as int,
            heads@,
            codes@,
            lists@,
            lits@,
            urls@,
        ),
{
    if equals_lit(n, "document") {
        NodeKind::Document
    } else if equals_lit(n, "heading") {
        if hk < heads.len() {
            NodeKind::Heading { level: heads[hk].0, setext: heads[hk].1 }
        } else {
            NodeKind::Heading { level: 0, setext: false }
        }
    } else if equals_lit(n, "code_block") {
        if ck < codes.len() {
            NodeKind::CodeBlock {
                fenced: codes[ck].0,
                fence_char: codes[ck].1,
                info: codes[ck].2.clone(),
                literal: codes[ck].3.clone(),
            }
        } else {
            NodeKind::CodeBlock { fenced: false, fence_char: ' ', info: String::new(), literal: String::new() }
        }
    } else if equals_lit(n, "list") {
        if lk < lists.len() {
            NodeKind::List { ordered: lists[lk].0, bullet_char: lists[lk].1 }
        } else {
            NodeKind::List { ordered: false, bullet_char: ' ' }
        }
    } else if equals_lit(n, "item") {
        NodeKind::Item
    } else if equals_lit(n, "paragraph") {
        NodeKind::Paragraph
    } else if equals_lit(n, "text") {
        NodeKind::Text { literal: literal_or_empty(lits, tk) }
    } else if equals_lit(n, "code") {
        NodeKind::Code { literal: literal_or_empty(lits, tk) }
    } else if equals_lit(n, "html_inline") {
        NodeKind::HtmlInline { literal: literal_or_empty(lits, tk) }
    } else if equals_lit(n, "html_block") {
        NodeKind::HtmlBlock { literal: literal_or_empty(lits, tk) }
    } else if equals_lit(n, "link") {
        NodeKind::Link { url: literal_or_empty(urls, uk) }
    } else if equals_lit(n, "emph") {
        NodeKind::Emph
    } else if equals_lit(n, "strong") {
        NodeKind::Strong
    } else {
        NodeKind::Other
    }
}

/// Gives each node of the parsed tree its kind and attributes.
fn build_nodes(content: &str) -> (nodes: Vec<MdNode>)
    ensures
        nodes_fit(nodes@, content@),
{
    let raw = parse_tree(content);
    let heads = parse_headings(content);
    let codes = parse_code_blocks(content);
    let lists = parse_lists(content);
    let lits = parse_literals(content);
    let urls = parse_link_urls(content);
    let ghost c = content@;
    let (mut hk, mut ck, mut lk, mut tk, mut uk): (usize, usize, usize, usize, usize) = (0, 0, 0, 0, 0);
    let mut out: Vec<MdNode> = Vec::new();
    let mut i: usize = 0;
    while i < raw.len()
        invariant
            raw@ == markdown_tree(c),
            heads@ == markdown_headings(c),
            codes@ == markdown_code_blocks(c),
            lists@ == markdown_lists(c),
            lits@ == markdown_literals(c),
            urls@ == markdown_link_urls(c),
            i <= raw@.len(),
            out@.len() == i,
            hk == count_named(raw@, i as int, 1),
            ck == count_named(raw@, i as int, 2),
            lk == count_named(raw@, i as int, 3),
            tk == count_named(raw@, i as int, 4),
            uk == count_named(raw@, i as int, 5),
            hk <= i && ck <= i && lk <= i && tk <= i && uk <= i,
            forall|k: int| 0 <= k < i ==> node_fits(#[trigger] out@[k], raw@, k, heads@, codes@, lists@, lits@, urls@),
        decreases raw@.len() - i,
    {
        let r = &raw[i];
        let name = chars_of(r.name.as_str());
        let n = name.as_slice();
        let kind = kind_for(n, hk, ck, lk, tk, uk, &heads, &codes, &lists, &lits, &urls);
        let node = MdNode {
            kind,
            depth: if r.ancestors > 0 { r.ancestors - 1 } else { 0 },
            start_line: r.start_line,
            start_column: r.start_column,
            end_line: r.end_line,
            end_column: r.end_column,
            text: r.text.clone(),
        };
        assert(node_fits(node, raw@, i as int, heads@, codes@, lists@, lits@, urls@));
        out.push(node);
        proof {
            lemma_count_step(raw@, i as int, 1);
            lemma_count_step(raw@, i as int, 2);
            lemma_count_step(raw@, i as int, 3);
            lemma_count_step(raw@, i as int, 4);
            lemma_count_step(raw@, i as int, 5);
        }
        let class: u8 = if equals_lit(n, "heading") {
            1
        } else if equals_lit(n, "code_block") {
            2
        } else if equals_lit(n, "list") {
            3
        } else if equals_lit(n, "text") || equals_lit(n, "code") || equals_lit(n, "html_inline") || equals_lit(
            n,
            "html_block",
        ) {
            4
        } else if equals_lit(n, "link") {
            5
        } else {
            0
        };
        assert(class == attr_class(raw@[i as int].name@));
        if class == 1 {
            hk = hk + 1;
        } else if class == 2 {
            ck = ck + 1;
        } else if class == 3 {
            lk = lk + 1;
        } else if class == 4 {
            tk = tk + 1;
        } else if class == 5 {
            uk = uk + 1;
        }
        i = i + 1;
    }
    out
}

/// `std::path::PathBuf`: the file a document came from, carried along unread.
#[verifier::external_type_specification]
#[verifier::external_body]
pub struct ExPathBuf(PathBuf);

/// Why a document could not be built.
#[derive(Debug, PartialEq, Eq, Structural)]
pub enum DocumentError {
    /// The text is too long for byte offsets into it to be computed in a `usize`.
    TooLarge,
}

/// A Markdown document under lint.
pub struct Document {
    pub(crate) content: String,
    pub(crate) path: PathBuf,
    pub(crate) lines: Vec<String>,
    pub(crate) line_chars: Vec<Vec<char>>,
    pub(crate) nodes: Vec<MdNode>,
}

impl Document {
    #[verifier::type_invariant]
    spec fn inv(self) -> bool {
        &&& self.content@.len() <= usize::MAX / 4
        &&& self.lines@.len() == split_lines(self.content@).len()
        &&& self.line_chars@.len() == self.lines@.len()
        &&& forall|i: int|
            0 <= i < self.lines@.len() ==> #[trigger] self.lines@[i]@ == split_lines(self.content@)[i]
        &&& forall|i: int|
            0 <= i < self.line_chars@.len() ==> #[trigger] self.line_chars@[i]@ == split_lines(
                self.content@,
            )[i]
        &&& nodes_fit(self.nodes@, self.content@)
    }

    /// The document's text.
    pub closed spec fn text(&self) -> Seq<char> {
        self.content@
    }

    /// The document's lines.
    pub open spec fn lines_of(&self) -> Seq<Seq<char>> {
        split_lines(self.text())
    }

    /// The document's parsed nodes.
    pub closed spec fn nodes_of(&self) -> Seq<MdNode> {
        self.nodes@
    }

    /// Builds a document from its text; fails only for a text too long for
    /// byte offsets into it to fit a `usize`.
    pub fn new(content: String, path: PathBuf) -> (r: Result<Document, DocumentError>)
        ensures
            r is Ok <==> content@.len() <= usize::MAX / 4,
            r matches Ok(d) ==> d.text() == content@ && nodes_fit(d.nodes_of(), content@),
            r matches Err(e) ==> e == DocumentError::TooLarge,
    {
        let chars = chars_of(content.as_str());
        if chars.len() > usize::MAX / 4 {
            return Err(DocumentError::TooLarge);
        }
        let line_chars = split_into_lines(chars.as_slice());
        let mut lines: Vec<String> = Vec::new();
        for i in 0..line_chars.len()
            invariant
                lines@.len() == i,
                forall|k: int| 0 <= k < i ==> #[trigger] lines@[k]@ == line_chars@[k]@,
        {
            lines.push(string_of(line_chars[i].as_slice()));
        }
        let nodes = build_nodes(content.as_str());
        Ok(Document { content, path, lines, line_chars, nodes })
    }

    /// Number of lines.
    pub fn line_count(&self) -> (n: usize)
        ensures
            n == self.lines_of().len(),
            n <= usize::MAX / 4,
    {
        proof {
            use_type_invariant(self);
            lemma_lines_count(self.content@, 0);
        }
        self.line_chars.len()
    }

    /// The characters of line `i` (0-based).
    pub fn line(&self, i: usize) -> (l: &[char])
        requires
            i < self.lines_of().len(),
        ensures
            l@ == self.lines_of()[i as int],
            l@.len() <= usize::MAX / 4,
    {
        proof {
            use_type_invariant(self);
            lemma_lines_short(self.content@, 0, i as int);
        }
        self.line_chars[i].as_slice()
    }

    /// The parsed nodes, in document order.
    pub fn nodes(&self) -> (n: &Vec<MdNode>)
        ensures
            n@ == self.nodes_of(),
    {
        proof { use_type_invariant(self); }
        &self.nodes
    }

    /// The document's text.
    pub fn content(&self) -> (c: &String)
        ensures
            c@ == self.text(),
    {
        &self.content
    }
}

/// There are no more lines from index `i` on than characters.
pub proof fn lemma_lines_count(s: Seq<char>, i: int)
    requires
        0 <= i,
    ensures
        lines_from(s, i).len() <= if i <= s.len() { s.len() - i } else { 0 },
    decreases s.len() - i,
{
    if i < s.len() {
        let e = next_newline(s, i);
        lemma_next_newline_bounds(s, i);
        if e < s.len() {
            lemma_lines_count(s, e + 1);
        }
    }
}

/// Every line of `s` from index `i` on is no longer than `s`.
pub proof fn lemma_lines_short(s: Seq<char>, i: int, k: int)
    requires
        0 <= i,
        0 <= k < lines_from(s, i).len(),
    ensures
        lines_from(s, i)[k].len() <= s.len(),
    decreases s.len() - i,
{
    if i < s.len() {
        let e = next_newline(s, i);
        lemma_next_newline_bounds(s, i);
        if e < s.len() && k > 0 {
            lemma_lines_short(s, e + 1, k - 1);
        }
    }
}

} // verus!
