//! The structure of a whole document: lines, inline children, top-level
//! nodes, delimited blocks and the root node.
use vstd::prelude::*;

use crate::{LANGUAGE_ID, ROOT_NODE_TYPE};
use crate::hash::{stable_hash, structural_hash};
use crate::labels::{
    admonition_label, anchor_label, attribute_label, block_start, extract_inline_targets,
    image_label, include_label, list_item_label, section_title, spec_admonition_label,
    spec_anchor_label, spec_attribute_label, spec_block_start, spec_image_label,
    spec_include_label, spec_inline_targets, spec_list_item_label, spec_section_title,
    strings_view,
};
use crate::node::{model_hashes, models, node, spec_node, NodeModel, SemanticNode};
use crate::text::{
    chars_eq_str, decimal, subvec, from_chars, push_char, push_decimal, starts_with, starts_with_chars,
    to_chars, trim, trim_chars,
};

verus! {

/// `id.k`: the id of the `k`-th child of the node with id `id`.
pub open spec fn child_id(id: Seq<char>, k: nat) -> Seq<char> {
    id + seq!['.'] + decimal(k)
}

/// Leaf nodes of one type on one line, one for each label, numbered from `first`.
pub open spec fn leaf_nodes(
    id: Seq<char>,
    node_type: Seq<char>,
    labels: Seq<Seq<char>>,
    first: nat,
    line_no: u32,
) -> Seq<NodeModel> {
    Seq::new(
        labels.len(),
        |i: int| spec_node(child_id(id, first + i as nat), node_type, labels[i], line_no, 0, seq![]),
    )
}

/// The link nodes and then the cross-reference nodes of a line.
#[verifier::opaque]
pub open spec fn spec_inline_children(id: Seq<char>, line: Seq<char>, line_no: u32) -> Seq<
    NodeModel,
> {
    let links = spec_inline_targets(line, "link:"@, false);
    let xrefs = spec_inline_targets(line, "xref:"@, true);
    leaf_nodes(id, "link"@, links, 0, line_no) + leaf_nodes(
        id,
        "xref"@,
        xrefs,
        links.len(),
        line_no,
    )
}

/// A paragraph with its inline children, except for a comment line (one
/// that starts with `//` and holds no link or cross-reference).
pub open spec fn spec_inline_or_paragraph_node(id: Seq<char>, line: Seq<char>, line_no: u32) -> Option<
    NodeModel,
> {
    let children = spec_inline_children(id, line, line_no);
    if children.len() == 0 && starts_with(line, "//"@) {
        None
    } else {
        Some(spec_node(id, "paragraph"@, line, line_no, 0, children))
    }
}

/// The node of a line outside delimited blocks: the first of section title,
/// attribute entry, anchor, include, admonition, image and list item that the
/// line is, else a paragraph.
pub open spec fn spec_top_level_node(id: Seq<char>, line: Seq<char>, line_no: u32) -> Option<
    NodeModel,
> {
    if let Some((level, title)) = spec_section_title(line) {
        Some(
            spec_node(
                id,
                "section_level_"@ + decimal(level),
                title,
                line_no,
                0,
                spec_inline_children(id, line, line_no),
            ),
        )
    } else if let Some(label) = spec_attribute_label(line) {
        Some(spec_node(id, "attribute_entry"@, label, line_no, 0, seq![]))
    } else if let Some(label) = spec_anchor_label(line) {
        Some(spec_node(id, "anchor"@, label, line_no, 0, seq![]))
    } else if let Some(label) = spec_include_label(line) {
        Some(spec_node(id, "include_directive"@, label, line_no, 0, seq![]))
    } else if let Some((node_type, label)) = spec_admonition_label(line) {
        Some(spec_node(id, node_type, label, line_no, 0, spec_inline_children(id, line, line_no)))
    } else if let Some(label) = spec_image_label(line) {
        Some(spec_node(id, "image"@, label, line_no, 0, seq![]))
    } else if let Some(label) = spec_list_item_label(line) {
        Some(
            spec_node(id, "list_item"@, label, line_no, 0, spec_inline_children(id, line, line_no)),
        )
    } else {
        spec_inline_or_paragraph_node(id, line, line_no)
    }
}

pub open spec fn opt_node(o: Option<SemanticNode>) -> Option<NodeModel> {
    match o {
        Some(n) => Some(n@),
        None => None,
    }
}

proof fn lemma_leaf_nodes_push(
    id: Seq<char>,
    node_type: Seq<char>,
    labels: Seq<Seq<char>>,
    first: nat,
    line_no: u32,
    k: nat,
)
    requires
        k < labels.len(),
    ensures
        leaf_nodes(id, node_type, labels.take(k + 1int), first, line_no) == leaf_nodes(
            id,
            node_type,
            labels.take(k as int),
            first,
            line_no,
        ).push(spec_node(child_id(id, first + k), node_type, labels[k as int], line_no, 0, seq![])),
{
    assert(leaf_nodes(id, node_type, labels.take(k + 1int), first, line_no) =~= leaf_nodes(
        id,
        node_type,
        labels.take(k as int),
        first,
        line_no,
    ).push(spec_node(child_id(id, first + k), node_type, labels[k as int], line_no, 0, seq![])));
}

fn child_id_string(id: &str, k: usize) -> (r: String)
    ensures
        r@ == child_id(id@, k as nat),
{
    let mut r = id.to_owned();
    push_char(&mut r, '.');
    push_decimal(&mut r, k);
    assert(r@ =~= child_id(id@, k as nat));
    r
}

/// The link and cross-reference nodes of a line, with ids `id.0`, `id.1`, ...
pub fn inline_children(id: &str, line: &str, line_no: u32) -> (r: Vec<SemanticNode>)
    ensures
        models(r@) == spec_inline_children(id@, line@, line_no),
{
    reveal(spec_inline_children);
    proof {
        reveal_strlit("link");
        reveal_strlit("xref");
        assert("link"@ != "xref"@) by {
            assert("link"@[0] != "xref"@[0]);
        }
    }
    let mut children: Vec<SemanticNode> = Vec::new();
    let links = extract_inline_targets(line, "link:", "link");
    let ghost link_labels = strings_view(links@);
    let mut i: usize = 0;
    while i < links.len()
        invariant
            i <= links@.len(),
            children@.len() == i,
            link_labels == strings_view(links@),
            models(children@) == leaf_nodes(id@, "link"@, link_labels.take(i as int), 0, line_no),
        decreases links@.len() - i,
    {
        let cid = child_id_string(id, children.len());
        let ghost before = children@;
        let leaf = node(cid.as_str(), "link", links[i].as_str(), line_no, 0, Vec::new());
        proof {
            lemma_leaf_nodes_push(id@, "link"@, link_labels, 0, line_no, i as nat);
            crate::node::lemma_models_push(before, leaf);
            assert(models(Seq::<SemanticNode>::empty()) =~= Seq::<NodeModel>::empty());
        }
        children.push(leaf);
        i = i + 1;
    }
    assert(link_labels.take(i as int) =~= link_labels);
    let xrefs = extract_inline_targets(line, "xref:", "xref");
    let ghost xref_labels = strings_view(xrefs@);
    let ghost first = link_labels.len();
    let mut j: usize = 0;
    while j < xrefs.len()
        invariant
            j <= xrefs@.len(),
            xref_labels == strings_view(xrefs@),
            first == link_labels.len(),
            children@.len() == first + j,
            models(children@) == leaf_nodes(id@, "link"@, link_labels, 0, line_no) + leaf_nodes(
                id@,
                "xref"@,
                xref_labels.take(j as int),
                first,
                line_no,
            ),
        decreases xrefs@.len() - j,
    {
        let cid = child_id_string(id, children.len());
        let ghost before = children@;
        let leaf = node(cid.as_str(), "xref", xrefs[j].as_str(), line_no, 0, Vec::new());
        proof {
            lemma_leaf_nodes_push(id@, "xref"@, xref_labels, first, line_no, j as nat);
            crate::node::lemma_models_push(before, leaf);
            assert(models(Seq::<SemanticNode>::empty()) =~= Seq::<NodeModel>::empty());
        }
        children.push(leaf);
        j = j + 1;
    }
    assert(xref_labels.take(j as int) =~= xref_labels);
    assert(link_labels == spec_inline_targets(line@, "link:"@, false));
    assert(xref_labels == spec_inline_targets(line@, "xref:"@, true));
    children
}

/// A paragraph node for `line`, or `None` for a comment line.
pub fn inline_or_paragraph_node(id: &str, line: &str, line_no: u32) -> (r: Option<SemanticNode>)
    ensures
        opt_node(r) == spec_inline_or_paragraph_node(id@, line@, line_no),
{
    let children = inline_children(id, line, line_no);
    if children.len() == 0 && starts_with_chars(&to_chars(line), &to_chars("//")) {
        return None;
    }
    Some(node(id, "paragraph", line, line_no, 0, children))
}

/// The node of a line outside delimited blocks.
pub fn top_level_node(id: &str, line: &str, line_no: u32) -> (r: Option<SemanticNode>)
    ensures
        opt_node(r) == spec_top_level_node(id@, line@, line_no),
{
    assert(models(Seq::<SemanticNode>::empty()) =~= Seq::<NodeModel>::empty());
    if let Some((level, title)) = section_title(line) {
        let mut node_type = "section_level_".to_owned();
        push_decimal(&mut node_type, level);
        return Some(
            node(
                id,
                node_type.as_str(),
                title.as_str(),
                line_no,
                0,
                inline_children(id, line, line_no),
            ),
        );
    }
    if let Some(label) = attribute_label(line) {
        return Some(node(id, "attribute_entry", label.as_str(), line_no, 0, Vec::new()));
    }
    if let Some(label) = anchor_label(line) {
        return Some(node(id, "anchor", label.as_str(), line_no, 0, Vec::new()));
    }
    if let Some(label) = include_label(line) {
        return Some(node(id, "include_directive", label.as_str(), line_no, 0, Vec::new()));
    }
    if let Some((node_type, label)) = admonition_label(line) {
        return Some(
            node(id, node_type, label.as_str(), line_no, 0, inline_children(id, line, line_no)),
        );
    }
    if let Some(label) = image_label(line) {
        return Some(node(id, "image", label.as_str(), line_no, 0, Vec::new()));
    }
    if let Some(label) = list_item_label(line) {
        return Some(
            node(id, "list_item", label.as_str(), line_no, 0, inline_children(id, line, line_no)),
        );
    }
    inline_or_paragraph_node(id, line, line_no)
}

/// The text after the last line feed of `s` and, before it, the lines that
/// a line feed ends, without their line feeds.
pub open spec fn line_scan(s: Seq<char>) -> (Seq<Seq<char>>, Seq<char>)
    decreases s.len(),
{
    if s.len() == 0 {
        (seq![], seq![])
    } else {
        let (done, cur) = line_scan(s.drop_last());
        if s.last() == '\n' {
            (done.push(cur), seq![])
        } else {
            (done, cur.push(s.last()))
        }
    }
}

/// `l` without one final carriage return.
pub open spec fn strip_cr(l: Seq<char>) -> Seq<char> {
    if l.len() > 0 && l.last() == '\r' {
        l.drop_last()
    } else {
        l
    }
}

/// `str::lines`: the lines of `s`, split at `\n` or `\r\n`; a final line
/// ending adds no empty line.
pub open spec fn spec_lines(s: Seq<char>) -> Seq<Seq<char>> {
    let (done, cur) = line_scan(s);
    let ended = Seq::new(done.len(), |i: int| strip_cr(done[i]));
    if cur.len() > 0 {
        ended.push(cur)
    } else {
        ended
    }
}

pub open spec fn vecs_view(v: Seq<Vec<char>>) -> Seq<Seq<char>> {
    Seq::new(v.len(), |i: int| v[i]@)
}

fn strip_cr_chars(v: Vec<char>) -> (r: Vec<char>)
    ensures
        r@ == strip_cr(v@),
{
    let n = v.len();
    if n > 0 && v[n - 1] == '\r' {
        subvec(&v, 0, n - 1)
    } else {
        v
    }
}

/// The lines of `v`, as `str::lines` gives them.
pub fn split_lines(v: &Vec<char>) -> (r: Vec<Vec<char>>)
    ensures
        vecs_view(r@) == spec_lines(v@),
{
    let mut done: Vec<Vec<char>> = Vec::new();
    let mut cur: Vec<char> = Vec::new();
    let mut i: usize = 0;
    assert(v@.take(0) =~= Seq::<char>::empty());
    while i < v.len()
        invariant
            i <= v@.len(),
            vecs_view(done@) == Seq::new(
                line_scan(v@.take(i as int)).0.len(),
                |k: int| strip_cr(line_scan(v@.take(i as int)).0[k]),
            ),
            cur@ == line_scan(v@.take(i as int)).1,
        decreases v@.len() - i,
    {
        let ghost before = v@.take(i as int);
        let ghost old_done = vecs_view(done@);
        let ghost old_cur = cur@;
        assert(old_done == Seq::new(
            line_scan(before).0.len(),
            |k: int| strip_cr(line_scan(before).0[k]),
        ));
        let c = v[i];
        i = i + 1;
        assert(v@.take(i as int).drop_last() =~= before);
        assert(v@.take(i as int).last() == c);
        if c == '\n' {
            let ghost scanned = line_scan(before).0.push(line_scan(before).1);
            assert(line_scan(v@.take(i as int)).0 == scanned);
            let line = strip_cr_chars(cur);
            done.push(line);
            cur = Vec::new();
            assert forall|k: int| 0 <= k < scanned.len() implies vecs_view(done@)[k] == strip_cr(
                scanned[k],
            ) by {
                if k < old_done.len() {
                    assert(vecs_view(done@)[k] == old_done[k]);
                }
            }
            assert(vecs_view(done@) =~= Seq::new(scanned.len(), |k: int| strip_cr(scanned[k])));
        } else {
            cur.push(c);
            assert(vecs_view(done@) =~= old_done);
        }
    }
    assert(v@.take(i as int) =~= v@);
    if cur.len() > 0 {
        done.push(cur);
    }
    assert(vecs_view(done@) =~= spec_lines(v@));
    done
}

/// A delimited block that is open.
pub struct BlockFrame {
    pub delimiter: &'static str,
    pub node_type: &'static str,
    pub line: u32,
    pub label: String,
    pub children: Vec<SemanticNode>,
}

/// The value of an open delimited block.
pub struct BlockModel {
    pub delimiter: Seq<char>,
    pub node_type: Seq<char>,
    pub line: u32,
    pub label: Seq<char>,
    pub children: Seq<NodeModel>,
}

/// What the parser knows after some lines: the finished top-level nodes, the
/// open block if any, and the index of the last line read.
pub struct ParseState {
    pub children: Seq<NodeModel>,
    pub block: Option<BlockModel>,
    pub total_lines: u32,
}

pub open spec fn block_model(b: BlockFrame) -> BlockModel {
    BlockModel {
        delimiter: b.delimiter@,
        node_type: b.node_type@,
        line: b.line,
        label: b.label@,
        children: models(b.children@),
    }
}

pub open spec fn state_model(
    children: Seq<SemanticNode>,
    block: Option<BlockFrame>,
    total_lines: u32,
) -> ParseState {
    ParseState {
        children: models(children),
        block: match block {
            Some(b) => Some(block_model(b)),
            None => None,
        },
        total_lines,
    }
}

/// `0.k`: the id of the `k`-th top-level node.
pub open spec fn top_id(k: nat) -> Seq<char> {
    child_id(seq!['0'], k)
}

/// `block.k`: the id of the `k`-th node inside a delimited block.
pub open spec fn block_child_id(k: nat) -> Seq<char> {
    child_id("block"@, k)
}

/// The node of a delimited block, closed as the `k`-th top-level node.
pub open spec fn closed_block(k: nat, b: BlockModel) -> NodeModel {
    spec_node(top_id(k), b.node_type, b.label, b.line, 0, b.children)
}

/// The state after reading the line with index `index` and text `raw`.
#[verifier::opaque]
pub open spec fn parse_step(st: ParseState, index: nat, raw: Seq<char>) -> ParseState {
    let line = index as u32;
    let t = trim(raw);
    let unchanged = ParseState { children: st.children, block: st.block, total_lines: line };
    if t.len() == 0 {
        unchanged
    } else if let Some(active) = st.block {
        if t == active.delimiter {
            ParseState {
                children: st.children.push(closed_block(st.children.len(), active)),
                block: None,
                total_lines: line,
            }
        } else if let Some(child) = spec_inline_or_paragraph_node(
            block_child_id(active.children.len()),
            t,
            line,
        ) {
            ParseState {
                children: st.children,
                block: Some(
                    BlockModel {
                        delimiter: active.delimiter,
                        node_type: active.node_type,
                        line: active.line,
                        label: active.label,
                        children: active.children.push(child),
                    },
                ),
                total_lines: line,
            }
        } else {
            unchanged
        }
    } else if let Some((delimiter, node_type, label)) = spec_block_start(t) {
        ParseState {
            children: st.children,
            block: Some(BlockModel { delimiter, node_type, line, label, children: seq![] }),
            total_lines: line,
        }
    } else if let Some(n) = spec_top_level_node(top_id(st.children.len()), t, line) {
        ParseState { children: st.children.push(n), block: None, total_lines: line }
    } else {
        unchanged
    }
}

/// The state after reading the first `n` lines.
pub open spec fn parse_lines(lines: Seq<Seq<char>>, n: nat) -> ParseState
    decreases n,
{
    if n == 0 {
        ParseState { children: seq![], block: None, total_lines: 0 }
    } else {
        parse_step(parse_lines(lines, (n - 1) as nat), (n - 1) as nat, lines[n - 1])
    }
}

/// The top-level nodes once the input ends: a block still open is closed.
pub open spec fn final_children(st: ParseState) -> Seq<NodeModel> {
    match st.block {
        Some(b) => st.children.push(closed_block(st.children.len(), b)),
        None => st.children,
    }
}

/// The root node: id `0`, spanning from line 0 to the last line read.
pub open spec fn root_node(st: ParseState) -> NodeModel {
    let children = final_children(st);
    NodeModel {
        id: seq!['0'],
        node_type: ROOT_NODE_TYPE@,
        label: LANGUAGE_ID@,
        start_line: 0,
        start_col: 0,
        end_line: st.total_lines,
        end_col: 0,
        structural_hash: structural_hash(ROOT_NODE_TYPE@, LANGUAGE_ID@, model_hashes(children)),
        children,
    }
}

/// The tree of a whole document.
pub open spec fn spec_parse_asciidoc(source: Seq<char>) -> NodeModel {
    let lines = spec_lines(source);
    root_node(parse_lines(lines, lines.len()))
}

fn top_id_string(k: usize) -> (r: String)
    ensures
        r@ == top_id(k as nat),
{
    proof {
        reveal_strlit("0");
    }
    child_id_string("0", k)
}

/// Reads one line: returns the new top-level nodes and open block.
fn apply_line(
    children: Vec<SemanticNode>,
    block: Option<BlockFrame>,
    index: usize,
    raw: &Vec<char>,
) -> (r: (Vec<SemanticNode>, Option<BlockFrame>))
    ensures
        state_model(r.0@, r.1, index as u32) == parse_step(
            state_model(children@, block, 0),
            index as nat,
            raw@,
        ),
{
    reveal(parse_step);
    let mut children = children;
    let line = index as u32;
    let trimmed = trim_chars(raw);
    if trimmed.len() == 0 {
        return (children, block);
    }
    let text = from_chars(trimmed.as_slice());
    match block {
        Some(active) => {
            if chars_eq_str(&trimmed, active.delimiter) {
                let id = top_id_string(children.len());
                let ghost before = children@;
                let closed = node(
                    id.as_str(),
                    active.node_type,
                    active.label.as_str(),
                    active.line,
                    0,
                    active.children,
                );
                children.push(closed);
                proof {
                    crate::node::lemma_models_push(before, closed);
                }
                (children, None)
            } else {
                let mut active = active;
                let cid = child_id_string("block", active.children.len());
                match inline_or_paragraph_node(cid.as_str(), text.as_str(), line) {
                    Some(child) => {
                        let ghost before = active.children@;
                        active.children.push(child);
                        proof {
                            crate::node::lemma_models_push(before, child);
                        }
                    },
                    None => {},
                }
                (children, Some(active))
            }
        },
        None => {
            match block_start(text.as_str()) {
                Some((delimiter, node_type, label)) => {
                    let frame = BlockFrame {
                        delimiter,
                        node_type,
                        line,
                        label,
                        children: Vec::new(),
                    };
                    assert(models(frame.children@) =~= Seq::<NodeModel>::empty());
                    (children, Some(frame))
                },
                None => {
                    let id = top_id_string(children.len());
                    match top_level_node(id.as_str(), text.as_str(), line) {
                        Some(n) => {
                            let ghost before = children@;
                            children.push(n);
                            proof {
                                crate::node::lemma_models_push(before, n);
                            }
                        },
                        None => {},
                    }
                    (children, None)
                },
            }
        },
    }
}

proof fn lemma_step_ignores_total(st: ParseState, t: u32, index: nat, raw: Seq<char>)
    ensures
        parse_step(st, index, raw) == parse_step(
            ParseState { children: st.children, block: st.block, total_lines: t },
            index,
            raw,
        ),
{
    reveal(parse_step);
}

/// The root node once all lines are read.
fn finish(children: Vec<SemanticNode>, block: Option<BlockFrame>, total_lines: u32) -> (r:
    SemanticNode)
    ensures
        r@ == root_node(state_model(children@, block, total_lines)),
{
    let ghost st = state_model(children@, block, total_lines);
    let mut children = children;
    match block {
        Some(active) => {
            let id = top_id_string(children.len());
            let ghost before = children@;
            let closed = node(
                id.as_str(),
                active.node_type,
                active.label.as_str(),
                active.line,
                0,
                active.children,
            );
            children.push(closed);
            proof {
                crate::node::lemma_models_push(before, closed);
            }
        },
        None => {},
    }
    let hash = stable_hash(ROOT_NODE_TYPE, LANGUAGE_ID, children.as_slice());
    let root = SemanticNode {
        id: "0".to_owned(),
        node_type: ROOT_NODE_TYPE.to_owned(),
        label: LANGUAGE_ID.to_owned(),
        start_line: 0,
        start_col: 0,
        end_line: total_lines,
        end_col: 0,
        structural_hash: hash,
        children,
    };
    proof {
        crate::node::lemma_node_model_children(root);
        reveal_strlit("0");
        assert(models(children@) == final_children(st));
        assert(root@.id == seq!['0']);
        assert(root@.children == final_children(st));
        assert(root@.structural_hash == root_node(st).structural_hash);
    }
    root
}

/// Parses a document into its tree of semantic nodes.
pub fn parse_asciidoc(source: &str) -> (r: SemanticNode)
    ensures
        r@ == spec_parse_asciidoc(source@),
{
    let chars = to_chars(source);
    let lines = split_lines(&chars);
    let ghost ls = vecs_view(lines@);
    let mut children: Vec<SemanticNode> = Vec::new();
    let mut block: Option<BlockFrame> = None;
    let mut total_lines: u32 = 0;
    let mut index: usize = 0;
    assert(models(children@) =~= Seq::<NodeModel>::empty());
    while index < lines.len()
        invariant
            index <= lines@.len(),
            ls == vecs_view(lines@),
            state_model(children@, block, total_lines) == parse_lines(ls, index as nat),
        decreases lines@.len() - index,
    {
        proof {
            lemma_step_ignores_total(parse_lines(ls, index as nat), 0, index as nat, ls[index as int]);
        }
        let (c, b) = apply_line(children, block, index, &lines[index]);
        children = c;
        block = b;
        total_lines = index as u32;
        index = index + 1;
    }
    finish(children, block, total_lines)
}

} // verus!
