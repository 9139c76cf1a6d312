//! Properties of the parser that hold of every document.
use vstd::prelude::*;

use crate::document::{
    block_child_id, child_id, line_scan, strip_cr, closed_block, final_children, parse_lines, parse_step,
    root_node, spec_inline_children, spec_inline_or_paragraph_node, spec_lines,
    spec_parse_asciidoc, spec_top_level_node, top_id, BlockModel, ParseState,
};
use crate::hash::{hex16, hex_char, hex_digits, structural_hash};
use crate::labels::{
    equals_run, spec_admonition_label, spec_anchor_label, spec_attribute_label, spec_block_start,
    spec_image_label, spec_include_label, spec_inline_targets, spec_list_item_label,
    spec_section_title,
};
use crate::text::{digit_char, is_ws, starts_with, strip_prefix, trim, trim_end, trim_start};
use crate::labels::{label_before, nonempty};
use crate::node::{model_hashes, spec_node, NodeModel};

verus! {

/// Every node of the tree carries the hash of its own type, label and
/// children's hashes.
pub open spec fn well_hashed(n: NodeModel) -> bool
    decreases n,
{
    &&& n.structural_hash == structural_hash(n.node_type, n.label, model_hashes(n.children))
    &&& forall|i: int| 0 <= i < n.children.len() ==> well_hashed(#[trigger] n.children[i])
}

pub open spec fn all_well_hashed(s: Seq<NodeModel>) -> bool {
    forall|i: int| 0 <= i < s.len() ==> #[trigger] well_hashed(s[i])
}

proof fn lemma_spec_node_well_hashed(
    id: Seq<char>,
    node_type: Seq<char>,
    label: Seq<char>,
    line: u32,
    col: u32,
    children: Seq<NodeModel>,
)
    requires
        all_well_hashed(children),
    ensures
        well_hashed(spec_node(id, node_type, label, line, col, children)),
{
    let n = spec_node(id, node_type, label, line, col, children);
    assert(n.children == children);
    assert(n.structural_hash == structural_hash(node_type, label, model_hashes(children)));
    assert forall|i: int| 0 <= i < n.children.len() implies well_hashed(#[trigger] n.children[i]) by {
        assert(well_hashed(children[i]));
    }
}

proof fn lemma_inline_children_well_hashed(id: Seq<char>, line: Seq<char>, line_no: u32)
    ensures
        all_well_hashed(spec_inline_children(id, line, line_no)),
{
    reveal(spec_inline_children);
    let c = spec_inline_children(id, line, line_no);
    assert(all_well_hashed(Seq::<NodeModel>::empty()));
    assert forall|i: int| 0 <= i < c.len() implies #[trigger] well_hashed(c[i]) by {
        let links = crate::labels::spec_inline_targets(line, "link:"@, false);
        let xrefs = crate::labels::spec_inline_targets(line, "xref:"@, true);
        if i < links.len() {
            lemma_spec_node_well_hashed(
                child_id(id, i as nat),
                "link"@,
                links[i],
                line_no,
                0,
                seq![],
            );
        } else {
            lemma_spec_node_well_hashed(
                child_id(id, links.len() + (i - links.len()) as nat),
                "xref"@,
                xrefs[i - links.len()],
                line_no,
                0,
                seq![],
            );
        }
    }
}

/// Nodes whose children are all well hashed, or who have none, are well hashed.
proof fn lemma_nodes_of_line_well_hashed(id: Seq<char>, line: Seq<char>, line_no: u32)
    ensures
        forall|node_type: Seq<char>, label: Seq<char>|
            well_hashed(
                #[trigger] spec_node(
                    id,
                    node_type,
                    label,
                    line_no,
                    0,
                    spec_inline_children(id, line, line_no),
                ),
            ),
        forall|node_type: Seq<char>, label: Seq<char>|
            well_hashed(#[trigger] spec_node(id, node_type, label, line_no, 0, seq![])),
{
    lemma_inline_children_well_hashed(id, line, line_no);
    assert(all_well_hashed(Seq::<NodeModel>::empty()));
    assert forall|node_type: Seq<char>, label: Seq<char>|
        well_hashed(
            #[trigger] spec_node(
                id,
                node_type,
                label,
                line_no,
                0,
                spec_inline_children(id, line, line_no),
            ),
        ) by {
        lemma_spec_node_well_hashed(
            id,
            node_type,
            label,
            line_no,
            0,
            spec_inline_children(id, line, line_no),
        );
    }
    assert forall|node_type: Seq<char>, label: Seq<char>|
        well_hashed(#[trigger] spec_node(id, node_type, label, line_no, 0, seq![])) by {
        lemma_spec_node_well_hashed(id, node_type, label, line_no, 0, seq![]);
    }
}

proof fn lemma_paragraph_well_hashed(id: Seq<char>, line: Seq<char>, line_no: u32)
    ensures
        spec_inline_or_paragraph_node(id, line, line_no) matches Some(n) ==> well_hashed(n)
            && n.id == id && n.start_line == line_no,
{
    lemma_nodes_of_line_well_hashed(id, line, line_no);
}

proof fn lemma_top_level_well_hashed(id: Seq<char>, line: Seq<char>, line_no: u32)
    ensures
        spec_top_level_node(id, line, line_no) matches Some(n) ==> well_hashed(n) && n.id == id
            && n.start_line == line_no,
{
    lemma_nodes_of_line_well_hashed(id, line, line_no);
    lemma_paragraph_well_hashed(id, line, line_no);
}

/// What holds after every line: the top-level nodes are numbered `0.0`,
/// `0.1`, ... and all nodes, in or out of an open block, are well hashed.
pub open spec fn state_invariant(st: ParseState) -> bool {
    &&& all_well_hashed(st.children)
    &&& forall|k: int| 0 <= k < st.children.len() ==> (#[trigger] st.children[k]).id == top_id(
        k as nat,
    )
    &&& st.block matches Some(b) ==> all_well_hashed(b.children)
}

proof fn lemma_step_invariant(st: ParseState, index: nat, raw: Seq<char>)
    requires
        state_invariant(st),
    ensures
        state_invariant(parse_step(st, index, raw)),
{
    reveal(parse_step);
    let line = index as u32;
    let t = crate::text::trim(raw);
    let next = parse_step(st, index, raw);
    if t.len() == 0 {
        assert(next.children == st.children && next.block == st.block);
    } else if let Some(active) = st.block {
        if t == active.delimiter {
            let closed = closed_block(st.children.len(), active);
            lemma_spec_node_well_hashed(
                top_id(st.children.len()),
                active.node_type,
                active.label,
                active.line,
                0,
                active.children,
            );
            assert(next.children == st.children.push(closed));
            assert(next.block is None);
        } else {
            lemma_paragraph_well_hashed(block_child_id(active.children.len()), t, line);
            assert(next.children == st.children);
        }
    } else if let Some((delimiter, node_type, label)) = crate::labels::spec_block_start(t) {
        assert(next.children == st.children);
        assert(next.block == Some(BlockModel { delimiter, node_type, line, label, children: seq![] }));
    } else {
        lemma_top_level_well_hashed(top_id(st.children.len()), t, line);
        assert(next.block is None);
    }
}

proof fn lemma_lines_invariant(lines: Seq<Seq<char>>, n: nat)
    ensures
        state_invariant(parse_lines(lines, n)),
    decreases n,
{
    if n > 0 {
        lemma_lines_invariant(lines, (n - 1) as nat);
        lemma_step_invariant(parse_lines(lines, (n - 1) as nat), (n - 1) as nat, lines[n - 1]);
    }
}

/// Every node of a parsed document carries the structural hash of its own
/// node type, label and children's hashes, so that equal subtrees hash alike.
pub proof fn law_tree_is_well_hashed(source: Seq<char>)
    ensures
        well_hashed(spec_parse_asciidoc(source)),
{
    let lines = spec_lines(source);
    let st = parse_lines(lines, lines.len());
    lemma_lines_invariant(lines, lines.len());
    lemma_root_well_hashed(st);
}

proof fn lemma_root_well_hashed(st: ParseState)
    requires
        state_invariant(st),
    ensures
        well_hashed(root_node(st)),
{
    let children = final_children(st);
    if let Some(b) = st.block {
        lemma_spec_node_well_hashed(top_id(st.children.len()), b.node_type, b.label, b.line, 0, b.children);
        assert(children == st.children.push(closed_block(st.children.len(), b)));
    }
    assert(all_well_hashed(children));
    let root = root_node(st);
    assert(root.children == children);
    assert forall|i: int| 0 <= i < root.children.len() implies well_hashed(#[trigger] root.children[i]) by {
        assert(well_hashed(children[i]));
    }
}

/// The root of a parsed document has id `0`, and its `k`-th child has id `0.k`.
pub proof fn law_top_level_ids(source: Seq<char>)
    ensures
        spec_parse_asciidoc(source).id == seq!['0'],
        forall|k: int|
            0 <= k < spec_parse_asciidoc(source).children.len() ==> (#[trigger] spec_parse_asciidoc(
                source,
            ).children[k]).id == child_id(seq!['0'], k as nat),
{
    let lines = spec_lines(source);
    lemma_lines_invariant(lines, lines.len());
}

/// After `n` lines, of which there are at most 2^32: the top-level nodes
/// stand in the order of their lines, all before the open block's line, and
/// the last line read has index `n - 1`.
pub open spec fn ordered_after(st: ParseState, n: nat) -> bool {
    &&& forall|j: int, k: int|
        0 <= j < k < st.children.len() ==> #[trigger] st.children[j].start_line
            < #[trigger] st.children[k].start_line
    &&& forall|k: int| 0 <= k < st.children.len() ==> #[trigger] st.children[k].start_line < n
    &&& st.block matches Some(b) ==> {
        &&& b.line < n
        &&& forall|k: int| 0 <= k < st.children.len() ==> #[trigger] st.children[k].start_line
            < b.line
    }
    &&& n > 0 ==> st.total_lines == n - 1
    &&& n == 0 ==> st.total_lines == 0
}

proof fn lemma_step_ordered(st: ParseState, index: nat, raw: Seq<char>)
    requires
        index < 0x1_0000_0000,
        ordered_after(st, index),
    ensures
        ordered_after(parse_step(st, index, raw), index + 1),
{
    reveal(parse_step);
    let line = index as u32;
    assert(line == index);
    let t = trim(raw);
    let next = parse_step(st, index, raw);
    if t.len() == 0 {
        assert(next.children == st.children && next.block == st.block);
    } else if let Some(active) = st.block {
        if t == active.delimiter {
            let closed = closed_block(st.children.len(), active);
            assert(next.children == st.children.push(closed));
            assert(closed.start_line == active.line);
        } else {
            assert(next.children == st.children);
            lemma_paragraph_well_hashed(block_child_id(active.children.len()), t, line);
        }
    } else if let Some((delimiter, node_type, label)) = spec_block_start(t) {
        assert(next.children == st.children);
    } else {
        lemma_top_level_well_hashed(top_id(st.children.len()), t, line);
    }
}

proof fn lemma_lines_ordered(lines: Seq<Seq<char>>, n: nat)
    requires
        n <= 0x1_0000_0000,
    ensures
        ordered_after(parse_lines(lines, n), n),
    decreases n,
{
    if n > 0 {
        lemma_lines_ordered(lines, (n - 1) as nat);
        lemma_step_ordered(parse_lines(lines, (n - 1) as nat), (n - 1) as nat, lines[n - 1]);
    }
}

/// In a document of at most 2^32 lines, the nodes under the root stand in the
/// order of the lines they start on, and none starts after the root's last line.
pub proof fn law_top_level_nodes_in_line_order(source: Seq<char>)
    requires
        spec_lines(source).len() <= 0x1_0000_0000,
    ensures
        forall|j: int, k: int|
            0 <= j < k < spec_parse_asciidoc(source).children.len() ==> (
            #[trigger] spec_parse_asciidoc(source).children[j]).start_line < (
            #[trigger] spec_parse_asciidoc(source).children[k]).start_line,
        forall|k: int|
            0 <= k < spec_parse_asciidoc(source).children.len() ==> (
            #[trigger] spec_parse_asciidoc(source).children[k]).start_line
                <= spec_parse_asciidoc(source).end_line,
{
    let lines = spec_lines(source);
    let st = parse_lines(lines, lines.len());
    lemma_lines_ordered(lines, lines.len());
    let children = final_children(st);
    if let Some(b) = st.block {
        assert(children == st.children.push(closed_block(st.children.len(), b)));
        assert(closed_block(st.children.len(), b).start_line == b.line);
    }
    assert(spec_parse_asciidoc(source).children == children);
    assert(spec_parse_asciidoc(source).end_line == st.total_lines);
}

proof fn lemma_line_scan_push(s: Seq<char>, c: char)
    ensures
        line_scan(s.push(c)) == (if c == '\n' {
            (line_scan(s).0.push(line_scan(s).1), Seq::<char>::empty())
        } else {
            (line_scan(s).0, line_scan(s).1.push(c))
        }),
{
    assert(s.push(c).drop_last() =~= s);
}

/// A final line ending adds no line: where `s` is not empty and does not end
/// with a line feed, `s` followed by `\r\n` has the lines of `s`, and so has
/// `s` followed by `\n` unless `s` ends with a carriage return.
pub proof fn law_final_line_ending_adds_no_line(s: Seq<char>)
    requires
        s.len() > 0,
        s.last() != '\n',
    ensures
        s.last() != '\r' ==> spec_lines(s.push('\n')) == spec_lines(s),
        spec_lines(s.push('\r').push('\n')) == spec_lines(s),
{
    let (done, cur) = line_scan(s);
    lemma_line_scan_push(s.drop_last(), s.last());
    assert(s.drop_last().push(s.last()) =~= s);
    assert(cur.len() > 0);
    assert(cur.last() == s.last());
    lemma_line_scan_push(s, '\n');
    lemma_line_scan_push(s, '\r');
    lemma_line_scan_push(s.push('\r'), '\n');
    let ended = Seq::new(done.len(), |i: int| strip_cr(done[i]));
    assert(spec_lines(s) == ended.push(cur));
    assert(cur.push('\r').drop_last() =~= cur);
    if s.last() != '\r' {
        assert(spec_lines(s.push('\n')) =~= ended.push(cur));
    }
    assert(spec_lines(s.push('\r').push('\n')) =~= ended.push(cur));
}

/// A final line ending changes nothing in the tree of a document.
pub proof fn law_final_line_ending_changes_nothing(s: Seq<char>)
    requires
        s.len() > 0,
        s.last() != '\n',
    ensures
        s.last() != '\r' ==> spec_parse_asciidoc(s.push('\n')) == spec_parse_asciidoc(s),
        spec_parse_asciidoc(s.push('\r').push('\n')) == spec_parse_asciidoc(s),
{
    law_final_line_ending_adds_no_line(s);
}

/// A lowercase hexadecimal digit.
pub open spec fn is_lower_hex(c: char) -> bool {
    ('0' <= c <= '9') || ('a' <= c <= 'f')
}

proof fn lemma_hex_digits(h: nat, n: nat)
    ensures
        hex_digits(h, n).len() == n,
        forall|i: int| 0 <= i < n ==> is_lower_hex(#[trigger] hex_digits(h, n)[i]),
    decreases n,
{
    if n > 0 {
        lemma_hex_digits(h / 16, (n - 1) as nat);
        let d = h % 16;
        assert(is_lower_hex(hex_char(d))) by {
            if d < 10 {
                assert(is_lower_hex(digit_char(d)));
            }
        }
    }
}

/// Every structural hash is sixteen lowercase hexadecimal digits.
pub proof fn law_hash_is_sixteen_hex_digits(
    node_type: Seq<char>,
    label: Seq<char>,
    child_hashes: Seq<Seq<char>>,
)
    ensures
        structural_hash(node_type, label, child_hashes).len() == 16,
        forall|i: int|
            0 <= i < 16 ==> is_lower_hex(
                #[trigger] structural_hash(node_type, label, child_hashes)[i],
            ),
{
    reveal(structural_hash);
    let h = crate::hash::fnv1a(vstd::utf8::encode_utf8(crate::hash::hash_input(node_type, label, child_hashes)));
    lemma_hex_digits(h as nat, 16);
    assert(structural_hash(node_type, label, child_hashes) == hex16(h));
}

/// A node's hash depends on its type, its label and its children only, not on
/// its id or its position in the document.
pub proof fn law_hash_ignores_id_and_position(
    id1: Seq<char>,
    id2: Seq<char>,
    node_type: Seq<char>,
    label: Seq<char>,
    line1: u32,
    line2: u32,
    col1: u32,
    col2: u32,
    children: Seq<NodeModel>,
)
    ensures
        spec_node(id1, node_type, label, line1, col1, children).structural_hash == spec_node(
            id2,
            node_type,
            label,
            line2,
            col2,
            children,
        ).structural_hash,
{
}

proof fn lemma_no_prefix(s: Seq<char>, p: Seq<char>)
    requires
        s.len() > 0,
        p.len() > 0,
        s[0] != p[0],
    ensures
        strip_prefix(s, p) is None,
{
    if p.len() <= s.len() {
        assert(s.subrange(0, p.len() as int)[0] != p[0]);
    }
}

/// A line whose trimmed text starts with `//` is no section title, attribute
/// entry, anchor, include, admonition, image, list item or block delimiter.
proof fn lemma_comment_is_no_construct(t: Seq<char>)
    requires
        t.len() >= 2,
        t[0] == '/',
    ensures
        spec_section_title(t) is None,
        spec_attribute_label(t) is None,
        spec_anchor_label(t) is None,
        spec_include_label(t) is None,
        spec_admonition_label(t) is None,
        spec_image_label(t) is None,
        spec_list_item_label(t) is None,
        spec_block_start(t) is None,
{
    reveal(spec_section_title);
    reveal(spec_attribute_label);
    reveal(spec_anchor_label);
    reveal(spec_include_label);
    reveal(spec_admonition_label);
    reveal(spec_image_label);
    reveal(spec_list_item_label);
    reveal(spec_block_start);
    reveal_strlit("[[");
    reveal_strlit("[#");
    reveal_strlit("include::");
    reveal_strlit("NOTE:");
    reveal_strlit("TIP:");
    reveal_strlit("IMPORTANT:");
    reveal_strlit("WARNING:");
    reveal_strlit("CAUTION:");
    reveal_strlit("image::");
    reveal_strlit("image:");
    reveal_strlit("* ");
    reveal_strlit("- ");
    reveal_strlit(". ");
    reveal_strlit("----");
    reveal_strlit("====");
    reveal_strlit("....");
    reveal_strlit("____");
    reveal_strlit("****");
    assert(equals_run(t) == 0);
    lemma_no_prefix(t, "[["@);
    lemma_no_prefix(t, "[#"@);
    lemma_no_prefix(t, "include::"@);
    lemma_no_prefix(t, "NOTE:"@);
    lemma_no_prefix(t, "TIP:"@);
    lemma_no_prefix(t, "IMPORTANT:"@);
    lemma_no_prefix(t, "WARNING:"@);
    lemma_no_prefix(t, "CAUTION:"@);
    lemma_no_prefix(t, "image::"@);
    lemma_no_prefix(t, "image:"@);
    assert(!is_ws(t[0]));
    assert(trim_start(t) == t);
    lemma_no_prefix(t, "* "@);
    lemma_no_prefix(t, "- "@);
    lemma_no_prefix(t, ". "@);
    assert(t != "----"@ && t != "===="@ && t != "...."@ && t != "____"@ && t != "****"@);
}

/// A comment line: its trimmed text starts with `//` and holds no link or
/// cross-reference target.
pub open spec fn is_comment(t: Seq<char>) -> bool {
    &&& starts_with(t, "//"@)
    &&& spec_inline_targets(t, "link:"@, false).len() == 0
    &&& spec_inline_targets(t, "xref:"@, true).len() == 0
}

/// A blank line, and a comment line that does not close the open block, add
/// nothing to the tree: only the index of the last line read moves on.
pub proof fn law_blank_and_comment_lines_add_nothing(st: ParseState, index: nat, raw: Seq<char>)
    requires
        trim(raw).len() == 0 || (is_comment(trim(raw)) && (st.block matches Some(b) ==> trim(raw)
            != b.delimiter)),
    ensures
        parse_step(st, index, raw) == (ParseState {
            children: st.children,
            block: st.block,
            total_lines: index as u32,
        }),
{
    reveal(parse_step);
    let t = trim(raw);
    let line = index as u32;
    if t.len() > 0 {
        reveal_strlit("//");
        assert(t.subrange(0, 2) == "//"@);
        assert(t[0] == t.subrange(0, 2)[0]);
        lemma_comment_is_no_construct(t);
        reveal(spec_inline_children);
        let id = match st.block {
            Some(active) => block_child_id(active.children.len()),
            None => top_id(st.children.len()),
        };
        assert(spec_inline_children(id, t, line).len() == 0);
        assert(spec_inline_or_paragraph_node(id, t, line) is None);
    }
}

/// `t` has no whitespace at either end.
pub open spec fn is_trimmed(t: Seq<char>) -> bool {
    t.len() == 0 || (!is_ws(t[0]) && !is_ws(t.last()))
}

proof fn lemma_trim_start_shape(s: Seq<char>)
    ensures
        trim_start(s).len() <= s.len(),
        trim_start(s) == s.skip(s.len() - trim_start(s).len()),
        trim_start(s).len() > 0 ==> !is_ws(trim_start(s)[0]),
    decreases s.len(),
{
    if s.len() > 0 && is_ws(s[0]) {
        lemma_trim_start_shape(s.drop_first());
        assert(s.drop_first().skip(s.drop_first().len() - trim_start(s).len()) =~= s.skip(
            s.len() - trim_start(s).len(),
        ));
    } else {
        assert(s.skip(0) =~= s);
    }
}

proof fn lemma_trim_end_shape(s: Seq<char>)
    ensures
        trim_end(s).len() <= s.len(),
        trim_end(s) == s.take(trim_end(s).len() as int),
        trim_end(s).len() > 0 ==> !is_ws(trim_end(s).last()),
    decreases s.len(),
{
    if s.len() > 0 && is_ws(s.last()) {
        lemma_trim_end_shape(s.drop_last());
        assert(s.drop_last().take(trim_end(s).len() as int) =~= s.take(trim_end(s).len() as int));
    } else {
        assert(s.take(s.len() as int) =~= s);
    }
}

/// `trim` leaves no whitespace at either end.
pub proof fn lemma_trim_is_trimmed(s: Seq<char>)
    ensures
        is_trimmed(trim(s)),
{
    let u = trim_start(s);
    lemma_trim_start_shape(s);
    lemma_trim_end_shape(u);
    let t = trim_end(u);
    if t.len() > 0 {
        assert(t[0] == u[0]);
    }
}

proof fn lemma_label_before_trimmed(rest: Seq<char>, close: Seq<char>)
    ensures
        label_before(rest, close) matches Some(l) ==> is_trimmed(l) && l.len() > 0,
{
    if let Some((label, _)) = crate::text::split_once(rest, close) {
        lemma_trim_is_trimmed(label);
    }
}

/// The label that a section title, attribute entry, anchor, include,
/// admonition, image or list item line yields has no whitespace at either
/// end, and that of an attribute entry, anchor, include or image is not empty.
pub proof fn law_labels_are_trimmed(line: Seq<char>)
    ensures
        spec_section_title(line) matches Some((_, t)) ==> is_trimmed(t),
        spec_attribute_label(line) matches Some(t) ==> is_trimmed(t) && t.len() > 0,
        spec_anchor_label(line) matches Some(t) ==> is_trimmed(t) && t.len() > 0,
        spec_include_label(line) matches Some(t) ==> is_trimmed(t) && t.len() > 0,
        spec_admonition_label(line) matches Some((_, t)) ==> is_trimmed(t),
        spec_image_label(line) matches Some(t) ==> is_trimmed(t) && t.len() > 0,
        spec_list_item_label(line) matches Some(t) ==> is_trimmed(t),
{
    reveal(spec_section_title);
    reveal(spec_attribute_label);
    reveal(spec_anchor_label);
    reveal(spec_include_label);
    reveal(spec_admonition_label);
    reveal(spec_image_label);
    reveal(spec_list_item_label);
    assert forall|x: Seq<char>| #[trigger] is_trimmed(trim(x)) by {
        lemma_trim_is_trimmed(x);
    }
    assert forall|rest: Seq<char>, close: Seq<char>|
        #[trigger] label_before(rest, close) matches Some(l) ==> is_trimmed(l) && l.len() > 0 by {
        lemma_label_before_trimmed(rest, close);
    }
    if line.len() > 0 && line[0] == ':' {
        if let Some(j) = crate::text::find(line.skip(1), seq![':']) {
            let end = j + 1;
            let name = trim(line.subrange(1, end));
            let value = trim(line.skip(end + 1));
            lemma_trim_is_trimmed(line.subrange(1, end));
            lemma_trim_is_trimmed(line.skip(end + 1));
            if name.len() > 0 && value.len() > 0 {
                let t = name + seq![':', ' '] + value;
                assert(t[0] == name[0]);
                assert(t.last() == value.last());
            }
        }
    }
}

} // verus!
