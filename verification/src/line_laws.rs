//! What a line, a file name and a hash input yield, stated over their parts.
use vstd::prelude::*;

use crate::text::{find, first_occurrence, lemma_find_first, occurs_at, trim};
use crate::labels::{
    spec_admonition_label, spec_anchor_label, spec_attribute_label, spec_image_label,
    spec_include_label, spec_inline_targets, spec_list_item_label, spec_section_title,
};
use crate::document::{child_id, spec_inline_children, spec_top_level_node};
use crate::node::{spec_node, NodeModel};
use crate::text::trim_start_char;
use crate::plugin::spec_has_asciidoc_extension;
use crate::text::ends_with;
use crate::DETECT_EXTENSIONS;
use crate::hash::{hash_input, structural_hash};
use crate::laws::law_hash_is_sixteen_hex_digits;

verus! {

/// `c` does not occur in `s`.
pub open spec fn lacks(s: Seq<char>, c: char) -> bool {
    forall|i: int| 0 <= i < s.len() ==> s[i] != c
}

/// An attribute entry `:name:rest` is labelled with the trimmed name and, where
/// the trimmed rest is not empty, `": "` and the whole trimmed rest; an entry
/// with an empty name is no attribute entry.
pub proof fn law_attribute_label_parts(name: Seq<char>, rest: Seq<char>)
    requires
        lacks(name, ':'),
    ensures
        ({
            let line = seq![':'] + name + seq![':'] + rest;
            &&& trim(name).len() == 0 ==> spec_attribute_label(line) is None
            &&& trim(name).len() > 0 && trim(rest).len() == 0 ==> spec_attribute_label(line)
                == Some(trim(name))
            &&& trim(name).len() > 0 && trim(rest).len() > 0 ==> spec_attribute_label(line)
                == Some(trim(name) + seq![':', ' '] + trim(rest))
        }),
{
    reveal(spec_attribute_label);
    let line = seq![':'] + name + seq![':'] + rest;
    let after = line.skip(1);
    assert(after =~= name + seq![':'] + rest);
    assert(occurs_at(after, seq![':'], name.len() as int)) by {
        assert(after.subrange(name.len() as int, name.len() + 1int) =~= seq![':']);
    }
    assert forall|j: int| 0 <= j < name.len() implies !occurs_at(after, seq![':'], j) by {
        assert(after.subrange(j, j + 1)[0] == name[j]);
    }
    assert(first_occurrence(after, seq![':'], name.len() as int));
    lemma_find_first(after, seq![':'], name.len() as int);
    let end: int = name.len() + 1int;
    assert(line.subrange(1, end) =~= name);
    assert(line.skip(end + 1) =~= rest);
    assert(line.len() > 0 && line[0] == ':');
}

/// `name` is some text followed by `ext`.
pub open spec fn has_suffix(name: Seq<char>, ext: Seq<char>) -> bool {
    exists|pre: Seq<char>| name == pre + ext
}

proof fn lemma_ends_with_is_suffix(name: Seq<char>, ext: Seq<char>)
    ensures
        ends_with(name, ext) <==> has_suffix(name, ext),
{
    if ends_with(name, ext) {
        let pre = name.take(name.len() - ext.len());
        assert(name =~= pre + ext);
    }
    if has_suffix(name, ext) {
        let pre = choose|pre: Seq<char>| name == pre + ext;
        assert(name.subrange(pre.len() as int, pre.len() + ext.len() as int) =~= ext);
    }
}

/// A file name is taken for AsciiDoc exactly when it ends with `.adoc`,
/// `.asciidoc` or `.asc`; so a name whose last character is not `c`, such as
/// one ending in `.bak`, is not.
pub proof fn law_extension_is_a_suffix(name: Seq<char>)
    ensures
        spec_has_asciidoc_extension(name) <==> (has_suffix(name, ".adoc"@) || has_suffix(
            name,
            ".asciidoc"@,
        ) || has_suffix(name, ".asc"@)),
        name.len() == 0 || name.last() != 'c' ==> !spec_has_asciidoc_extension(name),
{
    reveal_strlit(".adoc");
    reveal_strlit(".asciidoc");
    reveal_strlit(".asc");
    assert(DETECT_EXTENSIONS@ =~= seq![".adoc", ".asciidoc", ".asc"]);
    lemma_ends_with_is_suffix(name, ".adoc"@);
    lemma_ends_with_is_suffix(name, ".asciidoc"@);
    lemma_ends_with_is_suffix(name, ".asc"@);
    if spec_has_asciidoc_extension(name) {
        let i = choose|i: int|
            0 <= i < DETECT_EXTENSIONS@.len() && ends_with(name, DETECT_EXTENSIONS@[i]@);
        assert(i == 0 || i == 1 || i == 2);
        let ext = DETECT_EXTENSIONS@[i]@;
        assert(name.subrange(name.len() - ext.len(), name.len() as int) == ext);
        assert(name.last() == name.subrange(name.len() - ext.len(), name.len() as int)[ext.len()
            - 1]);
    }
    if has_suffix(name, ".adoc"@) {
        assert(ends_with(name, DETECT_EXTENSIONS@[0]@));
    }
    if has_suffix(name, ".asciidoc"@) {
        assert(ends_with(name, DETECT_EXTENSIONS@[1]@));
    }
    if has_suffix(name, ".asc"@) {
        assert(ends_with(name, DETECT_EXTENSIONS@[2]@));
    }
}

proof fn lemma_hash_input_len(t: Seq<char>, l: Seq<char>, hs: Seq<Seq<char>>)
    ensures
        hash_input(t, l, hs).len() >= t.len() + 1 + l.len() + hs.len(),
    decreases hs.len(),
{
    if hs.len() > 0 {
        lemma_hash_input_len(t, l, hs.drop_last());
    }
}

/// Where `a1 | h1 == a2 | h2` and neither `h1` nor `h2` holds a bar, the two
/// splits are the same.
proof fn lemma_last_bar_split(a1: Seq<char>, h1: Seq<char>, a2: Seq<char>, h2: Seq<char>)
    requires
        a1.push('|') + h1 == a2.push('|') + h2,
        lacks(h1, '|'),
        lacks(h2, '|'),
    ensures
        a1 == a2,
        h1 == h2,
{
    let s = a1.push('|') + h1;
    if h1.len() < h2.len() {
        let p = s.len() - h1.len() - 1;
        assert(s[p] == '|');
        assert(s[p] == h2[p - a2.len() - 1]);
    } else if h2.len() < h1.len() {
        let p = s.len() - h2.len() - 1;
        assert(s[p] == '|');
        assert(s[p] == h1[p - a1.len() - 1]);
    }
    assert(h1 =~= s.skip(s.len() - h1.len()));
    assert(h2 =~= s.skip(s.len() - h2.len()));
    assert(a1 =~= s.take(a1.len() as int));
    assert(a2 =~= s.take(a2.len() as int));
}

/// No structural hash holds a bar, so the children's hashes in a hash input
/// are told apart (see `law_hash_input_determines_child_hashes`).
pub proof fn law_hashes_hold_no_bar(node_type: Seq<char>, label: Seq<char>, hs: Seq<Seq<char>>)
    ensures
        lacks(structural_hash(node_type, label, hs), '|'),
{
    law_hash_is_sixteen_hex_digits(node_type, label, hs);
}

/// The text hashed for a node holds each child's hash in order, after a bar:
/// where no child hash holds a bar (no hash does: they are hexadecimal), two
/// nodes of the same type and label have the same hash input only if their
/// children's hashes are the same, in the same order.
pub proof fn law_hash_input_determines_child_hashes(
    node_type: Seq<char>,
    label: Seq<char>,
    hs1: Seq<Seq<char>>,
    hs2: Seq<Seq<char>>,
)
    requires
        forall|i: int| 0 <= i < hs1.len() ==> lacks(#[trigger] hs1[i], '|'),
        forall|i: int| 0 <= i < hs2.len() ==> lacks(#[trigger] hs2[i], '|'),
        hash_input(node_type, label, hs1) == hash_input(node_type, label, hs2),
    ensures
        hs1 == hs2,
    decreases hs1.len() + hs2.len(),
{
    if hs1.len() == 0 && hs2.len() == 0 {
        assert(hs1 =~= hs2);
    } else if hs1.len() == 0 {
        lemma_hash_input_len(node_type, label, hs2);
    } else if hs2.len() == 0 {
        lemma_hash_input_len(node_type, label, hs1);
    } else {
        lemma_last_bar_split(
            hash_input(node_type, label, hs1.drop_last()),
            hs1.last(),
            hash_input(node_type, label, hs2.drop_last()),
            hs2.last(),
        );
        law_hash_input_determines_child_hashes(node_type, label, hs1.drop_last(), hs2.drop_last());
        assert(hs1 =~= hs1.drop_last().push(hs1.last()));
        assert(hs2 =~= hs2.drop_last().push(hs2.last()));
    }
}

/// `k` characters `#` followed by `s`.
pub open spec fn after_hashes(k: nat, s: Seq<char>) -> Seq<char> {
    Seq::new(k, |i: int| '#') + s
}

proof fn lemma_trim_start_hashes(s: Seq<char>)
    ensures
        s == after_hashes((s.len() - trim_start_char(s, '#').len()) as nat, trim_start_char(s, '#')),
        trim_start_char(s, '#').len() <= s.len(),
        trim_start_char(s, '#').len() == 0 || trim_start_char(s, '#')[0] != '#',
    decreases s.len(),
{
    let r = trim_start_char(s, '#');
    if s.len() > 0 && s[0] == '#' {
        lemma_trim_start_hashes(s.drop_first());
        let k = (s.len() - r.len()) as nat;
        assert(trim_start_char(s.drop_first(), '#') == r);
        let d = s.drop_first();
        assert(d == after_hashes((d.len() - r.len()) as nat, r));
        assert(after_hashes(k, r).len() == s.len());
        assert forall|i: int| 0 <= i < s.len() implies s[i] == after_hashes(k, r)[i] by {
            if i > 0 {
                assert(s[i] == d[i - 1]);
                assert(d[i - 1] == after_hashes((d.len() - r.len()) as nat, r)[i - 1]);
            }
        }
        assert(s =~= after_hashes(k, r));
    } else {
        assert(s =~= after_hashes(0, r));
    }
}

/// The inline targets of a line `a prefix t[b`, where the prefix does not
/// occur before `a` ends and `t` holds no `[`: first the trimmed `t` (for
/// cross-references without its leading `#` characters, and only those),
/// unless that is empty, then the targets of `b`.
pub proof fn law_inline_target_parts(
    a: Seq<char>,
    prefix: Seq<char>,
    t: Seq<char>,
    b: Seq<char>,
    xref: bool,
)
    requires
        forall|j: int|
            0 <= j < a.len() ==> !occurs_at(a + prefix + t + seq!['['] + b, prefix, j),
        lacks(t, '['),
    ensures
        ({
            let ts = spec_inline_targets(a + prefix + t + seq!['['] + b, prefix, xref);
            let rest = spec_inline_targets(b, prefix, xref);
            &&& trim(t).len() == 0 ==> ts == rest
            &&& trim(t).len() > 0 ==> {
                &&& ts.len() == rest.len() + 1
                &&& ts.skip(1) == rest
                &&& !xref ==> ts[0] == trim(t)
                &&& xref ==> exists|k: nat|
                    trim(t) == after_hashes(k, ts[0]) && (ts[0].len() == 0 || ts[0][0] != '#')
            }
        }),
{
    reveal(spec_inline_targets);
    let line = a + prefix + t + seq!['['] + b;
    assert(occurs_at(line, prefix, a.len() as int)) by {
        assert(line.subrange(a.len() as int, a.len() + prefix.len() as int) =~= prefix);
    }
    lemma_find_first(line, prefix, a.len() as int);
    let after = line.skip(a.len() + prefix.len() as int);
    assert(after =~= t + seq!['['] + b);
    assert(occurs_at(after, seq!['['], t.len() as int)) by {
        assert(after.subrange(t.len() as int, t.len() + 1int) =~= seq!['[']);
    }
    assert forall|j: int| 0 <= j < t.len() implies !occurs_at(after, seq!['['], j) by {
        assert(after.subrange(j, j + 1)[0] == t[j]);
    }
    lemma_find_first(after, seq!['['], t.len() as int);
    assert(after.take(t.len() as int) =~= t);
    assert(after.skip(t.len() + 1int) =~= b);
    let ts = spec_inline_targets(line, prefix, xref);
    let rest = spec_inline_targets(b, prefix, xref);
    let target = trim(t);
    if target.len() > 0 {
        let first = if xref { trim_start_char(target, '#') } else { target };
        assert(ts == seq![first] + rest);
        assert(ts.skip(1) =~= rest);
        if xref {
            lemma_trim_start_hashes(target);
            let k = (target.len() - first.len()) as nat;
            assert(target == after_hashes(k, ts[0]));
        }
    } else {
        assert(ts =~= rest);
    }
}

/// The children of `n` are, in order, one `link` node for each link target
/// of `line` and then one `xref` node for each cross-reference target, each
/// labelled with its target, numbered `id.0`, `id.1`, ..., on line `line_no`
/// and without children of its own.
pub open spec fn carries_inline_children(
    n: NodeModel,
    id: Seq<char>,
    line: Seq<char>,
    line_no: u32,
) -> bool {
    let links = spec_inline_targets(line, "link:"@, false);
    let xrefs = spec_inline_targets(line, "xref:"@, true);
    &&& n.children.len() == links.len() + xrefs.len()
    &&& forall|k: int|
        0 <= k < n.children.len() ==> {
            &&& (#[trigger] n.children[k]).id == child_id(id, k as nat)
            &&& n.children[k].start_line == line_no
            &&& n.children[k].children.len() == 0
            &&& k < links.len() ==> n.children[k].node_type == "link"@ && n.children[k].label
                == links[k]
            &&& k >= links.len() ==> n.children[k].node_type == "xref"@ && n.children[k].label
                == xrefs[k - links.len()]
        }
}

proof fn lemma_line_node_carries(
    id: Seq<char>,
    node_type: Seq<char>,
    label: Seq<char>,
    line: Seq<char>,
    line_no: u32,
)
    ensures
        carries_inline_children(
            spec_node(id, node_type, label, line_no, 0, spec_inline_children(id, line, line_no)),
            id,
            line,
            line_no,
        ),
{
    reveal(spec_inline_children);
}

/// A line that is a section title, an admonition or a list item (and none of
/// the constructs tried before it), or a paragraph, yields a node whose
/// children are exactly the link and cross-reference nodes of that line; a
/// list item's node is a `list_item` labelled with the item's text.
pub proof fn law_line_nodes_carry_inline_children(id: Seq<char>, line: Seq<char>, line_no: u32)
    ensures
        spec_section_title(line) is Some ==> (spec_top_level_node(id, line, line_no) matches Some(
            n,
        ) && carries_inline_children(n, id, line, line_no)),
        spec_section_title(line) is None && spec_attribute_label(line) is None
            && spec_anchor_label(line) is None && spec_include_label(line) is None
            && spec_admonition_label(line) is Some ==> (spec_top_level_node(
            id,
            line,
            line_no,
        ) matches Some(n) && carries_inline_children(n, id, line, line_no)),
        spec_section_title(line) is None && spec_attribute_label(line) is None
            && spec_anchor_label(line) is None && spec_include_label(line) is None
            && spec_admonition_label(line) is None && spec_image_label(line) is None
            && spec_list_item_label(line) is Some ==> (spec_top_level_node(
            id,
            line,
            line_no,
        ) matches Some(n) && n.node_type == "list_item"@ && Some(n.label) == spec_list_item_label(
            line,
        ) && carries_inline_children(n, id, line, line_no)),
        spec_section_title(line) is None && spec_attribute_label(line) is None
            && spec_anchor_label(line) is None && spec_include_label(line) is None
            && spec_admonition_label(line) is None && spec_image_label(line) is None
            && spec_list_item_label(line) is None ==> (spec_top_level_node(
            id,
            line,
            line_no,
        ) matches Some(n) ==> n.node_type == "paragraph"@ && n.label == line
            && carries_inline_children(n, id, line, line_no)),
{
    assert forall|node_type: Seq<char>, label: Seq<char>|
        carries_inline_children(
            #[trigger] spec_node(
                id,
                node_type,
                label,
                line_no,
                0,
                spec_inline_children(id, line, line_no),
            ),
            id,
            line,
            line_no,
        ) by {
        lemma_line_node_carries(id, node_type, label, line, line_no);
    }
}

} // verus!
