//! Semantic nodes, their mathematical model, and the node constructor.
use vstd::prelude::*;
use vstd::utf8::encode_utf8;

use crate::hash::{hashes_of, stable_hash, structural_hash};

verus! {

/// A node of the semantic tree that the parser produces.
pub struct SemanticNode {
    pub id: String,
    pub node_type: String,
    pub label: String,
    pub start_line: u32,
    pub start_col: u32,
    pub end_line: u32,
    pub end_col: u32,
    pub structural_hash: String,
    pub children: Vec<SemanticNode>,
}

/// The mathematical value of a [`SemanticNode`].
pub struct NodeModel {
    pub id: Seq<char>,
    pub node_type: Seq<char>,
    pub label: Seq<char>,
    pub start_line: u32,
    pub start_col: u32,
    pub end_line: u32,
    pub end_col: u32,
    pub structural_hash: Seq<char>,
    pub children: Seq<NodeModel>,
}

pub open spec fn node_model(n: SemanticNode) -> NodeModel
    decreases n,
{
    NodeModel {
        id: n.id@,
        node_type: n.node_type@,
        label: n.label@,
        start_line: n.start_line,
        start_col: n.start_col,
        end_line: n.end_line,
        end_col: n.end_col,
        structural_hash: n.structural_hash@,
        children: Seq::new(
            n.children@.len(),
            |i: int|
                if 0 <= i < n.children@.len() {
                    node_model(n.children@[i])
                } else {
                    arbitrary()
                },
        ),
    }
}

impl View for SemanticNode {
    type V = NodeModel;

    open spec fn view(&self) -> NodeModel {
        node_model(*self)
    }
}

/// The models of a sequence of nodes.
pub open spec fn models(s: Seq<SemanticNode>) -> Seq<NodeModel> {
    Seq::new(s.len(), |i: int| s[i]@)
}

/// The structural hashes of a sequence of node models.
pub open spec fn model_hashes(s: Seq<NodeModel>) -> Seq<Seq<char>> {
    Seq::new(s.len(), |i: int| s[i].structural_hash)
}

/// The length of `label` in UTF-8 bytes, as `label.len() as u32` gives it.
pub open spec fn byte_len_u32(label: Seq<char>) -> u32 {
    (encode_utf8(label).len() as usize) as u32
}

/// The node that `node(id, node_type, label, line, col, children)` builds:
/// it spans one line, from `col` to `col` plus the label's length in bytes,
/// and its hash covers its type, its label and its children's hashes.
pub open spec fn spec_node(
    id: Seq<char>,
    node_type: Seq<char>,
    label: Seq<char>,
    line: u32,
    col: u32,
    children: Seq<NodeModel>,
) -> NodeModel {
    NodeModel {
        id,
        node_type,
        label,
        start_line: line,
        start_col: col,
        end_line: line,
        end_col: (col + byte_len_u32(label)) as u32,
        structural_hash: structural_hash(node_type, label, model_hashes(children)),
        children,
    }
}

pub proof fn lemma_models_push(s: Seq<SemanticNode>, x: SemanticNode)
    ensures
        models(s.push(x)) == models(s).push(x@),
{
    assert(models(s.push(x)) =~= models(s).push(x@));
}

pub proof fn lemma_node_model_children(n: SemanticNode)
    ensures
        n@.children == models(n.children@),
        model_hashes(models(n.children@)) == hashes_of(n.children@),
{
    assert(n@.children =~= models(n.children@));
    assert(model_hashes(models(n.children@)) =~= hashes_of(n.children@));
}

/// Builds a node that spans one line of the source.
pub fn node(
    id: &str,
    node_type: &str,
    label: &str,
    line: u32,
    col: u32,
    children: Vec<SemanticNode>,
) -> (r: SemanticNode)
    requires
        col + byte_len_u32(label@) <= u32::MAX,
    ensures
        r@ == spec_node(id@, node_type@, label@, line, col, models(children@)),
{
    let hash = stable_hash(node_type, label, children.as_slice());
    let len = label.len() as u32;
    let r = SemanticNode {
        id: id.to_owned(),
        node_type: node_type.to_owned(),
        label: label.to_owned(),
        start_line: line,
        start_col: col,
        end_line: line,
        end_col: col + len,
        structural_hash: hash,
        children,
    };
    proof {
        lemma_node_model_children(r);
    }
    r
}

} // verus!
