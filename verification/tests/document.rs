use asciidoc_plugin::document::{inline_children, parse_asciidoc, top_level_node};
use asciidoc_plugin::hash::stable_hash;
use asciidoc_plugin::node::{node, SemanticNode};

fn types(root: &SemanticNode) -> Vec<String> {
    root.children.iter().map(|c| c.node_type.clone()).collect()
}

fn is_lower_hex16(s: &str) -> bool {
    s.len() == 16 && s.chars().all(|c| c.is_ascii_digit() || ('a'..='f').contains(&c))
}

fn all_hashes_consistent(n: &SemanticNode) -> bool {
    n.structural_hash == stable_hash(&n.node_type, &n.label, &n.children)
        && n.children.iter().all(all_hashes_consistent)
}

#[test]
fn fnv_hash_values() {
    assert_eq!(stable_hash("paragraph", "hello", &[]), "901ad6ebf14f3977");
    assert_eq!(stable_hash("asciidoc_document", "asciidoc", &[]), "bf3a72e587edeab3");
    let child = node("p.0", "link", "u", 3, 0, Vec::new());
    assert_eq!(child.structural_hash, "54df0ac5bb1e1fd4");
    assert_eq!(stable_hash("paragraph", "see link:u[x]", &[child]), "f06b4a5ce5a6140e");
}

#[test]
fn node_spans_its_label_in_bytes() {
    let n = node("0.4", "paragraph", "héllo", 7, 2, Vec::new());
    assert_eq!(n.id, "0.4");
    assert_eq!(n.start_line, 7);
    assert_eq!(n.end_line, 7);
    assert_eq!(n.start_col, 2);
    assert_eq!(n.end_col, 8);
}

#[test]
fn example_document_tree() {
    let root = parse_asciidoc("= New\n");
    assert_eq!(root.id, "0");
    assert_eq!(root.node_type, "asciidoc_document");
    assert_eq!(root.label, "asciidoc");
    assert_eq!(root.end_line, 0);
    assert_eq!(root.children.len(), 1);
    let title = &root.children[0];
    assert_eq!(title.id, "0.0");
    assert_eq!(title.node_type, "section_level_1");
    assert_eq!(title.label, "New");
    assert_eq!(title.end_col, 3);
    assert_eq!(title.structural_hash, "d7eee82dc4024ddd");
    assert_eq!(root.structural_hash, "a736cfa9ca3f9050");
}

#[test]
fn empty_and_blank_documents() {
    let root = parse_asciidoc("");
    assert!(root.children.is_empty());
    assert_eq!(root.end_line, 0);
    assert_eq!(root.structural_hash, "bf3a72e587edeab3");
    let blank = parse_asciidoc("  \n\t\n \u{3000}\n");
    assert!(blank.children.is_empty());
    assert_eq!(blank.end_line, 2);
}

#[test]
fn ids_count_top_level_nodes() {
    let root = parse_asciidoc("one\n\n// comment\ntwo\n----\ncode\n----\nthree");
    assert_eq!(types(&root), vec!["paragraph", "paragraph", "listing_block", "paragraph"]);
    let ids: Vec<String> = root.children.iter().map(|c| c.id.clone()).collect();
    assert_eq!(ids, vec!["0.0", "0.1", "0.2", "0.3"]);
    let lines: Vec<u32> = root.children.iter().map(|c| c.start_line).collect();
    assert_eq!(lines, vec![0, 3, 4, 7]);
    assert_eq!(root.end_line, 7);
    let block = &root.children[2];
    assert_eq!(block.children.len(), 1);
    assert_eq!(block.children[0].id, "block.0");
    assert_eq!(block.children[0].label, "code");
}

#[test]
fn blocks_hold_paragraphs_and_close_at_the_end() {
    let root = parse_asciidoc("____\n== not a title\n* not an item\n// hidden\n");
    assert_eq!(types(&root), vec!["quote_block"]);
    let block = &root.children[0];
    assert_eq!(block.label, "quote");
    assert_eq!(block.start_line, 0);
    let kinds: Vec<String> = block.children.iter().map(|c| c.node_type.clone()).collect();
    assert_eq!(kinds, vec!["paragraph", "paragraph"]);
    assert_eq!(block.children[1].label, "* not an item");
    assert_eq!(block.children[1].id, "block.1");
}

#[test]
fn other_delimiters_do_not_close_a_block() {
    let root = parse_asciidoc("----\n====\n----\n");
    assert_eq!(types(&root), vec!["listing_block"]);
    assert_eq!(root.children[0].children[0].label, "====");
}

#[test]
fn comments_with_links_are_paragraphs() {
    let root = parse_asciidoc("// see link:a[b]");
    assert_eq!(types(&root), vec!["paragraph"]);
    assert_eq!(root.children[0].children[0].node_type, "link");
    assert_eq!(root.children[0].children[0].id, "0.0.0");
}

#[test]
fn inline_children_number_links_then_xrefs() {
    let children = inline_children("0.5", "xref:a[] link:b[] xref:#c[]", 9);
    let ids: Vec<String> = children.iter().map(|c| c.id.clone()).collect();
    let labels: Vec<String> = children.iter().map(|c| c.label.clone()).collect();
    assert_eq!(ids, vec!["0.5.0", "0.5.1", "0.5.2"]);
    assert_eq!(labels, vec!["b", "a", "c"]);
    assert_eq!(children[0].node_type, "link");
    assert_eq!(children[2].node_type, "xref");
    assert!(children.iter().all(|c| c.start_line == 9));
}

#[test]
fn top_level_precedence() {
    let n = top_level_node("0.0", "== Title with link:u[x]", 1).unwrap();
    assert_eq!(n.node_type, "section_level_2");
    assert_eq!(n.label, "Title with link:u[x]");
    assert_eq!(n.children.len(), 1);
    assert_eq!(top_level_node("0.1", ":a: b", 1).unwrap().node_type, "attribute_entry");
    assert_eq!(top_level_node("0.1", "TIP: x", 1).unwrap().node_type, "tip_admonition");
    assert_eq!(top_level_node("0.1", "- item", 1).unwrap().node_type, "list_item");
    assert_eq!(top_level_node("0.1", "plain", 1).unwrap().node_type, "paragraph");
    assert!(top_level_node("0.1", "// note", 1).is_none());
}

#[test]
fn final_line_ending_changes_nothing() {
    let a = parse_asciidoc("= T\ntext");
    let b = parse_asciidoc("= T\ntext\n");
    let c = parse_asciidoc("= T\r\ntext\r\n");
    for other in [&b, &c] {
        assert_eq!(a.end_line, other.end_line);
        assert_eq!(a.structural_hash, other.structural_hash);
        assert_eq!(types(&a), types(other));
    }
    let d = parse_asciidoc("= T\ntext\n\n");
    assert_eq!(d.end_line, 2);
}

#[test]
fn hashes_are_consistent_and_ignore_position() {
    let root = parse_asciidoc("= A\nNOTE: link:x[y] xref:#z[w]\n----\nin block\n----\n");
    assert!(all_hashes_consistent(&root));
    let a = parse_asciidoc("para");
    let b = parse_asciidoc("\n\n   para   ");
    assert_eq!(a.children[0].structural_hash, b.children[0].structural_hash);
    assert_ne!(a.children[0].start_line, b.children[0].start_line);
    assert!(is_lower_hex16(&root.structural_hash));
}
