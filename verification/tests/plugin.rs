use asciidoc_plugin::document::parse_asciidoc;
use asciidoc_plugin::node::SemanticNode;
use asciidoc_plugin::plugin::{detect_language_impl, AsciidocParser, ParserMode};
use asciidoc_plugin::{DEFAULT_NEW, DEFAULT_OLD, LANGUAGE_ID, ROOT_NODE_TYPE};
use serde_json::Value;

fn labels_by_type(node: &SemanticNode, node_type: &str, labels: &mut Vec<String>) {
    if node.node_type == node_type {
        labels.push(node.label.clone());
    }
    for child in &node.children {
        labels_by_type(child, node_type, labels);
    }
}

fn to_json(node: &SemanticNode) -> Value {
    let mut map = serde_json::Map::new();
    map.insert("id".to_string(), Value::String(node.id.clone()));
    map.insert("node_type".to_string(), Value::String(node.node_type.clone()));
    map.insert("label".to_string(), Value::String(node.label.clone()));
    map.insert("start_line".to_string(), Value::from(node.start_line));
    map.insert("start_col".to_string(), Value::from(node.start_col));
    map.insert("end_line".to_string(), Value::from(node.end_line));
    map.insert("end_col".to_string(), Value::from(node.end_col));
    map.insert("structural_hash".to_string(), Value::String(node.structural_hash.clone()));
    map.insert(
        "children".to_string(),
        Value::Array(node.children.iter().map(to_json).collect()),
    );
    Value::Object(map)
}

#[test]
fn parser_mode_is_full_parse() {
    assert_eq!(AsciidocParser::get_parser_mode(), ParserMode::FullParse);
}

#[test]
fn grammar_id_is_language_id() {
    assert_eq!(AsciidocParser::grammar_id(), LANGUAGE_ID);
    assert_eq!(
        AsciidocParser::language_ids(),
        vec![LANGUAGE_ID.to_string()]
    );
}

#[test]
fn detects_asciidoc_extensions() {
    assert_eq!(
        detect_language_impl("README.adoc", DEFAULT_NEW),
        LANGUAGE_ID
    );
    assert_eq!(
        detect_language_impl("guide.asciidoc", DEFAULT_NEW),
        LANGUAGE_ID
    );
}

#[test]
fn process_returns_valid_json() {
    let parsed = serde_json::to_string(&to_json(&parse_asciidoc(DEFAULT_NEW))).unwrap();
    let value: Value = serde_json::from_str(&parsed).unwrap();
    assert!(value.is_object());
    assert_eq!(value["node_type"], ROOT_NODE_TYPE);
    assert_eq!(value["label"], LANGUAGE_ID);
}

#[test]
fn process_extracts_sections_attributes_blocks_links_and_xrefs() {
    let root = parse_asciidoc(
        r#"
= IntentumDiff
:revnumber: 1.0
[[install]]
== Install
include::partials/setup.adoc[]
NOTE: See link:https://example.com/docs[docs] and xref:#usage[Usage].
* Run setup
image::screens/review.png[]
----
intentumdiff git main
----
"#,
    );
    let mut sections = Vec::new();
    let mut attributes = Vec::new();
    let mut anchors = Vec::new();
    let mut includes = Vec::new();
    let mut notes = Vec::new();
    let mut list_items = Vec::new();
    let mut images = Vec::new();
    let mut listings = Vec::new();
    let mut links = Vec::new();
    let mut xrefs = Vec::new();
    labels_by_type(&root, "section_level_1", &mut sections);
    labels_by_type(&root, "section_level_2", &mut sections);
    labels_by_type(&root, "attribute_entry", &mut attributes);
    labels_by_type(&root, "anchor", &mut anchors);
    labels_by_type(&root, "include_directive", &mut includes);
    labels_by_type(&root, "note_admonition", &mut notes);
    labels_by_type(&root, "list_item", &mut list_items);
    labels_by_type(&root, "image", &mut images);
    labels_by_type(&root, "listing_block", &mut listings);
    labels_by_type(&root, "link", &mut links);
    labels_by_type(&root, "xref", &mut xrefs);

    assert!(sections.contains(&"IntentumDiff".to_string()));
    assert!(sections.contains(&"Install".to_string()));
    assert!(attributes.contains(&"revnumber: 1.0".to_string()));
    assert!(anchors.contains(&"install".to_string()));
    assert!(includes.contains(&"partials/setup.adoc".to_string()));
    assert!(notes.iter().any(|label| label.contains("See link")));
    assert!(list_items.contains(&"Run setup".to_string()));
    assert!(images.contains(&"screens/review.png".to_string()));
    assert!(listings.contains(&"listing".to_string()));
    assert!(links.contains(&"https://example.com/docs".to_string()));
    assert!(xrefs.contains(&"usage".to_string()));
}

#[test]
fn detects_extensions_in_any_case() {
    assert_eq!(detect_language_impl("NOTES.ADOC", ""), LANGUAGE_ID);
    assert_eq!(detect_language_impl("x.Asc", ""), LANGUAGE_ID);
    assert_eq!(detect_language_impl("readme.md", DEFAULT_NEW), "");
    assert_eq!(detect_language_impl("adoc", ""), "");
    assert_eq!(
        AsciidocParser::detect_language("a.asciidoc".to_string(), String::new()),
        LANGUAGE_ID
    );
}

#[test]
fn plugin_identity() {
    let pair = AsciidocParser::example("asciidoc".to_string());
    assert_eq!(pair.old, DEFAULT_OLD);
    assert_eq!(pair.new, DEFAULT_NEW);
    assert!(AsciidocParser::trivia_node_types().is_empty());
    assert_eq!(AsciidocParser::priority(), 0);
    assert_eq!(AsciidocParser::preprocess_source(" x\r\n".to_string()), " x\r\n");
}
