use asciidoc_plugin::labels::{
    admonition_label, anchor_label, attribute_label, block_start, extract_inline_targets,
    image_label, include_label, list_item_label, section_title,
};

#[test]
fn section_titles() {
    assert_eq!(section_title("== Install"), Some((2, "Install".to_string())));
    assert_eq!(section_title("=   Spaced title  "), Some((1, "Spaced title".to_string())));
    assert_eq!(section_title("==== "), Some((4, String::new())));
    assert_eq!(section_title("==Install"), None);
    assert_eq!(section_title("Install"), None);
    assert_eq!(section_title("===="), None);
}

#[test]
fn attribute_entries() {
    assert_eq!(attribute_label(":revnumber: 1.0"), Some("revnumber: 1.0".to_string()));
    assert_eq!(attribute_label(":toc:"), Some("toc".to_string()));
    assert_eq!(attribute_label(": name :  value "), Some("name: value".to_string()));
    assert_eq!(attribute_label("::value"), None);
    assert_eq!(attribute_label(":no-end"), None);
    assert_eq!(attribute_label("toc:"), None);
    assert_eq!(attribute_label(":a:b:c"), Some("a: b:c".to_string()));
}

#[test]
fn anchors() {
    assert_eq!(anchor_label("[[install]]"), Some("install".to_string()));
    assert_eq!(anchor_label("[[ spaced ]] tail"), Some("spaced".to_string()));
    assert_eq!(anchor_label("[#usage]"), Some("usage".to_string()));
    assert_eq!(anchor_label("[[]]"), None);
    assert_eq!(anchor_label("[[open"), None);
    assert_eq!(anchor_label("[#]"), None);
    assert_eq!(anchor_label("[role]"), None);
}

#[test]
fn includes_and_images() {
    assert_eq!(include_label("include::partials/setup.adoc[]"), Some("partials/setup.adoc".to_string()));
    assert_eq!(include_label("include::[]"), None);
    assert_eq!(include_label("include::x.adoc"), None);
    assert_eq!(include_label("Include::x[]"), None);
    assert_eq!(image_label("image::screens/review.png[]"), Some("screens/review.png".to_string()));
    assert_eq!(image_label("image:icon.png[Icon]"), Some("icon.png".to_string()));
    assert_eq!(image_label("image:: []"), None);
    assert_eq!(image_label("picture::a.png[]"), None);
}

#[test]
fn admonitions() {
    assert_eq!(admonition_label("NOTE: Read me"), Some(("note_admonition", "Read me".to_string())));
    assert_eq!(admonition_label("TIP:x"), Some(("tip_admonition", "x".to_string())));
    assert_eq!(admonition_label("IMPORTANT: a "), Some(("important_admonition", "a".to_string())));
    assert_eq!(admonition_label("WARNING:"), Some(("warning_admonition", String::new())));
    assert_eq!(admonition_label("CAUTION: hot"), Some(("caution_admonition", "hot".to_string())));
    assert_eq!(admonition_label("Note: no"), None);
}

#[test]
fn list_items() {
    assert_eq!(list_item_label("* Run setup"), Some("Run setup".to_string()));
    assert_eq!(list_item_label("  - dash item "), Some("dash item".to_string()));
    assert_eq!(list_item_label(". ordered"), Some("ordered".to_string()));
    assert_eq!(list_item_label("*bold*"), None);
    assert_eq!(list_item_label("** nested"), None);
}

#[test]
fn block_delimiters() {
    assert_eq!(block_start("----"), Some(("----", "listing_block", "listing".to_string())));
    assert_eq!(block_start("===="), Some(("====", "example_block", "example".to_string())));
    assert_eq!(block_start("...."), Some(("....", "literal_block", "literal".to_string())));
    assert_eq!(block_start("____"), Some(("____", "quote_block", "quote".to_string())));
    assert_eq!(block_start("****"), Some(("****", "sidebar_block", "sidebar".to_string())));
    assert_eq!(block_start("-----"), None);
    assert_eq!(block_start("--"), None);
}

#[test]
fn inline_targets() {
    let line = "See link:https://example.com/docs[docs] and link:[empty] and link: other [x] end";
    assert_eq!(
        extract_inline_targets(line, "link:", "link"),
        vec!["https://example.com/docs".to_string(), "other".to_string()]
    );
    assert_eq!(
        extract_inline_targets("xref:#usage[Usage] xref:##top[] xref:plain[]", "xref:", "xref"),
        vec!["usage".to_string(), "top".to_string(), "plain".to_string()]
    );
    assert_eq!(extract_inline_targets("link:#a[]", "link:", "link"), vec!["#a".to_string()]);
    assert_eq!(extract_inline_targets("link:unclosed", "link:", "link"), Vec::<String>::new());
    assert_eq!(extract_inline_targets("no targets", "link:", "link"), Vec::<String>::new());
    assert_eq!(
        extract_inline_targets("ünïcode link:ß/ü[x]", "link:", "link"),
        vec!["ß/ü".to_string()]
    );
}
