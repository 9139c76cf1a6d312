# asciidoc_plugin

A structural parser for AsciiDoc, verified with Verus. It reads a document
line by line and builds a tree of semantic nodes: section titles, attribute
entries, anchors, include directives, admonitions, images, list items,
paragraphs, delimited blocks, and the links and cross-references inside a
line. Every node carries an FNV-1a structural hash of its type, label and
children.

- `src/text.rs`: characters, whitespace, trimming, searching, decimal notation.
- `src/labels.rs`: what a single line is (section title, attribute entry, ...).
- `src/node.rs`, `src/hash.rs`: the node type, its model and its hash.
- `src/document.rs`: lines, inline children, top-level nodes, blocks, the root.
- `src/plugin.rs`: language detection and the plugin's entry points.
- `src/laws.rs`: properties proved of every document.
- `app/`: the WebAssembly component glue and the JSON form of the tree.
