//! Structural parser for AsciiDoc documents: it reads a document line by line
//! and builds a tree of semantic nodes (sections, attribute entries, anchors,
//! includes, admonitions, images, list items, paragraphs, delimited blocks,
//! links and cross-references), each with a structural hash.
use vstd::prelude::*;

pub mod document;
pub mod hash;
pub mod labels;
pub mod laws;
pub mod line_laws;
pub mod node;
pub mod plugin;
pub mod text;

verus! {

/// The language that this parser handles.
pub const LANGUAGE_ID: &'static str = "asciidoc";

/// The node type of the root of every parsed document.
pub const ROOT_NODE_TYPE: &'static str = "asciidoc_document";

/// The file extensions of AsciiDoc documents.
pub const DETECT_EXTENSIONS: [&'static str; 3] = [".adoc", ".asciidoc", ".asc"];

/// The older text of the example pair.
pub const DEFAULT_OLD: &'static str = "= Old\n";

/// The newer text of the example pair.
pub const DEFAULT_NEW: &'static str = "= New\n";

} // verus!
