//! The parser plugin's entry points: language detection, identity, example
//! texts and language information records.
use vstd::prelude::*;

use crate::text::{ends_with, occurs_at_chars, to_chars};
use crate::{DEFAULT_NEW, DEFAULT_OLD, DETECT_EXTENSIONS, LANGUAGE_ID};

verus! {

/// What `str::to_lowercase` gives for a string: its lowercase equivalent as
/// the Unicode `Lowercase` mapping defines it.
pub uninterp spec fn spec_to_lowercase(s: Seq<char>) -> Seq<char>;

/// `str::to_lowercase`. Its contract names the result and says no more of it:
/// the Unicode case mapping that it applies is not written out here.
#[verifier::external_body]
fn to_lowercase(s: &str) -> (r: String)
    ensures
        r@ == spec_to_lowercase(s@),
{
    s.to_lowercase()
}

/// `name` ends with one of the AsciiDoc file extensions.
pub open spec fn spec_has_asciidoc_extension(name: Seq<char>) -> bool {
    exists|i: int| 0 <= i < DETECT_EXTENSIONS@.len() && ends_with(name, DETECT_EXTENSIONS@[i]@)
}

/// Whether `name` ends with one of the AsciiDoc file extensions (compared as
/// they are written, so `name` is expected in lowercase).
pub fn has_asciidoc_extension(name: &str) -> (b: bool)
    ensures
        b == spec_has_asciidoc_extension(name@),
{
    let v = to_chars(name);
    let extensions = DETECT_EXTENSIONS;
    let mut i: usize = 0;
    while i < extensions.len()
        invariant
            extensions == DETECT_EXTENSIONS,
            i <= extensions@.len(),
            v@ == name@,
            forall|j: int| 0 <= j < i ==> !ends_with(name@, DETECT_EXTENSIONS@[j]@),
        decreases extensions@.len() - i,
    {
        let ext = to_chars(extensions[i]);
        if ext.len() <= v.len() && occurs_at_chars(&v, &ext, v.len() - ext.len()) {
            return true;
        }
        i = i + 1;
    }
    false
}

/// The language of a file: `asciidoc` for a name that, in lowercase, ends
/// with an AsciiDoc extension, else the empty string.
pub fn detect_language_impl(filename: &str, _content: &str) -> (r: String)
    ensures
        r@ == (if spec_has_asciidoc_extension(spec_to_lowercase(filename@)) {
            LANGUAGE_ID@
        } else {
            Seq::<char>::empty()
        }),
{
    let lower = to_lowercase(filename);
    if has_asciidoc_extension(lower.as_str()) {
        LANGUAGE_ID.to_owned()
    } else {
        String::new()
    }
}

/// How the host is to use the parser.
#[derive(Clone, Copy, Debug, PartialEq, Eq, Structural)]
pub enum ParserMode {
    FullParse,
}

/// Two versions of a document that show what the parser does.
pub struct ExamplePair {
    pub old: String,
    pub new: String,
}

/// What the plugin's metadata says of one language.
pub struct LanguageInfo {
    pub language_id: String,
    pub language_name: String,
    pub language_short_name: String,
    pub monaco_language: String,
    pub default_filename: String,
    pub language_file_extensions: Vec<String>,
}

/// A language as the plugin describes it to the host.
pub struct LanguageInfoRecord {
    pub language_id: String,
    pub language_name: String,
    pub language_short_name: String,
    pub monaco_language: String,
    pub default_filename: String,
    pub language_file_extensions: Vec<String>,
    pub author: String,
    pub plugin_version: String,
    pub last_updated: String,
}

/// `r` describes the language `info` with the plugin's author, version and
/// date of last update.
pub open spec fn describes(
    r: LanguageInfoRecord,
    info: LanguageInfo,
    author: Seq<char>,
    plugin_version: Seq<char>,
    last_updated: Seq<char>,
) -> bool {
    &&& r.language_id == info.language_id
    &&& r.language_name == info.language_name
    &&& r.language_short_name == info.language_short_name
    &&& r.monaco_language == info.monaco_language
    &&& r.default_filename == info.default_filename
    &&& r.language_file_extensions == info.language_file_extensions
    &&& r.author@ == author
    &&& r.plugin_version@ == plugin_version
    &&& r.last_updated@ == last_updated
}

/// One record per language, in order, each with the plugin's author, version
/// and date of last update.
pub fn language_info_for(
    infos: Vec<LanguageInfo>,
    author: &str,
    plugin_version: &str,
    last_updated: &str,
) -> (r: Vec<LanguageInfoRecord>)
    ensures
        r@.len() == infos@.len(),
        forall|i: int|
            0 <= i < infos@.len() ==> describes(
                #[trigger] r@[i],
                infos@[i],
                author@,
                plugin_version@,
                last_updated@,
            ),
{
    let mut records: Vec<LanguageInfoRecord> = Vec::new();
    for info in it: infos
        invariant
            records@.len() == it.history().len(),
            forall|i: int|
                0 <= i < records@.len() ==> describes(
                    #[trigger] records@[i],
                    it.history()[i],
                    author@,
                    plugin_version@,
                    last_updated@,
                ),
    {
        let record = LanguageInfoRecord {
            language_id: info.language_id,
            language_name: info.language_name,
            language_short_name: info.language_short_name,
            monaco_language: info.monaco_language,
            default_filename: info.default_filename,
            language_file_extensions: info.language_file_extensions,
            author: author.to_owned(),
            plugin_version: plugin_version.to_owned(),
            last_updated: last_updated.to_owned(),
        };
        records.push(record);
    }
    records
}

/// The AsciiDoc parser plugin.
pub struct AsciidocParser;

impl AsciidocParser {
    /// The parser builds the whole tree of a document.
    pub fn get_parser_mode() -> (r: ParserMode)
        ensures
            r == ParserMode::FullParse,
    {
        ParserMode::FullParse
    }

    /// The grammar's id is the language id.
    pub fn grammar_id() -> (r: String)
        ensures
            r@ == LANGUAGE_ID@,
    {
        LANGUAGE_ID.to_owned()
    }

    /// The language of a file, by its name.
    pub fn detect_language(filename: String, content: String) -> (r: String)
        ensures
            r@ == (if spec_has_asciidoc_extension(spec_to_lowercase(filename@)) {
                LANGUAGE_ID@
            } else {
                Seq::<char>::empty()
            }),
    {
        detect_language_impl(filename.as_str(), content.as_str())
    }

    /// The source is parsed as it is.
    pub fn preprocess_source(source: String) -> (r: String)
        ensures
            r == source,
    {
        source
    }

    /// The example pair: a document titled `Old` and one titled `New`.
    pub fn example(_language: String) -> (r: ExamplePair)
        ensures
            r.old@ == DEFAULT_OLD@,
            r.new@ == DEFAULT_NEW@,
    {
        ExamplePair { old: DEFAULT_OLD.to_owned(), new: DEFAULT_NEW.to_owned() }
    }

    /// No node type is trivia.
    pub fn trivia_node_types() -> (r: Vec<String>)
        ensures
            r@.len() == 0,
    {
        Vec::new()
    }

    /// The one language that the plugin handles.
    pub fn language_ids() -> (r: Vec<String>)
        ensures
            r@.len() == 1,
            r@[0]@ == LANGUAGE_ID@,
    {
        let mut ids = Vec::new();
        ids.push(LANGUAGE_ID.to_owned());
        ids
    }

    /// The plugin's priority among parsers of the same language.
    pub fn priority() -> (r: i32)
        ensures
            r == 0,
    {
        0
    }
}

} // verus!
