//! What single lines of AsciiDoc say: section titles, attribute entries,
//! anchors, includes, admonitions, images, list items, block delimiters and
//! inline link and cross-reference targets.
use vstd::prelude::*;

use crate::text::{
    chars_eq_str, find, find_chars, from_chars, lemma_find_sound, occurs_at, opt_string,
    push_char, split_once, split_once_chars, strip_prefix, strip_prefix_chars, subvec, to_chars,
    trim, trim_chars, trim_start, trim_start_char, trim_start_char_chars, trim_start_chars,
};

verus! {

/// `Some(t)` where `t` is not empty.
pub open spec fn nonempty(t: Seq<char>) -> Option<Seq<char>> {
    if t.len() > 0 {
        Some(t)
    } else {
        None
    }
}

/// The number of `=` characters at the start of `s`.
pub open spec fn equals_run(s: Seq<char>) -> nat
    decreases s.len(),
{
    if s.len() > 0 && s[0] == '=' {
        1 + equals_run(s.drop_first())
    } else {
        0
    }
}

/// A section title: one or more `=`, a space, then the title.
#[verifier::opaque]
pub open spec fn spec_section_title(s: Seq<char>) -> Option<(nat, Seq<char>)> {
    let level = equals_run(s);
    if level == 0 || !(level < s.len() && s[level as int] == ' ') {
        None
    } else {
        Some((level, trim(s.skip(level as int))))
    }
}

/// An attribute entry `:name: value`, labelled `name` or `name: value`.
#[verifier::opaque]
pub open spec fn spec_attribute_label(s: Seq<char>) -> Option<Seq<char>> {
    if !(s.len() > 0 && s[0] == ':') {
        None
    } else {
        match find(s.skip(1), seq![':']) {
            None => None,
            Some(j) => {
                let end = j + 1;
                let name = trim(s.subrange(1, end));
                let value = trim(s.skip(end + 1));
                if name.len() == 0 {
                    None
                } else if value.len() == 0 {
                    Some(name)
                } else {
                    Some(name + seq![':', ' '] + value)
                }
            },
        }
    }
}

/// The trimmed text before the first `close` in `rest`, where that is not empty.
pub open spec fn label_before(rest: Seq<char>, close: Seq<char>) -> Option<Seq<char>> {
    match split_once(rest, close) {
        Some((label, _)) => nonempty(trim(label)),
        None => None,
    }
}

/// An anchor `[[id]]` or `[#id]`.
#[verifier::opaque]
pub open spec fn spec_anchor_label(s: Seq<char>) -> Option<Seq<char>> {
    match strip_prefix(s, "[["@) {
        Some(rest) => label_before(rest, "]]"@),
        None => match strip_prefix(s, "[#"@) {
            Some(rest) => label_before(rest, seq![']']),
            None => None,
        },
    }
}

/// An include directive `include::target[...]`.
#[verifier::opaque]
pub open spec fn spec_include_label(s: Seq<char>) -> Option<Seq<char>> {
    match strip_prefix(s, "include::"@) {
        Some(rest) => label_before(rest, seq!['[']),
        None => None,
    }
}

/// An image `image::target[...]` or `image:target[...]`.
#[verifier::opaque]
pub open spec fn spec_image_label(s: Seq<char>) -> Option<Seq<char>> {
    let rest = match strip_prefix(s, "image::"@) {
        Some(r) => Some(r),
        None => strip_prefix(s, "image:"@),
    };
    match rest {
        Some(r) => label_before(r, seq!['[']),
        None => None,
    }
}

/// An admonition paragraph such as `NOTE: text`: its node type and its text.
#[verifier::opaque]
pub open spec fn spec_admonition_label(s: Seq<char>) -> Option<(Seq<char>, Seq<char>)> {
    if let Some(rest) = strip_prefix(s, "NOTE:"@) {
        Some(("note_admonition"@, trim(rest)))
    } else if let Some(rest) = strip_prefix(s, "TIP:"@) {
        Some(("tip_admonition"@, trim(rest)))
    } else if let Some(rest) = strip_prefix(s, "IMPORTANT:"@) {
        Some(("important_admonition"@, trim(rest)))
    } else if let Some(rest) = strip_prefix(s, "WARNING:"@) {
        Some(("warning_admonition"@, trim(rest)))
    } else if let Some(rest) = strip_prefix(s, "CAUTION:"@) {
        Some(("caution_admonition"@, trim(rest)))
    } else {
        None
    }
}

/// A list item: after leading whitespace, `* `, `- ` or `. ` and its text.
#[verifier::opaque]
pub open spec fn spec_list_item_label(s: Seq<char>) -> Option<Seq<char>> {
    let stripped = trim_start(s);
    if let Some(rest) = strip_prefix(stripped, "* "@) {
        Some(trim(rest))
    } else if let Some(rest) = strip_prefix(stripped, "- "@) {
        Some(trim(rest))
    } else if let Some(rest) = strip_prefix(stripped, ". "@) {
        Some(trim(rest))
    } else {
        None
    }
}

/// A block delimiter line: the delimiter, the block's node type and its label.
#[verifier::opaque]
pub open spec fn spec_block_start(s: Seq<char>) -> Option<(Seq<char>, Seq<char>, Seq<char>)> {
    if s == "----"@ {
        Some(("----"@, "listing_block"@, "listing"@))
    } else if s == "===="@ {
        Some(("===="@, "example_block"@, "example"@))
    } else if s == "...."@ {
        Some(("...."@, "literal_block"@, "literal"@))
    } else if s == "____"@ {
        Some(("____"@, "quote_block"@, "quote"@))
    } else if s == "****"@ {
        Some(("****"@, "sidebar_block"@, "sidebar"@))
    } else {
        None
    }
}

/// The targets of the inline macros `prefix target[...]` in `rest`, in order:
/// each one trimmed, empty ones left out, and for cross-references without
/// leading `#`.
#[verifier::opaque]
pub open spec fn spec_inline_targets(rest: Seq<char>, prefix: Seq<char>, xref: bool) -> Seq<
    Seq<char>,
>
    decreases rest.len(),
{
    match find(rest, prefix) {
        None => seq![],
        Some(start) => {
            let after = rest.skip(start + prefix.len());
            match find(after, seq!['[']) {
                None => seq![],
                Some(j) => {
                    proof {
                        lemma_find_sound(rest, prefix);
                        lemma_find_sound(after, seq!['[']);
                    }
                    let target = trim(after.take(j));
                    let tail = after.skip(j + 1);
                    let here = if target.len() > 0 {
                        seq![if xref { trim_start_char(target, '#') } else { target }]
                    } else {
                        seq![]
                    };
                    here + spec_inline_targets(tail, prefix, xref)
                },
            }
        },
    }
}

pub open spec fn strings_view(v: Seq<String>) -> Seq<Seq<char>> {
    Seq::new(v.len(), |i: int| v[i]@)
}

/// The level and title of a section title line.
pub fn section_title(line: &str) -> (r: Option<(usize, String)>)
    ensures
        match r {
            Some((level, title)) => spec_section_title(line@) == Some((level as nat, title@)),
            None => spec_section_title(line@) is None,
        },
{
    reveal(spec_section_title);
    let v = to_chars(line);
    let mut level: usize = 0;
    assert(v@.skip(0) =~= v@);
    while level < v.len() && v[level] == '='
        invariant
            level <= v@.len(),
            equals_run(v@) == level + equals_run(v@.skip(level as int)),
        decreases v@.len() - level,
    {
        assert(v@.skip(level as int).drop_first() =~= v@.skip(level + 1));
        level = level + 1;
    }
    if level == 0 || !(level < v.len() && v[level] == ' ') {
        return None;
    }
    let rest = subvec(&v, level, v.len());
    assert(rest@ == v@.skip(level as int));
    Some((level, from_chars(trim_chars(&rest).as_slice())))
}

/// The label of an attribute entry line.
pub fn attribute_label(line: &str) -> (r: Option<String>)
    ensures
        opt_string(r) == spec_attribute_label(line@),
{
    reveal(spec_attribute_label);
    let v = to_chars(line);
    if !(v.len() > 0 && v[0] == ':') {
        return None;
    }
    let n = v.len();
    let after = subvec(&v, 1, n);
    let colon = vec![':'];
    assert(colon@ =~= seq![':']);
    let j = match find_chars(&after, &colon) {
        Some(j) => j,
        None => {
            return None;
        },
    };
    assert(occurs_at(after@, colon@, j as int));
    let end = j + 1;
    let name = trim_chars(&subvec(&v, 1, end));
    let value = trim_chars(&subvec(&v, end + 1, n));
    if name.len() == 0 {
        None
    } else if value.len() == 0 {
        Some(from_chars(name.as_slice()))
    } else {
        let mut out = from_chars(name.as_slice());
        push_char(&mut out, ':');
        push_char(&mut out, ' ');
        out.append(from_chars(value.as_slice()).as_str());
        assert(out@ =~= name@ + seq![':', ' '] + value@);
        Some(out)
    }
}

/// The trimmed text before the first `close` in `rest`, where that is not empty.
fn label_before_chars(rest: &Vec<char>, close: &Vec<char>) -> (r: Option<String>)
    ensures
        opt_string(r) == label_before(rest@, close@),
{
    match split_once_chars(rest, close) {
        Some((label, _)) => {
            let t = trim_chars(&label);
            if t.len() > 0 {
                Some(from_chars(t.as_slice()))
            } else {
                None
            }
        },
        None => None,
    }
}

/// The identifier of an anchor line.
pub fn anchor_label(line: &str) -> (r: Option<String>)
    ensures
        opt_string(r) == spec_anchor_label(line@),
{
    reveal(spec_anchor_label);
    let v = to_chars(line);
    if let Some(rest) = strip_prefix_chars(&v, &to_chars("[[")) {
        return label_before_chars(&rest, &to_chars("]]"));
    }
    let close = vec![']'];
    assert(close@ =~= seq![']']);
    match strip_prefix_chars(&v, &to_chars("[#")) {
        Some(rest) => label_before_chars(&rest, &close),
        None => None,
    }
}

/// The target of an include directive line.
pub fn include_label(line: &str) -> (r: Option<String>)
    ensures
        opt_string(r) == spec_include_label(line@),
{
    reveal(spec_include_label);
    let v = to_chars(line);
    let open = vec!['['];
    assert(open@ =~= seq!['[']);
    match strip_prefix_chars(&v, &to_chars("include::")) {
        Some(rest) => label_before_chars(&rest, &open),
        None => None,
    }
}

/// The node type and text of an admonition line.
pub fn admonition_label(line: &str) -> (r: Option<(&'static str, String)>)
    ensures
        match r {
            Some((node_type, text)) => spec_admonition_label(line@) == Some((node_type@, text@)),
            None => spec_admonition_label(line@) is None,
        },
{
    reveal(spec_admonition_label);
    let v = to_chars(line);
    if let Some(rest) = strip_prefix_chars(&v, &to_chars("NOTE:")) {
        return Some(("note_admonition", from_chars(trim_chars(&rest).as_slice())));
    }
    if let Some(rest) = strip_prefix_chars(&v, &to_chars("TIP:")) {
        return Some(("tip_admonition", from_chars(trim_chars(&rest).as_slice())));
    }
    if let Some(rest) = strip_prefix_chars(&v, &to_chars("IMPORTANT:")) {
        return Some(("important_admonition", from_chars(trim_chars(&rest).as_slice())));
    }
    if let Some(rest) = strip_prefix_chars(&v, &to_chars("WARNING:")) {
        return Some(("warning_admonition", from_chars(trim_chars(&rest).as_slice())));
    }
    if let Some(rest) = strip_prefix_chars(&v, &to_chars("CAUTION:")) {
        return Some(("caution_admonition", from_chars(trim_chars(&rest).as_slice())));
    }
    None
}

/// The target of an image line.
pub fn image_label(line: &str) -> (r: Option<String>)
    ensures
        opt_string(r) == spec_image_label(line@),
{
    reveal(spec_image_label);
    let v = to_chars(line);
    let open = vec!['['];
    assert(open@ =~= seq!['[']);
    let rest = match strip_prefix_chars(&v, &to_chars("image::")) {
        Some(r) => Some(r),
        None => strip_prefix_chars(&v, &to_chars("image:")),
    };
    match rest {
        Some(r) => label_before_chars(&r, &open),
        None => None,
    }
}

/// The text of a list item line.
pub fn list_item_label(line: &str) -> (r: Option<String>)
    ensures
        opt_string(r) == spec_list_item_label(line@),
{
    reveal(spec_list_item_label);
    let v = to_chars(line);
    let stripped = trim_start_chars(&v);
    if let Some(rest) = strip_prefix_chars(&stripped, &to_chars("* ")) {
        return Some(from_chars(trim_chars(&rest).as_slice()));
    }
    if let Some(rest) = strip_prefix_chars(&stripped, &to_chars("- ")) {
        return Some(from_chars(trim_chars(&rest).as_slice()));
    }
    if let Some(rest) = strip_prefix_chars(&stripped, &to_chars(". ")) {
        return Some(from_chars(trim_chars(&rest).as_slice()));
    }
    None
}

/// The delimiter, node type and label of a block delimiter line.
pub fn block_start(line: &str) -> (r: Option<(&'static str, &'static str, String)>)
    ensures
        match r {
            Some((delimiter, node_type, label)) => spec_block_start(line@) == Some(
                (delimiter@, node_type@, label@),
            ),
            None => spec_block_start(line@) is None,
        },
{
    reveal(spec_block_start);
    let v = to_chars(line);
    if chars_eq_str(&v, "----") {
        Some(("----", "listing_block", "listing".to_owned()))
    } else if chars_eq_str(&v, "====") {
        Some(("====", "example_block", "example".to_owned()))
    } else if chars_eq_str(&v, "....") {
        Some(("....", "literal_block", "literal".to_owned()))
    } else if chars_eq_str(&v, "____") {
        Some(("____", "quote_block", "quote".to_owned()))
    } else if chars_eq_str(&v, "****") {
        Some(("****", "sidebar_block", "sidebar".to_owned()))
    } else {
        None
    }
}

/// The targets of the inline macros `prefix target[...]` in `line`; for the
/// scheme `xref`, without leading `#`.
pub fn extract_inline_targets(line: &str, prefix: &str, scheme: &str) -> (r: Vec<String>)
    ensures
        strings_view(r@) == spec_inline_targets(line@, prefix@, scheme@ == "xref"@),
{
    reveal(spec_inline_targets);
    let xref = chars_eq_str(&to_chars(scheme), "xref");
    let p = to_chars(prefix);
    let open = vec!['['];
    assert(open@ =~= seq!['[']);
    let mut labels: Vec<String> = Vec::new();
    let mut rest = to_chars(line);
    loop
        invariant
            p@ == prefix@,
            xref == (scheme@ == "xref"@),
            open@ == seq!['['],
            spec_inline_targets(line@, prefix@, xref) == strings_view(labels@)
                + spec_inline_targets(rest@, prefix@, xref),
        decreases rest@.len(),
    {
        proof {
            reveal(spec_inline_targets);
        }
        let start = match find_chars(&rest, &p) {
            Some(s) => s,
            None => {
                assert(strings_view(labels@) + seq![] =~= strings_view(labels@));
                return labels;
            },
        };
        let n = rest.len();
        let after = subvec(&rest, start + p.len(), n);
        let j = match find_chars(&after, &open) {
            Some(j) => j,
            None => {
                assert(strings_view(labels@) + seq![] =~= strings_view(labels@));
                return labels;
            },
        };
        let m = after.len();
        let target = trim_chars(&subvec(&after, 0, j));
        let ghost old_labels = labels@;
        if target.len() > 0 {
            if xref {
                labels.push(from_chars(trim_start_char_chars(&target, '#').as_slice()));
            } else {
                labels.push(from_chars(target.as_slice()));
            }
        }
        rest = subvec(&after, j + 1, m);
        assert(strings_view(labels@) =~= strings_view(old_labels) + (if target@.len() > 0 {
            seq![if xref { trim_start_char(target@, '#') } else { target@ }]
        } else {
            seq![]
        }));
    }
}

} // verus!
