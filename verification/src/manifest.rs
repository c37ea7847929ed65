//! Reading app names out of an `AppxManifest.xml` document and out of the
//! version-information block of an executable.
use vstd::prelude::*;

use crate::text::{
    chars_of, concat_chars, find_chars, find_spec, matches_at, occurs_at, string_of, sub_chars,
    trim_chars, trimmed,
};

verus! {

// ---------------------------------------------------------------------------
// Specifications
// ---------------------------------------------------------------------------

/// The predefined XML entity `v` starts with, if any: the character it
/// stands for and its length.
pub open spec fn entity_at(v: Seq<char>) -> Option<(char, usize)> {
    if occurs_at(v, seq!['&', 'a', 'm', 'p', ';'], 0) {
        Some(('&', 5usize))
    } else if occurs_at(v, seq!['&', 'q', 'u', 'o', 't', ';'], 0) {
        Some(('"', 6usize))
    } else if occurs_at(v, seq!['&', 'a', 'p', 'o', 's', ';'], 0) {
        Some(('\'', 6usize))
    } else if occurs_at(v, seq!['&', 'l', 't', ';'], 0) {
        Some(('<', 4usize))
    } else if occurs_at(v, seq!['&', 'g', 't', ';'], 0) {
        Some(('>', 4usize))
    } else {
        None
    }
}

/// `v` with the five predefined XML entities replaced by their characters,
/// read from left to right: the character an entity stands for is not read
/// again, so `&amp;lt;` gives `&lt;`.
pub open spec fn xml_unescaped(v: Seq<char>) -> Seq<char>
    decreases v.len(),
{
    if v.len() == 0 {
        Seq::<char>::empty()
    } else {
        match entity_at(v) {
            Some((c, n)) => seq![c] + xml_unescaped(v.skip(n as int)),
            None => seq![v[0]] + xml_unescaped(v.skip(1)),
        }
    }
}

/// A trimmed, non-blank value, unescaped.
pub open spec fn xml_value(raw: Seq<char>) -> Option<Seq<char>> {
    if trimmed(raw).len() == 0 {
        None
    } else {
        Some(xml_unescaped(trimmed(raw)))
    }
}

/// The text between the first `<tag>` and the first `</tag>` after it.
pub open spec fn xml_tag_value(xml: Seq<char>, tag: Seq<char>) -> Option<Seq<char>> {
    let start_tag = "<"@ + tag + ">"@;
    let end_tag = "</"@ + tag + ">"@;
    match find_spec(xml, start_tag) {
        None => None,
        Some(i) => {
            let rest = xml.skip(i + start_tag.len());
            match find_spec(rest, end_tag) {
                None => None,
                Some(j) => xml_value(rest.take(j)),
            }
        },
    }
}

/// The quoted value that follows the first `name="` in an element.
pub open spec fn xml_attribute_value(element: Seq<char>, name: Seq<char>) -> Option<Seq<char>> {
    let marker = name + "=\""@;
    match find_spec(element, marker) {
        None => None,
        Some(i) => {
            let rest = element.skip(i + marker.len());
            match find_spec(rest, "\""@) {
                None => None,
                Some(j) => xml_value(rest.take(j)),
            }
        },
    }
}

/// The `Name` attribute of the first `<Identity` element.
pub open spec fn identity_name_of(xml: Seq<char>) -> Option<Seq<char>> {
    match find_spec(xml, "<Identity"@) {
        None => None,
        Some(i) => {
            let rest = xml.skip(i);
            match find_spec(rest, ">"@) {
                None => None,
                Some(c) => xml_attribute_value(rest.take(c), "Name"@),
            }
        },
    }
}

/// The view of an optional string.
pub open spec fn opt_view(o: Option<String>) -> Option<Seq<char>> {
    match o {
        Some(s) => Some(s@),
        None => None,
    }
}

// ---------------------------------------------------------------------------
// Executable operations
// ---------------------------------------------------------------------------

proof fn lemma_occurs_at_skip(v: Seq<char>, p: Seq<char>, i: int)
    requires
        0 <= i <= v.len(),
    ensures
        occurs_at(v, p, i) == occurs_at(v.skip(i), p, 0),
{
    if i + p.len() <= v.len() {
        assert(v.skip(i).subrange(0, p.len() as int) =~= v.subrange(i, i + p.len()));
    }
}

/// Whether the literal `entity` occurs in `v` at `i`.
fn entity_occurs(v: &Vec<char>, i: usize, entity: &str) -> (r: bool)
    requires
        i <= v@.len(),
    ensures
        r == occurs_at(v@.skip(i as int), entity@, 0),
{
    let p = chars_of(entity);
    proof {
        lemma_occurs_at_skip(v@, p@, i as int);
    }
    matches_at(v, &p, i)
}

/// The predefined XML entity at index `i` of `v`, if any.
fn entity_here(v: &Vec<char>, i: usize) -> (r: Option<(char, usize)>)
    requires
        i <= v@.len(),
    ensures
        r == entity_at(v@.skip(i as int)),
{
    proof {
        reveal_strlit("&amp;");
        reveal_strlit("&quot;");
        reveal_strlit("&apos;");
        reveal_strlit("&lt;");
        reveal_strlit("&gt;");
        assert("&amp;"@ =~= seq!['&', 'a', 'm', 'p', ';']);
        assert("&quot;"@ =~= seq!['&', 'q', 'u', 'o', 't', ';']);
        assert("&apos;"@ =~= seq!['&', 'a', 'p', 'o', 's', ';']);
        assert("&lt;"@ =~= seq!['&', 'l', 't', ';']);
        assert("&gt;"@ =~= seq!['&', 'g', 't', ';']);
    }
    if entity_occurs(v, i, "&amp;") {
        Some(('&', 5))
    } else if entity_occurs(v, i, "&quot;") {
        Some(('"', 6))
    } else if entity_occurs(v, i, "&apos;") {
        Some(('\'', 6))
    } else if entity_occurs(v, i, "&lt;") {
        Some(('<', 4))
    } else if entity_occurs(v, i, "&gt;") {
        Some(('>', 4))
    } else {
        None
    }
}

fn unescape_chars(v: &Vec<char>) -> (r: Vec<char>)
    ensures
        r@ == xml_unescaped(v@),
{
    let mut out: Vec<char> = Vec::new();
    let mut i: usize = 0;
    assert(v@.skip(0) =~= v@);
    assert(out@ + xml_unescaped(v@.skip(0)) =~= xml_unescaped(v@));
    while i < v.len()
        invariant
            i <= v@.len(),
            out@ + xml_unescaped(v@.skip(i as int)) == xml_unescaped(v@),
        decreases v@.len() - i,
    {
        let ghost rest = v@.skip(i as int);
        let ghost before = out@;
        match entity_here(v, i) {
            Some((c, n)) => {
                assert(rest.skip(n as int) =~= v@.skip(i + n));
                out.push(c);
                assert(out@ + xml_unescaped(v@.skip(i + n)) =~= before + xml_unescaped(rest));
                i = i + n;
            },
            None => {
                assert(rest[0] == v@[i as int]);
                assert(rest.skip(1) =~= v@.skip(i + 1));
                out.push(v[i]);
                assert(out@ + xml_unescaped(v@.skip(i + 1)) =~= before + xml_unescaped(rest));
                i = i + 1;
            },
        }
    }
    assert(xml_unescaped(v@.skip(i as int)) =~= Seq::<char>::empty());
    assert(out@ =~= out@ + Seq::<char>::empty());
    out
}

/// Replaces the predefined XML entities by their characters.
pub fn xml_unescape(value: &str) -> (r: String)
    ensures
        r@ == xml_unescaped(value@),
{
    let v = chars_of(value);
    let u = unescape_chars(&v);
    string_of(&u)
}

fn value_of(raw: &Vec<char>) -> (r: Option<String>)
    ensures
        opt_view(r) == xml_value(raw@),
{
    let t = trim_chars(raw);
    if t.len() == 0 {
        None
    } else {
        let u = unescape_chars(&t);
        Some(string_of(&u))
    }
}

fn delimited_value(v: &Vec<char>, open: &Vec<char>, close: &Vec<char>) -> (r: Option<String>)
    ensures
        opt_view(r) == match find_spec(v@, open@) {
            None => None,
            Some(i) => {
                let rest = v@.skip(i + open@.len());
                match find_spec(rest, close@) {
                    None => None,
                    Some(j) => xml_value(rest.take(j)),
                }
            },
        },
{
    match find_chars(v, open) {
        None => None,
        Some(i) => {
            proof {
                crate::text::lemma_find_from_correct(v@, open@, 0);
                assert(crate::text::occurs_at(v@, open@, i as int));
            }
            let n = v.len();
            assert(i + open@.len() <= n);
            let rest = sub_chars(v, i + open.len(), n);
            assert(rest@ =~= v@.skip(i + open@.len()));
            match find_chars(&rest, close) {
                None => None,
                Some(j) => {
                    proof {
                        crate::text::lemma_find_from_correct(rest@, close@, 0);
                    }
                    let inner = sub_chars(&rest, 0, j);
                    assert(inner@ =~= rest@.take(j as int));
                    value_of(&inner)
                },
            }
        },
    }
}

/// The text of the first `<tag_name>` element, trimmed and unescaped; `None`
/// when the element is missing, unclosed or blank.
pub fn extract_xml_tag_value(xml: &str, tag_name: &str) -> (r: Option<String>)
    ensures
        opt_view(r) == xml_tag_value(xml@, tag_name@),
{
    let v = chars_of(xml);
    let tag = chars_of(tag_name);
    let lt = chars_of("<");
    let gt = chars_of(">");
    let lts = chars_of("</");
    let a = concat_chars(&lt, &tag);
    let open = concat_chars(&a, &gt);
    let b = concat_chars(&lts, &tag);
    let close = concat_chars(&b, &gt);
    delimited_value(&v, &open, &close)
}

/// The value of the first `attribute_name="..."` in an element, trimmed and
/// unescaped; `None` when missing, unclosed or blank.
pub fn extract_xml_attribute_value(element: &str, attribute_name: &str) -> (r: Option<String>)
    ensures
        opt_view(r) == xml_attribute_value(element@, attribute_name@),
{
    let v = chars_of(element);
    let name = chars_of(attribute_name);
    let eq = chars_of("=\"");
    let marker = concat_chars(&name, &eq);
    let quote = chars_of("\"");
    delimited_value(&v, &marker, &quote)
}

/// The package identity name: the `Name` attribute of the first `<Identity` element.
pub fn extract_identity_name(xml: &str) -> (r: Option<String>)
    ensures
        opt_view(r) == identity_name_of(xml@),
{
    let v = chars_of(xml);
    let marker = chars_of("<Identity");
    match find_chars(&v, &marker) {
        None => None,
        Some(i) => {
            proof {
                crate::text::lemma_find_from_correct(v@, marker@, 0);
            }
            let rest = sub_chars(&v, i, v.len());
            assert(rest@ =~= v@.skip(i as int));
            let gt = chars_of(">");
            match find_chars(&rest, &gt) {
                None => None,
                Some(c) => {
                    proof {
                        crate::text::lemma_find_from_correct(rest@, gt@, 0);
                    }
                    let element = sub_chars(&rest, 0, c);
                    assert(element@ =~= rest@.take(c as int));
                    let s = string_of(&element);
                    extract_xml_attribute_value(s.as_str(), "Name")
                },
            }
        },
    }
}

/// The names an `AppxManifest.xml` gives its package.
pub struct AppxManifestMetadata {
    pub display_name: Option<String>,
    pub publisher_display_name: Option<String>,
    pub identity_name: Option<String>,
}

/// Reads the display name, publisher display name and identity name of a
/// package manifest.
pub fn parse_appx_manifest(raw: &str) -> (r: AppxManifestMetadata)
    ensures
        opt_view(r.display_name) == xml_tag_value(raw@, "DisplayName"@),
        opt_view(r.publisher_display_name) == xml_tag_value(raw@, "PublisherDisplayName"@),
        opt_view(r.identity_name) == identity_name_of(raw@),
{
    AppxManifestMetadata {
        display_name: extract_xml_tag_value(raw, "DisplayName"),
        publisher_display_name: extract_xml_tag_value(raw, "PublisherDisplayName"),
        identity_name: extract_identity_name(raw),
    }
}

} // verus!
