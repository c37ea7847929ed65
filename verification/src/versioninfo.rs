//! The decisions around an executable's version-information block: which
//! language/code-page pairs to ask for, how each string is queried and
//! cleaned, and which answers make up the product metadata.
use vstd::prelude::*;

use crate::manifest::opt_view;
use crate::text::{chars_of, concat_chars, string_of, strip_suffixes, strip_suffixes_chars, trim_chars, trimmed};
use crate::unicode::string_push;

verus! {

/// The language (US English) and code page (Unicode) asked for when the block
/// names no translation.
pub const DEFAULT_LANGUAGE: u16 = 0x0409;

/// See `DEFAULT_LANGUAGE`.
pub const DEFAULT_CODE_PAGE: u16 = 0x04B0;

/// The product name, company name and product version an executable reports.
pub struct VersionMetadata {
    pub product_name: Option<String>,
    pub company_name: Option<String>,
    pub product_version: Option<String>,
}

/// The three strings one translation of the block answered, each `None` when
/// the query failed or was blank.
pub struct VersionStrings {
    pub product_name: Option<String>,
    pub company_name: Option<String>,
    pub product_version: Option<String>,
}

/// The little-endian 16-bit number at `b[i]`, `b[i + 1]`.
pub open spec fn le16(b: Seq<u8>, i: int) -> u16 {
    (b[i] + 256 * b[i + 1]) as u16
}

/// The language/code-page pairs of a `\VarFileInfo\Translation` value: one per
/// whole four bytes, or the default pair when there is no value or fewer than
/// four bytes.
pub open spec fn translations_of(value: Option<Seq<u8>>) -> Seq<(u16, u16)> {
    match value {
        Some(b) => if b.len() >= 4 {
            Seq::new(b.len() / 4, |k: int| (le16(b, 4 * k), le16(b, 4 * k + 2)))
        } else {
            seq![(DEFAULT_LANGUAGE, DEFAULT_CODE_PAGE)]
        },
        None => seq![(DEFAULT_LANGUAGE, DEFAULT_CODE_PAGE)],
    }
}

/// The lowercase hexadecimal digit of `d < 16`.
pub open spec fn hex_digit(d: int) -> char {
    if d < 10 {
        (('0' as int) + d) as char
    } else {
        (('a' as int) + d - 10) as char
    }
}

/// `n` as four lowercase hexadecimal digits.
pub open spec fn hex4(n: u16) -> Seq<char> {
    seq![
        hex_digit((n / 4096) as int),
        hex_digit(((n / 256) % 16) as int),
        hex_digit(((n / 16) % 16) as int),
        hex_digit((n % 16) as int),
    ]
}

/// The query path of one string of the block, NUL-terminated.
pub open spec fn version_query_spec(language: u16, code_page: u16, key: Seq<char>) -> Seq<char> {
    "\\StringFileInfo\\"@ + hex4(language) + hex4(code_page) + "\\"@ + key + seq!['\0']
}

/// A queried string with trailing NULs and surrounding white space removed,
/// `None` when nothing is left.
pub open spec fn cleaned_version_string(raw: Seq<char>) -> Option<Seq<char>> {
    let t = trimmed(strip_suffixes(raw, seq!['\0']));
    if t.len() == 0 {
        None
    } else {
        Some(t)
    }
}

/// The first answer among `answers[i..]` that is present.
pub open spec fn first_present(answers: Seq<Option<Seq<char>>>, i: int) -> Option<Seq<char>>
    decreases answers.len() - i,
{
    if i < 0 || i >= answers.len() {
        None
    } else if answers[i] is Some {
        answers[i]
    } else {
        first_present(answers, i + 1)
    }
}

/// Parses a `\VarFileInfo\Translation` value into language/code-page pairs.
pub fn parse_translations(value: Option<&[u8]>) -> (r: Vec<(u16, u16)>)
    ensures
        r@ == translations_of(match value {
            Some(b) => Some(b@),
            None => None,
        }),
{
    let mut out: Vec<(u16, u16)> = Vec::new();
    match value {
        Some(b) => {
            if b.len() >= 4 {
                let count = b.len() / 4;
                let mut k: usize = 0;
                while k < count
                    invariant
                        count == b@.len() / 4,
                        b@.len() <= usize::MAX,
                        k <= count,
                        out@.len() == k,
                        forall|m: int|
                            0 <= m < k ==> #[trigger] out@[m] == (le16(b@, 4 * m), le16(
                                b@,
                                4 * m + 2,
                            )),
                    decreases count - k,
                {
                    assert(4 * k + 3 < b@.len()) by (nonlinear_arith)
                        requires
                            k < count,
                            count == b@.len() / 4,
                    ;
                    let base = 4 * k;
                    let language = (b[base] as u16) + 256 * (b[base + 1] as u16);
                    let code_page = (b[base + 2] as u16) + 256 * (b[base + 3] as u16);
                    out.push((language, code_page));
                    k += 1;
                }
                assert(out@ =~= translations_of(Some(b@)));
            } else {
                out.push((DEFAULT_LANGUAGE, DEFAULT_CODE_PAGE));
                assert(out@ =~= translations_of(Some(b@)));
            }
        },
        None => {
            out.push((DEFAULT_LANGUAGE, DEFAULT_CODE_PAGE));
            assert(out@ =~= translations_of(None));
        },
    }
    out
}

fn push_hex_digit(s: &mut String, d: u16)
    requires
        d < 16,
    ensures
        final(s)@ == old(s)@.push(hex_digit(d as int)),
{
    let c = if d < 10 {
        ('0' as u8 + d as u8) as char
    } else {
        ('a' as u8 + (d as u8 - 10)) as char
    };
    string_push(s, c);
}

fn push_hex4(s: &mut String, n: u16)
    ensures
        final(s)@ == old(s)@ + hex4(n),
{
    let ghost start = s@;
    push_hex_digit(s, n / 4096);
    push_hex_digit(s, (n / 256) % 16);
    push_hex_digit(s, (n / 16) % 16);
    push_hex_digit(s, n % 16);
    assert(s@ =~= start + hex4(n));
}

/// The NUL-terminated query path of one string of the version block
/// (`\StringFileInfo\{language:04x}{code_page:04x}\{key}`).
pub fn version_query(language: u16, code_page: u16, key: &str) -> (r: String)
    ensures
        r@ == version_query_spec(language, code_page, key@),
{
    let mut s = String::from_str("\\StringFileInfo\\");
    push_hex4(&mut s, language);
    push_hex4(&mut s, code_page);
    s.append("\\");
    s.append(key);
    string_push(&mut s, '\0');
    s
}

/// Removes trailing NULs and surrounding white space from a queried string;
/// `None` when nothing is left.
pub fn clean_version_string(raw: &str) -> (r: Option<String>)
    ensures
        opt_view(r) == cleaned_version_string(raw@),
{
    let v = chars_of(raw);
    let mut nul: Vec<char> = Vec::new();
    nul.push('\0');
    assert(nul@ =~= seq!['\0']);
    let stripped = strip_suffixes_chars(&v, &nul);
    let t = trim_chars(&stripped);
    if t.len() == 0 {
        None
    } else {
        Some(string_of(&t))
    }
}

fn first_answer(answers: &Vec<Option<String>>) -> (r: Option<String>)
    ensures
        opt_view(r) == first_present(answers@.map_values(|a: Option<String>| opt_view(a)), 0),
{
    let ghost av = answers@.map_values(|a: Option<String>| opt_view(a));
    let mut i: usize = 0;
    while i < answers.len()
        invariant
            i <= answers@.len(),
            av == answers@.map_values(|a: Option<String>| opt_view(a)),
            first_present(av, 0) == first_present(av, i as int),
        decreases answers@.len() - i,
    {
        match &answers[i] {
            Some(s) => {
                assert(av[i as int] is Some);
                return Some(s.clone());
            },
            None => {
                assert(av[i as int] is None);
            },
        }
        i += 1;
    }
    None
}

/// The product metadata of an executable from the strings each translation
/// answered, in the order they were asked (the default pair last): each field
/// is the first answer that is present, and there is no metadata when no
/// field has one.
pub fn pick_version_metadata(answers: &Vec<VersionStrings>) -> (r: Option<VersionMetadata>)
    ensures
        ({
            let p = first_present(answers@.map_values(|a: VersionStrings| opt_view(a.product_name)), 0);
            let c = first_present(answers@.map_values(|a: VersionStrings| opt_view(a.company_name)), 0);
            let v = first_present(answers@.map_values(|a: VersionStrings| opt_view(a.product_version)), 0);
            match r {
                Some(m) => (p is Some || c is Some || v is Some) && opt_view(m.product_name) == p
                    && opt_view(m.company_name) == c && opt_view(m.product_version) == v,
                None => p is None && c is None && v is None,
            }
        }),
{
    let mut products: Vec<Option<String>> = Vec::new();
    let mut companies: Vec<Option<String>> = Vec::new();
    let mut versions: Vec<Option<String>> = Vec::new();
    let mut i: usize = 0;
    while i < answers.len()
        invariant
            i <= answers@.len(),
            products@.len() == i,
            companies@.len() == i,
            versions@.len() == i,
            forall|k: int| 0 <= k < i ==> opt_view(#[trigger] products@[k]) == opt_view(answers@[k].product_name),
            forall|k: int| 0 <= k < i ==> opt_view(#[trigger] companies@[k]) == opt_view(answers@[k].company_name),
            forall|k: int| 0 <= k < i ==> opt_view(#[trigger] versions@[k]) == opt_view(answers@[k].product_version),
        decreases answers@.len() - i,
    {
        products.push(answers[i].product_name.clone());
        companies.push(answers[i].company_name.clone());
        versions.push(answers[i].product_version.clone());
        i += 1;
    }
    assert(products@.map_values(|a: Option<String>| opt_view(a)) =~= answers@.map_values(|a: VersionStrings| opt_view(a.product_name)));
    assert(companies@.map_values(|a: Option<String>| opt_view(a)) =~= answers@.map_values(|a: VersionStrings| opt_view(a.company_name)));
    assert(versions@.map_values(|a: Option<String>| opt_view(a)) =~= answers@.map_values(|a: VersionStrings| opt_view(a.product_version)));
    let product_name = first_answer(&products);
    let company_name = first_answer(&companies);
    let product_version = first_answer(&versions);
    if product_name.is_none() && company_name.is_none() && product_version.is_none() {
        return None;
    }
    Some(VersionMetadata { product_name, company_name, product_version })
}

} // verus!
