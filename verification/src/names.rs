//! The rules that turn executable paths into app identities and readable
//! names: path normalisation, the file name of a path, the fallback
//! prettification of an exe name, and which metadata names are usable.
use vstd::prelude::*;

use crate::text::{
    capitalized, chars_of, concat_chars, contains_char, ends_with_chars, ends_with_spec,
    has_alphanumeric, any_alphanumeric, join_with, lowercase_chars, replace_char,
    replace_char_spec, same_chars, starts_with_chars, starts_with_spec, string_of,
    strip_suffixes, strip_suffixes_chars, trim_chars, trimmed, lemma_trimmed_ascii, lemma_trimmed_edges,
    trim_start_spec, trim_end_spec,
};
use crate::unicode::{
    ascii_lowercase, ascii_upper_char, char_to_uppercase, char_uppercase, is_ascii_text, is_white_space,
    lowercase,
};

verus! {

// ---------------------------------------------------------------------------
// Specifications
// ---------------------------------------------------------------------------

/// The identity of an executable: its path trimmed, with `/` turned into `\`,
/// and lowercased.
pub open spec fn normalized_exe_path(v: Seq<char>) -> Seq<char> {
    lowercase(replace_char_spec(trimmed(v), '/', '\\'))
}

/// Whether a value names an executable by path: once normalised it holds a
/// `\` and ends with `.exe`.
pub open spec fn looks_like_exe_path_spec(v: Seq<char>) -> bool {
    normalized_exe_path(v).contains('\\') && ends_with_spec(normalized_exe_path(v), ".exe"@)
}

/// The characters that split a path (`path_mode`) or an exe name (otherwise).
pub open spec fn is_delimiter(c: char, path_mode: bool) -> bool {
    if path_mode {
        c == '\\' || c == '/'
    } else {
        c == '-' || c == '_' || c == '.' || c == ' '
    }
}

/// Scanning `s` left to right: the non-empty segments closed so far and the
/// segment still open.
pub open spec fn segment_scan(s: Seq<char>, path_mode: bool) -> (Seq<Seq<char>>, Seq<char>)
    decreases s.len(),
{
    if s.len() == 0 {
        (Seq::empty(), Seq::empty())
    } else {
        let (done, cur) = segment_scan(s.drop_last(), path_mode);
        if is_delimiter(s.last(), path_mode) {
            if cur.len() > 0 {
                (done.push(cur), Seq::empty())
            } else {
                (done, Seq::empty())
            }
        } else {
            (done, cur.push(s.last()))
        }
    }
}

/// The non-empty runs of non-delimiters in `s`, in order (a split on the
/// delimiters with the empty parts dropped).
pub open spec fn segments(s: Seq<char>, path_mode: bool) -> Seq<Seq<char>> {
    let (done, cur) = segment_scan(s, path_mode);
    if cur.len() > 0 {
        done.push(cur)
    } else {
        done
    }
}

/// The readable form of an exe name's words: each word capitalised, joined
/// with single spaces.
pub open spec fn prettified_words(s: Seq<char>) -> Seq<char> {
    join_with(segments(s, false).map_values(|w: Seq<char>| capitalized(w)), " "@)
}

/// The fallback display name of an exe name.
pub open spec fn prettified(exe_name: Seq<char>) -> Seq<char> {
    let key = lowercase(trimmed(exe_name));
    if key == "unknown"@ {
        "Unknown"@
    } else if key == "idle"@ {
        "Idle"@
    } else {
        prettified_words(strip_suffixes(exe_name, ".exe"@))
    }
}

/// Whether `s` starts with a drive prefix such as `C:`.
pub open spec fn has_drive_prefix(s: Seq<char>) -> bool {
    s.len() >= 2 && s[1] == ':' && (('a' <= s[0] && s[0] <= 'z') || ('A' <= s[0] && s[0]
        <= 'Z'))
}

/// `s` without its drive prefix.
pub open spec fn path_body(s: Seq<char>) -> Seq<char> {
    if has_drive_prefix(s) {
        s.skip(2)
    } else {
        s
    }
}

/// The last component of a list of path components that is not `.`.
pub open spec fn last_component(cs: Seq<Seq<char>>) -> Option<Seq<char>>
    decreases cs.len(),
{
    if cs.len() == 0 {
        None
    } else if cs.last() == "."@ {
        last_component(cs.drop_last())
    } else {
        Some(cs.last())
    }
}

/// The file name of a Windows path: its last component, if that is a name
/// (not `..`, and not absent). Of the path prefixes only a drive letter is
/// set apart; the parts of a UNC or device prefix count as components, so
/// for `\\server\share` alone this gives `share`.
pub open spec fn file_name_of(path: Seq<char>) -> Option<Seq<char>> {
    match last_component(segments(path_body(path), true)) {
        Some(c) => if c == ".."@ {
            None
        } else {
            Some(c)
        },
        None => None,
    }
}

/// The lowercased file name of a path.
pub open spec fn exe_name_of(path: Seq<char>) -> Option<Seq<char>> {
    match file_name_of(path) {
        Some(n) => Some(lowercase(n)),
        None => None,
    }
}

/// Names that a product or package may carry but that say nothing about the app.
pub open spec fn is_generic_name(n: Seq<char>) -> bool {
    n == "application"@ || n == "electron"@ || n == "updater"@ || n == "setup"@ || n
        == "launcher"@
}

/// Whether a version-info product name may stand as the app's name.
pub open spec fn valid_product_name(value: Seq<char>, exe_name: Seq<char>) -> bool {
    let t = trimmed(value);
    let n = lowercase(t);
    &&& t.len() > 0
    &&& !is_generic_name(n)
    &&& n != lowercase(exe_name)
    &&& n != lowercase(strip_suffixes(exe_name, ".exe"@))
    &&& !t.contains('\\')
    &&& !t.contains('/')
    &&& !ends_with_spec(n, ".exe"@)
    &&& has_alphanumeric(t)
}

/// Whether a package manifest display name may stand as the app's name.
pub open spec fn valid_appx_display_name(value: Seq<char>, exe_name: Seq<char>) -> bool {
    let t = trimmed(value);
    let n = lowercase(t);
    let stem = strip_suffixes(exe_name, ".exe"@);
    if t.len() == 0 || starts_with_spec(n, "ms-resource:"@) || is_generic_name(n) || t.contains(
        '\\',
    ) || t.contains('/') || ends_with_spec(n, ".exe"@) {
        false
    } else if n == lowercase(stem) {
        t != stem
    } else {
        has_alphanumeric(t)
    }
}

// ---------------------------------------------------------------------------
// Lemmas
// ---------------------------------------------------------------------------

proof fn lemma_map_push<A, B>(s: Seq<A>, x: A, f: spec_fn(A) -> B)
    ensures
        s.push(x).map_values(f) == s.map_values(f).push(f(x)),
{
    assert(s.push(x).map_values(f) =~= s.map_values(f).push(f(x)));
}

proof fn lemma_join_push(words: Seq<Seq<char>>, w: Seq<char>, sep: Seq<char>)
    ensures
        join_with(words.push(w), sep) == if words.len() == 0 {
            w
        } else {
            join_with(words, sep) + sep + w
        },
{
    assert(words.push(w).drop_last() =~= words);
}

/// Whether `s` holds none of the characters that split an exe name into
/// words other than the space: no `.`, `-` or `_`.
pub open spec fn free_of_word_breaks(s: Seq<char>) -> bool {
    forall|i: int| 0 <= i < s.len() ==> s[i] != '.' && s[i] != '-' && s[i] != '_'
}

/// Whether every character of `w` is ASCII and none is `.`, `-`, `_` or a space.
spec fn plain_ascii_word(w: Seq<char>) -> bool {
    forall|j: int| 0 <= j < w.len() ==> (w[j] as u32) < 128 && w[j] != '.' && w[j] != '-' && w[j] != '_' && w[j] != ' '
}

proof fn lemma_scan_words_plain(s: Seq<char>)
    requires
        is_ascii_text(s),
    ensures
        forall|k: int| 0 <= k < segment_scan(s, false).0.len() ==> plain_ascii_word(#[trigger] segment_scan(s, false).0[k]),
        plain_ascii_word(segment_scan(s, false).1),
    decreases s.len(),
{
    if s.len() > 0 {
        let init = s.drop_last();
        assert forall|i: int| 0 <= i < init.len() implies (init[i] as u32) < 128 by {
            assert(init[i] == s[i]);
        }
        lemma_scan_words_plain(init);
        let (done, cur) = segment_scan(init, false);
        assert((s.last() as u32) < 128) by {
            assert(s.last() == s[s.len() - 1]);
        }
        if !is_delimiter(s.last(), false) {
            let c2 = cur.push(s.last());
            assert forall|j: int| 0 <= j < c2.len() implies (c2[j] as u32) < 128 && c2[j] != '.' && c2[j] != '-' && c2[j] != '_' && c2[j] != ' ' by {
                if j < cur.len() {
                    assert(c2[j] == cur[j]);
                }
            }
        } else if cur.len() > 0 {
            let d2 = done.push(cur);
            assert forall|k: int| 0 <= k < d2.len() implies plain_ascii_word(#[trigger] d2[k]) by {
                if k < done.len() {
                    assert(d2[k] == done[k]);
                }
            }
        }
    }
}

proof fn lemma_capitalized_plain(w: Seq<char>)
    requires
        plain_ascii_word(w),
    ensures
        free_of_word_breaks(capitalized(w)),
{
    if w.len() > 0 {
        let c = w[0];
        assert((c as u32) < 128);
        let u = ascii_upper_char(c);
        assert(u != '.' && u != '-' && u != '_');
        let r = capitalized(w);
        assert forall|i: int| 0 <= i < r.len() implies r[i] != '.' && r[i] != '-' && r[i] != '_' by {
            if i > 0 {
                assert(r[i] == w[i]);
            }
        }
    }
}

proof fn lemma_join_free(words: Seq<Seq<char>>)
    requires
        forall|k: int| 0 <= k < words.len() ==> free_of_word_breaks(#[trigger] words[k]),
    ensures
        free_of_word_breaks(join_with(words, " "@)),
    decreases words.len(),
{
    reveal_strlit(" ");
    if words.len() > 1 {
        let init = words.drop_last();
        assert forall|k: int| 0 <= k < init.len() implies free_of_word_breaks(#[trigger] init[k]) by {
            assert(init[k] == words[k]);
        }
        lemma_join_free(init);
        assert(free_of_word_breaks(words[words.len() - 1]));
        let a = join_with(init, " "@);
        let r = a + " "@ + words.last();
        assert forall|i: int| 0 <= i < r.len() implies r[i] != '.' && r[i] != '-' && r[i] != '_' by {
            if i < a.len() {
                assert(r[i] == a[i]);
            } else if i == a.len() {
                assert(r[i] == ' ');
            } else {
                assert(r[i] == words.last()[i - a.len() - 1]);
            }
        }
    } else if words.len() == 1 {
        assert(free_of_word_breaks(words[0]));
    }
}

proof fn lemma_strip_suffixes_prefix(s: Seq<char>, p: Seq<char>)
    ensures
        strip_suffixes(s, p).len() <= s.len(),
        forall|i: int| 0 <= i < strip_suffixes(s, p).len() ==> #[trigger] strip_suffixes(s, p)[i] == s[i],
    decreases s.len(),
{
    if p.len() > 0 && ends_with_spec(s, p) {
        let t = s.subrange(0, s.len() - p.len());
        lemma_strip_suffixes_prefix(t, p);
        assert forall|i: int| 0 <= i < strip_suffixes(s, p).len() implies #[trigger] strip_suffixes(s, p)[i] == s[i] by {
            assert(strip_suffixes(t, p)[i] == t[i]);
        }
    }
}

/// The fallback name of an ASCII exe name splits it into words at every
/// `-`, `_` and `.` (and space): none of those characters is left in it, so
/// `a.b.exe` gives `A B`, never `A.b`.
pub proof fn lemma_prettified_has_no_word_breaks(exe_name: Seq<char>)
    requires
        is_ascii_text(exe_name),
    ensures
        free_of_word_breaks(prettified(exe_name)),
{
    reveal_strlit("Unknown");
    reveal_strlit("Idle");
    let key = lowercase(trimmed(exe_name));
    if key != "unknown"@ && key != "idle"@ {
        let stem = strip_suffixes(exe_name, ".exe"@);
        lemma_strip_suffixes_prefix(exe_name, ".exe"@);
        assert forall|i: int| 0 <= i < stem.len() implies (stem[i] as u32) < 128 by {
            assert(stem[i] == exe_name[i]);
        }
        lemma_scan_words_plain(stem);
        let ws = segments(stem, false);
        assert forall|k: int| 0 <= k < ws.len() implies plain_ascii_word(#[trigger] ws[k]) by {
            let (done, cur) = segment_scan(stem, false);
            if k < done.len() {
                assert(ws[k] == done[k]);
            }
        }
        let caps = ws.map_values(|w: Seq<char>| capitalized(w));
        assert forall|k: int| 0 <= k < caps.len() implies free_of_word_breaks(#[trigger] caps[k]) by {
            lemma_capitalized_plain(ws[k]);
        }
        lemma_join_free(caps);
    }
}

/// Whether `c` is one of the characters an exe name is split into words at:
/// `-`, `_`, `.` or a space.
pub open spec fn word_break(c: char) -> bool {
    c == '-' || c == '_' || c == '.' || c == ' '
}

/// `s` with its word breaks removed and its ASCII letters lowercased: the
/// letters and digits of `s`, compared without case.
pub open spec fn squashed(s: Seq<char>) -> Seq<char>
    decreases s.len(),
{
    if s.len() == 0 {
        Seq::<char>::empty()
    } else if word_break(s.last()) {
        squashed(s.drop_last())
    } else {
        squashed(s.drop_last()).push(crate::unicode::ascii_lower_char(s.last()))
    }
}

/// Whether `r` is words separated by single spaces, each starting with
/// something other than a lowercase ASCII letter: no space at either end,
/// and after a space (or at the start) neither a space nor `a`..`z`.
pub open spec fn capitalized_words(r: Seq<char>) -> bool {
    &&& (r.len() > 0 ==> r.last() != ' ')
    &&& forall|i: int|
        0 <= i < r.len() && (i == 0 || r[i - 1] == ' ') ==> #[trigger] r[i] != ' ' && !('a' <= r[i] && r[i] <= 'z')
}

/// The squashed words of `ws`, one after the other.
spec fn squashed_all(ws: Seq<Seq<char>>) -> Seq<char>
    decreases ws.len(),
{
    if ws.len() == 0 {
        Seq::<char>::empty()
    } else {
        squashed_all(ws.drop_last()) + squashed(ws.last())
    }
}

proof fn lemma_squashed_concat(a: Seq<char>, b: Seq<char>)
    ensures
        squashed(a + b) == squashed(a) + squashed(b),
    decreases b.len(),
{
    if b.len() == 0 {
        assert(a + b =~= a);
        assert(squashed(a) + squashed(b) =~= squashed(a));
    } else {
        lemma_squashed_concat(a, b.drop_last());
        assert((a + b).drop_last() =~= a + b.drop_last());
        assert((a + b).last() == b.last());
        if !word_break(b.last()) {
            assert(squashed(a) + squashed(b) =~= (squashed(a) + squashed(b.drop_last())).push(
                crate::unicode::ascii_lower_char(b.last()),
            ));
        }
    }
}

proof fn lemma_squashed_single(c: char)
    ensures
        squashed(seq![c]) == if word_break(c) {
            Seq::<char>::empty()
        } else {
            seq![crate::unicode::ascii_lower_char(c)]
        },
{
    assert(seq![c].drop_last() =~= Seq::<char>::empty());
    assert(seq![c].last() == c);
    assert(squashed(Seq::<char>::empty()) == Seq::<char>::empty());
    assert(Seq::<char>::empty().push(crate::unicode::ascii_lower_char(c)) =~= seq![crate::unicode::ascii_lower_char(c)]);
}

proof fn lemma_scan_squashed(s: Seq<char>)
    ensures
        squashed(s) == squashed_all(segment_scan(s, false).0) + squashed(segment_scan(s, false).1),
        forall|k: int| 0 <= k < segment_scan(s, false).0.len() ==> (#[trigger] segment_scan(s, false).0[k]).len() > 0,
    decreases s.len(),
{
    if s.len() == 0 {
        assert(squashed_all(Seq::<Seq<char>>::empty()) + squashed(Seq::<char>::empty()) =~= Seq::<char>::empty());
    } else {
        let init = s.drop_last();
        lemma_scan_squashed(init);
        let (done, cur) = segment_scan(init, false);
        let c = s.last();
        if is_delimiter(c, false) {
            assert(word_break(c));
            if cur.len() > 0 {
                let d2 = done.push(cur);
                assert(d2.drop_last() =~= done);
                assert(squashed_all(d2) + squashed(Seq::<char>::empty()) =~= squashed_all(done) + squashed(cur));
                assert forall|k: int| 0 <= k < d2.len() implies (#[trigger] d2[k]).len() > 0 by {
                    if k < done.len() {
                        assert(d2[k] == done[k]);
                    }
                }
            }
        } else {
            assert(!word_break(c));
            let c2 = cur.push(c);
            assert(c2.drop_last() =~= cur);
            assert(squashed_all(done) + squashed(c2) =~= (squashed_all(done) + squashed(cur)).push(
                crate::unicode::ascii_lower_char(c),
            ));
        }
    }
}

proof fn lemma_squashed_capitalized(w: Seq<char>)
    requires
        plain_ascii_word(w),
    ensures
        squashed(capitalized(w)) == squashed(w),
{
    if w.len() > 0 {
        let c = w[0];
        let u = ascii_upper_char(c);
        assert(crate::unicode::ascii_lower_char(u) == crate::unicode::ascii_lower_char(c));
        assert(!word_break(u));
        assert(seq![c] + w.drop_first() =~= w);
        lemma_squashed_concat(seq![u], w.drop_first());
        lemma_squashed_concat(seq![c], w.drop_first());
        lemma_squashed_single(u);
        lemma_squashed_single(c);
    }
}

proof fn lemma_squashed_join(ws: Seq<Seq<char>>)
    ensures
        squashed(join_with(ws, " "@)) == squashed_all(ws),
    decreases ws.len(),
{
    reveal_strlit(" ");
    if ws.len() == 1 {
        assert(ws.drop_last() =~= Seq::<Seq<char>>::empty());
        assert(squashed_all(Seq::<Seq<char>>::empty()) == Seq::<char>::empty());
        assert(ws.last() == ws[0]);
        assert(Seq::<char>::empty() + squashed(ws.last()) =~= squashed(ws[0]));
    } else if ws.len() > 1 {
        lemma_squashed_join(ws.drop_last());
        let a = join_with(ws.drop_last(), " "@);
        lemma_squashed_concat(a, " "@);
        lemma_squashed_concat(a + " "@, ws.last());
        lemma_squashed_single(' ');
        assert(" "@ =~= seq![' ']);
        assert(squashed(" "@) == Seq::<char>::empty());
        assert(squashed(a) + Seq::<char>::empty() + squashed(ws.last()) =~= squashed(a) + squashed(ws.last()));
        assert(join_with(ws, " "@) == a + " "@ + ws.last());
    }
}

proof fn lemma_squashed_all_map(ws: Seq<Seq<char>>)
    requires
        forall|k: int| 0 <= k < ws.len() ==> plain_ascii_word(#[trigger] ws[k]),
    ensures
        squashed_all(ws.map_values(|w: Seq<char>| capitalized(w))) == squashed_all(ws),
    decreases ws.len(),
{
    if ws.len() > 0 {
        let init = ws.drop_last();
        assert forall|k: int| 0 <= k < init.len() implies plain_ascii_word(#[trigger] init[k]) by {
            assert(init[k] == ws[k]);
        }
        lemma_squashed_all_map(init);
        let caps = ws.map_values(|w: Seq<char>| capitalized(w));
        assert(caps.drop_last() =~= init.map_values(|w: Seq<char>| capitalized(w)));
        lemma_squashed_capitalized(ws[ws.len() - 1]);
    }
}

/// Whether `w` is a non-empty word without spaces that does not start with
/// `a`..`z`.
spec fn cap_word(w: Seq<char>) -> bool {
    &&& w.len() > 0
    &&& forall|j: int| 0 <= j < w.len() ==> #[trigger] w[j] != ' '
    &&& !('a' <= w[0] && w[0] <= 'z')
}

proof fn lemma_cap_word_alone(w: Seq<char>)
    requires
        cap_word(w),
    ensures
        capitalized_words(w),
{
    assert forall|i: int| 0 <= i < w.len() && (i == 0 || w[i - 1] == ' ') implies #[trigger] w[i] != ' ' && !('a'
        <= w[i] && w[i] <= 'z') by {
        if i > 0 {
            assert(w[i - 1] != ' ');
        }
    }
}

proof fn lemma_cap_word_append(a: Seq<char>, w: Seq<char>)
    requires
        a.len() > 0,
        capitalized_words(a),
        cap_word(w),
    ensures
        capitalized_words(a + seq![' '] + w),
{
    let r = a + seq![' '] + w;
    assert forall|i: int| 0 <= i < r.len() && (i == 0 || r[i - 1] == ' ') implies #[trigger] r[i] != ' ' && !('a'
        <= r[i] && r[i] <= 'z') by {
        if i < a.len() {
            assert(r[i] == a[i]);
            if i > 0 {
                assert(r[i - 1] == a[i - 1]);
            }
        } else if i == a.len() {
            assert(r[i - 1] == a[a.len() - 1]);
        } else if i == a.len() + 1 {
            assert(r[i] == w[0]);
        } else {
            assert(r[i - 1] == w[i - a.len() - 2]);
        }
    }
    assert(r.last() == w[w.len() - 1]);
}

proof fn lemma_join_capitalized_words(ws: Seq<Seq<char>>)
    requires
        forall|k: int| 0 <= k < ws.len() ==> cap_word(#[trigger] ws[k]),
    ensures
        capitalized_words(join_with(ws, " "@)),
        ws.len() > 0 ==> join_with(ws, " "@).len() > 0,
    decreases ws.len(),
{
    reveal_strlit(" ");
    if ws.len() == 1 {
        lemma_cap_word_alone(ws[0]);
    } else if ws.len() > 1 {
        let init = ws.drop_last();
        assert forall|k: int| 0 <= k < init.len() implies cap_word(#[trigger] init[k]) by {
            assert(init[k] == ws[k]);
        }
        lemma_join_capitalized_words(init);
        let a = join_with(init, " "@);
        assert(cap_word(ws[ws.len() - 1]));
        assert(" "@ =~= seq![' ']);
        lemma_cap_word_append(a, ws.last());
    }
}

/// The pseudo-apps keep their own names: an exe name that is `unknown` or
/// `idle` once trimmed and lowercased gives `Unknown` or `Idle`.
pub proof fn lemma_prettified_pseudo_apps(exe_name: Seq<char>)
    ensures
        lowercase(trimmed(exe_name)) == "unknown"@ ==> prettified(exe_name) == "Unknown"@,
        lowercase(trimmed(exe_name)) == "idle"@ ==> prettified(exe_name) == "Idle"@,
{
    reveal_strlit("unknown");
    reveal_strlit("idle");
    assert("idle"@.len() != "unknown"@.len());
}

/// The fallback name of an ASCII exe name (other than `unknown` and `idle`)
/// keeps every letter and digit of the exe name without its `.exe`
/// suffixes, in order and up to case, drops only the word breaks, and lays
/// the words out one space apart, each starting with a capital: so
/// `my_cool-app.exe` gives `My Cool App`.
pub proof fn lemma_prettified_keeps_words(exe_name: Seq<char>)
    requires
        is_ascii_text(exe_name),
        lowercase(trimmed(exe_name)) != "unknown"@,
        lowercase(trimmed(exe_name)) != "idle"@,
    ensures
        squashed(prettified(exe_name)) == squashed(strip_suffixes(exe_name, ".exe"@)),
        capitalized_words(prettified(exe_name)),
{
    let stem = strip_suffixes(exe_name, ".exe"@);
    lemma_strip_suffixes_prefix(exe_name, ".exe"@);
    assert forall|i: int| 0 <= i < stem.len() implies (stem[i] as u32) < 128 by {
        assert(stem[i] == exe_name[i]);
    }
    lemma_scan_words_plain(stem);
    lemma_scan_squashed(stem);
    let (done, cur) = segment_scan(stem, false);
    let ws = segments(stem, false);
    assert forall|k: int| 0 <= k < ws.len() implies plain_ascii_word(#[trigger] ws[k]) && ws[k].len() > 0 by {
        if k < done.len() {
            assert(ws[k] == done[k]);
        }
    }
    assert(squashed_all(ws) == squashed(stem)) by {
        if cur.len() > 0 {
            assert(ws.drop_last() =~= done);
        } else {
            assert(squashed(cur) =~= Seq::<char>::empty());
            assert(squashed_all(done) + squashed(cur) =~= squashed_all(done));
        }
    }
    let caps = ws.map_values(|w: Seq<char>| capitalized(w));
    lemma_squashed_all_map(ws);
    lemma_squashed_join(caps);
    assert forall|k: int| 0 <= k < caps.len() implies cap_word(#[trigger] caps[k]) by {
        let w = ws[k];
        assert(plain_ascii_word(w));
        let c = w[0];
        assert((c as u32) < 128);
        assert forall|j: int| 0 <= j < caps[k].len() implies caps[k][j] != ' ' by {
            if j > 0 {
                assert(caps[k][j] == w[j]);
            }
        }
    }
    lemma_join_capitalized_words(caps);
}

// ---------------------------------------------------------------------------
// Executable rules
// ---------------------------------------------------------------------------

/// The non-empty segments of `v` between delimiters.
pub fn split_segments(v: &Vec<char>, path_mode: bool) -> (r: Vec<Vec<char>>)
    ensures
        r@.map_values(|w: Vec<char>| w@) == segments(v@, path_mode),
{
    let mut done: Vec<Vec<char>> = Vec::new();
    let mut cur: Vec<char> = Vec::new();
    let mut i: usize = 0;
    assert(v@.take(0) =~= Seq::<char>::empty());
    while i < v.len()
        invariant
            i <= v@.len(),
            segment_scan(v@.take(i as int), path_mode) == (
                done@.map_values(|w: Vec<char>| w@),
                cur@,
            ),
        decreases v@.len() - i,
    {
        let c = v[i];
        let ghost prev = v@.take(i as int);
        assert(v@.take(i + 1).drop_last() =~= prev);
        assert(v@.take(i + 1).last() == c);
        let delim = if path_mode {
            c == '\\' || c == '/'
        } else {
            c == '-' || c == '_' || c == '.' || c == ' '
        };
        if delim {
            if cur.len() > 0 {
                proof {
                    lemma_map_push(done@, cur, |w: Vec<char>| w@);
                }
                done.push(cur);
                cur = Vec::new();
            }
        } else {
            cur.push(c);
        }
        i += 1;
    }
    assert(v@.take(v@.len() as int) =~= v@);
    if cur.len() > 0 {
        proof {
            lemma_map_push(done@, cur, |w: Vec<char>| w@);
        }
        done.push(cur);
    }
    done
}

/// The word with its first character uppercased.
pub fn capitalize_chars(w: &Vec<char>) -> (r: Vec<char>)
    ensures
        r@ == capitalized(w@),
{
    if w.len() == 0 {
        return Vec::new();
    }
    let upper = char_to_uppercase(w[0]);
    let head = chars_of(upper.as_str());
    let mut rest: Vec<char> = Vec::new();
    let mut k: usize = 1;
    while k < w.len()
        invariant
            1 <= k <= w@.len(),
            rest@ == w@.subrange(1, k as int),
        decreases w@.len() - k,
    {
        rest.push(w[k]);
        assert(w@.subrange(1, k + 1) =~= w@.subrange(1, k as int).push(w@[k as int]));
        k += 1;
    }
    assert(w@.drop_first() =~= w@.subrange(1, w@.len() as int));
    concat_chars(&head, &rest)
}

/// The value with its first character uppercased (`capitalize`).
pub fn capitalize(value: &str) -> (r: String)
    ensures
        r@ == capitalized(value@),
{
    let v = chars_of(value);
    let c = capitalize_chars(&v);
    string_of(&c)
}

/// Normalises an executable path into the identity under which its usage is
/// tracked: trimmed, `/` turned into `\`, lowercased.
pub fn normalize_exe_path(value: &str) -> (r: String)
    ensures
        r@ == normalized_exe_path(value@),
{
    let v = chars_of(value);
    let t = trim_chars(&v);
    let s = replace_char(&t, '/', '\\');
    let l = lowercase_chars(&s);
    string_of(&l)
}

/// Whether a stored value names an executable by path.
pub fn looks_like_exe_path(value: &str) -> (r: bool)
    ensures
        r == looks_like_exe_path_spec(value@),
{
    let v = chars_of(value);
    let t = trim_chars(&v);
    let s = replace_char(&t, '/', '\\');
    let n = lowercase_chars(&s);
    let ext = chars_of(".exe");
    contains_char(&n, '\\') && ends_with_chars(&n, &ext)
}

/// The fallback display name of an exe name: `unknown` and `idle` are
/// capitalised as such; otherwise `.exe` suffixes are dropped and the words
/// between `-`, `_`, `.` and spaces are capitalised and joined with spaces.
pub fn prettify_exe_name(exe_name: &str) -> (r: String)
    ensures
        r@ == prettified(exe_name@),
{
    let v = chars_of(exe_name);
    let t = trim_chars(&v);
    let key = lowercase_chars(&t);
    if same_chars(&key, &chars_of("unknown")) {
        return String::from_str("Unknown");
    }
    if same_chars(&key, &chars_of("idle")) {
        return String::from_str("Idle");
    }
    let ext = chars_of(".exe");
    proof {
        reveal_strlit(".exe");
    }
    let stem = strip_suffixes_chars(&v, &ext);
    let words = split_segments(&stem, false);
    let ghost wv = words@.map_values(|w: Vec<char>| w@);
    let sep = chars_of(" ");
    let mut out: Vec<char> = Vec::new();
    let mut k: usize = 0;
    assert(wv.take(0).map_values(|w: Seq<char>| capitalized(w)) =~= Seq::<Seq<char>>::empty());
    while k < words.len()
        invariant
            k <= words@.len(),
            wv == words@.map_values(|w: Vec<char>| w@),
            sep@ == " "@,
            out@ == join_with(wv.take(k as int).map_values(|w: Seq<char>| capitalized(w)), " "@),
        decreases words@.len() - k,
    {
        let cap = capitalize_chars(&words[k]);
        proof {
            assert(wv.take(k + 1) =~= wv.take(k as int).push(wv[k as int]));
            lemma_map_push(wv.take(k as int), wv[k as int], |w: Seq<char>| capitalized(w));
            lemma_join_push(
                wv.take(k as int).map_values(|w: Seq<char>| capitalized(w)),
                capitalized(wv[k as int]),
                " "@,
            );
        }
        if k == 0 {
            out = cap;
        } else {
            let joined = concat_chars(&out, &sep);
            out = concat_chars(&joined, &cap);
        }
        k += 1;
    }
    assert(wv.take(words@.len() as int) =~= wv);
    string_of(&out)
}

/// The lowercased file name of a Windows path, if it has one.
pub fn exe_name_from_path(path: &str) -> (r: Option<String>)
    ensures
        r matches Some(n) ==> exe_name_of(path@) == Some(n@),
        r is None ==> exe_name_of(path@) is None,
{
    let v = chars_of(path);
    let body = if v.len() >= 2 && v[1] == ':' && (('a' <= v[0] && v[0] <= 'z') || ('A' <= v[0]
        && v[0] <= 'Z')) {
        let b = crate::text::sub_chars(&v, 2, v.len());
        assert(b@ =~= v@.skip(2));
        b
    } else {
        v.clone()
    };
    assert(body@ == path_body(path@));
    let comps = split_segments(&body, true);
    let ghost cv = comps@.map_values(|w: Vec<char>| w@);
    let dot = chars_of(".");
    let mut j = comps.len();
    assert(cv.take(j as int) =~= cv);
    while j > 0 && same_chars(&comps[j - 1], &dot)
        invariant
            j <= comps@.len(),
            cv == comps@.map_values(|w: Vec<char>| w@),
            dot@ == "."@,
            last_component(cv) == last_component(cv.take(j as int)),
        decreases j,
    {
        assert(cv.take(j as int).drop_last() =~= cv.take(j - 1));
        j -= 1;
    }
    if j == 0 {
        return None;
    }
    assert(cv.take(j as int).last() == comps@[j - 1]@);
    let name = &comps[j - 1];
    if same_chars(name, &chars_of("..")) {
        return None;
    }
    let lower = lowercase_chars(name);
    Some(string_of(&lower))
}

/// Whether `n` is one of the generic names that metadata may carry.
fn is_generic_name_exec(n: &Vec<char>) -> (r: bool)
    ensures
        r == is_generic_name(n@),
{
    same_chars(n, &chars_of("application")) || same_chars(n, &chars_of("electron"))
        || same_chars(n, &chars_of("updater")) || same_chars(n, &chars_of("setup"))
        || same_chars(n, &chars_of("launcher"))
}

/// Whether a version-info product name may stand as the app's name: not
/// blank, not a generic word, not the exe name itself (with or without
/// `.exe`), not a path or file name, and holding a letter or digit.
pub fn is_valid_product_name(value: &str, exe_name: &str) -> (r: bool)
    ensures
        r == valid_product_name(value@, exe_name@),
{
    let v = chars_of(value);
    let t = trim_chars(&v);
    if t.len() == 0 {
        return false;
    }
    let n = lowercase_chars(&t);
    let e = chars_of(exe_name);
    let ext = chars_of(".exe");
    proof {
        reveal_strlit(".exe");
    }
    let stem = strip_suffixes_chars(&e, &ext);
    let stem_lower = lowercase_chars(&stem);
    if is_generic_name_exec(&n) {
        return false;
    }
    let e_lower = lowercase_chars(&e);
    if same_chars(&n, &e_lower) || same_chars(&n, &stem_lower) {
        return false;
    }
    if contains_char(&t, '\\') || contains_char(&t, '/') || ends_with_chars(&n, &ext) {
        return false;
    }
    any_alphanumeric(&t)
}

/// Whether a package manifest display name may stand as the app's name:
/// like a product name, except that an unresolved `ms-resource:` reference is
/// refused and a name equal to the exe stem up to case is accepted when its
/// spelling differs from the stem.
pub fn is_valid_appx_display_name(value: &str, exe_name: &str) -> (r: bool)
    ensures
        r == valid_appx_display_name(value@, exe_name@),
{
    let v = chars_of(value);
    let t = trim_chars(&v);
    if t.len() == 0 {
        return false;
    }
    let n = lowercase_chars(&t);
    if starts_with_chars(&n, &chars_of("ms-resource:")) {
        return false;
    }
    let e = chars_of(exe_name);
    let ext = chars_of(".exe");
    proof {
        reveal_strlit(".exe");
    }
    let stem = strip_suffixes_chars(&e, &ext);
    let stem_lower = lowercase_chars(&stem);
    if is_generic_name_exec(&n) {
        return false;
    }
    if contains_char(&t, '\\') || contains_char(&t, '/') || ends_with_chars(&n, &ext) {
        return false;
    }
    if same_chars(&n, &stem_lower) {
        return !same_chars(&t, &stem);
    }
    any_alphanumeric(&t)
}

/// Normalising an ASCII path twice is normalising it once: the identity of an
/// executable is its own identity.
pub proof fn lemma_normalize_ascii_path_idempotent(v: Seq<char>)
    requires
        is_ascii_text(v),
    ensures
        normalized_exe_path(normalized_exe_path(v)) == normalized_exe_path(v),
        is_ascii_text(normalized_exe_path(v)),
{
    let t = trimmed(v);
    lemma_trimmed_ascii(v);
    lemma_trimmed_edges(v);
    let r = replace_char_spec(t, '/', '\\');
    assert(is_ascii_text(r));
    let n = normalized_exe_path(v);
    assert(n == ascii_lowercase(r));
    assert(is_ascii_text(n));
    assert(forall|i: int| 0 <= i < n.len() ==> n[i] != '/' && !('A' <= n[i] && n[i] <= 'Z'));
    if n.len() > 0 {
        assert(!is_white_space(n[0]));
        assert(!is_white_space(n.last()));
    }
    assert(trim_start_spec(n) == n);
    assert(trim_end_spec(n) == n);
    assert(replace_char_spec(n, '/', '\\') =~= n);
    assert(ascii_lowercase(n) =~= n);
}

} // verus!
