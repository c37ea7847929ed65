//! Usage totals per app: the stored sessions grouped by the identity they
//! count under, idle and unknown time left out, largest total first.
//!
//! A session counts under its app identity when that holds anything but
//! spaces, and otherwise under its app name in ASCII lowercase (sessions
//! stored before identities existed). Each app shows the smallest of its
//! sessions' names, comparing characters by code point. These are the rules
//! of SQLite's `TRIM`, `LOWER` and `MIN` with its default collation.
use vstd::prelude::*;

use crate::models::{AppTotal, AppTotalView};
use crate::week::app_views;
use crate::text::{chars_of, same_chars, string_of};
use crate::unicode::{ascii_lower_char, ascii_lowercase};

verus! {

// ---------------------------------------------------------------------------
// The order of texts
// ---------------------------------------------------------------------------

/// Whether `a` comes before `b` when both are compared from position `i` on,
/// character by character by code point, a text coming before its longer
/// continuations.
pub open spec fn text_lt_from(a: Seq<char>, b: Seq<char>, i: int) -> bool
    decreases a.len() - i,
{
    if i >= a.len() {
        i < b.len()
    } else if i >= b.len() {
        false
    } else if a[i] != b[i] {
        a[i] < b[i]
    } else {
        text_lt_from(a, b, i + 1)
    }
}

/// Whether `a` comes before `b` in code-point order.
pub open spec fn text_lt(a: Seq<char>, b: Seq<char>) -> bool {
    text_lt_from(a, b, 0)
}

proof fn lemma_text_lt_from_irreflexive(a: Seq<char>, i: int)
    requires
        0 <= i,
    ensures
        !text_lt_from(a, a, i),
    decreases a.len() - i,
{
    if i < a.len() {
        lemma_text_lt_from_irreflexive(a, i + 1);
    }
}

proof fn lemma_text_lt_from_trans(a: Seq<char>, b: Seq<char>, c: Seq<char>, i: int)
    requires
        0 <= i,
        text_lt_from(a, b, i),
        text_lt_from(b, c, i),
    ensures
        text_lt_from(a, c, i),
    decreases a.len() - i,
{
    if i < a.len() && i < b.len() && i < c.len() && a[i] == b[i] && b[i] == c[i] {
        lemma_text_lt_from_trans(a, b, c, i + 1);
    }
}

proof fn lemma_text_lt_from_total(a: Seq<char>, b: Seq<char>, i: int)
    requires
        0 <= i <= a.len(),
        i <= b.len(),
        a.subrange(0, i) == b.subrange(0, i),
        a != b,
    ensures
        text_lt_from(a, b, i) || text_lt_from(b, a, i),
    decreases a.len() - i,
{
    if i < a.len() && i < b.len() && a[i] == b[i] {
        assert(a.subrange(0, i + 1) =~= a.subrange(0, i).push(a[i]));
        assert(b.subrange(0, i + 1) =~= b.subrange(0, i).push(b[i]));
        lemma_text_lt_from_total(a, b, i + 1);
    } else if i >= a.len() && i >= b.len() {
        assert(a =~= a.subrange(0, i));
        assert(b =~= b.subrange(0, i));
    }
}

/// No text comes before itself.
pub proof fn lemma_text_lt_irreflexive(a: Seq<char>)
    ensures
        !text_lt(a, a),
{
    lemma_text_lt_from_irreflexive(a, 0);
}

/// The order of texts is transitive.
pub proof fn lemma_text_lt_trans(a: Seq<char>, b: Seq<char>, c: Seq<char>)
    requires
        text_lt(a, b),
        text_lt(b, c),
    ensures
        text_lt(a, c),
{
    lemma_text_lt_from_trans(a, b, c, 0);
}

/// Of two different texts, one comes before the other.
pub proof fn lemma_text_lt_total(a: Seq<char>, b: Seq<char>)
    requires
        a != b,
    ensures
        text_lt(a, b) || text_lt(b, a),
{
    assert(a.subrange(0, 0) =~= b.subrange(0, 0));
    lemma_text_lt_from_total(a, b, 0);
}

/// Whether `a` comes before `b` in code-point order.
pub fn text_less(a: &Vec<char>, b: &Vec<char>) -> (r: bool)
    ensures
        r == text_lt(a@, b@),
{
    let mut i: usize = 0;
    while i < a.len() && i < b.len() && a[i] == b[i]
        invariant
            i <= a@.len(),
            i <= b@.len(),
            text_lt(a@, b@) == text_lt_from(a@, b@, i as int),
        decreases a@.len() - i,
    {
        i += 1;
    }
    if i >= a.len() {
        i < b.len()
    } else if i >= b.len() {
        false
    } else {
        a[i] < b[i]
    }
}

// ---------------------------------------------------------------------------
// Sessions and the identity they count under
// ---------------------------------------------------------------------------

/// A stored session: its app identity (absent for old sessions), app name,
/// and start and end in seconds.
pub struct SessionRow {
    pub app_identity: Option<String>,
    pub app_name: String,
    pub start: i64,
    pub end: i64,
}

/// The content of a `SessionRow`.
pub struct SessionRowView {
    pub app_identity: Option<Seq<char>>,
    pub app_name: Seq<char>,
    pub start: i64,
    pub end: i64,
}

impl View for SessionRow {
    type V = SessionRowView;

    open spec fn view(&self) -> SessionRowView {
        SessionRowView {
            app_identity: match self.app_identity {
                Some(id) => Some(id@),
                None => None,
            },
            app_name: self.app_name@,
            start: self.start,
            end: self.end,
        }
    }
}

/// The contents of a list of sessions.
pub open spec fn row_views(rows: Seq<SessionRow>) -> Seq<SessionRowView> {
    rows.map_values(|r: SessionRow| r@)
}

/// Whether `s` holds anything but spaces.
pub open spec fn has_non_space(s: Seq<char>) -> bool {
    exists|i: int| 0 <= i < s.len() && s[i] != ' '
}

/// The identity a session counts under.
pub open spec fn row_key(r: SessionRowView) -> Seq<char> {
    match r.app_identity {
        Some(id) => if has_non_space(id) {
            id
        } else {
            ascii_lowercase(r.app_name)
        },
        None => ascii_lowercase(r.app_name),
    }
}

/// Whether time under identity `k` is shown: idle and unknown time is not.
pub open spec fn counted_key(k: Seq<char>) -> bool {
    k != "idle"@ && k != "unknown"@
}

/// The seconds of the sessions counting under `k`.
pub open spec fn key_total(rows: Seq<SessionRowView>, k: Seq<char>) -> int
    decreases rows.len(),
{
    if rows.len() == 0 {
        0
    } else {
        key_total(rows.drop_last(), k) + if row_key(rows.last()) == k {
            rows.last().end - rows.last().start
        } else {
            0
        }
    }
}

/// The smallest name of the sessions counting under `k`.
pub open spec fn key_min_name(rows: Seq<SessionRowView>, k: Seq<char>) -> Option<Seq<char>>
    decreases rows.len(),
{
    if rows.len() == 0 {
        None
    } else {
        let prev = key_min_name(rows.drop_last(), k);
        if row_key(rows.last()) == k {
            match prev {
                Some(p) => if text_lt(rows.last().app_name, p) {
                    Some(rows.last().app_name)
                } else {
                    Some(p)
                },
                None => Some(rows.last().app_name),
            }
        } else {
            prev
        }
    }
}

/// Whether some session counts under `k` and `k` is shown.
pub open spec fn has_row_key(rows: Seq<SessionRowView>, k: Seq<char>) -> bool {
    counted_key(k) && exists|i: int| 0 <= i < rows.len() && row_key(#[trigger] rows[i]) == k
}

/// Whether `a` ranks before `b`: a larger total, or an equal total and an
/// identity earlier in code-point order.
pub open spec fn ranks_before(a: AppTotalView, b: AppTotalView) -> bool {
    a.total > b.total || (a.total == b.total && text_lt(a.app_identity, b.app_identity))
}

/// Whether `t` is the total of identity `t.app_identity` over `rows`.
pub open spec fn is_group_of(rows: Seq<SessionRowView>, t: AppTotalView) -> bool {
    &&& has_row_key(rows, t.app_identity)
    &&& t.total == key_total(rows, t.app_identity)
    &&& key_min_name(rows, t.app_identity) == Some(t.app_name)
}

/// Whether `v` lists the usage totals of `rows`: each entry is the total of
/// its identity, every shown identity has an entry, and the entries are in
/// rank order (so each identity has one).
pub open spec fn are_app_totals(rows: Seq<SessionRowView>, v: Seq<AppTotalView>) -> bool {
    &&& forall|i: int| 0 <= i < v.len() ==> is_group_of(rows, #[trigger] v[i])
    &&& forall|k: Seq<char>| has_row_key(rows, k) ==> exists|i: int| 0 <= i < v.len() && (#[trigger] v[i]).app_identity == k
    &&& forall|i: int, j: int| 0 <= i < j < v.len() ==> ranks_before(#[trigger] v[i], #[trigger] v[j])
}

/// Whether every shown identity of `rows` has a total fitting in 64 bits.
pub open spec fn totals_fit(rows: Seq<SessionRowView>) -> bool {
    forall|k: Seq<char>|
        has_row_key(rows, k) ==> i64::MIN <= #[trigger] key_total(rows, k) <= i64::MAX
}

fn has_non_space_exec(s: &Vec<char>) -> (r: bool)
    ensures
        r == has_non_space(s@),
{
    let mut i: usize = 0;
    while i < s.len()
        invariant
            i <= s@.len(),
            forall|j: int| 0 <= j < i ==> s@[j] == ' ',
        decreases s@.len() - i,
    {
        if s[i] != ' ' {
            return true;
        }
        i += 1;
    }
    false
}

fn ascii_lower_exec(s: &Vec<char>) -> (r: Vec<char>)
    ensures
        r@ == ascii_lowercase(s@),
{
    let mut out: Vec<char> = Vec::new();
    let mut i: usize = 0;
    while i < s.len()
        invariant
            i <= s@.len(),
            out@.len() == i,
            forall|j: int| 0 <= j < i ==> out@[j] == ascii_lower_char(s@[j]),
        decreases s@.len() - i,
    {
        let c = s[i];
        let l = if 'A' <= c && c <= 'Z' {
            let code: u8 = (c as u8) + 32;
            code as char
        } else {
            c
        };
        out.push(l);
        i += 1;
    }
    assert(out@ =~= ascii_lowercase(s@));
    out
}

fn key_of(row: &SessionRow) -> (r: Vec<char>)
    ensures
        r@ == row_key(row@),
{
    match &row.app_identity {
        Some(id) => {
            let v = chars_of(id.as_str());
            if has_non_space_exec(&v) {
                v
            } else {
                ascii_lower_exec(&chars_of(row.app_name.as_str()))
            }
        },
        None => ascii_lower_exec(&chars_of(row.app_name.as_str())),
    }
}

fn is_counted(k: &Vec<char>) -> (r: bool)
    ensures
        r == counted_key(k@),
{
    !same_chars(k, &chars_of("idle")) && !same_chars(k, &chars_of("unknown"))
}

fn find_group(keys: &Vec<Vec<char>>, key: &Vec<char>) -> (r: Option<usize>)
    ensures
        r matches Some(g) ==> g < keys@.len() && keys@[g as int]@ == key@,
        r is None ==> forall|g: int| 0 <= g < keys@.len() ==> (#[trigger] keys@[g])@ != key@,
{
    let mut g: usize = 0;
    while g < keys.len()
        invariant
            g <= keys@.len(),
            forall|h: int| 0 <= h < g ==> (#[trigger] keys@[h])@ != key@,
        decreases keys@.len() - g,
    {
        if same_chars(&keys[g], key) {
            return Some(g);
        }
        g += 1;
    }
    None
}

/// The groups of `rows`: the shown identities, each once, with their totals
/// and smallest names.
fn collect_groups(rows: &Vec<SessionRow>) -> (r: (Vec<Vec<char>>, Vec<String>, Vec<i128>))
    requires
        forall|i: int| 0 <= i < rows@.len() ==> i64::MIN <= (#[trigger] rows@[i]).end - rows@[i].start <= i64::MAX,
    ensures
        r.0@.len() == r.1@.len(),
        r.0@.len() == r.2@.len(),
        forall|g: int|
            0 <= g < r.0@.len() ==> {
                &&& has_row_key(row_views(rows@), (#[trigger] r.0@[g])@)
                &&& r.2@[g] == key_total(row_views(rows@), r.0@[g]@)
                &&& key_min_name(row_views(rows@), r.0@[g]@) == Some(r.1@[g]@)
            },
        forall|g: int, h: int| 0 <= g < h < r.0@.len() ==> (#[trigger] r.0@[g])@ != (#[trigger] r.0@[h])@,
        forall|k: Seq<char>|
            has_row_key(row_views(rows@), k) ==> exists|g: int| 0 <= g < r.0@.len() && (#[trigger] r.0@[g])@ == k,
{
    let ghost rv = row_views(rows@);
    let mut keys: Vec<Vec<char>> = Vec::new();
    let mut names: Vec<String> = Vec::new();
    let mut totals: Vec<i128> = Vec::new();
    let mut k: usize = 0;
    while k < rows.len()
        invariant
            k <= rows@.len(),
            rv == row_views(rows@),
            rv.len() == rows@.len(),
            forall|i: int| 0 <= i < rows@.len() ==> i64::MIN <= (#[trigger] rows@[i]).end - rows@[i].start <= i64::MAX,
            keys@.len() == names@.len(),
            keys@.len() == totals@.len(),
            forall|g: int|
                0 <= g < keys@.len() ==> {
                    &&& has_row_key(rv.take(k as int), (#[trigger] keys@[g])@)
                    &&& totals@[g] == key_total(rv.take(k as int), keys@[g]@)
                    &&& key_min_name(rv.take(k as int), keys@[g]@) == Some(names@[g]@)
                    &&& -(k * 0x8000_0000_0000_0000) <= totals@[g] <= k * 0x8000_0000_0000_0000
                },
            forall|g: int, h: int| 0 <= g < h < keys@.len() ==> (#[trigger] keys@[g])@ != (#[trigger] keys@[h])@,
            forall|kk: Seq<char>|
                has_row_key(rv.take(k as int), kk) ==> exists|g: int| 0 <= g < keys@.len() && (#[trigger] keys@[g])@ == kk,
        decreases rows@.len() - k,
    {
        let row = &rows[k];
        let key = key_of(row);
        let ghost prev = rv.take(k as int);
        let ghost next = rv.take(k + 1);
        proof {
            assert(next.drop_last() =~= prev);
            assert(next.last() == rv[k as int]);
            assert(rv[k as int] == rows@[k as int]@);
            assert forall|kk: Seq<char>| has_row_key(next, kk) <==> (has_row_key(prev, kk) || (kk == key@ && counted_key(kk))) by {
                if has_row_key(next, kk) {
                    let i = choose|i: int| 0 <= i < next.len() && row_key(#[trigger] next[i]) == kk;
                    if i < k {
                        assert(prev[i] == next[i]);
                    }
                }
                if has_row_key(prev, kk) {
                    let i = choose|i: int| 0 <= i < prev.len() && row_key(#[trigger] prev[i]) == kk;
                    assert(prev[i] == next[i]);
                }
                if kk == key@ && counted_key(kk) {
                    assert(row_key(next[k as int]) == kk);
                }
            }
        }
        let duration: i128 = (row.end as i128) - (row.start as i128);
        let ghost old_keys = keys@;
        if is_counted(&key) {
            match find_group(&keys, &key) {
                Some(g) => {
                    let t = totals[g] + duration;
                    totals.set(g, t);
                    let new_name = chars_of(row.app_name.as_str());
                    let old_name = chars_of(names[g].as_str());
                    if text_less(&new_name, &old_name) {
                        names.set(g, row.app_name.clone());
                    }
                },
                None => {
                    proof {
                        if has_row_key(prev, key@) {
                            let g = choose|g: int| 0 <= g < keys@.len() && (#[trigger] keys@[g])@ == key@;
                            assert(keys@[g]@ == key@);
                        }
                        assert forall|i: int| 0 <= i < prev.len() implies row_key(#[trigger] prev[i]) != key@ by {
                            if row_key(prev[i]) == key@ {
                                assert(has_row_key(prev, key@));
                            }
                        }
                        lemma_absent_key(prev, key@);
                    }
                    keys.push(key);
                    names.push(row.app_name.clone());
                    totals.push(duration);
                },
            }
        }
        proof {
            assert forall|kk: Seq<char>| has_row_key(next, kk) implies exists|g: int|
                0 <= g < keys@.len() && (#[trigger] keys@[g])@ == kk by {
                if has_row_key(prev, kk) {
                    let g = choose|g: int| 0 <= g < old_keys.len() && (#[trigger] old_keys[g])@ == kk;
                    assert(keys@[g] == old_keys[g]);
                    assert(keys@[g]@ == kk);
                } else {
                    assert(keys@[keys@.len() - 1]@ == kk);
                }
            }
        }
        k += 1;
    }
    assert(rv.take(rows@.len() as int) =~= rv);
    (keys, names, totals)
}

/// An identity no session counts under has no total and no name.
proof fn lemma_absent_key(rows: Seq<SessionRowView>, k: Seq<char>)
    requires
        forall|i: int| 0 <= i < rows.len() ==> row_key(#[trigger] rows[i]) != k,
    ensures
        key_total(rows, k) == 0,
        key_min_name(rows, k) is None,
    decreases rows.len(),
{
    if rows.len() > 0 {
        let init = rows.drop_last();
        assert forall|i: int| 0 <= i < init.len() implies row_key(#[trigger] init[i]) != k by {
            assert(init[i] == rows[i]);
        }
        lemma_absent_key(init, k);
        assert(row_key(rows[rows.len() - 1]) != k);
    }
}

proof fn lemma_ranks_trans(a: AppTotalView, b: AppTotalView, c: AppTotalView)
    requires
        ranks_before(a, b),
        ranks_before(b, c),
    ensures
        ranks_before(a, c),
{
    if a.total == b.total && b.total == c.total {
        lemma_text_lt_trans(a.app_identity, b.app_identity, c.app_identity);
    }
}

proof fn lemma_ranks_total(a: AppTotalView, b: AppTotalView)
    requires
        a.app_identity != b.app_identity,
    ensures
        ranks_before(a, b) || ranks_before(b, a),
{
    lemma_text_lt_total(a.app_identity, b.app_identity);
}

fn insert_ranked(out: &mut Vec<AppTotal>, x: AppTotal) -> (p: usize)
    requires
        forall|i: int, j: int| 0 <= i < j < old(out)@.len() ==> ranks_before((#[trigger] old(out)@[i])@, (#[trigger] old(out)@[j])@),
        forall|i: int| 0 <= i < old(out)@.len() ==> (#[trigger] old(out)@[i])@.app_identity != x@.app_identity,
    ensures
        p <= old(out)@.len(),
        final(out)@ == old(out)@.insert(p as int, x),
        forall|i: int, j: int| 0 <= i < j < final(out)@.len() ==> ranks_before((#[trigger] final(out)@[i])@, (#[trigger] final(out)@[j])@),
{
    let mut p: usize = 0;
    while p < out.len() && !ranks_before_exec(&x, &out[p])
        invariant
            p <= out@.len(),
            forall|i: int| 0 <= i < p ==> !ranks_before(x@, (#[trigger] out@[i])@),
        decreases out@.len() - p,
    {
        p += 1;
    }
    let ghost old_out = out@;
    proof {
        assert forall|i: int| 0 <= i < p implies ranks_before((#[trigger] old_out[i])@, x@) by {
            lemma_ranks_total(old_out[i]@, x@);
        }
        if p < old_out.len() {
            assert(ranks_before(x@, old_out[p as int]@));
            assert forall|j: int| p <= j < old_out.len() implies ranks_before(x@, (#[trigger] old_out[j])@) by {
                if j > p {
                    lemma_ranks_trans(x@, old_out[p as int]@, old_out[j]@);
                }
            }
        }
    }
    out.insert(p, x);
    proof {
        assert forall|i: int, j: int| 0 <= i < j < out@.len() implies ranks_before((#[trigger] out@[i])@, (#[trigger] out@[j])@) by {
            if j < p {
                assert(out@[i] == old_out[i] && out@[j] == old_out[j]);
            } else if j == p {
                assert(out@[i] == old_out[i]);
            } else if i < p {
                assert(out@[i] == old_out[i] && out@[j] == old_out[j - 1]);
                lemma_ranks_trans(old_out[i]@, x@, old_out[j - 1]@);
            } else if i == p {
                assert(out@[j] == old_out[j - 1]);
            } else {
                assert(out@[i] == old_out[i - 1] && out@[j] == old_out[j - 1]);
            }
        }
    }
    p
}

fn ranks_before_exec(a: &AppTotal, b: &AppTotal) -> (r: bool)
    ensures
        r == ranks_before(a@, b@),
{
    if a.total != b.total {
        return a.total > b.total;
    }
    text_less(&chars_of(a.app_identity.as_str()), &chars_of(b.app_identity.as_str()))
}

/// The usage totals of the sessions `rows` per app: one entry for each
/// identity that sessions count under (idle and unknown left out), with the
/// seconds of its sessions and the smallest of their names, largest total
/// first and, among equal totals, identities in code-point order. `None`
/// when the total of some app does not fit in 64 bits.
pub fn group_totals(rows: &Vec<SessionRow>) -> (r: Option<Vec<AppTotal>>)
    requires
        forall|i: int| 0 <= i < rows@.len() ==> i64::MIN <= (#[trigger] rows@[i]).end - rows@[i].start <= i64::MAX,
    ensures
        r is None <==> !totals_fit(row_views(rows@)),
        r matches Some(v) ==> are_app_totals(row_views(rows@), app_views(v@)),
{
    let ghost rv = row_views(rows@);
    let (keys, names, totals) = collect_groups(rows);
    let n = keys.len();
    let mut g: usize = 0;
    while g < n
        invariant
            g <= n,
            rv == row_views(rows@),
            n == keys@.len(),
            keys@.len() == totals@.len(),
            forall|h: int| 0 <= h < g ==> i64::MIN <= #[trigger] totals@[h] <= i64::MAX,
            forall|h: int|
                0 <= h < keys@.len() ==> {
                    &&& has_row_key(rv, (#[trigger] keys@[h])@)
                    &&& totals@[h] == key_total(rv, keys@[h]@)
                },
        decreases n - g,
    {
        if totals[g] < i64::MIN as i128 || totals[g] > i64::MAX as i128 {
            proof {
                assert(has_row_key(rv, keys@[g as int]@));
                assert(key_total(rv, keys@[g as int]@) == totals@[g as int]);
            }
            return None;
        }
        g += 1;
    }
    proof {
        assert forall|k: Seq<char>| has_row_key(rv, k) implies i64::MIN <= #[trigger] key_total(rv, k) <= i64::MAX by {
            let h = choose|h: int| 0 <= h < keys@.len() && (#[trigger] keys@[h])@ == k;
            assert(totals@[h] == key_total(rv, keys@[h]@));
        }
    }
    let mut out: Vec<AppTotal> = Vec::new();
    let ghost mut origin: Seq<int> = Seq::empty();
    let ghost mut place: Seq<int> = Seq::empty();
    let mut g: usize = 0;
    while g < n
        invariant
            g <= n,
            rv == row_views(rows@),
            n == keys@.len(),
            keys@.len() == names@.len(),
            keys@.len() == totals@.len(),
            forall|h: int| 0 <= h < n ==> i64::MIN <= #[trigger] totals@[h] <= i64::MAX,
            forall|h: int|
                0 <= h < keys@.len() ==> {
                    &&& has_row_key(rv, (#[trigger] keys@[h])@)
                    &&& totals@[h] == key_total(rv, keys@[h]@)
                    &&& key_min_name(rv, keys@[h]@) == Some(names@[h]@)
                },
            forall|h1: int, h2: int| 0 <= h1 < h2 < keys@.len() ==> (#[trigger] keys@[h1])@ != (#[trigger] keys@[h2])@,
            out@.len() == g,
            origin.len() == g,
            place.len() == g,
            forall|i: int| 0 <= i < g ==> 0 <= #[trigger] origin[i] < g && out@[i]@.app_identity == keys@[origin[i]]@,
            forall|h: int| 0 <= h < g ==> 0 <= #[trigger] place[h] < g && out@[place[h]]@.app_identity == keys@[h]@,
            forall|i: int| 0 <= i < out@.len() ==> is_group_of(rv, (#[trigger] out@[i])@),
            forall|i: int, j: int| 0 <= i < j < out@.len() ==> ranks_before((#[trigger] out@[i])@, (#[trigger] out@[j])@),
        decreases n - g,
    {
        let x = AppTotal { app_identity: string_of(&keys[g]), app_name: names[g].clone(), total: totals[g] as i64 };
        proof {
            assert forall|i: int| 0 <= i < out@.len() implies (#[trigger] out@[i])@.app_identity != x@.app_identity by {
                assert(keys@[origin[i]]@ != keys@[g as int]@);
            }
        }
        let ghost old_out = out@;
        let p = insert_ranked(&mut out, x);
        proof {
            let old_origin = origin;
            let old_place = place;
            origin = old_origin.insert(p as int, g as int);
            place = Seq::new((g + 1) as nat, |h: int| if h == g {
                p as int
            } else if old_place[h] >= p {
                old_place[h] + 1
            } else {
                old_place[h]
            });
            assert forall|i: int| 0 <= i < g + 1 implies 0 <= #[trigger] origin[i] < g + 1 && out@[i]@.app_identity == keys@[origin[i]]@ by {
                if i < p {
                    assert(out@[i] == old_out[i] && origin[i] == old_origin[i]);
                } else if i > p {
                    assert(out@[i] == old_out[i - 1] && origin[i] == old_origin[i - 1]);
                }
            }
            assert forall|h: int| 0 <= h < g + 1 implies 0 <= #[trigger] place[h] < g + 1 && out@[place[h]]@.app_identity == keys@[h]@ by {
                if h < g {
                    if old_place[h] >= p {
                        assert(out@[old_place[h] + 1] == old_out[old_place[h]]);
                    } else {
                        assert(out@[old_place[h]] == old_out[old_place[h]]);
                    }
                }
            }
            assert forall|i: int| 0 <= i < out@.len() implies is_group_of(rv, (#[trigger] out@[i])@) by {
                if i < p {
                    assert(out@[i] == old_out[i]);
                } else if i > p {
                    assert(out@[i] == old_out[i - 1]);
                }
            }
        }
        g += 1;
    }
    proof {
        assert forall|k: Seq<char>| has_row_key(rv, k) implies exists|i: int| 0 <= i < out@.len() && (#[trigger] out@[i])@.app_identity == k by {
            let h = choose|h: int| 0 <= h < keys@.len() && (#[trigger] keys@[h])@ == k;
            assert(out@[place[h]]@.app_identity == k);
        }
        let av = app_views(out@);
        assert forall|k: Seq<char>| has_row_key(rv, k) implies exists|i: int| 0 <= i < av.len() && (#[trigger] av[i]).app_identity == k by {
            let i = choose|i: int| 0 <= i < out@.len() && (#[trigger] out@[i])@.app_identity == k;
            assert(av[i] == out@[i]@);
        }
        assert(are_app_totals(rv, av));
    }
    Some(out)
}

/// Idle and unknown time is never shown: no listed total is for `idle` or
/// `unknown`.
pub proof fn lemma_idle_and_unknown_hidden(rows: Seq<SessionRowView>, v: Seq<AppTotalView>, i: int)
    requires
        are_app_totals(rows, v),
        0 <= i < v.len(),
    ensures
        v[i].app_identity != "idle"@,
        v[i].app_identity != "unknown"@,
{
    assert(is_group_of(rows, v[i]));
}

/// The sessions of `rows` recorded for day `day`, in order.
pub open spec fn rows_on(rows: Seq<(String, SessionRow)>, day: Seq<char>) -> Seq<SessionRowView>
    decreases rows.len(),
{
    if rows.len() == 0 {
        Seq::<SessionRowView>::empty()
    } else if rows.last().0@ == day {
        rows_on(rows.drop_last(), day).push(rows.last().1@)
    } else {
        rows_on(rows.drop_last(), day)
    }
}

impl SessionRow {
    /// A copy of the session.
    pub fn duplicate(&self) -> (r: SessionRow)
        ensures
            r@ == self@,
    {
        SessionRow {
            app_identity: match &self.app_identity {
                Some(id) => Some(id.clone()),
                None => None,
            },
            app_name: self.app_name.clone(),
            start: self.start,
            end: self.end,
        }
    }
}

/// The sessions of `rows` (each with the day it was recorded on) recorded
/// for day `day`, in order.
pub fn sessions_on_day(rows: &Vec<(String, SessionRow)>, day: &str) -> (r: Vec<SessionRow>)
    ensures
        row_views(r@) == rows_on(rows@, day@),
{
    let mut out: Vec<SessionRow> = Vec::new();
    let mut k: usize = 0;
    while k < rows.len()
        invariant
            k <= rows@.len(),
            row_views(out@) == rows_on(rows@.take(k as int), day@),
        decreases rows@.len() - k,
    {
        assert(rows@.take(k + 1).drop_last() =~= rows@.take(k as int));
        if crate::text::same_text(rows[k].0.as_str(), day) {
            let ghost before = out@;
            out.push(rows[k].1.duplicate());
            assert(row_views(out@) =~= row_views(before).push(rows@[k as int].1@));
        }
        k += 1;
    }
    assert(rows@.take(rows@.len() as int) =~= rows@);
    out
}

/// The seconds of the shown sessions of `rows` (idle and unknown time left
/// out).
pub open spec fn shown_seconds(rows: Seq<SessionRowView>) -> int
    decreases rows.len(),
{
    if rows.len() == 0 {
        0
    } else {
        shown_seconds(rows.drop_last()) + if counted_key(row_key(rows.last())) {
            rows.last().end - rows.last().start
        } else {
            0
        }
    }
}

/// Whether `t` fits in 64 bits.
pub open spec fn fits_i64(t: int) -> bool {
    i64::MIN <= t <= i64::MAX
}

/// The seconds of the shown sessions of `rows`, in a wider type.
fn shown_sum(rows: &Vec<SessionRow>) -> (r: i128)
    requires
        forall|i: int| 0 <= i < rows@.len() ==> i64::MIN <= (#[trigger] rows@[i]).end - rows@[i].start <= i64::MAX,
    ensures
        r == shown_seconds(row_views(rows@)),
{
    let ghost rv = row_views(rows@);
    let mut sum: i128 = 0;
    let mut k: usize = 0;
    while k < rows.len()
        invariant
            k <= rows@.len(),
            rv == row_views(rows@),
            forall|i: int| 0 <= i < rows@.len() ==> i64::MIN <= (#[trigger] rows@[i]).end - rows@[i].start <= i64::MAX,
            sum == shown_seconds(rv.take(k as int)),
            -(k * 0x8000_0000_0000_0000) <= sum <= k * 0x8000_0000_0000_0000,
        decreases rows@.len() - k,
    {
        let row = &rows[k];
        proof {
            assert(rv.take(k + 1).drop_last() =~= rv.take(k as int));
            assert(rv.take(k + 1).last() == rows@[k as int]@);
        }
        let key = key_of(row);
        if is_counted(&key) {
            sum = sum + ((row.end as i128) - (row.start as i128));
        }
        k += 1;
    }
    assert(rv.take(rows@.len() as int) =~= rv);
    sum
}

/// The seconds of the shown sessions of `rows` (idle and unknown time left
/// out); `None` when that total does not fit in 64 bits.
pub fn shown_total(rows: &Vec<SessionRow>) -> (r: Option<i64>)
    requires
        forall|i: int| 0 <= i < rows@.len() ==> i64::MIN <= (#[trigger] rows@[i]).end - rows@[i].start <= i64::MAX,
    ensures
        r is Some <==> fits_i64(shown_seconds(row_views(rows@))),
        r matches Some(t) ==> t == shown_seconds(row_views(rows@)),
{
    let sum = shown_sum(rows);
    if sum < i64::MIN as i128 || sum > i64::MAX as i128 {
        None
    } else {
        Some(sum as i64)
    }
}

/// The seconds of the shown sessions of `rows` recorded for day `day`, in a
/// wider type.
fn day_sum(rows: &Vec<(String, SessionRow)>, day: &str) -> (r: i128)
    requires
        forall|i: int| 0 <= i < rows@.len() ==> i64::MIN <= (#[trigger] rows@[i]).1.end - rows@[i].1.start <= i64::MAX,
    ensures
        r == shown_seconds(rows_on(rows@, day@)),
{
    let mut sum: i128 = 0;
    let mut k: usize = 0;
    while k < rows.len()
        invariant
            k <= rows@.len(),
            forall|i: int| 0 <= i < rows@.len() ==> i64::MIN <= (#[trigger] rows@[i]).1.end - rows@[i].1.start <= i64::MAX,
            sum == shown_seconds(rows_on(rows@.take(k as int), day@)),
            -(k * 0x8000_0000_0000_0000) <= sum <= k * 0x8000_0000_0000_0000,
        decreases rows@.len() - k,
    {
        let ghost before = rows_on(rows@.take(k as int), day@);
        proof {
            assert(rows@.take(k + 1).drop_last() =~= rows@.take(k as int));
            assert(rows@.take(k + 1).last() == rows@[k as int]);
        }
        if crate::text::same_text(rows[k].0.as_str(), day) {
            let row = &rows[k].1;
            proof {
                assert(before.push(row@).drop_last() =~= before);
            }
            let key = key_of(row);
            if is_counted(&key) {
                sum = sum + ((row.end as i128) - (row.start as i128));
            }
        }
        k += 1;
    }
    assert(rows@.take(rows@.len() as int) =~= rows@);
    sum
}

/// The start and end of each shown session of `rows` (idle and unknown time
/// left out), in order.
pub open spec fn shown_spans_of(rows: Seq<SessionRowView>) -> Seq<(i64, i64)>
    decreases rows.len(),
{
    if rows.len() == 0 {
        Seq::<(i64, i64)>::empty()
    } else if counted_key(row_key(rows.last())) {
        shown_spans_of(rows.drop_last()).push((rows.last().start, rows.last().end))
    } else {
        shown_spans_of(rows.drop_last())
    }
}

/// The start and end of each shown session of `rows` (idle and unknown time
/// left out), in order.
pub fn shown_spans(rows: &Vec<SessionRow>) -> (r: Vec<(i64, i64)>)
    ensures
        r@ == shown_spans_of(row_views(rows@)),
{
    let ghost rv = row_views(rows@);
    let mut out: Vec<(i64, i64)> = Vec::new();
    let mut k: usize = 0;
    while k < rows.len()
        invariant
            k <= rows@.len(),
            rv == row_views(rows@),
            out@ == shown_spans_of(rv.take(k as int)),
        decreases rows@.len() - k,
    {
        let row = &rows[k];
        proof {
            assert(rv.take(k + 1).drop_last() =~= rv.take(k as int));
            assert(rv.take(k + 1).last() == rows@[k as int]@);
        }
        let key = key_of(row);
        if is_counted(&key) {
            out.push((row.start, row.end));
        }
        k += 1;
    }
    assert(rv.take(rows@.len() as int) =~= rv);
    out
}

/// The seconds of the sessions of `rows` recorded under app name `name`.
pub open spec fn name_seconds(rows: Seq<SessionRowView>, name: Seq<char>) -> int
    decreases rows.len(),
{
    if rows.len() == 0 {
        0
    } else {
        name_seconds(rows.drop_last(), name) + if rows.last().app_name == name {
            rows.last().end - rows.last().start
        } else {
            0
        }
    }
}

/// The seconds of the sessions of `rows` counting under identity `identity`
/// (idle and unknown included, when asked for); `None` when that total does
/// not fit in 64 bits.
pub fn identity_total(rows: &Vec<SessionRow>, identity: &str) -> (r: Option<i64>)
    requires
        forall|i: int| 0 <= i < rows@.len() ==> i64::MIN <= (#[trigger] rows@[i]).end - rows@[i].start <= i64::MAX,
    ensures
        r is Some <==> fits_i64(key_total(row_views(rows@), identity@)),
        r matches Some(t) ==> t == key_total(row_views(rows@), identity@),
{
    let ghost rv = row_views(rows@);
    let target = chars_of(identity);
    let mut sum: i128 = 0;
    let mut k: usize = 0;
    while k < rows.len()
        invariant
            k <= rows@.len(),
            rv == row_views(rows@),
            target@ == identity@,
            forall|i: int| 0 <= i < rows@.len() ==> i64::MIN <= (#[trigger] rows@[i]).end - rows@[i].start <= i64::MAX,
            sum == key_total(rv.take(k as int), identity@),
            -(k * 0x8000_0000_0000_0000) <= sum <= k * 0x8000_0000_0000_0000,
        decreases rows@.len() - k,
    {
        let row = &rows[k];
        proof {
            assert(rv.take(k + 1).drop_last() =~= rv.take(k as int));
            assert(rv.take(k + 1).last() == rows@[k as int]@);
        }
        let key = key_of(row);
        if same_chars(&key, &target) {
            sum = sum + ((row.end as i128) - (row.start as i128));
        }
        k += 1;
    }
    assert(rv.take(rows@.len() as int) =~= rv);
    if sum < i64::MIN as i128 || sum > i64::MAX as i128 {
        None
    } else {
        Some(sum as i64)
    }
}

/// The seconds of the sessions of `rows` recorded under app name `name`;
/// `None` when that total does not fit in 64 bits.
pub fn name_total(rows: &Vec<SessionRow>, name: &str) -> (r: Option<i64>)
    requires
        forall|i: int| 0 <= i < rows@.len() ==> i64::MIN <= (#[trigger] rows@[i]).end - rows@[i].start <= i64::MAX,
    ensures
        r is Some <==> fits_i64(name_seconds(row_views(rows@), name@)),
        r matches Some(t) ==> t == name_seconds(row_views(rows@), name@),
{
    let ghost rv = row_views(rows@);
    let mut sum: i128 = 0;
    let mut k: usize = 0;
    while k < rows.len()
        invariant
            k <= rows@.len(),
            rv == row_views(rows@),
            forall|i: int| 0 <= i < rows@.len() ==> i64::MIN <= (#[trigger] rows@[i]).end - rows@[i].start <= i64::MAX,
            sum == name_seconds(rv.take(k as int), name@),
            -(k * 0x8000_0000_0000_0000) <= sum <= k * 0x8000_0000_0000_0000,
        decreases rows@.len() - k,
    {
        let row = &rows[k];
        proof {
            assert(rv.take(k + 1).drop_last() =~= rv.take(k as int));
            assert(rv.take(k + 1).last() == rows@[k as int]@);
        }
        if crate::text::same_text(row.app_name.as_str(), name) {
            sum = sum + ((row.end as i128) - (row.start as i128));
        }
        k += 1;
    }
    assert(rv.take(rows@.len() as int) =~= rv);
    if sum < i64::MIN as i128 || sum > i64::MAX as i128 {
        None
    } else {
        Some(sum as i64)
    }
}

/// Whether `v` pairs each of `days`, in order, with the seconds of the shown
/// sessions of `rows` recorded for it.
pub open spec fn are_day_totals(days: Seq<String>, rows: Seq<(String, SessionRow)>, v: Seq<(String, i64)>) -> bool {
    &&& v.len() == days.len()
    &&& forall|i: int|
        0 <= i < days.len() ==> (#[trigger] v[i]).0@ == days[i]@ && v[i].1 == shown_seconds(
            rows_on(rows, days[i]@),
        )
}

/// Each of `days` with the seconds of the shown sessions of `rows` (each with
/// the day it was recorded on) recorded for it; `None` when the total of
/// some day does not fit in 64 bits.
pub fn day_totals(days: &Vec<String>, rows: &Vec<(String, SessionRow)>) -> (r: Option<Vec<(String, i64)>>)
    requires
        forall|i: int| 0 <= i < rows@.len() ==> i64::MIN <= (#[trigger] rows@[i]).1.end - rows@[i].1.start <= i64::MAX,
    ensures
        r is None <==> exists|i: int| 0 <= i < days@.len() && !fits_i64(shown_seconds(rows_on(rows@, (#[trigger] days@[i])@))),
        r matches Some(v) ==> are_day_totals(days@, rows@, v@),
{
    let mut out: Vec<(String, i64)> = Vec::new();
    let mut i: usize = 0;
    while i < days.len()
        invariant
            i <= days@.len(),
            forall|j: int| 0 <= j < rows@.len() ==> i64::MIN <= (#[trigger] rows@[j]).1.end - rows@[j].1.start <= i64::MAX,
            out@.len() == i,
            forall|j: int|
                0 <= j < i ==> (#[trigger] out@[j]).0@ == days@[j]@ && out@[j].1 == shown_seconds(
                    rows_on(rows@, days@[j]@),
                ),
            forall|j: int| 0 <= j < i ==> fits_i64(shown_seconds(rows_on(rows@, (#[trigger] days@[j])@))),
        decreases days@.len() - i,
    {
        let sum = day_sum(rows, days[i].as_str());
        if sum < i64::MIN as i128 || sum > i64::MAX as i128 {
            assert(!fits_i64(shown_seconds(rows_on(rows@, days@[i as int]@))));
            return None;
        }
        out.push((days[i].clone(), sum as i64));
        i += 1;
    }
    Some(out)
}

/// The total a listed day gets in the week summary is the seconds of its
/// shown sessions: where `v` holds the day totals of `days` over `rows`, the
/// total recorded in `v` for each listed day is that day's shown seconds.
pub proof fn lemma_day_totals_recorded(days: Seq<String>, rows: Seq<(String, SessionRow)>, v: Seq<(String, i64)>, i: int)
    requires
        are_day_totals(days, rows, v),
        0 <= i < days.len(),
    ensures
        crate::week::day_total_of(v, days[i]@) == shown_seconds(rows_on(rows, days[i]@)),
    decreases v.len(),
{
    let last = v.len() - 1;
    if v.last().0@ != days[i]@ {
        let d2 = days.drop_last();
        let v2 = v.drop_last();
        assert(v[last] == v.last());
        if i == last {
            assert(v[i].0@ == days[i]@);
        } else {
            assert(are_day_totals(d2, rows, v2)) by {
                assert forall|j: int| 0 <= j < d2.len() implies (#[trigger] v2[j]).0@ == d2[j]@ && v2[j].1
                    == shown_seconds(rows_on(rows, d2[j]@)) by {
                    assert(v[j] == v2[j] && days[j] == d2[j]);
                }
            }
            lemma_day_totals_recorded(d2, rows, v2, i);
            assert(d2[i] == days[i]);
        }
    } else {
        assert(v[last].0@ == days[last]@);
    }
}

} // verus!
