//! Maps keyed by strings, kept as ordered lists without repeated keys, and the
//! user's exe labels built on them.
use vstd::prelude::*;

use crate::manifest::opt_view;
use crate::text::{
    chars_of, lemma_lower_trimmed_idempotent, lemma_trimmed_idempotent, lowercase_chars, same_text, string_of,
    strip_suffixes, strip_suffixes_chars, trim_chars, trimmed,
};
use crate::unicode::{is_ascii_text, lowercase};

verus! {

// ---------------------------------------------------------------------------
// Ordered maps with string keys
// ---------------------------------------------------------------------------

/// Whether `k` is a key of `m`.
pub open spec fn has_key<V>(m: Seq<(Seq<char>, V)>, k: Seq<char>) -> bool {
    exists|i: int| 0 <= i < m.len() && #[trigger] m[i].0 == k
}

/// Whether no key occurs twice in `m`.
pub open spec fn keys_unique<V>(m: Seq<(Seq<char>, V)>) -> bool {
    forall|i: int, j: int| 0 <= i < j < m.len() ==> #[trigger] m[i].0 != #[trigger] m[j].0
}

/// The position of the key `k` in `m`.
pub open spec fn key_index<V>(m: Seq<(Seq<char>, V)>, k: Seq<char>) -> int {
    choose|i: int| 0 <= i < m.len() && #[trigger] m[i].0 == k
}

/// The value stored under `k`.
pub open spec fn lookup<V>(m: Seq<(Seq<char>, V)>, k: Seq<char>) -> Option<V> {
    if has_key(m, k) {
        Some(m[key_index(m, k)].1)
    } else {
        None
    }
}

/// `m` with `k` mapped to `v`: the value is replaced in place when `k` is a
/// key, and the pair is appended otherwise.
pub open spec fn put<V>(m: Seq<(Seq<char>, V)>, k: Seq<char>, v: V) -> Seq<(Seq<char>, V)> {
    if has_key(m, k) {
        m.update(key_index(m, k), (k, v))
    } else {
        m.push((k, v))
    }
}

/// The views of a list of string-keyed pairs.
pub open spec fn pairs_view<V: View>(e: Seq<(String, V)>) -> Seq<(Seq<char>, V::V)> {
    e.map_values(|p: (String, V)| (p.0@, p.1@))
}

/// Putting a key keeps keys unique, stores the value, and leaves other keys alone.
pub proof fn lemma_put<V>(m: Seq<(Seq<char>, V)>, k: Seq<char>, v: V)
    requires
        keys_unique(m),
    ensures
        keys_unique(put(m, k, v)),
        lookup(put(m, k, v), k) == Some(v),
        forall|k2: Seq<char>| k2 != k ==> lookup(put(m, k, v), k2) == lookup(m, k2),
        has_key(m, k) ==> put(m, k, v).len() == m.len(),
        !has_key(m, k) ==> put(m, k, v).len() == m.len() + 1,
{
    let r = put(m, k, v);
    if has_key(m, k) {
        let i = key_index(m, k);
        assert(r[i].0 == k);
        assert forall|k2: Seq<char>| k2 != k implies lookup(r, k2) == lookup(m, k2) by {
            if has_key(m, k2) {
                let j = key_index(m, k2);
                assert(r[j].0 == k2);
                let j2 = key_index(r, k2);
                assert(m[j2].0 == k2 || j2 == i);
            }
            if has_key(r, k2) {
                let j2 = key_index(r, k2);
                assert(m[j2].0 == k2);
            }
        }
    } else {
        assert(r[m.len() as int].0 == k);
        assert forall|k2: Seq<char>| k2 != k implies lookup(r, k2) == lookup(m, k2) by {
            if has_key(m, k2) {
                let j = key_index(m, k2);
                assert(r[j].0 == k2);
            }
            if has_key(r, k2) {
                let j2 = key_index(r, k2);
                assert(j2 < m.len());
                assert(m[j2].0 == k2);
            }
        }
    }
}

/// In a map without repeated keys, the entry found at `i` is the one `lookup` returns.
pub proof fn lemma_lookup_at<V>(m: Seq<(Seq<char>, V)>, i: int)
    requires
        keys_unique(m),
        0 <= i < m.len(),
    ensures
        has_key(m, m[i].0),
        key_index(m, m[i].0) == i,
        lookup(m, m[i].0) == Some(m[i].1),
{
    assert(m[i].0 == m[i].0);
    let j = key_index(m, m[i].0);
    if j != i {
        if j < i {
            assert(m[j].0 != m[i].0);
        } else {
            assert(m[i].0 != m[j].0);
        }
    }
}

/// The position of `key` among the pairs, if it is there.
pub fn find_key<V: View>(entries: &Vec<(String, V)>, key: &str) -> (r: Option<usize>)
    ensures
        r matches Some(i) ==> i < entries@.len() && entries@[i as int].0@ == key@,
        r is None ==> !has_key(pairs_view(entries@), key@),
{
    let mut i: usize = 0;
    while i < entries.len()
        invariant
            i <= entries@.len(),
            forall|k: int| 0 <= k < i ==> entries@[k].0@ != key@,
        decreases entries@.len() - i,
    {
        if same_text(entries[i].0.as_str(), key) {
            return Some(i);
        }
        i += 1;
    }
    assert forall|k: int| 0 <= k < entries@.len() implies #[trigger] pairs_view(entries@)[k].0
        != key@ by {
        assert(pairs_view(entries@)[k].0 == entries@[k].0@);
    }
    None
}

// ---------------------------------------------------------------------------
// Exe labels
// ---------------------------------------------------------------------------

/// The user's display names for executables, keyed by exe name.
pub struct ExeLabels {
    entries: Vec<(String, String)>,
}

impl View for ExeLabels {
    type V = Seq<(Seq<char>, Seq<char>)>;

    closed spec fn view(&self) -> Seq<(Seq<char>, Seq<char>)> {
        pairs_view(self.entries@)
    }
}

impl ExeLabels {
    /// No key occurs twice.
    pub closed spec fn wf(&self) -> bool {
        keys_unique(self@)
    }

    /// The empty label map.
    pub fn new() -> (r: ExeLabels)
        ensures
            r.wf(),
            r@ == Seq::<(Seq<char>, Seq<char>)>::empty(),
    {
        let r = ExeLabels { entries: Vec::new() };
        assert(r@ =~= Seq::<(Seq<char>, Seq<char>)>::empty());
        r
    }

    /// The number of labels.
    pub fn len(&self) -> (r: usize)
        ensures
            r == self@.len(),
    {
        self.entries.len()
    }

    /// The label stored under `key`.
    pub fn get(&self, key: &str) -> (r: Option<String>)
        requires
            self.wf(),
        ensures
            opt_view(r) == lookup(self@, key@),
    {
        match find_key(&self.entries, key) {
            Some(i) => {
                proof {
                    assert(self@[i as int] == (self.entries@[i as int].0@, self.entries@[i as int].1@));
                    lemma_lookup_at(self@, i as int);
                }
                Some(self.entries[i].1.clone())
            },
            None => None,
        }
    }

    /// Stores `value` under `key`, replacing an earlier label in place.
    pub fn insert(&mut self, key: String, value: String)
        requires
            old(self).wf(),
        ensures
            final(self).wf(),
            final(self)@ == put(old(self)@, key@, value@),
    {
        proof {
            lemma_put(self@, key@, value@);
        }
        match find_key(&self.entries, key.as_str()) {
            Some(i) => {
                proof {
                    lemma_lookup_at(self@, i as int);
                }
                let ghost before = self@;
                let ghost kv = key@;
                let ghost vv = value@;
                self.entries.set(i, (key, value));
                assert(self@ =~= before.update(i as int, (kv, vv)));
            },
            None => {
                let ghost before = self@;
                let ghost kv = key@;
                let ghost vv = value@;
                self.entries.push((key, value));
                assert(self@ =~= before.push((kv, vv)));
            },
        }
    }

    /// The labels as key/value pairs, in order.
    pub fn to_pairs(&self) -> (r: Vec<(String, String)>)
        ensures
            pairs_view(r@) == self@,
    {
        let mut out: Vec<(String, String)> = Vec::new();
        let mut i: usize = 0;
        while i < self.entries.len()
            invariant
                i <= self.entries@.len(),
                pairs_view(out@) == pairs_view(self.entries@.take(i as int)),
            decreases self.entries@.len() - i,
        {
            let k = self.entries[i].0.clone();
            let v = self.entries[i].1.clone();
            let ghost before = out@;
            out.push((k, v));
            assert(pairs_view(out@) =~= pairs_view(before).push((k@, v@)));
            assert(self.entries@.take(i + 1) =~= self.entries@.take(i as int).push(self.entries@[i as int]));
            assert(pairs_view(self.entries@.take(i + 1)) =~= pairs_view(self.entries@.take(i as int)).push((k@, v@)));
            i += 1;
        }
        assert(self.entries@.take(self.entries@.len() as int) =~= self.entries@);
        out
    }
}

// ---------------------------------------------------------------------------
// Label rules
// ---------------------------------------------------------------------------

/// The labels a list of user pairs yields: keys trimmed and lowercased,
/// values trimmed, pairs with a blank key or value dropped, and a later pair
/// overriding an earlier one with the same normalised key.
pub open spec fn normalized_labels(pairs: Seq<(Seq<char>, Seq<char>)>) -> Seq<(Seq<char>, Seq<char>)>
    decreases pairs.len(),
{
    if pairs.len() == 0 {
        Seq::empty()
    } else {
        let prev = normalized_labels(pairs.drop_last());
        let k = lowercase(trimmed(pairs.last().0));
        let v = trimmed(pairs.last().1);
        if k.len() == 0 || v.len() == 0 {
            prev
        } else {
            put(prev, k, v)
        }
    }
}

/// Whether every label is its own normalisation and no key repeats.
pub open spec fn normal_labels(m: Seq<(Seq<char>, Seq<char>)>) -> bool {
    &&& keys_unique(m)
    &&& forall|i: int|
        0 <= i < m.len() ==> {
            &&& lowercase(trimmed((#[trigger] m[i]).0)) == m[i].0
            &&& m[i].0.len() > 0
            &&& trimmed(m[i].1) == m[i].1
            &&& m[i].1.len() > 0
        }
}

/// Labels already in normal form, for keys in any script, are normalised
/// into themselves: saved labels whose keys are their own trimmed lowercase
/// come back unchanged.
pub proof fn lemma_normal_labels_fixed(m: Seq<(Seq<char>, Seq<char>)>)
    requires
        normal_labels(m),
    ensures
        normalized_labels(m) == m,
    decreases m.len(),
{
    if m.len() > 0 {
        let init = m.drop_last();
        assert(normal_labels(init)) by {
            assert forall|i: int| 0 <= i < init.len() implies {
                &&& lowercase(trimmed((#[trigger] init[i]).0)) == init[i].0
                &&& init[i].0.len() > 0
                &&& trimmed(init[i].1) == init[i].1
                &&& init[i].1.len() > 0
            } by {
                assert(init[i] == m[i]);
            }
        }
        lemma_normal_labels_fixed(init);
        let last = m[m.len() - 1];
        assert(!has_key(init, last.0)) by {
            if has_key(init, last.0) {
                let j = key_index(init, last.0);
                assert(m[j].0 != m[m.len() - 1].0);
            }
        }
        assert(init.push((last.0, last.1)) =~= m);
    }
}

proof fn lemma_normalized_labels_normal(pairs: Seq<(Seq<char>, Seq<char>)>)
    requires
        forall|i: int| 0 <= i < pairs.len() ==> is_ascii_text(#[trigger] pairs[i].0),
    ensures
        normal_labels(normalized_labels(pairs)),
    decreases pairs.len(),
{
    if pairs.len() > 0 {
        let init = pairs.drop_last();
        assert forall|i: int| 0 <= i < init.len() implies is_ascii_text(#[trigger] init[i].0) by {
            assert(init[i] == pairs[i]);
        }
        lemma_normalized_labels_normal(init);
        let prev = normalized_labels(init);
        let last = pairs[pairs.len() - 1];
        let k = lowercase(trimmed(last.0));
        let v = trimmed(last.1);
        if k.len() > 0 && v.len() > 0 {
            lemma_lower_trimmed_idempotent(last.0);
            lemma_trimmed_idempotent(last.1);
            lemma_put(prev, k, v);
            let r = put(prev, k, v);
            assert forall|i: int| 0 <= i < r.len() implies {
                &&& lowercase(trimmed((#[trigger] r[i]).0)) == r[i].0
                &&& r[i].0.len() > 0
                &&& trimmed(r[i].1) == r[i].1
                &&& r[i].1.len() > 0
            } by {
                if has_key(prev, k) {
                    if i != key_index(prev, k) {
                        assert(r[i] == prev[i]);
                    }
                } else if i < prev.len() {
                    assert(r[i] == prev[i]);
                }
            }
        }
    }
}

/// Normalising exe labels twice is normalising them once, for ASCII keys:
/// labels saved after normalisation come back unchanged.
pub proof fn lemma_normalized_labels_idempotent(pairs: Seq<(Seq<char>, Seq<char>)>)
    requires
        forall|i: int| 0 <= i < pairs.len() ==> is_ascii_text(#[trigger] pairs[i].0),
    ensures
        normalized_labels(normalized_labels(pairs)) == normalized_labels(pairs),
{
    lemma_normalized_labels_normal(pairs);
    lemma_normal_labels_fixed(normalized_labels(pairs));
}

/// Whether `(k, v)` is what the user pair `pairs[j]` normalises to.
pub open spec fn label_from(pairs: Seq<(Seq<char>, Seq<char>)>, j: int, k: Seq<char>, v: Seq<char>) -> bool {
    lowercase(trimmed(pairs[j].0)) == k && trimmed(pairs[j].1) == v
}

/// What normalising exe labels gives, for keys in any script: no key
/// repeats; every label has a non-blank key and a trimmed, non-blank value,
/// both normalised from one of the user's pairs; and every user pair whose
/// normalised key and value are not blank has its key among the labels.
#[verifier::rlimit(40)]
#[verifier::spinoff_prover]
pub proof fn lemma_normalized_labels_entries(pairs: Seq<(Seq<char>, Seq<char>)>)
    ensures
        keys_unique(normalized_labels(pairs)),
        forall|i: int|
            #![trigger normalized_labels(pairs)[i]]
            0 <= i < normalized_labels(pairs).len() ==> {
                let e = normalized_labels(pairs)[i];
                &&& e.0.len() > 0
                &&& e.1.len() > 0
                &&& trimmed(e.1) == e.1
                &&& exists|j: int| 0 <= j < pairs.len() && #[trigger] label_from(pairs, j, e.0, e.1)
            },
        forall|j: int|
            0 <= j < pairs.len() && lowercase(trimmed((#[trigger] pairs[j]).0)).len() > 0 && trimmed(pairs[j].1).len()
                > 0 ==> has_key(normalized_labels(pairs), lowercase(trimmed(pairs[j].0))),
    decreases pairs.len(),
{
    let r = normalized_labels(pairs);
    if pairs.len() > 0 {
        let init = pairs.drop_last();
        lemma_normalized_labels_entries(init);
        let prev = normalized_labels(init);
        let last = pairs.len() - 1;
        let k = lowercase(trimmed(pairs[last].0));
        let v = trimmed(pairs[last].1);
        assert(pairs.last() == pairs[last]);
        assert forall|j: int, kk: Seq<char>, vv: Seq<char>| 0 <= j < init.len() && label_from(init, j, kk, vv) implies label_from(
            pairs,
            j,
            kk,
            vv,
        ) by {
            assert(init[j] == pairs[j]);
        }
        if k.len() == 0 || v.len() == 0 {
            assert forall|j: int|
                0 <= j < pairs.len() && lowercase(trimmed((#[trigger] pairs[j]).0)).len() > 0 && trimmed(pairs[j].1).len()
                    > 0 implies has_key(r, lowercase(trimmed(pairs[j].0))) by {
                assert(j < last);
                assert(init[j] == pairs[j]);
            }
            assert forall|i: int| #![trigger r[i]] 0 <= i < r.len() implies exists|j: int| 0 <= j < pairs.len() && #[trigger] label_from(pairs, j, r[i].0, r[i].1) by {
                let j = choose|j: int| 0 <= j < init.len() && #[trigger] label_from(init, j, prev[i].0, prev[i].1);
                assert(label_from(pairs, j, r[i].0, r[i].1));
            }
        } else {
            lemma_put(prev, k, v);
            lemma_trimmed_idempotent(pairs[last].1);
            assert(label_from(pairs, last, k, v));
            assert forall|i: int| #![trigger r[i]] 0 <= i < r.len() implies {
                &&& r[i].0.len() > 0
                &&& r[i].1.len() > 0
                &&& trimmed(r[i].1) == r[i].1
                &&& exists|j: int| 0 <= j < pairs.len() && #[trigger] label_from(pairs, j, r[i].0, r[i].1)
            } by {
                let same = if has_key(prev, k) {
                    i == key_index(prev, k)
                } else {
                    i == prev.len()
                };
                if same {
                    assert(r[i] == (k, v));
                } else {
                    assert(r[i] == prev[i]);
                    let j = choose|j: int| 0 <= j < init.len() && #[trigger] label_from(init, j, prev[i].0, prev[i].1);
                    assert(label_from(pairs, j, r[i].0, r[i].1));
                }
            }
            assert forall|j: int|
                0 <= j < pairs.len() && lowercase(trimmed((#[trigger] pairs[j]).0)).len() > 0 && trimmed(pairs[j].1).len()
                    > 0 implies has_key(r, lowercase(trimmed(pairs[j].0))) by {
                let kj = lowercase(trimmed(pairs[j].0));
                if j < last {
                    assert(init[j] == pairs[j]);
                    assert(has_key(prev, kj));
                    if kj != k {
                        let t = key_index(prev, kj);
                        assert(lookup(prev, kj) == Some(prev[t].1));
                        assert(lookup(r, kj) is Some);
                    }
                }
                assert(lookup(r, k) == Some(v));
            }
        }
    }
}

/// Whether the label key `key` applies to the exe name `target`, comparing
/// them with and without their `.exe` suffixes.
pub open spec fn label_key_matches(key: Seq<char>, target: Seq<char>) -> bool {
    let key_stem = strip_suffixes(key, ".exe"@);
    let target_stem = strip_suffixes(target, ".exe"@);
    key == target || key_stem == target_stem || key == target_stem || key_stem == target
}

/// The value of the first label from position `i` on whose key applies to `target`.
pub open spec fn first_matching_label(m: Seq<(Seq<char>, Seq<char>)>, target: Seq<char>, i: int) -> Option<Seq<char>>
    decreases m.len() - i,
{
    if i < 0 || i >= m.len() {
        None
    } else if label_key_matches(m[i].0, target) {
        Some(m[i].1)
    } else {
        first_matching_label(m, target, i + 1)
    }
}

/// The user's label for an exe name: the label stored under the trimmed,
/// lowercased name, or else the first label whose key matches it with or
/// without `.exe`.
pub open spec fn label_for(m: Seq<(Seq<char>, Seq<char>)>, exe_name: Seq<char>) -> Option<Seq<char>> {
    let target = lowercase(trimmed(exe_name));
    match lookup(m, target) {
        Some(v) => Some(v),
        None => first_matching_label(m, target, 0),
    }
}

/// Whether the label key `key` names the exe whose trimmed, lowercased name
/// is `target`: equal to it, or equal to it once `.exe` is added to one of
/// the two.
pub open spec fn key_names_exe(key: Seq<char>, target: Seq<char>) -> bool {
    key == target || key + ".exe"@ == target || key == target + ".exe"@
}

proof fn lemma_strip_added_exe(k: Seq<char>)
    ensures
        strip_suffixes(k + ".exe"@, ".exe"@) == strip_suffixes(k, ".exe"@),
{
    reveal_strlit(".exe");
    let s = k + ".exe"@;
    assert(s.subrange(s.len() - 4, s.len() as int) =~= ".exe"@);
    assert(s.subrange(0, s.len() - 4) =~= k);
}

proof fn lemma_first_matching_found(m: Seq<(Seq<char>, Seq<char>)>, target: Seq<char>, j: int, i: int)
    requires
        0 <= j <= i < m.len(),
        label_key_matches(m[i].0, target),
    ensures
        first_matching_label(m, target, j) is Some,
        first_matching_label(m, target, j) matches Some(v) ==> exists|h: int| j <= h < m.len() && #[trigger] m[h].1 == v,
    decreases i - j,
{
    if !label_key_matches(m[j].0, target) {
        lemma_first_matching_found(m, target, j + 1, i);
    }
}

proof fn lemma_first_matching_is_a_value(m: Seq<(Seq<char>, Seq<char>)>, target: Seq<char>, j: int)
    requires
        0 <= j,
    ensures
        first_matching_label(m, target, j) matches Some(v) ==> exists|h: int| 0 <= h < m.len() && #[trigger] m[h].1 == v,
    decreases m.len() - j,
{
    if j < m.len() && !label_key_matches(m[j].0, target) {
        lemma_first_matching_is_a_value(m, target, j + 1);
    }
}

/// A label applies to an exe whether its key and the exe name carry the
/// `.exe` suffix or not: when some label's key names the exe (see
/// `key_names_exe`), the exe gets a label, and whatever label an exe gets is
/// the value of one of the labels.
pub proof fn lemma_label_applies_with_or_without_exe(m: Seq<(Seq<char>, Seq<char>)>, exe_name: Seq<char>, i: int)
    requires
        keys_unique(m),
        0 <= i < m.len(),
        key_names_exe(m[i].0, lowercase(trimmed(exe_name))),
    ensures
        label_for(m, exe_name) is Some,
        label_for(m, exe_name) matches Some(v) ==> exists|h: int| 0 <= h < m.len() && #[trigger] m[h].1 == v,
{
    let t = lowercase(trimmed(exe_name));
    let k = m[i].0;
    if k + ".exe"@ == t {
        lemma_strip_added_exe(k);
    } else if k == t + ".exe"@ {
        lemma_strip_added_exe(t);
    }
    assert(label_key_matches(k, t));
    if lookup(m, t) is None {
        lemma_first_matching_found(m, t, 0, i);
    } else {
        let j = key_index(m, t);
        assert(m[j].1 == lookup(m, t)->0);
    }
}

/// A label stored under the exe's own trimmed, lowercased name is the one it
/// gets, whatever other labels match it with or without `.exe`.
pub proof fn lemma_exact_label_wins(m: Seq<(Seq<char>, Seq<char>)>, exe_name: Seq<char>, i: int)
    requires
        keys_unique(m),
        0 <= i < m.len(),
        m[i].0 == lowercase(trimmed(exe_name)),
    ensures
        label_for(m, exe_name) == Some(m[i].1),
{
    lemma_lookup_at(m, i);
}

/// A single label applies, with its own value, to the exe its key names,
/// with or without `.exe` on either side.
pub proof fn lemma_single_label_applies(key: Seq<char>, value: Seq<char>, exe_name: Seq<char>)
    requires
        key_names_exe(key, lowercase(trimmed(exe_name))),
    ensures
        label_for(seq![(key, value)], exe_name) == Some(value),
{
    let m = seq![(key, value)];
    lemma_label_applies_with_or_without_exe(m, exe_name, 0);
    let v = label_for(m, exe_name)->0;
    let h = choose|h: int| 0 <= h < m.len() && #[trigger] m[h].1 == v;
    assert(h == 0);
}

/// Whatever label an exe gets is the value of one of the labels.
pub proof fn lemma_label_is_a_value(m: Seq<(Seq<char>, Seq<char>)>, exe_name: Seq<char>)
    ensures
        label_for(m, exe_name) matches Some(v) ==> exists|h: int| 0 <= h < m.len() && #[trigger] m[h].1 == v,
{
    let t = lowercase(trimmed(exe_name));
    if lookup(m, t) is Some {
        let j = key_index(m, t);
        assert(m[j].1 == lookup(m, t)->0);
    } else {
        lemma_first_matching_is_a_value(m, t, 0);
    }
}

/// Normalises user exe labels: keys trimmed and lowercased, values trimmed,
/// blank entries dropped, later entries overriding earlier ones.
pub fn normalize_exe_name_map(map: Vec<(String, String)>) -> (r: ExeLabels)
    ensures
        r.wf(),
        r@ == normalized_labels(pairs_view(map@)),
{
    let mut labels = ExeLabels::new();
    let mut i: usize = 0;
    let ghost pv = pairs_view(map@);
    assert(pv.take(0) =~= Seq::<(Seq<char>, Seq<char>)>::empty());
    while i < map.len()
        invariant
            i <= map@.len(),
            pv == pairs_view(map@),
            labels.wf(),
            labels@ == normalized_labels(pv.take(i as int)),
        decreases map@.len() - i,
    {
        let key_chars = chars_of(map[i].0.as_str());
        let key_trimmed = trim_chars(&key_chars);
        let key_lower = lowercase_chars(&key_trimmed);
        let value_chars = chars_of(map[i].1.as_str());
        let value_trimmed = trim_chars(&value_chars);
        assert(pv.take(i + 1).drop_last() =~= pv.take(i as int));
        assert(pv.take(i + 1).last() == (map@[i as int].0@, map@[i as int].1@));
        if key_lower.len() > 0 && value_trimmed.len() > 0 {
            labels.insert(string_of(&key_lower), string_of(&value_trimmed));
        }
        i += 1;
    }
    assert(pv.take(map@.len() as int) =~= pv);
    labels
}

/// The user's label for an exe name, if any label applies.
pub fn lookup_exe_label(labels: &ExeLabels, exe_name: &str) -> (r: Option<String>)
    requires
        labels.wf(),
    ensures
        opt_view(r) == label_for(labels@, exe_name@),
{
    let e = chars_of(exe_name);
    let t = trim_chars(&e);
    let target_chars = lowercase_chars(&t);
    let target = string_of(&target_chars);
    if let Some(label) = labels.get(target.as_str()) {
        return Some(label);
    }
    let ext = chars_of(".exe");
    proof {
        reveal_strlit(".exe");
    }
    let target_stem = strip_suffixes_chars(&target_chars, &ext);
    let mut i: usize = 0;
    while i < labels.entries.len()
        invariant
            i <= labels@.len(),
            labels@ == pairs_view(labels.entries@),
            ext@ == ".exe"@,
            ext@.len() > 0,
            lookup(labels@, target@) is None,
            target@ == lowercase(trimmed(exe_name@)),
            target_chars@ == target@,
            target_stem@ == strip_suffixes(target@, ".exe"@),
            first_matching_label(labels@, target@, 0) == first_matching_label(labels@, target@, i as int),
        decreases labels@.len() - i,
    {
        let key = chars_of(labels.entries[i].0.as_str());
        let key_stem = strip_suffixes_chars(&key, &ext);
        assert(labels@[i as int] == (labels.entries@[i as int].0@, labels.entries@[i as int].1@));
        if crate::text::same_chars(&key, &target_chars) || crate::text::same_chars(&key_stem, &target_stem)
            || crate::text::same_chars(&key, &target_stem) || crate::text::same_chars(&key_stem, &target_chars) {
            return Some(labels.entries[i].1.clone());
        }
        i += 1;
    }
    None
}

} // verus!
