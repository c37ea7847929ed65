//! The cache of resolved app names, keyed by app identity, and the clean-up
//! applied to a cache read back from disk.
use vstd::prelude::*;

use crate::labels::{find_key, has_key, key_index, keys_unique, lemma_lookup_at, lemma_put, lookup, pairs_view, put};
use crate::manifest::opt_view;
use crate::names::{lemma_normalize_ascii_path_idempotent, normalize_exe_path, normalized_exe_path};
use crate::text::{
    chars_of, lemma_lower_trimmed_idempotent, lemma_trimmed_idempotent, lowercase_chars, string_of, trim_chars,
    trimmed,
};
use crate::unicode::{is_ascii_text, lowercase};

verus! {

/// The format version the cache file is written with.
pub const CACHE_VERSION: u32 = 1;

/// One cached resolution: the exe name, the resolved app name, optional
/// publisher and version details, where the name came from, and the day it
/// was saved.
pub struct CachedAppEntry {
    pub exe_name: String,
    pub app_name: String,
    pub company_name: Option<String>,
    pub product_version: Option<String>,
    pub source: String,
    pub saved_on: String,
}

/// The content of a `CachedAppEntry`.
pub struct CachedAppEntryView {
    pub exe_name: Seq<char>,
    pub app_name: Seq<char>,
    pub company_name: Option<Seq<char>>,
    pub product_version: Option<Seq<char>>,
    pub source: Seq<char>,
    pub saved_on: Seq<char>,
}

impl View for CachedAppEntry {
    type V = CachedAppEntryView;

    open spec fn view(&self) -> CachedAppEntryView {
        CachedAppEntryView {
            exe_name: self.exe_name@,
            app_name: self.app_name@,
            company_name: opt_view(self.company_name),
            product_version: opt_view(self.product_version),
            source: self.source@,
            saved_on: self.saved_on@,
        }
    }
}

fn clone_opt(o: &Option<String>) -> (r: Option<String>)
    ensures
        opt_view(r) == opt_view(*o),
{
    match o {
        Some(s) => Some(s.clone()),
        None => None,
    }
}

fn same_opt(a: &Option<String>, b: &Option<String>) -> (r: bool)
    ensures
        r == (opt_view(*a) == opt_view(*b)),
{
    match (a, b) {
        (Some(x), Some(y)) => crate::text::same_text(x.as_str(), y.as_str()),
        (None, None) => true,
        _ => false,
    }
}

impl CachedAppEntry {
    /// A copy of the entry.
    pub fn duplicate(&self) -> (r: CachedAppEntry)
        ensures
            r@ == self@,
    {
        CachedAppEntry {
            exe_name: self.exe_name.clone(),
            app_name: self.app_name.clone(),
            company_name: clone_opt(&self.company_name),
            product_version: clone_opt(&self.product_version),
            source: self.source.clone(),
            saved_on: self.saved_on.clone(),
        }
    }

    /// Whether two entries hold the same content.
    pub fn same_as(&self, other: &CachedAppEntry) -> (r: bool)
        ensures
            r == (self@ == other@),
    {
        self.exe_name == other.exe_name && self.app_name == other.app_name && same_opt(
            &self.company_name,
            &other.company_name,
        ) && same_opt(&self.product_version, &other.product_version) && self.source
            == other.source && self.saved_on == other.saved_on
    }
}

/// The cache file: its format version and the cached entries by identity.
pub struct AppNameCacheFile {
    pub version: u32,
    pub apps: Vec<(String, CachedAppEntry)>,
}

impl View for AppNameCacheFile {
    type V = Seq<(Seq<char>, CachedAppEntryView)>;

    open spec fn view(&self) -> Seq<(Seq<char>, CachedAppEntryView)> {
        pairs_view(self.apps@)
    }
}

impl Default for AppNameCacheFile {
    fn default() -> (r: AppNameCacheFile)
        ensures
            r.version == CACHE_VERSION,
            r@ == Seq::<(Seq<char>, CachedAppEntryView)>::empty(),
            r.wf(),
    {
        let r = AppNameCacheFile { version: CACHE_VERSION, apps: Vec::new() };
        assert(r@ =~= Seq::<(Seq<char>, CachedAppEntryView)>::empty());
        r
    }
}

impl AppNameCacheFile {
    /// No identity occurs twice.
    pub open spec fn wf(&self) -> bool {
        keys_unique(self@)
    }

    /// The number of cached identities.
    pub fn len(&self) -> (r: usize)
        ensures
            r == self@.len(),
    {
        self.apps.len()
    }

    /// The entry cached for `identity`.
    pub fn get(&self, identity: &str) -> (r: Option<&CachedAppEntry>)
        requires
            self.wf(),
        ensures
            match r {
                Some(e) => lookup(self@, identity@) == Some(e@),
                None => lookup(self@, identity@) is None,
            },
    {
        match find_key(&self.apps, identity) {
            Some(i) => {
                proof {
                    assert(self@[i as int] == (self.apps@[i as int].0@, self.apps@[i as int].1@));
                    lemma_lookup_at(self@, i as int);
                }
                Some(&self.apps[i].1)
            },
            None => None,
        }
    }

    /// Caches `entry` under `identity`, replacing an earlier entry in place.
    pub fn insert(&mut self, identity: String, entry: CachedAppEntry)
        requires
            old(self).wf(),
        ensures
            final(self).wf(),
            final(self)@ == put(old(self)@, identity@, entry@),
            final(self).version == old(self).version,
    {
        proof {
            lemma_put(self@, identity@, entry@);
        }
        match find_key(&self.apps, identity.as_str()) {
            Some(i) => {
                proof {
                    lemma_lookup_at(self@, i as int);
                }
                let ghost before = self@;
                let ghost kv = identity@;
                let ghost ev = entry@;
                self.apps.set(i, (identity, entry));
                assert(self@ =~= before.update(i as int, (kv, ev)));
            },
            None => {
                let ghost before = self@;
                let ghost kv = identity@;
                let ghost ev = entry@;
                self.apps.push((identity, entry));
                assert(self@ =~= before.push((kv, ev)));
            },
        }
    }

    /// The cached entries as identity/entry pairs, in order.
    pub fn to_pairs(&self) -> (r: Vec<(String, CachedAppEntry)>)
        ensures
            pairs_view(r@) == self@,
    {
        let mut out: Vec<(String, CachedAppEntry)> = Vec::new();
        let mut i: usize = 0;
        while i < self.apps.len()
            invariant
                i <= self.apps@.len(),
                pairs_view(out@) == pairs_view(self.apps@.take(i as int)),
            decreases self.apps@.len() - i,
        {
            let k = self.apps[i].0.clone();
            let e = self.apps[i].1.duplicate();
            let ghost before = out@;
            out.push((k, e));
            assert(pairs_view(out@) =~= pairs_view(before).push((k@, e@)));
            assert(self.apps@.take(i + 1) =~= self.apps@.take(i as int).push(self.apps@[i as int]));
            assert(pairs_view(self.apps@.take(i + 1)) =~= pairs_view(self.apps@.take(i as int)).push((k@, e@)));
            i += 1;
        }
        assert(self.apps@.take(self.apps@.len() as int) =~= self.apps@);
        out
    }
}

/// An optional detail trimmed, and dropped when blank.
pub open spec fn trimmed_detail(o: Option<Seq<char>>) -> Option<Seq<char>> {
    match o {
        Some(v) => if trimmed(v).len() > 0 {
            Some(trimmed(v))
        } else {
            None
        },
        None => None,
    }
}

/// Whether a loaded pair survives the clean-up: identity, exe name, app name
/// and source must not be blank once normalised.
pub open spec fn loaded_entry_usable(path: Seq<char>, e: CachedAppEntryView) -> bool {
    normalized_exe_path(path).len() > 0 && lowercase(trimmed(e.exe_name)).len() > 0 && trimmed(
        e.app_name,
    ).len() > 0 && trimmed(e.source).len() > 0
}

/// A loaded entry once cleaned: exe name trimmed and lowercased, names and
/// source trimmed, blank details dropped, and a blank save day replaced by `today`.
pub open spec fn cleaned_entry(e: CachedAppEntryView, today: Seq<char>) -> CachedAppEntryView {
    CachedAppEntryView {
        exe_name: lowercase(trimmed(e.exe_name)),
        app_name: trimmed(e.app_name),
        company_name: trimmed_detail(e.company_name),
        product_version: trimmed_detail(e.product_version),
        source: trimmed(e.source),
        saved_on: if trimmed(e.saved_on).len() == 0 {
            today
        } else {
            e.saved_on
        },
    }
}

/// The cache that a list of loaded pairs yields: each usable pair cleaned and
/// stored under its normalised identity, a later pair overriding an earlier one.
pub open spec fn cleaned_cache(pairs: Seq<(Seq<char>, CachedAppEntryView)>, today: Seq<char>) -> Seq<(Seq<char>, CachedAppEntryView)>
    decreases pairs.len(),
{
    if pairs.len() == 0 {
        Seq::empty()
    } else {
        let prev = cleaned_cache(pairs.drop_last(), today);
        let (path, e) = pairs.last();
        if loaded_entry_usable(path, e) {
            put(prev, normalized_exe_path(path), cleaned_entry(e, today))
        } else {
            prev
        }
    }
}

/// Whether a stored pair is its own clean-up: its identity is normalised, it
/// is usable, and cleaning its entry changes nothing.
pub open spec fn clean_pair(p: (Seq<char>, CachedAppEntryView), today: Seq<char>) -> bool {
    &&& normalized_exe_path(p.0) == p.0
    &&& loaded_entry_usable(p.0, p.1)
    &&& cleaned_entry(p.1, today) == p.1
}

/// Whether every stored pair is its own clean-up, and no identity repeats.
pub open spec fn clean_cache(m: Seq<(Seq<char>, CachedAppEntryView)>, today: Seq<char>) -> bool {
    &&& keys_unique(m)
    &&& forall|i: int| 0 <= i < m.len() ==> clean_pair(#[trigger] m[i], today)
}

/// Whether every loaded path and exe name is ASCII text.
pub open spec fn ascii_pairs(pairs: Seq<(Seq<char>, CachedAppEntryView)>) -> bool {
    forall|i: int| 0 <= i < pairs.len() ==> is_ascii_text(#[trigger] pairs[i].0) && is_ascii_text(pairs[i].1.exe_name)
}

proof fn lemma_trimmed_detail_idempotent(o: Option<Seq<char>>)
    ensures
        trimmed_detail(trimmed_detail(o)) == trimmed_detail(o),
{
    if let Some(v) = o {
        lemma_trimmed_idempotent(v);
    }
}

/// A usable ASCII pair, once cleaned, is its own clean-up.
proof fn lemma_cleaned_pair_is_clean(path: Seq<char>, e: CachedAppEntryView, today: Seq<char>)
    requires
        is_ascii_text(path),
        is_ascii_text(e.exe_name),
        loaded_entry_usable(path, e),
    ensures
        clean_pair((normalized_exe_path(path), cleaned_entry(e, today)), today),
{
    lemma_normalize_ascii_path_idempotent(path);
    lemma_lower_trimmed_idempotent(e.exe_name);
    lemma_trimmed_idempotent(e.app_name);
    lemma_trimmed_idempotent(e.source);
    lemma_trimmed_detail_idempotent(e.company_name);
    lemma_trimmed_detail_idempotent(e.product_version);
    let c = cleaned_entry(e, today);
    assert(cleaned_entry(c, today) == c);
}

/// Cached names survive a restart, for paths and names in any script: a
/// cache whose identities and entries are already in the form a clean-up
/// gives them (and that repeats no identity) is read back unchanged.
pub proof fn lemma_clean_cache_fixed(m: Seq<(Seq<char>, CachedAppEntryView)>, today: Seq<char>)
    requires
        clean_cache(m, today),
    ensures
        cleaned_cache(m, today) == m,
    decreases m.len(),
{
    if m.len() > 0 {
        let init = m.drop_last();
        assert(clean_pair(m[m.len() - 1], today));
        assert(clean_cache(init, today)) by {
            assert forall|i: int| 0 <= i < init.len() implies clean_pair(#[trigger] init[i], today) by {
                assert(init[i] == m[i]);
            }
        }
        lemma_clean_cache_fixed(init, today);
        let (k, e) = m.last();
        assert(!has_key(init, k)) by {
            if has_key(init, k) {
                let j = key_index(init, k);
                assert(m[j].0 != m[m.len() - 1].0);
            }
        }
        assert(init.push((k, e)) =~= m);
    }
}

/// Cleaning keeps a cache clean.
proof fn lemma_cleaned_cache_is_clean(pairs: Seq<(Seq<char>, CachedAppEntryView)>, today: Seq<char>)
    requires
        ascii_pairs(pairs),
    ensures
        clean_cache(cleaned_cache(pairs, today), today),
    decreases pairs.len(),
{
    if pairs.len() > 0 {
        let init = pairs.drop_last();
        assert(ascii_pairs(init)) by {
            assert forall|i: int| 0 <= i < init.len() implies is_ascii_text(#[trigger] init[i].0) && is_ascii_text(init[i].1.exe_name) by {
                assert(init[i] == pairs[i]);
            }
        }
        lemma_cleaned_cache_is_clean(init, today);
        let prev = cleaned_cache(init, today);
        let (path, e) = pairs.last();
        assert(is_ascii_text(pairs[pairs.len() - 1].0) && is_ascii_text(pairs[pairs.len() - 1].1.exe_name));
        if loaded_entry_usable(path, e) {
            let k = normalized_exe_path(path);
            let c = cleaned_entry(e, today);
            lemma_cleaned_pair_is_clean(path, e, today);
            lemma_put(prev, k, c);
            let r = put(prev, k, c);
            assert forall|i: int| 0 <= i < r.len() implies clean_pair(#[trigger] r[i], today) by {
                if has_key(prev, k) {
                    if i != key_index(prev, k) {
                        assert(r[i] == prev[i]);
                    }
                } else if i < prev.len() {
                    assert(r[i] == prev[i]);
                }
            }
        }
    }
}

/// Writing a cleaned cache and reading it back gives the same cache:
/// cleaning what a clean-up produced changes nothing, for ASCII paths and
/// exe names.
pub proof fn lemma_cleaned_cache_round_trip(pairs: Seq<(Seq<char>, CachedAppEntryView)>, today: Seq<char>)
    requires
        ascii_pairs(pairs),
    ensures
        cleaned_cache(cleaned_cache(pairs, today), today) == cleaned_cache(pairs, today),
{
    lemma_cleaned_cache_is_clean(pairs, today);
    lemma_clean_cache_fixed(cleaned_cache(pairs, today), today);
}

fn trim_detail(o: &Option<String>) -> (r: Option<String>)
    ensures
        opt_view(r) == trimmed_detail(opt_view(*o)),
{
    match o {
        Some(s) => {
            let v = chars_of(s.as_str());
            let t = trim_chars(&v);
            if t.len() > 0 {
                Some(string_of(&t))
            } else {
                None
            }
        },
        None => None,
    }
}

/// Cleans a cache read back from disk: the version becomes the current one,
/// identities are normalised, blank entries are dropped and the rest are
/// cleaned, a later pair overriding an earlier one for the same identity.
pub fn clean_loaded_cache(apps: Vec<(String, CachedAppEntry)>, today: &str) -> (r: AppNameCacheFile)
    ensures
        r.wf(),
        r.version == CACHE_VERSION,
        r@ == cleaned_cache(pairs_view(apps@), today@),
{
    let mut cache = AppNameCacheFile::default();
    let ghost pv = pairs_view(apps@);
    assert(pv.take(0) =~= Seq::<(Seq<char>, CachedAppEntryView)>::empty());
    let mut i: usize = 0;
    while i < apps.len()
        invariant
            i <= apps@.len(),
            pv == pairs_view(apps@),
            cache.wf(),
            cache.version == CACHE_VERSION,
            cache@ == cleaned_cache(pv.take(i as int), today@),
        decreases apps@.len() - i,
    {
        let (path, e) = (&apps[i].0, &apps[i].1);
        assert(pv.take(i + 1).drop_last() =~= pv.take(i as int));
        assert(pv.take(i + 1).last() == (path@, e@));
        let identity = normalize_exe_path(path.as_str());
        let exe_chars = chars_of(e.exe_name.as_str());
        let exe_trimmed = trim_chars(&exe_chars);
        let exe_name = lowercase_chars(&exe_trimmed);
        let app_chars = chars_of(e.app_name.as_str());
        let app_name = trim_chars(&app_chars);
        let source_chars = chars_of(e.source.as_str());
        let source = trim_chars(&source_chars);
        if identity.unicode_len() > 0 && exe_name.len() > 0 && app_name.len() > 0 && source.len() > 0 {
            let saved_chars = chars_of(e.saved_on.as_str());
            let saved_trimmed = trim_chars(&saved_chars);
            let saved_on = if saved_trimmed.len() == 0 {
                String::from_str(today)
            } else {
                e.saved_on.clone()
            };
            let entry = CachedAppEntry {
                exe_name: string_of(&exe_name),
                app_name: string_of(&app_name),
                company_name: trim_detail(&e.company_name),
                product_version: trim_detail(&e.product_version),
                source: string_of(&source),
                saved_on,
            };
            assert(entry@ == cleaned_entry(e@, today@));
            cache.insert(identity, entry);
        }
        i += 1;
    }
    assert(pv.take(apps@.len() as int) =~= pv);
    cache
}

} // verus!
