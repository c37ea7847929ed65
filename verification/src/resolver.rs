//! Resolving an executable path into its identity, exe name and display name.
//!
//! Names are looked for in this order: the user's exe labels, the cache of
//! earlier resolutions, the executable's package manifest, its version
//! information, and finally the prettified exe name. Reading the manifest and
//! the version information is the caller's part: `lookup_known` says whether
//! that is needed, and `resolve_with_appx_manifest`,
//! `resolve_with_version_info` and `resolve_fallback` take what was read.
//! `resolve_app_name` is the whole chain for metadata already at hand.
use vstd::prelude::*;

use crate::cache::{AppNameCacheFile, CachedAppEntry, CachedAppEntryView, CACHE_VERSION};
use crate::labels::{
    keys_unique, label_for, lemma_put, lookup, lookup_exe_label, normalize_exe_name_map,
    normalized_labels, pairs_view, put, ExeLabels,
};
use crate::manifest::{opt_view, AppxManifestMetadata};
use crate::names::{
    exe_name_from_path, exe_name_of, is_valid_appx_display_name, is_valid_product_name,
    lemma_normalize_ascii_path_idempotent,
    normalize_exe_path, normalized_exe_path, prettified, prettify_exe_name,
    valid_appx_display_name, valid_product_name,
};
use crate::text::{trim, trimmed};
use crate::unicode::is_ascii_text;
use crate::versioninfo::VersionMetadata;

verus! {

/// Seconds a changed cache waits before it is written.
pub const CACHE_SAVE_DEBOUNCE_SECS: u64 = 10;

/// An executable resolved: the identity its usage is tracked under, its exe
/// name, and the name shown for it.
pub struct ResolvedApp {
    pub identity: String,
    pub exe_name: String,
    pub app_name: String,
}

/// The content of a `ResolvedApp`.
pub struct ResolvedAppView {
    pub identity: Seq<char>,
    pub exe_name: Seq<char>,
    pub app_name: Seq<char>,
}

impl View for ResolvedApp {
    type V = ResolvedAppView;

    open spec fn view(&self) -> ResolvedAppView {
        ResolvedAppView { identity: self.identity@, exe_name: self.exe_name@, app_name: self.app_name@ }
    }
}

impl View for VersionMetadata {
    type V = (Option<Seq<char>>, Option<Seq<char>>, Option<Seq<char>>);

    open spec fn view(&self) -> (Option<Seq<char>>, Option<Seq<char>>, Option<Seq<char>>) {
        (opt_view(self.product_name), opt_view(self.company_name), opt_view(self.product_version))
    }
}

impl View for AppxManifestMetadata {
    type V = (Option<Seq<char>>, Option<Seq<char>>, Option<Seq<char>>);

    open spec fn view(&self) -> (Option<Seq<char>>, Option<Seq<char>>, Option<Seq<char>>) {
        (
            opt_view(self.display_name),
            opt_view(self.publisher_display_name),
            opt_view(self.identity_name),
        )
    }
}

/// The view of optional metadata.
pub open spec fn metadata_view<M: View>(m: Option<M>) -> Option<M::V> {
    match m {
        Some(x) => Some(x@),
        None => None,
    }
}

/// What the resolver holds: the user's labels, the cache, the cache's
/// format version, and whether (and since when) the cache has unsaved changes.
pub struct ResolverView {
    pub labels: Seq<(Seq<char>, Seq<char>)>,
    pub cache: Seq<(Seq<char>, CachedAppEntryView)>,
    pub cache_version: u32,
    pub dirty: bool,
    pub dirty_since: Option<u64>,
}

/// The first step of resolving a path.
pub enum ResolveLookup {
    /// A user label or a cached entry gave the name.
    Known(ResolvedApp),
    /// Neither did; the metadata of the executable is needed.
    Unknown { identity: String, exe_name: String },
}

/// The second field of optional metadata.
pub open spec fn second_detail(m: Option<(Option<Seq<char>>, Option<Seq<char>>, Option<Seq<char>>)>) -> Option<Seq<char>> {
    match m {
        Some((_, b, _)) => b,
        None => None,
    }
}

/// The third field of optional metadata.
pub open spec fn third_detail(m: Option<(Option<Seq<char>>, Option<Seq<char>>, Option<Seq<char>>)>) -> Option<Seq<char>> {
    match m {
        Some((_, _, c)) => c,
        None => None,
    }
}

/// The exe name of an identity: its file name, or the identity itself when it has none.
pub open spec fn exe_name_for(identity: Seq<char>) -> Seq<char> {
    match exe_name_of(identity) {
        Some(n) => n,
        None => identity,
    }
}

/// The name that version information gives, when its product name is usable.
pub open spec fn version_info_name(m: Option<(Option<Seq<char>>, Option<Seq<char>>, Option<Seq<char>>)>, exe_name: Seq<char>) -> Option<Seq<char>> {
    match m {
        Some((Some(p), _, _)) => if valid_product_name(p, exe_name) {
            Some(trimmed(p))
        } else {
            None
        },
        _ => None,
    }
}

/// The name that a package manifest gives, when its display name is usable.
pub open spec fn appx_name(m: Option<(Option<Seq<char>>, Option<Seq<char>>, Option<Seq<char>>)>, exe_name: Seq<char>) -> Option<Seq<char>> {
    match m {
        Some((Some(d), _, _)) => if valid_appx_display_name(d, exe_name) {
            Some(trimmed(d))
        } else {
            None
        },
        _ => None,
    }
}

/// The cache entry recorded for a resolution.
pub open spec fn resolution_entry(
    exe_name: Seq<char>,
    app_name: Seq<char>,
    detail_a: Option<Seq<char>>,
    detail_b: Option<Seq<char>>,
    source: Seq<char>,
    today: Seq<char>,
) -> CachedAppEntryView {
    CachedAppEntryView {
        exe_name,
        app_name,
        company_name: detail_a,
        product_version: detail_b,
        source,
        saved_on: today,
    }
}

/// Caching `entry` under `identity`: nothing changes when the same entry is
/// already there; otherwise it is stored and the cache is marked changed at `now`.
pub open spec fn store_resolution(s: ResolverView, identity: Seq<char>, entry: CachedAppEntryView, now: u64) -> ResolverView {
    if lookup(s.cache, identity) == Some(entry) {
        s
    } else {
        ResolverView { cache: put(s.cache, identity, entry), dirty: true, dirty_since: Some(now), ..s }
    }
}

/// The name a label or the cache gives, without any metadata.
pub open spec fn known_resolution(s: ResolverView, path: Seq<char>) -> Option<ResolvedAppView> {
    let identity = normalized_exe_path(path);
    let exe = exe_name_for(identity);
    match label_for(s.labels, exe) {
        Some(name) => Some(ResolvedAppView { identity, exe_name: exe, app_name: name }),
        None => match lookup(s.cache, identity) {
            Some(e) => Some(ResolvedAppView { identity, exe_name: e.exe_name, app_name: e.app_name }),
            None => None,
        },
    }
}

/// Resolving `path` given the metadata read for it, the day `today` and the
/// monotonic time `now`: the resolver after the call and the result.
pub open spec fn resolve_spec(
    s: ResolverView,
    path: Seq<char>,
    version: Option<(Option<Seq<char>>, Option<Seq<char>>, Option<Seq<char>>)>,
    appx: Option<(Option<Seq<char>>, Option<Seq<char>>, Option<Seq<char>>)>,
    today: Seq<char>,
    now: u64,
) -> (ResolverView, ResolvedAppView) {
    let identity = normalized_exe_path(path);
    let exe = exe_name_for(identity);
    match known_resolution(s, path) {
        Some(r) => (s, r),
        None => match appx_name(appx, exe) {
            Some(name) => (
                store_resolution(s, identity, resolution_entry(exe, name, second_detail(appx), third_detail(appx), "appx_manifest"@, today), now),
                ResolvedAppView { identity, exe_name: exe, app_name: name },
            ),
            None => match version_info_name(version, exe) {
                Some(name) => (
                    store_resolution(s, identity, resolution_entry(exe, name, second_detail(version), third_detail(version), "version_info"@, today), now),
                    ResolvedAppView { identity, exe_name: exe, app_name: name },
                ),
                None => (
                    store_resolution(s, identity, resolution_entry(exe, prettified(exe), None, None, "fallback"@, today), now),
                    ResolvedAppView { identity, exe_name: exe, app_name: prettified(exe) },
                ),
            },
        },
    }
}

/// A usable package manifest name comes before the version information: when
/// neither a label nor the cache decides, it is the name, and it is cached
/// with source `appx_manifest`, whatever the version information says.
pub proof fn lemma_manifest_before_version_info(
    s: ResolverView,
    path: Seq<char>,
    version: Option<(Option<Seq<char>>, Option<Seq<char>>, Option<Seq<char>>)>,
    appx: Option<(Option<Seq<char>>, Option<Seq<char>>, Option<Seq<char>>)>,
    today: Seq<char>,
    now: u64,
    name: Seq<char>,
)
    requires
        known_resolution(s, path) is None,
        appx_name(appx, exe_name_for(normalized_exe_path(path))) == Some(name),
    ensures
        resolve_spec(s, path, version, appx, today, now).1.app_name == name,
        resolve_spec(s, path, version, appx, today, now).0 == store_resolution(
            s,
            normalized_exe_path(path),
            resolution_entry(
                exe_name_for(normalized_exe_path(path)),
                name,
                second_detail(appx),
                third_detail(appx),
                "appx_manifest"@,
                today,
            ),
            now,
        ),
{
}

/// A user's exe label always decides the name, whatever the cache holds and
/// whatever metadata was read, and then nothing is cached.
pub proof fn lemma_user_label_wins(
    s: ResolverView,
    path: Seq<char>,
    version: Option<(Option<Seq<char>>, Option<Seq<char>>, Option<Seq<char>>)>,
    appx: Option<(Option<Seq<char>>, Option<Seq<char>>, Option<Seq<char>>)>,
    today: Seq<char>,
    now: u64,
    name: Seq<char>,
)
    requires
        label_for(s.labels, exe_name_for(normalized_exe_path(path))) == Some(name),
    ensures
        resolve_spec(s, path, version, appx, today, now).0 == s,
        resolve_spec(s, path, version, appx, today, now).1.app_name == name,
{
}

/// The identity of a path depends on the path alone: labels, cache and
/// metadata never change which history a session is counted in.
pub proof fn lemma_identity_is_path_only(
    s1: ResolverView,
    s2: ResolverView,
    path: Seq<char>,
    version1: Option<(Option<Seq<char>>, Option<Seq<char>>, Option<Seq<char>>)>,
    appx1: Option<(Option<Seq<char>>, Option<Seq<char>>, Option<Seq<char>>)>,
    version2: Option<(Option<Seq<char>>, Option<Seq<char>>, Option<Seq<char>>)>,
    appx2: Option<(Option<Seq<char>>, Option<Seq<char>>, Option<Seq<char>>)>,
    today1: Seq<char>,
    today2: Seq<char>,
    now1: u64,
    now2: u64,
)
    ensures
        resolve_spec(s1, path, version1, appx1, today1, now1).1.identity == normalized_exe_path(path),
        resolve_spec(s1, path, version1, appx1, today1, now1).1.identity
            == resolve_spec(s2, path, version2, appx2, today2, now2).1.identity,
{
}

/// Resolving a path a second time gives the same result and changes nothing,
/// whatever metadata is read then: the first resolution is reused from the
/// cache (or the label still applies).
pub proof fn lemma_resolution_is_stable(
    s: ResolverView,
    path: Seq<char>,
    version1: Option<(Option<Seq<char>>, Option<Seq<char>>, Option<Seq<char>>)>,
    appx1: Option<(Option<Seq<char>>, Option<Seq<char>>, Option<Seq<char>>)>,
    version2: Option<(Option<Seq<char>>, Option<Seq<char>>, Option<Seq<char>>)>,
    appx2: Option<(Option<Seq<char>>, Option<Seq<char>>, Option<Seq<char>>)>,
    today1: Seq<char>,
    today2: Seq<char>,
    now1: u64,
    now2: u64,
)
    requires
        keys_unique(s.cache),
    ensures
        ({
            let (s1, r1) = resolve_spec(s, path, version1, appx1, today1, now1);
            let (s2, r2) = resolve_spec(s1, path, version2, appx2, today2, now2);
            s2 == s1 && r2 == r1
        }),
{
    let identity = normalized_exe_path(path);
    let exe = exe_name_for(identity);
    let (s1, r1) = resolve_spec(s, path, version1, appx1, today1, now1);
    if known_resolution(s, path) is None {
        let entry = if appx_name(appx1, exe) is Some {
            resolution_entry(exe, appx_name(appx1, exe)->0, second_detail(appx1), third_detail(appx1), "appx_manifest"@, today1)
        } else if version_info_name(version1, exe) is Some {
            resolution_entry(exe, version_info_name(version1, exe)->0, second_detail(version1), third_detail(version1), "version_info"@, today1)
        } else {
            resolution_entry(exe, prettified(exe), None, None, "fallback"@, today1)
        };
        assert(s1 == store_resolution(s, identity, entry, now1));
        lemma_put(s.cache, identity, entry);
        assert(lookup(s1.cache, identity) == Some(entry));
        assert(s1.labels == s.labels);
    }
}

/// Resolving one path leaves the cached entries of every other identity as
/// they were, and keeps cache keys unique.
pub proof fn lemma_resolution_keeps_other_entries(
    s: ResolverView,
    path: Seq<char>,
    version: Option<(Option<Seq<char>>, Option<Seq<char>>, Option<Seq<char>>)>,
    appx: Option<(Option<Seq<char>>, Option<Seq<char>>, Option<Seq<char>>)>,
    today: Seq<char>,
    now: u64,
    other: Seq<char>,
)
    requires
        keys_unique(s.cache),
        other != normalized_exe_path(path),
    ensures
        keys_unique(resolve_spec(s, path, version, appx, today, now).0.cache),
        lookup(resolve_spec(s, path, version, appx, today, now).0.cache, other) == lookup(s.cache, other),
        resolve_spec(s, path, version, appx, today, now).0.labels == s.labels,
{
    let identity = normalized_exe_path(path);
    let exe = exe_name_for(identity);
    if known_resolution(s, path) is None {
        let entry = if appx_name(appx, exe) is Some {
            resolution_entry(exe, appx_name(appx, exe)->0, second_detail(appx), third_detail(appx), "appx_manifest"@, today)
        } else if version_info_name(version, exe) is Some {
            resolution_entry(exe, version_info_name(version, exe)->0, second_detail(version), third_detail(version), "version_info"@, today)
        } else {
            resolution_entry(exe, prettified(exe), None, None, "fallback"@, today)
        };
        lemma_put(s.cache, identity, entry);
    }
}

/// Resolving an ASCII path's identity in place of the path gives the same
/// result and the same resolver: a tracked identity names the app it was
/// resolved from.
pub proof fn lemma_identity_resolves_like_path(
    s: ResolverView,
    path: Seq<char>,
    version: Option<(Option<Seq<char>>, Option<Seq<char>>, Option<Seq<char>>)>,
    appx: Option<(Option<Seq<char>>, Option<Seq<char>>, Option<Seq<char>>)>,
    today: Seq<char>,
    now: u64,
)
    requires
        is_ascii_text(path),
    ensures
        resolve_spec(s, normalized_exe_path(path), version, appx, today, now) == resolve_spec(
            s,
            path,
            version,
            appx,
            today,
            now,
        ),
{
    lemma_normalize_ascii_path_idempotent(path);
}

/// Resolves executable paths into identities and display names.
pub struct AppNameResolver {
    cache_path: String,
    user_exe_names: ExeLabels,
    cache: AppNameCacheFile,
    dirty: bool,
    dirty_since: Option<u64>,
}

impl View for AppNameResolver {
    type V = ResolverView;

    closed spec fn view(&self) -> ResolverView {
        ResolverView {
            labels: self.user_exe_names@,
            cache: self.cache@,
            cache_version: self.cache.version,
            dirty: self.dirty,
            dirty_since: self.dirty_since,
        }
    }
}

fn clone_opt(o: &Option<String>) -> (r: Option<String>)
    ensures
        opt_view(r) == opt_view(*o),
{
    match o {
        Some(s) => Some(s.clone()),
        None => None,
    }
}

impl AppNameResolver {
    /// Neither the labels nor the cache repeat a key.
    pub closed spec fn wf(&self) -> bool {
        self.user_exe_names.wf() && self.cache.wf()
    }

    /// The path the cache is written to.
    pub closed spec fn cache_path_spec(&self) -> Seq<char> {
        self.cache_path@
    }

    /// A well-formed resolver's cache repeats no identity, so that
    /// `lemma_resolution_is_stable` applies to every resolver that a caller
    /// can hold.
    pub proof fn lemma_wf_cache_keys_unique(&self)
        requires
            self.wf(),
        ensures
            keys_unique(self@.cache),
    {
    }

    /// On any well-formed resolver, resolving a path twice in a row gives the
    /// same app both times, and the second call leaves the labels, the cache,
    /// the dirty flag and the time it was set as the first call left them.
    pub proof fn lemma_repeat_resolution_changes_nothing(
        &self,
        path: Seq<char>,
        version1: Option<(Option<Seq<char>>, Option<Seq<char>>, Option<Seq<char>>)>,
        appx1: Option<(Option<Seq<char>>, Option<Seq<char>>, Option<Seq<char>>)>,
        version2: Option<(Option<Seq<char>>, Option<Seq<char>>, Option<Seq<char>>)>,
        appx2: Option<(Option<Seq<char>>, Option<Seq<char>>, Option<Seq<char>>)>,
        today1: Seq<char>,
        today2: Seq<char>,
        now1: u64,
        now2: u64,
    )
        requires
            self.wf(),
        ensures
            ({
                let (s1, r1) = resolve_spec(self@, path, version1, appx1, today1, now1);
                let (s2, r2) = resolve_spec(s1, path, version2, appx2, today2, now2);
                s2 == s1 && r2 == r1
            }),
    {
        lemma_resolution_is_stable(self@, path, version1, appx1, version2, appx2, today1, today2, now1, now2);
    }

    /// A resolver over a cache already read and cleaned, with the user's exe
    /// labels normalised.
    pub fn new(cache_path: String, user_exe_names: Vec<(String, String)>, cache: AppNameCacheFile) -> (r: AppNameResolver)
        requires
            cache.wf(),
        ensures
            r.wf(),
            r@.labels == normalized_labels(pairs_view(user_exe_names@)),
            r@.cache == cache@,
            r@.cache_version == cache.version,
            !r@.dirty,
            r@.dirty_since is None,
            r.cache_path_spec() == cache_path@,
    {
        AppNameResolver {
            cache_path,
            user_exe_names: normalize_exe_name_map(user_exe_names),
            cache,
            dirty: false,
            dirty_since: None,
        }
    }

    /// The path the cache is written to.
    pub fn cache_path(&self) -> (r: &String)
        ensures
            r@ == self.cache_path_spec(),
    {
        &self.cache_path
    }

    /// Replaces the user's exe labels, normalised.
    pub fn set_user_exe_names(&mut self, exe_names: Vec<(String, String)>)
        requires
            old(self).wf(),
        ensures
            final(self).wf(),
            final(self)@ == (ResolverView { labels: normalized_labels(pairs_view(exe_names@)), ..old(self)@ }),
            final(self).cache_path_spec() == old(self).cache_path_spec(),
    {
        self.user_exe_names = normalize_exe_name_map(exe_names);
    }

    /// The first step of resolving `exe_path`: its identity and exe name, and
    /// the name a user label or the cache gives, if any.
    pub fn lookup_known(&self, exe_path: &str) -> (r: ResolveLookup)
        requires
            self.wf(),
        ensures
            match r {
                ResolveLookup::Known(app) => known_resolution(self@, exe_path@) == Some(app@),
                ResolveLookup::Unknown { identity, exe_name } => known_resolution(self@, exe_path@) is None
                    && identity@ == normalized_exe_path(exe_path@) && exe_name@ == exe_name_for(identity@),
            },
    {
        let identity = normalize_exe_path(exe_path);
        let exe_name = match exe_name_from_path(identity.as_str()) {
            Some(n) => n,
            None => identity.clone(),
        };
        if let Some(app_name) = lookup_exe_label(&self.user_exe_names, exe_name.as_str()) {
            return ResolveLookup::Known(ResolvedApp { identity, exe_name, app_name });
        }
        match self.cache.get(identity.as_str()) {
            Some(entry) => ResolveLookup::Known(
                ResolvedApp { identity, exe_name: entry.exe_name.clone(), app_name: entry.app_name.clone() },
            ),
            None => ResolveLookup::Unknown { identity, exe_name },
        }
    }

    /// Records a resolution in the cache, marking the cache changed at `now`
    /// unless the same entry is already there.
    fn cache_resolved_name(
        &mut self,
        identity: &str,
        exe_name: &str,
        app_name: &str,
        company_name: Option<String>,
        product_version: Option<String>,
        source: &str,
        today: &str,
        now: u64,
    )
        requires
            old(self).wf(),
        ensures
            final(self).wf(),
            final(self)@ == store_resolution(
                old(self)@,
                identity@,
                resolution_entry(exe_name@, app_name@, opt_view(company_name), opt_view(product_version), source@, today@),
                now,
            ),
            final(self).cache_path_spec() == old(self).cache_path_spec(),
    {
        let entry = CachedAppEntry {
            exe_name: String::from_str(exe_name),
            app_name: String::from_str(app_name),
            company_name,
            product_version,
            source: String::from_str(source),
            saved_on: String::from_str(today),
        };
        let needs_update = match self.cache.get(identity) {
            Some(existing) => !existing.same_as(&entry),
            None => true,
        };
        if needs_update {
            self.cache.insert(String::from_str(identity), entry);
            self.dirty = true;
            self.dirty_since = Some(now);
        }
    }

    /// The step after an unusable package manifest: when the version
    /// information carries a usable product name, that trimmed name is cached (source
    /// `version_info`, with the company name and product version) and returned.
    pub fn resolve_with_version_info(
        &mut self,
        identity: &str,
        exe_name: &str,
        metadata: Option<VersionMetadata>,
        today: &str,
        now: u64,
    ) -> (r: Option<ResolvedApp>)
        requires
            old(self).wf(),
        ensures
            final(self).wf(),
            final(self).cache_path_spec() == old(self).cache_path_spec(),
            match version_info_name(metadata_view(metadata), exe_name@) {
                Some(name) => r matches Some(app) && app@ == (ResolvedAppView { identity: identity@, exe_name: exe_name@, app_name: name })
                    && final(self)@ == store_resolution(old(self)@, identity@,
                        resolution_entry(exe_name@, name, second_detail(metadata_view(metadata)), third_detail(metadata_view(metadata)), "version_info"@, today@), now),
                None => r is None && final(self)@ == old(self)@,
            },
    {
        if let Some(m) = metadata {
            if let Some(product_name) = &m.product_name {
                if is_valid_product_name(product_name.as_str(), exe_name) {
                    let app_name = trim(product_name.as_str());
                    let ghost company = opt_view(m.company_name);
                    let ghost version = opt_view(m.product_version);
                    self.cache_resolved_name(identity, exe_name, app_name.as_str(), m.company_name, m.product_version, "version_info", today, now);
                    return Some(ResolvedApp {
                        identity: String::from_str(identity),
                        exe_name: String::from_str(exe_name),
                        app_name,
                    });
                }
            }
        }
        None
    }

    /// The step after an unknown lookup: when the package manifest carries a
    /// usable display name, that trimmed name is cached
    /// (source `appx_manifest`, with the publisher and identity names) and returned.
    pub fn resolve_with_appx_manifest(
        &mut self,
        identity: &str,
        exe_name: &str,
        metadata: Option<AppxManifestMetadata>,
        today: &str,
        now: u64,
    ) -> (r: Option<ResolvedApp>)
        requires
            old(self).wf(),
        ensures
            final(self).wf(),
            final(self).cache_path_spec() == old(self).cache_path_spec(),
            match appx_name(metadata_view(metadata), exe_name@) {
                Some(name) => r matches Some(app) && app@ == (ResolvedAppView { identity: identity@, exe_name: exe_name@, app_name: name })
                    && final(self)@ == store_resolution(old(self)@, identity@,
                        resolution_entry(exe_name@, name, second_detail(metadata_view(metadata)), third_detail(metadata_view(metadata)), "appx_manifest"@, today@), now),
                None => r is None && final(self)@ == old(self)@,
            },
    {
        if let Some(m) = metadata {
            if let Some(display_name) = &m.display_name {
                if is_valid_appx_display_name(display_name.as_str(), exe_name) {
                    let app_name = trim(display_name.as_str());
                    self.cache_resolved_name(identity, exe_name, app_name.as_str(), m.publisher_display_name, m.identity_name, "appx_manifest", today, now);
                    return Some(ResolvedApp {
                        identity: String::from_str(identity),
                        exe_name: String::from_str(exe_name),
                        app_name,
                    });
                }
            }
        }
        None
    }

    /// The last step: the prettified exe name is cached (source `fallback`)
    /// and returned.
    pub fn resolve_fallback(&mut self, identity: &str, exe_name: &str, today: &str, now: u64) -> (r: ResolvedApp)
        requires
            old(self).wf(),
        ensures
            final(self).wf(),
            final(self).cache_path_spec() == old(self).cache_path_spec(),
            r@ == (ResolvedAppView { identity: identity@, exe_name: exe_name@, app_name: prettified(exe_name@) }),
            final(self)@ == store_resolution(old(self)@, identity@,
                resolution_entry(exe_name@, prettified(exe_name@), None, None, "fallback"@, today@), now),
    {
        let fallback = prettify_exe_name(exe_name);
        self.cache_resolved_name(identity, exe_name, fallback.as_str(), None, None, "fallback", today, now);
        ResolvedApp { identity: String::from_str(identity), exe_name: String::from_str(exe_name), app_name: fallback }
    }

    /// Resolves `exe_path`, given the version information and package
    /// manifest read for it, on the day `today` at the monotonic time `now`.
    pub fn resolve_app_name(
        &mut self,
        exe_path: &str,
        version: Option<VersionMetadata>,
        appx: Option<AppxManifestMetadata>,
        today: &str,
        now: u64,
    ) -> (r: ResolvedApp)
        requires
            old(self).wf(),
        ensures
            final(self).wf(),
            final(self).cache_path_spec() == old(self).cache_path_spec(),
            (final(self)@, r@) == resolve_spec(old(self)@, exe_path@, metadata_view(version), metadata_view(appx), today@, now),
    {
        match self.lookup_known(exe_path) {
            ResolveLookup::Known(app) => app,
            ResolveLookup::Unknown { identity, exe_name } => {
                if let Some(app) = self.resolve_with_appx_manifest(identity.as_str(), exe_name.as_str(), appx, today, now) {
                    return app;
                }
                if let Some(app) = self.resolve_with_version_info(identity.as_str(), exe_name.as_str(), version, today, now) {
                    return app;
                }
                self.resolve_fallback(identity.as_str(), exe_name.as_str(), today, now)
            },
        }
    }

    /// Whether the cache has unsaved changes.
    pub fn is_dirty(&self) -> (r: bool)
        ensures
            r == self@.dirty,
    {
        self.dirty
    }

    /// Whether the cache is due to be written at the monotonic time `now`:
    /// it has unsaved changes, made at least ten seconds before.
    pub fn flush_if_due(&self, now: u64) -> (r: bool)
        ensures
            r == (self@.dirty && match self@.dirty_since {
                Some(t) => t <= now && now - t >= CACHE_SAVE_DEBOUNCE_SECS,
                None => false,
            }),
    {
        if !self.dirty {
            return false;
        }
        match self.dirty_since {
            Some(t) => t <= now && now - t >= CACHE_SAVE_DEBOUNCE_SECS,
            None => false,
        }
    }

    /// When the cache has unsaved changes, stamps it with the current format
    /// version and returns a copy to write; the caller writes it and then
    /// calls `mark_saved`. Without changes nothing is returned or changed.
    pub fn save_if_dirty(&mut self) -> (r: Option<AppNameCacheFile>)
        requires
            old(self).wf(),
        ensures
            final(self).wf(),
            final(self).cache_path_spec() == old(self).cache_path_spec(),
            old(self)@.dirty ==> final(self)@ == (ResolverView { cache_version: CACHE_VERSION, ..old(self)@ }),
            old(self)@.dirty ==> (r matches Some(c) && c.version == CACHE_VERSION && c@ == old(self)@.cache && c.wf()),
            !old(self)@.dirty ==> final(self)@ == old(self)@ && r is None,
    {
        if !self.dirty {
            return None;
        }
        self.cache.version = CACHE_VERSION;
        Some(AppNameCacheFile { version: CACHE_VERSION, apps: self.cache.to_pairs() })
    }

    /// Records that the cache was written: no unsaved changes remain.
    pub fn mark_saved(&mut self)
        requires
            old(self).wf(),
        ensures
            final(self).wf(),
            final(self).cache_path_spec() == old(self).cache_path_spec(),
            final(self)@ == (ResolverView { dirty: false, dirty_since: None, ..old(self)@ }),
    {
        self.dirty = false;
        self.dirty_since = None;
    }
}

} // verus!
