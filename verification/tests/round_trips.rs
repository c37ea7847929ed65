use trackmln::cache::{clean_loaded_cache, CachedAppEntry};
use trackmln::goals::normalize_goal_draft;
use trackmln::labels::normalize_exe_name_map;
use trackmln::models::GoalDraft;
use trackmln::names::normalize_exe_path;
use trackmln::resolver::AppNameResolver;
use trackmln::cache::AppNameCacheFile;

fn entry(exe_name: &str, app_name: &str, source: &str, saved_on: &str, company: Option<&str>) -> CachedAppEntry {
    CachedAppEntry {
        exe_name: exe_name.to_string(),
        app_name: app_name.to_string(),
        company_name: company.map(str::to_string),
        product_version: None,
        source: source.to_string(),
        saved_on: saved_on.to_string(),
    }
}

fn copy(e: &CachedAppEntry) -> CachedAppEntry {
    CachedAppEntry {
        exe_name: e.exe_name.clone(),
        app_name: e.app_name.clone(),
        company_name: e.company_name.clone(),
        product_version: e.product_version.clone(),
        source: e.source.clone(),
        saved_on: e.saved_on.clone(),
    }
}

#[test]
fn normalizing_a_path_twice_changes_nothing() {
    let once = normalize_exe_path("  C:/Tools/Build/MAKE.exe ");
    assert_eq!(once, "c:\\tools\\build\\make.exe");
    assert_eq!(normalize_exe_path(&once), once);
}

#[test]
fn resolving_an_identity_matches_resolving_its_path() {
    let mut by_path = AppNameResolver::new("a.json".to_string(), vec![], AppNameCacheFile::default());
    let mut by_identity = AppNameResolver::new("b.json".to_string(), vec![], AppNameCacheFile::default());
    let path = "D:/Games/Space_Runner.EXE";
    let a = by_path.resolve_app_name(path, None, None, "2026-01-01", 1);
    let b = by_identity.resolve_app_name(&normalize_exe_path(path), None, None, "2026-01-01", 1);
    assert_eq!(a.identity, b.identity);
    assert_eq!(a.exe_name, b.exe_name);
    assert_eq!(a.app_name, b.app_name);
    assert_eq!(a.app_name, "Space Runner");
}

#[test]
fn cleaned_cache_reads_back_unchanged() {
    let loaded = clean_loaded_cache(
        vec![
            (" C:/A/One.EXE ".to_string(), entry(" One.EXE ", " One ", " fallback ", "", Some("  "))),
            ("c:\\a\\one.exe".to_string(), entry("one.exe", "One Again", "version_info", "2026-01-02", Some(" Acme "))),
            ("c:/b/two.exe".to_string(), entry("two.exe", "Two", "fallback", " 2026-01-03 ", None)),
        ],
        "2026-01-05",
    );
    assert_eq!(loaded.len(), 2);
    let again = clean_loaded_cache(
        loaded.apps.iter().map(|(k, e)| (k.clone(), copy(e))).collect(),
        "2026-01-05",
    );
    assert_eq!(again.len(), loaded.len());
    for ((k1, e1), (k2, e2)) in loaded.apps.iter().zip(again.apps.iter()) {
        assert_eq!(k1, k2);
        assert_eq!(e1.exe_name, e2.exe_name);
        assert_eq!(e1.app_name, e2.app_name);
        assert_eq!(e1.company_name, e2.company_name);
        assert_eq!(e1.source, e2.source);
        assert_eq!(e1.saved_on, e2.saved_on);
    }
    let one = loaded.get("c:\\a\\one.exe").expect("kept");
    assert_eq!(one.app_name, "One Again");
    assert_eq!(one.company_name.as_deref(), Some("Acme"));
    assert_eq!(loaded.get("c:\\b\\two.exe").expect("kept").saved_on, " 2026-01-03 ");
}

#[test]
fn normalized_labels_read_back_unchanged() {
    let once = normalize_exe_name_map(vec![
        (" Code.EXE".to_string(), " VS Code ".to_string()),
        ("code.exe".to_string(), "Editor".to_string()),
        ("  ".to_string(), "Nothing".to_string()),
    ]);
    let pairs = once.to_pairs();
    assert_eq!(pairs, vec![("code.exe".to_string(), "Editor".to_string())]);
    assert_eq!(normalize_exe_name_map(pairs.clone()).to_pairs(), pairs);
}

#[test]
fn checked_goal_draft_passes_again_unchanged() {
    let draft = GoalDraft {
        id: None,
        target_kind: " APP ".to_string(),
        target_value: " c:\\x.exe ".to_string(),
        warn_seconds: Some(-1),
        annoy_seconds: Some(90),
    };
    let once = normalize_goal_draft(draft).expect("valid");
    let twice = normalize_goal_draft(GoalDraft {
        id: once.id,
        target_kind: once.target_kind.clone(),
        target_value: once.target_value.clone(),
        warn_seconds: once.warn_seconds,
        annoy_seconds: once.annoy_seconds,
    })
    .expect("still valid");
    assert_eq!(twice.id, once.id);
    assert_eq!(twice.target_kind, "app");
    assert_eq!(twice.target_kind, once.target_kind);
    assert_eq!(twice.target_value, once.target_value);
    assert_eq!(twice.warn_seconds, None);
    assert_eq!(twice.warn_seconds, once.warn_seconds);
    assert_eq!(twice.annoy_seconds, once.annoy_seconds);
}
