use trackmln::hotkey::{hotkey_change_needed, hotkey_outcome};
use trackmln::goals::{
    app_total_needs_name, normalize_goal_draft, present_app_total, present_goal_candidate, present_goal_label,
    TOTAL_GOAL_TARGET,
};
use trackmln::installer::{
    escape_powershell_single_quoted, self_delete_command, shortcut_script, startup_registry_value, STARTUP_KEY,
    STARTUP_RUN_KEY, STARTUP_VALUE_NAME,
};
use trackmln::models::{AppTotal, GoalCandidate, GoalDraft};
use trackmln::paths::{default_cache_path, default_db_path, default_settings_path};
use trackmln::settings::{
    clamp_blur_percent, default_exe_labels, finish_load_settings, normalize_material, normalize_settings, AppSettings,
    DEFAULT_BLUR_PERCENT, DEFAULT_HOTKEY, DEFAULT_MATERIAL, MAX_BLUR_PERCENT,
};
use trackmln::text::trim;
use trackmln::unicode::char_is_whitespace;

fn draft(kind: &str, value: &str, warn: Option<i64>, annoy: Option<i64>) -> GoalDraft {
    GoalDraft { id: Some(3), target_kind: kind.to_string(), target_value: value.to_string(), warn_seconds: warn, annoy_seconds: annoy }
}

#[test]
fn normalizes_goal_drafts() {
    let total = normalize_goal_draft(draft(" TOTAL ", "anything", Some(60), Some(0))).expect("valid");
    assert_eq!(total.target_kind, "total");
    assert_eq!(total.target_value, TOTAL_GOAL_TARGET);
    assert_eq!(total.warn_seconds, Some(60));
    assert_eq!(total.annoy_seconds, None);
    assert_eq!(total.id, Some(3));

    let app = normalize_goal_draft(draft("App", "  c:\\apps\\game.exe ", None, Some(120))).expect("valid");
    assert_eq!(app.target_kind, "app");
    assert_eq!(app.target_value, "c:\\apps\\game.exe");
    assert_eq!(app.annoy_seconds, Some(120));
}

#[test]
fn rejects_bad_goal_drafts() {
    assert_eq!(
        normalize_goal_draft(draft("weekly", "x", Some(1), None)).err().as_deref(),
        Some("Goal type must be app or total")
    );
    assert_eq!(
        normalize_goal_draft(draft("app", "x", Some(0), Some(-5))).err().as_deref(),
        Some("Set at least one threshold")
    );
    assert_eq!(
        normalize_goal_draft(draft("app", "   ", Some(10), None)).err().as_deref(),
        Some("Choose an app for this goal")
    );
}

#[test]
fn labels_goals_for_display() {
    assert_eq!(present_goal_label("total", "x", None), "Total screen time");
    assert_eq!(present_goal_label("app", "__total__", Some("ignored".to_string())), "Total screen time");
    assert_eq!(present_goal_label("app", "c:\\apps\\game.exe", Some("Game".to_string())), "Game");
    assert_eq!(present_goal_label("app", "chrome", Some("Chrome".to_string())), "chrome");
}

#[test]
fn presents_app_totals_with_resolved_names() {
    let app = AppTotal { app_identity: "c:\\apps\\game.exe".to_string(), app_name: "game".to_string(), total: 5 };
    assert!(app_total_needs_name(&app));
    let shown = present_app_total(app, Some("Game".to_string()));
    assert_eq!(shown.app_name, "Game");
    assert_eq!(shown.total, 5);

    let named = AppTotal { app_identity: "vs code".to_string(), app_name: "VS Code".to_string(), total: 1 };
    assert!(!app_total_needs_name(&named));
    assert_eq!(present_app_total(named, Some("Other".to_string())).app_name, "VS Code");

    let idle = AppTotal { app_identity: "idle".to_string(), app_name: "x".to_string(), total: 1 };
    assert_eq!(present_app_total(idle, Some("Idle".to_string())).app_name, "Idle");

    let candidate = GoalCandidate { app_identity: "c:\\a.exe".to_string(), app_name: "a".to_string(), total_seconds: 9 };
    let shown = present_goal_candidate(candidate, Some("A".to_string()));
    assert_eq!(shown.app_name, "A");
    assert_eq!(shown.total_seconds, 9);
}

#[test]
fn settings_defaults() {
    let settings = AppSettings::default();
    assert_eq!(settings.hotkey, DEFAULT_HOTKEY);
    assert_eq!(settings.blur_percent, DEFAULT_BLUR_PERCENT);
    assert_eq!(settings.material, DEFAULT_MATERIAL);
    assert_eq!(settings.exe_labels.len(), 7);
    assert!(default_exe_labels().contains(&("javaw.exe".to_string(), "Minecraft".to_string())));
}

#[test]
fn normalizes_materials_and_blur() {
    assert_eq!(normalize_material(" LIQUID "), "liquid");
    assert_eq!(normalize_material("Mica"), "mica");
    assert_eq!(normalize_material("acrylic"), "mica");
    assert_eq!(clamp_blur_percent(250), MAX_BLUR_PERCENT);
    assert_eq!(clamp_blur_percent(40), 40);
}

#[test]
fn normalizes_settings_once_and_for_all() {
    let raw = AppSettings {
        hotkey: "   ".to_string(),
        blur_percent: 180,
        material: " Liquid".to_string(),
        exe_labels: vec![],
    };
    let once = normalize_settings(raw);
    assert_eq!(once.hotkey, "control+shift+Space");
    assert_eq!(once.blur_percent, 100);
    assert_eq!(once.material, "liquid");
    let twice = normalize_settings(AppSettings {
        hotkey: once.hotkey.clone(),
        blur_percent: once.blur_percent,
        material: once.material.clone(),
        exe_labels: once.exe_labels.clone(),
    });
    assert_eq!(twice.hotkey, once.hotkey);
    assert_eq!(twice.blur_percent, once.blur_percent);
    assert_eq!(twice.material, once.material);
}

#[test]
fn fills_missing_exe_labels_on_load() {
    let parsed = AppSettings { hotkey: " alt+T ".to_string(), blur_percent: 50, material: "mica".to_string(), exe_labels: vec![] };
    let (settings, repaired) = finish_load_settings(parsed, false);
    assert!(repaired);
    assert_eq!(settings.hotkey, "alt+T");
    assert_eq!(settings.exe_labels.len(), 7);
    let parsed = AppSettings { hotkey: "alt+T".to_string(), blur_percent: 50, material: "mica".to_string(), exe_labels: vec![] };
    let (settings, repaired) = finish_load_settings(parsed, true);
    assert!(!repaired);
    assert!(settings.exe_labels.is_empty());
}

#[test]
fn places_files_in_data_dir() {
    let cache = default_cache_path("data");
    assert!(cache == "data/app_name_cache.json" || cache == "data\\app_name_cache.json");
    let db = default_db_path("data/");
    assert_eq!(db, "data/trackmln.db");
    let settings = default_settings_path("data");
    assert!(settings.ends_with("settings.json") && settings.starts_with("data") && settings.len() == "data".len() + 1 + "settings.json".len());
}

#[test]
fn places_files_in_a_verbatim_data_dir() {
    assert!(default_db_path("\\\\?\\C:\\data").ends_with("\\trackmln.db") || default_db_path("\\\\?\\C:\\data").ends_with("/trackmln.db"));
    assert!(default_settings_path("\\\\?\\C:\\data").ends_with("settings.json"));
    assert!(default_cache_path("\\\\?\\C:\\data").ends_with("app_name_cache.json"));
}

#[test]
fn escapes_powershell_quotes() {
    assert_eq!(escape_powershell_single_quoted("C:\\Users\\O'Brien\\x'y"), "C:\\Users\\O''Brien\\x''y");
    assert_eq!(escape_powershell_single_quoted("plain"), "plain");
}

#[test]
fn builds_shortcut_script() {
    let script = shortcut_script("C:\\S\\TrackMLN.lnk", "C:\\O'B\\TrackMLN.exe", "C:\\O'B");
    assert_eq!(
        script,
        "$shell = New-Object -ComObject WScript.Shell; $shortcut = $shell.CreateShortcut('C:\\S\\TrackMLN.lnk'); \
         $shortcut.TargetPath = 'C:\\O''B\\TrackMLN.exe'; $shortcut.WorkingDirectory = 'C:\\O''B'; \
         $shortcut.IconLocation = 'C:\\O''B\\TrackMLN.exe,0'; $shortcut.Save()"
    );
}

#[test]
fn builds_startup_and_self_delete_commands() {
    assert_eq!(startup_registry_value("C:\\A\\TrackMLN.exe"), "\"C:\\A\\TrackMLN.exe\"");
    assert_eq!(
        self_delete_command("C:\\Down\"loads\\setup.exe"),
        "ping 127.0.0.1 -n 3 > nul && del /f /q \"C:\\Down\"\"loads\\setup.exe\""
    );
    assert_eq!(STARTUP_KEY, format!("{}\\{}", STARTUP_RUN_KEY, STARTUP_VALUE_NAME));
}

#[test]
fn white_space_matches_std_for_every_char() {
    for code in 0u32..=0x10FFFF {
        if let Some(c) = char::from_u32(code) {
            assert_eq!(char_is_whitespace(c), c.is_whitespace(), "char {:#x}", code);
        }
    }
}

#[test]
fn trims_unicode_white_space() {
    assert_eq!(trim("\u{3000}\t hi there \u{a0}\n"), "hi there");
}

#[test]
fn plans_hotkey_changes() {
    assert!(!hotkey_change_needed("control+shift+Space", "control+shift+Space"));
    assert!(hotkey_change_needed("control+shift+Space", "alt+KeyT"));

    let ok = hotkey_outcome("control+shift+Space".to_string(), "alt+KeyT".to_string(), None, None, None);
    assert_eq!(ok.hotkey, "alt+KeyT");
    assert!(ok.error.is_none() && !ok.unregister_requested && !ok.register_previous);

    let taken = hotkey_outcome("a".to_string(), "b".to_string(), Some("taken".to_string()), None, None);
    assert_eq!(taken.hotkey, "a");
    assert_eq!(taken.error.as_deref(), Some("Failed to register shortcut: taken"));
    assert!(!taken.unregister_requested && !taken.register_previous);

    let stuck = hotkey_outcome("a".to_string(), "b".to_string(), None, Some("busy".to_string()), None);
    assert_eq!(stuck.error.as_deref(), Some("Failed to remove previous shortcut: busy"));
    assert!(stuck.unregister_requested && !stuck.register_previous);

    let unsaved = hotkey_outcome("a".to_string(), "b".to_string(), None, None, Some("disk full".to_string()));
    assert_eq!(unsaved.hotkey, "a");
    assert_eq!(unsaved.error.as_deref(), Some("disk full"));
    assert!(unsaved.unregister_requested && unsaved.register_previous);
}
