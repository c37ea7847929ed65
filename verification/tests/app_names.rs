use trackmln::cache::{clean_loaded_cache, AppNameCacheFile, CachedAppEntry, CACHE_VERSION};
use trackmln::labels::{lookup_exe_label, normalize_exe_name_map};
use trackmln::manifest::{
    extract_identity_name, extract_xml_attribute_value, extract_xml_tag_value, parse_appx_manifest,
    xml_unescape, AppxManifestMetadata,
};
use trackmln::names::{
    capitalize, exe_name_from_path, is_valid_appx_display_name, is_valid_product_name,
    looks_like_exe_path, normalize_exe_path, prettify_exe_name,
};
use trackmln::resolver::{AppNameResolver, ResolveLookup};
use trackmln::versioninfo::{
    clean_version_string, parse_translations, pick_version_metadata, version_query, VersionMetadata,
    VersionStrings,
};

fn entry(exe_name: &str, app_name: &str, source: &str, saved_on: &str) -> CachedAppEntry {
    CachedAppEntry {
        exe_name: exe_name.to_string(),
        app_name: app_name.to_string(),
        company_name: None,
        product_version: None,
        source: source.to_string(),
        saved_on: saved_on.to_string(),
    }
}

#[test]
fn normalizes_paths_to_lowercase_backslashes() {
    assert_eq!(
        normalize_exe_path("C:/Program Files/Google/Chrome/Application/CHROME.EXE"),
        "c:\\program files\\google\\chrome\\application\\chrome.exe"
    );
}

#[test]
fn preserves_existing_prettify_behavior() {
    assert_eq!(prettify_exe_name("code.exe"), "Code");
    assert_eq!(prettify_exe_name("minecraft-launcher.exe"), "Minecraft Launcher");
    assert_eq!(prettify_exe_name("obs64.exe"), "Obs64");
}

#[test]
fn rejects_generic_product_names() {
    assert!(!is_valid_product_name("Electron", "discord.exe"));
    assert!(!is_valid_product_name("launcher", "minecraft-launcher.exe"));
    assert!(is_valid_product_name("Google Chrome", "chrome.exe"));
}

#[test]
fn rejects_unresolved_ms_resource_display_names() {
    assert!(!is_valid_appx_display_name("ms-resource:AppName", "chatgpt.exe"));
    assert!(is_valid_appx_display_name("TradingView", "tradingview.exe"));
}

#[test]
fn extracts_manifest_values() {
    let manifest = r#"
        <Package>
            <Identity Name="AnthropicClaude" Publisher="CN=Anthropic" />
            <Properties>
                <DisplayName>Assistant</DisplayName>
                <PublisherDisplayName>Anthropic</PublisherDisplayName>
            </Properties>
        </Package>
        "#;

    assert_eq!(extract_xml_tag_value(manifest, "DisplayName").as_deref(), Some("Assistant"));
    assert_eq!(
        extract_xml_tag_value(manifest, "PublisherDisplayName").as_deref(),
        Some("Anthropic")
    );
    assert_eq!(extract_identity_name(manifest).as_deref(), Some("AnthropicClaude"));
}

#[test]
fn user_exe_labels_override_cached_names() {
    let mut cache = AppNameCacheFile::default();
    cache.version = 1;
    cache.insert(
        "c:\\program files\\windowsapps\\chatgpt\\chatgpt.exe".to_string(),
        entry("chatgpt.exe", "Chatgpt", "fallback", "2026-05-18"),
    );
    let mut resolver = AppNameResolver::new(
        "app_name_cache.json".to_string(),
        vec![("chatgpt.exe".to_string(), "ChatGPT".to_string())],
        cache,
    );

    let resolved = resolver.resolve_app_name(
        "C:/Program Files/WindowsApps/ChatGPT/ChatGPT.exe",
        None,
        None,
        "2026-05-18",
        0,
    );
    assert_eq!(resolved.app_name, "ChatGPT");
}

#[test]
fn lowercases_non_ascii_paths() {
    // The lowercasing goes through `str::to_lowercase`: non-ASCII letters too.
    assert_eq!(normalize_exe_path("D:/Ünïcode/ÄPP.EXE"), "d:\\ünïcode\\äpp.exe");
}

#[test]
fn recognizes_exe_paths() {
    assert!(looks_like_exe_path("C:\\Apps\\tool.EXE"));
    assert!(looks_like_exe_path("  c:/apps/tool.exe  "));
    assert!(!looks_like_exe_path("tool.exe"));
    assert!(!looks_like_exe_path("C:\\Apps\\tool.dll"));
    assert!(!looks_like_exe_path("idle"));
}

#[test]
fn takes_exe_name_from_last_component() {
    assert_eq!(exe_name_from_path("c:\\program files\\app\\thing.exe").as_deref(), Some("thing.exe"));
    assert_eq!(exe_name_from_path("C:/Apps/Thing.EXE").as_deref(), Some("thing.exe"));
    assert_eq!(exe_name_from_path("").as_deref(), None);
}

#[test]
fn capitalizes_first_letter_only() {
    assert_eq!(capitalize("chrome"), "Chrome");
    assert_eq!(capitalize("éclair"), "Éclair");
    assert_eq!(capitalize(""), "");
    assert_eq!(capitalize("obs64"), "Obs64");
}

#[test]
fn prettifies_separators_and_suffixes() {
    assert_eq!(prettify_exe_name("my_cool-app.exe"), "My Cool App");
    assert_eq!(prettify_exe_name("game.exe.exe"), "Game");
}

#[test]
fn unescapes_xml_entities() {
    assert_eq!(xml_unescape("Tom &amp; Jerry &lt;3 &quot;x&quot; &apos;y&apos; &gt;"), "Tom & Jerry <3 \"x\" 'y' >");
}

#[test]
fn unescapes_each_entity_once() {
    assert_eq!(xml_unescape("a &amp;lt; b"), "a &lt; b");
    assert_eq!(xml_unescape("&amp;amp;"), "&amp;");
    assert_eq!(xml_unescape("&unknown; & &lt"), "&unknown; & &lt");
}

#[test]
fn reads_attribute_values() {
    let element = "<Identity Name=\"Contoso.App\" Version=\"1.0\" />";
    assert_eq!(extract_xml_attribute_value(element, "Name").as_deref(), Some("Contoso.App"));
    assert_eq!(extract_xml_attribute_value(element, "Publisher").as_deref(), None);
}

#[test]
fn parses_whole_manifest() {
    let manifest = "<Package><Identity Name=\"Contoso.Notes\" /><Properties><DisplayName>Notes</DisplayName></Properties></Package>";
    let parsed: AppxManifestMetadata = parse_appx_manifest(manifest);
    assert_eq!(parsed.display_name.as_deref(), Some("Notes"));
    assert_eq!(parsed.publisher_display_name.as_deref(), None);
    assert_eq!(parsed.identity_name.as_deref(), Some("Contoso.Notes"));
}

#[test]
fn normalizes_label_keys() {
    let labels = normalize_exe_name_map(vec![
        (" JavaW.EXE ".to_string(), " Minecraft ".to_string()),
        ("blank.exe".to_string(), "   ".to_string()),
    ]);
    assert_eq!(lookup_exe_label(&labels, "javaw.exe").as_deref(), Some("Minecraft"));
    assert_eq!(lookup_exe_label(&labels, "blank.exe"), None);
}

#[test]
fn resolver_prefers_manifest_then_version_info_then_fallback() {
    let mut resolver = AppNameResolver::new("cache.json".to_string(), vec![], AppNameCacheFile::default());
    let version = VersionMetadata {
        product_name: Some("Google Chrome".to_string()),
        company_name: Some("Google LLC".to_string()),
        product_version: Some("1.0".to_string()),
    };
    let chrome = resolver.resolve_app_name("C:/Apps/chrome.exe", Some(version), None, "2026-01-01", 5);
    assert_eq!(chrome.identity, "c:\\apps\\chrome.exe");
    assert_eq!(chrome.exe_name, "chrome.exe");
    assert_eq!(chrome.app_name, "Google Chrome");
    assert!(resolver.is_dirty());

    // With both a usable manifest name and a usable product name, the
    // manifest's wins and is cached as such.
    let appx = AppxManifestMetadata {
        display_name: Some(" TradingView ".to_string()),
        publisher_display_name: None,
        identity_name: None,
    };
    let product = VersionMetadata { product_name: Some("TV Desktop".to_string()), company_name: None, product_version: None };
    let tv = resolver.resolve_app_name("C:/Apps/tradingview.exe", Some(product), Some(appx), "2026-01-01", 6);
    assert_eq!(tv.app_name, "TradingView");
    let saved = resolver.save_if_dirty().expect("dirty cache");
    let entry = saved.get("c:\\apps\\tradingview.exe").expect("cached");
    assert_eq!(entry.source, "appx_manifest");
    assert_eq!(entry.app_name, "TradingView");

    // An unusable manifest name gives way to the product name.
    let unresolved = AppxManifestMetadata {
        display_name: Some("ms-resource:AppName".to_string()),
        publisher_display_name: None,
        identity_name: None,
    };
    let rocket = VersionMetadata { product_name: Some("Rocket".to_string()), company_name: None, product_version: None };
    let r = resolver.resolve_app_name("C:/Apps/rocket.exe", Some(rocket), Some(unresolved), "2026-01-01", 7);
    assert_eq!(r.app_name, "Rocket");

    let other = resolver.resolve_app_name("C:/Apps/my_tool.exe", None, None, "2026-01-01", 8);
    assert_eq!(other.app_name, "My Tool");

    // A second resolution comes from the cache, whatever metadata is given now.
    match resolver.lookup_known("c:/apps/CHROME.exe") {
        ResolveLookup::Known(app) => assert_eq!(app.app_name, "Google Chrome"),
        ResolveLookup::Unknown { .. } => panic!("expected a cached name"),
    }
}

#[test]
fn resolver_cache_saves_after_debounce() {
    let mut resolver = AppNameResolver::new("cache.json".to_string(), vec![], AppNameCacheFile::default());
    assert!(!resolver.flush_if_due(100));
    assert!(resolver.save_if_dirty().is_none());
    resolver.resolve_app_name("C:/Apps/a.exe", None, None, "2026-01-01", 100);
    assert!(!resolver.flush_if_due(109));
    assert!(resolver.flush_if_due(110));
    let saved = resolver.save_if_dirty().expect("dirty cache");
    assert_eq!(saved.version, CACHE_VERSION);
    assert_eq!(saved.len(), 1);
    resolver.mark_saved();
    assert!(!resolver.is_dirty());
}

#[test]
fn cleans_loaded_cache_entries() {
    let mut blank = entry("x.exe", "  ", "fallback", "2026-01-01");
    blank.app_name = "  ".to_string();
    let cleaned = clean_loaded_cache(
        vec![
            ("C:/Apps/A.EXE".to_string(), entry(" A.EXE ", " App A ", " fallback ", "")),
            ("c:\\apps\\b.exe".to_string(), blank),
        ],
        "2026-02-03",
    );
    assert_eq!(cleaned.version, CACHE_VERSION);
    assert_eq!(cleaned.len(), 1);
    let a = cleaned.get("c:\\apps\\a.exe").expect("entry kept");
    assert_eq!(a.exe_name, "a.exe");
    assert_eq!(a.app_name, "App A");
    assert_eq!(a.source, "fallback");
    assert_eq!(a.saved_on, "2026-02-03");
    assert!(cleaned.get("c:\\apps\\b.exe").is_none());
}

#[test]
fn parses_translation_pairs() {
    assert_eq!(parse_translations(None), vec![(0x0409, 0x04B0)]);
    assert_eq!(parse_translations(Some(&[1u8, 2, 3][..])), vec![(0x0409, 0x04B0)]);
    assert_eq!(
        parse_translations(Some(&[0x09u8, 0x04, 0xB0, 0x04, 0x07, 0x04, 0xE4, 0x04, 0xFF][..])),
        vec![(0x0409, 0x04B0), (0x0407, 0x04E4)]
    );
}

#[test]
fn builds_version_queries() {
    assert_eq!(version_query(0x0409, 0x04B0, "ProductName"), "\\StringFileInfo\\040904b0\\ProductName\0");
}

#[test]
fn cleans_version_strings() {
    assert_eq!(clean_version_string("  Chrome \0\0").as_deref(), Some("Chrome"));
    assert_eq!(clean_version_string(" \0").as_deref(), None);
}

#[test]
fn picks_first_present_version_fields() {
    let answers = vec![
        VersionStrings { product_name: None, company_name: Some("Acme".to_string()), product_version: None },
        VersionStrings {
            product_name: Some("Rocket".to_string()),
            company_name: Some("Other".to_string()),
            product_version: None,
        },
    ];
    let picked = pick_version_metadata(&answers).expect("metadata");
    assert_eq!(picked.product_name.as_deref(), Some("Rocket"));
    assert_eq!(picked.company_name.as_deref(), Some("Acme"));
    assert_eq!(picked.product_version, None);
    let none = vec![VersionStrings { product_name: None, company_name: None, product_version: None }];
    assert!(pick_version_metadata(&none).is_none());
}
