use aerome::files::Files;
use aerome::icons::{
    create_default_themes, theme_name_from_setting, CacheEntry, Environment, IconLookupFailure,
    Icons, Lookup, SavedIcons, CHECK_INTERVAL, COMMON_MIME_TYPES,
};
use aerome::sizing::SizingPolicy;

const T_INDEX: &str = "[Icon Theme]\nDirectories=places,scalable\n[places]\nSize=256\nType=Fixed\n[scalable]\nSize=32\nType=Scalable\n";
const U_INDEX: &str = "[Icon Theme]\nDirectories=any\n[any]\nSize=32\nType=Scalable\n";
const HICOLOR_INDEX: &str = "[Icon Theme]\nDirectories=48\n[48]\nSize=48\n";

fn snapshot(entries: &[(&str, Option<&str>)]) -> Files {
    let mut files = Files::new();
    for (path, text) in entries {
        files.insert(path.to_string(), text.map(|t| t.to_string()));
    }
    files
}

fn scenario_files() -> Files {
    snapshot(&[
        ("/base/T/index.theme", Some(T_INDEX)),
        ("/base/hicolor/index.theme", Some(HICOLOR_INDEX)),
        ("/base/T/places/folder.png", None),
        ("/base/T/scalable/open-menu.svg", None),
    ])
}

fn env(now: u64, theme: &str, files: Files) -> Environment {
    Environment {
        now,
        theme_name: theme.to_string(),
        bases: vec!["/base".to_string()],
        descriptors: files.clone(),
        files,
    }
}

fn resolution_failed(r: &Result<String, IconLookupFailure>) -> Option<&Lookup> {
    match r {
        Err(IconLookupFailure::IconResolutionFailed(key)) => Some(key),
        _ => None,
    }
}

fn theme_missing(r: &Result<String, IconLookupFailure>) -> Option<&str> {
    match r {
        Err(IconLookupFailure::ThemeMissing(name)) => Some(name.as_str()),
        _ => None,
    }
}

#[test]
fn new_engine_has_nothing_cached() {
    let icons = Icons::new("T", false);
    assert_eq!(icons.get_cache_mtime(), 0);
    assert_eq!(icons.theme_name(), "T");
    assert_eq!(icons.get_cached("folder", 256, 1), None);
    let saved = icons.export();
    assert!(saved.cache.is_empty());
    assert!(!saved.cache_is_stale);
    assert_eq!(saved.cache_mtime_last_check, 0);
    assert_eq!(saved.themes.len(), 1);
    assert_eq!(saved.themes[0].name, "AeromeFileManager");
}

#[test]
fn default_themes_are_the_applications_and_the_stub() {
    let themes = create_default_themes(false);
    assert_eq!(themes.len(), 1);
    let app = &themes[0];
    assert_eq!(app.name, "AeromeFileManager");
    assert_eq!(app.directories, vec!["places", "mimetypes", "scalable"]);
    assert!(app.inherits.is_empty());
    assert_eq!(app.policy("places"), Some(SizingPolicy::Fixed(256)));
    assert_eq!(app.policy("mimetypes"), Some(SizingPolicy::Fixed(256)));
    assert_eq!(app.policy("scalable"), Some(SizingPolicy::Scalable(32)));
    let themes = create_default_themes(true);
    assert_eq!(themes.len(), 2);
    assert_eq!(themes[0].name, "AeromeFileManager");
    assert_eq!(themes[1].name, "hicolor");
    assert!(themes[1].directories.is_empty());
    assert!(themes[1].sizing.is_empty());
    assert!(themes[1].inherits.is_empty());
}

#[test]
fn lookup_keys_are_equal_when_all_fields_agree() {
    let k = Lookup::new("T", "folder", 256, 1);
    assert_eq!(k.theme, "T");
    assert_eq!(k.icon, "folder");
    assert_eq!(k.size, 256);
    assert_eq!(k.scale, 1);
    assert!(k.same_as(&Lookup::new("T", "folder", 256, 1)));
    assert!(!k.same_as(&Lookup::new("U", "folder", 256, 1)));
    assert!(!k.same_as(&Lookup::new("T", "folders", 256, 1)));
    assert!(!k.same_as(&Lookup::new("T", "folder", 255, 1)));
    assert!(!k.same_as(&Lookup::new("T", "folder", 256, 2)));
    assert!(!k.same_as(&Lookup::new("folder", "T", 256, 1)));
}

#[test]
fn find_end_to_end_scenario() {
    let mut icons = Icons::new("T", false);
    let e = env(0, "T", scenario_files());
    assert_eq!(icons.find("folder", 256, 1, &e).unwrap(), "/base/T/places/folder.png");
    assert_eq!(icons.find("open-menu", 40, 1, &e).unwrap(), "/base/T/scalable/open-menu.svg");
    let r = icons.find("no-such-icon", 1000, 1, &e);
    let key = resolution_failed(&r).unwrap();
    assert!(key.same_as(&Lookup::new("T", "no-such-icon", 1000, 1)));
}

#[test]
fn find_returns_the_nearest_directory_when_none_matches() {
    let mut icons = Icons::new("T", false);
    let e = env(0, "T", scenario_files());
    assert_eq!(icons.find("open-menu", 1000, 1, &e).unwrap(), "/base/T/scalable/open-menu.svg");
    assert_eq!(icons.find("folder", 48, 1, &e).unwrap(), "/base/T/places/folder.png");
}

#[test]
fn find_falls_through_to_fallback_theme_and_plain_directory() {
    let mut icons = Icons::new("T", false);
    let files = snapshot(&[
        ("/base/T/index.theme", Some(T_INDEX)),
        ("/base/hicolor/index.theme", Some(HICOLOR_INDEX)),
        ("/base/hicolor/48/app.png", None),
        ("/base/plain.xpm", None),
    ]);
    let e = env(0, "T", files);
    assert_eq!(icons.find("app", 1000, 1, &e).unwrap(), "/base/hicolor/48/app.png");
    assert_eq!(icons.find("plain", 1000, 1, &e).unwrap(), "/base/plain.xpm");
    assert!(resolution_failed(&icons.find("other", 1000, 1, &e)).is_some());
}

#[test]
fn find_uses_the_application_theme_as_last_parent() {
    let mut icons = Icons::new("T", false);
    let files = snapshot(&[
        ("/base/T/index.theme", Some(T_INDEX)),
        ("/base/hicolor/index.theme", Some(HICOLOR_INDEX)),
        ("/base/AeromeFileManager/mimetypes/text-x-generic.png", None),
        ("/base/hicolor/48/text-x-generic.png", None),
    ]);
    let e = env(0, "T", files);
    assert_eq!(
        icons.find("text-x-generic", 256, 1, &e).unwrap(),
        "/base/AeromeFileManager/mimetypes/text-x-generic.png"
    );
    let saved = icons.export();
    let t = saved.themes.iter().find(|t| t.name == "T").unwrap();
    assert_eq!(t.inherits.len(), 1);
    assert_eq!(t.inherits[0].name, "AeromeFileManager");
    let h = saved.themes.iter().find(|t| t.name == "hicolor").unwrap();
    assert!(h.inherits.is_empty());
}

#[test]
fn repeated_find_is_answered_from_the_cache() {
    let mut icons = Icons::new("T", false);
    let first = icons.find("folder", 256, 1, &env(0, "T", scenario_files())).unwrap();
    let cached = icons.export().cache.len();
    // The second environment has no files at all: nothing can be read from it.
    let second = icons.find("folder", 256, 1, &env(1, "T", Files::new())).unwrap();
    assert_eq!(first, second);
    assert_eq!(icons.export().cache.len(), cached);
    assert_eq!(icons.get_cached("folder", 256, 1), Some(Some(first)));
}

#[test]
fn failed_find_is_cached_too() {
    let mut icons = Icons::new("T", false);
    let r = icons.find("ghost", 48, 1, &env(0, "T", scenario_files()));
    assert!(resolution_failed(&r).is_some());
    assert_eq!(icons.get_cached("ghost", 48, 1), Some(None));
    let cached = icons.export().cache.len();
    // The icon has appeared meanwhile, but the failure is remembered.
    let mut files = scenario_files();
    files.insert("/base/T/places/ghost.png".to_string(), None);
    let again = icons.find("ghost", 48, 1, &env(2, "T", files));
    let key = resolution_failed(&again).unwrap();
    assert!(key.same_as(&Lookup::new("T", "ghost", 48, 1)));
    assert_eq!(icons.export().cache.len(), cached);
}

#[test]
fn keys_differ_by_size_and_scale() {
    let mut icons = Icons::new("T", false);
    let e = env(0, "T", scenario_files());
    icons.find("folder", 256, 1, &e).unwrap();
    assert_eq!(icons.get_cached("folder", 256, 2), None);
    assert_eq!(icons.get_cached("folder", 128, 1), None);
    assert_eq!(icons.get_cached("folders", 256, 1), None);
    icons.find("folder", 256, 2, &e).unwrap();
    assert_eq!(icons.export().cache.len(), 2);
}

#[test]
fn missing_theme_is_reported_and_not_cached() {
    let mut icons = Icons::new("Gone", false);
    let r = icons.find("folder", 256, 1, &env(0, "Gone", scenario_files()));
    assert_eq!(theme_missing(&r), Some("Gone"));
    assert_eq!(icons.get_cached("folder", 256, 1), None);
    assert!(icons.export().cache.is_empty());
    // Once the theme is installed the lookup succeeds.
    let mut files = scenario_files();
    files.insert("/base/Gone/index.theme".to_string(), Some(U_INDEX.to_string()));
    files.insert("/base/Gone/any/folder.svg".to_string(), None);
    let r = icons.find("folder", 32, 1, &env(1, "Gone", files));
    assert_eq!(r.unwrap(), "/base/Gone/any/folder.svg");
}

#[test]
fn missing_fallback_theme_is_reported() {
    let mut icons = Icons::new("T", false);
    let files = snapshot(&[
        ("/base/T/index.theme", Some(T_INDEX)),
        ("/base/T/places/folder.png", None),
    ]);
    let r = icons.find("folder", 256, 1, &env(0, "T", files));
    assert_eq!(theme_missing(&r), Some("hicolor"));
    assert_eq!(icons.get_cached("folder", 256, 1), None);
    let saved = icons.export();
    assert!(saved.themes.iter().any(|t| t.name == "T"));
    assert!(!saved.themes.iter().any(|t| t.name == "hicolor"));
}

#[test]
fn stub_fallback_stands_in_for_a_missing_hicolor() {
    let mut icons = Icons::new("T", true);
    let files = snapshot(&[
        ("/base/T/index.theme", Some(T_INDEX)),
        ("/base/T/places/folder.png", None),
    ]);
    let r = icons.find("folder", 256, 1, &env(0, "T", files));
    assert_eq!(r.unwrap(), "/base/T/places/folder.png");
}

#[test]
fn application_theme_needs_no_descriptor() {
    let mut icons = Icons::new("AeromeFileManager", true);
    let files = snapshot(&[("/base/AeromeFileManager/places/folder.png", None)]);
    let r = icons.find("folder", 256, 1, &env(0, "AeromeFileManager", files));
    assert_eq!(r.unwrap(), "/base/AeromeFileManager/places/folder.png");
}

#[test]
fn staleness_check_is_throttled() {
    assert_eq!(CHECK_INTERVAL, 5);
    let mut icons = Icons::new("T", false);
    assert!(!icons.check_is_due(0));
    assert!(!icons.check_is_due(4));
    assert!(icons.check_is_due(5));
    // Within the interval the system's theme is not consulted.
    assert!(!icons.cache_is_stale(4, "U"));
    assert_eq!(icons.theme_name(), "T");
    assert_eq!(icons.export().cache_mtime_last_check, 0);
    // After it, an unchanged theme only records the check.
    assert!(!icons.cache_is_stale(5, "T"));
    assert_eq!(icons.export().cache_mtime_last_check, 5);
    assert_eq!(icons.get_cache_mtime(), 0);
    assert!(!icons.check_is_due(9));
    assert!(!icons.cache_is_stale(9, "U"));
    // A changed theme is adopted and the cache marked stale.
    assert!(icons.cache_is_stale(10, "U"));
    assert_eq!(icons.theme_name(), "U");
    assert_eq!(icons.get_cache_mtime(), 10);
    let saved = icons.export();
    assert!(saved.cache_is_stale);
    assert_eq!(saved.cache_mtime_last_check, 10);
    // While throttled the last finding is repeated.
    assert!(icons.cache_is_stale(11, "U"));
    assert!(icons.cache_is_stale(14, "T"));
    icons.flush_cache();
    assert!(!icons.cache_is_stale(14, "T"));
}

#[test]
fn staleness_check_with_a_clock_set_back() {
    let mut icons = Icons::new("T", false);
    assert!(!icons.cache_is_stale(100, "T"));
    assert!(!icons.check_is_due(50));
    assert!(!icons.cache_is_stale(50, "U"));
    assert_eq!(icons.theme_name(), "T");
    assert_eq!(icons.export().cache_mtime_last_check, 100);
}

#[test]
fn flush_forgets_cache_and_loaded_themes() {
    let mut icons = Icons::new("T", false);
    icons.find("folder", 256, 1, &env(0, "T", scenario_files())).unwrap();
    assert_eq!(icons.export().themes.len(), 3);
    icons.flush_cache();
    let saved = icons.export();
    assert!(saved.cache.is_empty());
    assert!(!saved.cache_is_stale);
    assert_eq!(saved.themes.len(), 1);
    assert_eq!(saved.themes[0].name, "AeromeFileManager");
    assert_eq!(saved.current_theme_name, "T");
}

#[test]
fn theme_change_invalidates_the_cache() {
    let mut files = scenario_files();
    files.insert("/base/U/index.theme".to_string(), Some(U_INDEX.to_string()));
    files.insert("/base/U/any/folder.svg".to_string(), None);
    let mut icons = Icons::new("T", false);
    let old = icons.find("folder", 256, 1, &env(0, "T", clone_files(&files))).unwrap();
    assert_eq!(old, "/base/T/places/folder.png");
    // The theme has changed, but the check is not due: the old answer stands.
    let r = icons.find("folder", 256, 1, &env(4, "U", clone_files(&files))).unwrap();
    assert_eq!(r, "/base/T/places/folder.png");
    // Past the interval the change is seen and the lookup made anew.
    let r = icons.find("folder", 256, 1, &env(5, "U", clone_files(&files))).unwrap();
    assert_eq!(r, "/base/U/any/folder.svg");
    assert_eq!(icons.theme_name(), "U");
    assert_eq!(icons.get_cache_mtime(), 5);
    let saved = icons.export();
    assert_eq!(saved.cache.len(), 1);
    assert_eq!(saved.cache[0].lookup.theme, "U");
    assert!(!saved.cache_is_stale);
    assert!(!saved.themes.iter().any(|t| t.name == "T"));
}

fn clone_files(files: &Files) -> Files {
    files.clone()
}

#[test]
fn warm_up_resolves_the_common_icons() {
    assert_eq!(COMMON_MIME_TYPES.len(), 29);
    assert_eq!(COMMON_MIME_TYPES[0], "folder");
    assert_eq!(COMMON_MIME_TYPES[28], "text-css");
    let mut icons = Icons::new("T", false);
    let e = env(0, "T", scenario_files());
    icons.cache_common_mimetypes(&e);
    let saved = icons.export();
    assert_eq!(saved.cache.len(), 29);
    assert_eq!(
        icons.get_cached("folder", 256, 1),
        Some(Some("/base/T/places/folder.png".to_string()))
    );
    assert_eq!(icons.get_cached("text-css", 256, 1), Some(None));
    assert_eq!(icons.get_cached("folder", 48, 1), None);
    // A second warm-up adds nothing.
    icons.cache_common_mimetypes(&env(0, "T", Files::new()));
    assert_eq!(icons.export().cache.len(), 29);
}

#[test]
fn warm_up_without_the_theme_caches_nothing() {
    let mut icons = Icons::new("Gone", false);
    icons.cache_common_mimetypes(&env(0, "Gone", scenario_files()));
    assert!(icons.export().cache.is_empty());
}

#[test]
fn saved_state_round_trips() {
    let mut icons = Icons::new("T", false);
    let e = env(7, "T", scenario_files());
    let folder = icons.find("folder", 256, 1, &e).unwrap();
    let menu = icons.find("open-menu", 40, 1, &e).unwrap();
    assert!(icons.find("ghost", 40, 1, &e).is_err());
    let saved = icons.export();
    drop(icons);
    let mut restored = Icons::restore(saved).unwrap();
    assert_eq!(restored.theme_name(), "T");
    assert_eq!(restored.export().cache_mtime_last_check, 7);
    assert_eq!(restored.export().cache.len(), 3);
    // Nothing exists any more: every answer comes from the restored cache.
    let nothing = env(8, "T", Files::new());
    assert_eq!(restored.find("folder", 256, 1, &nothing).unwrap(), folder);
    assert_eq!(restored.find("open-menu", 40, 1, &nothing).unwrap(), menu);
    assert!(resolution_failed(&restored.find("ghost", 40, 1, &nothing)).is_some());
    assert_eq!(restored.export().cache.len(), 3);
}

#[test]
fn restore_rejects_a_state_without_the_application_theme() {
    let saved = SavedIcons {
        cache: vec![CacheEntry { lookup: Lookup::new("T", "x", 1, 1), path: None }],
        cache_mtime: 0,
        cache_mtime_last_check: 0,
        cache_is_stale: false,
        current_theme_name: "T".to_string(),
        themes: vec![],
        stub_fallback: false,
    };
    assert!(Icons::restore(saved).is_none());
}

#[test]
fn startup_falls_back_to_a_new_engine() {
    let icons = Icons::new_from_cbor(None, "T", false);
    assert_eq!(icons.theme_name(), "T");
    assert!(icons.export().cache.is_empty());
    let broken = SavedIcons {
        cache: vec![CacheEntry { lookup: Lookup::new("U", "x", 1, 1), path: None }],
        cache_mtime: 3,
        cache_mtime_last_check: 3,
        cache_is_stale: true,
        current_theme_name: "U".to_string(),
        themes: vec![],
        stub_fallback: true,
    };
    let icons = Icons::new_from_cbor(Some(broken), "T", false);
    assert_eq!(icons.theme_name(), "T");
    assert!(icons.export().cache.is_empty());
    assert_eq!(icons.get_cache_mtime(), 0);
    let good = SavedIcons {
        cache: vec![CacheEntry {
            lookup: Lookup::new("U", "x", 1, 1),
            path: Some("/p/x.png".to_string()),
        }],
        cache_mtime: 3,
        cache_mtime_last_check: 4,
        cache_is_stale: false,
        current_theme_name: "U".to_string(),
        themes: create_default_themes(false),
        stub_fallback: false,
    };
    let icons = Icons::new_from_cbor(Some(good), "T", false);
    assert_eq!(icons.theme_name(), "U");
    assert_eq!(icons.get_cache_mtime(), 3);
    assert_eq!(icons.get_cached("x", 1, 1), Some(Some("/p/x.png".to_string())));
}

#[test]
fn cache_answers_with_the_last_entry_of_a_key() {
    let saved = SavedIcons {
        cache: vec![
            CacheEntry { lookup: Lookup::new("T", "x", 1, 1), path: None },
            CacheEntry { lookup: Lookup::new("T", "x", 1, 1), path: Some("/late".to_string()) },
        ],
        cache_mtime: 0,
        cache_mtime_last_check: 0,
        cache_is_stale: false,
        current_theme_name: "T".to_string(),
        themes: create_default_themes(false),
        stub_fallback: false,
    };
    let icons = Icons::restore(saved).unwrap();
    assert_eq!(icons.get_cached("x", 1, 1), Some(Some("/late".to_string())));
}

#[test]
fn theme_name_is_taken_from_the_settings_answer() {
    assert_eq!(theme_name_from_setting("'Yaru'\n"), "Yaru");
    assert_eq!(theme_name_from_setting("  'Adwaita dark' \r\n"), "Adwaita dark");
    assert_eq!(theme_name_from_setting("Papirus"), "Papirus");
    assert_eq!(theme_name_from_setting("'It''s'"), "Its");
    assert_eq!(theme_name_from_setting("' padded '"), "padded");
    assert_eq!(theme_name_from_setting(""), "");
    assert_eq!(theme_name_from_setting(" \t\n"), "");
    assert_eq!(theme_name_from_setting("''"), "");
}

#[test]
fn themes_to_load_are_those_not_in_the_table() {
    let mut icons = Icons::new("T", false);
    assert_eq!(icons.themes_to_load(), vec!["T", "hicolor"]);
    icons.find("folder", 256, 1, &env(0, "T", scenario_files())).unwrap();
    assert!(icons.themes_to_load().is_empty());
    assert_eq!(Icons::new("T", true).themes_to_load(), vec!["T"]);
    assert_eq!(Icons::new("AeromeFileManager", false).themes_to_load(), vec!["hicolor"]);
    assert_eq!(Icons::new("hicolor", false).themes_to_load(), vec!["hicolor", "hicolor"]);
}

#[test]
fn prepare_lists_the_paths_a_lookup_consults() {
    let mut icons = Icons::new("T", false);
    let bases = vec!["/base".to_string()];
    let descriptors = snapshot(&[
        ("/base/T/index.theme", Some(T_INDEX)),
        ("/base/hicolor/index.theme", Some(HICOLOR_INDEX)),
    ]);
    let paths = icons.prepare("folder", 256, 1, &bases, &descriptors);
    assert_eq!(
        paths,
        vec![
            "/base/T/places/folder.png",
            "/base/T/places/folder.svg",
            "/base/T/places/folder.xpm",
            "/base/T/scalable/folder.png",
            "/base/T/scalable/folder.svg",
            "/base/T/scalable/folder.xpm",
            "/base/AeromeFileManager/places/folder.png",
            "/base/AeromeFileManager/places/folder.svg",
            "/base/AeromeFileManager/places/folder.xpm",
            "/base/AeromeFileManager/mimetypes/folder.png",
            "/base/AeromeFileManager/mimetypes/folder.svg",
            "/base/AeromeFileManager/mimetypes/folder.xpm",
            "/base/AeromeFileManager/scalable/folder.png",
            "/base/AeromeFileManager/scalable/folder.svg",
            "/base/AeromeFileManager/scalable/folder.xpm",
            "/base/hicolor/48/folder.png",
            "/base/hicolor/48/folder.svg",
            "/base/hicolor/48/folder.xpm",
            "/base/folder.png",
            "/base/folder.svg",
            "/base/folder.xpm",
        ]
    );
    assert_eq!(icons.export().themes.len(), 3);
    assert!(icons.export().cache.is_empty());
}

#[test]
fn prepare_lists_nothing_for_a_cached_request_or_a_missing_theme() {
    let mut icons = Icons::new("T", false);
    let e = env(0, "T", scenario_files());
    icons.find("folder", 256, 1, &e).unwrap();
    assert!(icons.prepare("folder", 256, 1, &e.bases, &e.descriptors).is_empty());
    assert!(!icons.prepare("folder", 128, 1, &e.bases, &e.descriptors).is_empty());
    let mut icons = Icons::new("Gone", false);
    assert!(icons.prepare("folder", 256, 1, &e.bases, &e.descriptors).is_empty());
    assert_eq!(icons.export().themes.len(), 1);
    let mut icons = Icons::new("T", false);
    let only_t = snapshot(&[("/base/T/index.theme", Some(T_INDEX))]);
    assert!(icons.prepare("folder", 256, 1, &e.bases, &only_t).is_empty());
    assert_eq!(icons.export().themes.len(), 2);
}

#[test]
fn lookup_after_prepare_needs_only_the_listed_paths() {
    let bases = vec!["/base".to_string()];
    let descriptors = snapshot(&[
        ("/base/T/index.theme", Some(T_INDEX)),
        ("/base/hicolor/index.theme", Some(HICOLOR_INDEX)),
    ]);
    let everything = scenario_files();
    for (icon, size) in [("folder", 256), ("open-menu", 40), ("open-menu", 1000), ("ghost", 1)] {
        let mut direct = Icons::new("T", false);
        let expected = direct.find(icon, size, 1, &env(0, "T", scenario_files())).ok();
        let mut icons = Icons::new("T", false);
        let mut probed = Files::new();
        for path in icons.prepare(icon, size, 1, &bases, &descriptors) {
            if everything.contains(&path) {
                probed.insert(path, None);
            }
        }
        let e = Environment {
            now: 0,
            theme_name: "T".to_string(),
            bases: bases.clone(),
            descriptors: descriptors.clone(),
            files: probed,
        };
        assert_eq!(icons.find(icon, size, 1, &e).ok(), expected);
    }
}
