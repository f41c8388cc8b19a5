use aerome::files::{
    get_basename_list, join, make_descriptor_path, make_icon_path, make_plain_icon_path, Files,
    APP_NAME, FILE_MANAGER_THEME_NAME,
};

#[test]
fn join_adds_one_separator() {
    assert_eq!(join("/usr/share", "icons"), "/usr/share/icons");
    assert_eq!(join("/usr/share/", "icons"), "/usr/share/icons");
    assert_eq!(join("", "icons"), "icons");
    assert_eq!(join("/", "icons"), "/icons");
    assert_eq!(join("a", ""), "a/");
    assert_eq!(join("a", "/etc"), "/etc");
    assert_eq!(join("", ""), "");
}

#[test]
fn icon_path_is_base_theme_subdir_icon_ext() {
    assert_eq!(
        make_icon_path("/usr/share/icons", "Yaru", "48x48/places", "folder", "png"),
        "/usr/share/icons/Yaru/48x48/places/folder.png"
    );
    assert_eq!(
        make_icon_path("/b", "T", "scalable", "application-vnd.ms-excel", "svg"),
        "/b/T/scalable/application-vnd.ms-excel.svg"
    );
}

#[test]
fn plain_and_descriptor_paths() {
    assert_eq!(make_plain_icon_path("/usr/share/pixmaps", "gimp", "xpm"), "/usr/share/pixmaps/gimp.xpm");
    assert_eq!(make_descriptor_path("/usr/share/icons", "hicolor"), "/usr/share/icons/hicolor/index.theme");
}

#[test]
fn base_directories_come_in_priority_order() {
    let bases = get_basename_list(
        Some("/home/u"),
        Some("/usr/local/share:/usr/share/"),
        Some("/home/u/.local/share"),
    );
    assert_eq!(
        bases,
        vec![
            "/home/u/.icons",
            "/usr/local/share/icons",
            "/usr/share/icons",
            "/usr/share/pixmaps",
            "/home/u/.local/share/aerome",
        ]
    );
}

#[test]
fn base_directories_without_environment() {
    assert_eq!(get_basename_list(None, None, None), vec!["/usr/share/pixmaps"]);
    assert_eq!(
        get_basename_list(None, Some(""), None),
        vec!["icons", "/usr/share/pixmaps"]
    );
    assert_eq!(
        get_basename_list(Some("/h"), None, None),
        vec!["/h/.icons", "/usr/share/pixmaps"]
    );
    assert_eq!(
        get_basename_list(None, Some("/a:/b:/c"), Some("/l")),
        vec!["/a/icons", "/b/icons", "/c/icons", "/usr/share/pixmaps", "/l/aerome"]
    );
}

#[test]
fn names_of_the_application() {
    assert_eq!(APP_NAME, "aerome");
    assert_eq!(FILE_MANAGER_THEME_NAME, "AeromeFileManager");
}

#[test]
fn snapshot_answers_for_the_first_entry_of_a_path() {
    let mut files = Files::new();
    assert!(!files.contains("/a"));
    assert_eq!(files.read("/a"), None);
    files.insert("/a".to_string(), None);
    files.insert("/b".to_string(), Some("text".to_string()));
    files.insert("/a".to_string(), Some("late".to_string()));
    files.insert("/b".to_string(), None);
    assert!(files.contains("/a"));
    assert!(files.contains("/b"));
    assert!(!files.contains("/c"));
    assert!(!files.contains("/A"));
    assert_eq!(files.read("/a"), None);
    assert_eq!(files.read("/b"), Some(&"text".to_string()));
    assert_eq!(files.read("/c"), None);
    assert_eq!(files.locate("/a"), 0);
    assert_eq!(files.locate("/b"), 1);
    assert_eq!(files.locate("/c"), 4);
}
