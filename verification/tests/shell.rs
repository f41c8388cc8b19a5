use aerome::files::Files;
use aerome::ipc::{
    FileTransferCmdResponse, FileTransferKind, FileTransferProgressState,
};
use aerome::models::{ConversationItem, ConversationItemFrom, Settings, Sort};
use aerome::thumbnails::{get_hash, get_thumbnail_path, ThumbnailSize, Thumbnails};
use aerome::icons::Icons;
use aerome::send_to::SendTo;
use aerome::text::{parse_int, push_decimal, replace_each};
use aerome::trash::{
    get_trash_dirs, make_trash_name, make_trash_record, read_restore_target, trash_entry,
    ClearPlan, Trash, TRASH_META_TEMPLATE,
};

fn snapshot(entries: &[(&str, Option<&str>)]) -> Files {
    let mut files = Files::new();
    for (path, text) in entries {
        files.insert(path.to_string(), text.map(|t| t.to_string()));
    }
    files
}

#[test]
fn defaults_of_the_messages() {
    assert_eq!(FileTransferKind::default(), FileTransferKind::Copy);
    assert_eq!(FileTransferCmdResponse::default(), FileTransferCmdResponse::Abort);
    assert_eq!(FileTransferProgressState::default(), FileTransferProgressState::Normal);
    assert_eq!(Sort::default(), Sort::AToZ);
    assert!(Settings::default().account.is_none());
}

#[test]
fn conversation_item_is_said_by_the_assistant() {
    let item = ConversationItem::new("hello".to_string(), Some("ls".to_string()));
    assert_eq!(item.said_by(), ConversationItemFrom::Ai);
    assert_eq!(item.message, Some("hello".to_string()));
    assert_eq!(item.code, Some("ls".to_string()));
    let item = ConversationItem::new(String::new(), None);
    assert_eq!(item.message, Some(String::new()));
    assert_eq!(item.code, None);
}

#[test]
fn thumbnail_fallback_order_rotates() {
    let (n, l, x, xx) =
        (ThumbnailSize::Normal, ThumbnailSize::Large, ThumbnailSize::XLarge, ThumbnailSize::XXLarge);
    assert_eq!(n.get_fallback_order(), vec![n, l, x, xx]);
    assert_eq!(l.get_fallback_order(), vec![l, x, xx, n]);
    assert_eq!(x.get_fallback_order(), vec![x, xx, n, l]);
    assert_eq!(xx.get_fallback_order(), vec![xx, n, l, x]);
}

#[test]
fn thumbnail_sizes_have_directories_and_pixels() {
    assert_eq!(ThumbnailSize::Normal.directory(), "normal");
    assert_eq!(ThumbnailSize::Large.directory(), "large");
    assert_eq!(ThumbnailSize::XLarge.directory(), "x-large");
    assert_eq!(ThumbnailSize::XXLarge.directory(), "xx-large");
    assert_eq!(ThumbnailSize::Normal.pixels(), 128);
    assert_eq!(ThumbnailSize::Large.pixels(), 256);
    assert_eq!(ThumbnailSize::XLarge.pixels(), 512);
    assert_eq!(ThumbnailSize::XXLarge.pixels(), 1024);
}

#[test]
fn thumbnail_path_is_below_the_cache_directory() {
    assert_eq!(
        get_thumbnail_path("/home/u/.cache", "abc123", ThumbnailSize::Large),
        "/home/u/.cache/thumbnails/large/abc123.png"
    );
    assert_eq!(
        get_thumbnail_path("/c/", "h", ThumbnailSize::XXLarge),
        "/c/thumbnails/xx-large/h.png"
    );
}

#[test]
fn thumbnails_queue_files_in_order() {
    let mut t = Thumbnails::new("/c".to_string());
    assert!(t.take_queued().is_empty());
    t.generate("/a.png");
    t.generate("/b.png");
    assert_eq!(t.queue, vec!["/a.png", "/b.png"]);
    assert_eq!(t.take_queued(), vec!["/a.png", "/b.png"]);
    assert!(t.queue.is_empty());
    assert_eq!(t.cache_dir, "/c");
}

#[test]
fn thumbnails_find_follows_the_fallback_order() {
    let t = Thumbnails::new("/c".to_string());
    let files = snapshot(&[
        ("/c/thumbnails/normal/h.png", None),
        ("/c/thumbnails/x-large/h.png", None),
    ]);
    assert_eq!(t.find("h", ThumbnailSize::Normal, &files), Some("/c/thumbnails/normal/h.png".to_string()));
    assert_eq!(t.find("h", ThumbnailSize::Large, &files), Some("/c/thumbnails/x-large/h.png".to_string()));
    assert_eq!(t.find("h", ThumbnailSize::XXLarge, &files), Some("/c/thumbnails/normal/h.png".to_string()));
    assert_eq!(t.find("other", ThumbnailSize::Normal, &files), None);
}

#[test]
fn thumbnail_url_needs_the_large_thumbnail() {
    let t = Thumbnails::new("/c".to_string());
    let files = snapshot(&[
        ("/c/thumbnails/large/h.png", None),
        ("/c/thumbnails/normal/g.png", None),
    ]);
    assert_eq!(t.url_from_hash("h", &files), Some("thumbnail://h".to_string()));
    assert_eq!(t.url_from_hash("g", &files), None);
}

#[test]
fn trash_directories_are_below_the_data_directory() {
    let (files, info) = get_trash_dirs("/home/u/.local/share");
    assert_eq!(files, "/home/u/.local/share/Trash/files");
    assert_eq!(info, "/home/u/.local/share/Trash/info");
    let e = trash_entry("/d", "notes.txt");
    assert_eq!(e.file, "/d/Trash/files/notes.txt");
    assert_eq!(e.info, "/d/Trash/info/notes.txt.trashinfo");
}

#[test]
fn restore_target_is_read_from_the_record() {
    let record = "[Trash Info]\nPath=/home/u/notes.txt\nDeletionDate=2023-04-01T10:00:00";
    assert_eq!(read_restore_target(record), Some("/home/u/notes.txt".to_string()));
    assert_eq!(read_restore_target("[Trash Info]\r\nPath=/a b\r\n"), Some("/a b".to_string()));
    assert_eq!(read_restore_target("Path=/x=y"), Some("y".to_string()));
    assert_eq!(read_restore_target("Path="), Some(String::new()));
    assert_eq!(read_restore_target("Path=/one\nPath=/two"), Some("/one".to_string()));
    assert_eq!(read_restore_target("[Trash Info]\nDeletionDate=x"), None);
    assert_eq!(read_restore_target(" Path=/x"), None);
    assert_eq!(read_restore_target(""), None);
}

#[test]
fn restore_plans_one_step_for_each_file() {
    let files = snapshot(&[
        ("/d/Trash/info/a.txt.trashinfo", Some("[Trash Info]\nPath=/home/u/a.txt\n")),
        ("/d/Trash/info/b.trashinfo", Some("[Trash Info]\nPath=/tmp/b\n")),
        ("/d/Trash/info/c.trashinfo", None),
        ("/d/Trash/info/e.trashinfo", Some("[Trash Info]\n")),
    ]);
    let trash = Trash::new();
    let names = vec!["a.txt".to_string(), "b".to_string()];
    assert!(trash.can_restore(&names, "/d", &files));
    let plan = trash.restore(&names, "/d", &files);
    assert_eq!(plan.len(), 2);
    assert_eq!(plan[0].from, "/d/Trash/files/a.txt");
    assert_eq!(plan[0].to, "/home/u/a.txt");
    assert_eq!(plan[0].info, "/d/Trash/info/a.txt.trashinfo");
    assert_eq!(plan[1].from, "/d/Trash/files/b");
    assert_eq!(plan[1].to, "/tmp/b");
    assert_eq!(plan[1].info, "/d/Trash/info/b.trashinfo");
    assert!(trash.can_restore(&[], "/d", &files));
    assert!(trash.restore(&[], "/d", &files).is_empty());
    assert!(!trash.can_restore(&["a.txt".to_string(), "c".to_string()], "/d", &files));
    assert!(!trash.can_restore(&["d".to_string()], "/d", &files));
    assert!(!trash.can_restore(&["e".to_string()], "/d", &files));
}

#[test]
fn clear_plans_entries_or_everything() {
    let trash = Trash::new();
    let names = vec!["a".to_string(), "b.txt".to_string()];
    match trash.clear(Some(&names), "/d") {
        ClearPlan::Entries(entries) => {
            assert_eq!(entries.len(), 2);
            assert_eq!(entries[0].file, "/d/Trash/files/a");
            assert_eq!(entries[0].info, "/d/Trash/info/a.trashinfo");
            assert_eq!(entries[1].file, "/d/Trash/files/b.txt");
            assert_eq!(entries[1].info, "/d/Trash/info/b.txt.trashinfo");
        }
        ClearPlan::Everything { .. } => panic!("entries were given"),
    }
    match trash.clear(None, "/d") {
        ClearPlan::Everything { files, info } => {
            assert_eq!(files, "/d/Trash/files");
            assert_eq!(info, "/d/Trash/info");
        }
        ClearPlan::Entries(_) => panic!("no entries were given"),
    }
}

#[test]
fn trash_name_gets_the_attempt_put_in() {
    assert_eq!(make_trash_name("notes.txt", 0), "notes.txt");
    assert_eq!(make_trash_name("notes.txt", 1), "notes.1.txt");
    assert_eq!(make_trash_name("notes.txt", 12), "notes.12.txt");
    assert_eq!(make_trash_name("archive.tar.gz", 3), "archive.3.tar.gz");
    assert_eq!(make_trash_name("README", 2), "README.2");
    assert_eq!(make_trash_name(".profile", 1), ".1.profile");
    assert_eq!(make_trash_name("trailing.", 1), "trailing.1.");
    assert_eq!(make_trash_name("", 0), "");
    assert_eq!(make_trash_name("", 7), ".7");
}

#[test]
fn decimal_digits_are_written_without_leading_zeros() {
    for (n, text) in [
        (0u64, "0"),
        (7, "7"),
        (10, "10"),
        (909, "909"),
        (1234567890, "1234567890"),
        (u64::MAX, "18446744073709551615"),
    ] {
        let mut s = String::from("n=");
        push_decimal(&mut s, n);
        assert_eq!(s, format!("n={text}"));
    }
}

#[test]
fn decimal_digits_parse_back() {
    for n in [0i32, 1, 9, 10, 99, 100, 4096, i32::MAX] {
        let mut s = String::new();
        push_decimal(&mut s, n as u64);
        let chars: Vec<char> = s.chars().collect();
        assert_eq!(parse_int(&chars, 0), Some(n));
    }
}

#[test]
fn replace_each_replaces_from_the_left_without_overlap() {
    assert_eq!(replace_each("a-b-c", "-", "+"), "a+b+c");
    assert_eq!(replace_each("aaa", "aa", "b"), "ba");
    assert_eq!(replace_each("aaaa", "aa", "a"), "aa");
    assert_eq!(replace_each("abc", "abc", ""), "");
    assert_eq!(replace_each("abc", "x", "y"), "abc");
    assert_eq!(replace_each("abc", "", "y"), "abc");
    assert_eq!(replace_each("", "a", "y"), "");
    assert_eq!(replace_each("ab", "abc", "y"), "ab");
    assert_eq!(replace_each("$PATH$PATH", "$PATH", "/x"), "/x/x");
}

#[test]
fn trash_record_fills_in_path_and_date() {
    assert_eq!(TRASH_META_TEMPLATE, "[Trash Info]\nPath=$PATH\nDeletionDate=$DATE");
    assert_eq!(
        make_trash_record("/home/u/notes.txt", "2023-04-01T10:00:00"),
        "[Trash Info]\nPath=/home/u/notes.txt\nDeletionDate=2023-04-01T10:00:00"
    );
    assert_eq!(
        read_restore_target(&make_trash_record("/home/u/a b", "2023-04-01T10:00:00")),
        Some("/home/u/a b".to_string())
    );
    assert_eq!(
        make_trash_record("/odd/$DATE", "now"),
        "[Trash Info]\nPath=/odd/now\nDeletionDate=now"
    );
}

#[test]
fn current_theme_name_comes_from_the_settings_or_the_application() {
    assert_eq!(Icons::get_current_theme_name(Some("'Yaru'\n")), "Yaru");
    assert_eq!(Icons::get_current_theme_name(Some("")), "");
    assert_eq!(Icons::get_current_theme_name(None), "AeromeFileManager");
}

#[test]
fn email_arguments_attach_each_file() {
    let files = vec!["a.txt".to_string(), "b c.png".to_string()];
    assert_eq!(
        SendTo::email("/home/u/docs", &files),
        vec!["--attach", "/home/u/docs/a.txt", "--attach", "/home/u/docs/b c.png"]
    );
    assert!(SendTo::email("/home/u", &[]).is_empty());
    assert_eq!(SendTo::email("/x/", &["/abs".to_string()]), vec!["--attach", "/abs"]);
}

#[test]
fn hash_is_the_digest_of_the_normalized_address() {
    assert_eq!(get_hash("/home/u/a.png"), Some("fabc4f4e3c7bfbb5cfac4ceccea18df1".to_string()));
    assert_eq!(get_hash("/tmp/a b.png"), Some("f2584ab78dd95a88bd0d3f0ecaee7a8c".to_string()));
    assert_eq!(get_hash("/"), Some("03f0716f0d219f8b767d0e5ac6c3da37".to_string()));
    assert_ne!(get_hash("/home/u/a.png"), get_hash("/home/u/b.png"));
}

#[test]
fn hash_of_what_is_no_address_is_none() {
    assert_eq!(get_hash("a b/c"), None);
    assert_eq!(get_hash("[/x"), None);
}

#[test]
fn thumbnail_url_of_a_path_goes_by_its_hash() {
    let t = Thumbnails::new("/c".to_string());
    let files = snapshot(&[("/c/thumbnails/large/fabc4f4e3c7bfbb5cfac4ceccea18df1.png", None)]);
    assert_eq!(
        t.url_from("/home/u/a.png", &files),
        Some("thumbnail://fabc4f4e3c7bfbb5cfac4ceccea18df1".to_string())
    );
    assert_eq!(t.url_from("/home/u/b.png", &files), None);
    assert_eq!(t.url_from("a b/c", &files), None);
}
