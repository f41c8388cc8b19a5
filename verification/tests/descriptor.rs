use aerome::descriptor::{parse, read_lines, read_list, read_policy};
use aerome::sizing::SizingPolicy;
use aerome::text::{parse_int, range_is, split_at_each, strip_prefix, to_chars, trimmed_end};

fn chars(s: &str) -> Vec<char> {
    s.chars().collect()
}

fn strings(v: &[Vec<char>]) -> Vec<String> {
    v.iter().map(|r| r.iter().collect()).collect()
}

fn policy_of(text: &str, name: &str) -> Option<SizingPolicy> {
    parse(text).sizing.iter().rev().find(|d| d.name == name).map(|d| d.policy)
}

#[test]
fn to_chars_gives_the_characters() {
    assert_eq!(to_chars("a\u{e9}z"), vec!['a', '\u{e9}', 'z']);
    assert_eq!(to_chars(""), Vec::<char>::new());
}

#[test]
fn split_keeps_empty_pieces() {
    let v = chars("a,,b,");
    assert_eq!(strings(&split_at_each(&v, 0, ',')), vec!["a", "", "b", ""]);
    assert_eq!(strings(&split_at_each(&v, 2, ',')), vec!["", "b", ""]);
    assert_eq!(strings(&split_at_each(&chars(""), 0, ',')), vec![""]);
    assert_eq!(strings(&split_at_each(&chars("abc"), 0, ',')), vec!["abc"]);
}

#[test]
fn lines_lose_their_carriage_return() {
    let v = chars("one\r\ntwo\n\nthree\r");
    assert_eq!(strings(&read_lines(&v)), vec!["one", "two", "", "three"]);
    assert_eq!(strings(&read_lines(&chars("x\n"))), vec!["x", ""]);
}

#[test]
fn list_items_drop_empty_ones() {
    let v = chars("Directories=16x16/apps,,scalable/apps,");
    assert_eq!(read_list(&v, 12), vec!["16x16/apps", "scalable/apps"]);
    assert_eq!(read_list(&chars(",,"), 0), Vec::<String>::new());
    assert_eq!(read_list(&chars("x"), 1), Vec::<String>::new());
}

#[test]
fn prefix_is_recognised() {
    assert_eq!(strip_prefix(&chars("Size=12"), "Size="), Some(5));
    assert_eq!(strip_prefix(&chars("Size"), "Size="), None);
    assert_eq!(strip_prefix(&chars(" Size=12"), "Size="), None);
    assert_eq!(strip_prefix(&chars("anything"), ""), Some(0));
}

#[test]
fn range_is_compares_exactly() {
    let v = chars("[Icon Theme]");
    assert!(range_is(&v, 1, 11, "Icon Theme"));
    assert!(!range_is(&v, 1, 10, "Icon Theme"));
    assert!(!range_is(&v, 0, 11, "Icon Theme"));
    assert!(range_is(&v, 3, 3, ""));
}

#[test]
fn trailing_blanks_are_trimmed() {
    let v = chars("Type=Fixed \t\r");
    assert_eq!(trimmed_end(&v, 5), 10);
    assert_eq!(trimmed_end(&chars("   "), 1), 1);
    assert_eq!(trimmed_end(&chars("ab"), 0), 2);
}

#[test]
fn integers_are_parsed_strictly() {
    assert_eq!(parse_int(&chars("Size=48"), 5), Some(48));
    assert_eq!(parse_int(&chars("-7"), 0), Some(-7));
    assert_eq!(parse_int(&chars("+7"), 0), Some(7));
    assert_eq!(parse_int(&chars("007"), 0), Some(7));
    assert_eq!(parse_int(&chars("2147483647"), 0), Some(i32::MAX));
    assert_eq!(parse_int(&chars("-2147483648"), 0), Some(i32::MIN));
    assert_eq!(parse_int(&chars("2147483648"), 0), None);
    assert_eq!(parse_int(&chars("-2147483649"), 0), None);
    assert_eq!(parse_int(&chars("99999999999999999999999"), 0), None);
    assert_eq!(parse_int(&chars(""), 0), None);
    assert_eq!(parse_int(&chars("-"), 0), None);
    assert_eq!(parse_int(&chars("+"), 0), None);
    assert_eq!(parse_int(&chars("12 "), 0), None);
    assert_eq!(parse_int(&chars(" 12"), 0), None);
    assert_eq!(parse_int(&chars("1x"), 0), None);
    assert_eq!(parse_int(&chars("--1"), 0), None);
}

#[test]
fn policy_lines_set_size_and_kind() {
    let p = SizingPolicy::Fixed(0);
    assert_eq!(read_policy(p, &chars("Size=22")), SizingPolicy::Fixed(22));
    assert_eq!(read_policy(p, &chars("Type=Scalable")), SizingPolicy::Scalable(0));
    assert_eq!(read_policy(p, &chars("Type=Threshold  ")), SizingPolicy::Threshold(0));
    assert_eq!(
        read_policy(SizingPolicy::Scalable(9), &chars("Type=Fixed")),
        SizingPolicy::Fixed(9)
    );
    assert_eq!(read_policy(SizingPolicy::Scalable(9), &chars("Size=4")), SizingPolicy::Scalable(4));
}

#[test]
fn malformed_policy_lines_are_skipped() {
    let p = SizingPolicy::Threshold(5);
    assert_eq!(read_policy(p, &chars("Size=big")), p);
    assert_eq!(read_policy(p, &chars("Size=")), p);
    assert_eq!(read_policy(p, &chars("Size=12px")), p);
    assert_eq!(read_policy(p, &chars("Type=Huge")), p);
    assert_eq!(read_policy(p, &chars("Type=fixed")), p);
    assert_eq!(read_policy(p, &chars("Context=Actions")), p);
    assert_eq!(read_policy(p, &chars("MinSize=1")), p);
    assert_eq!(read_policy(p, &chars("")), p);
}

#[test]
fn parse_reads_a_descriptor() {
    let text = "\
[Icon Theme]
Name=Sample
Comment=A sample
Inherits=Humanity,hicolor
Directories=16x16/apps,scalable/apps,48x48/places

[16x16/apps]
Size=16
Context=Applications
Type=Fixed

[scalable/apps]
Size=48
Type=Scalable
MinSize=1
MaxSize=256

[48x48/places]
Type=Threshold
Size=48
Threshold=2
";
    let d = parse(text);
    assert_eq!(d.directories, vec!["16x16/apps", "scalable/apps", "48x48/places"]);
    assert_eq!(d.inherits, vec!["Humanity", "hicolor"]);
    assert_eq!(d.sizing.len(), 3);
    assert_eq!(d.sizing[0].name, "16x16/apps");
    assert_eq!(d.sizing[0].policy, SizingPolicy::Fixed(16));
    assert_eq!(d.sizing[1].name, "scalable/apps");
    assert_eq!(d.sizing[1].policy, SizingPolicy::Scalable(48));
    assert_eq!(d.sizing[2].name, "48x48/places");
    assert_eq!(d.sizing[2].policy, SizingPolicy::Threshold(48));
}

#[test]
fn parse_defaults_to_fixed_and_zero() {
    assert_eq!(policy_of("[a]\n", "a"), Some(SizingPolicy::Fixed(0)));
    assert_eq!(policy_of("[a]\nSize=7\n", "a"), Some(SizingPolicy::Fixed(7)));
    assert_eq!(policy_of("[a]\nType=Unknown\nSize=7\n", "a"), Some(SizingPolicy::Fixed(7)));
    assert_eq!(policy_of("[a]\nSize=7\n", "b"), None);
}

#[test]
fn parse_skips_an_unparseable_size() {
    let d = parse("[Icon Theme]\nDirectories=a,b\n[a]\nSize=x16\nType=Scalable\n[b]\nSize=24\n");
    assert_eq!(d.directories, vec!["a", "b"]);
    assert_eq!(d.sizing[0].policy, SizingPolicy::Scalable(0));
    assert_eq!(d.sizing[1].policy, SizingPolicy::Fixed(24));
}

#[test]
fn parse_ignores_lines_before_the_first_section() {
    let d = parse("Directories=x\nSize=3\n[Icon Theme]\nDirectories=a\n");
    assert_eq!(d.directories, vec!["a"]);
    assert!(d.sizing.is_empty());
    assert!(d.inherits.is_empty());
}

#[test]
fn parse_takes_the_last_of_repeated_keys_and_sections() {
    let d = parse(
        "[Icon Theme]\nDirectories=a\nInherits=x\nDirectories=b,c\nInherits=y,z\n[b]\nSize=1\n[b]\nSize=2\n",
    );
    assert_eq!(d.directories, vec!["b", "c"]);
    assert_eq!(d.inherits, vec!["y", "z"]);
    assert_eq!(policy_of(
        "[b]\nSize=1\n[b]\nSize=2\n", "b"), Some(SizingPolicy::Fixed(2)));
    assert_eq!(d.sizing.len(), 2);
}

#[test]
fn parse_handles_windows_line_endings() {
    let d = parse("[Icon Theme]\r\nDirectories=a\r\n[a]\r\nSize=16\r\nType=Threshold\r\n");
    assert_eq!(d.directories, vec!["a"]);
    assert_eq!(d.sizing[0].name, "a");
    assert_eq!(d.sizing[0].policy, SizingPolicy::Threshold(16));
}

#[test]
fn parse_accepts_odd_headers() {
    let d = parse("[\n[]\n[x\n");
    let names: Vec<&str> = d.sizing.iter().map(|s| s.name.as_str()).collect();
    assert_eq!(names, vec!["", "", ""]);
    let d = parse("[Icon Theme] \nDirectories=a\n");
    assert!(d.directories.is_empty());
    assert_eq!(d.sizing[0].name, "Icon Theme]");
}

#[test]
fn parse_of_empty_text_declares_nothing() {
    let d = parse("");
    assert!(d.directories.is_empty());
    assert!(d.inherits.is_empty());
    assert!(d.sizing.is_empty());
}
