use ls_rs::display::DisplayConfig;
use ls_rs::entry::{FileInfo, FileKind, Timestamp};
use ls_rs::filesystem::{collect_entries, list_directory, prepare_entries};
use ls_rs::filtering::{filter_entries, include_with, should_include_entry, FileTypes, FilterOptions};
use ls_rs::selinux::{SELinuxConfig, SELinuxContext, SELinuxError, SELinuxExt, SELinuxHandler};
use ls_rs::sorting::{SortKey, SortOptions};

fn entry(name: &str, kind: FileKind, size: u64) -> FileInfo {
    FileInfo {
        name: name.to_string(),
        path: format!("/d/{}", name),
        kind,
        size,
        modified: Some(Timestamp { secs: 0, nanos: 0 }),
        mode: 0o644,
        nlink: 1,
        uid: 1000,
        gid: 1000,
        inode: 1,
        link_target: None,
        security_context: None,
    }
}

fn sample() -> Vec<FileInfo> {
    vec![
        entry("sub", FileKind::Directory, 4096),
        entry(".cfg", FileKind::Regular, 3),
        entry("a.txt", FileKind::Regular, 10),
    ]
}

fn grid(width: usize) -> DisplayConfig {
    DisplayConfig {
        term_width: width,
        color_enabled: false,
        use_long_format: false,
        human_readable: false,
        selinux_handler: None,
    }
}

fn names(v: &[FileInfo]) -> Vec<String> {
    v.iter().map(|e| e.name.clone()).collect()
}

#[test]
fn listing_leaves_out_hidden_entries() {
    let o = SortOptions::default();
    assert_eq!(names(&prepare_entries(sample(), false, &o)), vec!["a.txt", "sub"]);
    let r = list_directory(sample(), false, &o, &grid(80));
    assert!(r.error.is_none());
    assert_eq!(r.text, "a.txt  sub\n");
}

#[test]
fn listing_with_all_shows_hidden_entries() {
    let o = SortOptions::default();
    assert_eq!(names(&prepare_entries(sample(), true, &o)), vec![".cfg", "a.txt", "sub"]);
    let r = list_directory(sample(), true, &o, &grid(80));
    assert_eq!(r.text, ".cfg   a.txt  sub\n");
    let ci = SortOptions { case_sensitive: false, ..o };
    assert_eq!(names(&prepare_entries(sample(), true, &ci)), vec![".cfg", "a.txt", "sub"]);
}

#[test]
fn collect_keeps_order() {
    assert_eq!(names(&collect_entries(sample(), false)), vec!["sub", "a.txt"]);
    assert_eq!(names(&collect_entries(sample(), true)), vec!["sub", ".cfg", "a.txt"]);
}

#[test]
fn listing_by_size_reversed() {
    let o = SortOptions { key: SortKey::Size, reverse: true, ..SortOptions::default() };
    assert_eq!(names(&prepare_entries(sample(), true, &o)), vec!["sub", "a.txt", ".cfg"]);
}

fn all_kinds() -> FilterOptions {
    FilterOptions { show_hidden: true, file_types: FileTypes::all(), ..FilterOptions::default() }
}

#[test]
fn filter_by_kind_size_and_hidden() {
    let o = FilterOptions { show_hidden: false, ..all_kinds() };
    assert_eq!(names(&filter_entries(sample(), &o)), vec!["sub", "a.txt"]);
    let files = FilterOptions { file_types: FileTypes { files: true, ..FileTypes::default() }, ..all_kinds() };
    assert_eq!(names(&filter_entries(sample(), &files)), vec![".cfg", "a.txt"]);
    let sized = FilterOptions { min_size: Some(4), max_size: Some(100), ..all_kinds() };
    assert_eq!(names(&filter_entries(sample(), &sized)), vec!["a.txt"]);
    assert!(filter_entries(sample(), &FilterOptions::default()).is_empty());
    assert!(!should_include_entry(&entry("x", FileKind::Unknown, 0), &all_kinds()));
}

#[test]
fn filter_by_pattern_and_expression() {
    let p = FilterOptions { pattern: Some("*.txt".to_string()), ..all_kinds() };
    assert_eq!(names(&filter_entries(sample(), &p)), vec!["a.txt"]);
    let bad = FilterOptions { pattern: Some("[".to_string()), ..all_kinds() };
    assert!(filter_entries(sample(), &bad).is_empty());
    let re = FilterOptions { regex: Some("^s.b$".to_string()), ..all_kinds() };
    assert_eq!(names(&filter_entries(sample(), &re)), vec!["sub"]);
    let e = entry("a.txt", FileKind::Regular, 10);
    assert!(include_with(&e, &p, true, false));
    assert!(!include_with(&e, &p, false, true));
    assert!(include_with(&e, &all_kinds(), false, false));
}

fn handler(enabled: bool, show: bool, max: Option<usize>) -> SELinuxHandler {
    SELinuxHandler::new(SELinuxConfig {
        enabled,
        show_context: show,
        truncate_context: max.is_some(),
        max_context_width: max,
    })
}

fn ctx(u: &str, r: &str, t: &str, l: &str) -> SELinuxContext {
    SELinuxContext { user: u.to_string(), role: r.to_string(), type_: t.to_string(), range: l.to_string() }
}

#[test]
fn contexts_parse_four_fields() {
    let h = handler(true, true, None);
    let c = h.parse_context("system_u:object_r:user_home_t:s0").unwrap();
    assert_eq!(c.user, "system_u");
    assert_eq!(c.role, "object_r");
    assert_eq!(c.type_, "user_home_t");
    assert_eq!(c.range, "s0");
    assert!(matches!(h.parse_context("a:b:c"), Err(SELinuxError::InvalidContext)));
    assert!(matches!(h.parse_context("a:b:c:d:e"), Err(SELinuxError::InvalidContext)));
    let empty = h.parse_context(":::").unwrap();
    assert_eq!(empty.user, "");
}

#[test]
fn contexts_of_entries() {
    let mut e = entry("f", FileKind::Regular, 0);
    assert!(matches!(e.get_selinux_context(&handler(true, true, None)), Ok(None)));
    e.security_context = Some("u:r:t:s0".to_string());
    let got = SELinuxExt::get_selinux_context(&e, &handler(true, true, None)).unwrap().unwrap();
    assert_eq!(got.type_, "t");
    assert!(matches!(e.get_selinux_context(&handler(false, true, None)), Ok(None)));
    e.security_context = Some("bad".to_string());
    assert!(matches!(e.get_selinux_context(&handler(true, true, None)), Ok(None)));
    e.security_context = Some(String::new());
    assert!(matches!(handler(true, true, None).get_context(&e.security_context), Ok(None)));
    assert!(handler(true, true, None).has_context(true));
    assert!(!handler(false, true, None).has_context(true));
}

#[test]
fn contexts_format_and_truncate() {
    let c = ctx("system_u", "object_r", "tmp_t", "s0");
    assert_eq!(handler(true, true, None).format_context(&c), "system_u:object_r:tmp_t:s0");
    assert_eq!(handler(true, true, Some(10)).format_context(&c), "system_...");
    assert_eq!(handler(true, true, Some(2)).format_context(&c), "...");
    assert_eq!(handler(true, true, Some(40)).format_context(&c), "system_u:object_r:tmp_t:s0");
}

#[test]
fn context_width_is_longest_shown() {
    let cs = vec![Some(ctx("u", "r", "t", "s0")), None, Some(ctx("user", "r", "t", "s0"))];
    assert_eq!(handler(true, true, None).get_context_width(&cs), 11);
    assert_eq!(handler(true, false, None).get_context_width(&cs), 0);
    assert_eq!(handler(false, true, None).get_context_width(&cs), 0);
    assert_eq!(handler(true, true, None).get_context_width(&vec![None]), 0);
}

#[test]
fn long_listing_shows_contexts() {
    let mut e = entry("f", FileKind::Regular, 0);
    e.security_context = Some("u:r:t:s0".to_string());
    let mut c = grid(80);
    c.use_long_format = true;
    c = c.with_selinux(Some(handler(true, true, None)));
    let r = list_directory(vec![e], false, &SortOptions::default(), &c);
    assert!(r.error.is_none());
    assert!(r.text.ends_with(" u:r:t:s0 f\n"));
}

#[test]
fn error_messages() {
    assert_eq!(SELinuxError::Disabled.message(), "SELinux is disabled");
    assert_eq!(SELinuxError::InvalidContext.message(), "Invalid SELinux context");
    assert_eq!(SELinuxError::Other("x".to_string()).message(), "SELinux error: x");
}

#[test]
fn unreadable_label_is_left_out() {
    let mut bad = entry("b", FileKind::Regular, 0);
    bad.security_context = Some("broken".to_string());
    let mut good = entry("g", FileKind::Regular, 0);
    good.security_context = Some("u:r:t:s0".to_string());
    let mut c = grid(80);
    c.use_long_format = true;
    c = c.with_selinux(Some(handler(true, true, None)));
    let r = list_directory(vec![bad, good], false, &SortOptions::default(), &c);
    assert!(r.error.is_none());
    let lines: Vec<&str> = r.text.lines().collect();
    assert_eq!(lines.len(), 2);
    assert!(lines[0].ends_with(" b"));
    assert!(!lines[0].contains("u:r:t:s0"));
    assert!(lines[1].ends_with(" u:r:t:s0 g"));
}
