use ls_rs::display::{
    self, display_entries, get_entry_color, grid_shape, grid_text_of, long_text_of, name_or_id,
    terminal_width_from, DisplayConfig, DisplayError, LongColumns,
};
use ls_rs::entry::{get_file_type_char, FileInfo, FileKind, Timestamp};
use ls_rs::formatting::{self, color_for, humanize, humanize_size, ColorMode, FormattingOptions, ListFormat, SizeFormat, UnitStyle};
use ls_rs::permissions::get_mode_string;

fn entry(name: &str, kind: FileKind, size: u64) -> FileInfo {
    FileInfo {
        name: name.to_string(),
        path: format!("/d/{}", name),
        kind,
        size,
        modified: Some(Timestamp { secs: 0, nanos: 0 }),
        mode: 0o644,
        nlink: 1,
        uid: 1000,
        gid: 1000,
        inode: 1,
        link_target: None,
        security_context: None,
    }
}

fn config(width: usize) -> DisplayConfig {
    DisplayConfig {
        term_width: width,
        color_enabled: false,
        use_long_format: false,
        human_readable: false,
        selinux_handler: None,
    }
}

#[test]
fn short_sizes_round_values() {
    assert_eq!(display::format_size(0, true), "0B");
    assert_eq!(display::format_size(1024, true), "1.0K");
    assert_eq!(display::format_size(1536, true), "1.5K");
    assert_eq!(display::format_size(1023, true), "1023B");
    assert_eq!(display::format_size(1024 * 1024 * 1024 * 1024 * 1024, true), "1.0P");
    assert_eq!(display::format_size(1234, false), "1234");
}

#[test]
fn spaced_sizes_round_values() {
    assert_eq!(formatting::format_size(0, &SizeFormat::Human), "0 B");
    assert_eq!(formatting::format_size(1024, &SizeFormat::Human), "1.0 KiB");
    assert_eq!(formatting::format_size(1000, &SizeFormat::SI), "1.0 KB");
    assert_eq!(formatting::format_size(999, &SizeFormat::SI), "999 B");
    assert_eq!(formatting::format_size(1_500_000, &SizeFormat::SI), "1.5 MB");
    assert_eq!(formatting::format_size(5 * 1024 * 1024 * 1024 * 1024 * 1024, &SizeFormat::Human), "5120.0 TiB");
    assert_eq!(formatting::format_size(42, &SizeFormat::Bytes), "42");
    assert_eq!(formatting::format_size(0, &SizeFormat::Blocks), "0");
    assert_eq!(formatting::format_size(513, &SizeFormat::Blocks), "2");
    assert_eq!(formatting::format_size(u64::MAX, &SizeFormat::Blocks), "36028797018963968");
}

#[test]
fn humanize_rounds_to_nearest_tenth() {
    assert_eq!(humanize(1024 + 973, UnitStyle::Binary), "2.0 KiB");
    assert_eq!(humanize_size(1100, 1024), "1.1 KiB");
    assert_eq!(humanize_size(1280, 1024), "1.2 KiB");
    assert_eq!(humanize_size(1331, 1024), "1.3 KiB");
    assert_eq!(humanize_size(1152, 1024), "1.1 KiB");
    assert_eq!(humanize_size(1408, 1024), "1.4 KiB");
    assert_eq!(display::format_size(1280, true), "1.2K");
    assert_eq!(humanize_size(1050, 1000), "1.0 KB");
    assert_eq!(humanize_size(1150, 1000), "1.2 KB");
    assert_eq!(humanize_size(1536, 1024), "1.5 KiB");
    assert_eq!(humanize_size(u64::MAX, 1024), "16777216.0 TiB");
    assert_eq!(humanize_size(2_048_000, 1000), "2.0 MB");
    assert_eq!(humanize(u64::MAX, UnitStyle::Short), "16384.0P");
}

#[test]
fn mode_strings() {
    assert_eq!(get_mode_string(FileKind::Regular, 0o755), "-rwxr-xr-x");
    assert_eq!(get_mode_string(FileKind::Regular, 0o4755), "-rwsr-xr-x");
    assert_eq!(get_mode_string(FileKind::Directory, 0o700), "drwx------");
    assert_eq!(get_mode_string(FileKind::Regular, 0o4644), "-rwSr--r--");
    assert_eq!(get_mode_string(FileKind::Directory, 0o1777), "drwxrwxrwt");
    assert_eq!(get_mode_string(FileKind::Directory, 0o1770), "drwxrwx--T");
    assert_eq!(get_mode_string(FileKind::Regular, 0o2750), "-rwxr-s---");
    assert_eq!(get_mode_string(FileKind::Symlink, 0o777), "lrwxrwxrwx");
    assert_eq!(get_file_type_char(FileKind::CharDevice), 'c');
    assert_eq!(get_file_type_char(FileKind::Unknown), '-');
}

#[test]
fn grid_is_filled_column_by_column() {
    assert_eq!(grid_shape(3, 3, 10), (2, 2));
    let v = vec![
        entry("a", FileKind::Regular, 0),
        entry("bb", FileKind::Regular, 0),
        entry("ccc", FileKind::Regular, 0),
    ];
    assert_eq!(grid_text_of(&v, &vec![1, 2, 3], false, 10), "a    ccc\nbb\n");
    assert_eq!(display::display_columns(&v, &config(10)), "a    ccc\nbb\n");
}

#[test]
fn grid_of_narrow_terminal_has_one_column() {
    assert_eq!(grid_shape(3, 3, 4), (1, 3));
    let v = vec![entry("a", FileKind::Regular, 0), entry("bb", FileKind::Regular, 0)];
    assert_eq!(display::display_columns(&v, &config(1)), "a\nbb\n");
    assert_eq!(display::display_columns(&Vec::new(), &config(80)), "");
}

#[test]
fn grid_pads_by_display_width() {
    let v = vec![entry("日本", FileKind::Regular, 0), entry("x", FileKind::Regular, 0)];
    assert_eq!(display::display_columns(&v, &config(80)), "日本  x\n");
}

#[test]
fn grid_colors_names() {
    let mut exe = entry("run", FileKind::Regular, 0);
    exe.mode = 0o755;
    let v = vec![entry("d", FileKind::Directory, 0), exe];
    let mut c = config(80);
    c.color_enabled = true;
    assert_eq!(
        display::display_columns(&v, &c),
        "\x1b[34md\x1b[0m    \x1b[32mrun\x1b[0m\n"
    );
    assert_eq!(get_entry_color(&entry("f", FileKind::Regular, 0)), "\x1b[0m");
}

#[test]
fn long_lines_align_columns() {
    let mut a = entry("a.txt", FileKind::Regular, 10);
    a.nlink = 12;
    let mut l = entry("link", FileKind::Symlink, 4);
    l.mode = 0o777;
    l.link_target = Some("a.txt".to_string());
    let mut m = entry("gone", FileKind::Symlink, 4);
    m.mode = 0o777;
    let v = vec![a, l, m];
    let cols = LongColumns { links_width: 2, size_width: 2, label_width: 0, color: false, human: false };
    let users = vec!["alice".to_string(), "alice".to_string(), "1001".to_string()];
    let groups = vec!["staff".to_string(), "staff".to_string(), "staff".to_string()];
    let t = Some("Jan 01 00:00".to_string());
    let times = vec![t.clone(), t.clone(), t];
    let r = long_text_of(&v, &cols, &users, &groups, &times, &vec![None, None, None]);
    assert!(r.error.is_none());
    assert_eq!(
        r.text,
        "-rw-r--r-- 12 alice staff 10 Jan 01 00:00 a.txt\n\
         lrwxrwxrwx  1 alice staff  4 Jan 01 00:00 link -> a.txt\n\
         lrwxrwxrwx  1 1001 staff  4 Jan 01 00:00 gone -> ???\n"
    );
}

#[test]
fn long_lines_with_labels() {
    let v = vec![entry("f", FileKind::Regular, 1)];
    let cols = LongColumns { links_width: 1, size_width: 1, label_width: 6, color: false, human: true };
    let r = long_text_of(
        &v,
        &cols,
        &vec!["u".to_string()],
        &vec!["g".to_string()],
        &vec![Some("Feb 02 10:20".to_string())],
        &vec![Some("a:b:c".to_string())],
    );
    assert_eq!(r.text, "-rw-r--r-- 1 u g 1B Feb 02 10:20 a:b:c  f\n");
}

#[test]
fn long_listing_stops_at_missing_time() {
    let v = vec![entry("a", FileKind::Regular, 1), entry("b", FileKind::Regular, 1)];
    let cols = LongColumns { links_width: 1, size_width: 1, label_width: 0, color: false, human: false };
    let us = vec!["u".to_string(), "u".to_string()];
    let r = long_text_of(&v, &cols, &us, &us, &vec![Some("Jan 01 00:00".to_string()), None], &vec![None, None]);
    assert!(matches!(r.error, Some(DisplayError::TimeUnavailable(1))));
    assert_eq!(r.text, "-rw-r--r-- 1 u u 1 Jan 01 00:00 a\n");
}

#[test]
fn long_display_reports_unknown_time() {
    let mut a = entry("a", FileKind::Regular, 1);
    a.modified = None;
    let mut c = config(80);
    c.use_long_format = true;
    let r = display_entries(&vec![a], &c);
    assert!(matches!(r.error, Some(DisplayError::TimeUnavailable(0))));
    assert_eq!(r.text, "");
}

#[test]
fn long_display_writes_a_line_per_entry() {
    let mut c = config(80);
    c.use_long_format = true;
    let r = display_entries(&vec![entry("a", FileKind::Regular, 7), entry("b", FileKind::Directory, 4096)], &c);
    assert!(r.error.is_none());
    let lines: Vec<&str> = r.text.lines().collect();
    assert_eq!(lines.len(), 2);
    assert!(lines[0].starts_with("-rw-r--r-- 1 "));
    assert!(lines[0].ends_with(" a"));
    assert!(lines[1].starts_with("drw-r--r-- 1 "));
    assert!(lines[1].contains(" 4096 "));
}

#[test]
fn owner_falls_back_to_id() {
    assert_eq!(name_or_id(1001, None), "1001");
    assert_eq!(name_or_id(0, Some("root".to_string())), "root");
}

#[test]
fn terminal_width_falls_back_to_eighty() {
    assert_eq!(terminal_width_from(None), 80);
    assert_eq!(terminal_width_from(Some((132, 40))), 132);
    assert!(display::get_terminal_width() > 0);
}

#[test]
fn color_choice() {
    assert!(color_for(&ColorMode::Always, false));
    assert!(!color_for(&ColorMode::Never, true));
    assert!(color_for(&ColorMode::Auto, true));
    assert!(!color_for(&ColorMode::Auto, false));
    assert!(formatting::should_use_color(&ColorMode::Always));
    assert!(!formatting::should_use_color(&ColorMode::Never));
}

#[test]
fn default_options() {
    let f = FormattingOptions::default();
    assert_eq!(f.format, ListFormat::Columns);
    assert_eq!(f.size_format, SizeFormat::Bytes);
    let d = DisplayConfig::default();
    assert!(d.color_enabled);
    assert!(!d.use_long_format);
    assert!(d.term_width > 0);
    let s = d.with_selinux(None);
    assert!(s.selinux_handler.is_none());
}

#[test]
fn local_times_have_fixed_width() {
    let t = display::format_time(Some(Timestamp { secs: 86_400 * 45, nanos: 0 })).unwrap();
    assert_eq!(t.chars().count(), 12);
    assert!(t.starts_with("Feb 1") || t.starts_with("Feb 14") || t.starts_with("Feb 15"));
    assert!(display::format_time(None).is_none());
    assert!(display::format_time(Some(Timestamp { secs: i64::MAX, nanos: 0 })).is_none());
}

#[test]
fn user_and_group_names_are_never_empty() {
    assert!(!display::get_user_name(0).is_empty());
    assert!(!display::get_group_name(4_000_000_000).is_empty());
}
