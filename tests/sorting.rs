use ls_rs::entry::{FileInfo, FileKind, Timestamp};
use ls_rs::sorting::{compare_names, compare_text, extension, sort_entries, SortKey, SortOptions};
use std::cmp::Ordering;

fn entry(name: &str, kind: FileKind, size: u64) -> FileInfo {
    FileInfo {
        name: name.to_string(),
        path: format!("/d/{}", name),
        kind,
        size,
        modified: Some(Timestamp { secs: 1_700_000_000, nanos: 0 }),
        mode: 0o644,
        nlink: 1,
        uid: 1000,
        gid: 1000,
        inode: 1,
        link_target: None,
        security_context: None,
    }
}

fn names(v: &[FileInfo]) -> Vec<String> {
    v.iter().map(|e| e.name.clone()).collect()
}

fn opts(key: SortKey) -> SortOptions {
    SortOptions { key, ..SortOptions::default() }
}

#[test]
fn unsorted_keeps_input_order() {
    let mut v = vec![
        entry("zeta", FileKind::Regular, 5),
        entry("alpha", FileKind::Directory, 1),
        entry("mid", FileKind::Regular, 3),
    ];
    sort_entries(&mut v, &opts(SortKey::Unsorted));
    assert_eq!(names(&v), vec!["zeta", "alpha", "mid"]);
}

#[test]
fn dirs_first_holds_under_reverse() {
    for key in [SortKey::Name, SortKey::Size, SortKey::Unsorted] {
        let mut v = vec![
            entry("b.txt", FileKind::Regular, 1),
            entry("d1", FileKind::Directory, 9),
            entry("a.txt", FileKind::Regular, 2),
            entry("d0", FileKind::Directory, 0),
        ];
        let o = SortOptions { key, reverse: true, dirs_first: true, ..SortOptions::default() };
        sort_entries(&mut v, &o);
        assert_eq!(v[0].kind, FileKind::Directory);
        assert_eq!(v[1].kind, FileKind::Directory);
        assert_eq!(v[2].kind, FileKind::Regular);
        assert_eq!(v[3].kind, FileKind::Regular);
    }
}

#[test]
fn dirs_first_with_name_and_reverse() {
    let mut v = vec![
        entry("b.txt", FileKind::Regular, 1),
        entry("d1", FileKind::Directory, 9),
        entry("a.txt", FileKind::Regular, 2),
        entry("d0", FileKind::Directory, 0),
    ];
    let o = SortOptions { reverse: true, dirs_first: true, ..SortOptions::default() };
    sort_entries(&mut v, &o);
    assert_eq!(names(&v), vec!["d1", "d0", "b.txt", "a.txt"]);
}

#[test]
fn reverse_twice_restores_order() {
    let mut v = vec![
        entry("b", FileKind::Regular, 2),
        entry("a", FileKind::Regular, 2),
        entry("c", FileKind::Regular, 1),
        entry("d", FileKind::Regular, 3),
    ];
    let o = opts(SortKey::Size);
    sort_entries(&mut v, &o);
    let sorted = names(&v);
    assert_eq!(sorted, vec!["c", "b", "a", "d"]);
    let r = SortOptions { reverse: true, ..o };
    sort_entries(&mut v, &r);
    assert_eq!(names(&v), vec!["d", "b", "a", "c"]);
    sort_entries(&mut v, &o);
    assert_eq!(names(&v), sorted);
}

#[test]
fn case_insensitive_puts_apple_before_banana() {
    let a = entry("apple", FileKind::Regular, 0);
    let b = entry("Banana", FileKind::Regular, 0);
    assert_eq!(compare_names(&b, &a, false), Ordering::Greater);
    assert_eq!(compare_names(&a, &b, false), Ordering::Less);
    assert_eq!(compare_names(&b, &a, true), Ordering::Less);
    let mut v = vec![b, a];
    sort_entries(&mut v, &SortOptions { case_sensitive: false, ..SortOptions::default() });
    assert_eq!(names(&v), vec!["apple", "Banana"]);
}

#[test]
fn case_sensitive_puts_upper_case_first() {
    let mut v = vec![entry("apple", FileKind::Regular, 0), entry("Banana", FileKind::Regular, 0)];
    sort_entries(&mut v, &SortOptions::default());
    assert_eq!(names(&v), vec!["Banana", "apple"]);
}

#[test]
fn text_order_is_by_code_point_with_prefix_first() {
    assert_eq!(compare_text("abc", "abd"), Ordering::Less);
    assert_eq!(compare_text("ab", "abc"), Ordering::Less);
    assert_eq!(compare_text("b", "abc"), Ordering::Greater);
    assert_eq!(compare_text("", ""), Ordering::Equal);
    assert_eq!(compare_text("é", "z"), Ordering::Greater);
}

#[test]
fn extension_is_text_after_last_dot() {
    assert_eq!(extension("archive.tar.gz"), "gz");
    assert_eq!(extension("README"), "");
    assert_eq!(extension("trailing."), "");
    assert_eq!(extension(".cfg"), "cfg");
}

#[test]
fn sort_by_extension_ignoring_case() {
    let mut v = vec![
        entry("x.TXT", FileKind::Regular, 0),
        entry("y.md", FileKind::Regular, 0),
        entry("z", FileKind::Regular, 0),
    ];
    sort_entries(&mut v, &SortOptions { key: SortKey::Extension, case_sensitive: false, ..SortOptions::default() });
    assert_eq!(names(&v), vec!["z", "y.md", "x.TXT"]);
}

#[test]
fn sort_by_time_puts_unknown_first() {
    let mut a = entry("a", FileKind::Regular, 0);
    a.modified = Some(Timestamp { secs: 10, nanos: 5 });
    let mut b = entry("b", FileKind::Regular, 0);
    b.modified = None;
    let mut c = entry("c", FileKind::Regular, 0);
    c.modified = Some(Timestamp { secs: 10, nanos: 1 });
    let mut v = vec![a, b, c];
    sort_entries(&mut v, &opts(SortKey::Time));
    assert_eq!(names(&v), vec!["b", "c", "a"]);
}

#[test]
fn sort_by_type_follows_kind_order() {
    let mut v = vec![
        entry("f", FileKind::Regular, 0),
        entry("s", FileKind::Socket, 0),
        entry("l", FileKind::Symlink, 0),
        entry("d", FileKind::Directory, 0),
        entry("p", FileKind::Fifo, 0),
    ];
    sort_entries(&mut v, &opts(SortKey::Type));
    assert_eq!(names(&v), vec!["d", "l", "p", "s", "f"]);
}

#[test]
fn sort_by_ids_mode_and_inode() {
    let mut a = entry("a", FileKind::Regular, 0);
    let mut b = entry("b", FileKind::Regular, 0);
    a.uid = 5;
    b.uid = 2;
    a.gid = 1;
    b.gid = 7;
    a.mode = 0o755;
    b.mode = 0o644;
    a.inode = 3;
    b.inode = 4;
    let mut v = vec![a, b];
    sort_entries(&mut v, &opts(SortKey::Owner));
    assert_eq!(names(&v), vec!["b", "a"]);
    sort_entries(&mut v, &opts(SortKey::Group));
    assert_eq!(names(&v), vec!["a", "b"]);
    sort_entries(&mut v, &opts(SortKey::Permissions));
    assert_eq!(names(&v), vec!["b", "a"]);
    sort_entries(&mut v, &opts(SortKey::Inode));
    assert_eq!(names(&v), vec!["a", "b"]);
}

#[test]
fn equal_keys_keep_their_order() {
    let mut v = vec![
        entry("x", FileKind::Regular, 1),
        entry("y", FileKind::Regular, 0),
        entry("z", FileKind::Regular, 1),
        entry("w", FileKind::Regular, 0),
    ];
    sort_entries(&mut v, &opts(SortKey::Size));
    assert_eq!(names(&v), vec!["y", "w", "x", "z"]);
}

#[test]
fn sort_of_empty_list() {
    let mut v: Vec<FileInfo> = Vec::new();
    sort_entries(&mut v, &SortOptions::default());
    assert!(v.is_empty());
}
