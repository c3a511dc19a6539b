use dirsize::item::FileItem;
use dirsize::listing::{list_children, render_table, Child, ListError};
use dirsize::order::sort_items;
use dirsize::size::{entry_size, subtree_size, EntryKind, Probe};
use dirsize::units::formatted_size;

fn file(len: u64) -> Probe {
    Probe { kind: EntryKind::File, len: Some(len) }
}

fn dir() -> Probe {
    Probe { kind: EntryKind::Directory, len: Some(4096) }
}

fn child(name: &str, kind: EntryKind, len: Option<u64>, walk: Vec<Probe>) -> Option<Child> {
    Some(Child { name: name.to_string(), kind, len, walk })
}

fn names(items: &[FileItem]) -> Vec<String> {
    items.iter().map(|i| i.name.clone()).collect()
}

#[test]
fn formatted_size_unit_boundaries() {
    assert_eq!(formatted_size(1023), "1023B");
    assert_eq!(formatted_size(1024), "1.00KB");
    assert_eq!(formatted_size(1048576), "1.00MB");
    assert_eq!(formatted_size(1073741824), "1.00GB");
    assert_eq!(formatted_size(1099511627776), "1.00 TB");
}

#[test]
fn formatted_size_small_and_rounded_values() {
    assert_eq!(formatted_size(0), "0B");
    assert_eq!(formatted_size(100), "100B");
    assert_eq!(formatted_size(2048), "2.00KB");
    assert_eq!(formatted_size(5_000_000), "4.77MB");
    assert_eq!(formatted_size(1048575), "1024.00KB");
    assert_eq!(formatted_size(1152), "1.12KB");
    assert_eq!(formatted_size(1163), "1.14KB");
}

#[test]
fn formatted_size_agrees_with_float_formatting() {
    let units: [(u64, &str); 4] = [(1024, "KB"), (1048576, "MB"), (1073741824, "GB"), (1099511627776, " TB")];
    let mut size: u64 = 1024;
    while size < (1u64 << 52) {
        for step in [0u64, 1, 5, 117, 511, 512, 513, 1000] {
            let s = size + step;
            let (unit, suffix) = units.iter().rev().find(|(u, _)| s >= *u).copied().unwrap();
            let expected = format!("{:.2}{}", s as f64 / unit as f64, suffix);
            assert_eq!(formatted_size(s), expected, "size {}", s);
        }
        size = size * 3 / 2 + 7;
    }
}

#[test]
fn formatted_size_largest_value() {
    assert_eq!(formatted_size(u64::MAX), "16777216.00 TB");
}

#[test]
fn file_item_new_fills_every_field() {
    let it = FileItem::new("a.txt", 100, false);
    assert_eq!(it.name, "a.txt");
    assert_eq!(it.size, 100);
    assert_eq!(it.formatted_size, "100B");
    assert!(!it.is_dir);
}

#[test]
fn display_name_shows_marker_and_name() {
    let d = FileItem::new("sub", 2048, true).display_name();
    assert!(d == "\u{f4d3} sub" || d == "\x1B[34m\u{f4d3} sub\x1B[0m", "{:?}", d);
    let f = FileItem::new("a.txt", 1, false).display_name();
    assert!(f == "\u{f15b} a.txt" || f == "\x1B[33m\u{f15b} a.txt\x1B[0m", "{:?}", f);
}

#[test]
fn listing_with_failed_entry_is_fatal() {
    let children = vec![child("ok1", EntryKind::File, Some(10), vec![]), None, child("ok2", EntryKind::File, Some(20), vec![])];
    let r = list_children(Some(EntryKind::Directory), &children);
    assert_eq!(r.unwrap_err(), ListError::Unreadable);
}

#[test]
fn listing_with_denied_file_in_subdirectory() {
    let walk = vec![dir(), file(300), Probe { kind: EntryKind::File, len: None }, file(700)];
    let children = vec![child("d", EntryKind::Directory, Some(4096), walk), child("e", EntryKind::File, Some(5), vec![])];
    let items = list_children(Some(EntryKind::Directory), &children).unwrap();
    assert_eq!(items[0].size, 1000);
    assert_eq!(items[0].formatted_size, "1000B");
    assert_eq!(items[1].size, 5);
}

#[test]
fn file_size_is_its_length() {
    assert_eq!(entry_size(EntryKind::File, Some(2048), &vec![]), Some(2048));
    assert_eq!(entry_size(EntryKind::File, None, &vec![]), Some(0));
}

#[test]
fn directory_size_sums_files_only() {
    let walk = vec![dir(), file(10), dir(), dir(), file(32), Probe { kind: EntryKind::Other, len: Some(9) }];
    assert_eq!(subtree_size(&walk), Some(42));
    assert_eq!(entry_size(EntryKind::Directory, Some(4096), &walk), Some(42));
    assert_eq!(subtree_size(&vec![dir(), dir()]), Some(0));
    assert_eq!(subtree_size(&vec![]), Some(0));
}

#[test]
fn unreadable_file_counts_zero() {
    let walk = vec![dir(), file(100), Probe { kind: EntryKind::File, len: None }, file(250)];
    assert_eq!(subtree_size(&walk), Some(350));
}

#[test]
fn subtree_size_overflow_is_none() {
    assert_eq!(subtree_size(&vec![file(u64::MAX), file(1)]), None);
    assert_eq!(subtree_size(&vec![file(u64::MAX), dir()]), Some(u64::MAX));
}

#[test]
fn sort_puts_directories_first_then_largest() {
    let mut items = vec![
        FileItem::new("f1", 10, false),
        FileItem::new("d1", 5, true),
        FileItem::new("f2", 300, false),
        FileItem::new("d2", 50, true),
        FileItem::new("f3", 20, false),
    ];
    sort_items(&mut items);
    assert_eq!(names(&items), vec!["d2", "d1", "f2", "f3", "f1"]);
    let first_file = items.iter().position(|i| !i.is_dir).unwrap();
    assert!(items[first_file..].iter().all(|i| !i.is_dir));
    for w in items.windows(2) {
        if w[0].is_dir == w[1].is_dir {
            assert!(w[0].size >= w[1].size);
        }
    }
}

#[test]
fn sort_keeps_order_of_equal_keys() {
    let mut items = vec![
        FileItem::new("b", 7, false),
        FileItem::new("x", 7, true),
        FileItem::new("a", 7, false),
        FileItem::new("y", 7, true),
        FileItem::new("c", 7, false),
    ];
    sort_items(&mut items);
    assert_eq!(names(&items), vec!["x", "y", "b", "a", "c"]);
}

#[test]
fn sort_of_empty_listing() {
    let mut items: Vec<FileItem> = vec![];
    sort_items(&mut items);
    assert!(items.is_empty());
}

#[test]
fn listing_of_directory_end_to_end() {
    let children = vec![
        child("a.txt", EntryKind::File, Some(100), vec![]),
        child("sub", EntryKind::Directory, Some(4096), vec![dir(), file(2048)]),
        child("big.bin", EntryKind::File, Some(5_000_000), vec![]),
    ];
    let mut items = list_children(Some(EntryKind::Directory), &children).unwrap();
    sort_items(&mut items);
    let rows: Vec<(String, String, bool)> =
        items.iter().map(|i| (i.name.clone(), i.formatted_size.clone(), i.is_dir)).collect();
    assert_eq!(
        rows,
        vec![
            ("sub".to_string(), "2.00KB".to_string(), true),
            ("big.bin".to_string(), "4.77MB".to_string(), false),
            ("a.txt".to_string(), "100B".to_string(), false),
        ]
    );
}

#[test]
fn listing_of_missing_path_is_fatal() {
    let r = list_children(None, &Vec::new());
    assert_eq!(r.unwrap_err(), ListError::Unreadable);
}

#[test]
fn listing_of_file_is_fatal() {
    let r = list_children(Some(EntryKind::File), &Vec::new());
    assert_eq!(r.unwrap_err(), ListError::NotADirectory);
}

#[test]
fn listing_with_unreadable_file_is_best_effort() {
    let children = vec![
        child("ok1", EntryKind::File, Some(10), vec![]),
        child("denied", EntryKind::File, None, vec![]),
        child("ok2", EntryKind::File, Some(20), vec![]),
    ];
    let items = list_children(Some(EntryKind::Directory), &children).unwrap();
    let total: u64 = items.iter().map(|i| i.size).sum();
    assert_eq!(total, 30);
    assert_eq!(items[1].size, 0);
    assert_eq!(items[1].formatted_size, "0B");
}

#[test]
fn listing_with_oversized_child_fails() {
    let children = vec![child("huge", EntryKind::Directory, Some(0), vec![file(u64::MAX), file(u64::MAX)])];
    let r = list_children(Some(EntryKind::Directory), &children);
    assert_eq!(r.unwrap_err(), ListError::TooLarge);
}

#[test]
fn render_table_holds_header_and_rows() {
    let items = vec![FileItem::new("sub", 2048, true), FileItem::new("a.txt", 100, false)];
    let t = render_table(&items);
    assert!(t.contains("Name"));
    assert!(t.contains("Size"));
    assert!(t.contains("sub"));
    assert!(t.contains("2.00KB"));
    assert!(t.contains("a.txt"));
    assert!(t.contains("100B"));
    assert!(t.find("sub").unwrap() < t.find("a.txt").unwrap());
    assert!(t.contains('┌'));
}
