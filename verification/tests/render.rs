use dirsize::entry::{sum_entry_sizes, Entry, EntryKind};
use dirsize::render::{partition, render, sort_desc};

fn file(name: &str, size: u64) -> Entry {
    Entry::new_file(name.to_string(), size)
}

fn dir(name: &str, size: u64) -> Entry {
    Entry::new_dir(name.to_string(), size)
}

#[test]
fn empty_directory_report() {
    let out = render("/w", &vec![]);
    assert_eq!(out, "/w 0.0B\n");
}

#[test]
fn single_file_report() {
    let out = render("/w", &vec![file("a.txt", 2048)]);
    assert_eq!(out, "/w 2.0KB\n└ a.txt 2.0KB\n");
}

#[test]
fn two_files_sorted_descending() {
    let out = render("/w", &vec![file("small", 500), file("big", 3000)]);
    assert_eq!(out, "/w 3.4KB\n├ big 2.9KB\n└ small 500.0B\n");
}

#[test]
fn directory_then_file() {
    let out = render("/w", &vec![file("f", 2048), dir("d", 1024)]);
    assert_eq!(out, "/w 3.0KB\n├── d 1.0KB\n└ f 2.0KB\n");
}

#[test]
fn only_directories_close_the_tree() {
    let out = render("/w", &vec![dir("y", 0), dir("x", 10 * 1024 * 1024)]);
    assert_eq!(out, "/w 10.0MB\n├── x 10.0MB\n└── y 0.0B\n");
}

#[test]
fn unreadable_directory_renders_zero() {
    let out = render("/w", &vec![dir("locked", 0), file("ok", 100)]);
    assert_eq!(out, "/w 100.0B\n├── locked 0.0B\n└ ok 100.0B\n");
}

#[test]
fn equal_sizes_keep_input_order() {
    let out = render("/w", &vec![file("a", 100), file("b", 100)]);
    assert_eq!(out, "/w 200.0B\n├ a 100.0B\n└ b 100.0B\n");
    let out = render("/w", &vec![file("b", 100), file("a", 100)]);
    assert_eq!(out, "/w 200.0B\n├ b 100.0B\n└ a 100.0B\n");
}

#[test]
fn rendering_is_deterministic() {
    let make = || vec![dir("d", 7), file("x", 3), file("y", 3), dir("e", 9)];
    let first = render("/here", &make());
    let second = render("/here", &make());
    assert_eq!(first, second);
}

#[test]
fn header_total_wraps() {
    let out = render("/w", &vec![file("a", u64::MAX), file("b", 1)]);
    assert!(out.starts_with("/w 0.0B\n"));
}

#[test]
fn partition_keeps_order_and_kinds() {
    let es = vec![file("a", 1), dir("d", 2), file("b", 3), dir("c", 4)];
    let (dirs, files) = partition(&es);
    assert_eq!(dirs.len(), 2);
    assert_eq!(files.len(), 2);
    assert_eq!(dirs[0].name, "d");
    assert_eq!(dirs[1].name, "c");
    assert!(matches!(dirs[0].kind, EntryKind::Dir));
    assert_eq!(files[0].name, "a");
    assert_eq!(files[1].name, "b");
    assert!(matches!(files[1].kind, EntryKind::File));
}

#[test]
fn sort_is_descending_and_stable() {
    let es = vec![file("a", 5), file("b", 9), file("c", 5), file("d", 1)];
    let sorted = sort_desc(&es);
    let names: Vec<&str> = sorted.iter().map(|e| e.name.as_str()).collect();
    assert_eq!(names, vec!["b", "a", "c", "d"]);
    let sizes: Vec<u64> = sorted.iter().map(|e| e.size).collect();
    assert_eq!(sizes, vec![9, 5, 5, 1]);
}

#[test]
fn entry_constructors_keep_their_values() {
    let e = file("name", 42);
    assert_eq!(e.name, "name");
    assert_eq!(e.size, 42);
    assert!(matches!(e.kind, EntryKind::File));
    let d = dir("sub", 7);
    assert_eq!(d.name, "sub");
    assert_eq!(d.size, 7);
    assert!(matches!(d.kind, EntryKind::Dir));
}

#[test]
fn sum_of_entry_sizes_matches_header() {
    let es = vec![file("a", 1000), dir("d", 2500)];
    assert_eq!(sum_entry_sizes(&es), 3500);
    let wrap = vec![file("a", u64::MAX), file("b", 3)];
    assert_eq!(sum_entry_sizes(&wrap), 2);
}
