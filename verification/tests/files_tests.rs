use codewalker_cli::files::{collect_files, filter_duplicates, find_duplicate_files, FileEntry};

fn file(relative_path: &str) -> FileEntry {
    let name = relative_path.rsplit('/').next().unwrap().to_string();
    let extension = match name.rfind('.') {
        Some(dot) if dot > 0 => Some(name[dot + 1..].to_string()),
        _ => None,
    };
    FileEntry {
        is_file: true,
        file_name: Some(name),
        relative_path: Some(relative_path.to_string()),
        extension,
    }
}

fn directory(relative_path: &str) -> FileEntry {
    FileEntry { is_file: false, ..file(relative_path) }
}

fn names(values: &[&str]) -> Vec<String> {
    values.iter().map(|value| value.to_string()).collect()
}

fn paths_of(map: &dashmap::DashMap<String, Vec<String>>, name: &str) -> Option<Vec<String>> {
    map.get(name).map(|paths| paths.value().clone())
}

#[test]
fn files_are_grouped_by_name_in_the_order_met() {
    let entries = vec![file("b/x.txt"), file("c/y.txt"), file("a/x.txt")];
    let map = collect_files(&entries, &[]);
    assert_eq!(map.len(), 2);
    assert_eq!(paths_of(&map, "x.txt"), Some(names(&["b/x.txt", "a/x.txt"])));
    assert_eq!(paths_of(&map, "y.txt"), Some(names(&["c/y.txt"])));
    assert_eq!(paths_of(&map, "z.txt"), None);
}

#[test]
fn nothing_in_gives_an_empty_map() {
    let map = collect_files(&[], &names(&["txt"]));
    assert!(map.is_empty());
}

#[test]
fn only_regular_files_are_taken() {
    let entries = vec![directory("a"), file("a/x.txt"), directory("b/x.txt")];
    let map = collect_files(&entries, &[]);
    assert_eq!(map.len(), 1);
    assert_eq!(paths_of(&map, "x.txt"), Some(names(&["a/x.txt"])));
}

#[test]
fn entries_without_name_or_relative_path_are_left_out() {
    let nameless = FileEntry { file_name: None, ..file("a/x.txt") };
    let outside = FileEntry { relative_path: None, ..file("b/x.txt") };
    let map = collect_files(&[nameless, outside, file("c/x.txt")], &[]);
    assert_eq!(paths_of(&map, "x.txt"), Some(names(&["c/x.txt"])));
}

#[test]
fn a_filter_admits_only_its_extensions() {
    let entries =
        vec![file("a/x.txt"), file("a/x.lua"), file("b/x.lua"), file("b/readme"), file("c/x.TXT")];
    let map = collect_files(&entries, &names(&["lua", "md"]));
    assert_eq!(map.len(), 1);
    assert_eq!(paths_of(&map, "x.lua"), Some(names(&["a/x.lua", "b/x.lua"])));
    let map = collect_files(&entries, &names(&["txt"]));
    assert_eq!(map.len(), 1);
    assert_eq!(paths_of(&map, "x.txt"), Some(names(&["a/x.txt"])));
}

#[test]
fn duplicates_of_a_small_tree() {
    let entries = vec![file("a/x.txt"), file("b/x.txt"), file("c/y.txt")];
    let report = filter_duplicates(collect_files(&entries, &[]));
    assert_eq!(report, vec![("x.txt".to_string(), names(&["a/x.txt", "b/x.txt"]))]);
}

#[test]
fn duplicates_come_sorted_by_name_with_sorted_paths() {
    let entries = vec![
        file("z/b.lua"),
        file("m/a.lua"),
        file("y/b.lua"),
        file("k/c.lua"),
        file("c/a.lua"),
        file("a/b.lua"),
        file("B/a.lua"),
    ];
    let report = filter_duplicates(collect_files(&entries, &[]));
    assert_eq!(
        report,
        vec![
            ("a.lua".to_string(), names(&["B/a.lua", "c/a.lua", "m/a.lua"])),
            ("b.lua".to_string(), names(&["a/b.lua", "y/b.lua", "z/b.lua"])),
        ]
    );
}

#[test]
fn names_are_ordered_by_code_point() {
    let entries = vec![
        file("1/b"),
        file("2/b"),
        file("1/B"),
        file("2/B"),
        file("1/\u{e9}"),
        file("2/\u{e9}"),
        file("1/ab"),
        file("2/ab"),
        file("1/a"),
        file("2/a"),
    ];
    let report = filter_duplicates(collect_files(&entries, &[]));
    let order: Vec<&str> = report.iter().map(|group| group.0.as_str()).collect();
    assert_eq!(order, vec!["B", "a", "ab", "b", "\u{e9}"]);
}

#[test]
fn a_path_met_twice_is_listed_twice() {
    let entries = vec![file("a/x.txt"), file("a/x.txt")];
    let report = filter_duplicates(collect_files(&entries, &[]));
    assert_eq!(report, vec![("x.txt".to_string(), names(&["a/x.txt", "a/x.txt"]))]);
}

#[test]
fn without_duplicates_the_report_is_empty() {
    let entries = vec![file("a/x.txt"), file("b/y.txt")];
    assert!(filter_duplicates(collect_files(&entries, &[])).is_empty());
    assert!(filter_duplicates(collect_files(&[], &[])).is_empty());
}

#[test]
fn an_empty_path_has_no_duplicates() {
    let entries = vec![file("a/x.txt"), file("b/x.txt")];
    assert!(find_duplicate_files("", &entries, &[]).is_empty());
}

#[test]
fn duplicates_below_a_path() {
    let entries = vec![file("a/x.txt"), file("b/x.txt"), file("c/y.txt"), file("d/x.lua")];
    let report = find_duplicate_files("/mods", &entries, &names(&["txt"]));
    assert_eq!(report, vec![("x.txt".to_string(), names(&["a/x.txt", "b/x.txt"]))]);
}
