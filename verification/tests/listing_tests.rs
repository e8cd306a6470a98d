use codewalker_cli::listing::{get_paths_in_dir, search_dir, DirListing};

#[test]
fn the_directory_of_a_path_ends_with_its_last_slash() {
    assert_eq!(search_dir("a/b/c.txt"), "a/b/");
    assert_eq!(search_dir("resources/[maps]/stream/x.ymap"), "resources/[maps]/stream/");
    assert_eq!(search_dir("/abs"), "/");
    assert_eq!(search_dir("dir/"), "dir/");
    assert_eq!(search_dir("a//"), "a//");
}

#[test]
fn a_path_without_slash_lies_in_the_current_directory() {
    assert_eq!(search_dir("file.txt"), ".");
    assert_eq!(search_dir(""), ".");
    assert_eq!(search_dir("C:\\games\\x"), ".");
}

#[test]
fn the_directory_is_cut_by_characters_not_bytes() {
    assert_eq!(search_dir("\u{fc}n\u{ef}/c\u{f4}de/x"), "\u{fc}n\u{ef}/c\u{f4}de/");
    assert_eq!(search_dir("\u{65e5}\u{672c}/\u{8a9e}"), "\u{65e5}\u{672c}/");
}

#[test]
fn a_missing_directory_has_no_paths() {
    assert_eq!(get_paths_in_dir(&DirListing::Missing), Ok(Vec::new()));
}

#[test]
fn a_directory_that_cannot_be_opened_is_a_failure() {
    let listing = DirListing::Unreadable("permission denied".to_string());
    assert_eq!(get_paths_in_dir(&listing), Err("permission denied".to_string()));
}

#[test]
fn paths_come_in_ascending_order() {
    let listing = DirListing::Entries(vec![
        Ok("dir/b.txt".to_string()),
        Ok("dir/a.txt".to_string()),
        Ok("dir/B.txt".to_string()),
        Ok("dir/a".to_string()),
        Ok("dir/a.txt".to_string()),
    ]);
    assert_eq!(
        get_paths_in_dir(&listing),
        Ok(vec![
            "dir/B.txt".to_string(),
            "dir/a".to_string(),
            "dir/a.txt".to_string(),
            "dir/a.txt".to_string(),
            "dir/b.txt".to_string(),
        ])
    );
}

#[test]
fn an_empty_directory_has_no_paths() {
    assert_eq!(get_paths_in_dir(&DirListing::Entries(Vec::new())), Ok(Vec::new()));
}

#[test]
fn the_first_entry_that_cannot_be_read_is_the_failure() {
    let listing = DirListing::Entries(vec![
        Ok("dir/b.txt".to_string()),
        Err("stale handle".to_string()),
        Ok("dir/a.txt".to_string()),
        Err("later".to_string()),
    ]);
    assert_eq!(get_paths_in_dir(&listing), Err("stale handle".to_string()));
}
