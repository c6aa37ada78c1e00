use deskmcp::listing::{describe, list_directory, sort_listing, FileInfo, RawEntry};

fn file(name: &str) -> FileInfo {
    FileInfo {
        name: name.to_string(),
        path: format!("/d/{}", name),
        is_dir: false,
        size: Some(1),
        modified: None,
        extension: None,
    }
}

fn dir(name: &str) -> FileInfo {
    FileInfo {
        name: name.to_string(),
        path: format!("/d/{}", name),
        is_dir: true,
        size: None,
        modified: None,
        extension: None,
    }
}

fn names(files: &[FileInfo]) -> Vec<String> {
    files.iter().map(|f| f.name.clone()).collect()
}

fn raw(name: &str, is_dir: bool) -> RawEntry {
    RawEntry {
        file_name: Some(name.to_string()),
        path: format!("/d/{}", name),
        is_dir,
        len: Some(10),
        modified_secs: Some(1700000000),
        extension: None,
    }
}

#[test]
fn directory_then_names_without_case() {
    let listing = list_directory(vec![raw("b.txt", false), raw("A", true), raw("a.txt", false)]);
    assert_eq!(names(&listing), vec!["A", "a.txt", "b.txt"]);
}

#[test]
fn sort_puts_directories_first() {
    let sorted = sort_listing(vec![file("a"), dir("z"), file("b"), dir("y")]);
    assert_eq!(names(&sorted), vec!["y", "z", "a", "b"]);
    assert!(sorted[0].is_dir && sorted[1].is_dir && !sorted[2].is_dir && !sorted[3].is_dir);
}

#[test]
fn sort_ignores_case() {
    let sorted = sort_listing(vec![file("b"), file("C"), file("a"), file("B2"), file("A1")]);
    assert_eq!(names(&sorted), vec!["a", "A1", "b", "B2", "C"]);
}

#[test]
fn sort_is_stable_for_equal_names() {
    let mut first = file("Readme");
    first.path = "one".to_string();
    let mut second = file("README");
    second.path = "two".to_string();
    let mut third = file("readme");
    third.path = "three".to_string();
    let sorted = sort_listing(vec![first, second, file("a"), third]);
    let paths: Vec<&str> = sorted.iter().map(|f| f.path.as_str()).collect();
    assert_eq!(paths, vec!["/d/a", "one", "two", "three"]);
}

#[test]
fn sort_agrees_with_std_stable_sort() {
    let pool = ["b", "B", "a", "Zeta", "zeta", "ALPHA", "alpha", "\u{c9}cole", "\u{e9}cole", "m_1",
        "M-1", "10", "9", ""];
    let mut input = Vec::new();
    for (i, n) in pool.iter().enumerate() {
        let mut f = if i % 3 == 0 { dir(n) } else { file(n) };
        f.path = i.to_string();
        input.push(f);
    }
    let mut expected = input.clone();
    expected.sort_by(|a, b| match (a.is_dir, b.is_dir) {
        (true, false) => std::cmp::Ordering::Less,
        (false, true) => std::cmp::Ordering::Greater,
        _ => a.name.to_lowercase().cmp(&b.name.to_lowercase()),
    });
    assert_eq!(sort_listing(input), expected);
}

#[test]
fn sort_of_nothing_and_of_one() {
    assert_eq!(sort_listing(Vec::new()), Vec::<FileInfo>::new());
    assert_eq!(sort_listing(vec![file("x")]), vec![file("x")]);
}

#[test]
fn describe_a_file() {
    let info = describe(RawEntry {
        file_name: Some("notes.txt".to_string()),
        path: "/home/u/notes.txt".to_string(),
        is_dir: false,
        len: Some(1234),
        modified_secs: Some(1700000000),
        extension: Some("txt".to_string()),
    });
    assert_eq!(
        info,
        FileInfo {
            name: "notes.txt".to_string(),
            path: "/home/u/notes.txt".to_string(),
            is_dir: false,
            size: Some(1234),
            modified: Some("1700000000".to_string()),
            extension: Some("txt".to_string()),
        }
    );
}

#[test]
fn describe_a_directory_has_no_size() {
    let info = describe(RawEntry {
        file_name: Some("src".to_string()),
        path: "/p/src".to_string(),
        is_dir: true,
        len: Some(4096),
        modified_secs: Some(0),
        extension: None,
    });
    assert!(info.is_dir);
    assert_eq!(info.size, None);
    assert_eq!(info.modified.as_deref(), Some("0"));
}

#[test]
fn describe_without_name_or_metadata() {
    let info = describe(RawEntry {
        file_name: None,
        path: "/p/..".to_string(),
        is_dir: false,
        len: None,
        modified_secs: None,
        extension: None,
    });
    assert_eq!(info.name, "Unknown");
    assert_eq!(info.size, None);
    assert_eq!(info.modified, None);
    assert_eq!(info.extension, None);
}

#[test]
fn list_directory_describes_each_entry() {
    let listing = list_directory(vec![raw("two", false), raw("one", false)]);
    assert_eq!(listing.len(), 2);
    assert_eq!(listing[0].name, "one");
    assert_eq!(listing[0].size, Some(10));
    assert_eq!(listing[0].modified.as_deref(), Some("1700000000"));
    assert_eq!(listing[1].path, "/d/two");
}
