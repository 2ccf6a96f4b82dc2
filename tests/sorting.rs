use librusl::{FileInfo, Manager, Sort};

fn info(path: &str, name: &str, ext: &str) -> FileInfo {
    FileInfo {
        path: path.to_string(),
        matches: vec![],
        ext: ext.to_string(),
        name: name.to_string(),
        is_folder: false,
        ranges: vec![],
    }
}

fn sample() -> Vec<FileInfo> {
    vec![
        info("/b/x.rs", "x.rs", "rs"),
        info("/a/y.txt", "y.txt", "txt"),
        info("/c/x.rs", "x.rs", "rs"),
        info("/a/b.md", "b.md", "md"),
        info("/d/a.txt", "a.txt", "txt"),
    ]
}

fn paths(v: &[FileInfo]) -> Vec<&str> {
    v.iter().map(|f| f.path.as_str()).collect()
}

#[test]
fn unsorted_keeps_discovery_order() {
    let mut v = sample();
    Manager::do_sort(&mut v, Sort::Unsorted);
    assert_eq!(paths(&v), vec!["/b/x.rs", "/a/y.txt", "/c/x.rs", "/a/b.md", "/d/a.txt"]);
}

#[test]
fn sort_by_path() {
    let mut v = sample();
    Manager::do_sort(&mut v, Sort::Path);
    assert_eq!(paths(&v), vec!["/a/b.md", "/a/y.txt", "/b/x.rs", "/c/x.rs", "/d/a.txt"]);
}

#[test]
fn sort_by_name_is_stable() {
    let mut v = sample();
    Manager::do_sort(&mut v, Sort::Name);
    assert_eq!(paths(&v), vec!["/d/a.txt", "/a/b.md", "/b/x.rs", "/c/x.rs", "/a/y.txt"]);
    for w in v.windows(2) {
        assert!(w[0].name <= w[1].name);
    }
}

#[test]
fn sort_by_extension_is_stable() {
    let mut v = sample();
    Manager::do_sort(&mut v, Sort::Extension);
    assert_eq!(paths(&v), vec!["/a/b.md", "/b/x.rs", "/c/x.rs", "/a/y.txt", "/d/a.txt"]);
}

#[test]
fn sort_empty_and_single() {
    let mut v: Vec<FileInfo> = vec![];
    Manager::do_sort(&mut v, Sort::Name);
    assert!(v.is_empty());
    let mut one = vec![info("/only", "only", "")];
    Manager::do_sort(&mut one, Sort::Path);
    assert_eq!(paths(&one), vec!["/only"]);
}

#[test]
fn sort_compares_bytes_and_prefixes() {
    let mut v = vec![info("ab", "ab", ""), info("a", "a", ""), info("B", "B", ""), info("é", "é", ""), info("z", "z", "")];
    Manager::do_sort(&mut v, Sort::Name);
    assert_eq!(paths(&v), vec!["B", "a", "ab", "z", "é"]);
}

#[test]
fn sort_many_entries_matches_std_stable_sort() {
    let mut v = Vec::new();
    for i in 0..500u32 {
        let name = format!("n{}", (i * 7919) % 37);
        v.push(info(&format!("/p/{}", i), &name, ""));
    }
    let mut expected = v.clone();
    expected.sort_by(|a, b| a.name.cmp(&b.name));
    Manager::do_sort(&mut v, Sort::Name);
    assert_eq!(paths(&v), paths(&expected));
}
