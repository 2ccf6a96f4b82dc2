use librusl::{
    decide_entry, entry_with_contents, extension_of, ContentFileInfoResults, ContentMatcher,
    ContentOptions, Entry, EntryDecision, FTypes, FileInfo, Match, NameMatcher,
};

fn entry(name: &str, is_dir: bool) -> Entry {
    Entry { path: format!("/r/{}", name), name: name.to_string(), is_dir, is_file: !is_dir }
}

#[test]
fn extensions() {
    assert_eq!(extension_of("a.txt"), "txt");
    assert_eq!(extension_of("archive.tar.gz"), "gz");
    assert_eq!(extension_of(".bashrc"), "");
    assert_eq!(extension_of(".."), "");
    assert_eq!(extension_of("."), "");
    assert_eq!(extension_of("noext"), "");
    assert_eq!(extension_of("trailing."), "");
    assert_eq!(extension_of(".hidden.md"), "md");
    assert_eq!(extension_of("über.tëxt"), "tëxt");
}

#[test]
fn invalid_patterns_give_no_matcher() {
    assert!(NameMatcher::new("(", false).is_none());
    let o = ContentOptions { case_sensitive: false, nonregex: false };
    assert!(ContentMatcher::new("(", o).is_none());
    let literal = ContentOptions { case_sensitive: false, nonregex: true };
    assert!(ContentMatcher::new("(", literal).is_some());
}

#[test]
fn name_case_sensitivity() {
    let insensitive = NameMatcher::new("readme", false).unwrap();
    assert!(insensitive.is_match("README.md"));
    let sensitive = NameMatcher::new("readme", true).unwrap();
    assert!(!sensitive.is_match("README.md"));
    assert!(sensitive.is_match("readme.md"));
}

#[test]
fn literal_content_pattern_is_escaped() {
    let regex = ContentMatcher::new("a.c", ContentOptions { case_sensitive: true, nonregex: false }).unwrap();
    let literal = ContentMatcher::new("a.c", ContentOptions { case_sensitive: true, nonregex: true }).unwrap();
    assert_eq!(regex.scan(b"abc\n").unwrap().len(), 1);
    assert_eq!(literal.scan(b"abc\n").unwrap().len(), 0);
    assert_eq!(literal.scan(b"xa.cx\n").unwrap().len(), 1);
}

#[test]
fn scan_reports_lines_in_order_without_terminators() {
    let m = ContentMatcher::new("o", ContentOptions { case_sensitive: false, nonregex: false }).unwrap();
    let ms = m.scan(b"one\r\ntwo\nxyz\nfour").unwrap();
    let lines: Vec<usize> = ms.iter().map(|x| x.line).collect();
    assert_eq!(lines, vec![1, 2, 4]);
    assert_eq!(ms[0].content, "one");
    assert_eq!(ms[1].content, "two");
    assert_eq!(ms[2].content, "four");
    assert_eq!(ms[1].ranges, vec![2..3]);
}

#[test]
fn scan_stops_at_binary_data() {
    let m = ContentMatcher::new("x", ContentOptions { case_sensitive: false, nonregex: false }).unwrap();
    let ms = m.scan(b"x\n\x00x\n").unwrap();
    assert!(ms.len() <= 1);
}

#[test]
fn type_filters() {
    let names = NameMatcher::new("a", false).unwrap();
    assert!(matches!(decide_entry(&entry("adir", true), FTypes::Files, &names, false), EntryDecision::Skip));
    assert!(matches!(decide_entry(&entry("afile", false), FTypes::Directories, &names, false), EntryDecision::Skip));
    match decide_entry(&entry("adir", true), FTypes::Directories, &names, false) {
        EntryDecision::Report(f) => {
            assert!(f.is_folder);
            assert_eq!(f.path, "/r/adir");
        }
        other => panic!("unexpected {:?}", other),
    }
    assert!(matches!(decide_entry(&entry("bbb", false), FTypes::All, &names, false), EntryDecision::Skip));
}

#[test]
fn directories_skipped_with_content_pattern() {
    let names = NameMatcher::new("a", false).unwrap();
    assert!(matches!(decide_entry(&entry("adir", true), FTypes::All, &names, true), EntryDecision::Skip));
    assert!(matches!(decide_entry(&entry("afile", false), FTypes::All, &names, true), EntryDecision::CheckContents));
}

#[test]
fn entry_with_contents_outcomes() {
    let names = NameMatcher::new("a", false).unwrap();
    let contents = ContentMatcher::new("needle", ContentOptions { case_sensitive: false, nonregex: false }).unwrap();
    let e = entry("afile.txt", false);
    assert!(matches!(entry_with_contents(&e, &names, &contents, b"hay\nhay"), Ok(None)));
    let f = entry_with_contents(&e, &names, &contents, b"hay\nNEEDLE here\n").unwrap().unwrap();
    assert_eq!(f.matches.len(), 1);
    assert_eq!(f.matches[0].line, 2);
    assert_eq!(f.matches[0].content, "NEEDLE here");
    assert_eq!(f.ext, "txt");
    assert_eq!(f.ranges, vec![0..1]);
}

#[test]
fn content_results_merge_by_path() {
    let mut r = ContentFileInfoResults::new();
    let m = |line: usize, text: &str| Match { line, content: text.to_string(), ranges: vec![] };
    r.add_file("/x/a.rs", "a.rs", vec![m(1, "one")]);
    r.add_file("/x/b.rs", "b.rs", vec![]);
    r.add_file("/x/a.rs", "a.rs", vec![m(5, "five")]);
    assert_eq!(r.results.len(), 1);
    let lines: Vec<usize> = r.results[0].matches.iter().map(|x| x.line).collect();
    assert_eq!(lines, vec![1, 5]);
    assert_eq!(r.results[0].ext, "rs");
    assert!(!r.results[0].is_folder);
}

#[test]
fn limited_match_formats() {
    let m = Match { line: 41, content: "hello world   ".to_string(), ranges: vec![] };
    assert_eq!(FileInfo::limited_match(&m, 100, true), "41: hello world");
    assert_eq!(FileInfo::limited_match(&m, 100, false), "hello world");
    assert_eq!(FileInfo::limited_match(&m, 5, true), "41: hello...");
    assert_eq!(FileInfo::limited_match(&m, 14, false), "hello world");
    let wide = Match { line: 7, content: "ééééé".to_string(), ranges: vec![] };
    assert_eq!(FileInfo::limited_match(&wide, 2, true), "7: éé...");
}

#[test]
fn content_joins_first_matches() {
    let f = FileInfo {
        path: "/p".to_string(),
        matches: vec![
            Match { line: 1, content: "alpha".to_string(), ranges: vec![] },
            Match { line: 10, content: "beta gamma".to_string(), ranges: vec![] },
            Match { line: 12, content: "delta".to_string(), ranges: vec![] },
        ],
        ext: String::new(),
        name: "p".to_string(),
        is_folder: false,
        ranges: vec![],
    };
    assert_eq!(f.content(2, 4), "1: alph...\n10: beta...");
    assert_eq!(f.content(5, 100), "1: alpha\n10: beta gamma\n12: delta");
    assert_eq!(f.content(0, 100), "");
}

#[test]
fn strip_line_terminators() {
    assert_eq!(librusl::matching::strip_terminator("abc\n"), "abc");
    assert_eq!(librusl::matching::strip_terminator("abc\r\n"), "abc");
    assert_eq!(librusl::matching::strip_terminator("abc"), "abc");
    assert_eq!(librusl::matching::strip_terminator("abc\n\n"), "abc\n");
    assert_eq!(librusl::matching::strip_terminator(""), "");
}

#[test]
fn matches_of_found_lines() {
    let m = ContentMatcher::new("o", ContentOptions { case_sensitive: false, nonregex: false }).unwrap();
    let found = vec![(3u64, "foo\r\n".to_string()), (7u64, "bar".to_string())];
    let ms = m.matches_of_lines(&found);
    assert_eq!(ms.len(), 2);
    assert_eq!(ms[0].line, 3);
    assert_eq!(ms[0].content, "foo");
    assert_eq!(ms[0].ranges, vec![1..2, 2..3]);
    assert_eq!(ms[1].line, 7);
    assert_eq!(ms[1].content, "bar");
    assert!(ms[1].ranges.is_empty());
}

#[test]
fn labelled_lines() {
    assert_eq!(librusl::fileinfo::labelled_line(0, true, "x"), "0: x");
    assert_eq!(librusl::fileinfo::labelled_line(1234567, true, ""), "1234567: ");
    assert_eq!(librusl::fileinfo::labelled_line(9, false, "y"), "y");
}
