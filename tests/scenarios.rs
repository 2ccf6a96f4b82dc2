use librusl::{
    decide_entry, entry_with_contents, Aggregator, ContentFileInfoResults, ContentMatcher,
    ContentOptions, Entry, EntryDecision, FTypes, FileInfo, Manager, Message, NameMatcher, Options,
    Search, SearchResult, Step,
};

fn entry(path: &str, name: &str, is_dir: bool) -> Entry {
    Entry { path: path.to_string(), name: name.to_string(), is_dir, is_file: !is_dir }
}

fn content_options() -> ContentOptions {
    ContentOptions { case_sensitive: false, nonregex: false }
}

/// Runs the name walk's decisions over `files` (name, bytes) as the worker would.
fn name_walk(name_pattern: &str, content_pattern: &str, files: &[(&str, &[u8])]) -> Vec<FileInfo> {
    let names = NameMatcher::new(name_pattern, false).expect("name pattern compiles");
    let contents = if content_pattern.is_empty() {
        None
    } else {
        Some(ContentMatcher::new(content_pattern, content_options()).expect("content pattern compiles"))
    };
    let mut found = Vec::new();
    for (name, bytes) in files {
        let e = entry(&format!("D/{}", name), name, false);
        match decide_entry(&e, FTypes::All, &names, contents.is_some()) {
            EntryDecision::Skip => {}
            EntryDecision::Report(f) => found.push(f),
            EntryDecision::CheckContents => {
                let c = contents.as_ref().unwrap();
                if let Ok(Some(f)) = entry_with_contents(&e, &names, c, bytes) {
                    found.push(f);
                }
            }
        }
    }
    found
}

fn final_of(step: Step) -> librusl::FinalResults {
    match step {
        Step::Send(SearchResult::FinalResults(fr)) => fr,
        other => panic!("expected final results, got {:?}", other),
    }
}

#[test]
fn find_names() {
    let mut man = Manager::new(Options::default());
    let plan = man.search(Search {
        dir: "rusltestdir".to_string(),
        name_text: "temp.csv".to_string(),
        contents_text: "41".to_string(),
    });
    assert!(plan.name_phase);
    assert!(!plan.content_phase);
    let names = NameMatcher::new(&plan.search.name_text, plan.options.name.case_sensitive).unwrap();
    let contents = ContentMatcher::new(&plan.search.contents_text, plan.options.content).unwrap();
    let e = entry("rusltestdir/temp.csv", "temp.csv", false);
    let decision = decide_entry(&e, plan.options.name.file_types, &names, true);
    assert!(matches!(decision, EntryDecision::CheckContents));
    let found = entry_with_contents(&e, &names, &contents, b"hello\nthere 41 go").unwrap().unwrap();

    let mut agg = Aggregator::new();
    assert!(matches!(agg.receive(Message::StartSearch(plan.generation), plan.options.sort), Step::Wait));
    match agg.receive(Message::File(found, plan.generation), plan.options.sort) {
        Step::Send(SearchResult::InterimResult(fi)) => {
            assert_eq!(fi.matches.len(), 1);
        }
        other => panic!("unexpected {:?}", other),
    }
}

#[test]
fn content_only_search_finds_both_files() {
    let matcher = ContentMatcher::new("hello", content_options()).unwrap();
    let mut results = ContentFileInfoResults::new();
    results.scan_file(&matcher, "D/a.txt", "a.txt", b"hello world");
    results.scan_file(&matcher, "D/b.log", "b.log", b"hello");
    assert_eq!(results.results.len(), 2);
    assert!(results.errors.is_empty());
    assert_eq!(results.results[0].path, "D/a.txt");
    assert_eq!(results.results[1].path, "D/b.log");
    for r in &results.results {
        assert_eq!(r.matches.len(), 1);
        assert_eq!(r.matches[0].line, 1);
    }
    assert_eq!(results.results[0].matches[0].content, "hello world");
    assert_eq!(results.results[0].ext, "txt");

    let mut agg = Aggregator::new();
    agg.receive(Message::StartSearch(1), librusl::Sort::Unsorted);
    assert!(matches!(agg.receive(Message::ContentFiles(results.results, 1, 5), librusl::Sort::Unsorted), Step::Wait));
    let fr = final_of(agg.receive(Message::Done(1, 7), librusl::Sort::Unsorted));
    assert_eq!(fr.data.len(), 2);
    assert_eq!(fr.id, 1);
    assert_eq!(fr.duration_nanos, 12);
}

#[test]
fn name_only_search_reports_log_file() {
    let files: [(&str, &[u8]); 2] = [("a.txt", b"hello world"), ("b.log", b"hello")];
    let found = name_walk(r"\.log$", "", &files);
    assert_eq!(found.len(), 1);
    assert_eq!(found[0].name, "b.log");
    assert_eq!(found[0].path, "D/b.log");
    assert!(found[0].matches.is_empty());
    assert_eq!(found[0].ext, "log");
    assert_eq!(found[0].ranges, vec![1..5]);
}

#[test]
fn name_and_content_search_reports_txt_file() {
    let files: [(&str, &[u8]); 2] = [("a.txt", b"hello world"), ("b.log", b"hello")];
    let found = name_walk(r"\.txt$", "world", &files);
    assert_eq!(found.len(), 1);
    assert_eq!(found[0].name, "a.txt");
    assert_eq!(found[0].matches.len(), 1);
    assert_eq!(found[0].matches[0].line, 1);
    assert_eq!(found[0].matches[0].ranges, vec![6..11]);
}

#[test]
fn name_and_content_search_drops_file_without_match() {
    let files: [(&str, &[u8]); 1] = [("a.txt", b"nothing here")];
    let found = name_walk(r"\.txt$", "world", &files);
    assert!(found.is_empty());
}
