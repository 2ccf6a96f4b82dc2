use librusl::{FTypes, Manager, Options, Search, Sort};

fn search(dir: &str, name: &str, content: &str) -> Search {
    Search { dir: dir.to_string(), name_text: name.to_string(), contents_text: content.to_string() }
}

#[test]
fn get_options_after_set_options() {
    let mut man = Manager::new(Options::default());
    let mut o = Options::default();
    o.sort = Sort::Extension;
    o.last_dir = "/tmp".to_string();
    o.name_history = vec!["a".to_string(), "b".to_string()];
    o.name.file_types = FTypes::Directories;
    o.content.nonregex = true;
    man.set_options(o.clone());
    let got = man.get_options();
    assert!(matches!(got.sort, Sort::Extension));
    assert_eq!(got.last_dir, "/tmp");
    assert_eq!(got.name_history, o.name_history);
    assert_eq!(got.content_history, o.content_history);
    assert_eq!(got.name, o.name);
    assert_eq!(got.content, o.content);
}

#[test]
fn default_options() {
    let o = Options::default();
    assert!(matches!(o.sort, Sort::Unsorted));
    assert_eq!(o.last_dir, ".");
    assert!(o.name_history.is_empty());
    assert!(!o.name.case_sensitive);
    assert_eq!(o.name.file_types, FTypes::All);
    assert!(o.name.ignore_dot);
    assert!(!o.content.nonregex);
}

#[test]
fn search_numbers_generations_and_plans_phases() {
    let mut man = Manager::new(Options::default());
    let first = man.search(search("/r", "foo", ""));
    assert_eq!(first.generation, 1);
    assert!(first.name_phase && !first.content_phase);
    let second = man.search(search("/r", "", "bar"));
    assert_eq!(second.generation, 2);
    assert!(!second.name_phase && second.content_phase);
    let third = man.search(search("/s", "foo", "bar"));
    assert_eq!(third.generation, 3);
    assert!(third.name_phase && !third.content_phase);
    assert_eq!(third.options.last_dir, "/s");
    assert_eq!(third.search.dir, "/s");
}

#[test]
fn search_records_history_once() {
    let mut man = Manager::new(Options::default());
    man.search(search("/r", "foo", ""));
    man.search(search("/r", "foo", "bar"));
    man.search(search("/r", "baz", "bar"));
    let o = man.get_options();
    assert_eq!(o.name_history, vec!["foo".to_string(), "baz".to_string()]);
    assert_eq!(o.content_history, vec!["bar".to_string()]);
}

#[test]
fn save_keeps_latest_history() {
    let mut man = Manager::new(Options::default());
    for i in 0..25 {
        man.search(search("/r", &format!("pat{}", i), ""));
    }
    let saved = man.save();
    assert_eq!(saved.name_history.len(), 20);
    assert_eq!(saved.name_history[0], "pat5");
    assert_eq!(saved.name_history[19], "pat24");
    assert_eq!(man.get_options().name_history.len(), 25);
    let (quit_saved, msg) = man.save_and_quit();
    assert_eq!(quit_saved.name_history, saved.name_history);
    assert!(matches!(msg, librusl::Message::Quit));
}

#[test]
fn set_sort_changes_only_sort() {
    let mut man = Manager::new(Options::default());
    man.set_sort(Sort::Path);
    let o = man.get_options();
    assert!(matches!(o.sort, Sort::Path));
    assert_eq!(o.last_dir, ".");
}

#[test]
fn stop_and_count() {
    let mut man = Manager::new(Options::default());
    man.search(search("/r", "x", ""));
    assert_eq!(man.get_count(), 0);
    man.counter.fetch_add(2, std::sync::atomic::Ordering::Relaxed);
    assert_eq!(man.get_count(), 2);
    man.stop();
    assert!(man.must_stop.load(std::sync::atomic::Ordering::Relaxed));
    man.search(search("/r", "x", ""));
    assert!(!man.must_stop.load(std::sync::atomic::Ordering::Relaxed));
    assert_eq!(man.get_count(), 0);
}
