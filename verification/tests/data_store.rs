use agent_core::data_store::{file_stem_with_ext, DataStore, NodeState};
use agent_core::sort::{sort_strings, str_lt};

#[test]
fn node_paths() {
    let store = DataStore::new("/data".to_string());
    assert_eq!(store.root(), "/data");
    let root = store.root_dir();
    assert_eq!(root.path(), "");
    assert_eq!(root.node_path("config"), "/data/config.yaml");
    let work = root.subdir("work");
    assert_eq!(work.path(), "work");
    assert_eq!(work.node_path("history"), "/data/work/history.yaml");
    let act = work.subdir("act");
    assert_eq!(act.path(), "work/act");
    assert_eq!(act.full_path(), "/data/work/act");
    assert_eq!(store.scan_dir(""), "/data");
    assert_eq!(store.scan_dir("work"), "/data/work");
}

#[test]
fn stems_follow_path_rules() {
    assert_eq!(file_stem_with_ext("a.yaml", "yaml"), Some("a".to_string()));
    assert_eq!(file_stem_with_ext("a.b.yaml", "yaml"), Some("a.b".to_string()));
    assert_eq!(file_stem_with_ext(".yaml", "yaml"), None);
    assert_eq!(file_stem_with_ext("a.yml", "yaml"), None);
    assert_eq!(file_stem_with_ext("yaml", "yaml"), None);
    assert_eq!(file_stem_with_ext("..", ""), None);
}

#[test]
fn children_are_sorted_yaml_stems() {
    let entries = vec![
        ("zeta.yaml".to_string(), true),
        ("alpha.yaml".to_string(), true),
        ("dir.yaml".to_string(), false),
        ("notes.txt".to_string(), true),
        ("Beta.yaml".to_string(), true),
    ];
    assert_eq!(DataStore::children_of(&entries), vec!["Beta", "alpha", "zeta"]);
    let dirs = vec![("b".to_string(), true), ("a".to_string(), true), ("f".to_string(), false)];
    assert_eq!(DataStore::subdirs_of(&dirs), vec!["a", "b"]);
}

#[test]
fn string_order_matches_std() {
    let words = vec!["b", "a", "ab", "", "é", "z", "aa", "b"];
    let sorted = sort_strings(words.iter().map(|s| s.to_string()).collect());
    let mut expected: Vec<String> = words.iter().map(|s| s.to_string()).collect();
    expected.sort();
    assert_eq!(sorted, expected);
    assert!(str_lt("a", "ab"));
    assert!(!str_lt("ab", "a"));
    assert!(!str_lt("x", "x"));
}

#[test]
fn read_after_set() {
    let mut s = NodeState::new();
    assert!(!s.is_dirty());
    assert!(!s.has_data(false));
    assert_eq!(s.before_load("Goal").ok(), Some(false));
    s.set("Goal");
    assert!(s.is_dirty());
    assert_eq!(s.access("Goal", false).ok(), Some(true));
    match s.access("Memory", true) {
        Err(e) => assert_eq!(e.to_string(), "type mismatch: node contains Goal, requested Memory"),
        _ => panic!(),
    }
    match s.before_load("Memory") {
        Err(e) => assert_eq!(e.to_string(), "type mismatch: node already loaded as Goal, cannot load as Memory"),
        _ => panic!(),
    }
    assert!(s.needs_flush());
    s.flushed();
    assert!(!s.is_dirty());
    assert!(!s.needs_flush());
    assert_eq!(s.access("Goal", true).ok(), Some(true));
    assert!(s.is_dirty());
    s.removed();
    assert!(!s.has_data(false));
    assert!(s.has_data(true));
    assert_eq!(s.access_or_default("Goal").ok(), Some(true));
    assert!(s.is_dirty());
    match NodeState::check_disk_tag("A", "B") {
        Err(e) => assert_eq!(e.to_string(), "type mismatch on disk: expected B, found A"),
        _ => panic!(),
    }
    assert!(NodeState::check_disk_tag("A", "A").is_ok());
}
