use quickdiff::repo::RelPath;
use quickdiff::viewed::{FileViewedStore, MemoryViewedStore, PathSet, PersistedState, RepoState, ViewedStore};

#[test]
fn memory_store_toggle() {
    let mut store = MemoryViewedStore::new();
    let path = RelPath::new("src/main.rs");

    assert!(!store.is_viewed(&path));
    assert_eq!(store.viewed_count(), 0);

    let result = store.toggle_viewed(path.clone());
    assert!(result);
    assert!(store.is_viewed(&path));
    assert_eq!(store.viewed_count(), 1);

    let result = store.toggle_viewed(path.clone());
    assert!(!result);
    assert!(!store.is_viewed(&path));
    assert_eq!(store.viewed_count(), 0);
}

#[test]
fn marking_twice_counts_once() {
    let mut store = MemoryViewedStore::new();
    store.mark_viewed(RelPath::new("a"));
    store.mark_viewed(RelPath::new("a"));
    store.mark_viewed(RelPath::new("b"));
    assert_eq!(store.viewed_count(), 2);
    store.unmark_viewed(&RelPath::new("a"));
    assert_eq!(store.viewed_count(), 1);
    assert!(store.is_viewed(&RelPath::new("b")));
}

#[test]
fn path_set_drops_duplicates() {
    let s = PathSet::from_vec(&vec!["x".to_string(), "y".to_string(), "x".to_string()]);
    assert_eq!(s.len(), 2);
    assert!(s.contains("x"));
    assert!(!s.contains("z"));
    let mut v = s.to_vec();
    v.sort();
    assert_eq!(v, vec!["x".to_string(), "y".to_string()]);
}

#[test]
fn persisted_state_set_repo_replaces() {
    let mut state = PersistedState::new();
    assert_eq!(state.version, PersistedState::VERSION);
    state.set_repo("/r", RepoState { viewed: vec!["a".to_string()], last_selected: None });
    state.set_repo("/s", RepoState::default());
    state.set_repo("/r", RepoState { viewed: vec![], last_selected: Some("b".to_string()) });
    assert_eq!(state.repos.len(), 2);
    let k = state.find_repo("/r").unwrap();
    assert_eq!(state.repos[k].1.last_selected.as_deref(), Some("b"));
    assert!(state.find_repo("/t").is_none());
}

#[test]
fn file_store_keeps_loaded_state() {
    let loaded = RepoState { viewed: vec!["file1.rs".to_string()], last_selected: Some("file1.rs".to_string()) };
    let mut store = FileViewedStore::with_path("/repo", "/tmp/state.json".to_string(), Some(&loaded));
    assert_eq!(store.repo_key(), "/repo");
    assert_eq!(store.state_path(), "/tmp/state.json");
    assert!(store.is_viewed(&RelPath::new("file1.rs")));
    assert_eq!(store.last_selected(), Some("file1.rs"));
    store.mark_viewed(RelPath::new("file2.rs"));
    store.set_last_selected(None);
    let saved = store.repo_state();
    let mut v = saved.viewed.clone();
    v.sort();
    assert_eq!(v, vec!["file1.rs".to_string(), "file2.rs".to_string()]);
    assert!(saved.last_selected.is_none());

    let fresh = FileViewedStore::with_path("/repo", "/tmp/s.json".to_string(), None);
    assert_eq!(fresh.viewed_count(), 0);
    assert!(fresh.last_selected().is_none());
}

#[test]
fn viewed_state_survives_save_and_load() {
    let mut state = PersistedState::new();
    state.set_repo("/other", RepoState { viewed: vec!["x.rs".to_string()], last_selected: None });
    let mut store = FileViewedStore::load_from("/repo", "/tmp/state.json".to_string(), &state);
    assert_eq!(store.viewed_count(), 0);
    store.mark_viewed(RelPath::new("file1.rs"));
    store.set_last_selected(Some("file1.rs".to_string()));
    store.save_into(&mut state);
    let again = FileViewedStore::load_from("/repo", "/tmp/state.json".to_string(), &state);
    assert!(again.is_viewed(&RelPath::new("file1.rs")));
    assert_eq!(again.last_selected(), Some("file1.rs"));
    assert_eq!(again.viewed_count(), store.viewed_count());
    let other = FileViewedStore::load_from("/other", "/tmp/state.json".to_string(), &state);
    assert!(other.is_viewed(&RelPath::new("x.rs")));
    assert_eq!(state.repos.len(), 2);
}
