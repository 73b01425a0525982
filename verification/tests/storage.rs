//! The store's load and save are symmetric, and progress read at start keeps everything
//! of the single-language era.

use knocks::language::Language;
use knocks::progress::{load_migrated, merge_progress, ProblemStatus, ProgressEntry, ProgressMap};
use knocks::storage::{
    load_language, save_language, MemoryStore, LEGACY_PROGRESS_KEY, PROGRESS_KEY,
};

fn entry(status: ProblemStatus, code: Option<&str>, at: u64) -> ProgressEntry {
    ProgressEntry { status, saved_code: code.map(|c| c.to_string()), updated_at_ms: at }
}

#[test]
fn language_selection_roundtrips() {
    let mut store = MemoryStore::new();
    save_language(&mut store, Language::Typescript);
    assert_eq!(load_language(&store).as_deref(), Some("typescript"));
    assert_eq!(
        load_language(&store).as_deref().and_then(Language::from_slug),
        Some(Language::Typescript)
    );
}

#[test]
fn an_empty_store_has_no_language() {
    let store = MemoryStore::new();
    assert_eq!(load_language(&store), None);
}

#[test]
fn saving_again_replaces_the_language_and_leaves_other_keys() {
    let mut store = MemoryStore::new();
    assert!(store.raw_set(PROGRESS_KEY, "{}"));
    save_language(&mut store, Language::Cpp);
    save_language(&mut store, Language::Java);
    assert_eq!(load_language(&store).as_deref(), Some("java"));
    assert_eq!(store.raw_get(PROGRESS_KEY).as_deref(), Some("{}"));
    assert_eq!(store.raw_get(LEGACY_PROGRESS_KEY), None);
}

#[test]
fn legacy_entries_move_under_the_rust_namespace_at_start() {
    let current = ProgressMap::new();
    let mut legacy = ProgressMap::new();
    legacy.insert("i042".to_string(), entry(ProblemStatus::Passed, Some("legacy"), 1));
    let (map, needs_save) = load_migrated(current, legacy);
    assert!(needs_save);
    let e = map.get("rust/i042").expect("the legacy entry is lost");
    assert_eq!(e.status, ProblemStatus::Passed);
    assert_eq!(e.saved_code.as_deref(), Some("legacy"));
    assert!(!map.contains_key("i042"));
}

#[test]
fn the_newer_namespaced_entry_wins_over_the_legacy_one() {
    let mut current = ProgressMap::new();
    current.insert("rust/b002".to_string(), entry(ProblemStatus::Passed, None, 9));
    let mut legacy = ProgressMap::new();
    legacy.insert("b002".to_string(), entry(ProblemStatus::Attempted, None, 1));
    let (map, _) = load_migrated(current, legacy);
    assert_eq!(map.get("rust/b002").map(|e| e.status), Some(ProblemStatus::Passed));
    assert_eq!(map.len(), 1);
}

#[test]
fn merging_keeps_the_newer_of_two_entries_under_one_key() {
    let mut map = ProgressMap::new();
    map.insert("rust/b001".to_string(), entry(ProblemStatus::Attempted, None, 5));
    map.insert("rust/b002".to_string(), entry(ProblemStatus::Passed, None, 5));
    let mut legacy = ProgressMap::new();
    legacy.insert("rust/b001".to_string(), entry(ProblemStatus::Passed, Some("newer"), 7));
    legacy.insert("rust/b002".to_string(), entry(ProblemStatus::Attempted, None, 5));
    merge_progress(&mut map, legacy);
    assert_eq!(map.get("rust/b001").map(|e| e.status), Some(ProblemStatus::Passed));
    assert_eq!(map.get("rust/b001").and_then(|e| e.saved_code.as_deref()), Some("newer"));
    // On a tie the entry already there stays.
    assert_eq!(map.get("rust/b002").map(|e| e.status), Some(ProblemStatus::Passed));
}

#[test]
fn nothing_to_move_needs_no_save() {
    let mut current = ProgressMap::new();
    current.insert("cpp/b001".to_string(), entry(ProblemStatus::Passed, None, 1));
    let (map, needs_save) = load_migrated(current, ProgressMap::new());
    assert!(!needs_save);
    assert_eq!(map.len(), 1);
}

#[test]
fn a_newer_legacy_entry_wins_over_the_namespaced_one() {
    let mut current = ProgressMap::new();
    current.insert("rust/b002".to_string(), entry(ProblemStatus::Passed, None, 9));
    let mut legacy = ProgressMap::new();
    legacy.insert("b002".to_string(), entry(ProblemStatus::Attempted, Some("later"), 10));
    let (map, needs_save) = load_migrated(current, legacy);
    assert!(needs_save);
    let e = map.get("rust/b002").expect("the entry is lost");
    assert_eq!(e.status, ProblemStatus::Attempted);
    assert_eq!(e.updated_at_ms, 10);
    assert_eq!(e.saved_code.as_deref(), Some("later"));
    assert_eq!(map.len(), 1);
}

#[test]
fn a_bare_id_in_the_current_progress_meets_the_legacy_entry_by_time() {
    let mut current = ProgressMap::new();
    current.insert("b003".to_string(), entry(ProblemStatus::Passed, None, 8));
    let mut legacy = ProgressMap::new();
    legacy.insert("b003".to_string(), entry(ProblemStatus::Attempted, None, 4));
    let (map, needs_save) = load_migrated(current, legacy);
    assert!(needs_save);
    assert_eq!(map.get("rust/b003").map(|e| e.status), Some(ProblemStatus::Passed));
    assert!(!map.contains_key("b003"));
    assert_eq!(map.len(), 1);
}
