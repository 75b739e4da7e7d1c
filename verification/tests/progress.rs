use inklings::progress::{Attempts, ProgressRecord, ProgressStore};

#[test]
fn new_record_is_empty() {
    let record = ProgressRecord::new();
    assert_eq!(record.completed_count(), 0);
    assert_eq!(record.attempts("a"), 0);
    assert!(!record.is_completed("a"));
    assert!(record.last_worked_on().is_none());
    assert!(record.completed_ids().is_empty());
    assert!(record.attempt_entries().is_empty());
}

#[test]
fn default_record_is_empty() {
    let record = ProgressRecord::default();
    assert_eq!(record.completed_count(), 0);
    assert!(record.last_worked_on().is_none());
}

#[test]
fn attempts_are_counted_per_exercise() {
    let mut record = ProgressRecord::new();
    record.record_attempt("a");
    record.record_attempt("b");
    record.record_attempt("a");
    record.record_attempt("c");
    record.record_attempt("a");
    assert_eq!(record.attempts("a"), 3);
    assert_eq!(record.attempts("b"), 1);
    assert_eq!(record.attempts("c"), 1);
    assert_eq!(record.attempts("d"), 0);
    assert_eq!(record.last_worked_on().map(|s| s.as_str()), Some("a"));
    assert_eq!(record.completed_count(), 0);
}

#[test]
fn attempt_counter_stays_at_its_largest_value() {
    let mut record = ProgressRecord::from_parts(
        Vec::new(),
        vec![Attempts { id: "a".to_string(), count: u32::MAX - 1 }],
        None,
    );
    record.record_attempt("a");
    assert_eq!(record.attempts("a"), u32::MAX);
    record.record_attempt("a");
    assert_eq!(record.attempts("a"), u32::MAX);
}

#[test]
fn completion_is_idempotent() {
    let mut record = ProgressRecord::new();
    record.record_completion("a");
    record.record_completion("a");
    record.record_completion("b");
    assert_eq!(record.completed_count(), 2);
    assert!(record.is_completed("a"));
    assert!(record.is_completed("b"));
    assert!(!record.is_completed("c"));
    assert_eq!(record.attempts("a"), 0);
    assert_eq!(record.last_worked_on().map(|s| s.as_str()), Some("b"));
}

#[test]
fn from_parts_reads_a_set_and_a_map() {
    let record = ProgressRecord::from_parts(
        vec!["b".to_string(), "a".to_string(), "b".to_string()],
        vec![
            Attempts { id: "a".to_string(), count: 2 },
            Attempts { id: "b".to_string(), count: 5 },
            Attempts { id: "a".to_string(), count: 7 },
        ],
        Some("b".to_string()),
    );
    assert_eq!(record.completed_count(), 2);
    assert_eq!(record.completed_ids(), &vec!["b".to_string(), "a".to_string()]);
    assert_eq!(record.attempts("a"), 7);
    assert_eq!(record.attempts("b"), 5);
    assert_eq!(record.attempt_entries().len(), 2);
    assert_eq!(record.last_worked_on().map(|s| s.as_str()), Some("b"));
}

#[test]
fn clone_keeps_the_record() {
    let mut record = ProgressRecord::new();
    record.record_attempt("a");
    record.record_completion("a");
    let copy = record.clone();
    assert_eq!(copy.attempts("a"), 1);
    assert!(copy.is_completed("a"));
    assert_eq!(copy.last_worked_on().map(|s| s.as_str()), Some("a"));
}

#[test]
fn empty_store_loads_the_empty_record() {
    let store = ProgressStore::new();
    assert!(store.persisted().is_none());
    let record = store.load();
    assert_eq!(record.completed_count(), 0);
    assert!(record.last_worked_on().is_none());
}

#[test]
fn store_counts_n_attempts_whatever_comes_between() {
    let mut store = ProgressStore::new();
    for round in 0..4 {
        store.record_attempt("a");
        store.record_attempt("other");
        if round % 2 == 0 {
            store.record_completion("third");
            store.record_attempt("third");
        }
    }
    let record = store.load();
    assert_eq!(record.attempts("a"), 4);
    assert_eq!(record.attempts("other"), 4);
    assert_eq!(record.attempts("third"), 2);
    assert!(record.is_completed("third"));
    assert!(!record.is_completed("a"));
}

#[test]
fn save_of_load_changes_nothing() {
    let mut store = ProgressStore::new();
    store.record_attempt("a");
    store.record_completion("a");
    store.record_attempt("b");
    let loaded = store.load();
    store.save(loaded);
    let again = store.load();
    assert_eq!(again.attempts("a"), 1);
    assert_eq!(again.attempts("b"), 1);
    assert!(again.is_completed("a"));
    assert_eq!(again.completed_count(), 1);
    assert_eq!(again.last_worked_on().map(|s| s.as_str()), Some("b"));

    let mut empty = ProgressStore::new();
    let loaded = empty.load();
    empty.save(loaded);
    assert_eq!(empty.load().completed_count(), 0);
    assert!(empty.load().last_worked_on().is_none());
}

#[test]
fn reset_forgets_everything() {
    let mut store = ProgressStore::new();
    store.record_attempt("a");
    store.record_completion("a");
    assert!(store.load().is_completed("a"));
    store.reset();
    assert!(store.persisted().is_none());
    let record = store.load();
    assert!(!record.is_completed("a"));
    assert_eq!(record.attempts("a"), 0);
    assert_eq!(record.completed_count(), 0);
    assert!(record.last_worked_on().is_none());
}

#[test]
fn store_over_a_persisted_record() {
    let mut record = ProgressRecord::new();
    record.record_completion("a");
    let store = ProgressStore::from_persisted(Some(record));
    assert!(store.persisted().unwrap().is_completed("a"));
    assert!(store.load().is_completed("a"));
    let absent = ProgressStore::from_persisted(None);
    assert!(absent.persisted().is_none());
}
