use rusty_do::models::Notebook;
use rusty_do::storage::{notebook_file_name, ts_before, NotebookMetadata, StorageIndex, Timestamp};

fn nb(id: &str, name: &str) -> Notebook {
    Notebook { id: id.to_string(), name: name.to_string(), description: String::new(), tasks: Vec::new() }
}

fn meta(id: &str, name: &str, secs: i64) -> NotebookMetadata {
    NotebookMetadata {
        id: id.to_string(),
        name: name.to_string(),
        last_opened: Timestamp { secs, nanos: 0 },
    }
}

fn ids(index: &StorageIndex) -> Vec<String> {
    index.notebooks.iter().map(|m| m.id.clone()).collect()
}

#[test]
fn time_stamps_compare_by_seconds_then_nanos() {
    let a = Timestamp { secs: 5, nanos: 10 };
    let b = Timestamp { secs: 5, nanos: 11 };
    let c = Timestamp { secs: 6, nanos: 0 };
    assert!(ts_before(a, b));
    assert!(ts_before(b, c));
    assert!(!ts_before(c, a));
    assert!(!ts_before(a, a));
}

#[test]
fn notebook_file_is_id_dot_json() {
    assert_eq!(notebook_file_name("abc-1"), "abc-1.json");
}

#[test]
fn default_index_is_empty() {
    let index = StorageIndex::default();
    assert!(index.notebooks.is_empty());
}

#[test]
fn sync_drops_missing_renames_adds_and_sorts() {
    let mut index = StorageIndex {
        notebooks: vec![meta("a", "Old A", 10), meta("gone", "Gone", 50), meta("b", "B", 30)],
    };
    let found = vec![nb("b", "B"), nb("c", "New C"), nb("a", "New A")];
    index.sync_with_at(&found, Timestamp { secs: 20, nanos: 0 });
    assert_eq!(ids(&index), vec!["b", "c", "a"]);
    assert_eq!(index.notebooks[2].name, "New A");
    assert_eq!(index.notebooks[1].name, "New C");
    assert_eq!(index.notebooks[1].last_opened, Timestamp { secs: 20, nanos: 0 });
}

#[test]
fn sync_keeps_order_of_equal_times() {
    let mut index = StorageIndex { notebooks: vec![meta("x", "X", 7), meta("y", "Y", 7)] };
    index.sync_with_at(&vec![nb("y", "Y"), nb("x", "X")], Timestamp { secs: 1, nanos: 0 });
    assert_eq!(ids(&index), vec!["x", "y"]);
}

#[test]
fn sync_with_clock_dates_new_entries_now() {
    let mut index = StorageIndex::default();
    index.sync_with(&vec![nb("n", "N")]);
    assert_eq!(ids(&index), vec!["n"]);
    // 2020-01-01 or later.
    assert!(index.notebooks[0].last_opened.secs > 1_577_836_800);
    assert!(index.notebooks[0].last_opened.nanos < 2_000_000_000);
}

#[test]
fn touch_moves_notebook_to_front() {
    let mut index = StorageIndex { notebooks: vec![meta("a", "A", 30), meta("b", "B", 20)] };
    assert!(index.touch_at(&"b".to_string(), Timestamp { secs: 40, nanos: 0 }));
    assert_eq!(ids(&index), vec!["b", "a"]);
    assert_eq!(index.notebooks[0].last_opened.secs, 40);
}

#[test]
fn touch_unknown_notebook_changes_nothing() {
    let mut index = StorageIndex { notebooks: vec![meta("a", "A", 30)] };
    assert!(!index.touch_at(&"zz".to_string(), Timestamp { secs: 40, nanos: 0 }));
    assert_eq!(ids(&index), vec!["a"]);
    assert_eq!(index.notebooks[0].last_opened.secs, 30);
}

#[test]
fn touch_with_clock_puts_notebook_first() {
    let mut index = StorageIndex { notebooks: vec![meta("a", "A", 30), meta("b", "B", 20)] };
    assert!(index.touch(&"b".to_string()));
    assert_eq!(ids(&index), vec!["b", "a"]);
}

#[test]
fn law_sync_lists_exactly_found_notebooks() {
    let mut index = StorageIndex {
        notebooks: vec![meta("p", "P", 1), meta("q", "Q", 2), meta("r", "R", 3)],
    };
    let found = vec![nb("r", "R"), nb("s", "S"), nb("p", "P")];
    index.sync_with_at(&found, Timestamp { secs: 0, nanos: 5 });
    let mut got = ids(&index);
    got.sort();
    assert_eq!(got, vec!["p", "r", "s"]);
}

#[test]
fn law_opened_notebook_comes_first() {
    let mut index = StorageIndex {
        notebooks: vec![meta("a", "A", 9), meta("b", "B", 8), meta("c", "C", 7)],
    };
    index.touch_at(&"c".to_string(), Timestamp { secs: 10, nanos: 0 });
    assert_eq!(index.notebooks[0].id, "c");
}

#[test]
fn law_sync_takes_names_from_files_and_lists_each_once() {
    let mut index = StorageIndex { notebooks: vec![meta("a", "Old", 5), meta("b", "B", 4)] };
    let found = vec![nb("a", "First"), nb("c", "C"), nb("a", "Second"), nb("b", "B2")];
    index.sync_with_at(&found, Timestamp { secs: 1, nanos: 0 });
    let mut got: Vec<(String, String)> =
        index.notebooks.iter().map(|m| (m.id.clone(), m.name.clone())).collect();
    got.sort();
    assert_eq!(
        got,
        vec![
            ("a".to_string(), "Second".to_string()),
            ("b".to_string(), "B2".to_string()),
            ("c".to_string(), "C".to_string())
        ]
    );
}
