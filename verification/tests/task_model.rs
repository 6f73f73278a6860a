use rusty_do::models::{Notebook, Subtask, Task};

fn sub(name: &str, done: bool) -> Subtask {
    Subtask { name: name.to_string(), is_done: done }
}

fn task_with(flags: &[bool]) -> Task {
    Task {
        name: "T".to_string(),
        description: String::new(),
        completion: 0,
        is_done: false,
        subtasks: flags.iter().enumerate().map(|(i, d)| sub(&format!("s{}", i), *d)).collect(),
    }
}

#[test]
fn subtask_toggle_flips_flag() {
    let mut s = sub("a", false);
    s.toggle();
    assert!(s.is_done);
    s.toggle();
    assert!(!s.is_done);
}

#[test]
fn completion_is_rounded_to_tenths() {
    let mut t = task_with(&[true, false, false]);
    t.recalculate_completion();
    assert_eq!(t.completion, 333);
    assert!(!t.is_done);

    let mut t = task_with(&[true, true, false]);
    t.recalculate_completion();
    assert_eq!(t.completion, 667);

    let mut t = task_with(&[true, false, false, false, false, false, false, false]);
    t.recalculate_completion();
    assert_eq!(t.completion, 125);

    // 1/16 = 6.25 %: half a tenth rounds up.
    let mut flags = vec![false; 16];
    flags[0] = true;
    let mut t = task_with(&flags);
    t.recalculate_completion();
    assert_eq!(t.completion, 63);
}

#[test]
fn completion_full_marks_task_done() {
    let mut t = task_with(&[true, true]);
    t.recalculate_completion();
    assert_eq!(t.completion, 1000);
    assert!(t.is_done);

    let mut t = task_with(&[false, false]);
    t.is_done = true;
    t.recalculate_completion();
    assert_eq!(t.completion, 0);
    assert!(!t.is_done);
}

#[test]
fn completion_without_subtasks_follows_flag() {
    let mut t = task_with(&[]);
    t.is_done = true;
    t.recalculate_completion();
    assert_eq!(t.completion, 1000);
    assert!(t.is_done);
    t.is_done = false;
    t.recalculate_completion();
    assert_eq!(t.completion, 0);
}

#[test]
fn toggle_subtask_recalculates() {
    let mut t = task_with(&[false, false]);
    t.toggle_subtask(1);
    assert!(t.subtasks[1].is_done);
    assert_eq!(t.completion, 500);
    t.toggle_subtask(0);
    assert_eq!(t.completion, 1000);
    assert!(t.is_done);
}

#[test]
fn toggle_subtask_out_of_range_changes_nothing() {
    let mut t = task_with(&[true]);
    t.completion = 42;
    t.toggle_subtask(5);
    assert_eq!(t.completion, 42);
    assert!(t.subtasks[0].is_done);
}

#[test]
fn toggle_task_sets_every_subtask() {
    let mut t = task_with(&[true, false, false]);
    t.recalculate_completion();
    t.toggle_task();
    assert!(t.is_done);
    assert_eq!(t.completion, 1000);
    assert!(t.subtasks.iter().all(|s| s.is_done));
    t.toggle_task();
    assert!(!t.is_done);
    assert_eq!(t.completion, 0);
    assert!(t.subtasks.iter().all(|s| !s.is_done));
    assert_eq!(t.name, "T");
}

#[test]
fn law_toggling_a_subtask_twice_restores_the_task() {
    let mut t = task_with(&[true, false, true]);
    t.recalculate_completion();
    let before = (t.completion, t.is_done);
    t.toggle_subtask(1);
    assert_ne!(t.completion, before.0);
    t.toggle_subtask(1);
    assert_eq!((t.completion, t.is_done), before);
    assert!(t.subtasks[0].is_done && !t.subtasks[1].is_done && t.subtasks[2].is_done);
}

#[test]
fn law_done_exactly_when_all_subtasks_done() {
    let mut t = task_with(&[true, true, false]);
    t.recalculate_completion();
    assert!(!t.is_done);
    t.toggle_subtask(2);
    assert!(t.is_done);
}

#[test]
fn rounding_reaches_full_with_one_of_2000_open() {
    let mut flags = vec![true; 2000];
    flags[0] = false;
    let mut t = task_with(&flags);
    t.recalculate_completion();
    assert_eq!(t.completion, 1000);
    assert!(t.is_done);
}

#[test]
fn new_notebook_gets_random_uuid() {
    let a = Notebook::new("Work".to_string(), "desc".to_string());
    let b = Notebook::new("Work".to_string(), "desc".to_string());
    assert_eq!(a.name, "Work");
    assert_eq!(a.description, "desc");
    assert!(a.tasks.is_empty());
    assert_eq!(a.id.len(), 36);
    for (i, c) in a.id.chars().enumerate() {
        if i == 8 || i == 13 || i == 18 || i == 23 {
            assert_eq!(c, '-');
        } else {
            assert!(c.is_ascii_hexdigit() && !c.is_ascii_uppercase());
        }
    }
    assert_eq!(a.id.as_bytes()[14], b'4');
    assert!(matches!(a.id.as_bytes()[19], b'8' | b'9' | b'a' | b'b'));
    assert_ne!(a.id, b.id);
}
