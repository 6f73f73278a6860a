use rusty_do::keys::{KeyCode, KeyEvent};
use rusty_do::models::{Notebook, Subtask, Task};
use rusty_do::ui::inspect_window::{InspectField, InspectMode, Inspector, InspectorAction};
use rusty_do::ui::list_state::ListSelection;
use rusty_do::ui::notebook_detail::{NotebookDetail, NotebookViewAction};
use rusty_do::ui::overview::{Overview, OverviewAction};
use rusty_do::ui::task_column::{wrap_text, TaskColumnState};

fn key(code: KeyCode) -> KeyEvent {
    KeyEvent::plain(code)
}

fn ch(c: char) -> KeyEvent {
    KeyEvent::plain(KeyCode::Char(c))
}

fn task(name: &str, subs: &[(&str, bool)]) -> Task {
    let mut t = Task {
        name: name.to_string(),
        description: format!("about {}", name),
        completion: 0,
        is_done: false,
        subtasks: subs.iter().map(|(n, d)| Subtask { name: n.to_string(), is_done: *d }).collect(),
    };
    t.recalculate_completion();
    t
}

fn notebook(id: &str, name: &str, tasks: Vec<Task>) -> Notebook {
    Notebook { id: id.to_string(), name: name.to_string(), description: format!("{} notes", name), tasks }
}

#[test]
fn list_selection_basics() {
    let mut s = ListSelection::new();
    assert_eq!(s.selected(), None);
    s.select_last();
    assert_eq!(s.selected(), Some(usize::MAX));
    s.offset = 3;
    s.select_first();
    assert_eq!(s.selected(), Some(0));
    assert_eq!(s.offset, 3);
    s.select(None);
    assert_eq!(s.offset, 0);
    assert_eq!(TaskColumnState::new().state.selected(), Some(0));
}

#[test]
fn inspector_setup_fills_from_notebook_or_task() {
    let nb = notebook("1", "Home", vec![task("Dishes", &[]), task("Laundry", &[])]);
    let i = Inspector::setup(Some(&nb), None, "Tasks".to_string());
    assert_eq!(i.mode, InspectMode::Edit);
    assert_eq!(i.title_input, "Home");
    assert_eq!(i.desc_input, "Home notes");
    assert_eq!(i.list_items, vec!["Dishes", "Laundry"]);
    assert_eq!(i.cursor_pos, 4);
    assert_eq!(i.focused_field, InspectField::Title);

    let t = task("Cook", &[("Rice", true), ("Beans", false)]);
    let j = Inspector::setup(None, Some(&t), "Subtasks".to_string());
    assert_eq!(j.title_input, "Cook");
    assert_eq!(j.list_items, vec!["Rice", "Beans"]);

    let e = Inspector::setup(None, None, "Tasks".to_string());
    assert_eq!(e.mode, InspectMode::Add);
    assert!(e.is_empty());
    assert_eq!(e.cursor_pos, 0);
}

#[test]
fn inspector_typing_and_fields() {
    let mut i = Inspector::setup(None, None, "Subtasks".to_string());
    for c in "Plan".chars() {
        assert_eq!(i.handle_input(ch(c)), None);
    }
    assert_eq!(i.title_input, "Plan");
    assert!(!i.is_empty());
    i.handle_input(key(KeyCode::Enter));
    assert_eq!(i.focused_field, InspectField::Description);
    i.handle_input(ch('a'));
    i.handle_input(key(KeyCode::Enter));
    i.handle_input(ch('b'));
    assert_eq!(i.desc_input, "a\nb");
    i.handle_input(key(KeyCode::Up));
    assert_eq!(i.cursor_pos, 1);
    i.handle_input(key(KeyCode::Tab));
    assert_eq!(i.focused_field, InspectField::Contents);
    i.handle_input(ch('x'));
    i.handle_input(key(KeyCode::Enter));
    assert_eq!(i.list_items, vec!["x"]);
    assert_eq!(i.task_input, "");
    i.handle_input(key(KeyCode::BackTab));
    assert_eq!(i.focused_field, InspectField::Description);
    assert_eq!(i.get_current_buffer(), "a\nb");
}

#[test]
fn inspector_submit_needs_a_title() {
    let mut i = Inspector::setup(None, None, "Tasks".to_string());
    let save = KeyEvent { code: KeyCode::Char('s'), shift: false, ctrl: true, alt: false };
    assert_eq!(i.handle_input(save), None);
    i.handle_input(ch('T'));
    i.handle_input(key(KeyCode::Tab));
    i.handle_input(key(KeyCode::Tab));
    i.handle_input(ch('z'));
    assert_eq!(i.handle_input(save), Some(InspectorAction::Submit));
    assert_eq!(i.list_items, vec!["z"]);
    let alt_enter = KeyEvent { code: KeyCode::Enter, shift: false, ctrl: false, alt: true };
    assert_eq!(i.handle_input(alt_enter), Some(InspectorAction::Submit));
}

#[test]
fn inspector_view_mode_only_edits_or_leaves() {
    let t = task("Cook", &[]);
    let mut i = Inspector::setup(None, Some(&t), "Subtasks".to_string());
    i.mode = InspectMode::View;
    assert_eq!(i.handle_input(ch('x')), None);
    assert_eq!(i.title_input, "Cook");
    assert_eq!(i.handle_input(ch('e')), Some(InspectorAction::Edit));
    assert_eq!(i.handle_input(key(KeyCode::Esc)), Some(InspectorAction::Cancel));
}

#[test]
fn inspector_cursor_moves_and_flush() {
    let mut i = Inspector::new(
        InspectMode::Edit,
        "ab".to_string(),
        String::new(),
        Vec::new(),
        "Tasks".to_string(),
    );
    assert_eq!(i.cursor_pos, 2);
    i.handle_input(key(KeyCode::Home));
    assert_eq!(i.cursor_pos, 0);
    i.handle_input(key(KeyCode::Delete));
    assert_eq!(i.title_input, "b");
    i.handle_input(key(KeyCode::Right));
    i.handle_input(key(KeyCode::Backspace));
    assert_eq!(i.title_input, "");
    i.task_input = "  ".to_string();
    i.flush_task_buffer();
    assert!(i.list_items.is_empty());
    i.task_input = "item".to_string();
    i.flush_task_buffer();
    assert_eq!(i.list_items, vec!["item"]);
    i.focused_field = InspectField::Contents;
    i.task_input = "abc".to_string();
    i.cursor_pos = 0;
    i.reset_cursor_to_end();
    assert_eq!(i.cursor_pos, 3);
}

#[test]
fn overview_moves_and_requests() {
    let nbs = vec![notebook("1", "A", vec![task("t", &[])]), notebook("2", "B", vec![])];
    let mut o = Overview::new(nbs);
    assert_eq!(o.state.selected(), Some(0));
    assert_eq!(o.inspector.title_input, "A");
    assert_eq!(o.inspector.list_items, vec!["t"]);
    assert_eq!(o.handle_input(ch('j')), None);
    assert_eq!(o.state.selected(), Some(1));
    assert_eq!(o.inspector.title_input, "B");
    assert_eq!(o.handle_input(key(KeyCode::Down)), None);
    assert_eq!(o.state.selected(), Some(0));
    assert_eq!(o.handle_input(ch('k')), None);
    assert_eq!(o.state.selected(), Some(1));
    assert_eq!(o.handle_input(ch('g')), None);
    assert_eq!(o.state.selected(), Some(0));
    assert_eq!(o.handle_input(ch('2')), Some(OverviewAction::AccessNotebook));
    assert_eq!(o.state.selected(), Some(1));
    assert_eq!(o.handle_input(ch('5')), Some(OverviewAction::AccessNotebook));
    assert_eq!(o.state.selected(), Some(1));
    assert_eq!(o.handle_input(ch('d')), Some(OverviewAction::DeleteNotebook));
    assert_eq!(o.handle_input(ch('r')), Some(OverviewAction::RenameNotebook));
    assert_eq!(o.handle_input(ch('a')), Some(OverviewAction::AddNotebook));
    assert_eq!(o.handle_input(ch('e')), Some(OverviewAction::EditNotebook));
    assert_eq!(o.handle_input(key(KeyCode::Enter)), Some(OverviewAction::AccessNotebook));
    assert_eq!(o.handle_input(ch('G')), None);
    assert_eq!(o.state.selected(), Some(usize::MAX));
}

#[test]
fn empty_overview_shows_placeholder() {
    let mut o = Overview::new(Vec::new());
    assert_eq!(o.state.selected(), None);
    assert_eq!(o.inspector.title_input, "No Selection");
    assert_eq!(o.inspector.desc_input, "Select a notebook to see its details.");
    o.next();
    o.previous();
    assert_eq!(o.state.selected(), None);
}

#[test]
fn detail_moves_wrap_and_toggle() {
    let nb = notebook(
        "1",
        "N",
        vec![task("A", &[("a1", false), ("a2", false)]), task("B", &[]), task("C", &[])],
    );
    let mut d = NotebookDetail::new(Some(nb));
    assert_eq!(d.selected_task_idx, Some(0));
    assert_eq!(d.task_states.len(), 3);
    assert_eq!(d.handle_input(ch('h')), None);
    assert_eq!(d.selected_task_idx, Some(2));
    assert_eq!(d.handle_input(key(KeyCode::Right)), None);
    assert_eq!(d.selected_task_idx, Some(0));
    d.handle_input(ch('j'));
    assert_eq!(d.task_states[0].state.selected(), Some(1));
    d.handle_input(ch('j'));
    assert_eq!(d.task_states[0].state.selected(), Some(0));
    d.handle_input(ch('k'));
    assert_eq!(d.task_states[0].state.selected(), Some(1));
    d.handle_input(ch('x'));
    let t = &d.notebook.as_ref().unwrap().tasks[0];
    assert!(t.subtasks[1].is_done);
    assert_eq!(t.completion, 500);
}

#[test]
fn detail_keys_ask_for_actions() {
    let mut d = NotebookDetail::new(Some(notebook("1", "N", vec![task("A", &[])])));
    let cases = [
        (key(KeyCode::Esc), NotebookViewAction::Exit),
        (key(KeyCode::Enter), NotebookViewAction::InspectTask),
        (ch('r'), NotebookViewAction::RenameTask),
        (ch('e'), NotebookViewAction::RenameSubtask),
        (ch('E'), NotebookViewAction::EditTask),
        (ch('A'), NotebookViewAction::AddTaskAfter),
        (ch('I'), NotebookViewAction::AddTaskBefore),
        (ch('a'), NotebookViewAction::AddSubtaskAfter),
        (ch('i'), NotebookViewAction::AddSubtaskBefore),
        (ch('D'), NotebookViewAction::DeleteTask),
        (ch('d'), NotebookViewAction::DeleteSubtask),
        (ch('X'), NotebookViewAction::ConfirmToggleTask),
    ];
    for (k, a) in cases {
        assert_eq!(d.handle_input(k), Some(a));
    }
    assert_eq!(d.handle_input(ch('z')), None);
}

#[test]
fn empty_detail_view() {
    let mut d = NotebookDetail::new(None);
    assert_eq!(d.selected_task_idx, None);
    assert!(d.get_column_widths().is_empty());
    assert_eq!(d.handle_input(ch('l')), None);
    let (n, cols) = d.get_visible_columns(&Vec::new(), 80);
    assert_eq!(n, 0);
    assert!(cols.is_empty());
}

#[test]
fn column_widths_and_scrolling() {
    let long = "x".repeat(100);
    let nb = notebook(
        "1",
        "N",
        vec![
            task("short", &[]),
            task("a name that is exactly thirty c", &[]),
            task("t", &[("a subtask of twenty-four", false)]),
            task(&long, &[]),
        ],
    );
    let mut d = NotebookDetail::new(Some(nb));
    let w = d.get_column_widths();
    assert_eq!(w, vec![22, 33, 32, 72]);
    let (n, cols) = d.get_visible_columns(&w, 60);
    assert_eq!(n, 2);
    assert_eq!(cols, vec![22, 33]);
    d.selected_task_idx = Some(2);
    d.update_scroll_offset(&w, 60);
    assert_eq!(d.scroll_offset, 2);
    d.selected_task_idx = Some(3);
    d.update_scroll_offset(&w, 60);
    assert_eq!(d.scroll_offset, 3);
    let (n, cols) = d.get_visible_columns(&w, 60);
    assert_eq!(n, 1);
    assert_eq!(cols, vec![72]);
    d.selected_task_idx = Some(0);
    d.update_scroll_offset(&w, 60);
    assert_eq!(d.scroll_offset, 0);
}

#[test]
fn wrap_text_fills_lines_greedily() {
    assert_eq!(wrap_text("[ ] buy some milk today", 10), "[ ] buy\nsome milk\ntoday");
    assert_eq!(wrap_text("  a   b  ", 10), "a b");
    assert_eq!(wrap_text("", 10), "");
    assert_eq!(wrap_text("abcdefghijkl", 5), "\nabcdefghijkl");
    assert_eq!(wrap_text("héllo wörld", 11), "héllo\nwörld");
    assert_eq!(wrap_text("tab\tand\nnewline", 100), "tab and newline");
}

#[test]
fn law_wrapping_keeps_the_words() {
    let text = "the quick  brown\tfox jumps over the lazy dog";
    for width in [0usize, 3, 8, 20, 100] {
        let w = wrap_text(text, width);
        let a: Vec<&str> = w.split_whitespace().collect();
        let b: Vec<&str> = text.split_whitespace().collect();
        assert_eq!(a, b);
    }
}

#[test]
fn law_typing_then_backspace_restores_inspector() {
    let mut i = Inspector::new(
        InspectMode::Edit,
        "tïtle".to_string(),
        "d".to_string(),
        Vec::new(),
        "Tasks".to_string(),
    );
    i.handle_input(key(KeyCode::Left));
    let before = (i.title_input.clone(), i.cursor_pos);
    i.handle_input(ch('ß'));
    assert!(i.key_ok(key(KeyCode::Backspace)));
    i.handle_input(key(KeyCode::Backspace));
    assert_eq!((i.title_input.clone(), i.cursor_pos), before);
}

#[test]
fn law_down_then_up_returns_to_notebook() {
    let nbs = vec![notebook("1", "A", vec![]), notebook("2", "B", vec![]), notebook("3", "C", vec![])];
    let mut o = Overview::new(nbs);
    for start in 0..3 {
        o.state.select(Some(start));
        o.sync_inspector();
        let title = o.inspector.title_input.clone();
        o.handle_input(ch('j'));
        o.handle_input(ch('k'));
        assert_eq!(o.state.selected(), Some(start));
        assert_eq!(o.inspector.title_input, title);
    }
}

#[test]
fn law_right_then_left_returns_to_task() {
    let nb = notebook("1", "N", vec![task("A", &[("x", false), ("y", false)]), task("B", &[])]);
    let mut d = NotebookDetail::new(Some(nb));
    for _ in 0..2 {
        let before = d.selected_task_idx;
        d.handle_input(ch('l'));
        d.handle_input(ch('h'));
        assert_eq!(d.selected_task_idx, before);
        d.handle_input(ch('l'));
    }
    d.selected_task_idx = Some(0);
    d.handle_input(ch('j'));
    d.handle_input(ch('k'));
    assert_eq!(d.task_states[0].state.selected(), Some(0));
}

#[test]
fn law_tab_round_trip() {
    let mut i = Inspector::new(InspectMode::Edit, "t".to_string(), "dd".to_string(), Vec::new(), "Tasks".to_string());
    i.handle_input(key(KeyCode::Tab));
    i.handle_input(key(KeyCode::BackTab));
    assert_eq!(i.focused_field, InspectField::Title);
    assert_eq!(i.cursor_pos, 1);
    for _ in 0..3 {
        i.handle_input(key(KeyCode::Tab));
    }
    assert_eq!(i.focused_field, InspectField::Title);
}

#[test]
fn scrolling_takes_wide_columns_it_never_reaches() {
    let nb = notebook("1", "N", vec![task("a", &[]), task("b", &[])]);
    let mut d = NotebookDetail::new(Some(nb));
    d.selected_task_idx = Some(1);
    d.scroll_offset = 1;
    let w = vec![65535u16, 10];
    d.update_scroll_offset(&w, 20);
    assert_eq!(d.scroll_offset, 1);
    let (n, cols) = d.get_visible_columns(&w, 20);
    assert_eq!(n, 1);
    assert_eq!(cols, vec![10]);
}

#[test]
fn law_ascii_fields_stay_whole_on_a_key_sequence() {
    let mut i = Inspector::new(
        InspectMode::Add,
        "ab".to_string(),
        "line one\nline two".to_string(),
        Vec::new(),
        "Tasks".to_string(),
    );
    let keys = [
        key(KeyCode::Tab),
        key(KeyCode::Up),
        key(KeyCode::Down),
        key(KeyCode::Down),
        key(KeyCode::End),
        ch('z'),
        key(KeyCode::Enter),
        key(KeyCode::Backspace),
        key(KeyCode::Delete),
        key(KeyCode::Tab),
        ch('q'),
        key(KeyCode::Enter),
        key(KeyCode::BackTab),
        key(KeyCode::Right),
        key(KeyCode::Left),
        key(KeyCode::Home),
    ];
    for k in keys.iter() {
        assert!(i.key_ok(*k));
        i.handle_input(*k);
        let cur = i.get_current_buffer().clone();
        assert!(i.cursor_pos <= cur.len());
        assert!(i.title_input.is_ascii() && i.desc_input.is_ascii() && i.task_input.is_ascii());
    }
    assert_eq!(i.list_items, vec!["q".to_string()]);
}
