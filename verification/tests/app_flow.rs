use rusty_do::app::actions::{
    create_notebook_struct, create_task_struct, delete_element, discard_checked,
    update_task_struct, PendingAction,
};
use rusty_do::app::input::{accepts_key, handle_key};
use rusty_do::app::{App, AppMode, Effect};
use rusty_do::keys::{KeyCode, KeyEvent};
use rusty_do::models::{Notebook, Subtask, Task};
use rusty_do::ui::inspect_window::InspectMode;
use rusty_do::ui::theme::Theme;

fn key(code: KeyCode) -> KeyEvent {
    KeyEvent::plain(code)
}

fn ch(c: char) -> KeyEvent {
    KeyEvent::plain(KeyCode::Char(c))
}

fn shift(code: KeyCode) -> KeyEvent {
    KeyEvent { code, shift: true, ctrl: false, alt: false }
}

fn ctrl(c: char) -> KeyEvent {
    KeyEvent { code: KeyCode::Char(c), shift: false, ctrl: true, alt: false }
}

fn task(name: &str, subs: &[(&str, bool)]) -> Task {
    let mut t = Task {
        name: name.to_string(),
        description: String::new(),
        completion: 0,
        is_done: false,
        subtasks: subs.iter().map(|(n, d)| Subtask { name: n.to_string(), is_done: *d }).collect(),
    };
    t.recalculate_completion();
    t
}

fn notebook(id: &str, name: &str, tasks: Vec<Task>) -> Notebook {
    Notebook { id: id.to_string(), name: name.to_string(), description: String::new(), tasks }
}

fn press(app: &mut App, k: KeyEvent) -> Vec<Effect> {
    assert!(accepts_key(app, k));
    handle_key(app, k).expect("the planner takes this key")
}

fn type_text(app: &mut App, s: &str) {
    for c in s.chars() {
        press(app, ch(c));
    }
}

fn task_names(nb: &Notebook) -> Vec<String> {
    nb.tasks.iter().map(|t| t.name.clone()).collect()
}

fn open(nb: &App) -> &Notebook {
    nb.nb_detail.notebook.as_ref().unwrap()
}

/// An app inside notebook "Work" (tasks A, B, C; A has subtasks a1, a2).
fn app_in_notebook() -> App {
    let work = notebook(
        "w",
        "Work",
        vec![task("A", &[("a1", false), ("a2", true)]), task("B", &[]), task("C", &[])],
    );
    let mut app = App::new(vec![work, notebook("h", "Home", vec![])], 0);
    let effects = press(&mut app, key(KeyCode::Enter));
    assert_eq!(effects.len(), 3);
    assert!(matches!(&effects[0], Effect::TouchNotebook(id) if id == "w"));
    assert!(matches!(effects[1], Effect::Refresh));
    assert!(matches!(effects[2], Effect::OpenFirstNotebook));
    let loaded = app.notebooks.clone();
    app.refresh_notebooks_list(loaded);
    app.open_first_notebook();
    assert!(matches!(app.mode, AppMode::NotebookDetail));
    app
}

#[test]
fn new_app_opens_on_overview() {
    let app = App::new(vec![notebook("1", "One", vec![])], 1);
    assert!(matches!(app.mode, AppMode::Overview));
    assert!(!app.should_quit);
    assert_eq!(app.overview.state.selected(), Some(0));
    assert_eq!(app.theme_idx, 1);
    assert!(app.nb_detail.notebook.is_none());
    assert!(app.mode.can_quit() && !app.mode.is_popup());
}

#[test]
fn q_quits_from_overview() {
    let mut app = App::new(vec![], 0);
    let effects = press(&mut app, ch('q'));
    assert!(app.should_quit);
    assert!(effects.is_empty());
}

#[test]
fn q_in_notebook_saves_and_quits() {
    let mut app = app_in_notebook();
    let effects = press(&mut app, ch('q'));
    assert!(app.should_quit);
    assert!(matches!(&effects[..], [Effect::SaveNotebook(nb)] if nb.id == "w"));
}

#[test]
fn help_opens_and_any_key_closes_it() {
    let mut app = App::new(vec![], 0);
    press(&mut app, ch('?'));
    assert!(matches!(app.mode, AppMode::Help));
    assert!(matches!(app.last_window, AppMode::Overview));
    press(&mut app, ch('z'));
    assert!(matches!(app.mode, AppMode::Overview));
}

#[test]
fn alt_t_cycles_theme() {
    let mut app = App::new(vec![], 0);
    let alt_t = KeyEvent { code: KeyCode::Char('t'), shift: false, ctrl: false, alt: true };
    let effects = press(&mut app, alt_t);
    assert_eq!(app.theme_idx, 1);
    assert!(matches!(&effects[..], [Effect::ApplyTheme(t), Effect::SaveSettings(1)] if *t == Theme::nord()));
    let effects = press(&mut app, alt_t);
    assert_eq!(app.theme_idx, 0);
    assert!(matches!(&effects[..], [Effect::ApplyTheme(t), Effect::SaveSettings(0)] if *t == Theme::default()));
}

#[test]
fn toggle_task_after_confirmation() {
    let mut app = app_in_notebook();
    press(&mut app, ch('X'));
    match &app.mode {
        AppMode::Confirm(p, PendingAction::ToggleTask) => {
            assert_eq!(p.title, "Toggle Task");
            assert_eq!(p.message, "Toggle completion for A?");
            assert_eq!(p.buttons, vec!["Yes", "No"]);
        },
        _ => panic!("expected the toggle question"),
    }
    let effects = press(&mut app, ch('y'));
    assert!(matches!(app.mode, AppMode::NotebookDetail));
    let a = &open(&app).tasks[0];
    assert!(a.is_done && a.subtasks.iter().all(|s| s.is_done));
    assert_eq!(a.completion, 1000);
    assert!(matches!(&effects[..], [Effect::SaveNotebook(nb)] if nb.tasks[0].is_done));
    assert!(app.notebooks[0].tasks[0].is_done);
}

#[test]
fn declined_toggle_changes_nothing() {
    let mut app = app_in_notebook();
    press(&mut app, ch('X'));
    let effects = press(&mut app, ch('n'));
    assert!(effects.is_empty());
    assert!(matches!(app.mode, AppMode::NotebookDetail));
    assert!(!open(&app).tasks[0].is_done);
}

#[test]
fn delete_selected_task() {
    let mut app = app_in_notebook();
    press(&mut app, ch('l'));
    press(&mut app, ch('D'));
    match &app.mode {
        AppMode::Confirm(p, PendingAction::DeleteTask) => {
            assert_eq!(p.title, "Delete Task");
            assert_eq!(p.message, "Delete B?");
        },
        _ => panic!("expected the delete question"),
    }
    let effects = press(&mut app, key(KeyCode::Enter));
    assert_eq!(task_names(open(&app)), vec!["A", "C"]);
    assert_eq!(app.nb_detail.selected_task_idx, Some(1));
    assert_eq!(app.nb_detail.task_states.len(), 2);
    assert!(matches!(&effects[..], [Effect::SaveNotebook(nb)] if nb.tasks.len() == 2));
}

#[test]
fn delete_highlighted_subtask() {
    let mut app = app_in_notebook();
    press(&mut app, ch('j'));
    press(&mut app, ch('d'));
    match &app.mode {
        AppMode::Confirm(p, _) => assert_eq!(p.message, "Delete a2?"),
        _ => panic!("expected the delete question"),
    }
    press(&mut app, ch('y'));
    let a = &open(&app).tasks[0];
    assert_eq!(a.subtasks.len(), 1);
    assert_eq!(a.subtasks[0].name, "a1");
    assert_eq!(a.completion, 0);
    assert_eq!(app.nb_detail.task_states[0].state.selected(), Some(0));
}

#[test]
fn add_task_after_and_save() {
    let mut app = app_in_notebook();
    press(&mut app, ch('A'));
    assert!(matches!(app.mode, AppMode::Add(PendingAction::AddTaskAfter)));
    assert_eq!(task_names(open(&app)), vec!["A", "New Task", "B", "C"]);
    assert_eq!(app.nb_detail.selected_task_idx, Some(1));
    assert_eq!(app.inspector.mode, InspectMode::Add);
    type_text(&mut app, "Zed");
    assert_eq!(task_names(&app.notebooks[0]), vec!["A", "Zed", "B", "C"]);
    press(&mut app, key(KeyCode::Tab));
    press(&mut app, key(KeyCode::Tab));
    type_text(&mut app, "z1");
    let effects = press(&mut app, ctrl('s'));
    assert!(matches!(app.mode, AppMode::NotebookDetail));
    let z = &open(&app).tasks[1];
    assert_eq!(z.name, "Zed");
    assert_eq!(z.subtasks.len(), 1);
    assert_eq!(z.subtasks[0].name, "z1");
    assert!(matches!(&effects[..], [Effect::SaveNotebook(_), Effect::Refresh]));
}

#[test]
fn law_abandoned_task_leaves_no_trace() {
    let mut app = app_in_notebook();
    let before = task_names(open(&app));
    press(&mut app, ch('I'));
    assert_eq!(task_names(open(&app)), vec!["New Task", "A", "B", "C"]);
    let effects = press(&mut app, key(KeyCode::Esc));
    assert!(effects.is_empty());
    assert!(matches!(app.mode, AppMode::NotebookDetail));
    assert_eq!(task_names(open(&app)), before);
    assert_eq!(task_names(&app.notebooks[0]), before);
    assert_eq!(app.nb_detail.task_states.len(), 3);
}

#[test]
fn law_task_move_is_undone_by_the_opposite_move() {
    let mut app = app_in_notebook();
    press(&mut app, ch('l'));
    let effects = press(&mut app, shift(KeyCode::Char('L')));
    assert_eq!(task_names(open(&app)), vec!["A", "C", "B"]);
    assert_eq!(app.nb_detail.selected_task_idx, Some(2));
    assert!(matches!(&effects[..], [Effect::SaveNotebook(_)]));
    press(&mut app, shift(KeyCode::Left));
    assert_eq!(task_names(open(&app)), vec!["A", "B", "C"]);
    assert_eq!(app.nb_detail.selected_task_idx, Some(1));
    let effects = press(&mut app, shift(KeyCode::Char('H')));
    assert_eq!(task_names(open(&app)), vec!["B", "A", "C"]);
    press(&mut app, shift(KeyCode::Char('H')));
    assert!(effects.len() == 1);
    assert_eq!(app.nb_detail.selected_task_idx, Some(0));
}

#[test]
fn law_subtask_move_is_undone_by_the_opposite_move() {
    let mut app = app_in_notebook();
    press(&mut app, shift(KeyCode::Char('J')));
    let names: Vec<String> = open(&app).tasks[0].subtasks.iter().map(|s| s.name.clone()).collect();
    assert_eq!(names, vec!["a2", "a1"]);
    assert_eq!(app.nb_detail.task_states[0].state.selected(), Some(1));
    press(&mut app, shift(KeyCode::Up));
    let names: Vec<String> = open(&app).tasks[0].subtasks.iter().map(|s| s.name.clone()).collect();
    assert_eq!(names, vec!["a1", "a2"]);
    assert_eq!(app.nb_detail.task_states[0].state.selected(), Some(0));
}

#[test]
fn moving_a_subtask_of_an_empty_task_is_refused() {
    let mut app = app_in_notebook();
    press(&mut app, ch('l'));
    let k = shift(KeyCode::Char('J'));
    assert!(!accepts_key(&app, k));
    assert!(handle_key(&mut app, k).is_none());
    assert_eq!(task_names(open(&app)), vec!["A", "B", "C"]);
}

#[test]
fn add_subtask_through_prompt() {
    let mut app = app_in_notebook();
    press(&mut app, ch('a'));
    match &app.mode {
        AppMode::Rename(p, PendingAction::AddSubtaskAfter) => {
            assert_eq!(p.title, "New Subtask");
            assert!(p.is_first_input);
        },
        _ => panic!("expected the subtask prompt"),
    }
    type_text(&mut app, "mid");
    let effects = press(&mut app, key(KeyCode::Enter));
    assert!(matches!(app.mode, AppMode::NotebookDetail));
    let names: Vec<String> = open(&app).tasks[0].subtasks.iter().map(|s| s.name.clone()).collect();
    assert_eq!(names, vec!["a1", "mid", "a2"]);
    assert_eq!(app.nb_detail.task_states[0].state.selected(), Some(1));
    assert_eq!(open(&app).tasks[0].completion, 333);
    assert!(matches!(&effects[..], [Effect::SaveNotebook(_)]));
}

#[test]
fn rename_subtask_through_prompt() {
    let mut app = app_in_notebook();
    press(&mut app, ch('e'));
    match &app.mode {
        AppMode::Rename(p, PendingAction::RenameSubtask) => {
            assert_eq!(p.title, "Rename Subtask");
            assert_eq!(p.input, "a1");
        },
        _ => panic!("expected the rename prompt"),
    }
    press(&mut app, key(KeyCode::Backspace));
    press(&mut app, ch('!'));
    press(&mut app, key(KeyCode::Enter));
    assert_eq!(open(&app).tasks[0].subtasks[0].name, "a!");
}

#[test]
fn rename_cancelled_with_esc() {
    let mut app = app_in_notebook();
    press(&mut app, ch('r'));
    press(&mut app, ch('x'));
    let effects = press(&mut app, key(KeyCode::Esc));
    assert!(effects.is_empty());
    assert!(matches!(app.mode, AppMode::NotebookDetail));
    assert_eq!(open(&app).tasks[0].name, "A");
}

#[test]
fn leaving_notebook_saves_and_reloads() {
    let mut app = app_in_notebook();
    let effects = press(&mut app, key(KeyCode::Esc));
    assert!(matches!(app.mode, AppMode::Overview));
    assert!(matches!(&effects[..], [Effect::SaveNotebook(_), Effect::TouchNotebook(id), Effect::Refresh] if id == "w"));
}

#[test]
fn inspect_then_edit_task() {
    let mut app = app_in_notebook();
    press(&mut app, key(KeyCode::Enter));
    assert!(matches!(app.mode, AppMode::Add(PendingAction::InspectTask)));
    assert_eq!(app.inspector.mode, InspectMode::View);
    assert_eq!(app.inspector.title_input, "A");
    press(&mut app, ch('e'));
    assert!(matches!(app.mode, AppMode::Add(PendingAction::EditTask)));
    assert_eq!(app.inspector.mode, InspectMode::Edit);
}

#[test]
fn leaving_an_edit_checks_the_disk_copy() {
    let mut app = app_in_notebook();
    press(&mut app, ch('E'));
    press(&mut app, ch('!'));
    let effects = press(&mut app, key(KeyCode::Esc));
    assert!(matches!(&effects[..], [Effect::CheckDiscard(PendingAction::EditTask, id)] if id == "w"));
    assert_eq!(app.notebooks[0].tasks[0].name, "A!");
    let disk = notebook("w", "Work", vec![task("A", &[("a1", false), ("a2", true)])]);
    let effects = discard_checked(&mut app, PendingAction::EditTask, Some(disk));
    assert!(effects.is_empty());
    match &app.mode {
        AppMode::Confirm(p, PendingAction::EditTask) => {
            assert_eq!(p.title, "Unsaved Changes");
            assert_eq!(p.buttons, vec!["Save & Exit", "Discard", "Cancel"]);
        },
        _ => panic!("expected the unsaved-changes question"),
    }
    press(&mut app, ch('c'));
    assert!(matches!(app.mode, AppMode::Add(PendingAction::EditTask)));
}

#[test]
fn unchanged_edit_leaves_without_question() {
    let mut app = app_in_notebook();
    press(&mut app, ch('E'));
    press(&mut app, key(KeyCode::Esc));
    let disk = notebook("w", "Work", vec![task("A", &[("a1", false), ("a2", true)])]);
    discard_checked(&mut app, PendingAction::EditTask, Some(disk));
    assert!(matches!(app.mode, AppMode::NotebookDetail));
    let unread = discard_checked(&mut app, PendingAction::EditTask, None);
    assert!(unread.is_empty());
}

#[test]
fn overview_delete_notebook() {
    let mut app = App::new(vec![notebook("1", "One", vec![]), notebook("2", "Two", vec![])], 0);
    press(&mut app, ch('j'));
    press(&mut app, ch('d'));
    match &app.mode {
        AppMode::Confirm(p, PendingAction::DeleteNotebook) => {
            assert_eq!(p.title, "Delete Notebook");
            assert_eq!(p.message, "Delete Two?");
        },
        _ => panic!("expected the delete question"),
    }
    let effects = press(&mut app, ch('y'));
    assert_eq!(app.notebooks.len(), 1);
    assert!(matches!(&effects[..], [Effect::RemoveNotebookFile(id), Effect::SyncIndex, Effect::Refresh] if id == "2"));
    assert!(matches!(app.mode, AppMode::Overview));
}

#[test]
fn overview_rename_notebook() {
    let mut app = App::new(vec![notebook("1", "One", vec![])], 0);
    press(&mut app, ch('r'));
    match &app.mode {
        AppMode::Rename(p, PendingAction::RenameNotebook) => {
            assert_eq!(p.input, "One");
            assert_eq!(p.cursor_pos, 3);
        },
        _ => panic!("expected the rename prompt"),
    }
    press(&mut app, ch('s'));
    let effects = press(&mut app, key(KeyCode::Enter));
    assert_eq!(app.notebooks[0].name, "Ones");
    assert!(matches!(&effects[..], [Effect::SaveNotebook(nb), Effect::Refresh] if nb.name == "Ones"));
}

#[test]
fn law_abandoned_notebook_leaves_no_trace() {
    let mut app = App::new(vec![notebook("1", "One", vec![])], 0);
    press(&mut app, ch('a'));
    assert!(matches!(app.mode, AppMode::Add(PendingAction::AddNotebook)));
    assert_eq!(app.notebooks.len(), 2);
    assert_eq!(app.notebooks[1].name, "New Notebook");
    assert_eq!(app.notebooks[1].id.len(), 36);
    assert_eq!(app.selected_notebook_idx, 1);
    let effects = press(&mut app, key(KeyCode::Esc));
    assert_eq!(app.notebooks.len(), 1);
    assert!(matches!(&effects[..], [Effect::Refresh]));
    assert!(matches!(app.mode, AppMode::Overview));
}

#[test]
fn new_notebook_with_text_asks_before_discarding() {
    let mut app = App::new(vec![], 0);
    press(&mut app, ch('a'));
    type_text(&mut app, "Trip");
    assert_eq!(app.notebooks[0].name, "Trip");
    assert_eq!(app.overview.notebooks[0].name, "Trip");
    press(&mut app, key(KeyCode::Esc));
    assert!(matches!(app.mode, AppMode::Confirm(_, PendingAction::AddNotebook)));
    let effects = press(&mut app, ch('d'));
    assert!(app.notebooks.is_empty());
    assert!(matches!(&effects[..], [Effect::Refresh]));
}

#[test]
fn new_notebook_saved_with_tasks() {
    let mut app = App::new(vec![], 0);
    press(&mut app, ch('a'));
    type_text(&mut app, "Trip");
    press(&mut app, key(KeyCode::Enter));
    type_text(&mut app, "fun");
    press(&mut app, key(KeyCode::Tab));
    type_text(&mut app, "Pack");
    press(&mut app, key(KeyCode::Enter));
    type_text(&mut app, "Go");
    let effects = press(&mut app, ctrl('s'));
    let nb = &app.notebooks[0];
    assert_eq!(nb.name, "Trip");
    assert_eq!(nb.description, "fun");
    assert_eq!(task_names(nb), vec!["Pack", "Go"]);
    assert!(matches!(&effects[..], [Effect::SaveNotebook(_), Effect::TouchNotebook(_), Effect::Refresh]));
}

#[test]
fn edit_notebook_from_overview() {
    let mut app = App::new(vec![notebook("1", "One", vec![task("t", &[])])], 0);
    press(&mut app, ch('e'));
    assert!(matches!(app.mode, AppMode::Add(PendingAction::EditNotebook)));
    assert_eq!(app.inspector.list_items, vec!["t"]);
    press(&mut app, ch('!'));
    let effects = press(&mut app, ctrl('s'));
    assert_eq!(app.notebooks[0].name, "One!");
    assert!(matches!(&effects[..], [Effect::SaveNotebook(_), Effect::TouchNotebook(id), Effect::Refresh] if id == "1"));
}

#[test]
fn refresh_follows_highlight_by_id() {
    let mut app = App::new(vec![notebook("1", "One", vec![]), notebook("2", "Two", vec![])], 0);
    press(&mut app, ch('j'));
    app.refresh_notebooks_list(vec![notebook("2", "Two", vec![]), notebook("1", "One", vec![])]);
    assert_eq!(app.overview.state.selected(), Some(0));
    assert_eq!(app.selected_notebook_idx, 0);
    assert_eq!(app.overview.inspector.title_input, "Two");
    assert_eq!(open(&app).id, "2");
}

#[test]
fn law_view_stays_whole_under_keys() {
    let mut app = app_in_notebook();
    let keys = [
        ch('l'), ch('A'), key(KeyCode::Esc), ch('j'), ch('x'), shift(KeyCode::Right), ch('h'),
        ch('I'), ch('Q'), ctrl('s'), ch('D'), ch('y'), ch('k'), ch('l'),
    ];
    for k in keys {
        if accepts_key(&app, k) {
            handle_key(&mut app, k);
        }
        let n = open(&app).tasks.len();
        assert_eq!(app.nb_detail.task_states.len(), n);
        if let Some(s) = app.nb_detail.selected_task_idx {
            assert!(s < n);
        }
    }
}

#[test]
fn delete_element_variants() {
    let nb = notebook("1", "N", vec![task("A", &[("x", true), ("y", false)]), task("B", &[])]);
    assert!(delete_element(PendingAction::DeleteNotebook, nb.clone(), None, None).is_none());
    let r = delete_element(PendingAction::DeleteTask, nb.clone(), Some(1), None).unwrap();
    assert_eq!(task_names(&r), vec!["A"]);
    let r = delete_element(PendingAction::DeleteTask, nb.clone(), Some(9), None).unwrap();
    assert_eq!(task_names(&r), vec!["A", "B"]);
    let r = delete_element(PendingAction::DeleteSubtask, nb.clone(), Some(0), Some(1)).unwrap();
    assert_eq!(r.tasks[0].subtasks.len(), 1);
    assert_eq!(r.tasks[0].completion, 1000);
    assert!(r.tasks[0].is_done);
    let r = delete_element(PendingAction::RenameTask, nb, Some(0), Some(0)).unwrap();
    assert_eq!(r.tasks.len(), 2);
}

#[test]
fn create_and_update_tasks() {
    let t = create_task_struct("T", "d", &vec!["a".to_string(), "b".to_string()]);
    assert_eq!(t.name, "T");
    assert_eq!(t.description, "d");
    assert_eq!(t.completion, 0);
    assert!(!t.is_done && t.subtasks.iter().all(|s| !s.is_done));
    let nb = create_notebook_struct("N", "D", &vec!["x".to_string()]);
    assert_eq!(nb.name, "N");
    assert_eq!(task_names(&nb), vec!["x"]);
    assert_eq!(nb.id.len(), 36);

    let old = task("Old", &[("keep", true), ("dup", false), ("dup", true), ("gone", true)]);
    let names = vec!["new".to_string(), "keep".to_string(), "dup".to_string()];
    let u = update_task_struct(old, "Renamed", "desc", &names);
    assert_eq!(u.name, "Renamed");
    assert_eq!(u.description, "desc");
    let flags: Vec<bool> = u.subtasks.iter().map(|s| s.is_done).collect();
    assert_eq!(flags, vec![false, true, true]);
    assert_eq!(u.completion, 667);
}
