use vstd::prelude::*;

use crate::app::actions::{
    clamp_move, confirmed_ok, subtask_insert_idx, task_insert_idx, add_notebook, add_subtask, add_subtask_ok, add_task, add_task_ok, apply_rename, cancelled,
    cleanup_ghost, cleanup_ok, confirm_cancel, confirm_success, confirm_success_ok, confirmed,
    cycle_theme, delete_prompted, discard_ok, discard_prompted, edit_notebook, edit_task,
    editing_started, enter_effects, enter_notebook, exit_effects, exit_help, exit_notebook,
    ghost_removed, help_closed, help_shown, inspect_task, leave_editor, next_theme,
    notebook_added, notebook_editing, notebook_exited, or_same, prompt_delete,
    prompt_discard_changes, prompt_rename, prompt_toggle_task, rename_ok, rename_prompted,
    renamed, saved_if, show_help, submit_inspector, submit_ok, submitted, subtask_added,
    subtask_swap_result, swap_subtask, swap_subtask_ok, swap_task, swap_task_ok, sync_inspector_title,
    sync_title_ok, task_added, task_editing, task_inspecting, task_selection_ok,
    task_swap_result, theme_effects, title_synced, toggle_prompted, transition_to_edit,
    PendingAction,
};
use crate::app::{effects_model, mode_can_quit, App, AppMode, AppModel, Effect, EffectModel, ModeModel};
use crate::keys::{KeyCode, KeyEvent};
use crate::models::{is_uuid_v4_text, subtasks_model, tasks_model};
use crate::text::is_blank;
use crate::ui::confirm::{confirm_accepts, confirm_step, ConfirmModel, ConfirmPopup};
use crate::ui::inspect_window::{inspector_accepts, inspector_step, InspectorAction, InspectorModel};
use crate::ui::notebook_detail::{detail_accepts, detail_step, NotebookViewAction};
use crate::ui::overview::{overview_step, OverviewAction};
use crate::ui::rename::{rename_accepts, rename_step, RenameModel, RenamePopup};

verus! {

/// Nothing has been typed in the inspector (white space does not count).
pub open spec fn inspector_is_empty(i: InspectorModel) -> bool {
    is_blank(i.title) && is_blank(i.desc) && i.items.len() == 0 && is_blank(i.task)
}

/// The actions whose confirmation popup is the question about unsaved changes.
pub open spec fn is_editor_action(action: PendingAction) -> bool {
    action == PendingAction::AddNotebook || action == PendingAction::EditNotebook || action
        == PendingAction::AddTaskBefore || action == PendingAction::AddTaskAfter || action
        == PendingAction::EditTask || action == PendingAction::InspectTask
}

/// The overview's own selection becomes the selected notebook before a key is handled.
pub open spec fn with_highlight_selected(m: AppModel) -> AppModel {
    match m.overview.state.selected {
        Some(i) => AppModel { selected_notebook_idx: i, ..m },
        None => m,
    }
}

/// The overview after the key, before its request is carried out.
pub open spec fn overview_moved(m: AppModel, key: KeyEvent) -> (AppModel, Option<OverviewAction>) {
    let m0 = with_highlight_selected(m);
    let (o2, a) = overview_step(m0.overview, key);
    (AppModel { overview: o2, ..m0 }, a)
}

/// What a key in the overview needs.
pub open spec fn overview_ok(m: AppModel, key: KeyEvent) -> bool {
    let (m1, a) = overview_moved(m, key);
    match a {
        Some(OverviewAction::AddNotebook) => m1.notebooks.len() < usize::MAX,
        Some(OverviewAction::EditNotebook) | Some(OverviewAction::AccessNotebook) => m1.overview.state.selected matches Some(i) ==> i
            < m1.notebooks.len(),
        _ => true,
    }
}

/// A key in the overview. `id` is the identifier a new notebook gets.
pub open spec fn overview_route(m: AppModel, key: KeyEvent, id: Seq<char>) -> (AppModel, Seq<EffectModel>) {
    let (m1, a) = overview_moved(m, key);
    match a {
        Some(OverviewAction::AddNotebook) => (notebook_added(m1, id), Seq::empty()),
        Some(OverviewAction::EditNotebook) => (notebook_editing(m1), Seq::empty()),
        Some(OverviewAction::AccessNotebook) => (m1, enter_effects(m1)),
        Some(OverviewAction::DeleteNotebook) => (delete_prompted(m1, PendingAction::DeleteNotebook), Seq::empty()),
        Some(OverviewAction::RenameNotebook) => (rename_prompted(m1, PendingAction::RenameNotebook), Seq::empty()),
        None => (m1, Seq::empty()),
    }
}

/// The direction of a task move asked for with Shift: -1 left, 1 right, 0 none.
pub open spec fn task_move_dir(key: KeyEvent) -> int {
    if !key.shift {
        0
    } else if key.code == KeyCode::Char('H') || key.code == KeyCode::Left {
        -1
    } else if key.code == KeyCode::Char('L') || key.code == KeyCode::Right {
        1
    } else {
        0
    }
}

/// The direction of a subtask move asked for with Shift: -1 up, 1 down, 0 none.
pub open spec fn subtask_move_dir(key: KeyEvent) -> int {
    if !key.shift || task_move_dir(key) != 0 {
        0
    } else if key.code == KeyCode::Char('J') || key.code == KeyCode::Down {
        1
    } else if key.code == KeyCode::Char('K') || key.code == KeyCode::Up {
        -1
    } else {
        0
    }
}

/// The prompt that names a new subtask: empty, replaced by the first key typed.
pub open spec fn new_subtask_prompt(action: PendingAction) -> ModeModel {
    ModeModel::Rename(
        RenameModel { title: "New Subtask"@, input: Seq::empty(), cursor_pos: 0, is_first_input: true },
        action,
    )
}

/// The notebook view after the key, before its request is carried out.
pub open spec fn detail_moved(m: AppModel, key: KeyEvent) -> (AppModel, Option<NotebookViewAction>) {
    let (d2, a) = detail_step(m.nb_detail, key);
    (AppModel { nb_detail: d2, ..m }, a)
}

/// What a key in the notebook view needs.
pub open spec fn detail_ok(m: AppModel, key: KeyEvent) -> bool {
    if task_move_dir(key) != 0 {
        swap_task_ok(m, task_move_dir(key))
    } else if subtask_move_dir(key) != 0 {
        swap_subtask_ok(m, subtask_move_dir(key))
    } else {
        &&& detail_accepts(m.nb_detail, key)
        &&& {
            let (m1, a) = detail_moved(m, key);
            match a {
                Some(NotebookViewAction::AddTaskBefore) => add_task_ok(m1, PendingAction::AddTaskBefore),
                Some(NotebookViewAction::AddTaskAfter) => add_task_ok(m1, PendingAction::AddTaskAfter),
                Some(NotebookViewAction::EditTask) | Some(NotebookViewAction::InspectTask) | Some(
                    NotebookViewAction::ConfirmToggleTask,
                ) => task_selection_ok(m1),
                _ => true,
            }
        }
    }
}

/// A key in the notebook view.
pub open spec fn detail_route(m: AppModel, key: KeyEvent) -> (AppModel, Seq<EffectModel>) {
    if task_move_dir(key) != 0 {
        let r = task_swap_result(m, task_move_dir(key));
        (or_same(r, m), saved_if(r))
    } else if subtask_move_dir(key) != 0 {
        let r = subtask_swap_result(m, subtask_move_dir(key));
        (or_same(r, m), saved_if(r))
    } else {
        let (m1, a) = detail_moved(m, key);
        match a {
            Some(NotebookViewAction::Exit) => (notebook_exited(m1), exit_effects(m1)),
            Some(NotebookViewAction::AddTaskBefore) => (task_added(m1, PendingAction::AddTaskBefore), Seq::empty()),
            Some(NotebookViewAction::AddTaskAfter) => (task_added(m1, PendingAction::AddTaskAfter), Seq::empty()),
            Some(NotebookViewAction::AddSubtaskBefore) => (
                AppModel { mode: new_subtask_prompt(PendingAction::AddSubtaskBefore), ..m1 },
                Seq::empty(),
            ),
            Some(NotebookViewAction::AddSubtaskAfter) => (
                AppModel { mode: new_subtask_prompt(PendingAction::AddSubtaskAfter), ..m1 },
                Seq::empty(),
            ),
            Some(NotebookViewAction::EditTask) => (task_editing(m1), Seq::empty()),
            Some(NotebookViewAction::InspectTask) => (task_inspecting(m1), Seq::empty()),
            Some(NotebookViewAction::RenameTask) => (rename_prompted(m1, PendingAction::RenameTask), Seq::empty()),
            Some(NotebookViewAction::RenameSubtask) => (rename_prompted(m1, PendingAction::RenameSubtask), Seq::empty()),
            Some(NotebookViewAction::DeleteTask) => (delete_prompted(m1, PendingAction::DeleteTask), Seq::empty()),
            Some(NotebookViewAction::DeleteSubtask) => (delete_prompted(m1, PendingAction::DeleteSubtask), Seq::empty()),
            Some(NotebookViewAction::ConfirmToggleTask) => (toggle_prompted(m1), Seq::empty()),
            None => (m1, Seq::empty()),
        }
    }
}

/// The inspector after the key, before its signal is carried out.
pub open spec fn inspector_moved(m: AppModel, key: KeyEvent) -> (AppModel, Option<InspectorAction>) {
    let (i2, sig) = inspector_step(m.inspector, key);
    (AppModel { inspector: i2, ..m }, sig)
}

/// Leaving the inspector without a prompt: an inspected task, or nothing typed.
pub open spec fn leaves_quietly(m: AppModel, action: PendingAction) -> bool {
    action == PendingAction::InspectTask || inspector_is_empty(m.inspector)
}

/// What a key in the inspector needs.
pub open spec fn inspector_ok(m: AppModel, action: PendingAction, key: KeyEvent) -> bool {
    &&& inspector_accepts(m.inspector, key)
    &&& {
        let (m1, sig) = inspector_moved(m, key);
        match sig {
            Some(InspectorAction::Submit) => submit_ok(m1, action),
            Some(InspectorAction::Cancel) => if leaves_quietly(m1, action) {
                cleanup_ok(m1, action)
            } else {
                discard_ok(m1, action)
            },
            Some(InspectorAction::Edit) => true,
            None => sync_title_ok(m1, action),
        }
    }
}

/// Saving the inspector and returning to the remembered window.
pub open spec fn submit_route(m: AppModel, action: PendingAction) -> (AppModel, Seq<EffectModel>) {
    let (s, e) = submitted(m, action);
    (AppModel { mode: s.last_window, ..s }, e.push(EffectModel::Refresh))
}

/// A key in the inspector.
pub open spec fn inspector_route(m: AppModel, action: PendingAction, key: KeyEvent) -> (AppModel, Seq<EffectModel>) {
    let (m1, sig) = inspector_moved(m, key);
    match sig {
        Some(InspectorAction::Submit) => submit_route(m1, action),
        Some(InspectorAction::Cancel) => if leaves_quietly(m1, action) {
            leave_editor(m1, action, false)
        } else {
            discard_prompted(m1, action)
        },
        Some(InspectorAction::Edit) => (editing_started(m1, action), Seq::empty()),
        None => (title_synced(m1, action), Seq::empty()),
    }
}

/// Carrying out a confirmed action and returning to the remembered window.
pub open spec fn success_route(m: AppModel, action: PendingAction) -> (AppModel, Seq<EffectModel>) {
    let (c, e) = confirmed(ghost_removed(m, action), action);
    (AppModel { mode: c.last_window, ..c }, crate::app::actions::ghost_removed_effects(m, action) + e)
}

/// What a key on a confirmation popup needs.
pub open spec fn confirm_ok(m: AppModel, p: ConfirmModel, action: PendingAction, key: KeyEvent) -> bool {
    &&& confirm_accepts(p, key)
    &&& match confirm_step(p, key).1 {
        Some(button) => if is_editor_action(action) {
            if button == 0 {
                submit_ok(m, action)
            } else if button == 1 {
                confirm_success_ok(m, action)
            } else {
                true
            }
        } else {
            button == 0 ==> confirm_success_ok(m, action)
        },
        None => true,
    }
}

/// A key on a confirmation popup. The question about unsaved changes answers with save,
/// discard or cancel; any other question with yes (the first button) or no.
pub open spec fn confirm_route(m: AppModel, p: ConfirmModel, action: PendingAction, key: KeyEvent) -> (AppModel, Seq<EffectModel>) {
    let (p2, b) = confirm_step(p, key);
    match b {
        Some(button) => if is_editor_action(action) {
            if button == 0 {
                submit_route(m, action)
            } else if button == 1 {
                success_route(m, action)
            } else {
                (cancelled(m, action), Seq::empty())
            }
        } else if button == 0 {
            success_route(m, action)
        } else {
            (cancelled(m, action), Seq::empty())
        },
        None => (AppModel { mode: ModeModel::Confirm(p2, action), ..m }, Seq::empty()),
    }
}

/// Whether the prompt's action adds a subtask (else it renames).
pub open spec fn names_new_subtask(action: PendingAction) -> bool {
    action == PendingAction::AddSubtaskBefore || action == PendingAction::AddSubtaskAfter
}

/// What a key on a text prompt needs.
pub open spec fn rename_route_ok(m: AppModel, p: RenameModel, action: PendingAction, key: KeyEvent) -> bool {
    &&& rename_accepts(p, key)
    &&& key.code == KeyCode::Enter ==> if names_new_subtask(action) {
        add_subtask_ok(m, action)
    } else {
        rename_ok(m, action)
    }
}

/// A key on a text prompt: Enter adds the subtask or applies the new name, Esc closes the
/// prompt, other keys edit the text.
pub open spec fn rename_route(m: AppModel, p: RenameModel, action: PendingAction, key: KeyEvent) -> (AppModel, Seq<EffectModel>) {
    let (p2, r) = rename_step(p, key);
    match r {
        Some(true) => {
            let (m2, e) = if names_new_subtask(action) {
                let a = subtask_added(m, p2.input, action);
                (or_same(a, m), saved_if(a))
            } else {
                renamed(m, p2.input, action)
            };
            (AppModel { mode: m2.last_window, ..m2 }, e)
        },
        Some(false) => (AppModel { mode: m.last_window, ..m }, Seq::empty()),
        None => (AppModel { mode: ModeModel::Rename(p2, action), ..m }, Seq::empty()),
    }
}

/// The keys that work everywhere, in this order: any key closes the help screen, Alt+t
/// switches the theme, `q` quits from the two main windows, `?` opens the help screen.
pub open spec fn is_global_key(m: AppModel, key: KeyEvent) -> bool {
    ||| m.mode is Help
    ||| (key.code == KeyCode::Char('t') && key.alt)
    ||| (key.code == KeyCode::Char('q') && mode_can_quit(m.mode))
    ||| key.code == KeyCode::Char('?')
}

/// The planner can take the key without going past a list or overflowing.
pub open spec fn app_accepts(m: AppModel, key: KeyEvent) -> bool {
    if m.mode is Help {
        true
    } else if key.code == KeyCode::Char('t') && key.alt {
        m.theme_idx < usize::MAX
    } else if is_global_key(m, key) {
        true
    } else {
        match m.mode {
            ModeModel::Overview => overview_ok(m, key),
            ModeModel::NotebookDetail => detail_ok(m, key),
            ModeModel::Add(a) => inspector_ok(m, a, key),
            ModeModel::Confirm(p, a) => confirm_ok(m, p, a, key),
            ModeModel::Rename(p, a) => rename_route_ok(m, p, a, key),
            ModeModel::Help => true,
        }
    }
}

/// Quitting: the open notebook is saved.
pub open spec fn quit_effects(m: AppModel) -> Seq<EffectModel> {
    match m.nb_detail.notebook {
        Some(nb) => seq![EffectModel::SaveNotebook(nb)],
        None => Seq::empty(),
    }
}

/// The planner after one key, and the outside work it asks for. `id` is the identifier a
/// notebook started by this key gets.
pub open spec fn app_step(m: AppModel, key: KeyEvent, id: Seq<char>) -> (AppModel, Seq<EffectModel>) {
    if m.mode is Help {
        (help_closed(m), Seq::empty())
    } else if key.code == KeyCode::Char('t') && key.alt {
        (AppModel { theme_idx: next_theme(m), ..m }, theme_effects(m))
    } else if key.code == KeyCode::Char('q') && mode_can_quit(m.mode) {
        (AppModel { should_quit: true, ..m }, quit_effects(m))
    } else if key.code == KeyCode::Char('?') {
        (help_shown(m), Seq::empty())
    } else {
        match m.mode {
            ModeModel::Overview => overview_route(m, key, id),
            ModeModel::NotebookDetail => detail_route(m, key),
            ModeModel::Add(a) => inspector_route(m, a, key),
            ModeModel::Confirm(p, a) => confirm_route(m, p, a, key),
            ModeModel::Rename(p, a) => rename_route(m, p, a, key),
            ModeModel::Help => (m, Seq::empty()),
        }
    }
}

/// The key starts a new notebook (its placeholder then ends the list).
pub open spec fn starts_notebook(m: AppModel, key: KeyEvent) -> bool {
    !is_global_key(m, key) && m.mode is Overview && overview_moved(m, key).1 == Some(
        OverviewAction::AddNotebook,
    )
}

/// Routes a key in the overview: the highlighted notebook becomes the selected one, then the
/// overview takes the key and its request is carried out.
fn handle_overview(app: &mut App, key: KeyEvent) -> (effects: Vec<Effect>)
    requires
        overview_ok(old(app)@, key),
    ensures
        final(app)@ == overview_route(old(app)@, key, final(app)@.notebooks.last().id).0,
        effects_model(effects@) == overview_route(old(app)@, key, final(app)@.notebooks.last().id).1,
        overview_moved(old(app)@, key).1 == Some(OverviewAction::AddNotebook) ==> is_uuid_v4_text(
            final(app)@.notebooks.last().id,
        ),
{
    if let Some(idx) = app.overview.state.selected() {
        app.selected_notebook_idx = idx;
    }
    let mut effects: Vec<Effect> = Vec::new();
    if let Some(action) = app.overview.handle_input(key) {
        match action {
            OverviewAction::AddNotebook => add_notebook(app),
            OverviewAction::EditNotebook => edit_notebook(app),
            OverviewAction::AccessNotebook => {
                effects = enter_notebook(app);
            },
            OverviewAction::DeleteNotebook => prompt_delete(app, PendingAction::DeleteNotebook),
            OverviewAction::RenameNotebook => prompt_rename(app, PendingAction::RenameNotebook),
        }
    }
    proof {
        if overview_moved(old(app)@, key).1 is None || overview_moved(old(app)@, key).1 != Some(
            OverviewAction::AccessNotebook,
        ) {
            assert(effects_model(effects@) =~= Seq::<EffectModel>::empty());
        }
    }
    effects
}

/// Opens the prompt that names a new subtask.
fn open_subtask_prompt(app: &mut App, action: PendingAction)
    requires
        names_new_subtask(action),
    ensures
        final(app)@ == (AppModel { mode: new_subtask_prompt(action), ..old(app)@ }),
{
    proof {
        reveal_strlit("");
        assert(crate::text::utf8_len(Seq::<char>::empty()) == 0) by {
            assert(vstd::utf8::encode_utf8(Seq::<char>::empty()) =~= Seq::<u8>::empty());
        }
    }
    let popup = RenamePopup::new("New Subtask".to_owned(), String::new(), action);
    app.mode = AppMode::Rename(popup, action);
}

/// Routes a key in the notebook view: Shift with a direction moves the selected task or
/// subtask; other keys go to the view and its request is carried out.
fn handle_detail(app: &mut App, key: KeyEvent) -> (effects: Vec<Effect>)
    requires
        detail_ok(old(app)@, key),
    ensures
        final(app)@ == detail_route(old(app)@, key).0,
        effects_model(effects@) == detail_route(old(app)@, key).1,
{
    if key.shift {
        match key.code {
            KeyCode::Char('H') | KeyCode::Left => {
                return swap_task(app, -1);
            },
            KeyCode::Char('L') | KeyCode::Right => {
                return swap_task(app, 1);
            },
            KeyCode::Char('J') | KeyCode::Down => {
                return swap_subtask(app, 1);
            },
            KeyCode::Char('K') | KeyCode::Up => {
                return swap_subtask(app, -1);
            },
            _ => {},
        }
    }
    let mut effects: Vec<Effect> = Vec::new();
    if let Some(action) = app.nb_detail.handle_input(key) {
        match action {
            NotebookViewAction::Exit => {
                effects = exit_notebook(app);
            },
            NotebookViewAction::AddTaskBefore => add_task(app, PendingAction::AddTaskBefore),
            NotebookViewAction::AddTaskAfter => add_task(app, PendingAction::AddTaskAfter),
            NotebookViewAction::AddSubtaskBefore => open_subtask_prompt(
                app,
                PendingAction::AddSubtaskBefore,
            ),
            NotebookViewAction::AddSubtaskAfter => open_subtask_prompt(
                app,
                PendingAction::AddSubtaskAfter,
            ),
            NotebookViewAction::EditTask => edit_task(app),
            NotebookViewAction::InspectTask => inspect_task(app),
            NotebookViewAction::RenameTask => prompt_rename(app, PendingAction::RenameTask),
            NotebookViewAction::RenameSubtask => prompt_rename(app, PendingAction::RenameSubtask),
            NotebookViewAction::DeleteTask => prompt_delete(app, PendingAction::DeleteTask),
            NotebookViewAction::DeleteSubtask => prompt_delete(app, PendingAction::DeleteSubtask),
            NotebookViewAction::ConfirmToggleTask => prompt_toggle_task(app),
        }
    }
    proof {
        if detail_moved(old(app)@, key).1 != Some(NotebookViewAction::Exit) {
            assert(effects_model(effects@) =~= Seq::<EffectModel>::empty());
        }
    }
    effects
}

/// Routes a key in the inspector: its signal submits, leaves (asking about unsaved changes
/// when something was typed) or starts editing; any other key copies the title live.
fn handle_inspector(app: &mut App, action: PendingAction, key: KeyEvent) -> (effects: Vec<Effect>)
    requires
        inspector_ok(old(app)@, action, key),
    ensures
        final(app)@ == inspector_route(old(app)@, action, key).0,
        effects_model(effects@) == inspector_route(old(app)@, action, key).1,
{
    let no_effects: Vec<Effect> = Vec::new();
    proof {
        assert(effects_model(no_effects@) =~= Seq::<EffectModel>::empty());
    }
    if let Some(signal) = app.inspector.handle_input(key) {
        match signal {
            InspectorAction::Submit => {
                return submit_inspector(app, action);
            },
            InspectorAction::Cancel => {
                proof {
                    assert(crate::ui::confirm::strings_model(app.inspector.list_items@).len()
                        == app.inspector.list_items@.len());
                }
                if action == PendingAction::InspectTask || app.inspector.is_empty() {
                    let effects = cleanup_ghost(app, action);
                    app.mode = app.last_window.clone();
                    return effects;
                } else {
                    return prompt_discard_changes(app, action);
                }
            },
            InspectorAction::Edit => {
                transition_to_edit(app, action);
                return no_effects;
            },
        }
    }
    sync_inspector_title(app, action);
    no_effects
}


/// Routes a key on a confirmation popup.
fn handle_confirm(app: &mut App, popup: ConfirmPopup, action: PendingAction, key: KeyEvent) -> (effects: Vec<Effect>)
    requires
        confirm_ok(old(app)@, popup@, action, key),
    ensures
        final(app)@ == confirm_route(old(app)@, popup@, action, key).0,
        effects_model(effects@) == confirm_route(old(app)@, popup@, action, key).1,
{
    let no_effects: Vec<Effect> = Vec::new();
    proof {
        assert(effects_model(no_effects@) =~= Seq::<EffectModel>::empty());
    }
    let mut popup = popup;
    if let Some(button) = popup.handle_input(key) {
        let editor = match action {
            PendingAction::AddNotebook
            | PendingAction::EditNotebook
            | PendingAction::AddTaskBefore
            | PendingAction::AddTaskAfter
            | PendingAction::EditTask
            | PendingAction::InspectTask => true,
            _ => false,
        };
        if editor {
            if button == 0 {
                submit_inspector(app, action)
            } else if button == 1 {
                confirm_success(app, action)
            } else {
                confirm_cancel(app, action);
                no_effects
            }
        } else if button == 0 {
            confirm_success(app, action)
        } else {
            confirm_cancel(app, action);
            no_effects
        }
    } else {
        app.mode = AppMode::Confirm(popup, action);
        no_effects
    }
}

/// Routes a key on a text prompt.
fn handle_rename(app: &mut App, popup: RenamePopup, action: PendingAction, key: KeyEvent) -> (effects: Vec<Effect>)
    requires
        rename_route_ok(old(app)@, popup@, action, key),
    ensures
        final(app)@ == rename_route(old(app)@, popup@, action, key).0,
        effects_model(effects@) == rename_route(old(app)@, popup@, action, key).1,
{
    let no_effects: Vec<Effect> = Vec::new();
    proof {
        assert(effects_model(no_effects@) =~= Seq::<EffectModel>::empty());
    }
    let mut popup = popup;
    match popup.handle_input(key) {
        Some(true) => {
            let new_name = popup.input.clone();
            let effects = match action {
                PendingAction::AddSubtaskBefore | PendingAction::AddSubtaskAfter => add_subtask(
                    app,
                    new_name,
                    action,
                ),
                _ => apply_rename(app, new_name, action),
            };
            app.mode = app.last_window.clone();
            effects
        },
        Some(false) => {
            app.mode = app.last_window.clone();
            no_effects
        },
        None => {
            app.mode = AppMode::Rename(popup, action);
            no_effects
        },
    }
}

/// Handles one key press: the keys that work everywhere first (see `is_global_key`), then the
/// window or popup that has the keyboard. Returns the outside work to do, in order.
pub fn handle_input(app: &mut App, key: KeyEvent) -> (effects: Vec<Effect>)
    requires
        app_accepts(old(app)@, key),
    ensures
        final(app)@ == app_step(old(app)@, key, final(app)@.notebooks.last().id).0,
        effects_model(effects@) == app_step(old(app)@, key, final(app)@.notebooks.last().id).1,
        starts_notebook(old(app)@, key) ==> is_uuid_v4_text(final(app)@.notebooks.last().id),
{
    let no_effects: Vec<Effect> = Vec::new();
    proof {
        assert(effects_model(no_effects@) =~= Seq::<EffectModel>::empty());
    }
    if let AppMode::Help = app.mode {
        exit_help(app);
        return no_effects;
    }
    if key.code == KeyCode::Char('t') && key.alt {
        return cycle_theme(app);
    }
    if key.code == KeyCode::Char('q') && app.mode.can_quit() {
        return app.quit();
    }
    if key.code == KeyCode::Char('?') {
        show_help(app);
        return no_effects;
    }
    match app.mode.clone() {
        AppMode::Overview => handle_overview(app, key),
        AppMode::NotebookDetail => handle_detail(app, key),
        AppMode::Add(action) => handle_inspector(app, action, key),
        AppMode::Confirm(popup, action) => handle_confirm(app, popup, action, key),
        AppMode::Rename(popup, action) => handle_rename(app, popup, action, key),
        AppMode::Help => no_effects,
    }
}

/// The lengths of a notebook's task list and of each task's subtask list agree with its model.
proof fn lemma_notebook_lengths(nb: crate::models::Notebook)
    ensures
        nb@.tasks.len() == nb.tasks@.len(),
        forall|t: int|
            0 <= t < nb.tasks@.len() ==> #[trigger] nb@.tasks[t].subtasks.len()
                == nb.tasks@[t].subtasks@.len(),
{
    assert forall|t: int| 0 <= t < nb.tasks@.len() implies #[trigger] nb@.tasks[t].subtasks.len()
        == nb.tasks@[t].subtasks@.len() by {
        assert(tasks_model(nb.tasks@)[t] == nb.tasks@[t]@);
        assert(subtasks_model(nb.tasks@[t].subtasks@).len() == nb.tasks@[t].subtasks@.len());
    }
}

/// Tests `swap_task_ok`.
fn swap_task_check(app: &App, dir: i32) -> (r: bool)
    ensures
        r == swap_task_ok(app@, dir as int),
{
    proof {
        assert(crate::models::notebooks_model(app.notebooks@).len() == app.notebooks@.len());
    }
    match (&app.nb_detail.notebook, app.nb_detail.selected_task_idx) {
        (Some(nb), Some(t)) => {
            proof {
                lemma_notebook_lengths(*nb);
            }
            let len = nb.tasks.len();
            if !(t < len && len <= 0x7fff_ffff) {
                return false;
            }
            let sum: i64 = t as i64 + dir as i64;
            if sum < -0x8000_0000 || sum > 0x7fff_ffff {
                return false;
            }
            let target = clamp_move(t, dir, len);
            target == t || (t < app.nb_detail.task_states.len() && target
                < app.nb_detail.task_states.len() && app.selected_notebook_idx < app.notebooks.len())
        },
        _ => true,
    }
}

/// Tests `swap_subtask_ok`.
fn swap_subtask_check(app: &App, dir: i32) -> (r: bool)
    ensures
        r == swap_subtask_ok(app@, dir as int),
{
    proof {
        assert(crate::models::notebooks_model(app.notebooks@).len() == app.notebooks@.len());
    }
    match (&app.nb_detail.notebook, app.nb_detail.selected_task_idx) {
        (Some(nb), Some(t)) => {
            proof {
                lemma_notebook_lengths(*nb);
            }
            if !(t < app.nb_detail.task_states.len() && t < nb.tasks.len()) {
                return false;
            }
            match app.nb_detail.task_states[t].state.selected {
                Some(s) => {
                    let n = nb.tasks[t].subtasks.len();
                    if !(s < n && n <= 0x7fff_ffff) {
                        return false;
                    }
                    let sum: i64 = s as i64 + dir as i64;
                    -0x8000_0000 <= sum && sum <= 0x7fff_ffff && app.selected_notebook_idx
                        < app.notebooks.len()
                },
                None => true,
            }
        },
        _ => true,
    }
}

/// Tests `task_selection_ok`.
fn task_selection_check(app: &App) -> (r: bool)
    ensures
        r == task_selection_ok(app@),
{
    match (&app.nb_detail.notebook, app.nb_detail.selected_task_idx) {
        (Some(nb), Some(t)) => {
            proof {
                lemma_notebook_lengths(*nb);
            }
            t < nb.tasks.len()
        },
        _ => true,
    }
}

/// Tests `add_task_ok`.
fn add_task_check(app: &App, action: PendingAction) -> (r: bool)
    ensures
        r == add_task_ok(app@, action),
{
    proof {
        assert(crate::models::notebooks_model(app.notebooks@).len() == app.notebooks@.len());
    }
    match &app.nb_detail.notebook {
        Some(nb) => {
            proof {
                lemma_notebook_lengths(*nb);
            }
            let len = nb.tasks.len();
            let cur = match app.nb_detail.selected_task_idx {
                Some(c) => c,
                None => 0,
            };
            if len > 0 && action != PendingAction::AddTaskBefore && cur == usize::MAX {
                return false;
            }
            if len > 0 && cur == usize::MAX {
                return false;
            }
            let i: usize = if len == 0 {
                0
            } else if action == PendingAction::AddTaskBefore {
                cur
            } else {
                cur + 1
            };
            proof {
                assert(i == task_insert_idx(app@.nb_detail, action));
            }
            i <= len && i <= app.nb_detail.task_states.len() && app.selected_notebook_idx
                < app.notebooks.len()
        },
        None => true,
    }
}

/// Tests `add_subtask_ok`.
fn add_subtask_check(app: &App, action: PendingAction) -> (r: bool)
    ensures
        r == add_subtask_ok(app@, action),
{
    proof {
        assert(crate::models::notebooks_model(app.notebooks@).len() == app.notebooks@.len());
    }
    match (&app.nb_detail.notebook, app.nb_detail.selected_task_idx) {
        (Some(nb), Some(t)) => {
            proof {
                lemma_notebook_lengths(*nb);
            }
            if !(t < app.nb_detail.task_states.len() && t < nb.tasks.len()) {
                return false;
            }
            let n = nb.tasks[t].subtasks.len();
            let cur = match app.nb_detail.task_states[t].state.selected {
                Some(c) => c,
                None => 0,
            };
            if action != PendingAction::AddSubtaskBefore && n > 0 && cur == usize::MAX {
                return false;
            }
            let i: usize = if action == PendingAction::AddSubtaskBefore {
                cur
            } else if n == 0 {
                0
            } else {
                cur + 1
            };
            proof {
                assert(i == subtask_insert_idx(app@, action));
            }
            i <= n && app.selected_notebook_idx < app.notebooks.len()
        },
        _ => true,
    }
}

/// Tests `rename_ok`.
fn rename_check(app: &App, action: PendingAction) -> (r: bool)
    ensures
        r == rename_ok(app@, action),
{
    proof {
        assert(crate::models::notebooks_model(app.notebooks@).len() == app.notebooks@.len());
    }
    let sel_ok = app.selected_notebook_idx < app.notebooks.len();
    match action {
        PendingAction::RenameNotebook => sel_ok,
        PendingAction::RenameTask => match (&app.nb_detail.notebook, app.nb_detail.selected_task_idx) {
            (Some(nb), Some(t)) => {
                proof {
                    lemma_notebook_lengths(*nb);
                }
                t < nb.tasks.len() && sel_ok
            },
            _ => true,
        },
        PendingAction::RenameSubtask => match (&app.nb_detail.notebook, app.nb_detail.selected_task_idx) {
            (Some(nb), Some(t)) => {
                proof {
                    lemma_notebook_lengths(*nb);
                }
                if !(t < app.nb_detail.task_states.len()) {
                    return false;
                }
                match app.nb_detail.task_states[t].state.selected {
                    Some(s) => t < nb.tasks.len() && s < nb.tasks[t].subtasks.len() && sel_ok,
                    None => true,
                }
            },
            _ => true,
        },
        _ => true,
    }
}

/// Tests `cleanup_ok`.
fn cleanup_check(app: &App, action: PendingAction) -> (r: bool)
    ensures
        r == cleanup_ok(app@, action),
{
    proof {
        assert(crate::models::notebooks_model(app.notebooks@).len() == app.notebooks@.len());
    }
    if action != PendingAction::AddTaskBefore && action != PendingAction::AddTaskAfter {
        return true;
    }
    match (&app.nb_detail.notebook, app.nb_detail.selected_task_idx) {
        (Some(nb), Some(idx)) => {
            proof {
                lemma_notebook_lengths(*nb);
            }
            !(idx < nb.tasks.len()) || (idx < app.nb_detail.task_states.len()
                && app.selected_notebook_idx < app.notebooks.len())
        },
        _ => true,
    }
}

/// Tests `discard_ok`.
fn discard_check(app: &App, action: PendingAction) -> (r: bool)
    ensures
        r == discard_ok(app@, action),
{
    proof {
        assert(crate::models::notebooks_model(app.notebooks@).len() == app.notebooks@.len());
    }
    (action != PendingAction::EditNotebook || app.selected_notebook_idx < app.notebooks.len())
        && cleanup_check(app, action)
}

/// Tests `sync_title_ok`.
fn sync_title_check(app: &App, action: PendingAction) -> (r: bool)
    ensures
        r == sync_title_ok(app@, action),
{
    proof {
        assert(crate::models::notebooks_model(app.notebooks@).len() == app.notebooks@.len());
    }
    let sel_ok = app.selected_notebook_idx < app.notebooks.len();
    match action {
        PendingAction::AddNotebook | PendingAction::EditNotebook => sel_ok,
        PendingAction::AddTaskBefore | PendingAction::AddTaskAfter | PendingAction::EditTask => match (
            &app.nb_detail.notebook,
            app.nb_detail.selected_task_idx,
        ) {
            (Some(nb), Some(idx)) => {
                proof {
                    lemma_notebook_lengths(*nb);
                }
                idx < nb.tasks.len() && sel_ok
            },
            _ => true,
        },
        _ => true,
    }
}

/// Tests `submit_ok`.
fn submit_check(app: &App, action: PendingAction) -> (r: bool)
    ensures
        r == submit_ok(app@, action),
{
    proof {
        assert(crate::models::notebooks_model(app.notebooks@).len() == app.notebooks@.len());
    }
    match action {
        PendingAction::AddNotebook => app.selected_notebook_idx < app.notebooks.len(),
        PendingAction::EditNotebook => match app.overview.state.selected {
            Some(idx) => idx < app.notebooks.len(),
            None => true,
        },
        PendingAction::EditTask | PendingAction::AddTaskBefore | PendingAction::AddTaskAfter => match (
            &app.nb_detail.notebook,
            app.nb_detail.selected_task_idx,
        ) {
            (Some(nb), Some(idx)) => {
                proof {
                    lemma_notebook_lengths(*nb);
                }
                idx < nb.tasks.len() && app.selected_notebook_idx < app.notebooks.len()
            },
            _ => true,
        },
        _ => true,
    }
}

/// Tests `confirm_success_ok`.
fn confirm_success_check(app: &App, action: PendingAction) -> (r: bool)
    ensures
        r == confirm_success_ok(app@, action),
{
    proof {
        assert(crate::models::notebooks_model(app.notebooks@).len() == app.notebooks@.len());
    }
    let confirmed = match action {
        PendingAction::DeleteNotebook => app.selected_notebook_idx < app.notebooks.len(),
        PendingAction::DeleteTask | PendingAction::DeleteSubtask => app.nb_detail.notebook.is_none()
            || app.selected_notebook_idx < app.notebooks.len(),
        PendingAction::ToggleTask => match (&app.nb_detail.notebook, app.nb_detail.selected_task_idx) {
            (Some(nb), Some(idx)) => {
                proof {
                    lemma_notebook_lengths(*nb);
                }
                idx < nb.tasks.len() && app.selected_notebook_idx < app.notebooks.len()
            },
            _ => true,
        },
        _ => true,
    };
    proof {
        assert(confirmed == confirmed_ok(ghost_removed(app@, action), action));
    }
    cleanup_check(app, action) && confirmed
}

/// Tests `app_accepts`: whether `handle_input` can take the key. Where it cannot, the key
/// would run past a list or overflow.
pub fn accepts_key(app: &App, key: KeyEvent) -> (r: bool)
    ensures
        r == app_accepts(app@, key),
{
    proof {
        assert(crate::models::notebooks_model(app.notebooks@).len() == app.notebooks@.len());
    }
    if let AppMode::Help = app.mode {
        return true;
    }
    if key.code == KeyCode::Char('t') && key.alt {
        return app.theme_idx < usize::MAX;
    }
    if (key.code == KeyCode::Char('q') && app.mode.can_quit()) || key.code == KeyCode::Char('?') {
        return true;
    }
    match &app.mode {
        AppMode::Overview => {
            let sel = app.overview.state.selected;
            let (action, sel_after): (Option<OverviewAction>, Option<usize>) = match key.code {
                KeyCode::Enter => (Some(OverviewAction::AccessNotebook), sel),
                KeyCode::Char(c) => if c == 'a' {
                    (Some(OverviewAction::AddNotebook), sel)
                } else if c == 'e' {
                    (Some(OverviewAction::EditNotebook), sel)
                } else if '1' <= c && c <= '5' {
                    let index: usize = (c as u32 - '1' as u32) as usize;
                    (
                        Some(OverviewAction::AccessNotebook),
                        if index < app.overview.notebooks.len() {
                            Some(index)
                        } else {
                            sel
                        },
                    )
                } else {
                    (None, sel)
                },
                _ => (None, sel),
            };
            proof {
                assert(crate::models::notebooks_model(app.overview.notebooks@).len()
                    == app.overview.notebooks@.len());
                let (m1, a) = overview_moved(app@, key);
                assert(a == Some(OverviewAction::AddNotebook) ==> action == a);
                assert(action == Some(OverviewAction::AddNotebook) ==> a == action);
                assert((a == Some(OverviewAction::EditNotebook) || a == Some(
                    OverviewAction::AccessNotebook,
                )) ==> action == a && m1.overview.state.selected == sel_after);
                assert((action == Some(OverviewAction::EditNotebook) || action == Some(
                    OverviewAction::AccessNotebook,
                )) ==> action == a);
            }
            match action {
                Some(OverviewAction::AddNotebook) => app.notebooks.len() < usize::MAX,
                Some(OverviewAction::EditNotebook) | Some(OverviewAction::AccessNotebook) => match sel_after {
                    Some(i) => i < app.notebooks.len(),
                    None => true,
                },
                _ => true,
            }
        },
        AppMode::NotebookDetail => {
            if key.shift {
                match key.code {
                    KeyCode::Char('H') | KeyCode::Left => {
                        return swap_task_check(app, -1);
                    },
                    KeyCode::Char('L') | KeyCode::Right => {
                        return swap_task_check(app, 1);
                    },
                    KeyCode::Char('J') | KeyCode::Down => {
                        return swap_subtask_check(app, 1);
                    },
                    KeyCode::Char('K') | KeyCode::Up => {
                        return swap_subtask_check(app, -1);
                    },
                    _ => {},
                }
            }
            if !app.nb_detail.key_ok(key) {
                return false;
            }
            match key.code {
                KeyCode::Char(c) => if c == 'A' {
                    add_task_check(app, PendingAction::AddTaskAfter)
                } else if c == 'I' {
                    add_task_check(app, PendingAction::AddTaskBefore)
                } else if c == 'E' || c == 'X' {
                    task_selection_check(app)
                } else {
                    true
                },
                KeyCode::Enter => task_selection_check(app),
                _ => true,
            }
        },
        AppMode::Add(action) => {
            let action = *action;
            if !app.inspector.key_ok(key) {
                return false;
            }
            let mut probe = app.inspector.clone();
            let signal = probe.handle_input(key);
            proof {
                assert(crate::ui::confirm::strings_model(probe.list_items@).len()
                    == probe.list_items@.len());
            }
            match signal {
                Some(InspectorAction::Submit) => submit_check(app, action),
                Some(InspectorAction::Cancel) => if action == PendingAction::InspectTask
                    || probe.is_empty() {
                    cleanup_check(app, action)
                } else {
                    discard_check(app, action)
                },
                Some(InspectorAction::Edit) => true,
                None => sync_title_check(app, action),
            }
        },
        AppMode::Confirm(popup, action) => {
            let action = *action;
            if !popup.key_ok(key) {
                return false;
            }
            let mut probe = popup.clone();
            match probe.handle_input(key) {
                Some(button) => {
                    let editor = match action {
                        PendingAction::AddNotebook
                        | PendingAction::EditNotebook
                        | PendingAction::AddTaskBefore
                        | PendingAction::AddTaskAfter
                        | PendingAction::EditTask
                        | PendingAction::InspectTask => true,
                        _ => false,
                    };
                    if editor {
                        if button == 0 {
                            submit_check(app, action)
                        } else if button == 1 {
                            confirm_success_check(app, action)
                        } else {
                            true
                        }
                    } else {
                        button != 0 || confirm_success_check(app, action)
                    }
                },
                None => true,
            }
        },
        AppMode::Rename(popup, action) => {
            let action = *action;
            if !popup.key_ok(key) {
                return false;
            }
            if key.code != KeyCode::Enter {
                return true;
            }
            match action {
                PendingAction::AddSubtaskBefore | PendingAction::AddSubtaskAfter => add_subtask_check(
                    app,
                    action,
                ),
                _ => rename_check(app, action),
            }
        },
        AppMode::Help => true,
    }
}

/// Handles the key if the planner can take it (`Some` with the outside work to do), and
/// leaves the state alone otherwise (`None`).
pub fn handle_key(app: &mut App, key: KeyEvent) -> (r: Option<Vec<Effect>>)
    ensures
        r is None <==> !app_accepts(old(app)@, key),
        r is None ==> final(app)@ == old(app)@,
        r matches Some(effects) ==> {
            &&& final(app)@ == app_step(old(app)@, key, final(app)@.notebooks.last().id).0
            &&& effects_model(effects@) == app_step(old(app)@, key, final(app)@.notebooks.last().id).1
            &&& starts_notebook(old(app)@, key) ==> is_uuid_v4_text(final(app)@.notebooks.last().id)
        },
{
    if accepts_key(app, key) {
        Some(app.handle_input(key))
    } else {
        None
    }
}

} // verus!
