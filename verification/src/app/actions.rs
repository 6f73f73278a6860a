use vstd::prelude::*;

use crate::models::{
    is_uuid_v4_text, notebooks_model, recalculated, toggled_task, subtasks_model, tasks_model, Notebook,
    NotebookModel, Subtask, SubtaskModel, Task, TaskModel,
};
use crate::app::{
    effects_model, mode_is_popup, open_notebook, refreshed_detail, App, AppMode, AppModel, Effect,
    EffectModel, ModeModel,
};
use crate::ui::notebook_detail::{opt_model, DetailModel};
use crate::ui::task_column::TaskColumnState;
use crate::text::{concat3, is_blank, trim_is_empty, utf8_len};
use crate::ui::confirm::{strings_model, ConfirmModel, ConfirmPopup};
use crate::ui::rename::{RenameModel, RenamePopup};
use crate::ui::inspect_window::{
    collect_subtask_names, collect_task_names, setup_model, subtask_names, task_names, InspectMode,
    Inspector, InspectorModel,
};
use crate::ui::list_state::ListSelection;
use crate::ui::overview::OverviewModel;
use crate::ui::theme::{theme_at, theme_for_index};

verus! {

/// What a popup or the inspector is about to do once the user answers.
#[derive(Clone, Copy, PartialEq, Eq, Structural, Debug)]
pub enum PendingAction {
    DeleteNotebook,
    DeleteTask,
    DeleteSubtask,
    RenameNotebook,
    RenameTask,
    RenameSubtask,
    AddNotebook,
    AddTaskBefore,
    AddTaskAfter,
    AddSubtaskBefore,
    AddSubtaskAfter,
    EditTask,
    EditNotebook,
    InspectTask,
    ToggleTask,
}

/// Fresh, unfinished subtasks with the given names.
pub open spec fn fresh_subtasks(names: Seq<Seq<char>>) -> Seq<SubtaskModel> {
    names.map_values(|n: Seq<char>| SubtaskModel { name: n, is_done: false })
}

/// A new task: nothing done, no completion.
pub open spec fn fresh_task(name: Seq<char>, desc: Seq<char>, names: Seq<Seq<char>>) -> TaskModel {
    TaskModel {
        name,
        description: desc,
        completion: 0,
        is_done: false,
        subtasks: fresh_subtasks(names),
    }
}

/// The done flag of the last subtask called `name` (false when there is none): the status a
/// subtask keeps when the list is rebuilt from names.
pub open spec fn last_status(subs: Seq<SubtaskModel>, name: Seq<char>) -> bool
    decreases subs.len(),
{
    if subs.len() == 0 {
        false
    } else if subs.last().name == name {
        subs.last().is_done
    } else {
        last_status(subs.drop_last(), name)
    }
}

/// A task rebuilt with a new name, description and subtask list; a subtask whose name was
/// already present keeps its status.
pub open spec fn updated_task(
    t: TaskModel,
    name: Seq<char>,
    desc: Seq<char>,
    names: Seq<Seq<char>>,
) -> TaskModel {
    recalculated(
        TaskModel {
            name,
            description: desc,
            subtasks: names.map_values(
                |n: Seq<char>| SubtaskModel { name: n, is_done: last_status(t.subtasks, n) },
            ),
            ..t
        },
    )
}

/// The notebook after a delete request (`None` when the notebook itself goes).
pub open spec fn after_delete(
    action: PendingAction,
    nb: NotebookModel,
    task_idx: Option<usize>,
    subtask_idx: Option<usize>,
) -> Option<NotebookModel> {
    match action {
        PendingAction::DeleteNotebook => None,
        PendingAction::DeleteTask => match task_idx {
            Some(t) => if t < nb.tasks.len() {
                Some(NotebookModel { tasks: nb.tasks.remove(t as int), ..nb })
            } else {
                Some(nb)
            },
            None => Some(nb),
        },
        PendingAction::DeleteSubtask => match (task_idx, subtask_idx) {
            (Some(t), Some(s)) => if t < nb.tasks.len() && s < nb.tasks[t as int].subtasks.len() {
                let task = nb.tasks[t as int];
                Some(
                    NotebookModel {
                        tasks: nb.tasks.update(
                            t as int,
                            recalculated(
                                TaskModel { subtasks: task.subtasks.remove(s as int), ..task },
                            ),
                        ),
                        ..nb
                    },
                )
            } else {
                Some(nb)
            },
            _ => Some(nb),
        },
        _ => Some(nb),
    }
}

/// Removes a task or a subtask from a notebook; `None` for a notebook deletion, the notebook
/// unchanged when the indices name nothing.
pub fn delete_element(
    action: PendingAction,
    notebook: Notebook,
    task_idx: Option<usize>,
    subtask_idx: Option<usize>,
) -> (r: Option<Notebook>)
    ensures
        match (r, after_delete(action, notebook@, task_idx, subtask_idx)) {
            (Some(n), Some(m)) => n@ == m,
            (None, None) => true,
            _ => false,
        },
        r matches Some(n) ==> n.id@ == notebook.id@,
{
    let mut notebook = notebook;
    match action {
        PendingAction::DeleteNotebook => None,
        PendingAction::DeleteTask => {
            if let Some(t_idx) = task_idx {
                if t_idx < notebook.tasks.len() {
                    let ghost before = notebook.tasks@;
                    notebook.tasks.remove(t_idx);
                    proof {
                        assert(tasks_model(notebook.tasks@) =~= tasks_model(before).remove(
                            t_idx as int,
                        ));
                    }
                }
            }
            Some(notebook)
        },
        PendingAction::DeleteSubtask => {
            if let (Some(t_idx), Some(s_idx)) = (task_idx, subtask_idx) {
                if t_idx < notebook.tasks.len() && s_idx < notebook.tasks[t_idx].subtasks.len() {
                    let ghost before = notebook@;
                    let mut task = notebook.tasks[t_idx].clone();
                    let ghost tb = task.subtasks@;
                    task.subtasks.remove(s_idx);
                    proof {
                        assert(subtasks_model(task.subtasks@) =~= subtasks_model(tb).remove(
                            s_idx as int,
                        ));
                    }
                    task.recalculate_completion();
                    notebook.tasks.set(t_idx, task);
                    proof {
                        assert(tasks_model(notebook.tasks@) =~= after_delete(
                            action,
                            before,
                            task_idx,
                            subtask_idx,
                        )->0.tasks);
                    }
                }
            }
            Some(notebook)
        },
        _ => Some(notebook),
    }
}

/// Unfinished subtasks named after `names`.
fn fresh_subtask_list(names: &Vec<String>) -> (r: Vec<Subtask>)
    ensures
        subtasks_model(r@) == fresh_subtasks(strings_model(names@)),
{
    let mut r: Vec<Subtask> = Vec::new();
    let mut i: usize = 0;
    while i < names.len()
        invariant
            i <= names.len(),
            subtasks_model(r@) =~= fresh_subtasks(strings_model(names@.subrange(0, i as int))),
        decreases names.len() - i,
    {
        let ghost before = r@;
        r.push(Subtask { name: names[i].clone(), is_done: false });
        proof {
            assert(subtasks_model(r@) =~= subtasks_model(before).push(
                SubtaskModel { name: names@[i as int]@, is_done: false },
            ));
            assert(strings_model(names@.subrange(0, i + 1)) =~= strings_model(
                names@.subrange(0, i as int),
            ).push(names@[i as int]@));
        }
        i = i + 1;
    }
    proof {
        assert(names@.subrange(0, names.len() as int) =~= names@);
    }
    r
}

/// A new task with unfinished subtasks named after `subtask_names`.
pub fn create_task_struct(name: &str, desc: &str, subtask_names: &Vec<String>) -> (t: Task)
    ensures
        t@ == fresh_task(name@, desc@, strings_model(subtask_names@)),
{
    let mut task = Task {
        name: name.to_owned(),
        description: desc.to_owned(),
        completion: 0,
        is_done: false,
        subtasks: fresh_subtask_list(subtask_names),
    };
    proof {
        let s = task@.subtasks;
        assert forall|i: int| 0 <= i < s.len() implies (#[trigger] s[i]).is_done == false by {}
        crate::models::lemma_all_done_count(s, false);
        if s.len() > 0 {
            crate::models::lemma_rounded_tenths_bound(0, s.len());
        }
    }
    task.recalculate_completion();
    proof {
        assert(task@ =~= fresh_task(name@, desc@, strings_model(subtask_names@)));
    }
    task
}

/// The empty tasks (no description, no subtasks) named after `names`.
pub open spec fn fresh_tasks(names: Seq<Seq<char>>) -> Seq<TaskModel> {
    names.map_values(|n: Seq<char>| fresh_task(n, Seq::empty(), Seq::empty()))
}

/// Empty tasks named after `names`.
fn fresh_task_list(names: &Vec<String>) -> (r: Vec<Task>)
    ensures
        tasks_model(r@) == fresh_tasks(strings_model(names@)),
{
    let mut r: Vec<Task> = Vec::new();
    let mut i: usize = 0;
    while i < names.len()
        invariant
            i <= names.len(),
            r@.len() == i,
            tasks_model(r@) =~= fresh_tasks(strings_model(names@.subrange(0, i as int))),
        decreases names.len() - i,
    {
        let ghost before = r@;
        r.push(
            Task {
                name: names[i].clone(),
                description: String::new(),
                completion: 0,
                is_done: false,
                subtasks: Vec::new(),
            },
        );
        proof {
            assert(subtasks_model(r@[i as int].subtasks@) =~= Seq::<SubtaskModel>::empty());
            assert(fresh_subtasks(Seq::<Seq<char>>::empty()) =~= Seq::<SubtaskModel>::empty());
            assert(r@[i as int]@ =~= fresh_task(names@[i as int]@, Seq::empty(), Seq::empty()));
            assert(tasks_model(r@) =~= tasks_model(before).push(
                fresh_task(names@[i as int]@, Seq::empty(), Seq::empty()),
            ));
            assert(strings_model(names@.subrange(0, i + 1)) =~= strings_model(
                names@.subrange(0, i as int),
            ).push(names@[i as int]@));
        }
        i = i + 1;
    }
    proof {
        assert(names@.subrange(0, names.len() as int) =~= names@);
    }
    r
}

/// A new notebook (fresh identifier) holding empty tasks named after `task_names`.
pub fn create_notebook_struct(name: &str, desc: &str, task_names: &Vec<String>) -> (nb: Notebook)
    ensures
        nb.name@ == name@,
        nb.description@ == desc@,
        is_uuid_v4_text(nb.id@),
        tasks_model(nb.tasks@) == fresh_tasks(strings_model(task_names@)),
{
    let mut notebook = Notebook::new(name.to_owned(), desc.to_owned());
    notebook.tasks = fresh_task_list(task_names);
    notebook
}

/// Done flag of the last subtask called `name` in `subs` (false without one).
fn status_of(subs: &Vec<Subtask>, name: &String) -> (r: bool)
    ensures
        r == last_status(subtasks_model(subs@), name@),
{
    let mut i: usize = subs.len();
    proof {
        assert(subs@.subrange(0, i as int) =~= subs@);
    }
    while i > 0
        invariant
            i <= subs.len(),
            last_status(subtasks_model(subs@), name@) == last_status(
                subtasks_model(subs@.subrange(0, i as int)),
                name@,
            ),
        decreases i,
    {
        proof {
            let s = subtasks_model(subs@.subrange(0, i as int));
            assert(s.drop_last() =~= subtasks_model(subs@.subrange(0, i - 1)));
            assert(s.last() == subs@[i - 1]@);
        }
        if subs[i - 1].name == *name {
            return subs[i - 1].is_done;
        }
        i = i - 1;
    }
    false
}

/// Rebuilds a task from the inspector: new name, description and subtask list; subtasks
/// whose name was present keep their status; completion is recalculated.
pub fn update_task_struct(task: Task, name: &str, desc: &str, subtask_names: &Vec<String>) -> (t: Task)
    ensures
        t@ == updated_task(task@, name@, desc@, strings_model(subtask_names@)),
{
    let mut task = task;
    let ghost old_task = task@;
    let mut subs: Vec<Subtask> = Vec::new();
    let mut i: usize = 0;
    while i < subtask_names.len()
        invariant
            old_task == task@,
            i <= subtask_names.len(),
            subtasks_model(subs@) =~= strings_model(subtask_names@.subrange(0, i as int)).map_values(
                |n: Seq<char>| SubtaskModel { name: n, is_done: last_status(old_task.subtasks, n) },
            ),
        decreases subtask_names.len() - i,
    {
        let ghost before = subs@;
        let is_done = status_of(&task.subtasks, &subtask_names[i]);
        subs.push(Subtask { name: subtask_names[i].clone(), is_done });
        proof {
            assert(subtasks_model(subs@) =~= subtasks_model(before).push(
                SubtaskModel { name: subtask_names@[i as int]@, is_done },
            ));
            assert(strings_model(subtask_names@.subrange(0, i + 1)) =~= strings_model(
                subtask_names@.subrange(0, i as int),
            ).push(subtask_names@[i as int]@));
        }
        i = i + 1;
    }
    proof {
        assert(subtask_names@.subrange(0, subtask_names.len() as int) =~= subtask_names@);
    }
    task.name = name.to_owned();
    task.description = desc.to_owned();
    task.subtasks = subs;
    task.recalculate_completion();
    proof {
        assert(task@ =~= updated_task(old_task, name@, desc@, strings_model(subtask_names@)));
    }
    task
}

/// The window the help screen returns to after it closed on `w`: the inspector's own
/// window forgets that it came from a popup, so that Esc leaves the inspector for the window
/// under it.
pub open spec fn window_after_help(w: ModeModel) -> ModeModel {
    match w {
        ModeModel::Add(a) => if a == PendingAction::AddNotebook || a == PendingAction::EditNotebook {
            ModeModel::Overview
        } else {
            ModeModel::NotebookDetail
        },
        _ => w,
    }
}

/// The state with the help screen open; the window under it (not a popup) is remembered.
pub open spec fn help_shown(m: AppModel) -> AppModel {
    AppModel {
        mode: ModeModel::Help,
        last_window: if mode_is_popup(m.mode) {
            m.last_window
        } else {
            m.mode
        },
        ..m
    }
}

/// Opens the help screen; the window under it (not a popup) is remembered.
pub fn show_help(app: &mut App)
    ensures
        final(app)@ == help_shown(old(app)@),
{
    if !app.mode.is_popup() {
        app.last_window = app.mode.clone();
    }
    app.mode = AppMode::Help;
    proof {
        assert(app@ =~= AppModel {
            mode: ModeModel::Help,
            last_window: if mode_is_popup(old(app)@.mode) {
                old(app)@.last_window
            } else {
                old(app)@.mode
            },
            ..old(app)@
        });
    }
}

/// The state with the help screen closed: back to the remembered window.
pub open spec fn help_closed(m: AppModel) -> AppModel {
    AppModel { mode: m.last_window, last_window: window_after_help(m.last_window), ..m }
}

/// Closes the help screen: back to the remembered window.
pub fn exit_help(app: &mut App)
    ensures
        final(app)@ == help_closed(old(app)@),
{
    app.mode = app.last_window.clone();
    if let AppMode::Add(action) = &app.mode {
        match action {
            PendingAction::AddNotebook | PendingAction::EditNotebook => {
                app.last_window = AppMode::Overview;
            },
            _ => {
                app.last_window = AppMode::NotebookDetail;
            },
        }
    }
    proof {
        assert(app@ =~= AppModel {
            mode: old(app)@.last_window,
            last_window: window_after_help(old(app)@.last_window),
            ..old(app)@
        });
    }
}

/// The number of the theme after the current one (two built-in themes).
pub open spec fn next_theme(m: AppModel) -> usize {
    ((m.theme_idx + 1) % 2) as usize
}

/// Applying and storing the next theme.
pub open spec fn theme_effects(m: AppModel) -> Seq<EffectModel> {
    seq![EffectModel::ApplyTheme(theme_at(next_theme(m))), EffectModel::SaveSettings(next_theme(m))]
}

/// Switches between the two built-in themes and asks for the new one to be applied and its
/// number stored.
pub fn cycle_theme(app: &mut App) -> (effects: Vec<Effect>)
    requires
        old(app).theme_idx < usize::MAX,
    ensures
        final(app)@ == (AppModel { theme_idx: next_theme(old(app)@), ..old(app)@ }),
        effects_model(effects@) == theme_effects(old(app)@),
{
    app.theme_idx = (app.theme_idx + 1) % 2;
    let theme = theme_for_index(app.theme_idx);
    let mut effects: Vec<Effect> = Vec::new();
    effects.push(Effect::ApplyTheme(theme));
    effects.push(Effect::SaveSettings(app.theme_idx));
    proof {
        assert(effects_model(effects@) =~= seq![
            EffectModel::ApplyTheme(theme_at(app.theme_idx)),
            EffectModel::SaveSettings(app.theme_idx),
        ]);
        assert(app@ =~= AppModel { theme_idx: app.theme_idx, ..old(app)@ });
    }
    effects
}

/// The state with the inspector editing; inspecting a task becomes editing it.
pub open spec fn editing_started(m: AppModel, action: PendingAction) -> AppModel {
    AppModel {
        mode: ModeModel::Add(
            if action == PendingAction::InspectTask {
                PendingAction::EditTask
            } else {
                action
            },
        ),
        inspector: InspectorModel { mode: InspectMode::Edit, ..m.inspector },
        ..m
    }
}

/// The inspector starts editing; inspecting a task becomes editing it.
pub fn transition_to_edit(app: &mut App, action: PendingAction)
    ensures
        final(app)@ == editing_started(old(app)@, action),
{
    app.inspector.mode = InspectMode::Edit;
    let new_action = match action {
        PendingAction::InspectTask => PendingAction::EditTask,
        _ => action,
    };
    app.mode = AppMode::Add(new_action);
    proof {
        assert(app@.inspector =~= crate::ui::inspect_window::InspectorModel {
            mode: InspectMode::Edit,
            ..old(app)@.inspector
        });
    }
}

/// The actions whose editor stays open when a confirmation is cancelled.
pub open spec fn keeps_editor(action: PendingAction) -> bool {
    action == PendingAction::AddNotebook || action == PendingAction::EditNotebook || action
        == PendingAction::AddTaskBefore || action == PendingAction::AddTaskAfter || action
        == PendingAction::EditTask
}

/// The state after a cancelled confirmation: back to the editor for an add or an edit, else
/// back to the remembered window.
pub open spec fn cancelled(m: AppModel, action: PendingAction) -> AppModel {
    AppModel {
        mode: if keeps_editor(action) {
            ModeModel::Add(action)
        } else {
            m.last_window
        },
        ..m
    }
}

/// Cancelling a confirmation: back to the editor for an add or an edit, else back to the
/// remembered window.
pub fn confirm_cancel(app: &mut App, action: PendingAction)
    ensures
        final(app)@ == cancelled(old(app)@, action),
{
    match action {
        PendingAction::AddNotebook
        | PendingAction::EditNotebook
        | PendingAction::AddTaskBefore
        | PendingAction::AddTaskAfter
        | PendingAction::EditTask => {
            app.mode = AppMode::Add(action);
        },
        _ => app.mode = app.last_window.clone(),
    }
}

/// Name of the notebook at the selected position, if there is one.
pub open spec fn selected_notebook_name(m: AppModel) -> Option<Seq<char>> {
    if m.selected_notebook_idx < m.notebooks.len() {
        Some(m.notebooks[m.selected_notebook_idx as int].name)
    } else {
        None
    }
}

/// Name of the selected task of the open notebook, if there is one.
pub open spec fn selected_task_name(m: AppModel) -> Option<Seq<char>> {
    match (m.nb_detail.notebook, m.nb_detail.selected_task_idx) {
        (Some(nb), Some(t)) => if t < nb.tasks.len() {
            Some(nb.tasks[t as int].name)
        } else {
            None
        },
        _ => None,
    }
}

/// The highlighted subtask of the selected task column, if both exist.
pub open spec fn selected_subtask_idx(m: AppModel) -> Option<usize> {
    match m.nb_detail.selected_task_idx {
        Some(t) => if t < m.nb_detail.task_states.len() {
            m.nb_detail.task_states[t as int].state.selected
        } else {
            None
        },
        None => None,
    }
}

/// Name of the highlighted subtask of the selected task, if there is one.
pub open spec fn selected_subtask_name(m: AppModel) -> Option<Seq<char>> {
    match (m.nb_detail.notebook, m.nb_detail.selected_task_idx, selected_subtask_idx(m)) {
        (Some(nb), Some(t), Some(s)) => if t < nb.tasks.len() && s < nb.tasks[t as int].subtasks.len() {
            Some(nb.tasks[t as int].subtasks[s as int].name)
        } else {
            None
        },
        _ => None,
    }
}

pub open spec fn name_or(o: Option<Seq<char>>, default: Seq<char>) -> Seq<char> {
    match o {
        Some(n) => n,
        None => default,
    }
}

/// Title of the popup and name of the item that a delete or rename prompt is about.
pub open spec fn prompt_subject(m: AppModel, action: PendingAction, verb: Seq<char>) -> (
    Seq<char>,
    Seq<char>,
) {
    match action {
        PendingAction::DeleteNotebook | PendingAction::RenameNotebook => (
            verb + " Notebook"@,
            name_or(selected_notebook_name(m), "Notebook"@),
        ),
        PendingAction::DeleteTask | PendingAction::RenameTask => (
            verb + " Task"@,
            name_or(selected_task_name(m), "Task"@),
        ),
        PendingAction::DeleteSubtask | PendingAction::RenameSubtask => (
            verb + " Subtask"@,
            name_or(selected_subtask_name(m), "Subtask"@),
        ),
        _ => (verb, Seq::empty()),
    }
}

/// The subject of a delete prompt for `action`.
pub open spec fn delete_subject(m: AppModel, action: PendingAction) -> (Seq<char>, Seq<char>) {
    match action {
        PendingAction::DeleteNotebook | PendingAction::DeleteTask | PendingAction::DeleteSubtask =>
            prompt_subject(m, action, "Delete"@),
        _ => ("Delete"@, Seq::empty()),
    }
}

/// The subject of a rename prompt for `action`.
pub open spec fn rename_subject(m: AppModel, action: PendingAction) -> (Seq<char>, Seq<char>) {
    match action {
        PendingAction::RenameNotebook | PendingAction::RenameTask | PendingAction::RenameSubtask =>
            prompt_subject(m, action, "Rename"@),
        _ => ("Rename"@, Seq::empty()),
    }
}

/// The buttons of a yes/no question.
pub open spec fn yes_no() -> Seq<Seq<char>> {
    seq!["Yes"@, "No"@]
}

fn yes_no_buttons() -> (v: Vec<String>)
    ensures
        strings_model(v@) == yes_no(),
{
    let mut v: Vec<String> = Vec::new();
    v.push("Yes".to_owned());
    v.push("No".to_owned());
    proof {
        assert(strings_model(v@) =~= yes_no());
    }
    v
}

/// Name of the selected notebook, or `default`.
fn notebook_label(app: &App, default: &str) -> (r: String)
    ensures
        r@ == name_or(selected_notebook_name(app@), default@),
{
    if app.selected_notebook_idx < app.notebooks.len() {
        app.notebooks[app.selected_notebook_idx].name.clone()
    } else {
        default.to_owned()
    }
}

/// Name of the selected task, or `default`.
fn task_label(app: &App, default: &str) -> (r: String)
    ensures
        r@ == name_or(selected_task_name(app@), default@),
{
    if let Some(nb) = &app.nb_detail.notebook {
        if let Some(t) = app.nb_detail.selected_task_idx {
            if t < nb.tasks.len() {
                return nb.tasks[t].name.clone();
            }
        }
    }
    default.to_owned()
}

/// The highlighted subtask of the selected column.
fn subtask_selection(app: &App) -> (r: Option<usize>)
    ensures
        r == selected_subtask_idx(app@),
{
    match app.nb_detail.selected_task_idx {
        Some(t) => if t < app.nb_detail.task_states.len() {
            app.nb_detail.task_states[t].state.selected()
        } else {
            None
        },
        None => None,
    }
}

/// Name of the highlighted subtask, or `default`.
fn subtask_label(app: &App, default: &str) -> (r: String)
    ensures
        r@ == name_or(selected_subtask_name(app@), default@),
{
    let s = subtask_selection(app);
    if let Some(nb) = &app.nb_detail.notebook {
        if let Some(t) = app.nb_detail.selected_task_idx {
            if let Some(s) = s {
                if t < nb.tasks.len() && s < nb.tasks[t].subtasks.len() {
                    return nb.tasks[t].subtasks[s].name.clone();
                }
            }
        }
    }
    default.to_owned()
}

/// The state asking whether to delete the selected item ("Delete <name>?").
pub open spec fn delete_prompted(m: AppModel, action: PendingAction) -> AppModel {
    AppModel {
        mode: ModeModel::Confirm(
            ConfirmModel {
                title: delete_subject(m, action).0,
                message: "Delete "@ + delete_subject(m, action).1 + "?"@,
                buttons: yes_no(),
                selected_idx: 0,
            },
            action,
        ),
        ..m
    }
}

/// Asks whether to delete the selected notebook, task or subtask ("Delete <name>?").
pub fn prompt_delete(app: &mut App, action: PendingAction)
    ensures
        final(app)@ == delete_prompted(old(app)@, action),
{
    proof {
        reveal_strlit("Delete");
        reveal_strlit(" Notebook");
        reveal_strlit(" Task");
        reveal_strlit(" Subtask");
        reveal_strlit("Delete Notebook");
        reveal_strlit("Delete Task");
        reveal_strlit("Delete Subtask");
    }
    let (title, name) = match action {
        PendingAction::DeleteNotebook => ("Delete Notebook".to_owned(), notebook_label(app, "Notebook")),
        PendingAction::DeleteTask => ("Delete Task".to_owned(), task_label(app, "Task")),
        PendingAction::DeleteSubtask => ("Delete Subtask".to_owned(), subtask_label(app, "Subtask")),
        _ => ("Delete".to_owned(), String::new()),
    };
    let message = concat3("Delete ", name.as_str(), "?");
    let popup = ConfirmPopup::new(title, message, yes_no_buttons());
    app.mode = AppMode::Confirm(popup, action);
    proof {
        assert(title@ == delete_subject(old(app)@, action).0);
    }
}

/// The state with a rename prompt open, prefilled with the selected item's name.
pub open spec fn rename_prompted(m: AppModel, action: PendingAction) -> AppModel {
    AppModel {
        mode: ModeModel::Rename(
            RenameModel {
                title: rename_subject(m, action).0,
                input: rename_subject(m, action).1,
                cursor_pos: utf8_len(rename_subject(m, action).1) as usize,
                is_first_input: action == PendingAction::AddSubtaskBefore || action
                    == PendingAction::AddSubtaskAfter,
            },
            action,
        ),
        ..m
    }
}

/// Opens a prompt to rename the selected notebook, task or subtask, prefilled with its name.
pub fn prompt_rename(app: &mut App, action: PendingAction)
    ensures
        final(app)@ == rename_prompted(old(app)@, action),
{
    proof {
        reveal_strlit("Rename");
        reveal_strlit(" Notebook");
        reveal_strlit(" Task");
        reveal_strlit(" Subtask");
        reveal_strlit("Rename Notebook");
        reveal_strlit("Rename Task");
        reveal_strlit("Rename Subtask");
    }
    let (title, name) = match action {
        PendingAction::RenameNotebook => ("Rename Notebook".to_owned(), notebook_label(app, "Notebook")),
        PendingAction::RenameTask => ("Rename Task".to_owned(), task_label(app, "Task")),
        PendingAction::RenameSubtask => ("Rename Subtask".to_owned(), subtask_label(app, "Subtask")),
        _ => ("Rename".to_owned(), String::new()),
    };
    let popup = RenamePopup::new(title, name, action);
    app.mode = AppMode::Rename(popup, action);
    proof {
        assert(title@ == rename_subject(old(app)@, action).0);
    }
}

/// The selected task, if any, exists in the open notebook.
pub open spec fn task_selection_ok(m: AppModel) -> bool {
    match (m.nb_detail.notebook, m.nb_detail.selected_task_idx) {
        (Some(nb), Some(t)) => t < nb.tasks.len(),
        _ => true,
    }
}

/// The state asking whether to flip the done flag of the selected task.
pub open spec fn toggle_prompted(m: AppModel) -> AppModel {
    match (m.nb_detail.notebook, m.nb_detail.selected_task_idx) {
        (Some(nb), Some(t)) => AppModel {
            mode: ModeModel::Confirm(
                ConfirmModel {
                    title: "Toggle Task"@,
                    message: "Toggle completion for "@ + nb.tasks[t as int].name + "?"@,
                    buttons: yes_no(),
                    selected_idx: 0,
                },
                PendingAction::ToggleTask,
            ),
            ..m
        },
        _ => m,
    }
}

/// Asks whether to flip the done flag of the selected task; nothing happens without an open
/// notebook and a selected task.
pub fn prompt_toggle_task(app: &mut App)
    requires
        task_selection_ok(old(app)@),
    ensures
        final(app)@ == toggle_prompted(old(app)@),
{
    if let Some(nb) = &app.nb_detail.notebook {
        if let Some(idx) = app.nb_detail.selected_task_idx {
            let message = concat3("Toggle completion for ", nb.tasks[idx].name.as_str(), "?");
            let popup = ConfirmPopup::new("Toggle Task".to_owned(), message, yes_no_buttons());
            app.mode = AppMode::Confirm(popup, PendingAction::ToggleTask);
        }
    }
}

/// The empty inspector listing `label`, in add mode.
pub open spec fn blank_inspector(label: Seq<char>) -> InspectorModel {
    setup_model(None, None, label)
}

/// The state after starting a new notebook whose placeholder got identifier `id`: the
/// placeholder ("New Notebook") is appended, selected and highlighted, and the inspector is
/// empty.
pub open spec fn notebook_added(m: AppModel, id: Seq<char>) -> AppModel {
    let nbs = m.notebooks.push(
        NotebookModel { id, name: "New Notebook"@, description: Seq::empty(), tasks: Seq::empty() },
    );
    AppModel {
        mode: ModeModel::Add(PendingAction::AddNotebook),
        last_window: m.mode,
        notebooks: nbs,
        selected_notebook_idx: m.notebooks.len() as usize,
        overview: OverviewModel {
            notebooks: nbs,
            state: ListSelection { selected: Some(m.notebooks.len() as usize), ..m.overview.state },
            ..m.overview
        },
        inspector: blank_inspector("Tasks"@),
        ..m
    }
}

/// Starts a new notebook: an empty placeholder ("New Notebook", fresh identifier) is appended,
/// selected and highlighted, and the inspector opens empty to fill it in.
pub fn add_notebook(app: &mut App)
    requires
        old(app).notebooks@.len() < usize::MAX,
    ensures
        is_uuid_v4_text(final(app)@.notebooks.last().id),
        final(app)@ == notebook_added(old(app)@, final(app)@.notebooks.last().id),
{
    app.last_window = app.mode.clone();
    let placeholder = create_notebook_struct("New Notebook", "", &Vec::new());
    proof {
        reveal_strlit("");
        assert(tasks_model(placeholder.tasks@) =~= Seq::<TaskModel>::empty());
        assert(placeholder@ =~= NotebookModel {
            id: placeholder.id@,
            name: "New Notebook"@,
            description: Seq::empty(),
            tasks: Seq::empty(),
        });
    }
    let ghost ph = placeholder@;
    app.notebooks.push(placeholder);
    proof {
        assert(notebooks_model(app.notebooks@) =~= notebooks_model(old(app).notebooks@).push(ph));
    }
    app.selected_notebook_idx = app.notebooks.len() - 1;
    let list = app.notebooks.clone();
    proof {
        assert(notebooks_model(list@) =~= notebooks_model(app.notebooks@));
    }
    app.overview.notebooks = list;
    app.overview.state.select(Some(app.selected_notebook_idx));
    app.inspector = Inspector::setup(None, None, "Tasks".to_owned());
    app.mode = AppMode::Add(PendingAction::AddNotebook);
    proof {
        let o = old(app)@;
        let nb = app@.notebooks.last();
        assert(app@.notebooks =~= o.notebooks.push(
            NotebookModel { id: nb.id, name: "New Notebook"@, description: Seq::empty(), tasks: Seq::empty() },
        ));
    }
}

/// The state with the inspector open on the highlighted notebook.
pub open spec fn notebook_editing(m: AppModel) -> AppModel {
    match m.overview.state.selected {
        Some(i) => AppModel {
            mode: ModeModel::Add(PendingAction::EditNotebook),
            last_window: m.mode,
            inspector: setup_model(Some(m.notebooks[i as int]), None, "Tasks"@),
            ..m
        },
        None => m,
    }
}

/// Opens the inspector on the highlighted notebook; nothing happens without a highlight.
pub fn edit_notebook(app: &mut App)
    requires
        old(app).overview.state.selected matches Some(i) ==> i < old(app).notebooks@.len(),
    ensures
        final(app)@ == notebook_editing(old(app)@),
{
    if let Some(idx) = app.overview.state.selected() {
        app.last_window = app.mode.clone();
        let inspector = Inspector::setup(Some(&app.notebooks[idx]), None, "Tasks".to_owned());
        app.inspector = inspector;
        app.mode = AppMode::Add(PendingAction::EditNotebook);
    }
}

/// Opening the highlighted notebook: mark it as opened now, reload the list (most recent
/// first) and open the first notebook.
pub open spec fn enter_effects(m: AppModel) -> Seq<EffectModel> {
    match m.overview.state.selected {
        Some(i) => seq![
            EffectModel::TouchNotebook(m.notebooks[i as int].id),
            EffectModel::Refresh,
            EffectModel::OpenFirstNotebook,
        ],
        None => Seq::empty(),
    }
}

/// Opens the highlighted notebook: it is marked as opened now, the list is reloaded (most
/// recent first) and the first notebook is opened in the notebook view. The state itself
/// changes only through those effects.
pub fn enter_notebook(app: &mut App) -> (effects: Vec<Effect>)
    requires
        old(app).overview.state.selected matches Some(i) ==> i < old(app).notebooks@.len(),
    ensures
        final(app)@ == old(app)@,
        effects_model(effects@) == enter_effects(old(app)@),
{
    let mut effects: Vec<Effect> = Vec::new();
    if let Some(idx) = app.overview.state.selected() {
        let id = app.notebooks[idx].id.clone();
        effects.push(Effect::TouchNotebook(id));
        effects.push(Effect::Refresh);
        effects.push(Effect::OpenFirstNotebook);
    }
    proof {
        assert(effects_model(effects@) =~= match old(app).overview.state.selected {
            Some(i) => seq![
                EffectModel::TouchNotebook(old(app)@.notebooks[i as int].id),
                EffectModel::Refresh,
                EffectModel::OpenFirstNotebook,
            ],
            None => Seq::empty(),
        });
    }
    effects
}

/// The state back on the overview.
pub open spec fn notebook_exited(m: AppModel) -> AppModel {
    AppModel { mode: ModeModel::Overview, last_window: ModeModel::Overview, ..m }
}

/// Leaving the notebook view: save the open notebook and mark it as opened now, then reload.
pub open spec fn exit_effects(m: AppModel) -> Seq<EffectModel> {
    match m.nb_detail.notebook {
        Some(nb) => seq![
            EffectModel::SaveNotebook(nb),
            EffectModel::TouchNotebook(nb.id),
            EffectModel::Refresh,
        ],
        None => seq![EffectModel::Refresh],
    }
}

/// Leaves the notebook view for the overview: the open notebook is saved and marked as
/// opened now, then the list is reloaded.
pub fn exit_notebook(app: &mut App) -> (effects: Vec<Effect>)
    ensures
        final(app)@ == notebook_exited(old(app)@),
        effects_model(effects@) == exit_effects(old(app)@),
{
    let mut effects: Vec<Effect> = Vec::new();
    if let Some(nb) = &app.nb_detail.notebook {
        effects.push(Effect::SaveNotebook(nb.clone()));
        effects.push(Effect::TouchNotebook(nb.id.clone()));
    }
    effects.push(Effect::Refresh);
    app.mode = AppMode::Overview;
    app.last_window = AppMode::Overview;
    proof {
        assert(effects_model(effects@) =~= match old(app)@.nb_detail.notebook {
            Some(nb) => seq![
                EffectModel::SaveNotebook(nb),
                EffectModel::TouchNotebook(nb.id),
                EffectModel::Refresh,
            ],
            None => seq![EffectModel::Refresh],
        });
    }
    effects
}

/// `s` with the items at `i` and `j` exchanged.
pub open spec fn swapped<A>(s: Seq<A>, i: int, j: int) -> Seq<A> {
    s.update(i, s[j]).update(j, s[i])
}

/// Exchanges two items of a vector.
fn swap_items<T>(v: &mut Vec<T>, i: usize, j: usize)
    requires
        i < old(v)@.len(),
        j < old(v)@.len(),
    ensures
        final(v)@ == swapped(old(v)@, i as int, j as int),
{
    if i == j {
        proof {
            assert(swapped(old(v)@, i as int, j as int) =~= old(v)@);
        }
        return;
    }
    let (a, b) = if i < j {
        (i, j)
    } else {
        (j, i)
    };
    let xb = v.remove(b);
    let xa = v.remove(a);
    v.insert(a, xb);
    v.insert(b, xa);
    proof {
        assert(v@ =~= swapped(old(v)@, i as int, j as int));
    }
}

/// Where a move by `dir` from `i` lands in a list of `len` items: clamped to the first and
/// last positions (`len - 1`, that is -1, for an empty list).
pub open spec fn clamped_target(i: int, dir: int, len: int) -> int {
    let t = if i + dir < 0 {
        0
    } else {
        i + dir
    };
    if t > len - 1 {
        len - 1
    } else {
        t
    }
}

/// Exec form of `clamped_target`, computed in `i32` as the move keys are.
pub(crate) fn clamp_move(i: usize, dir: i32, len: usize) -> (r: usize)
    requires
        i < len <= i32::MAX,
        i32::MIN <= i + dir <= i32::MAX,
    ensures
        r == clamped_target(i as int, dir as int, len as int),
{
    let t: i32 = i as i32 + dir;
    let t: i32 = if t < 0 {
        0
    } else {
        t
    };
    let hi: i32 = len as i32 - 1;
    let t: i32 = if t > hi {
        hi
    } else {
        t
    };
    t as usize
}

/// The task model list with two tasks exchanged.
proof fn lemma_tasks_swapped(v: Seq<Task>, i: int, j: int)
    requires
        0 <= i < v.len(),
        0 <= j < v.len(),
    ensures
        tasks_model(swapped(v, i, j)) == swapped(tasks_model(v), i, j),
{
    assert(tasks_model(swapped(v, i, j)) =~= swapped(tasks_model(v), i, j));
}

/// The subtask model list with two subtasks exchanged.
proof fn lemma_subtasks_swapped(v: Seq<Subtask>, i: int, j: int)
    requires
        0 <= i < v.len(),
        0 <= j < v.len(),
    ensures
        subtasks_model(swapped(v, i, j)) == swapped(subtasks_model(v), i, j),
{
    assert(subtasks_model(swapped(v, i, j)) =~= swapped(subtasks_model(v), i, j));
}

/// The state after moving the selected task by `dir` (the view follows it), if it moves.
pub open spec fn task_swap_result(m: AppModel, dir: int) -> Option<AppModel> {
    match (m.nb_detail.notebook, m.nb_detail.selected_task_idx) {
        (Some(nb), Some(t)) => {
            let target = clamped_target(t as int, dir, nb.tasks.len() as int);
            if target != t {
                let nb2 = NotebookModel { tasks: swapped(nb.tasks, t as int, target), ..nb };
                Some(
                    refreshed_detail(
                        AppModel {
                            nb_detail: DetailModel {
                                task_states: swapped(m.nb_detail.task_states, t as int, target),
                                selected_task_idx: Some(target as usize),
                                ..m.nb_detail
                            },
                            ..m
                        },
                        nb2,
                    ),
                )
            } else {
                None
            }
        },
        _ => None,
    }
}

/// What moving the selected task by `dir` needs: the selection names a task, the `i32`
/// arithmetic of the move stays in range, and when the task moves, both columns have a state
/// and the list has the selected notebook.
pub open spec fn swap_task_ok(m: AppModel, dir: int) -> bool {
    match (m.nb_detail.notebook, m.nb_detail.selected_task_idx) {
        (Some(nb), Some(t)) => {
            let target = clamped_target(t as int, dir, nb.tasks.len() as int);
            &&& t < nb.tasks.len() <= i32::MAX
            &&& i32::MIN <= t + dir <= i32::MAX
            &&& target != t ==> {
                &&& t < m.nb_detail.task_states.len()
                &&& target < m.nb_detail.task_states.len()
                &&& m.selected_notebook_idx < m.notebooks.len()
            }
        },
        _ => true,
    }
}

/// Moves the selected task one column left (`dir` -1) or right (1), keeping it selected; the
/// notebook is saved when something moved.
pub fn swap_task(app: &mut App, dir: i32) -> (effects: Vec<Effect>)
    requires
        swap_task_ok(old(app)@, dir as int),
    ensures
        final(app)@ == match task_swap_result(old(app)@, dir as int) {
            Some(m) => m,
            None => old(app)@,
        },
        effects_model(effects@) == match task_swap_result(old(app)@, dir as int) {
            Some(m) => seq![EffectModel::SaveNotebook(m.nb_detail.notebook->0)],
            None => Seq::empty(),
        },
{
    let mut effects: Vec<Effect> = Vec::new();
    if let Some(mut nb) = open_notebook(&app.nb_detail) {
        if let Some(t_idx) = app.nb_detail.selected_task_idx {
            let target = clamp_move(t_idx, dir, nb.tasks.len());
            if t_idx != target {
                let ghost before = nb.tasks@;
                swap_items(&mut nb.tasks, t_idx, target);
                proof {
                    lemma_tasks_swapped(before, t_idx as int, target as int);
                }
                app.nb_detail.selected_task_idx = Some(target);
                swap_items(&mut app.nb_detail.task_states, t_idx, target);
                effects = app.refresh_nb_detail(nb);
            }
        }
    }
    proof {
        if task_swap_result(old(app)@, dir as int) is None {
            assert(effects_model(effects@) =~= Seq::<EffectModel>::empty());
        }
    }
    effects
}

/// The state after moving the highlighted subtask of the selected task by `dir` (the
/// highlight follows it), if it moves.
pub open spec fn subtask_swap_result(m: AppModel, dir: int) -> Option<AppModel> {
    match (m.nb_detail.notebook, m.nb_detail.selected_task_idx, selected_subtask_idx(m)) {
        (Some(nb), Some(t), Some(s)) => {
            let task = nb.tasks[t as int];
            let target = clamped_target(s as int, dir, task.subtasks.len() as int);
            if target != s {
                let nb2 = NotebookModel {
                    tasks: nb.tasks.update(
                        t as int,
                        TaskModel { subtasks: swapped(task.subtasks, s as int, target), ..task },
                    ),
                    ..nb
                };
                let st = m.nb_detail.task_states[t as int];
                Some(
                    refreshed_detail(
                        AppModel {
                            nb_detail: DetailModel {
                                task_states: m.nb_detail.task_states.update(
                                    t as int,
                                    TaskColumnState {
                                        state: ListSelection { selected: Some(target as usize), ..st.state },
                                    },
                                ),
                                ..m.nb_detail
                            },
                            ..m
                        },
                        nb2,
                    ),
                )
            } else {
                None
            }
        },
        _ => None,
    }
}

/// What moving the highlighted subtask by `dir` needs: the selected task and its column
/// state exist, the highlight names a subtask, and the `i32` arithmetic stays in range.
pub open spec fn swap_subtask_ok(m: AppModel, dir: int) -> bool {
    match (m.nb_detail.notebook, m.nb_detail.selected_task_idx) {
        (Some(nb), Some(t)) => {
            &&& t < m.nb_detail.task_states.len()
            &&& t < nb.tasks.len()
            &&& m.nb_detail.task_states[t as int].state.selected matches Some(s) ==> {
                &&& s < nb.tasks[t as int].subtasks.len() <= i32::MAX
                &&& i32::MIN <= s + dir <= i32::MAX
                &&& m.selected_notebook_idx < m.notebooks.len()
            }
        },
        _ => true,
    }
}

/// Moves the highlighted subtask of the selected task one row up (`dir` -1) or down (1),
/// keeping it highlighted; the notebook is saved when something moved.
pub fn swap_subtask(app: &mut App, dir: i32) -> (effects: Vec<Effect>)
    requires
        swap_subtask_ok(old(app)@, dir as int),
    ensures
        final(app)@ == match subtask_swap_result(old(app)@, dir as int) {
            Some(m) => m,
            None => old(app)@,
        },
        effects_model(effects@) == match subtask_swap_result(old(app)@, dir as int) {
            Some(m) => seq![EffectModel::SaveNotebook(m.nb_detail.notebook->0)],
            None => Seq::empty(),
        },
{
    let mut effects: Vec<Effect> = Vec::new();
    if let Some(mut nb) = open_notebook(&app.nb_detail) {
        if let Some(t_idx) = app.nb_detail.selected_task_idx {
            if let Some(s_idx) = app.nb_detail.task_states[t_idx].state.selected() {
                let target = clamp_move(s_idx, dir, nb.tasks[t_idx].subtasks.len());
                if s_idx != target {
                    let ghost before = nb@;
                    let mut task = nb.tasks[t_idx].clone();
                    let ghost subs = task.subtasks@;
                    swap_items(&mut task.subtasks, s_idx, target);
                    proof {
                        lemma_subtasks_swapped(subs, s_idx as int, target as int);
                    }
                    nb.tasks.set(t_idx, task);
                    proof {
                        let task_m = before.tasks[t_idx as int];
                        assert(tasks_model(nb.tasks@) =~= before.tasks.update(
                            t_idx as int,
                            TaskModel { subtasks: swapped(task_m.subtasks, s_idx as int, target as int), ..task_m },
                        ));
                    }
                    let mut st = app.nb_detail.task_states[t_idx];
                    st.state.select(Some(target));
                    app.nb_detail.task_states.set(t_idx, st);
                    effects = app.refresh_nb_detail(nb);
                }
            }
        }
    }
    proof {
        if subtask_swap_result(old(app)@, dir as int) is None {
            assert(effects_model(effects@) =~= Seq::<EffectModel>::empty());
        }
    }
    effects
}

/// Where a new task goes: first in an empty notebook, else before or after the selected task
/// (the first one when none is selected).
pub open spec fn task_insert_idx(d: DetailModel, action: PendingAction) -> int {
    match d.notebook {
        Some(nb) => if nb.tasks.len() == 0 {
            0
        } else {
            let cur = match d.selected_task_idx {
                Some(c) => c as int,
                None => 0,
            };
            if action == PendingAction::AddTaskBefore {
                cur
            } else {
                cur + 1
            }
        },
        None => 0,
    }
}

/// The placeholder task that a new task starts as.
pub open spec fn placeholder_task() -> TaskModel {
    fresh_task("New Task"@, Seq::empty(), Seq::empty())
}

/// The state after starting a new task: the placeholder goes in at `task_insert_idx` and is
/// selected, with a fresh column state, and the inspector is empty.
pub open spec fn task_added(m: AppModel, action: PendingAction) -> AppModel {
    match m.nb_detail.notebook {
        Some(nb) => {
            let i = task_insert_idx(m.nb_detail, action);
            let nb2 = NotebookModel { tasks: nb.tasks.insert(i, placeholder_task()), ..nb };
            AppModel {
                mode: ModeModel::Add(action),
                last_window: m.mode,
                notebooks: m.notebooks.update(m.selected_notebook_idx as int, nb2),
                nb_detail: DetailModel {
                    notebook: Some(nb2),
                    task_states: m.nb_detail.task_states.insert(i, TaskColumnState::fresh()),
                    selected_task_idx: Some(i as usize),
                    ..m.nb_detail
                },
                inspector: blank_inspector("Subtasks"@),
                ..m
            }
        },
        None => m,
    }
}

/// What starting a new task needs: the insert position is within the tasks and the column
/// states, computing it does not overflow, and the list has the selected notebook.
pub open spec fn add_task_ok(m: AppModel, action: PendingAction) -> bool {
    m.nb_detail.notebook matches Some(nb) ==> {
        let i = task_insert_idx(m.nb_detail, action);
        &&& i <= nb.tasks.len()
        &&& i <= m.nb_detail.task_states.len()
        &&& nb.tasks.len() > 0 ==> m.nb_detail.selected_task_idx.unwrap_or(0) < usize::MAX
        &&& m.selected_notebook_idx < m.notebooks.len()
    }
}

/// Starts a new task: a placeholder ("New Task") is put before or after the selected task and
/// selected, and the inspector opens empty to fill it in. Nothing happens without an open
/// notebook.
pub fn add_task(app: &mut App, action: PendingAction)
    requires
        add_task_ok(old(app)@, action),
    ensures
        final(app)@ == task_added(old(app)@, action),
{
    if let Some(mut nb) = open_notebook(&app.nb_detail) {
        app.last_window = app.mode.clone();
        let insert_idx: usize = if nb.tasks.len() == 0 {
            0
        } else {
            let current_idx = match app.nb_detail.selected_task_idx {
                Some(c) => c,
                None => 0,
            };
            if action == PendingAction::AddTaskBefore {
                current_idx
            } else {
                current_idx + 1
            }
        };
        let task = create_task_struct("New Task", "", &Vec::new());
        proof {
            reveal_strlit("");
            assert(strings_model(Seq::<String>::empty()) =~= Seq::<Seq<char>>::empty());
            assert(""@ =~= Seq::<char>::empty());
        }
        let ghost before = nb.tasks@;
        let ghost tm = task@;
        nb.tasks.insert(insert_idx, task);
        proof {
            assert(tasks_model(nb.tasks@) =~= tasks_model(before).insert(insert_idx as int, tm));
        }
        app.nb_detail.task_states.insert(insert_idx, TaskColumnState::new());
        app.nb_detail.selected_task_idx = Some(insert_idx);
        let copy = nb.clone();
        app.notebooks.set(app.selected_notebook_idx, copy);
        app.nb_detail.notebook = Some(nb);
        app.inspector = Inspector::setup(None, None, "Subtasks".to_owned());
        app.mode = AppMode::Add(action);
        proof {
            assert(notebooks_model(app.notebooks@) =~= notebooks_model(old(app).notebooks@).update(
                old(app).selected_notebook_idx as int,
                app.nb_detail.notebook->0@,
            ));
        }
    }
}

/// The state with the inspector editing the selected task.
pub open spec fn task_editing(m: AppModel) -> AppModel {
    match (m.nb_detail.notebook, m.nb_detail.selected_task_idx) {
        (Some(nb), Some(t)) => AppModel {
            mode: ModeModel::Add(PendingAction::EditTask),
            last_window: m.mode,
            inspector: setup_model(None, Some(nb.tasks[t as int]), "Subtasks"@),
            ..m
        },
        _ => m,
    }
}

/// Opens the inspector on the selected task to edit it; nothing happens without an open
/// notebook and a selected task.
pub fn edit_task(app: &mut App)
    requires
        task_selection_ok(old(app)@),
    ensures
        final(app)@ == task_editing(old(app)@),
{
    if let Some(nb) = &app.nb_detail.notebook {
        if let Some(idx) = app.nb_detail.selected_task_idx {
            let inspector = Inspector::setup(None, Some(&nb.tasks[idx]), "Subtasks".to_owned());
            app.last_window = app.mode.clone();
            app.inspector = inspector;
            app.mode = AppMode::Add(PendingAction::EditTask);
        }
    }
}

/// The state with the inspector showing the selected task, read-only.
pub open spec fn task_inspecting(m: AppModel) -> AppModel {
    match (m.nb_detail.notebook, m.nb_detail.selected_task_idx) {
        (Some(nb), Some(t)) => AppModel {
            mode: ModeModel::Add(PendingAction::InspectTask),
            last_window: m.mode,
            inspector: InspectorModel {
                mode: InspectMode::View,
                ..setup_model(None, Some(nb.tasks[t as int]), "Subtasks"@)
            },
            ..m
        },
        _ => m,
    }
}

/// Opens the inspector on the selected task, read-only; nothing happens without an open
/// notebook and a selected task.
pub fn inspect_task(app: &mut App)
    requires
        task_selection_ok(old(app)@),
    ensures
        final(app)@ == task_inspecting(old(app)@),
{
    if let Some(nb) = &app.nb_detail.notebook {
        if let Some(idx) = app.nb_detail.selected_task_idx {
            let mut inspector = Inspector::setup(None, Some(&nb.tasks[idx]), "Subtasks".to_owned());
            inspector.mode = InspectMode::View;
            app.last_window = app.mode.clone();
            app.inspector = inspector;
            app.mode = AppMode::Add(PendingAction::InspectTask);
        }
    }
}

/// The smaller of two positions.
pub open spec fn min_pos(a: usize, b: int) -> usize {
    if a <= b {
        a
    } else {
        b as usize
    }
}

/// The view's column states and selection after column `idx` went away, leaving `new_len`
/// tasks: the selection stays at that position (or the new last one) and the scroll offset is
/// kept within the tasks.
pub open spec fn after_column_removed(d: DetailModel, idx: usize, new_len: nat) -> DetailModel {
    DetailModel {
        task_states: if idx < d.task_states.len() {
            d.task_states.remove(idx as int)
        } else {
            d.task_states
        },
        selected_task_idx: if new_len == 0 {
            None
        } else {
            Some(min_pos(idx, new_len - 1))
        },
        scroll_offset: if new_len == 0 {
            0
        } else {
            min_pos(d.scroll_offset, new_len - 1)
        },
        ..d
    }
}

/// Applies `after_column_removed` to the view.
fn remove_column(d: &mut crate::ui::notebook_detail::NotebookDetail, idx: usize, new_len: usize)
    ensures
        final(d)@ == after_column_removed(old(d)@, idx, new_len as nat),
{
    if idx < d.task_states.len() {
        d.task_states.remove(idx);
    }
    if new_len == 0 {
        d.selected_task_idx = None;
        d.scroll_offset = 0;
    } else {
        d.selected_task_idx = Some(
            if idx <= new_len - 1 {
                idx
            } else {
                new_len - 1
            },
        );
        d.scroll_offset = if d.scroll_offset <= new_len - 1 {
            d.scroll_offset
        } else {
            new_len - 1
        };
    }
    proof {
        assert(d@ =~= after_column_removed(old(d)@, idx, new_len as nat));
    }
}

/// The state after an abandoned add: the placeholder notebook leaves the list (the list is
/// then reloaded), or the placeholder task leaves the open notebook.
pub open spec fn ghost_removed(m: AppModel, action: PendingAction) -> AppModel {
    match action {
        PendingAction::AddNotebook => if m.notebooks.len() > m.selected_notebook_idx {
            AppModel { notebooks: m.notebooks.remove(m.selected_notebook_idx as int), ..m }
        } else {
            m
        },
        PendingAction::AddTaskBefore | PendingAction::AddTaskAfter => match (
            m.nb_detail.notebook,
            m.nb_detail.selected_task_idx,
        ) {
            (Some(nb), Some(idx)) => if idx < nb.tasks.len() {
                let nb2 = NotebookModel { tasks: nb.tasks.remove(idx as int), ..nb };
                AppModel {
                    notebooks: m.notebooks.update(m.selected_notebook_idx as int, nb2),
                    nb_detail: after_column_removed(
                        DetailModel { notebook: Some(nb2), ..m.nb_detail },
                        idx,
                        nb2.tasks.len(),
                    ),
                    ..m
                }
            } else {
                m
            },
            _ => m,
        },
        _ => m,
    }
}

/// The outside work after an abandoned add: a reload when the placeholder notebook went.
pub open spec fn ghost_removed_effects(m: AppModel, action: PendingAction) -> Seq<EffectModel> {
    if action == PendingAction::AddNotebook && m.notebooks.len() > m.selected_notebook_idx {
        seq![EffectModel::Refresh]
    } else {
        Seq::empty()
    }
}

/// What `cleanup_ghost` needs: a placeholder task to drop has a column state, and the list
/// has the selected notebook.
pub open spec fn cleanup_ok(m: AppModel, action: PendingAction) -> bool {
    (action == PendingAction::AddTaskBefore || action == PendingAction::AddTaskAfter) ==> match (
        m.nb_detail.notebook,
        m.nb_detail.selected_task_idx,
    ) {
        (Some(nb), Some(idx)) => idx < nb.tasks.len() ==> {
            &&& idx < m.nb_detail.task_states.len()
            &&& m.selected_notebook_idx < m.notebooks.len()
        },
        _ => true,
    }
}

/// Drops the placeholder of an abandoned add (a notebook or a task).
pub fn cleanup_ghost(app: &mut App, action: PendingAction) -> (effects: Vec<Effect>)
    requires
        cleanup_ok(old(app)@, action),
    ensures
        final(app)@ == ghost_removed(old(app)@, action),
        effects_model(effects@) == ghost_removed_effects(old(app)@, action),
{
    let mut effects: Vec<Effect> = Vec::new();
    match action {
        PendingAction::AddNotebook => {
            if app.notebooks.len() > app.selected_notebook_idx {
                let ghost before = app.notebooks@;
                app.notebooks.remove(app.selected_notebook_idx);
                proof {
                    assert(notebooks_model(app.notebooks@) =~= notebooks_model(before).remove(
                        old(app).selected_notebook_idx as int,
                    ));
                }
                effects.push(Effect::Refresh);
            }
        },
        PendingAction::AddTaskBefore | PendingAction::AddTaskAfter => {
            if let Some(mut nb) = open_notebook(&app.nb_detail) {
                if let Some(idx) = app.nb_detail.selected_task_idx {
                    if idx < nb.tasks.len() {
                        let ghost before = nb.tasks@;
                        nb.tasks.remove(idx);
                        proof {
                            assert(tasks_model(nb.tasks@) =~= tasks_model(before).remove(idx as int));
                        }
                        let new_len = nb.tasks.len();
                        let copy = nb.clone();
                        app.nb_detail.notebook = Some(nb);
                        remove_column(&mut app.nb_detail, idx, new_len);
                        app.notebooks.set(app.selected_notebook_idx, copy);
                        proof {
                            assert(notebooks_model(app.notebooks@) =~= notebooks_model(
                                old(app).notebooks@,
                            ).update(old(app).selected_notebook_idx as int, copy@));
                        }
                    }
                }
            }
        },
        _ => {},
    }
    proof {
        assert(effects_model(effects@) =~= ghost_removed_effects(old(app)@, action));
        assert(app@ =~= ghost_removed(old(app)@, action));
    }
    effects
}

/// The view after a confirmed task or subtask deletion, before the edited notebook goes in:
/// a deleted task's column goes; a deleted subtask's highlight stays at its position (or the
/// new last subtask) and clears when none is left.
pub open spec fn detail_after_delete(
    d: DetailModel,
    action: PendingAction,
    t: Option<usize>,
    s: Option<usize>,
    updated: NotebookModel,
) -> DetailModel {
    if action == PendingAction::DeleteTask {
        match t {
            Some(idx) => after_column_removed(d, idx, updated.tasks.len()),
            None => d,
        }
    } else {
        match (t, s) {
            (Some(ti), Some(si)) => if ti < updated.tasks.len() {
                let n = updated.tasks[ti as int].subtasks.len();
                let st = d.task_states[ti as int].state;
                DetailModel {
                    task_states: d.task_states.update(
                        ti as int,
                        TaskColumnState {
                            state: if n == 0 {
                                ListSelection { selected: None, offset: 0 }
                            } else {
                                ListSelection { selected: Some(min_pos(si, n - 1)), ..st }
                            },
                        },
                    ),
                    ..d
                }
            } else {
                d
            },
            _ => d,
        }
    }
}

/// State and outside work of a confirmed action, after its placeholder (if any) is gone.
pub open spec fn confirmed(m: AppModel, action: PendingAction) -> (AppModel, Seq<EffectModel>) {
    match action {
        PendingAction::DeleteNotebook => (
            AppModel { notebooks: m.notebooks.remove(m.selected_notebook_idx as int), ..m },
            seq![
                EffectModel::RemoveNotebookFile(m.notebooks[m.selected_notebook_idx as int].id),
                EffectModel::SyncIndex,
                EffectModel::Refresh,
            ],
        ),
        PendingAction::DeleteTask | PendingAction::DeleteSubtask => match m.nb_detail.notebook {
            Some(nb) => {
                let t = m.nb_detail.selected_task_idx;
                let s = selected_subtask_idx(m);
                let updated = after_delete(action, nb, t, s)->0;
                (
                    refreshed_detail(
                        AppModel {
                            nb_detail: detail_after_delete(m.nb_detail, action, t, s, updated),
                            ..m
                        },
                        updated,
                    ),
                    seq![EffectModel::SaveNotebook(updated)],
                )
            },
            None => (m, Seq::empty()),
        },
        PendingAction::ToggleTask => match (m.nb_detail.notebook, m.nb_detail.selected_task_idx) {
            (Some(nb), Some(idx)) => {
                let nb2 = NotebookModel {
                    tasks: nb.tasks.update(idx as int, toggled_task(nb.tasks[idx as int])),
                    ..nb
                };
                (refreshed_detail(m, nb2), seq![EffectModel::SaveNotebook(nb2)])
            },
            _ => (m, Seq::empty()),
        },
        PendingAction::EditTask | PendingAction::InspectTask | PendingAction::EditNotebook => (
            m,
            seq![EffectModel::Refresh],
        ),
        _ => (m, Seq::empty()),
    }
}

/// What `confirmed` needs to stay within the lists.
pub open spec fn confirmed_ok(m: AppModel, action: PendingAction) -> bool {
    match action {
        PendingAction::DeleteNotebook => m.selected_notebook_idx < m.notebooks.len(),
        PendingAction::DeleteTask | PendingAction::DeleteSubtask => m.nb_detail.notebook is Some
            ==> m.selected_notebook_idx < m.notebooks.len(),
        PendingAction::ToggleTask => match (m.nb_detail.notebook, m.nb_detail.selected_task_idx) {
            (Some(nb), Some(idx)) => idx < nb.tasks.len() && m.selected_notebook_idx
                < m.notebooks.len(),
            _ => true,
        },
        _ => true,
    }
}

/// What carrying out a confirmed action needs (see `cleanup_ok` and `confirmed_ok`).
pub open spec fn confirm_success_ok(m: AppModel, action: PendingAction) -> bool {
    cleanup_ok(m, action) && confirmed_ok(ghost_removed(m, action), action)
}

/// Carries out a confirmed action (a deletion, a task toggle, or discarding an add or an
/// edit), then returns to the remembered window.
pub fn confirm_success(app: &mut App, action: PendingAction) -> (effects: Vec<Effect>)
    requires
        confirm_success_ok(old(app)@, action),
    ensures
        ({
            let (m, e) = confirmed(ghost_removed(old(app)@, action), action);
            &&& final(app)@ == AppModel { mode: m.last_window, ..m }
            &&& effects_model(effects@) == ghost_removed_effects(old(app)@, action) + e
        }),
{
    let mut effects = cleanup_ghost(app, action);
    let ghost m1 = app@;
    let ghost e1 = effects@;
    match action {
        PendingAction::DeleteNotebook => {
            let sel = app.selected_notebook_idx;
            let id = app.notebooks[sel].id.clone();
            effects.push(Effect::RemoveNotebookFile(id));
            let ghost before = app.notebooks@;
            app.notebooks.remove(sel);
            proof {
                assert(notebooks_model(app.notebooks@) =~= notebooks_model(before).remove(sel as int));
            }
            effects.push(Effect::SyncIndex);
            effects.push(Effect::Refresh);
        },
        PendingAction::DeleteTask | PendingAction::DeleteSubtask => {
            if let Some(nb) = open_notebook(&app.nb_detail) {
                let t_idx = app.nb_detail.selected_task_idx;
                let s_idx = subtask_selection(app);
                if let Some(updated) = delete_element(action, nb, t_idx, s_idx) {
                    if action == PendingAction::DeleteTask {
                        if let Some(idx) = t_idx {
                            let new_len = updated.tasks.len();
                            remove_column(&mut app.nb_detail, idx, new_len);
                        }
                    } else {
                        if let (Some(ti), Some(si)) = (t_idx, s_idx) {
                            if ti < updated.tasks.len() {
                                let n = updated.tasks[ti].subtasks.len();
                                let mut st = app.nb_detail.task_states[ti];
                                if n == 0 {
                                    st.state.select(None);
                                } else {
                                    st.state.select(
                                        Some(
                                            if si <= n - 1 {
                                                si
                                            } else {
                                                n - 1
                                            },
                                        ),
                                    );
                                }
                                app.nb_detail.task_states.set(ti, st);
                            }
                        }
                    }
                    proof {
                        assert(app@.nb_detail =~= detail_after_delete(
                            m1.nb_detail,
                            action,
                            t_idx,
                            s_idx,
                            updated@,
                        ));
                    }
                    let mut saved = app.refresh_nb_detail(updated);
                    effects.append(&mut saved);
                }
            }
        },
        PendingAction::ToggleTask => {
            if let Some(mut nb) = open_notebook(&app.nb_detail) {
                if let Some(idx) = app.nb_detail.selected_task_idx {
                    let mut task = nb.tasks[idx].clone();
                    task.toggle_task();
                    let ghost before = nb@;
                    nb.tasks.set(idx, task);
                    proof {
                        assert(tasks_model(nb.tasks@) =~= before.tasks.update(
                            idx as int,
                            toggled_task(before.tasks[idx as int]),
                        ));
                    }
                    let mut saved = app.refresh_nb_detail(nb);
                    effects.append(&mut saved);
                }
            }
        },
        PendingAction::EditTask | PendingAction::InspectTask | PendingAction::EditNotebook => {
            effects.push(Effect::Refresh);
        },
        _ => {},
    }
    app.mode = app.last_window.clone();
    proof {
        let (m, e) = confirmed(m1, action);
        assert(effects_model(effects@) =~= effects_model(e1) + e);
        assert(app@ =~= AppModel { mode: m.last_window, ..m });
    }
    effects
}

/// The buttons of the question about unsaved changes.
pub open spec fn save_discard_cancel() -> Seq<Seq<char>> {
    seq!["Save & Exit"@, "Discard"@, "Cancel"@]
}

/// The question asked when an editor with unsaved changes is left.
pub open spec fn unsaved_popup() -> ConfirmModel {
    ConfirmModel {
        title: "Unsaved Changes"@,
        message: "You have unsaved text. What would you like to do?"@,
        buttons: save_discard_cancel(),
        selected_idx: 0,
    }
}

/// An add has changes when the title differs from the placeholder's name or anything else
/// was typed (a typed list entry counts unless blank).
pub open spec fn add_is_dirty(i: InspectorModel, action: PendingAction) -> bool {
    let default = if action == PendingAction::AddNotebook {
        "New Notebook"@
    } else {
        "New Task"@
    };
    i.title != default || i.desc.len() > 0 || i.items.len() > 0 || !is_blank(i.task)
}

/// An edit has changes when the inspector differs from the copy on disk (`None` when it could
/// not be read, which counts as a change). Editing a task also counts a typed, non-blank list
/// entry; without a selected task there is nothing to compare.
pub open spec fn edit_is_dirty(
    i: InspectorModel,
    action: PendingAction,
    selected_task: Option<usize>,
    disk: Option<NotebookModel>,
) -> bool {
    match action {
        PendingAction::EditNotebook => match disk {
            Some(d) => i.title != d.name || i.desc != d.description || i.items != task_names(
                d.tasks,
            ),
            None => true,
        },
        PendingAction::EditTask | PendingAction::InspectTask => match disk {
            Some(d) => match selected_task {
                Some(idx) => if idx < d.tasks.len() {
                    let t = d.tasks[idx as int];
                    i.title != t.name || i.desc != t.description || i.items != subtask_names(
                        t.subtasks,
                    ) || !is_blank(i.task)
                } else {
                    true
                },
                None => false,
            },
            None => true,
        },
        _ => false,
    }
}

/// Leaving an editor: with changes, ask what to do with them; without, drop the placeholder
/// (if any) and go back to the remembered window.
pub open spec fn leave_editor(m: AppModel, action: PendingAction, dirty: bool) -> (
    AppModel,
    Seq<EffectModel>,
) {
    if dirty {
        (AppModel { mode: ModeModel::Confirm(unsaved_popup(), action), ..m }, Seq::empty())
    } else {
        let m1 = ghost_removed(m, action);
        (AppModel { mode: m1.last_window, ..m1 }, ghost_removed_effects(m, action))
    }
}

fn save_discard_cancel_buttons() -> (v: Vec<String>)
    ensures
        strings_model(v@) == save_discard_cancel(),
{
    let mut v: Vec<String> = Vec::new();
    v.push("Save & Exit".to_owned());
    v.push("Discard".to_owned());
    v.push("Cancel".to_owned());
    proof {
        assert(strings_model(v@) =~= save_discard_cancel());
    }
    v
}

/// Carries out `leave_editor`.
fn finish_leave(app: &mut App, action: PendingAction, dirty: bool) -> (effects: Vec<Effect>)
    requires
        !dirty ==> cleanup_ok(old(app)@, action),
    ensures
        final(app)@ == leave_editor(old(app)@, action, dirty).0,
        effects_model(effects@) == leave_editor(old(app)@, action, dirty).1,
{
    if dirty {
        let popup = ConfirmPopup::new(
            "Unsaved Changes".to_owned(),
            "You have unsaved text. What would you like to do?".to_owned(),
            save_discard_cancel_buttons(),
        );
        app.mode = AppMode::Confirm(popup, action);
        let effects: Vec<Effect> = Vec::new();
        proof {
            assert(effects_model(effects@) =~= Seq::<EffectModel>::empty());
        }
        effects
    } else {
        let effects = cleanup_ghost(app, action);
        app.mode = app.last_window.clone();
        effects
    }
}

/// The two lists of names are the same.
fn same_names(a: &Vec<String>, b: &Vec<String>) -> (r: bool)
    ensures
        r == (strings_model(a@) == strings_model(b@)),
{
    if a.len() != b.len() {
        proof {
            assert(strings_model(a@).len() != strings_model(b@).len());
        }
        return false;
    }
    let mut i: usize = 0;
    while i < a.len()
        invariant
            i <= a.len() == b.len(),
            forall|j: int| 0 <= j < i ==> (#[trigger] a@[j])@ == b@[j]@,
        decreases a.len() - i,
    {
        if a[i] != b[i] {
            proof {
                assert(strings_model(a@)[i as int] != strings_model(b@)[i as int]);
            }
            return false;
        }
        i = i + 1;
    }
    proof {
        assert(strings_model(a@) =~= strings_model(b@));
    }
    true
}

/// The identifier of the notebook that an edit compares against on disk, if the question
/// needs the disk at all.
pub open spec fn discard_disk_id(m: AppModel, action: PendingAction) -> Option<Seq<char>> {
    match action {
        PendingAction::EditNotebook => Some(m.notebooks[m.selected_notebook_idx as int].id),
        PendingAction::EditTask | PendingAction::InspectTask => match m.nb_detail.notebook {
            Some(nb) => Some(nb.id),
            None => None,
        },
        _ => None,
    }
}

/// What leaving an editor with content needs: the edited notebook exists, and a placeholder
/// task to drop has a column state.
pub open spec fn discard_ok(m: AppModel, action: PendingAction) -> bool {
    &&& action == PendingAction::EditNotebook ==> m.selected_notebook_idx < m.notebooks.len()
    &&& cleanup_ok(m, action)
}

/// State and outside work of leaving an editor with content: an edit asks for the copy on
/// disk (the state stays); an add is judged on what the inspector holds.
pub open spec fn discard_prompted(m: AppModel, action: PendingAction) -> (AppModel, Seq<EffectModel>) {
    match discard_disk_id(m, action) {
        Some(id) => (m, seq![EffectModel::CheckDiscard(action, id)]),
        None => leave_editor(
            m,
            action,
            (action == PendingAction::AddNotebook || action == PendingAction::AddTaskBefore
                || action == PendingAction::AddTaskAfter) && add_is_dirty(m.inspector, action),
        ),
    }
}

/// Leaving an editor with content (Esc). An add is judged here; an edit is compared with
/// the copy on disk, so the state stays as it is and the answer asks for that copy to be
/// loaded and handed to `discard_checked`.
pub fn prompt_discard_changes(app: &mut App, action: PendingAction) -> (effects: Vec<Effect>)
    requires
        discard_ok(old(app)@, action),
    ensures
        final(app)@ == discard_prompted(old(app)@, action).0,
        effects_model(effects@) == discard_prompted(old(app)@, action).1,
{
    proof {
        reveal_strlit("New Notebook");
        reveal_strlit("New Task");
    }
    match action {
        PendingAction::AddNotebook | PendingAction::AddTaskBefore | PendingAction::AddTaskAfter => {
            let default = if action == PendingAction::AddNotebook {
                "New Notebook".to_owned()
            } else {
                "New Task".to_owned()
            };
            let dirty = app.inspector.title_input != default || !app.inspector.desc_input.as_str().is_empty()
                || app.inspector.list_items.len() > 0 || !trim_is_empty(
                app.inspector.task_input.as_str(),
            );
            proof {
                assert(strings_model(app.inspector.list_items@).len()
                    == app.inspector.list_items@.len());
            }
            finish_leave(app, action, dirty)
        },
        PendingAction::EditNotebook => {
            let id = app.notebooks[app.selected_notebook_idx].id.clone();
            let mut effects: Vec<Effect> = Vec::new();
            effects.push(Effect::CheckDiscard(action, id));
            proof {
                assert(effects_model(effects@) =~= seq![
                    EffectModel::CheckDiscard(action, discard_disk_id(old(app)@, action)->0),
                ]);
            }
            effects
        },
        PendingAction::EditTask | PendingAction::InspectTask => {
            if let Some(nb) = &app.nb_detail.notebook {
                let mut effects: Vec<Effect> = Vec::new();
                effects.push(Effect::CheckDiscard(action, nb.id.clone()));
                proof {
                    assert(effects_model(effects@) =~= seq![
                        EffectModel::CheckDiscard(action, discard_disk_id(old(app)@, action)->0),
                    ]);
                }
                effects
            } else {
                finish_leave(app, action, false)
            }
        },
        _ => finish_leave(app, action, false),
    }
}

/// Finishes leaving an edit, given the copy of the notebook read from disk (`None` when it
/// could not be read): ask about the changes, or drop out of the editor.
pub fn discard_checked(app: &mut App, action: PendingAction, disk: Option<Notebook>) -> (effects: Vec<
    Effect,
>)
    requires
        cleanup_ok(old(app)@, action),
    ensures
        ({
            let dirty = edit_is_dirty(
                old(app)@.inspector,
                action,
                old(app).nb_detail.selected_task_idx,
                opt_model(disk),
            );
            &&& final(app)@ == leave_editor(old(app)@, action, dirty).0
            &&& effects_model(effects@) == leave_editor(old(app)@, action, dirty).1
        }),
{
    let dirty = match action {
        PendingAction::EditNotebook => match &disk {
            Some(d) => {
                let names = collect_task_names(&d.tasks);
                app.inspector.title_input != d.name || app.inspector.desc_input != d.description
                    || !same_names(&app.inspector.list_items, &names)
            },
            None => true,
        },
        PendingAction::EditTask | PendingAction::InspectTask => match &disk {
            Some(d) => match app.nb_detail.selected_task_idx {
                Some(idx) => if idx < d.tasks.len() {
                    let t = &d.tasks[idx];
                    let names = collect_subtask_names(&t.subtasks);
                    app.inspector.title_input != t.name || app.inspector.desc_input
                        != t.description || !same_names(&app.inspector.list_items, &names)
                        || !trim_is_empty(app.inspector.task_input.as_str())
                } else {
                    true
                },
                None => false,
            },
            None => true,
        },
        _ => false,
    };
    finish_leave(app, action, dirty)
}

/// The notebook list with the name of notebook `i` replaced.
pub open spec fn renamed_notebook(nbs: Seq<NotebookModel>, i: int, name: Seq<char>) -> Seq<
    NotebookModel,
> {
    nbs.update(i, NotebookModel { name, ..nbs[i] })
}

/// The notebook with the name of task `t` replaced.
pub open spec fn renamed_task(nb: NotebookModel, t: int, name: Seq<char>) -> NotebookModel {
    NotebookModel { tasks: nb.tasks.update(t, TaskModel { name, ..nb.tasks[t] }), ..nb }
}

/// The notebook with the name of subtask `s` of task `t` replaced.
pub open spec fn renamed_subtask(nb: NotebookModel, t: int, s: int, name: Seq<char>) -> NotebookModel {
    let task = nb.tasks[t];
    NotebookModel {
        tasks: nb.tasks.update(
            t,
            TaskModel { subtasks: task.subtasks.update(s, SubtaskModel { name, ..task.subtasks[s] }), ..task },
        ),
        ..nb
    }
}

/// Renames notebook `i` of the list in place.
fn rename_in_list(v: &mut Vec<Notebook>, i: usize, name: String)
    requires
        i < old(v)@.len(),
    ensures
        notebooks_model(final(v)@) == renamed_notebook(notebooks_model(old(v)@), i as int, name@),
        final(v)@.len() == old(v)@.len(),
{
    let mut nb = v[i].clone();
    nb.name = name;
    v.set(i, nb);
    proof {
        assert(notebooks_model(v@) =~= renamed_notebook(notebooks_model(old(v)@), i as int, name@));
    }
}

/// A copy of `nb` with task `t` renamed.
fn with_task_renamed(nb: &Notebook, t: usize, name: String) -> (r: Notebook)
    requires
        t < nb.tasks@.len(),
    ensures
        r@ == renamed_task(nb@, t as int, name@),
{
    let mut r = nb.clone();
    proof {
        assert(tasks_model(r.tasks@).len() == r.tasks@.len());
        assert(tasks_model(nb.tasks@).len() == nb.tasks@.len());
    }
    let mut task = r.tasks[t].clone();
    task.name = name;
    r.tasks.set(t, task);
    proof {
        assert(tasks_model(r.tasks@) =~= renamed_task(nb@, t as int, name@).tasks);
    }
    r
}

/// The state with the inspector's title copied live onto the notebook (list and overview) or
/// onto the task being added or edited.
pub open spec fn title_synced(m: AppModel, action: PendingAction) -> AppModel {
    let title = m.inspector.title;
    match action {
        PendingAction::AddNotebook | PendingAction::EditNotebook => {
            let nbs = renamed_notebook(m.notebooks, m.selected_notebook_idx as int, title);
            AppModel { notebooks: nbs, overview: OverviewModel { notebooks: nbs, ..m.overview }, ..m }
        },
        PendingAction::AddTaskBefore | PendingAction::AddTaskAfter | PendingAction::EditTask => match (
            m.nb_detail.notebook,
            m.nb_detail.selected_task_idx,
        ) {
            (Some(nb), Some(idx)) => {
                let nb2 = renamed_task(nb, idx as int, title);
                AppModel {
                    notebooks: m.notebooks.update(m.selected_notebook_idx as int, nb2),
                    nb_detail: DetailModel { notebook: Some(nb2), ..m.nb_detail },
                    ..m
                }
            },
            _ => m,
        },
        _ => m,
    }
}

/// What copying the title needs: the selected notebook, or the selected task and the selected
/// notebook, exist.
pub open spec fn sync_title_ok(m: AppModel, action: PendingAction) -> bool {
    &&& (action == PendingAction::AddNotebook || action == PendingAction::EditNotebook)
        ==> m.selected_notebook_idx < m.notebooks.len()
    &&& (action == PendingAction::AddTaskBefore || action == PendingAction::AddTaskAfter || action
        == PendingAction::EditTask) ==> match (m.nb_detail.notebook, m.nb_detail.selected_task_idx) {
        (Some(nb), Some(idx)) => idx < nb.tasks.len() && m.selected_notebook_idx < m.notebooks.len(),
        _ => true,
    }
}

/// The inspector's title, typed live, shows at once in the notebook list (or on the task).
pub fn sync_inspector_title(app: &mut App, action: PendingAction)
    requires
        sync_title_ok(old(app)@, action),
    ensures
        final(app)@ == title_synced(old(app)@, action),
{
    let title = app.inspector.title_input.clone();
    match action {
        PendingAction::AddNotebook | PendingAction::EditNotebook => {
            rename_in_list(&mut app.notebooks, app.selected_notebook_idx, title);
            let list = app.notebooks.clone();
            proof {
                assert(notebooks_model(list@) =~= notebooks_model(app.notebooks@));
            }
            app.overview.notebooks = list;
        },
        PendingAction::AddTaskBefore | PendingAction::AddTaskAfter | PendingAction::EditTask => {
            if let Some(nb) = &app.nb_detail.notebook {
                if let Some(idx) = app.nb_detail.selected_task_idx {
                    let nb2 = with_task_renamed(nb, idx, title);
                    let copy = nb2.clone();
                    app.nb_detail.notebook = Some(nb2);
                    app.notebooks.set(app.selected_notebook_idx, copy);
                    proof {
                        assert(notebooks_model(app.notebooks@) =~= notebooks_model(
                            old(app).notebooks@,
                        ).update(old(app).selected_notebook_idx as int, copy@));
                    }
                }
            }
        },
        _ => {},
    }
}

/// State and outside work of saving the inspector, before the reload and the return to the
/// remembered window. A new notebook gets the description and one empty task per listed name
/// (its name was kept in step with the title while typing); an edited notebook takes title
/// and description; a task is rebuilt from the inspector (`updated_task`).
pub open spec fn submitted(m: AppModel, action: PendingAction) -> (AppModel, Seq<EffectModel>) {
    let i = m.inspector;
    match action {
        PendingAction::AddNotebook => {
            let sel = m.selected_notebook_idx as int;
            let nb = NotebookModel {
                description: i.desc,
                tasks: fresh_tasks(i.items),
                ..m.notebooks[sel]
            };
            (
                AppModel { notebooks: m.notebooks.update(sel, nb), ..m },
                seq![EffectModel::SaveNotebook(nb), EffectModel::TouchNotebook(nb.id)],
            )
        },
        PendingAction::EditNotebook => match m.overview.state.selected {
            Some(idx) => {
                let nb = NotebookModel {
                    name: i.title,
                    description: i.desc,
                    ..m.notebooks[idx as int]
                };
                (
                    AppModel { notebooks: m.notebooks.update(idx as int, nb), ..m },
                    seq![EffectModel::SaveNotebook(nb), EffectModel::TouchNotebook(nb.id)],
                )
            },
            None => (m, Seq::empty()),
        },
        PendingAction::EditTask | PendingAction::AddTaskBefore | PendingAction::AddTaskAfter => match (
            m.nb_detail.notebook,
            m.nb_detail.selected_task_idx,
        ) {
            (Some(nb), Some(idx)) => {
                let nb2 = NotebookModel {
                    tasks: nb.tasks.update(
                        idx as int,
                        updated_task(nb.tasks[idx as int], i.title, i.desc, i.items),
                    ),
                    ..nb
                };
                (
                    AppModel {
                        notebooks: m.notebooks.update(m.selected_notebook_idx as int, nb2),
                        nb_detail: DetailModel { notebook: Some(nb2), ..m.nb_detail },
                        ..m
                    },
                    seq![EffectModel::SaveNotebook(nb2)],
                )
            },
            _ => (m, Seq::empty()),
        },
        _ => (m, Seq::empty()),
    }
}

/// What `submitted` needs to stay within the lists.
pub open spec fn submit_ok(m: AppModel, action: PendingAction) -> bool {
    match action {
        PendingAction::AddNotebook => m.selected_notebook_idx < m.notebooks.len(),
        PendingAction::EditNotebook => m.overview.state.selected matches Some(idx) ==> idx
            < m.notebooks.len(),
        PendingAction::EditTask | PendingAction::AddTaskBefore | PendingAction::AddTaskAfter => match (
            m.nb_detail.notebook,
            m.nb_detail.selected_task_idx,
        ) {
            (Some(nb), Some(idx)) => idx < nb.tasks.len() && m.selected_notebook_idx
                < m.notebooks.len(),
            _ => true,
        },
        _ => true,
    }
}

/// Saves what the inspector holds (see `submitted`), reloads the list and returns to the
/// remembered window.
pub fn submit_inspector(app: &mut App, action: PendingAction) -> (effects: Vec<Effect>)
    requires
        submit_ok(old(app)@, action),
    ensures
        ({
            let (m, e) = submitted(old(app)@, action);
            &&& final(app)@ == AppModel { mode: m.last_window, ..m }
            &&& effects_model(effects@) == e.push(EffectModel::Refresh)
        }),
{
    let mut effects: Vec<Effect> = Vec::new();
    match action {
        PendingAction::AddNotebook => {
            let sel = app.selected_notebook_idx;
            let mut nb = app.notebooks[sel].clone();
            nb.description = app.inspector.desc_input.clone();
            nb.tasks = fresh_task_list(&app.inspector.list_items);
            effects.push(Effect::SaveNotebook(nb.clone()));
            effects.push(Effect::TouchNotebook(nb.id.clone()));
            let ghost nbm = nb@;
            app.notebooks.set(sel, nb);
            proof {
                assert(notebooks_model(app.notebooks@) =~= notebooks_model(old(app).notebooks@).update(
                    sel as int,
                    nbm,
                ));
            }
        },
        PendingAction::EditNotebook => {
            if let Some(idx) = app.overview.state.selected() {
                let mut nb = app.notebooks[idx].clone();
                nb.name = app.inspector.title_input.clone();
                nb.description = app.inspector.desc_input.clone();
                effects.push(Effect::SaveNotebook(nb.clone()));
                effects.push(Effect::TouchNotebook(nb.id.clone()));
                let ghost nbm = nb@;
                app.notebooks.set(idx, nb);
                proof {
                    assert(notebooks_model(app.notebooks@) =~= notebooks_model(
                        old(app).notebooks@,
                    ).update(idx as int, nbm));
                }
            }
        },
        PendingAction::EditTask | PendingAction::AddTaskBefore | PendingAction::AddTaskAfter => {
            if let Some(mut nb) = open_notebook(&app.nb_detail) {
                if let Some(idx) = app.nb_detail.selected_task_idx {
                    let task = nb.tasks[idx].clone();
                    let updated = update_task_struct(
                        task,
                        app.inspector.title_input.as_str(),
                        app.inspector.desc_input.as_str(),
                        &app.inspector.list_items,
                    );
                    let ghost before = nb@;
                    nb.tasks.set(idx, updated);
                    proof {
                        assert(tasks_model(nb.tasks@) =~= before.tasks.update(
                            idx as int,
                            updated_task(
                                before.tasks[idx as int],
                                old(app)@.inspector.title,
                                old(app)@.inspector.desc,
                                old(app)@.inspector.items,
                            ),
                        ));
                    }
                    effects.push(Effect::SaveNotebook(nb.clone()));
                    let copy = nb.clone();
                    app.nb_detail.notebook = Some(nb);
                    app.notebooks.set(app.selected_notebook_idx, copy);
                    proof {
                        assert(notebooks_model(app.notebooks@) =~= notebooks_model(
                            old(app).notebooks@,
                        ).update(old(app).selected_notebook_idx as int, copy@));
                    }
                }
            }
        },
        _ => {},
    }
    let ghost e = effects@;
    effects.push(Effect::Refresh);
    app.mode = app.last_window.clone();
    proof {
        let (m, em) = submitted(old(app)@, action);
        assert(effects_model(e) =~= em);
        assert(effects_model(effects@) =~= em.push(EffectModel::Refresh));
        assert(app@ =~= AppModel { mode: m.last_window, ..m });
    }
    effects
}

/// Where a new subtask goes in the selected task: before the highlighted one, or after it
/// (first in an empty task); the first position counts as highlighted when nothing is.
pub open spec fn subtask_insert_idx(m: AppModel, action: PendingAction) -> int {
    match (m.nb_detail.notebook, m.nb_detail.selected_task_idx) {
        (Some(nb), Some(t)) => {
            let cur = match m.nb_detail.task_states[t as int].state.selected {
                Some(c) => c as int,
                None => 0,
            };
            if action == PendingAction::AddSubtaskBefore {
                cur
            } else if nb.tasks[t as int].subtasks.len() == 0 {
                0
            } else {
                cur + 1
            }
        },
        _ => 0,
    }
}

/// The state after adding subtask `name` to the selected task (recalculated, saved), with
/// the new subtask highlighted; `None` without an open notebook and a selected task.
pub open spec fn subtask_added(m: AppModel, name: Seq<char>, action: PendingAction) -> Option<AppModel> {
    match (m.nb_detail.notebook, m.nb_detail.selected_task_idx) {
        (Some(nb), Some(t)) => {
            let i = subtask_insert_idx(m, action);
            let task = nb.tasks[t as int];
            let nb2 = NotebookModel {
                tasks: nb.tasks.update(
                    t as int,
                    recalculated(
                        TaskModel {
                            subtasks: task.subtasks.insert(i, SubtaskModel { name, is_done: false }),
                            ..task
                        },
                    ),
                ),
                ..nb
            };
            let m2 = refreshed_detail(m, nb2);
            let st = m2.nb_detail.task_states[t as int];
            Some(
                AppModel {
                    nb_detail: DetailModel {
                        task_states: m2.nb_detail.task_states.update(
                            t as int,
                            TaskColumnState { state: ListSelection { selected: Some(i as usize), ..st.state } },
                        ),
                        ..m2.nb_detail
                    },
                    ..m2
                },
            )
        },
        _ => None,
    }
}

/// What adding a subtask needs: the selected task and its column state exist, the insert
/// position is within the subtasks and computing it does not overflow, and the list has the
/// selected notebook.
pub open spec fn add_subtask_ok(m: AppModel, action: PendingAction) -> bool {
    match (m.nb_detail.notebook, m.nb_detail.selected_task_idx) {
        (Some(nb), Some(t)) => {
            &&& t < m.nb_detail.task_states.len()
            &&& t < nb.tasks.len()
            &&& subtask_insert_idx(m, action) <= nb.tasks[t as int].subtasks.len()
            &&& action != PendingAction::AddSubtaskBefore && nb.tasks[t as int].subtasks.len() > 0
                ==> m.nb_detail.task_states[t as int].state.selected.unwrap_or(0) < usize::MAX
            &&& m.selected_notebook_idx < m.notebooks.len()
        },
        _ => true,
    }
}

/// Adds an unfinished subtask called `name` before or after the highlighted one of the
/// selected task, highlights it and saves the notebook.
pub fn add_subtask(app: &mut App, name: String, action: PendingAction) -> (effects: Vec<Effect>)
    requires
        add_subtask_ok(old(app)@, action),
    ensures
        final(app)@ == match subtask_added(old(app)@, name@, action) {
            Some(m) => m,
            None => old(app)@,
        },
        effects_model(effects@) == match subtask_added(old(app)@, name@, action) {
            Some(m) => seq![EffectModel::SaveNotebook(m.nb_detail.notebook->0)],
            None => Seq::empty(),
        },
{
    let mut effects: Vec<Effect> = Vec::new();
    if let Some(mut nb) = open_notebook(&app.nb_detail) {
        if let Some(t_idx) = app.nb_detail.selected_task_idx {
            let current = match app.nb_detail.task_states[t_idx].state.selected() {
                Some(c) => c,
                None => 0,
            };
            let insert_idx: usize = if action == PendingAction::AddSubtaskBefore {
                current
            } else if nb.tasks[t_idx].subtasks.len() == 0 {
                0
            } else {
                current + 1
            };
            let ghost before = nb@;
            let mut task = nb.tasks[t_idx].clone();
            let ghost subs = task.subtasks@;
            let ghost nm = name@;
            task.subtasks.insert(insert_idx, Subtask { name, is_done: false });
            proof {
                assert(subtasks_model(task.subtasks@) =~= subtasks_model(subs).insert(
                    insert_idx as int,
                    SubtaskModel { name: nm, is_done: false },
                ));
            }
            task.recalculate_completion();
            nb.tasks.set(t_idx, task);
            proof {
                let tm = before.tasks[t_idx as int];
                assert(tasks_model(nb.tasks@) =~= before.tasks.update(
                    t_idx as int,
                    recalculated(
                        TaskModel {
                            subtasks: tm.subtasks.insert(insert_idx as int, SubtaskModel { name: nm, is_done: false }),
                            ..tm
                        },
                    ),
                ));
            }
            effects = app.refresh_nb_detail(nb);
            let mut st = app.nb_detail.task_states[t_idx];
            st.state.select(Some(insert_idx));
            app.nb_detail.task_states.set(t_idx, st);
        }
    }
    proof {
        if subtask_added(old(app)@, name@, action) is None {
            assert(effects_model(effects@) =~= Seq::<EffectModel>::empty());
        }
    }
    effects
}

/// The state and outside work of renaming the selected notebook, task or subtask to `name`.
pub open spec fn renamed(m: AppModel, name: Seq<char>, action: PendingAction) -> (AppModel, Seq<EffectModel>) {
    match action {
        PendingAction::RenameNotebook => {
            let nbs = renamed_notebook(m.notebooks, m.selected_notebook_idx as int, name);
            (
                AppModel { notebooks: nbs, ..m },
                seq![
                    EffectModel::SaveNotebook(nbs[m.selected_notebook_idx as int]),
                    EffectModel::Refresh,
                ],
            )
        },
        PendingAction::RenameTask => match (m.nb_detail.notebook, m.nb_detail.selected_task_idx) {
            (Some(nb), Some(t)) => {
                let nb2 = renamed_task(nb, t as int, name);
                (refreshed_detail(m, nb2), seq![EffectModel::SaveNotebook(nb2)])
            },
            _ => (m, Seq::empty()),
        },
        PendingAction::RenameSubtask => match (m.nb_detail.notebook, m.nb_detail.selected_task_idx, selected_subtask_idx(m)) {
            (Some(nb), Some(t), Some(s)) => {
                let nb2 = renamed_subtask(nb, t as int, s as int, name);
                (refreshed_detail(m, nb2), seq![EffectModel::SaveNotebook(nb2)])
            },
            _ => (m, Seq::empty()),
        },
        _ => (m, Seq::empty()),
    }
}

/// What renaming needs: the selected notebook, task or subtask (and the selected task's
/// column state) exist.
pub open spec fn rename_ok(m: AppModel, action: PendingAction) -> bool {
    &&& action == PendingAction::RenameNotebook ==> m.selected_notebook_idx < m.notebooks.len()
    &&& action == PendingAction::RenameTask ==> match (m.nb_detail.notebook, m.nb_detail.selected_task_idx) {
        (Some(nb), Some(t)) => t < nb.tasks.len() && m.selected_notebook_idx < m.notebooks.len(),
        _ => true,
    }
    &&& action == PendingAction::RenameSubtask ==> match (m.nb_detail.notebook, m.nb_detail.selected_task_idx) {
        (Some(nb), Some(t)) => {
            &&& t < m.nb_detail.task_states.len()
            &&& m.nb_detail.task_states[t as int].state.selected matches Some(s) ==> {
                &&& t < nb.tasks.len()
                &&& s < nb.tasks[t as int].subtasks.len()
                &&& m.selected_notebook_idx < m.notebooks.len()
            }
        },
        _ => true,
    }
}

/// Gives the selected notebook, task or subtask the name typed in the rename prompt, and
/// saves it.
pub fn apply_rename(app: &mut App, new_name: String, action: PendingAction) -> (effects: Vec<Effect>)
    requires
        rename_ok(old(app)@, action),
    ensures
        final(app)@ == renamed(old(app)@, new_name@, action).0,
        effects_model(effects@) == renamed(old(app)@, new_name@, action).1,
{
    let mut effects: Vec<Effect> = Vec::new();
    match action {
        PendingAction::RenameNotebook => {
            let sel = app.selected_notebook_idx;
            rename_in_list(&mut app.notebooks, sel, new_name);
            effects.push(Effect::SaveNotebook(app.notebooks[sel].clone()));
            effects.push(Effect::Refresh);
        },
        PendingAction::RenameTask => {
            if let Some(nb) = &app.nb_detail.notebook {
                if let Some(idx) = app.nb_detail.selected_task_idx {
                    let nb2 = with_task_renamed(nb, idx, new_name);
                    effects = app.refresh_nb_detail(nb2);
                }
            }
        },
        PendingAction::RenameSubtask => {
            if let Some(nb) = open_notebook(&app.nb_detail) {
                if let Some(t_idx) = app.nb_detail.selected_task_idx {
                    if let Some(s_idx) = app.nb_detail.task_states[t_idx].state.selected() {
                        let mut nb2 = nb;
                        let ghost before = nb2@;
                        let mut task = nb2.tasks[t_idx].clone();
                        let mut sub = task.subtasks[s_idx].clone();
                        sub.name = new_name;
                        let ghost subs = task.subtasks@;
                        task.subtasks.set(s_idx, sub);
                        proof {
                            assert(subtasks_model(task.subtasks@) =~= subtasks_model(subs).update(
                                s_idx as int,
                                SubtaskModel { name: new_name@, ..subtasks_model(subs)[s_idx as int] },
                            ));
                        }
                        nb2.tasks.set(t_idx, task);
                        proof {
                            assert(tasks_model(nb2.tasks@) =~= renamed_subtask(
                                before,
                                t_idx as int,
                                s_idx as int,
                                new_name@,
                            ).tasks);
                        }
                        effects = app.refresh_nb_detail(nb2);
                    }
                }
            }
        },
        _ => {},
    }
    proof {
        assert(effects_model(effects@) =~= renamed(old(app)@, new_name@, action).1);
    }
    effects
}

/// The state after an action that may not apply (`None`: nothing changes).
pub open spec fn or_same(o: Option<AppModel>, m: AppModel) -> AppModel {
    match o {
        Some(x) => x,
        None => m,
    }
}

/// Saving the open notebook of the state after an action that may not apply.
pub open spec fn saved_if(o: Option<AppModel>) -> Seq<EffectModel> {
    match o {
        Some(x) => seq![EffectModel::SaveNotebook(x.nb_detail.notebook->0)],
        None => Seq::empty(),
    }
}

} // verus!
