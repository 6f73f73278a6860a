use vstd::prelude::*;

use crate::app::actions::{
    add_task_ok, confirmed, edit_is_dirty, ghost_removed, help_closed, help_shown, leave_editor,
    next_theme, notebook_added, submitted, subtask_added, subtask_swap_result, swapped, task_added,
    task_swap_result, unsaved_popup, window_after_help, PendingAction,
};
use crate::models::{NotebookModel, SubtaskModel};
use crate::text::is_blank;
use crate::ui::inspect_window::{subtask_names, task_names};
use crate::app::input::{
    app_step, detail_moved, detail_ok, detail_route, quit_effects, subtask_move_dir, task_move_dir,
};
use crate::ui::notebook_detail::{
    detail_step, with_subtask_toggled, DetailModel, NotebookViewAction,
};
use crate::app::{mode_can_quit, mode_is_popup, AppModel, EffectModel, ModeModel};
use crate::keys::{KeyCode, KeyEvent};
use crate::ui::theme::{default_theme, nord_theme, theme_at};

verus! {

/// Opening the help screen from a window and closing it again returns to that window.
pub proof fn law_help_round_trip(m: AppModel)
    requires
        !mode_is_popup(m.mode),
    ensures
        help_closed(help_shown(m)) == (AppModel { last_window: window_after_help(m.mode), ..m }),
{
}

/// While the help screen is open, any key closes it and does nothing else.
pub proof fn law_help_closes_on_any_key(m: AppModel, key: KeyEvent, id: Seq<char>)
    requires
        m.mode is Help,
    ensures
        app_step(m, key, id).0 == help_closed(m),
        app_step(m, key, id).1 == Seq::<crate::app::EffectModel>::empty(),
{
}

/// In the overview and the notebook view, `q` quits, saving the open notebook.
pub proof fn law_q_quits(m: AppModel, key: KeyEvent, id: Seq<char>)
    requires
        mode_can_quit(m.mode),
        key.code == KeyCode::Char('q'),
        !key.alt,
    ensures
        app_step(m, key, id).0 == (AppModel { should_quit: true, ..m }),
        app_step(m, key, id).1 == quit_effects(m),
{
}

/// Switching the theme twice brings back the theme in use; the two themes alternate.
pub proof fn law_theme_cycle_twice(m: AppModel)
    requires
        m.theme_idx < 2,
    ensures
        next_theme(AppModel { theme_idx: next_theme(m), ..m }) == m.theme_idx,
        theme_at(next_theme(m)) == if m.theme_idx == 0 {
            nord_theme()
        } else {
            default_theme()
        },
{
}

/// The open notebook is the selected notebook of the list, and every task has its column state.
pub open spec fn detail_in_step(m: AppModel) -> bool {
    match m.nb_detail.notebook {
        Some(nb) => {
            &&& m.selected_notebook_idx < m.notebooks.len()
            &&& m.notebooks[m.selected_notebook_idx as int] == nb
            &&& m.nb_detail.task_states.len() == nb.tasks.len()
        },
        None => false,
    }
}

/// Moving the selected task left and then right again restores the notebook, the column
/// states and the selection.
pub proof fn law_task_move_undone(m: AppModel)
    requires
        detail_in_step(m),
        m.nb_detail.selected_task_idx matches Some(t) && 0 < t < m.nb_detail.notebook->0.tasks.len(),
    ensures
        task_swap_result(m, -1) is Some,
        task_swap_result(task_swap_result(m, -1)->0, 1) == Some(m),
{
    let nb = m.nb_detail.notebook->0;
    let t = m.nb_detail.selected_task_idx->0 as int;
    let m1 = task_swap_result(m, -1)->0;
    let nb1 = m1.nb_detail.notebook->0;
    assert(nb1.tasks == swapped(nb.tasks, t, t - 1));
    assert(swapped(swapped(nb.tasks, t, t - 1), t - 1, t) =~= nb.tasks);
    assert(swapped(swapped(m.nb_detail.task_states, t, t - 1), t - 1, t)
        =~= m.nb_detail.task_states);
    let m2 = task_swap_result(m1, 1)->0;
    assert(m2.nb_detail.notebook->0 =~= nb);
    assert(m2.notebooks =~= m.notebooks);
    assert(m2 =~= m);
}

/// Moving the highlighted subtask up and then down again restores the notebook and the
/// highlight.
pub proof fn law_subtask_move_undone(m: AppModel)
    requires
        detail_in_step(m),
        ({
            let nb = m.nb_detail.notebook->0;
            &&& m.nb_detail.selected_task_idx matches Some(t) && t < nb.tasks.len() && {
                let s = m.nb_detail.task_states[t as int].state.selected;
                s matches Some(i) && 0 < i < nb.tasks[t as int].subtasks.len()
            }
        }),
    ensures
        subtask_swap_result(m, -1) is Some,
        subtask_swap_result(subtask_swap_result(m, -1)->0, 1) == Some(m),
{
    let nb = m.nb_detail.notebook->0;
    let t = m.nb_detail.selected_task_idx->0 as int;
    let st = m.nb_detail.task_states[t];
    let i = st.state.selected->0 as int;
    let task = nb.tasks[t];
    let m1 = subtask_swap_result(m, -1)->0;
    let nb1 = m1.nb_detail.notebook->0;
    assert(m1.nb_detail.task_states[t].state.selected == Some((i - 1) as usize));
    assert(nb1.tasks[t].subtasks == swapped(task.subtasks, i, i - 1));
    assert(swapped(swapped(task.subtasks, i, i - 1), i - 1, i) =~= task.subtasks);
    let m2 = subtask_swap_result(m1, 1)->0;
    assert(m2.nb_detail.notebook->0.tasks =~= nb.tasks);
    assert(m2.nb_detail.notebook->0 =~= nb);
    assert(m2.nb_detail.task_states =~= m.nb_detail.task_states);
    assert(m2.notebooks =~= m.notebooks);
    assert(m2 =~= m);
}

/// Starting a new task and abandoning it leaves the notebook, the list and the column states
/// as they were.
pub proof fn law_abandoned_task_leaves_no_trace(m: AppModel, action: PendingAction)
    requires
        action == PendingAction::AddTaskBefore || action == PendingAction::AddTaskAfter,
        detail_in_step(m),
        add_task_ok(m, action),
    ensures
        ghost_removed(task_added(m, action), action).notebooks == m.notebooks,
        ghost_removed(task_added(m, action), action).nb_detail.notebook == m.nb_detail.notebook,
        ghost_removed(task_added(m, action), action).nb_detail.task_states
            == m.nb_detail.task_states,
{
    let a = task_added(m, action);
    let nb = m.nb_detail.notebook->0;
    let i = crate::app::actions::task_insert_idx(m.nb_detail, action);
    assert(a.nb_detail.notebook->0.tasks.remove(i) =~= nb.tasks);
    assert(a.nb_detail.task_states.remove(i) =~= m.nb_detail.task_states);
    let r = ghost_removed(a, action);
    assert(r.nb_detail.notebook->0 =~= nb);
    assert(r.notebooks =~= m.notebooks);
}

/// Starting a new notebook and abandoning it leaves the notebook list as it was.
pub proof fn law_abandoned_notebook_leaves_no_trace(m: AppModel, id: Seq<char>)
    requires
        m.notebooks.len() < usize::MAX,
    ensures
        ghost_removed(notebook_added(m, id), PendingAction::AddNotebook).notebooks == m.notebooks,
{
    let a = notebook_added(m, id);
    assert(a.notebooks.remove(m.notebooks.len() as int) =~= m.notebooks);
}

/// The notebook view is whole: one column state per task, and the selection (if any) names a
/// task.
pub open spec fn detail_wf(d: DetailModel) -> bool {
    match d.notebook {
        Some(nb) => {
            &&& d.task_states.len() == nb.tasks.len()
            &&& d.selected_task_idx matches Some(i) ==> i < nb.tasks.len()
        },
        None => d.task_states.len() == 0 && d.selected_task_idx is None,
    }
}

/// A key taken by the notebook view itself keeps it whole.
proof fn lemma_detail_step_keeps_wf(d: DetailModel, key: KeyEvent)
    requires
        detail_wf(d),
    ensures
        detail_wf(detail_step(d, key).0),
{
    let r = detail_step(d, key).0;
    match (d.notebook, d.selected_task_idx) {
        (Some(nb), Some(t)) => {
            assert(r.task_states.len() == d.task_states.len());
            match d.task_states[t as int].state.selected {
                Some(s) => {
                    assert(with_subtask_toggled(nb, t as int, s as int).tasks.len() == nb.tasks.len());
                },
                None => {},
            }
        },
        _ => {},
    }
}

/// Every key handled in the notebook view keeps the view whole: moves, toggles, new tasks
/// and the prompts it opens all keep one column state per task and a selection that names a
/// task.
pub proof fn law_detail_keys_keep_view_whole(m: AppModel, key: KeyEvent)
    requires
        detail_wf(m.nb_detail),
        m.nb_detail.notebook is Some,
        detail_ok(m, key),
    ensures
        detail_wf(detail_route(m, key).0.nb_detail),
{
    lemma_detail_step_keeps_wf(m.nb_detail, key);
    let (m1, a) = detail_moved(m, key);
    if task_move_dir(key) == 0 && subtask_move_dir(key) == 0 {
        match a {
            Some(NotebookViewAction::AddTaskBefore) => {
                assert(task_added(m1, PendingAction::AddTaskBefore).nb_detail.notebook->0.tasks.len()
                    == m1.nb_detail.notebook->0.tasks.len() + 1);
            },
            Some(NotebookViewAction::AddTaskAfter) => {
                assert(task_added(m1, PendingAction::AddTaskAfter).nb_detail.notebook->0.tasks.len()
                    == m1.nb_detail.notebook->0.tasks.len() + 1);
            },
            _ => {},
        }
    }
}

/// Adding a subtask in the notebook view puts it right before the highlighted subtask
/// ("before") or right after it ("after"), keeps the other subtasks in order, highlights the
/// new one and saves the notebook.
pub proof fn law_add_subtask_position(m: AppModel, name: Seq<char>, action: PendingAction)
    requires
        action == PendingAction::AddSubtaskBefore || action == PendingAction::AddSubtaskAfter,
        m.nb_detail.notebook is Some,
        m.nb_detail.selected_task_idx is Some,
        ({
            let nb = m.nb_detail.notebook->0;
            let t = m.nb_detail.selected_task_idx->0 as int;
            &&& t < nb.tasks.len()
            &&& t < m.nb_detail.task_states.len()
            &&& m.nb_detail.task_states[t].state.selected is Some
            &&& m.nb_detail.task_states[t].state.selected->0 < nb.tasks[t].subtasks.len()
            &&& nb.tasks[t].subtasks.len() <= usize::MAX
        }),
        m.selected_notebook_idx < m.notebooks.len(),
    ensures
        subtask_added(m, name, action) is Some,
        ({
            let nb = m.nb_detail.notebook->0;
            let t = m.nb_detail.selected_task_idx->0 as int;
            let s = m.nb_detail.task_states[t].state.selected->0 as int;
            let subs = nb.tasks[t].subtasks;
            let fresh = SubtaskModel { name, is_done: false };
            let r = subtask_added(m, name, action)->0;
            let subs2 = r.nb_detail.notebook->0.tasks[t].subtasks;
            let at = if action == PendingAction::AddSubtaskBefore {
                s
            } else {
                s + 1
            };
            &&& r.nb_detail.notebook is Some
            &&& subs2.len() == subs.len() + 1
            &&& subs2[at] == fresh
            &&& action == PendingAction::AddSubtaskBefore ==> subs2[s + 1] == subs[s]
            &&& action == PendingAction::AddSubtaskAfter ==> subs2[s] == subs[s]
            &&& forall|j: int| 0 <= j < at ==> subs2[j] == subs[j]
            &&& forall|j: int| at <= j < subs.len() ==> subs2[j + 1] == subs[j]
            &&& r.nb_detail.task_states[t].state.selected == Some(at as usize)
            &&& r.notebooks[m.selected_notebook_idx as int] == r.nb_detail.notebook->0
        }),
{
}

/// A subtask added to a task without subtasks becomes its only subtask, highlighted.
pub proof fn law_add_first_subtask(m: AppModel, name: Seq<char>, action: PendingAction)
    requires
        action == PendingAction::AddSubtaskBefore || action == PendingAction::AddSubtaskAfter,
        m.nb_detail.notebook is Some,
        m.nb_detail.selected_task_idx is Some,
        ({
            let nb = m.nb_detail.notebook->0;
            let t = m.nb_detail.selected_task_idx->0 as int;
            &&& t < nb.tasks.len()
            &&& t < m.nb_detail.task_states.len()
            &&& m.nb_detail.task_states[t].state.selected is None
            &&& nb.tasks[t].subtasks.len() == 0
        }),
    ensures
        subtask_added(m, name, action) is Some,
        ({
            let t = m.nb_detail.selected_task_idx->0 as int;
            let r = subtask_added(m, name, action)->0;
            &&& r.nb_detail.notebook->0.tasks[t].subtasks == seq![SubtaskModel { name, is_done: false }]
            &&& r.nb_detail.task_states[t].state.selected == Some(0usize)
        }),
{
    let t = m.nb_detail.selected_task_idx->0 as int;
    let r = subtask_added(m, name, action)->0;
    assert(r.nb_detail.notebook->0.tasks[t].subtasks =~= seq![SubtaskModel { name, is_done: false }]);
}

/// Leaving a task's editor with Esc (once the copy on disk is read) asks about unsaved
/// changes exactly when the title, the description or the subtask names differ from that
/// copy, or a list entry is typed; otherwise the editor closes, back to the remembered window,
/// with nothing to do.
pub proof fn law_task_edit_leave_asks_on_change(
    m: AppModel,
    action: PendingAction,
    disk: NotebookModel,
)
    requires
        action == PendingAction::EditTask || action == PendingAction::InspectTask,
        m.nb_detail.selected_task_idx is Some,
        m.nb_detail.selected_task_idx->0 < disk.tasks.len(),
    ensures
        ({
            let t = disk.tasks[m.nb_detail.selected_task_idx->0 as int];
            let i = m.inspector;
            let changed = i.title != t.name || i.desc != t.description || i.items
                != subtask_names(t.subtasks) || !is_blank(i.task);
            let (r, e) = leave_editor(
                m,
                action,
                edit_is_dirty(i, action, m.nb_detail.selected_task_idx, Some(disk)),
            );
            &&& changed ==> r == (AppModel { mode: ModeModel::Confirm(unsaved_popup(), action), ..m })
            &&& !changed ==> r == (AppModel { mode: m.last_window, ..m })
            &&& e == Seq::<EffectModel>::empty()
        }),
{
}

/// Leaving a notebook's editor with Esc (once the copy on disk is read) asks about unsaved
/// changes exactly when the title, the description or the task names differ from that copy;
/// otherwise the editor closes, back to the remembered window.
pub proof fn law_notebook_edit_leave_asks_on_change(m: AppModel, disk: NotebookModel)
    ensures
        ({
            let i = m.inspector;
            let action = PendingAction::EditNotebook;
            let changed = i.title != disk.name || i.desc != disk.description || i.items
                != task_names(disk.tasks);
            let (r, e) = leave_editor(
                m,
                action,
                edit_is_dirty(i, action, m.nb_detail.selected_task_idx, Some(disk)),
            );
            &&& changed ==> r == (AppModel { mode: ModeModel::Confirm(unsaved_popup(), action), ..m })
            &&& !changed ==> r == (AppModel { mode: m.last_window, ..m })
            &&& e == Seq::<EffectModel>::empty()
        }),
{
}

/// Saving an edited notebook stores the inspector's title as its name and the inspector's
/// description as its description, keeps its identifier and tasks, leaves the other notebooks
/// alone, and writes exactly that notebook.
pub proof fn law_edit_notebook_saves_title_and_description(m: AppModel)
    requires
        m.overview.state.selected is Some,
        m.overview.state.selected->0 < m.notebooks.len(),
    ensures
        ({
            let idx = m.overview.state.selected->0 as int;
            let (r, e) = submitted(m, PendingAction::EditNotebook);
            let saved = r.notebooks[idx];
            &&& saved.name == m.inspector.title
            &&& saved.description == m.inspector.desc
            &&& saved.id == m.notebooks[idx].id
            &&& saved.tasks == m.notebooks[idx].tasks
            &&& r.notebooks.len() == m.notebooks.len()
            &&& forall|j: int| 0 <= j < m.notebooks.len() && j != idx ==> r.notebooks[j] == m.notebooks[j]
            &&& e.len() > 0 && e[0] == EffectModel::SaveNotebook(saved)
        }),
{
}

/// Saving an edited or added task stores the inspector's title as its name and the
/// inspector's description as its description, and writes the notebook holding it.
pub proof fn law_edit_task_saves_title_and_description(m: AppModel, action: PendingAction)
    requires
        action == PendingAction::EditTask || action == PendingAction::AddTaskBefore || action
            == PendingAction::AddTaskAfter,
        m.nb_detail.notebook is Some,
        m.nb_detail.selected_task_idx is Some,
        m.nb_detail.selected_task_idx->0 < m.nb_detail.notebook->0.tasks.len(),
    ensures
        ({
            let idx = m.nb_detail.selected_task_idx->0 as int;
            let (r, e) = submitted(m, action);
            let nb = r.nb_detail.notebook->0;
            &&& r.nb_detail.notebook is Some
            &&& nb.tasks.len() == m.nb_detail.notebook->0.tasks.len()
            &&& nb.tasks[idx].name == m.inspector.title
            &&& nb.tasks[idx].description == m.inspector.desc
            &&& e == seq![EffectModel::SaveNotebook(nb)]
        }),
{
}

/// Deleting the selected task in the notebook view removes exactly that task and keeps the
/// selection at its position, or on the new last task when the last one went; with no task
/// left nothing is selected.
pub proof fn law_delete_task_selection(m: AppModel)
    requires
        m.nb_detail.notebook is Some,
        m.nb_detail.selected_task_idx is Some,
        m.nb_detail.selected_task_idx->0 < m.nb_detail.notebook->0.tasks.len(),
    ensures
        ({
            let nb = m.nb_detail.notebook->0;
            let i = m.nb_detail.selected_task_idx->0 as int;
            let n = nb.tasks.len() as int;
            let r = confirmed(ghost_removed(m, PendingAction::DeleteTask), PendingAction::DeleteTask).0;
            &&& r.nb_detail.notebook == Some(NotebookModel { tasks: nb.tasks.remove(i), ..nb })
            &&& n == 1 ==> r.nb_detail.selected_task_idx is None
            &&& n > 1 && i < n - 1 ==> r.nb_detail.selected_task_idx == Some(i as usize)
            &&& n > 1 && i == n - 1 ==> r.nb_detail.selected_task_idx == Some((n - 2) as usize)
        }),
{
}

} // verus!
