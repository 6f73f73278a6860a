pub mod actions;
pub mod input;
pub mod laws;

use vstd::prelude::*;

use crate::app::actions::PendingAction;
use crate::models::{notebooks_model, Notebook, NotebookModel};
use crate::ui::confirm::{ConfirmModel, ConfirmPopup};
use crate::ui::inspect_window::{Inspector, InspectorModel};
use crate::ui::notebook_detail::{DetailModel, NotebookDetail};
use crate::ui::overview::{Overview, OverviewModel};
use crate::ui::rename::{RenameModel, RenamePopup};
use crate::ui::task_column::TaskColumnState;
use crate::ui::theme::Theme;

verus! {

/// The window or popup that has the keyboard.
pub enum AppMode {
    Overview,
    NotebookDetail,
    Add(PendingAction),
    Confirm(ConfirmPopup, PendingAction),
    Rename(RenamePopup, PendingAction),
    Help,
}

/// Abstract value of a mode.
pub enum ModeModel {
    Overview,
    NotebookDetail,
    Add(PendingAction),
    Confirm(ConfirmModel, PendingAction),
    Rename(RenameModel, PendingAction),
    Help,
}

impl View for AppMode {
    type V = ModeModel;

    open spec fn view(&self) -> ModeModel {
        match self {
            AppMode::Overview => ModeModel::Overview,
            AppMode::NotebookDetail => ModeModel::NotebookDetail,
            AppMode::Add(a) => ModeModel::Add(*a),
            AppMode::Confirm(p, a) => ModeModel::Confirm(p@, *a),
            AppMode::Rename(p, a) => ModeModel::Rename(p@, *a),
            AppMode::Help => ModeModel::Help,
        }
    }
}

impl Clone for AppMode {
    fn clone(&self) -> (r: Self)
        ensures
            r@ == self@,
    {
        match self {
            AppMode::Overview => AppMode::Overview,
            AppMode::NotebookDetail => AppMode::NotebookDetail,
            AppMode::Add(a) => AppMode::Add(*a),
            AppMode::Confirm(p, a) => AppMode::Confirm(p.clone(), *a),
            AppMode::Rename(p, a) => AppMode::Rename(p.clone(), *a),
            AppMode::Help => AppMode::Help,
        }
    }
}

/// The modes in which `q` quits: the two main windows.
pub open spec fn mode_can_quit(m: ModeModel) -> bool {
    m is Overview || m is NotebookDetail
}

/// The popup modes.
pub open spec fn mode_is_popup(m: ModeModel) -> bool {
    m is Rename || m is Confirm || m is Help
}

impl AppMode {
    /// `q` quits from the overview and the notebook view only.
    pub fn can_quit(&self) -> (r: bool)
        ensures
            r == mode_can_quit(self@),
    {
        matches!(self, AppMode::Overview | AppMode::NotebookDetail)
    }

    /// Rename and confirmation prompts and the help screen are popups.
    pub fn is_popup(&self) -> (r: bool)
        ensures
            r == mode_is_popup(self@),
    {
        matches!(self, AppMode::Rename(_, _) | AppMode::Confirm(_, _) | AppMode::Help)
    }
}

/// Outside work an action asks for; the application performs it in order.
pub enum Effect {
    /// Write the notebook to its file.
    SaveNotebook(Notebook),
    /// Mark the notebook as opened now in the index.
    TouchNotebook(String),
    /// Delete the notebook's file.
    RemoveNotebookFile(String),
    /// Bring the index in line with the notebook files.
    SyncIndex,
    /// Sync the index, load the notebooks it lists and hand them to `App::refresh_notebooks_list`.
    Refresh,
    /// After the refresh before it, call `App::open_first_notebook`.
    OpenFirstNotebook,
    /// Load the notebook with this identifier from its file and hand the result to
    /// `discard_checked`.
    CheckDiscard(PendingAction, String),
    /// Use this theme from now on.
    ApplyTheme(Theme),
    /// Remember the theme number.
    SaveSettings(usize),
}

/// Abstract value of an effect.
pub enum EffectModel {
    SaveNotebook(NotebookModel),
    TouchNotebook(Seq<char>),
    RemoveNotebookFile(Seq<char>),
    SyncIndex,
    Refresh,
    OpenFirstNotebook,
    CheckDiscard(PendingAction, Seq<char>),
    ApplyTheme(Theme),
    SaveSettings(usize),
}

impl View for Effect {
    type V = EffectModel;

    open spec fn view(&self) -> EffectModel {
        match self {
            Effect::SaveNotebook(n) => EffectModel::SaveNotebook(n@),
            Effect::TouchNotebook(id) => EffectModel::TouchNotebook(id@),
            Effect::RemoveNotebookFile(id) => EffectModel::RemoveNotebookFile(id@),
            Effect::SyncIndex => EffectModel::SyncIndex,
            Effect::Refresh => EffectModel::Refresh,
            Effect::OpenFirstNotebook => EffectModel::OpenFirstNotebook,
            Effect::CheckDiscard(a, id) => EffectModel::CheckDiscard(*a, id@),
            Effect::ApplyTheme(t) => EffectModel::ApplyTheme(*t),
            Effect::SaveSettings(i) => EffectModel::SaveSettings(*i),
        }
    }
}

pub open spec fn effects_model(s: Seq<Effect>) -> Seq<EffectModel> {
    s.map_values(|e: Effect| e@)
}

/// The planner's state: what is shown, what is being edited, and the notebooks in memory.
pub struct App {
    pub mode: AppMode,
    /// The window to return to when a popup closes.
    pub last_window: AppMode,
    pub should_quit: bool,
    pub notebooks: Vec<Notebook>,
    pub selected_notebook_idx: usize,
    pub overview: Overview,
    pub nb_detail: NotebookDetail,
    pub inspector: Inspector,
    pub theme_idx: usize,
}

/// Abstract value of the planner's state.
#[verifier::ext_equal]
pub struct AppModel {
    pub mode: ModeModel,
    pub last_window: ModeModel,
    pub should_quit: bool,
    pub notebooks: Seq<NotebookModel>,
    pub selected_notebook_idx: usize,
    pub overview: OverviewModel,
    pub nb_detail: DetailModel,
    pub inspector: InspectorModel,
    pub theme_idx: usize,
}

impl View for App {
    type V = AppModel;

    open spec fn view(&self) -> AppModel {
        AppModel {
            mode: self.mode@,
            last_window: self.last_window@,
            should_quit: self.should_quit,
            notebooks: notebooks_model(self.notebooks@),
            selected_notebook_idx: self.selected_notebook_idx,
            overview: self.overview@,
            nb_detail: self.nb_detail@,
            inspector: self.inspector@,
            theme_idx: self.theme_idx,
        }
    }
}

/// Column states for `n` tasks, first subtask highlighted in each.
pub fn fresh_task_states(n: usize) -> (v: Vec<TaskColumnState>)
    ensures
        v@.len() == n,
        forall|i: int| 0 <= i < n ==> #[trigger] v@[i] == TaskColumnState::fresh(),
{
    let mut v: Vec<TaskColumnState> = Vec::new();
    let mut i: usize = 0;
    while i < n
        invariant
            i <= n,
            v@.len() == i,
            forall|k: int| 0 <= k < i ==> #[trigger] v@[k] == TaskColumnState::fresh(),
        decreases n - i,
    {
        v.push(TaskColumnState::new());
        i = i + 1;
    }
    v
}

/// Position of the first notebook with identifier `id`.
pub open spec fn position_of(nbs: Seq<NotebookModel>, id: Seq<char>) -> Option<usize> {
    if exists|i: int| 0 <= i < nbs.len() && (#[trigger] nbs[i]).id == id {
        Some(
            (choose|i: int|
                0 <= i < nbs.len() && nbs[i].id == id && forall|j: int|
                    0 <= j < i ==> (#[trigger] nbs[j]).id != id) as usize,
        )
    } else {
        None
    }
}

/// The state after `App::refresh_nb_detail(nb)`: the edited notebook replaces the selected
/// one in the list and in the view; column states survive unless the task count changed.
pub open spec fn refreshed_detail(m: AppModel, nb: NotebookModel) -> AppModel {
    AppModel {
        notebooks: m.notebooks.update(m.selected_notebook_idx as int, nb),
        nb_detail: DetailModel {
            notebook: Some(nb),
            task_states: if m.nb_detail.task_states.len() == nb.tasks.len() {
                m.nb_detail.task_states
            } else {
                Seq::new(nb.tasks.len(), |i: int| TaskColumnState::fresh())
            },
            ..m.nb_detail
        },
        ..m
    }
}

/// The planner as it opens on the overview of `nbs`: nothing open in the notebook view and an
/// empty inspector.
pub open spec fn opened_app(nbs: Seq<NotebookModel>, theme_idx: usize) -> AppModel {
    AppModel {
        mode: ModeModel::Overview,
        last_window: ModeModel::Overview,
        should_quit: false,
        notebooks: nbs,
        selected_notebook_idx: 0,
        overview: crate::ui::overview::opened_overview(nbs),
        nb_detail: DetailModel {
            notebook: None,
            task_states: Seq::empty(),
            selected_task_idx: None,
            scroll_offset: 0,
        },
        inspector: crate::ui::inspect_window::setup_model(None, None, "Tasks"@),
        theme_idx,
    }
}

/// A copy of the notebook open in the view.
pub fn open_notebook(d: &NotebookDetail) -> (r: Option<Notebook>)
    ensures
        crate::ui::notebook_detail::opt_model(r) == crate::ui::notebook_detail::opt_model(d.notebook),
{
    match &d.notebook {
        Some(nb) => Some(nb.clone()),
        None => None,
    }
}

impl App {
    /// The planner opening on the overview of `notebooks` with theme number `theme_idx`.
    pub fn new(notebooks: Vec<Notebook>, theme_idx: usize) -> (app: Self)
        ensures
            app@ == opened_app(notebooks_model(notebooks@), theme_idx),
    {
        let overview_list = notebooks.clone();
        proof {
            assert(notebooks_model(overview_list@) =~= notebooks_model(notebooks@));
        }
        let app = App {
            mode: AppMode::Overview,
            last_window: AppMode::Overview,
            should_quit: false,
            selected_notebook_idx: 0,
            overview: Overview::new(overview_list),
            notebooks,
            nb_detail: NotebookDetail::new(None),
            inspector: Inspector::setup(None, None, "Tasks".to_owned()),
            theme_idx,
        };
        proof {
            assert(app.nb_detail.task_states@ =~= Seq::<TaskColumnState>::empty());
        }
        app
    }

    /// Stops the planner, saving the open notebook first.
    pub fn quit(&mut self) -> (effects: Vec<Effect>)
        ensures
            final(self)@ == (AppModel { should_quit: true, ..old(self)@ }),
            effects_model(effects@) == match old(self)@.nb_detail.notebook {
                Some(nb) => seq![EffectModel::SaveNotebook(nb)],
                None => Seq::empty(),
            },
    {
        let mut effects: Vec<Effect> = Vec::new();
        if let Some(nb) = &self.nb_detail.notebook {
            effects.push(Effect::SaveNotebook(nb.clone()));
        }
        self.should_quit = true;
        proof {
            assert(effects_model(effects@) =~= match old(self)@.nb_detail.notebook {
                Some(nb) => seq![EffectModel::SaveNotebook(nb)],
                None => Seq::empty(),
            });
            assert(self@ =~= AppModel { should_quit: true, ..old(self)@ });
        }
        effects
    }

    /// Puts an edited copy of the open notebook in place (in the list and in the view),
    /// resets the column states if the number of tasks changed, and saves it.
    pub fn refresh_nb_detail(&mut self, notebook: Notebook) -> (effects: Vec<Effect>)
        requires
            old(self).selected_notebook_idx < old(self).notebooks@.len(),
        ensures
            final(self)@ == refreshed_detail(old(self)@, notebook@),
            effects_model(effects@) == seq![EffectModel::SaveNotebook(notebook@)],
    {
        let idx = self.selected_notebook_idx;
        self.notebooks.set(idx, notebook.clone());
        self.nb_detail.notebook = Some(notebook.clone());
        if self.nb_detail.task_states.len() != notebook.tasks.len() {
            self.nb_detail.task_states = fresh_task_states(notebook.tasks.len());
            proof {
                assert(self.nb_detail.task_states@ =~= Seq::new(
                    notebook.tasks@.len(),
                    |i: int| TaskColumnState::fresh(),
                ));
            }
        }
        let mut effects: Vec<Effect> = Vec::new();
        effects.push(Effect::SaveNotebook(notebook));
        proof {
            assert(effects_model(effects@) =~= seq![EffectModel::SaveNotebook(notebook@)]);
            assert(self@.notebooks =~= old(self)@.notebooks.update(idx as int, notebook@));
        }
        effects
    }

    /// Takes in the notebooks reloaded from disk (index order): the highlight follows the
    /// previously highlighted notebook by identifier, the open notebook is replaced by the
    /// reloaded one at the selected position, and the overview panel is synced.
    pub fn refresh_notebooks_list(&mut self, loaded: Vec<Notebook>)
        ensures
            ({
                let o = old(self)@;
                let nbs = notebooks_model(loaded@);
                let current_id = match o.overview.state.selected {
                    Some(i) => if i < o.notebooks.len() {
                        Some(o.notebooks[i as int].id)
                    } else {
                        None
                    },
                    None => None,
                };
                let new_pos = match current_id {
                    Some(id) => position_of(nbs, id),
                    None => None,
                };
                let sel = match new_pos {
                    Some(p) => p,
                    None => o.selected_notebook_idx,
                };
                let state = match new_pos {
                    Some(p) => crate::ui::list_state::ListSelection {
                        selected: Some(p),
                        ..o.overview.state
                    },
                    None => o.overview.state,
                };
                final(self)@ == AppModel {
                    notebooks: nbs,
                    selected_notebook_idx: sel,
                    overview: OverviewModel {
                        notebooks: nbs,
                        state,
                        inspector: crate::ui::overview::synced_panel(
                            o.overview.inspector,
                            nbs,
                            state.selected,
                        ),
                    },
                    nb_detail: DetailModel {
                        notebook: if sel < nbs.len() {
                            Some(nbs[sel as int])
                        } else {
                            o.nb_detail.notebook
                        },
                        ..o.nb_detail
                    },
                    ..o
                }
            }),
    {
        let current_id: Option<String> = match self.overview.state.selected() {
            Some(idx) => if idx < self.notebooks.len() {
                Some(self.notebooks[idx].id.clone())
            } else {
                None
            },
            None => None,
        };
        self.notebooks = loaded;
        let list = self.notebooks.clone();
        proof {
            assert(notebooks_model(list@) =~= notebooks_model(self.notebooks@));
        }
        self.overview.notebooks = list;
        if let Some(id) = current_id {
            let ghost nbs = notebooks_model(self.notebooks@);
            let mut i: usize = 0;
            while i < self.notebooks.len() && self.notebooks[i].id != id
                invariant
                    i <= self.notebooks@.len(),
                    nbs == notebooks_model(self.notebooks@),
                    forall|j: int| 0 <= j < i ==> (#[trigger] nbs[j]).id != id@,
                decreases self.notebooks.len() - i,
            {
                proof {
                    assert(nbs[i as int] == self.notebooks@[i as int]@);
                }
                i = i + 1;
            }
            if i < self.notebooks.len() {
                proof {
                    assert(nbs[i as int] == self.notebooks@[i as int]@);
                    let p = choose|k: int|
                        0 <= k < nbs.len() && nbs[k].id == id@ && forall|j: int|
                            0 <= j < k ==> (#[trigger] nbs[j]).id != id@;
                    assert(p == i) by {
                        if p < i {
                        } else if p > i {
                            assert(nbs[i as int].id == id@);
                        }
                    }
                }
                self.overview.state.select(Some(i));
                self.selected_notebook_idx = i;
            } else {
                proof {
                    assert(!exists|k: int| 0 <= k < nbs.len() && (#[trigger] nbs[k]).id == id@);
                }
            }
        }
        if self.selected_notebook_idx < self.notebooks.len() {
            let nb = self.notebooks[self.selected_notebook_idx].clone();
            self.nb_detail.notebook = Some(nb);
        }
        self.overview.sync_inspector();
        proof {
            assert(self@.overview.notebooks =~= notebooks_model(loaded@));
        }
    }

    /// Handles one key press (see `input::handle_input`).
    pub fn handle_input(&mut self, key: crate::keys::KeyEvent) -> (effects: Vec<Effect>)
        requires
            input::app_accepts(old(self)@, key),
        ensures
            final(self)@ == input::app_step(old(self)@, key, final(self)@.notebooks.last().id).0,
            effects_model(effects@) == input::app_step(
                old(self)@,
                key,
                final(self)@.notebooks.last().id,
            ).1,
            input::starts_notebook(old(self)@, key) ==> crate::models::is_uuid_v4_text(
                final(self)@.notebooks.last().id,
            ),
    {
        input::handle_input(self, key)
    }

    /// Opens the first notebook of the list (after entering a notebook made it the most
    /// recently opened one) in the notebook view.
    pub fn open_first_notebook(&mut self)
        requires
            old(self).notebooks@.len() > 0,
        ensures
            final(self)@ == (AppModel {
                mode: ModeModel::NotebookDetail,
                last_window: ModeModel::NotebookDetail,
                nb_detail: DetailModel {
                    notebook: Some(old(self)@.notebooks[0]),
                    task_states: Seq::new(
                        old(self)@.notebooks[0].tasks.len(),
                        |i: int| TaskColumnState::fresh(),
                    ),
                    selected_task_idx: if old(self)@.notebooks[0].tasks.len() > 0 {
                        Some(0usize)
                    } else {
                        None
                    },
                    scroll_offset: 0,
                },
                ..old(self)@
            }),
    {
        let first = self.notebooks[0].clone();
        self.nb_detail = NotebookDetail::new(Some(first));
        self.mode = AppMode::NotebookDetail;
        self.last_window = AppMode::NotebookDetail;
        proof {
            assert(self.nb_detail.task_states@ =~= Seq::new(
                old(self)@.notebooks[0].tasks.len(),
                |i: int| TaskColumnState::fresh(),
            ));
        }
    }
}

} // verus!
