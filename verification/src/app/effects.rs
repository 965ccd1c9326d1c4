//! What the application asks of its surroundings, and what it still has to do.

use crate::app::{Action, Level, Step, Tab};
use crate::components::context_menu::{Command, Request};
use crate::event::{BatchWork, Task};
use crate::modal::{Modal, ModalView};
use crate::model::{Intent, MutationScope, PlannedLink, Write};
use vstd::prelude::*;

verus! {

/// Something that the application wants done. They are done in order.
#[derive(Debug)]
pub enum Effect {
    /// A notice.
    Tell(String, Level),
    /// Notices that were seen long enough go.
    ExpireNotices,
    /// A notice that stays while work runs.
    StartNotice(u64, String),
    FinishNotice(u64),
    NoticeProgress(u64, String),
    /// Work that runs beside the interface.
    Run(u64, Task),
    RunBatch(u64, BatchWork),
    /// The backup is looked at; the result comes with this number.
    Observe { id: u64, remote: bool },
    /// The settings are read again, and the agents of the project are looked up.
    Reload,
    RefreshPage(Tab),
    RefreshModal,
    /// The library gives up its selection and shows its results again.
    ResetLibrary,
    EnterPage(Tab),
    FocusRoot(Tab),
    /// The topmost part of the page gets the focus.
    FocusFromAbove(Tab),
    SetLayout { scope: u8, layout: u8 },
    SelectScope { keys: Vec<String>, title: String, checked: Option<String> },
    RestrictAgent(String),
    SelectPreset(String),
    SelectTag(String),
    SetQuery { query: String, focus_list: bool },
    /// The page of the repositories shows that this one is being read.
    Refreshing(String),
    /// The pages keep the skills that a batch failed on selected.
    BatchFinished(Vec<String>),
    /// The pages keep what a check of upstreams found; `health_only` where the page of the
    /// health alone tells it.
    ReportChecks { health_only: bool },
    /// A command of a menu is carried out by the page that the menu came from.
    MenuCommand(Box<Request>, Command),
    Record(Intent),
    Commit(Step),
    ForgetHistory,
    /// What a dialog asks of the library.
    Ask(Action),
}

pub ghost enum EffectView {
    Tell(Seq<char>, Level),
    StartNotice(u64, Seq<char>),
    /// An automatic synchronisation, of these changes.
    AutoSync(u64, Seq<String>),
    Does(Effect),
}

impl View for Effect {
    type V = EffectView;

    open spec fn view(&self) -> EffectView {
        match *self {
            Effect::Tell(text, level) => EffectView::Tell(text@, level),
            Effect::StartNotice(id, text) => EffectView::StartNotice(id, text@),
            Effect::Run(id, Task::AutoSync(changes)) => EffectView::AutoSync(id, changes@),
            other => EffectView::Does(other),
        }
    }
}

/// The effects, as contracts speak of them.
pub open spec fn effect_views(effects: Seq<Effect>) -> Seq<EffectView> {
    effects.map_values(|e: Effect| e@)
}

/// Something that the application does next.
#[derive(Debug)]
pub enum Work {
    Act { action: Action, scope: MutationScope, background: bool },
    /// What follows once all actions of an event were carried out.
    Settle,
    /// The rest of what a text that was entered stands for, and the dialog that it was
    /// entered into.
    Submit { prompt: Option<Modal>, rest: Vec<Action>, scope: MutationScope },
}

pub ghost enum WorkView {
    Act { action: Action, scope: MutationScope, background: bool },
    Settle,
    Submit { prompt: Option<ModalView>, rest: Seq<Action>, scope: MutationScope },
}

impl View for Work {
    type V = WorkView;

    open spec fn view(&self) -> WorkView {
        match *self {
            Work::Act { action, scope, background } => WorkView::Act { action, scope, background },
            Work::Settle => WorkView::Settle,
            Work::Submit { prompt, rest, scope } => WorkView::Submit {
                prompt: dialog_view(prompt),
                rest: rest@,
                scope,
            },
        }
    }
}

impl Work {
    /// Dialogs that this holds can be shown.
    pub open spec fn sound(self) -> bool {
        match self {
            Work::Act { action, .. } => action.sound(),
            Work::Settle => true,
            Work::Submit { prompt, rest, .. } => (prompt is Some ==> prompt->0.valid()) && all_sound(
                rest@,
            ),
        }
    }
}

pub open spec fn dialog_view(modal: Option<Modal>) -> Option<ModalView> {
    match modal {
        Some(modal) => Some(modal@),
        None => None,
    }
}

pub open spec fn work_views(works: Seq<Work>) -> Seq<WorkView> {
    works.map_values(|w: Work| w@)
}

impl Action {
    /// Every dialog that this action holds can be shown.
    pub open spec fn sound(self) -> bool
        decreases self,
    {
        match self {
            Action::OpenModal(modal) => modal.valid(),
            Action::Deployment(inner) => inner.sound(),
            Action::SubmitInput(actions) => forall|i: int|
                0 <= i < actions@.len() ==> (#[trigger] actions@[i]).sound(),
            _ => true,
        }
    }
}

pub open spec fn all_sound(actions: Seq<Action>) -> bool {
    forall|i: int| 0 <= i < actions.len() ==> (#[trigger] actions[i]).sound()
}

/// What the application waits for before it goes on.
#[derive(Debug)]
pub enum Waiting {
    /// A write; `submitted` where it belongs to a text that was entered. The history moves
    /// by `step` once the write went through.
    Write {
        write: Write,
        scope: MutationScope,
        meta: bool,
        submitted: bool,
        step: Option<Step>,
    },
    /// The write of a note.
    Note(Write),
    /// Whether links stand in each other's way; `confirm` where they are asked about next.
    Names { title: String, actions: Vec<PlannedLink>, confirm: bool },
    /// Links that are changed at once.
    Links { title: String, actions: Vec<PlannedLink> },
    /// Links that were confirmed.
    RunLinks { actions: Vec<PlannedLink>, step: Option<Step> },
    /// What a step of the history would do now.
    Plan(Step),
    /// The settings of the backup.
    SyncSettings,
}

} // verus!
