//! The application: which view or dialog gets an event, and what is done about the
//! requests that they hand back.

pub mod apply;
pub mod effects;
pub mod events;
pub mod footer;
pub mod header;
pub mod keys;
pub mod mouse;
pub mod order;
pub mod quit;
pub mod screen;
pub mod sound;
pub mod state;
pub mod tasks;
pub mod turns;

use crate::event::Task;
use crate::model::{Intent, LinkRequest, MutationScope, PlannedLink, Prepared, Write};
use crate::modal::Modal;
use crate::repository_picker::{InstallSelection, Resume};
use crate::sync_coordinator::ProbeReason;
use vstd::prelude::*;

verus! {

#[derive(Debug, Clone, Copy, PartialEq, Eq, Structural)]
pub enum Tab {
    Search,
    Tags,
    Presets,
    Agents,
    Repos,
    Health,
}

#[derive(Debug, Clone, Copy, PartialEq, Eq, Structural)]
pub enum AppFocus {
    Tabs,
    Page,
}

/// A key, and what it does.
pub type Hint = (&'static str, &'static str);

/// All tabs, from left to right.
pub open spec fn all_tabs() -> Seq<Tab> {
    seq![Tab::Search, Tab::Tags, Tab::Presets, Tab::Agents, Tab::Repos, Tab::Health]
}

/// The tabs that are shown: all of them, or all but the one of the tags.
pub open spec fn visible_tabs(tags_enabled: bool) -> Seq<Tab> {
    if tags_enabled {
        all_tabs()
    } else {
        seq![Tab::Search, Tab::Presets, Tab::Agents, Tab::Repos, Tab::Health]
    }
}

impl Tab {
    pub fn visible(tags_enabled: bool) -> (r: Vec<Tab>)
        ensures
            r@ == visible_tabs(tags_enabled),
    {
        let mut tabs: Vec<Tab> = Vec::new();
        tabs.push(Tab::Search);
        if tags_enabled {
            tabs.push(Tab::Tags);
        }
        tabs.push(Tab::Presets);
        tabs.push(Tab::Agents);
        tabs.push(Tab::Repos);
        tabs.push(Tab::Health);
        tabs
    }

    #[verifier::allow_in_spec]
    pub fn title(self) -> &'static str
        returns
            (match self {
                Tab::Search => "Library",
                Tab::Tags => "Tags",
                Tab::Presets => "Presets",
                Tab::Agents => "Agents",
                Tab::Health => "Health",
                Tab::Repos => "Repos",
            }),
    {
        match self {
            Tab::Search => "Library",
            Tab::Tags => "Tags",
            Tab::Presets => "Presets",
            Tab::Agents => "Agents",
            Tab::Health => "Health",
            Tab::Repos => "Repos",
        }
    }
}

/// Every tab is shown where tags are, and only their own tab is hidden where they are not.
pub proof fn lemma_only_tags_are_hidden(tab: Tab)
    ensures
        visible_tabs(true).contains(tab),
        visible_tabs(false).contains(tab) <==> tab != Tab::Tags,
{
    let all = visible_tabs(true);
    let some = visible_tabs(false);
    match tab {
        Tab::Search => {
            assert(all[0] == tab && some[0] == tab);
        },
        Tab::Tags => {
            assert(all[1] == tab);
        },
        Tab::Presets => {
            assert(all[2] == tab && some[1] == tab);
        },
        Tab::Agents => {
            assert(all[3] == tab && some[2] == tab);
        },
        Tab::Repos => {
            assert(all[4] == tab && some[3] == tab);
        },
        Tab::Health => {
            assert(all[5] == tab && some[4] == tab);
        },
    }
}

/// What a view or a dialog asks of the application.
#[derive(Debug)]
pub enum Action {
    /// Another layout for a page, both by their numbers.
    SetLayout { scope: u8, layout: u8 },
    SelectAgentSkills { keys: Vec<String>, title: String, checked: Option<String>, agent: String },
    BackToParent,
    Quit,
    SelectSkills { keys: Vec<String>, title: String, checked: Option<String> },
    Toast(String),
    Error(String),
    /// Scans again in the background.
    Rescan,
    /// Observes the backup again without blocking.
    RefreshSyncStatus { remote: bool, reason: ProbeReason },
    /// Scans again after the library was changed, and schedules its backup.
    LibraryChanged,
    /// Marks a change as one of agents only: it does not schedule a backup.
    Deployment(Box<Action>),
    Spawn(Task),
    OpenModal(Box<Modal>),
    CloseModal,
    /// Keeps the field and its cursor until everything it stands for has worked.
    SubmitInput(Vec<Action>),
    SwitchTab(Tab),
    /// Lands on a preset once the list is next loaded.
    SelectPreset(String),
    SelectTag(String),
    /// Goes to the library with this query; `focus_list` goes to its results.
    Search { query: String, focus_list: bool },
    /// Opens the note of a skill in an editor.
    EditNote(String),
    /// Changes links at once.
    ApplyLinks { title: String, actions: Vec<PlannedLink> },
    /// Asks before changing links.
    ConfirmLinks { title: String, actions: Vec<PlannedLink> },
    /// Changes links that were confirmed, and moves the history where this is a step of it.
    RunLinks { actions: Vec<PlannedLink>, step: Option<Step> },
    /// Writes, tells the result, scans again.
    Write(Write),
    /// Writes what can be taken back, and records it.
    WriteMeta(Write),
    BatchMeta(Write, Vec<String>),
    BackgroundWrite { title: String, write: Write, keys: Vec<String> },
    BatchLinks { title: String, actions: Vec<PlannedLink>, keys: Vec<String> },
    /// Plans links for the skills of a batch.
    PlanDeployment { keys: Vec<String>, changes: Vec<LinkRequest> },
    /// Records something that has happened.
    Record(Intent),
    /// Moves the history after an undo or a redo went through.
    Step(Step),
    /// Removes what was fetched for an update that is not made.
    DiscardUpdate(Box<Prepared>),
    /// Removes what was fetched for an installation that is not made.
    DiscardFetched(String),
    /// Searches the skills of a repository.
    SearchCandidates(String),
    /// Looks up suggestions for that search.
    SuggestCandidates,
    /// Goes on with what waited for that search.
    ResumeRepository(Resume),
    /// Settles the names of the skills that are to be installed.
    ResolveNames(Box<InstallSelection>),
    /// Looks up the directories that skills can be deployed to in a project.
    LoadTargets(String),
    /// The event goes to the dialog or page that the application does not own.
    Forward,
}

impl Action {
    pub fn deployment(action: Action) -> (r: Action)
        ensures
            r == Action::Deployment(Box::new(action)),
    {
        Action::Deployment(Box::new(action))
    }

    pub fn into_scoped(self) -> (r: (MutationScope, Action))
        ensures
            r == match self {
                Action::Deployment(action) => (MutationScope::Deployment, *action),
                action => (MutationScope::Library, action),
            },
    {
        match self {
            Action::Deployment(action) => (MutationScope::Deployment, *action),
            action => (MutationScope::Library, action),
        }
    }
}

/// The actions are one that tells this.
pub open spec fn tells(actions: Seq<Action>, text: Seq<char>) -> bool {
    actions.len() == 1 && (actions[0] matches Action::Toast(t) && t@ == text)
}

/// The actions are one that complains of this.
pub open spec fn complains(actions: Seq<Action>, text: Seq<char>) -> bool {
    actions.len() == 1 && (actions[0] matches Action::Error(t) && t@ == text)
}

/// The action tells this.
pub open spec fn is_toast(action: Action, text: Seq<char>) -> bool {
    action matches Action::Toast(t) && t@ == text
}

/// The action complains of this.
pub open spec fn is_error(action: Action, text: Seq<char>) -> bool {
    action matches Action::Error(t) && t@ == text
}

/// No actions.
pub fn nothing() -> (r: Vec<Action>)
    ensures
        r@ == Seq::<Action>::empty(),
{
    Vec::new()
}

/// One action.
pub fn only(action: Action) -> (r: Vec<Action>)
    ensures
        r@ == seq![action],
{
    let mut actions: Vec<Action> = Vec::new();
    actions.push(action);
    actions
}

/// One action after the other.
pub fn both(first: Action, second: Action) -> (r: Vec<Action>)
    ensures
        r@ == seq![first, second],
{
    let mut actions: Vec<Action> = Vec::new();
    actions.push(first);
    actions.push(second);
    actions
}

/// One complaint.
pub fn complain(text: &str) -> (r: Vec<Action>)
    ensures
        complains(r@, text@),
{
    only(Action::Error(text.to_owned()))
}

/// Which way the history moves once a confirmed change has been made.
#[derive(Debug, Clone, Copy, PartialEq, Eq, Structural)]
pub enum Step {
    Undo,
    Redo,
}

/// Work that needs the terminal for itself.
#[derive(Debug)]
pub enum External {
    EditNote { skill: String, initial: String },
}

pub ghost enum ExternalView {
    EditNote { skill: Seq<char>, initial: Seq<char> },
}

impl View for External {
    type V = ExternalView;

    open spec fn view(&self) -> ExternalView {
        match *self {
            External::EditNote { skill, initial } => ExternalView::EditNote {
                skill: skill@,
                initial: initial@,
            },
        }
    }
}

#[derive(Debug, Clone, Copy, PartialEq, Eq, Structural)]
pub enum Level {
    Info,
    Success,
    Error,
}

/// Every tab has a title of its own.
pub proof fn lemma_tabs_have_titles(tab: Tab)
    ensures
        tab == Tab::Search ==> tab.title()@ == "Library"@,
        tab == Tab::Tags ==> tab.title()@ == "Tags"@,
        tab == Tab::Presets ==> tab.title()@ == "Presets"@,
        tab == Tab::Agents ==> tab.title()@ == "Agents"@,
        tab == Tab::Repos ==> tab.title()@ == "Repos"@,
        tab == Tab::Health ==> tab.title()@ == "Health"@,
{
}

/// The tabs stand in one order, with the tags second where they are shown.
pub proof fn lemma_the_order_of_the_tabs(tags_enabled: bool)
    ensures
        tags_enabled ==> visible_tabs(tags_enabled) == seq![
            Tab::Search,
            Tab::Tags,
            Tab::Presets,
            Tab::Agents,
            Tab::Repos,
            Tab::Health,
        ],
        !tags_enabled ==> visible_tabs(tags_enabled) == seq![
            Tab::Search,
            Tab::Presets,
            Tab::Agents,
            Tab::Repos,
            Tab::Health,
        ],
{
    let tabs = visible_tabs(tags_enabled);
    if tags_enabled {
        assert(tabs =~= seq![
            Tab::Search,
            Tab::Tags,
            Tab::Presets,
            Tab::Agents,
            Tab::Repos,
            Tab::Health,
        ]);
    } else {
        assert(tabs =~= seq![
            Tab::Search,
            Tab::Presets,
            Tab::Agents,
            Tab::Repos,
            Tab::Health,
        ]);
    }
}

} // verus!
