//! What is done about the requests that views and dialogs hand back.

use crate::app::effects::{
    all_sound, work_views, Effect, EffectView, Waiting, Work, WorkView,
};
use crate::app::quit::QuitPrompt;
use crate::app::state::{App, AppView, PageFacts};
use crate::app::{Action, AppFocus, External, ExternalView, Level, Step, Tab};
use crate::event::{BatchWork, Task};
use crate::modal::{Modal, ModalView};
use crate::model::{MutationScope, Snapshot, Write};
use crate::text::{cat3, decimal, numeral};
use vstd::prelude::*;

verus! {

/// The action writes, so that it has to wait for what is being written.
pub open spec fn is_writing(action: Action) -> bool {
    match action {
        Action::Write(_) => true,
        Action::Spawn(_) => true,
        Action::EditNote(_) => true,
        Action::WriteMeta(_) => true,
        Action::SubmitInput(_) => true,
        Action::ApplyLinks { .. } => true,
        Action::BatchMeta(_, _) => true,
        Action::BatchLinks { .. } => true,
        Action::BackgroundWrite { .. } => true,
        _ => false,
    }
}

fn writes(action: &Action) -> (r: bool)
    ensures
        r == is_writing(*action),
{
    matches!(
        action,
        Action::Write(_) | Action::Spawn(_) | Action::EditNote(_) | Action::WriteMeta(_)
            | Action::SubmitInput(_) | Action::ApplyLinks { .. } | Action::BatchMeta(_, _)
            | Action::BatchLinks { .. } | Action::BackgroundWrite { .. }
    )
}

/// What an action is about.
#[derive(Debug, Clone, Copy, PartialEq, Eq, Structural)]
pub enum ActionSort {
    /// What is shown.
    View,
    /// Notices, work beside the interface, the history.
    Work,
    /// The library or its links.
    Write,
    /// What only the library can do.
    Outside,
}

pub open spec fn sort_of(action: Action) -> ActionSort {
    match action {
        Action::SetLayout { .. } => ActionSort::View,
        Action::SelectAgentSkills { .. } => ActionSort::View,
        Action::SelectSkills { .. } => ActionSort::View,
        Action::BackToParent => ActionSort::View,
        Action::OpenModal(_) => ActionSort::View,
        Action::CloseModal => ActionSort::View,
        Action::SwitchTab(_) => ActionSort::View,
        Action::SelectPreset(_) => ActionSort::View,
        Action::SelectTag(_) => ActionSort::View,
        Action::Search { .. } => ActionSort::View,
        Action::Quit => ActionSort::Work,
        Action::Toast(_) => ActionSort::Work,
        Action::Error(_) => ActionSort::Work,
        Action::Rescan => ActionSort::Work,
        Action::RefreshSyncStatus { .. } => ActionSort::Work,
        Action::LibraryChanged => ActionSort::Work,
        Action::Spawn(_) => ActionSort::Work,
        Action::SubmitInput(_) => ActionSort::Work,
        Action::EditNote(_) => ActionSort::Work,
        Action::Record(_) => ActionSort::Work,
        Action::Step(_) => ActionSort::Work,
        Action::ApplyLinks { .. } => ActionSort::Write,
        Action::ConfirmLinks { .. } => ActionSort::Write,
        Action::RunLinks { .. } => ActionSort::Write,
        Action::Write(_) => ActionSort::Write,
        Action::WriteMeta(_) => ActionSort::Write,
        Action::BatchMeta(_, _) => ActionSort::Write,
        Action::BackgroundWrite { .. } => ActionSort::Write,
        Action::BatchLinks { .. } => ActionSort::Write,
        _ => ActionSort::Outside,
    }
}

fn sort(action: &Action) -> (r: ActionSort)
    ensures
        r == sort_of(*action),
{
    match action {
        Action::SetLayout { .. }
        | Action::SelectAgentSkills { .. }
        | Action::SelectSkills { .. }
        | Action::BackToParent
        | Action::OpenModal(_)
        | Action::CloseModal
        | Action::SwitchTab(_)
        | Action::SelectPreset(_)
        | Action::SelectTag(_)
        | Action::Search { .. } => ActionSort::View,
        Action::Quit
        | Action::Toast(_)
        | Action::Error(_)
        | Action::Rescan
        | Action::RefreshSyncStatus { .. }
        | Action::LibraryChanged
        | Action::Spawn(_)
        | Action::SubmitInput(_)
        | Action::EditNote(_)
        | Action::Record(_)
        | Action::Step(_) => ActionSort::Work,
        Action::ApplyLinks { .. }
        | Action::ConfirmLinks { .. }
        | Action::RunLinks { .. }
        | Action::Write(_)
        | Action::WriteMeta(_)
        | Action::BatchMeta(_, _)
        | Action::BackgroundWrite { .. }
        | Action::BatchLinks { .. } => ActionSort::Write,
        _ => ActionSort::Outside,
    }
}

/// The action shows something, so that finished work has to wait with it.
pub open spec fn is_showing(action: Action) -> bool {
    action is OpenModal || action is Search
}

/// The note of a skill.
pub open spec fn note_of(snap: Snapshot, skill: Seq<char>) -> Seq<char> {
    match snap.skill_at(skill) {
        Some(i) => match snap.skills@[i].note {
            Some(note) => note@,
            None => ""@,
        },
        None => ""@,
    }
}

/// What is shown once a dialog closes: where a message came from.
pub open spec fn behind(modal: Option<ModalView>) -> Option<ModalView> {
    match modal {
        Some(ModalView::Message(message)) => match message.return_to {
            Some(modal) => Some(modal@),
            None => None,
        },
        _ => None,
    }
}

/// What is told where an action has to wait.
pub open spec fn busy_text() -> Seq<char> {
    "An operation is still running; retry when it finishes"@
}

/// The step of the history that is to be taken right behind a write.
pub open spec fn next_step(todo: Seq<WorkView>) -> Option<Step> {
    if todo.len() > 0 {
        match todo[0] {
            WorkView::Act { action: Action::Step(step), .. } => Some(step),
            _ => None,
        }
    } else {
        None
    }
}

/// What is to be done behind such a step.
pub open spec fn past_step(todo: Seq<WorkView>) -> Seq<WorkView> {
    if next_step(todo) is Some {
        todo.skip(1)
    } else {
        todo
    }
}

impl AppView {
    /// The action cannot be carried out now.
    pub open spec fn refuses(self, action: Action, scope: MutationScope) -> bool {
        is_writing(action) && (self.batch_running || (self.sync.switching() && scope
            == MutationScope::Library))
    }

    /// A write begins. The step of the history that follows it waits for its answer.
    pub open spec fn wrote(self, write: Write, scope: MutationScope, meta: bool) -> AppView {
        AppView {
            waiting: Some(
                Waiting::Write { write, scope, meta, submitted: false, step: next_step(self.todo) },
            ),
            todo: past_step(self.todo),
            ..self
        }
    }

    /// An action has to wait, which is told. A step of the history that follows it is not
    /// taken.
    pub open spec fn refused(self) -> AppView {
        AppView { todo: past_step(self.todo), ..self }.told(busy_text(), Level::Info)
    }

    /// The application quits, or asks first where work is running.
    #[verifier::opaque]
    pub open spec fn quitting(self, facts: PageFacts) -> AppView {
        let next = self.synced_if_ready(facts);
        if next.tasks_running == 0 {
            AppView { quit: true, ..next }
        } else {
            AppView { quit_prompt: Some(QuitPrompt::new(next.sync.syncing())), ..next }
        }
    }

    /// An action that changes what is shown.
    #[verifier::opaque]
    pub open spec fn view_changed(self, action: Action) -> AppView {
        match action {
            Action::SetLayout { scope, layout } => self.does(Effect::SetLayout { scope, layout }),
            Action::SelectAgentSkills { keys, title, checked, agent } => self.switched(
                Tab::Search,
            ).does(Effect::SelectScope { keys, title, checked }).does(
                Effect::RestrictAgent(agent),
            ),
            Action::SelectSkills { keys, title, checked } => self.switched(Tab::Search).does(
                Effect::SelectScope { keys, title, checked },
            ),
            Action::BackToParent => AppView { focus: AppFocus::Tabs, ..self },
            Action::OpenModal(modal) => AppView {
                modal: Some((*modal)@),
                ..self.without_menus()
            },
            Action::CloseModal => AppView { modal: behind(self.modal), ..self },
            Action::SwitchTab(tab) => AppView { focus: AppFocus::Tabs, ..self.switched(tab) },
            Action::SelectPreset(name) => self.does(Effect::SelectPreset(name)),
            Action::SelectTag(name) => self.does(Effect::SelectTag(name)),
            Action::Search { query, focus_list } => AppView {
                focus: AppFocus::Page,
                ..self
            }.switched(Tab::Search).does(Effect::SetQuery { query, focus_list }),
            _ => self,
        }
    }

    /// An action about notices, about work beside the interface or about the history.
    #[verifier::opaque]
    pub open spec fn work_done(self, action: Action, scope: MutationScope, facts: PageFacts) -> AppView {
        match action {
            Action::Quit => self.quitting(facts),
            Action::Toast(text) => self.told(text@, Level::Success),
            Action::Error(text) => self.told(text@, Level::Error),
            Action::Rescan => self.rescanned(),
            Action::RefreshSyncStatus { remote, reason } => self.observing(
                remote,
                reason,
                facts.now,
            ),
            Action::LibraryChanged => self.library_changed(facts.now),
            Action::Spawn(task) => match task {
                Task::RefreshRepository(alias) => self.does(Effect::Refreshing(alias)).spawned(task),
                _ => self.spawned(task),
            },
            Action::SubmitInput(actions) => AppView {
                modal: None,
                todo: seq![
                    WorkView::Submit { prompt: self.modal, rest: actions@, scope },
                ] + self.todo,
                ..self
            },
            Action::EditNote(skill) => AppView {
                external: Some(
                    ExternalView::EditNote { skill: skill@, initial: note_of(self.snap, skill@) },
                ),
                ..self
            },
            Action::Record(intent) => self.does(Effect::Record(intent)),
            Action::Step(step) => self.does(Effect::Commit(step)),
            _ => self,
        }
    }

    /// An action that writes, or changes links.
    #[verifier::opaque]
    pub open spec fn write_begun(self, action: Action, scope: MutationScope) -> AppView {
        match action {
            Action::ApplyLinks { title, actions } => AppView {
                waiting: Some(Waiting::Names { title, actions, confirm: false }),
                ..self
            },
            Action::ConfirmLinks { title, actions } => AppView {
                waiting: Some(Waiting::Names { title, actions, confirm: true }),
                ..self
            },
            Action::RunLinks { actions, step } => AppView {
                waiting: Some(Waiting::RunLinks { actions, step }),
                ..self
            },
            Action::Write(write) => self.wrote(write, scope, false),
            Action::WriteMeta(write) => self.wrote(write, scope, true),
            Action::BatchMeta(write, keys) => self.batch_started(
                BatchWork::Metadata(scope, write, keys),
                "Applying metadata to "@ + numeral(keys@.len() as int) + " skills…"@,
            ),
            Action::BackgroundWrite { title, write, keys } => self.batch_started(
                BatchWork::Metadata(scope, write, keys),
                title@,
            ),
            Action::BatchLinks { title, actions, keys } => self.batch_started(
                BatchWork::Links(actions, keys),
                title@,
            ),
            _ => self,
        }
    }

    /// The action is carried out.
    pub open spec fn carried_out(self, action: Action, scope: MutationScope, facts: PageFacts) -> AppView {
        match sort_of(action) {
            ActionSort::View => self.view_changed(action),
            ActionSort::Work => self.work_done(action, scope, facts),
            ActionSort::Write => self.write_begun(action, scope),
            ActionSort::Outside => self.does(Effect::Ask(action)),
        }
    }

    /// The action is carried out, or has to wait.
    #[verifier::opaque]
    pub open spec fn applied(self, action: Action, scope: MutationScope, facts: PageFacts) -> AppView
        decreases action,
    {
        match action {
            Action::Deployment(inner) => self.applied(*inner, MutationScope::Deployment, facts),
            _ => if self.refuses(action, scope) {
                self.refused()
            } else {
                self.carried_out(action, scope, facts)
            },
        }
    }
}

// ---- carrying out ------------------------------------------------------------

impl App {
    fn close_modal(&mut self)
        requires
            old(self).valid(),
        ensures
            final(self)@ == (AppView { modal: behind(old(self)@.modal), ..old(self)@ }),
            final(self).valid(),
    {
        reveal(App::valid);
        match self.modal.take() {
            Some(Modal::Message(message)) => {
                let message = *message;
                self.modal = match message.return_to {
                    Some(modal) => Some(*modal),
                    None => None,
                };
            },
            _ => {},
        }
    }

    fn open_modal(&mut self, modal: Modal)
        requires
            old(self).valid(),
            modal.valid(),
        ensures
            final(self)@ == (AppView { modal: Some(modal@), ..old(self)@.without_menus() }),
            final(self).valid(),
    {
        reveal(App::valid);
        self.close_menus();
        self.modal = Some(modal);
    }

    fn submit_input(&mut self, actions: Vec<Action>, scope: MutationScope)
        requires
            old(self).valid(),
            all_sound(actions@),
        ensures
            final(self)@ == (AppView {
                modal: None,
                todo: seq![
                    WorkView::Submit { prompt: old(self)@.modal, rest: actions@, scope },
                ] + old(self)@.todo,
                ..old(self)@
            }),
            final(self).valid(),
    {
        reveal(App::valid);
        let prompt = self.modal.take();
        let work = Work::Submit { prompt, rest: actions, scope };
        let ghost before = self.todo@;
        self.todo.insert(0, work);
        assert(work_views(self.todo@) =~= seq![work@] + work_views(before));
        assert forall|i: int| 0 <= i < self.todo@.len() implies (#[trigger] self.todo@[i]).sound() by {
            if i > 0 {
                assert(self.todo@[i] == before[i - 1]);
            }
        }
    }

    fn quit_or_ask(&mut self, facts: PageFacts)
        requires
            old(self).valid(),
        ensures
            final(self)@ == old(self)@.quitting(facts),
            final(self).valid(),
    {
        reveal(AppView::quitting);
        reveal(App::valid);
        self.sync_if_ready(facts);
        if self.tasks_running == 0 {
            self.quit = true;
        } else {
            self.quit_prompt = Some(QuitPrompt::new(self.sync.syncing()));
        }
    }

    fn edit_note(&mut self, skill: String)
        requires
            old(self).valid(),
        ensures
            final(self)@ == (AppView {
                external: Some(
                    ExternalView::EditNote {
                        skill: skill@,
                        initial: note_of(old(self)@.snap, skill@),
                    },
                ),
                ..old(self)@
            }),
            final(self).valid(),
    {
        reveal(App::valid);
        let initial = match self.snap.find(skill.as_str()) {
            Some(i) => match &self.snap.skills[i].note {
                Some(note) => note.clone(),
                None => "".to_owned(),
            },
            None => "".to_owned(),
        };
        self.external = Some(External::EditNote { skill, initial });
    }

    #[verifier::rlimit(50)]
    fn change_view(&mut self, action: Action)
        requires
            old(self).valid(),
            action.sound(),
        ensures
            final(self)@ == old(self)@.view_changed(action),
            final(self).valid(),
    {
        reveal(AppView::view_changed);
        match action {
            Action::SetLayout { scope, layout } => self.emit(Effect::SetLayout { scope, layout }),
            Action::SelectAgentSkills { keys, title, checked, agent } => {
                self.switch_tab(Tab::Search);
                self.emit(Effect::SelectScope { keys, title, checked });
                self.emit(Effect::RestrictAgent(agent));
            },
            Action::SelectSkills { keys, title, checked } => {
                self.switch_tab(Tab::Search);
                self.emit(Effect::SelectScope { keys, title, checked });
            },
            Action::BackToParent => self.take_focus(AppFocus::Tabs),
            Action::OpenModal(modal) => self.open_modal(*modal),
            Action::CloseModal => self.close_modal(),
            Action::SwitchTab(tab) => {
                self.switch_tab(tab);
                self.take_focus(AppFocus::Tabs);
            },
            Action::SelectPreset(name) => self.emit(Effect::SelectPreset(name)),
            Action::SelectTag(name) => self.emit(Effect::SelectTag(name)),
            Action::Search { query, focus_list } => {
                self.take_focus(AppFocus::Page);
                self.switch_tab(Tab::Search);
                self.emit(Effect::SetQuery { query, focus_list });
            },
            _ => {},
        }
    }

    fn do_work(&mut self, action: Action, scope: MutationScope, facts: PageFacts)
        requires
            old(self).valid(),
            action.sound(),
            facts.timely(),
        ensures
            final(self)@ == old(self)@.work_done(action, scope, facts),
            final(self).valid(),
    {
        reveal(AppView::work_done);
        match action {
            Action::Quit => self.quit_or_ask(facts),
            Action::Toast(text) => self.toast(text, Level::Success),
            Action::Error(text) => self.toast(text, Level::Error),
            Action::Rescan => self.rescan(),
            Action::RefreshSyncStatus { remote, reason } => self.refresh_sync_status(
                remote,
                reason,
                facts.now,
            ),
            Action::LibraryChanged => self.library_changed(facts.now),
            Action::Spawn(task) => {
                match &task {
                    Task::RefreshRepository(alias) => {
                        let name = alias.clone();
                        self.emit(Effect::Refreshing(name));
                    },
                    _ => {},
                }
                self.spawn(task);
            },
            Action::SubmitInput(actions) => {
                assert(all_sound(actions@));
                self.submit_input(actions, scope);
            },
            Action::EditNote(skill) => self.edit_note(skill),
            Action::Record(intent) => self.emit(Effect::Record(intent)),
            Action::Step(step) => self.emit(Effect::Commit(step)),
            _ => {},
        }
    }

    /// Takes the step of the history that follows a write out of what is to be done.
    fn take_step(&mut self) -> (r: Option<Step>)
        requires
            old(self).valid(),
        ensures
            final(self)@ == (AppView { todo: past_step(old(self)@.todo), ..old(self)@ }),
            r == next_step(old(self)@.todo),
            final(self).valid(),
    {
        if self.todo.len() == 0 {
            return None;
        }
        let ghost before = self.todo@;
        assert(self@.todo[0] == before[0]@);
        let step = match &self.todo[0] {
            Work::Act { action: Action::Step(step), .. } => Some(*step),
            _ => None,
        };
        if step.is_some() {
            reveal(App::valid);
            let _ = self.todo.remove(0);
            assert(work_views(self.todo@) =~= work_views(before).skip(1));
            assert forall|i: int| 0 <= i < self.todo@.len() implies (
            #[trigger] self.todo@[i]).sound() by {
                assert(self.todo@[i] == before[i + 1]);
            }
        }
        step
    }

    fn wait_for_write(&mut self, write: Write, scope: MutationScope, meta: bool)
        requires
            old(self).valid(),
        ensures
            final(self)@ == old(self)@.wrote(write, scope, meta),
            final(self).valid(),
    {
        let step = self.take_step();
        self.wait(Waiting::Write { write, scope, meta, submitted: false, step });
    }

    fn begin_write(&mut self, action: Action, scope: MutationScope)
        requires
            old(self).valid(),
        ensures
            final(self)@ == old(self)@.write_begun(action, scope),
            final(self).valid(),
    {
        reveal(AppView::write_begun);
        match action {
            Action::ApplyLinks { title, actions } => {
                self.wait(Waiting::Names { title, actions, confirm: false });
            },
            Action::ConfirmLinks { title, actions } => {
                self.wait(Waiting::Names { title, actions, confirm: true });
            },
            Action::RunLinks { actions, step } => self.wait(Waiting::RunLinks { actions, step }),
            Action::Write(write) => self.wait_for_write(write, scope, false),
            Action::WriteMeta(write) => self.wait_for_write(write, scope, true),
            Action::BatchMeta(write, keys) => {
                let title = cat3(
                    "Applying metadata to ",
                    decimal(keys.len()).as_str(),
                    " skills…",
                );
                self.spawn_batch(BatchWork::Metadata(scope, write, keys), title);
            },
            Action::BackgroundWrite { title, write, keys } => {
                self.spawn_batch(BatchWork::Metadata(scope, write, keys), title);
            },
            Action::BatchLinks { title, actions, keys } => {
                self.spawn_batch(BatchWork::Links(actions, keys), title);
            },
            _ => {},
        }
    }

    fn carry_out(&mut self, action: Action, scope: MutationScope, facts: PageFacts)
        requires
            old(self).valid(),
            action.sound(),
            facts.timely(),
        ensures
            final(self)@ == old(self)@.carried_out(action, scope, facts),
            final(self).valid(),
    {
        match sort(&action) {
            ActionSort::View => self.change_view(action),
            ActionSort::Work => self.do_work(action, scope, facts),
            ActionSort::Write => self.begin_write(action, scope),
            ActionSort::Outside => self.emit(Effect::Ask(action)),
        }
    }

    /// Carries out an action, or says that it has to wait.
    pub fn apply_scoped(&mut self, action: Action, scope: MutationScope, facts: PageFacts)
        requires
            old(self).valid(),
            action.sound(),
            facts.timely(),
        ensures
            final(self)@ == old(self)@.applied(action, scope, facts),
            final(self).valid(),
        decreases action,
    {
        reveal(AppView::applied);
        match action {
            Action::Deployment(inner) => {
                self.apply_scoped(*inner, MutationScope::Deployment, facts);
            },
            other => {
                if writes(&other) && (self.batch_running || (self.sync.switching() && scope
                    == MutationScope::Library)) {
                    let _ = self.take_step();
                    self.tell(
                        "An operation is still running; retry when it finishes",
                        Level::Info,
                    );
                } else {
                    self.carry_out(other, scope, facts);
                }
            },
        }
    }
}

// ---- laws --------------------------------------------------------------------

/// Each tab can be switched to, and the tabs have the focus then. The library gives up its
/// selection, and the page is entered; where the tab was shown before, nothing is entered.
pub proof fn lemma_a_tab_is_switched_to(
    app: AppView,
    tab: Tab,
    scope: MutationScope,
    facts: PageFacts,
)
    requires
        app.tags_enabled || tab != Tab::Tags,
    ensures
        ({
            let after = app.applied(Action::SwitchTab(tab), scope, facts);
            &&& after.tab == tab
            &&& after.focus == AppFocus::Tabs
            &&& after.context_menu is None
            &&& after.command_palette is None
            &&& after.modal == app.modal
            &&& tab == app.tab ==> after.effects == app.effects
            &&& tab != app.tab ==> {
                &&& after.effects.len() >= app.effects.len() + 2
                &&& after.effects[app.effects.len() as int] == EffectView::Does(
                    Effect::ResetLibrary,
                )
                &&& after.effects.last() == EffectView::Does(Effect::EnterPage(tab))
            }
            &&& tab == Tab::Agents && app.tab != Tab::Agents && app.agents_dirty ==> {
                &&& !after.agents_dirty
                &&& after.effects[app.effects.len() as int + 1] == EffectView::Does(
                    Effect::RefreshPage(Tab::Agents),
                )
            }
            &&& !(tab == Tab::Agents && app.tab != Tab::Agents && app.agents_dirty)
                ==> after.agents_dirty == app.agents_dirty
        }),
{
    reveal(AppView::applied);
    reveal(AppView::view_changed);
    reveal(AppView::switched);
}

/// A search shows the library with that query, the page having the focus; skills that are
/// picked out are shown there too.
pub proof fn lemma_the_library_shows_what_was_asked(
    app: AppView,
    query: String,
    focus_list: bool,
    keys: Vec<String>,
    title: String,
    checked: Option<String>,
    agent: String,
    scope: MutationScope,
    facts: PageFacts,
)
    ensures
        ({
            let after = app.applied(Action::Search { query, focus_list }, scope, facts);
            &&& after.tab == Tab::Search
            &&& after.focus == AppFocus::Page
            &&& after.effects.last() == EffectView::Does(Effect::SetQuery { query, focus_list })
        }),
        ({
            let after = app.applied(Action::SelectSkills { keys, title, checked }, scope, facts);
            &&& after.tab == Tab::Search
            &&& after.effects.last() == EffectView::Does(
                Effect::SelectScope { keys, title, checked },
            )
        }),
        ({
            let after = app.applied(
                Action::SelectAgentSkills { keys, title, checked, agent },
                scope,
                facts,
            );
            let n = after.effects.len() as int;
            &&& after.tab == Tab::Search
            &&& n >= 2
            &&& after.effects[n - 2] == EffectView::Does(
                Effect::SelectScope { keys, title, checked },
            )
            &&& after.effects[n - 1] == EffectView::Does(Effect::RestrictAgent(agent))
        }),
{
    reveal(AppView::applied);
    reveal(AppView::view_changed);
    reveal(AppView::switched);
}

/// A dialog that is opened is shown, without the menus. A dialog that is closed is gone; a
/// message leads back to where it came from.
pub proof fn lemma_dialogs_open_and_close(
    app: AppView,
    modal: Modal,
    scope: MutationScope,
    facts: PageFacts,
)
    ensures
        ({
            let after = app.applied(Action::OpenModal(Box::new(modal)), scope, facts);
            &&& after.modal == Some(modal@)
            &&& after.context_menu is None
            &&& after.command_palette is None
            &&& after.tab == app.tab
            &&& after.focus == app.focus
            &&& after.effects == app.effects
        }),
        ({
            let after = app.applied(Action::CloseModal, scope, facts);
            &&& !(app.modal is Some && app.modal->0 is Message) ==> after.modal is None
            &&& app.modal is Some && app.modal->0 is Message && app.modal->0->Message_0.return_to
                is None ==> after.modal is None
            &&& app.modal is Some && app.modal->0 is Message && app.modal->0->Message_0.return_to
                is Some ==> after.modal == Some((app.modal->0->Message_0.return_to->0)@)
            &&& after.effects == app.effects
            &&& after.tab == app.tab
        }),
        app.applied(Action::BackToParent, scope, facts) == (AppView {
            focus: AppFocus::Tabs,
            ..app
        }),
{
    reveal(AppView::applied);
    reveal(AppView::view_changed);
}

/// What is told is told once, as what it is: a success, or an error.
pub proof fn lemma_notices_are_shown(
    app: AppView,
    text: String,
    scope: MutationScope,
    facts: PageFacts,
)
    ensures
        app.applied(Action::Toast(text), scope, facts) == (AppView {
            effects: app.effects.push(EffectView::Tell(text@, Level::Success)),
            ..app
        }),
        app.applied(Action::Error(text), scope, facts) == (AppView {
            effects: app.effects.push(EffectView::Tell(text@, Level::Error)),
            ..app
        }),
{
    reveal(AppView::applied);
    reveal(AppView::work_done);
}

/// What is recorded goes to the history, and a step is taken in the direction it names.
pub proof fn lemma_the_history_is_kept(
    app: AppView,
    intent: crate::model::Intent,
    step: Step,
    scope: MutationScope,
    facts: PageFacts,
)
    ensures
        app.applied(Action::Record(intent), scope, facts) == (AppView {
            effects: app.effects.push(EffectView::Does(Effect::Record(intent))),
            ..app
        }),
        app.applied(Action::Step(step), scope, facts) == (AppView {
            effects: app.effects.push(EffectView::Does(Effect::Commit(step))),
            ..app
        }),
{
    reveal(AppView::applied);
    reveal(AppView::work_done);
}

/// A preset, a tag and a layout are handed to the pages as they were named.
pub proof fn lemma_pages_are_told_what_to_show(
    app: AppView,
    name: String,
    scope: MutationScope,
    facts: PageFacts,
    place: u8,
    layout: u8,
)
    ensures
        app.applied(Action::SelectPreset(name), scope, facts) == (AppView {
            effects: app.effects.push(EffectView::Does(Effect::SelectPreset(name))),
            ..app
        }),
        app.applied(Action::SelectTag(name), scope, facts) == (AppView {
            effects: app.effects.push(EffectView::Does(Effect::SelectTag(name))),
            ..app
        }),
        app.applied(Action::SetLayout { scope: place, layout }, scope, facts) == (AppView {
            effects: app.effects.push(
                EffectView::Does(Effect::SetLayout { scope: place, layout }),
            ),
            ..app
        }),
{
    reveal(AppView::applied);
    reveal(AppView::view_changed);
}

/// While a batch runs nothing is written, no work is started and no text is taken: that is
/// told, and a step of the history that would follow is not taken.
pub proof fn lemma_nothing_is_written_during_a_batch(
    app: AppView,
    action: Action,
    scope: MutationScope,
    facts: PageFacts,
)
    requires
        app.batch_running,
        action is Write || action is WriteMeta || action is Spawn || action is EditNote
            || action is SubmitInput || action is ApplyLinks || action is BatchMeta
            || action is BatchLinks || action is BackgroundWrite,
    ensures
        ({
            let after = app.applied(action, scope, facts);
            &&& after.effects == app.effects.push(
                EffectView::Tell(
                    "An operation is still running; retry when it finishes"@,
                    Level::Info,
                ),
            )
            &&& after.waiting == app.waiting
            &&& after.modal == app.modal
            &&& after.tasks_running == app.tasks_running
            &&& after.external == app.external
        }),
{
    reveal(AppView::applied);
}

/// Nothing else has to wait for a batch.
pub proof fn lemma_a_batch_does_not_stop_the_rest(
    app: AppView,
    action: Action,
    scope: MutationScope,
    facts: PageFacts,
)
    requires
        !(action is Write || action is WriteMeta || action is Spawn || action is EditNote
            || action is SubmitInput || action is ApplyLinks || action is BatchMeta
            || action is BatchLinks || action is BackgroundWrite || action is Deployment),
    ensures
        app.applied(action, scope, facts) == app.carried_out(action, scope, facts),
{
    reveal(AppView::applied);
}

/// A write is waited for as it was asked for, in its own scope, and remembers the step of
/// the history that stands right behind it, which is not taken before the answer.
pub proof fn lemma_a_write_is_waited_for(
    app: AppView,
    write: Write,
    step: Step,
    rest: Seq<WorkView>,
    scope: MutationScope,
    inner: MutationScope,
    background: bool,
    facts: PageFacts,
)
    requires
        !app.batch_running,
        scope == MutationScope::Deployment || !app.sync.switching(),
        app.todo == seq![WorkView::Act { action: Action::Step(step), scope: inner, background }]
            + rest,
    ensures
        app.applied(Action::Write(write), scope, facts) == (AppView {
            waiting: Some(
                Waiting::Write { write, scope, meta: false, submitted: false, step: Some(step) },
            ),
            todo: rest,
            ..app
        }),
        app.applied(Action::WriteMeta(write), scope, facts) == (AppView {
            waiting: Some(
                Waiting::Write { write, scope, meta: true, submitted: false, step: Some(step) },
            ),
            todo: rest,
            ..app
        }),
{
    reveal(AppView::applied);
    reveal(AppView::write_begun);
    assert(app.todo.skip(1) =~= rest);
}

/// A write with no step behind it leaves what is still to be done alone.
pub proof fn lemma_a_write_alone_is_waited_for(
    app: AppView,
    write: Write,
    scope: MutationScope,
    facts: PageFacts,
)
    requires
        !app.batch_running,
        scope == MutationScope::Deployment || !app.sync.switching(),
        app.todo.len() == 0 || !(app.todo[0] is Act) || !(app.todo[0]->Act_action is Step),
    ensures
        app.applied(Action::Write(write), scope, facts) == (AppView {
            waiting: Some(
                Waiting::Write { write, scope, meta: false, submitted: false, step: None },
            ),
            ..app
        }),
        app.applied(Action::WriteMeta(write), scope, facts) == (AppView {
            waiting: Some(
                Waiting::Write { write, scope, meta: true, submitted: false, step: None },
            ),
            ..app
        }),
{
    reveal(AppView::applied);
    reveal(AppView::write_begun);
}

/// Links are looked at for names that stand in each other's way before they are changed or
/// asked about; those that were confirmed are changed at once, with the step they belong to.
pub proof fn lemma_links_are_checked_first(
    app: AppView,
    title: String,
    actions: Vec<crate::model::PlannedLink>,
    step: Option<Step>,
    scope: MutationScope,
    facts: PageFacts,
)
    ensures
        !app.batch_running && (scope == MutationScope::Deployment || !app.sync.switching())
            ==> app.applied(Action::ApplyLinks { title, actions }, scope, facts).waiting == Some(
            Waiting::Names { title, actions, confirm: false },
        ),
        app.applied(Action::ConfirmLinks { title, actions }, scope, facts).waiting == Some(
            Waiting::Names { title, actions, confirm: true },
        ),
        app.applied(Action::RunLinks { actions, step }, scope, facts).waiting == Some(
            Waiting::RunLinks { actions, step },
        ),
{
    reveal(AppView::applied);
    reveal(AppView::write_begun);
}

/// A batch starts with the work that was asked for and a notice of its own, once; its
/// dialog shows that it is busy.
pub proof fn lemma_a_batch_is_started(
    app: AppView,
    write: Write,
    actions: Vec<crate::model::PlannedLink>,
    keys: Vec<String>,
    title: String,
    scope: MutationScope,
    facts: PageFacts,
)
    requires
        !app.batch_running,
        scope == MutationScope::Deployment || !app.sync.switching(),
        app.next_task_id < u64::MAX,
        app.tasks_running < usize::MAX,
    ensures
        ({
            let after = app.applied(Action::BatchMeta(write, keys), scope, facts);
            let id = (app.next_task_id + 1) as u64;
            &&& after.batch_running
            &&& after.next_task_id == id
            &&& after.tasks_running == app.tasks_running + 1
            &&& after.effects == app.effects.push(
                EffectView::StartNotice(
                    id,
                    "Applying metadata to "@ + numeral(keys@.len() as int) + " skills…"@,
                ),
            ).push(
                EffectView::Does(Effect::RunBatch(id, BatchWork::Metadata(scope, write, keys))),
            )
        }),
        ({
            let after = app.applied(Action::BackgroundWrite { title, write, keys }, scope, facts);
            let id = (app.next_task_id + 1) as u64;
            &&& after.batch_running
            &&& after.effects == app.effects.push(EffectView::StartNotice(id, title@)).push(
                EffectView::Does(Effect::RunBatch(id, BatchWork::Metadata(scope, write, keys))),
            )
        }),
        ({
            let after = app.applied(Action::BatchLinks { title, actions, keys }, scope, facts);
            let id = (app.next_task_id + 1) as u64;
            &&& after.batch_running
            &&& after.effects == app.effects.push(EffectView::StartNotice(id, title@)).push(
                EffectView::Does(Effect::RunBatch(id, BatchWork::Links(actions, keys))),
            )
        }),
{
    reveal(AppView::applied);
    reveal(AppView::write_begun);
    reveal(AppView::batch_started);
}

/// What concerns deployments only is carried out in that scope, whatever scope it came in.
pub proof fn lemma_deployments_keep_their_scope(
    app: AppView,
    inner: Action,
    scope: MutationScope,
    facts: PageFacts,
)
    ensures
        app.applied(Action::Deployment(Box::new(inner)), scope, facts) == app.applied(
            inner,
            MutationScope::Deployment,
            facts,
        ),
{
    reveal_with_fuel(AppView::applied, 2);
}

/// The editor is opened with the note that the skill has.
pub proof fn lemma_the_editor_gets_the_note(
    app: AppView,
    skill: String,
    scope: MutationScope,
    facts: PageFacts,
    i: int,
)
    requires
        !app.batch_running,
        scope == MutationScope::Deployment || !app.sync.switching(),
        app.snap.skill_at(skill@) == Some(i),
    ensures
        ({
            let after = app.applied(Action::EditNote(skill), scope, facts);
            &&& after.external is Some
            &&& after.external->0 is EditNote
            &&& after.external->0->EditNote_skill == skill@
            &&& app.snap.skills@[i].note is Some ==> after.external->0->EditNote_initial
                == app.snap.skills@[i].note->0@
            &&& app.snap.skills@[i].note is None ==> after.external->0->EditNote_initial == ""@
            &&& after.waiting == app.waiting
        }),
{
    reveal(AppView::applied);
    reveal(AppView::work_done);
}

/// A text that was entered takes its dialog away and is done next, part by part; the dialog
/// is kept to come back to.
pub proof fn lemma_an_entered_text_is_done_next(
    app: AppView,
    actions: Vec<Action>,
    scope: MutationScope,
    facts: PageFacts,
)
    requires
        !app.batch_running,
        scope == MutationScope::Deployment || !app.sync.switching(),
    ensures
        ({
            let after = app.applied(Action::SubmitInput(actions), scope, facts);
            &&& after.modal is None
            &&& after.todo == seq![WorkView::Submit { prompt: app.modal, rest: actions@, scope }]
                + app.todo
            &&& after.effects == app.effects
        }),
{
    reveal(AppView::applied);
    reveal(AppView::work_done);
}

/// The application quits at once where nothing runs, and asks where something does, saying
/// whether that is a synchronisation; an automatic one that is due is started first.
pub proof fn lemma_quitting_is_asked_about(
    app: AppView,
    scope: MutationScope,
    facts: PageFacts,
)
    ensures
        app.tasks_running > 0 ==> {
            let after = app.applied(Action::Quit, scope, facts);
            &&& after.quit == app.quit
            &&& after.quit_prompt is Some
            &&& after.quit_prompt->0.sync_in_progress == app.sync.syncing()
            &&& after.effects == app.effects
        },
        app.tasks_running == 0 && !app.sync.can_auto_sync(app.idle(facts)) ==> {
            let after = app.applied(Action::Quit, scope, facts);
            &&& after.quit
            &&& after.quit_prompt == app.quit_prompt
            &&& after.effects == app.effects
        },
        app.tasks_running == 0 && app.sync.can_auto_sync(app.idle(facts)) ==> {
            let after = app.applied(Action::Quit, scope, facts);
            &&& after.quit == app.quit
            &&& after.quit_prompt is Some
            &&& after.quit_prompt->0.sync_in_progress
            &&& after.tasks_running == 1
        },
{
    reveal(AppView::applied);
    reveal(AppView::work_done);
    reveal(AppView::quitting);
    reveal(AppView::synced_if_ready);
}

/// What only the library can do is asked of it, as it is.
pub proof fn lemma_the_library_is_asked(
    app: AppView,
    action: Action,
    scope: MutationScope,
    facts: PageFacts,
)
    requires
        action is DiscardFetched || action is DiscardUpdate || action is Forward
            || action is PlanDeployment || action is SearchCandidates
            || action is SuggestCandidates || action is ResumeRepository
            || action is ResolveNames || action is LoadTargets,
    ensures
        app.applied(action, scope, facts) == (AppView {
            effects: app.effects.push(EffectView::Does(Effect::Ask(action))),
            ..app
        }),
{
    reveal(AppView::applied);
}

/// Work that is started runs with a number of its own, and is counted; while the library is
/// being exchanged, work that changes it is refused.
pub proof fn lemma_work_is_started(
    app: AppView,
    task: Task,
    scope: MutationScope,
    facts: PageFacts,
)
    requires
        !app.batch_running,
        scope == MutationScope::Deployment || !app.sync.switching(),
        !(task is RefreshRepository),
        !(task is AutoSync),
        app.next_task_id < u64::MAX,
        app.tasks_running < usize::MAX,
    ensures
        ({
            let after = app.applied(Action::Spawn(task), scope, facts);
            let id = (app.next_task_id + 1) as u64;
            &&& app.sync.switching() && task.changes_library() ==> {
                &&& after.tasks_running == app.tasks_running
                &&& after.effects == app.effects.push(
                    EffectView::Tell(
                        "Root sync is updating the Library; retry when it finishes"@,
                        Level::Info,
                    ),
                )
            }
            &&& !(app.sync.switching() && task.changes_library()) && task.concerns_root()
                && app.tasks_running > 0 ==> {
                &&& after.tasks_running == app.tasks_running
                &&& after.effects == app.effects.push(
                    EffectView::Tell(
                        "Wait for the current operation before changing root backup"@,
                        Level::Info,
                    ),
                )
            }
            &&& !(app.sync.switching() && task.changes_library()) && !(task.concerns_root()
                && app.tasks_running > 0) ==> {
                &&& after.tasks_running == app.tasks_running + 1
                &&& after.next_task_id == id
                &&& after.effects.last() == EffectView::Does(Effect::Run(id, task))
            }
        }),
{
    reveal(AppView::applied);
    reveal(AppView::work_done);
    reveal(AppView::spawned);
}

/// An automatic synchronisation that is due starts with the changes that were seen, under a
/// notice of its own, and is counted; where none is due nothing starts.
pub proof fn lemma_a_due_synchronisation_starts(app: AppView, facts: PageFacts)
    requires
        app.next_task_id < u64::MAX,
    ensures
        app.sync.can_auto_sync(app.idle(facts)) ==> {
            let after = app.synced_if_ready(facts);
            let id = (app.next_task_id + 1) as u64;
            &&& after.tasks_running == 1
            &&& after.next_task_id == id
            &&& after.effects == app.effects.push(EffectView::StartNotice(id, "Root sync"@)).push(
                EffectView::AutoSync(id, app.sync.status->0.changes@),
            )
            &&& after.sync.syncing()
        },
        !app.sync.can_auto_sync(app.idle(facts)) ==> app.synced_if_ready(facts) == app,
        app.idle(facts) <==> app.tasks_running == 0 && !app.batch_running && app.external is None
            && !(app.modal is Some && facts.edits_library) && !(app.tab == Tab::Tags
            && facts.tags_input),
{
    reveal(AppView::synced_if_ready);
}

} // verus!
