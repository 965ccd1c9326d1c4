//! Everything that reaches the application, and what holds of all of it.

use crate::app::effects::{all_sound, Effect, EffectView, Waiting, WorkView};
use crate::app::keys::{PageCall, Surfaces, Turn};
use crate::app::state::{one_less, App, AppView, PageFacts};
use crate::app::turns::WriteResult;
use crate::app::{nothing, Action, AppFocus, Level, Tab};
use crate::app::apply::{busy_text, is_showing, is_writing, past_step};
use crate::event::{Msg, Task, TaskOutput};
use crate::geometry::Rect;
use crate::keymap::{KeyEvent, MouseEvent};
use crate::modal::{Modal, ModalView};
use crate::model::{MutationScope, Snapshot, Status};
use crate::sync_coordinator::{AutoView, ProbeReason, RunState, SyncCoordinator, SyncView};
use crate::sync_picker::SyncPickerView;
use crate::text::{cat4, clone_all, decimal, numeral};
use crate::widgets::SPINNER_FRAMES;
use vstd::prelude::*;

verus! {

// ---- the beginning -----------------------------------------------------------

/// Presets that were converted when the library was opened, and where they are kept.
#[derive(Debug)]
pub struct Migration {
    pub count: usize,
    pub backup: String,
}

/// The application before anything happened.
pub open spec fn untouched(
    snap: Snapshot,
    tags_enabled: bool,
    stamp: Option<Seq<char>>,
    now: u64,
) -> AppView {
    AppView {
        snap,
        tags_enabled,
        tab: Tab::Search,
        focus: AppFocus::Page,
        agents_dirty: true,
        modal: None,
        context_menu: None,
        command_palette: None,
        pending: Seq::empty(),
        queued: false,
        batch_running: false,
        batch_modal_owned: false,
        tasks_running: 0,
        sync: SyncView {
            status: None,
            error: None,
            probe: None,
            next_probe_id: 0,
            next_remote_probe: now,
            probe_failures: 0,
            run: RunState::Idle,
            auto: AutoView::Idle,
            claimed_generation: None,
            library_generation: 0,
        },
        next_task_id: 0,
        spinner: 0,
        last_root_poll: now,
        root_stamp: stamp,
        external: None,
        quit: false,
        quit_prompt: None,
        tab_rects: Seq::empty(),
        sync_button: Rect::zero(),
        body: Rect::zero(),
        effects: Seq::empty(),
        todo: Seq::empty(),
        waiting: None,
    }
}

/// The application once it is opened: its pages are filled, and its backup is looked at.
pub open spec fn opened(
    snap: Snapshot,
    tags_enabled: bool,
    stamp: Option<Seq<char>>,
    migration: Option<Migration>,
    now: u64,
) -> AppView {
    let ready = untouched(snap, tags_enabled, stamp, now).snapshotted(tags_enabled).observing(
        true,
        ProbeReason::Startup,
        now,
    );
    match migration {
        Some(report) => ready.told(
            "Converted "@ + numeral(report.count as int)
                + " presets to fixed members · backup: "@ + report.backup@,
            Level::Info,
        ),
        None => ready,
    }
}

impl App {
    pub fn new(
        snap: Snapshot,
        tags_enabled: bool,
        stamp: Option<String>,
        migration: Option<Migration>,
        now: u64,
    ) -> (r: App)
        requires
            now + 900_000 <= u64::MAX,
        ensures
            r@ == opened(snap, tags_enabled, crate::text::said(stamp), migration, now),
            r.valid(),
    {
        let mut app = App {
            snap,
            tags_enabled,
            tab: Tab::Search,
            focus: AppFocus::Page,
            agents_dirty: true,
            modal: None,
            context_menu: None,
            command_palette: None,
            pending_task_ui: Vec::new(),
            queued: false,
            batch_running: false,
            batch_modal_owned: false,
            tasks_running: 0,
            sync: SyncCoordinator::new(now),
            next_task_id: 0,
            spinner: 0,
            last_root_poll: now,
            root_stamp: stamp,
            external: None,
            quit: false,
            quit_prompt: None,
            tab_rects: Vec::new(),
            sync_button: Rect::zero(),
            body: Rect::zero(),
            effects: Vec::new(),
            todo: Vec::new(),
            waiting: None,
        };
        proof {
            reveal(App::valid);
            assert(app@.effects =~= Seq::empty());
            assert(app@.todo =~= Seq::empty());
            assert(app@ == untouched(snap, tags_enabled, crate::text::said(stamp), now));
        }
        app.on_snapshot(tags_enabled);
        app.refresh_sync_status(true, ProbeReason::Startup, now);
        match migration {
            Some(report) => app.toast(
                cat4(
                    "Converted ",
                    decimal(report.count).as_str(),
                    " presets to fixed members · backup: ",
                    report.backup.as_str(),
                ),
                Level::Info,
            ),
            None => {},
        }
        app
    }
}

// ---- the clock ---------------------------------------------------------------

impl AppView {
    /// It is time to look whether the library was changed by someone else.
    pub open spec fn poll_due(self, facts: PageFacts) -> bool {
        self.tasks_running == 0 && !self.blocked(facts) && facts.now - self.last_root_poll
            >= facts.poll_interval
    }

    /// A moment passed.
    pub open spec fn ticked(self, facts: PageFacts) -> AppView {
        let turned = AppView {
            spinner: ((self.spinner + 1) % (SPINNER_FRAMES as int)) as usize,
            ..self
        }.does(Effect::ExpireNotices);
        let observed = if turned.sync.probe is None && facts.now >= turned.sync.next_remote_probe {
            turned.observing(true, ProbeReason::Periodic, facts.now)
        } else {
            turned
        };
        if observed.poll_due(facts) {
            AppView { last_root_poll: facts.now, ..observed }.spawned(Task::PollRoot)
        } else {
            observed
        }
    }
}

impl App {
    fn turn_spinner(&mut self)
        requires
            old(self).valid(),
        ensures
            final(self)@ == (AppView {
                spinner: ((old(self)@.spinner + 1) % (SPINNER_FRAMES as int)) as usize,
                ..old(self)@
            }),
            final(self).valid(),
    {
        reveal(App::valid);
        self.spinner = (self.spinner + 1) % SPINNER_FRAMES;
    }

    fn note_poll(&mut self, now: u64)
        requires
            old(self).valid(),
        ensures
            final(self)@ == (AppView { last_root_poll: now, ..old(self)@ }),
            final(self).valid(),
    {
        reveal(App::valid);
        self.last_root_poll = now;
    }

    fn on_tick(&mut self, facts: PageFacts)
        requires
            old(self).valid(),
            facts.timely(),
        ensures
            final(self)@ == old(self)@.ticked(facts),
            final(self).valid(),
    {
        self.turn_spinner();
        self.emit(Effect::ExpireNotices);
        if self.sync.probe_due(facts.now) {
            self.refresh_sync_status(true, ProbeReason::Periodic, facts.now);
        }
        if self.tasks_running == 0 && !self.task_ui_blocked(facts) && facts.now
            >= self.last_root_poll && facts.now - self.last_root_poll >= facts.poll_interval {
            self.note_poll(facts.now);
            self.spawn(Task::PollRoot);
        }
    }
}

// ---- the backup --------------------------------------------------------------

/// The dialog of the backup once a look at it is over. A look that failed leaves what was
/// known.
pub open spec fn look_shown(modal: Option<ModalView>, result: Result<Status, String>) -> Option<
    ModalView,
> {
    match modal {
        Some(ModalView::Sync(picker)) => Some(
            ModalView::Sync(
                match result {
                    Ok(status) => SyncPickerView {
                        settings: status.settings,
                        status: Some(status@),
                        checking: false,
                        error: None,
                        ..picker
                    },
                    Err(error) => SyncPickerView { checking: false, error: Some(error), ..picker },
                },
            ),
        ),
        _ => modal,
    }
}

impl AppView {
    /// A look at the backup is over.
    pub open spec fn looked(self, id: u64, result: Result<Status, String>, now: u64) -> AppView {
        if !self.sync.awaits(id) {
            self
        } else {
            let next = AppView {
                sync: self.sync.finish_probe(id, result, now as int),
                modal: look_shown(self.modal, result),
                ..self
            };
            if self.sync.outdated() {
                next.observing(false, ProbeReason::Mutation, now)
            } else {
                next
            }
        }
    }
}

impl App {
    fn show_look(&mut self, result: &Result<Status, String>)
        requires
            old(self).valid(),
        ensures
            final(self)@ == (AppView {
                modal: look_shown(old(self)@.modal, *result),
                ..old(self)@
            }),
            final(self).valid(),
    {
        reveal(App::valid);
        match &mut self.modal {
            Some(Modal::Sync(picker)) => match result {
                Ok(status) => picker.set_status(status.clone(), None),
                Err(error) => {
                    picker.set_checking(false);
                    picker.set_error(error.clone());
                },
            },
            _ => {},
        }
    }

    /// A look at the backup is over. One that was not asked for any more is ignored.
    pub fn on_sync_status(&mut self, id: u64, result: Result<Status, String>, now: u64)
        requires
            old(self).valid(),
            now + 900_000 <= u64::MAX,
        ensures
            final(self)@ == old(self)@.looked(id, result, now),
            final(self).valid(),
    {
        let awaited = match &self.sync.probe {
            Some(probe) => probe.id == id,
            None => false,
        };
        if !awaited {
            return;
        }
        self.show_look(&result);
        proof {
            reveal(App::valid);
        }
        let outcome = self.sync.finish_probe(id, result, now);
        if outcome.needs_validation {
            self.refresh_sync_status(false, ProbeReason::Mutation, now);
        }
    }
}

// ---- everything --------------------------------------------------------------

impl AppView {
    /// Work is done: its notice goes.
    pub open spec fn task_over(self, id: u64) -> AppView {
        AppView { tasks_running: one_less(self.tasks_running), ..self }.does(
            Effect::FinishNotice(id),
        )
    }

    /// What comes of an event that no page has to be asked about.
    pub open spec fn turned(self, turn: Turn) -> AppView {
        match turn {
            Turn::Acts(actions) => self.with_actions(actions@, false),
            Turn::Page(_) => self,
        }
    }
}

impl App {
    /// What an event makes of the application, and whether a page has to be asked.
    pub open spec fn handled(
        self,
        msg: Msg,
        facts: PageFacts,
        around: Surfaces,
        after: App,
        call: Option<PageCall>,
    ) -> bool {
        let none = Seq::<Action>::empty();
        match msg {
            Msg::Key(key) => exists|mid: App, turn: Turn|
                #[trigger] self.routed(self@.key_route(key, facts), key, around, mid, turn)
                    && after@ == mid@.turned(turn) && call == turn.call(),
            Msg::Mouse(event) => exists|mid: App, turn: Turn|
                #[trigger] self.mouse_routed(
                    self@.mouse_route(event, facts),
                    event,
                    around,
                    mid,
                    turn,
                ) && after@ == mid@.turned(turn) && call == turn.call(),
            Msg::Paste(text) => exists|mid: App, turn: Turn|
                #[trigger] self.pasted(text@, mid, turn) && after@ == mid@.turned(turn) && call
                    == turn.call(),
            Msg::Resize => after@ == self@.without_menus().with_actions(none, false) && call
                is None,
            Msg::Tick => after@ == self@.ticked(facts).with_actions(none, false) && call is None,
            Msg::SyncPublishing => after@ == AppView {
                sync: self@.sync.start_publishing(),
                ..self@
            }.with_actions(none, false) && call is None,
            Msg::Progress(id, detail) => after@ == self@.does(
                Effect::NoticeProgress(id, detail),
            ).with_actions(none, false) && call is None,
            Msg::SyncStatus(id, result) => after@ == self@.looked(
                id,
                result,
                facts.now,
            ).with_actions(none, false) && call is None,
            Msg::Task(id, out) => call is None && exists|actions: Seq<Action>|
                #[trigger] self@.task_over(id).reports(*out, facts, actions) && after@
                    == self@.task_over(id).tasked(*out, facts).with_actions(actions, true),
        }
    }

    fn turn(&mut self, turn: Turn) -> (r: Option<PageCall>)
        requires
            old(self).valid(),
            all_sound(turn.acts()),
        ensures
            final(self)@ == old(self)@.turned(turn),
            r == turn.call(),
            final(self).valid(),
    {
        match turn {
            Turn::Acts(actions) => {
                self.queue(actions, false);
                None
            },
            Turn::Page(call) => Some(call),
        }
    }

    fn end_task(&mut self, id: u64)
        requires
            old(self).valid(),
        ensures
            final(self)@ == old(self)@.task_over(id),
            final(self).valid(),
    {
        proof {
            reveal(App::valid);
        }
        self.tasks_running = self.tasks_running.saturating_sub(1);
        self.emit(Effect::FinishNotice(id));
    }

    fn publish(&mut self)
        requires
            old(self).valid(),
        ensures
            final(self)@ == (AppView { sync: old(self)@.sync.start_publishing(), ..old(self)@ }),
            final(self).valid(),
    {
        reveal(App::valid);
        self.sync.start_publishing();
    }

    fn handle_key(&mut self, key: KeyEvent, facts: PageFacts, around: Surfaces) -> (r: Option<PageCall>)
        requires
            old(self).valid(),
            around.valid(),
        ensures
            exists|mid: App, turn: Turn|
                #[trigger] old(self).routed(old(self)@.key_route(key, facts), key, around, mid, turn)
                    && final(self)@ == mid@.turned(turn) && r == turn.call(),
            final(self).valid(),
    {
        let turn = self.on_key(key, facts, around);
        let ghost mid = *self;
        assert(old(self).routed(old(self)@.key_route(key, facts), key, around, mid, turn));
        self.turn(turn)
    }

    fn handle_mouse(&mut self, event: MouseEvent, facts: PageFacts, around: Surfaces) -> (r: Option<
        PageCall,
    >)
        requires
            old(self).valid(),
            around.valid(),
        ensures
            exists|mid: App, turn: Turn|
                #[trigger] old(self).mouse_routed(
                    old(self)@.mouse_route(event, facts),
                    event,
                    around,
                    mid,
                    turn,
                ) && final(self)@ == mid@.turned(turn) && r == turn.call(),
            final(self).valid(),
    {
        let turn = self.on_mouse(event, facts, around);
        let ghost mid = *self;
        assert(old(self).mouse_routed(
            old(self)@.mouse_route(event, facts),
            event,
            around,
            mid,
            turn,
        ));
        self.turn(turn)
    }

    fn handle_paste(&mut self, text: &str) -> (r: Option<PageCall>)
        requires
            old(self).valid(),
        ensures
            exists|mid: App, turn: Turn|
                #[trigger] old(self).pasted(text@, mid, turn) && final(self)@ == mid@.turned(turn)
                    && r == turn.call(),
            final(self).valid(),
    {
        let turn = self.on_paste(text);
        let ghost mid = *self;
        assert(old(self).pasted(text@, mid, turn));
        self.turn(turn)
    }

    fn handle_task(&mut self, id: u64, out: TaskOutput, facts: PageFacts)
        requires
            old(self).valid(),
            facts.timely(),
        ensures
            exists|actions: Seq<Action>|
                #[trigger] old(self)@.task_over(id).reports(out, facts, actions) && final(self)@
                    == old(self)@.task_over(id).tasked(out, facts).with_actions(actions, true),
            final(self).valid(),
    {
        self.end_task(id);
        let actions = self.on_task(out, facts);
        let ghost told = actions@;
        assert(old(self)@.task_over(id).reports(out, facts, told));
        self.queue(actions, true);
    }

    /// Something happened. Where a page has to be asked what it makes of it, the answer says
    /// so; what the page asks for is queued then.
    pub fn handle(&mut self, msg: Msg, facts: PageFacts, around: Surfaces) -> (r: Option<PageCall>)
        requires
            old(self).valid(),
            facts.timely(),
            around.valid(),
        ensures
            old(self).handled(msg, facts, around, *final(self), r),
            final(self).valid(),
    {
        match msg {
            Msg::Key(key) => {
                return self.handle_key(key, facts, around);
            },
            Msg::Mouse(event) => {
                return self.handle_mouse(event, facts, around);
            },
            Msg::Paste(text) => {
                return self.handle_paste(text.as_str());
            },
            Msg::Task(id, out) => {
                self.handle_task(id, *out, facts);
                return None;
            },
            Msg::Resize => self.close_menus(),
            Msg::Tick => self.on_tick(facts),
            Msg::SyncPublishing => self.publish(),
            Msg::Progress(id, detail) => self.emit(Effect::NoticeProgress(id, detail)),
            Msg::SyncStatus(id, result) => self.on_sync_status(id, result, facts.now),
        }
        self.queue(nothing(), false);
        None
    }
}

// ---- laws --------------------------------------------------------------------

proof fn lemma_rescan_leaves_the_backup(app: AppView)
    ensures
        app.rescanned().sync == app.sync,
        app.rescanned().modal == app.modal,
        app.rescanned().todo == app.todo,
        app.rescanned().quit == app.quit,
{
    reveal(AppView::rescanned);
    reveal(AppView::spawned);
}

/// A change of agents only does not concern the backup: nothing is scheduled, and nothing is
/// looked at.
pub proof fn lemma_deployments_do_not_schedule_sync(app: AppView, now: u64)
    ensures
        app.mutated(MutationScope::Deployment, now).sync == app.sync,
{
    reveal(AppView::mutated);
    lemma_rescan_leaves_the_backup(app);
}

/// A change of the library schedules its backup, unless a fatal failure has paused it.
pub proof fn lemma_library_changes_schedule_sync(app: AppView, now: u64)
    ensures
        app.mutated(MutationScope::Library, now).sync.auto is NeedsProbe
            || app.mutated(MutationScope::Library, now).sync.auto is PausedFatal,
        app.mutated(MutationScope::Library, now).sync.library_generation
            != app.sync.library_generation,
{
    reveal(AppView::mutated);
    reveal(AppView::library_changed);
    reveal(AppView::observing);
    let changed = AppView { sync: app.sync.library_changed(), ..app };
    lemma_rescan_leaves_the_backup(changed.observing(false, ProbeReason::Mutation, now));
}

/// Reading the library again does not schedule a backup.
pub proof fn lemma_rescans_do_not_schedule_sync(app: AppView, facts: PageFacts)
    ensures
        app.applied(Action::Rescan, MutationScope::Library, facts).sync == app.sync,
{
    reveal_with_fuel(AppView::applied, 2);
    reveal(AppView::work_done);
    lemma_rescan_leaves_the_backup(app);
}

/// While a batch is running nothing else is written: an action that would write is answered
/// by a notice, and all else stays, but for a step of the history that was to follow it: that
/// is not taken.
pub proof fn lemma_writes_wait_for_a_batch(
    app: AppView,
    action: Action,
    scope: MutationScope,
    facts: PageFacts,
)
    requires
        app.batch_running,
        is_writing(action),
    ensures
        app.applied(action, scope, facts) == app.refused(),
        app.refused() == (AppView { todo: past_step(app.todo), ..app }).told(
            busy_text(),
            Level::Info,
        ),
{
    reveal_with_fuel(AppView::applied, 2);
}

/// While the library is being exchanged nothing is written to it; what concerns agents only
/// may go on.
pub proof fn lemma_writes_wait_for_the_exchange(app: AppView, action: Action, facts: PageFacts)
    requires
        app.sync.switching(),
        !app.batch_running,
        is_writing(action),
    ensures
        app.applied(action, MutationScope::Library, facts) == app.refused(),
        app.applied(Action::Deployment(Box::new(action)), MutationScope::Library, facts)
            == app.carried_out(action, MutationScope::Deployment, facts),
{
    reveal_with_fuel(AppView::applied, 3);
}

/// Quitting while work is running asks first, and leaves the dialog that is shown as it is.
pub proof fn lemma_quitting_asks_while_work_runs(app: AppView, facts: PageFacts)
    requires
        app.tasks_running > 0,
        !app.quit,
    ensures
        ({
            let after = app.applied(Action::Quit, MutationScope::Library, facts);
            !after.quit && after.quit_prompt is Some && after.modal == app.modal
                && !(after.quit_prompt->0).force_exit_selected
        }),
{
    reveal_with_fuel(AppView::applied, 2);
    reveal(AppView::work_done);
    reveal(AppView::quitting);
    reveal(AppView::synced_if_ready);
}

/// What finished work wants to show does not cover what is shown: it waits, behind what
/// waits already, and the dialog stays.
pub proof fn lemma_finished_work_waits_its_turn(app: AppView, action: Action, scope: MutationScope, facts: PageFacts)
    requires
        app.waiting is None,
        app.todo.len() > 0,
        app.todo[0] == (WorkView::Act { action, scope, background: true }),
        is_showing(action),
        app.blocked(facts),
    ensures
        app.advanced(facts).pending == app.pending.push(action),
        app.advanced(facts).modal == app.modal,
        app.advanced(facts).tab == app.tab,
{
}

/// What waits is shown in the order in which it arrived, and only once nothing is shown.
pub proof fn lemma_what_waits_keeps_its_order(app: AppView, facts: PageFacts)
    requires
        app.waiting is None,
        app.todo.len() > 0,
        app.todo[0] is Settle,
        !app.quit,
    ensures
        app.blocked(facts) ==> app.advanced(facts).pending == app.pending
            && app.advanced(facts).modal == app.modal,
        !app.blocked(facts) && app.pending.len() > 0 ==> app.advanced(facts) == (AppView {
            pending: app.pending.skip(1),
            ..app.announced()
        }).applied(app.pending[0], MutationScope::Library, facts),
{
    reveal(AppView::synced_if_ready);
}

/// A text that was refused brings its dialog back with its text and its cursor.
pub proof fn lemma_refused_input_comes_back(
    app: AppView,
    actions: Vec<Action>,
    error: String,
    facts: PageFacts,
)
    requires
        app.waiting is None,
        !app.refuses(Action::SubmitInput(actions), MutationScope::Library),
        actions@.len() > 0,
        actions@[0] == Action::Error(error),
    ensures
        ({
            let taken = app.applied(
                Action::SubmitInput(actions),
                MutationScope::Library,
                facts,
            );
            taken.modal is None && taken.advanced(facts) == app.told(error@, Level::Error)
        }),
{
    reveal_with_fuel(AppView::applied, 2);
    reveal(AppView::work_done);
    reveal(AppView::part_done);
    let taken = app.applied(Action::SubmitInput(actions), MutationScope::Library, facts);
    assert(taken.todo.skip(1) =~= app.todo);
}

/// A text whose write failed brings its dialog back with its text and its cursor, and the
/// rest of what it stood for is dropped.
pub proof fn lemma_failed_input_comes_back(
    app: AppView,
    prompt: Option<ModalView>,
    rest: Seq<Action>,
    scope: MutationScope,
    meta: bool,
    result: WriteResult,
    now: u64,
)
    requires
        app.todo.len() > 0,
        app.todo[0] == (WorkView::Submit { prompt, rest, scope }),
        result is Err,
    ensures
        app.submission_answered(scope, meta, result, now).modal == prompt,
        app.submission_answered(scope, meta, result, now).todo == app.todo.skip(1),
        app.submission_answered(scope, meta, result, now).sync == app.sync,
{
    lemma_rescan_leaves_the_backup(app.without_first());
}

/// A batch that is running is not started again.
pub proof fn lemma_one_batch_at_a_time(app: AppView, work: crate::event::BatchWork, title: Seq<char>)
    requires
        app.batch_running,
    ensures
        app.batch_started(work, title) == app,
{
    reveal(AppView::batch_started);
}

/// A key for the tab that is shown already tells its page nothing.
pub proof fn lemma_same_tab_is_no_return(app: AppView)
    requires
        app.shown_tab(app.tab) == app.tab,
    ensures
        app.switched(app.tab).effects == app.effects,
        app.switched(app.tab).tab == app.tab,
{
    reveal(AppView::switched);
}

/// The page of the tags is never shown while tags are hidden.
pub proof fn lemma_hidden_tags_are_not_shown(app: AppView, tab: Tab)
    ensures
        !app.tags_enabled && app.tab != Tab::Tags ==> app.switched(tab).tab != Tab::Tags,
        app.snapshotted(false).tab != Tab::Tags,
{
    reveal(AppView::switched);
    reveal(AppView::snapshotted);
}

/// Looking at the library does nothing while something is shown or running, and nothing
/// where it looks as before.
pub proof fn lemma_polls_wait_for_dialogs(app: AppView, stamp: Seq<char>, facts: PageFacts)
    ensures
        app.blocked(facts) || app.tasks_running > 0 ==> app.polled(stamp, facts) == app,
        !app.moved_on(stamp) ==> app.polled(stamp, facts) == app,
{
    reveal(AppView::polled);
}

/// A synchronisation that quitting waited for lets the application quit when it is over.
pub proof fn lemma_quitting_waits_for_a_sync(app: AppView)
    requires
        app.quit_prompt is Some,
        app.quit_prompt->0.sync_in_progress,
    ensures
        app.sync_over().quit,
        app.sync_over().quit_prompt is None,
{
}

/// A step of the history that waits for its plan changes nothing by itself.
pub proof fn lemma_planning_changes_nothing(app: AppView, step: crate::app::Step)
    requires
        !app.batch_running,
    ensures
        app.stepping(step).0 == (AppView { waiting: Some(Waiting::Plan(step)), ..app }),
{
}

/// As time passes the spinner turns, notices expire, the backup is looked at from afar when
/// it is due, and the library is looked at when nothing is in the way.
pub proof fn lemma_what_time_brings(app: AppView, facts: PageFacts)
    requires
        app.spinner < SPINNER_FRAMES,
    ensures
        ({
            let after = app.ticked(facts);
            let n = app.effects.len() as int;
            let look = app.sync.probe is None && facts.now >= app.sync.next_remote_probe;
            let free = app.tasks_running == 0 && app.quit_prompt is None && app.modal is None
                && app.context_menu is None && app.command_palette is None && !(app.tab
                == Tab::Tags && facts.tags_input);
            let poll = free && facts.now - app.last_root_poll >= facts.poll_interval;
            &&& after.spinner == (if app.spinner + 1 == SPINNER_FRAMES {
                0
            } else {
                app.spinner + 1
            })
            &&& after.effects[n] == EffectView::Does(Effect::ExpireNotices)
            &&& !look && !poll ==> after.effects.len() == n + 1
            &&& look && app.sync.can_probe() ==> {
                &&& after.effects.len() > n + 1
                &&& after.effects[n + 1] is Does
                &&& after.effects[n + 1]->Does_0 is Observe
                &&& after.effects[n + 1]->Does_0->Observe_remote
            }
            &&& poll ==> after.last_root_poll == facts.now
            &&& !poll ==> after.last_root_poll == app.last_root_poll
        }),
{
    reveal(AppView::observing);
    reveal(AppView::spawned);
}

/// What a look at the backup found is shown in its dialog; one that failed keeps what was
/// shown and says why. A look that is not waited for any more changes nothing.
pub proof fn lemma_a_look_is_shown(
    app: AppView,
    id: u64,
    result: Result<Status, String>,
    now: u64,
)
    ensures
        !app.sync.awaits(id) ==> app.looked(id, result, now) == app,
        app.modal is Some && app.modal->0 is Sync && app.sync.awaits(id) && !app.sync.outdated()
            ==> {
            let before = app.modal->0->Sync_0;
            let after = app.looked(id, result, now).modal->0->Sync_0;
            &&& !after.checking
            &&& after.step == before.step
            &&& result is Ok ==> {
                &&& after.status == Some(result->Ok_0@)
                &&& after.settings == result->Ok_0.settings
                &&& after.error is None
            }
            &&& result is Err ==> {
                &&& after.status == before.status
                &&& after.settings == before.settings
                &&& after.error == Some(result->Err_0)
            }
        },
{
}

/// Work that is over is not counted any more and its notice goes.
pub proof fn lemma_work_that_is_over(app: AppView, id: u64)
    ensures
        app.tasks_running > 0 ==> app.task_over(id).tasks_running == app.tasks_running - 1,
        app.tasks_running == 0 ==> app.task_over(id).tasks_running == 0,
        app.task_over(id).effects == app.effects.push(
            EffectView::Does(Effect::FinishNotice(id)),
        ),
{
}

/// A library that was read is shown on every page, the agents' when it is next entered
/// unless it is shown; a dialog follows too.
pub proof fn lemma_every_page_is_read_again(app: AppView, tags_enabled: bool)
    ensures
        ({
            let after = app.snapshotted(tags_enabled);
            let n = app.effects.len() as int;
            let tab = if app.tab == Tab::Tags && !tags_enabled {
                Tab::Search
            } else {
                app.tab
            };
            &&& after.tab == tab
            &&& after.tags_enabled == tags_enabled
            &&& after.agents_dirty == (tab != Tab::Agents)
            &&& after.effects.len() >= n + 5
            &&& after.effects[n] == EffectView::Does(Effect::RefreshPage(Tab::Search))
            &&& after.effects[n + 1] == EffectView::Does(Effect::RefreshPage(Tab::Tags))
            &&& after.effects[n + 2] == EffectView::Does(Effect::RefreshPage(Tab::Presets))
            &&& tab == Tab::Agents ==> after.effects[n + 3] == EffectView::Does(
                Effect::RefreshPage(Tab::Agents),
            )
            &&& app.modal is Some ==> after.effects.last() == EffectView::Does(
                Effect::RefreshModal,
            )
            &&& app.modal is None ==> after.effects.last() == EffectView::Does(
                Effect::RefreshPage(Tab::Repos),
            )
            &&& after.effects.contains(EffectView::Does(Effect::RefreshPage(Tab::Health)))
            &&& after.modal == app.modal
        }),
{
    reveal(AppView::snapshotted);
    let after = app.snapshotted(tags_enabled);
    let n = app.effects.len() as int;
    let health = EffectView::Does(Effect::RefreshPage(Tab::Health));
    if after.tab == Tab::Agents {
        assert(after.effects[n + 4] == health);
    } else {
        assert(after.effects[n + 3] == health);
    }
}

/// The application opens on the library with its page in use, looks at the backup from
/// afar, and tells of presets that were converted.
pub proof fn lemma_how_the_application_opens(
    snap: Snapshot,
    tags_enabled: bool,
    stamp: Option<Seq<char>>,
    migration: Option<Migration>,
    now: u64,
)
    ensures
        ({
            let app = opened(snap, tags_enabled, stamp, migration, now);
            let n = app.effects.len() as int;
            &&& app.tab == Tab::Search
            &&& app.focus == AppFocus::Page
            &&& app.snap == snap
            &&& app.tags_enabled == tags_enabled
            &&& app.root_stamp == stamp
            &&& app.modal is None
            &&& !app.quit
            &&& app.tasks_running == 0
            &&& app.sync.probe is Some
            &&& migration is Some ==> app.effects[n - 1] == EffectView::Tell(
                "Converted "@ + numeral(migration->0.count as int)
                    + " presets to fixed members · backup: "@ + migration->0.backup@,
                Level::Info,
            )
            &&& migration is None ==> app.effects[n - 1] is Does && app.effects[n - 1]->Does_0
                is Observe && app.effects[n - 1]->Does_0->Observe_remote
        }),
{
    reveal(AppView::snapshotted);
    reveal(AppView::observing);
}

/// A resized terminal takes menus away and nothing else; the start of a publication reaches
/// what runs automatically; progress goes to its notice.
pub proof fn lemma_what_small_events_do(
    before: App,
    facts: PageFacts,
    around: Surfaces,
    after: App,
    call: Option<PageCall>,
    id: u64,
    detail: String,
)
    ensures
        before.handled(Msg::Resize, facts, around, after, call) ==> {
            &&& after@.context_menu is None
            &&& after@.command_palette is None
            &&& after@.modal == before@.modal
            &&& after@.effects == before@.effects
            &&& call is None
        },
        before.handled(Msg::SyncPublishing, facts, around, after, call) ==> {
            &&& after@.sync == before@.sync.start_publishing()
            &&& after@.effects == before@.effects
            &&& call is None
        },
        before.handled(Msg::Progress(id, detail), facts, around, after, call) ==> {
            &&& after@.effects == before@.effects.push(
                EffectView::Does(Effect::NoticeProgress(id, detail)),
            )
            &&& call is None
        },
{
}

} // verus!
