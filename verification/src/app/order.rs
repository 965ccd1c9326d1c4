//! What holds over several events in a row.

use crate::app::apply::{behind, busy_text, is_showing};
use crate::app::effects::{Effect, EffectView, Waiting, WorkView};
use crate::app::events::lemma_refused_input_comes_back;
use crate::app::keys::{KeyRoute, Surfaces, Turn};
use crate::app::state::{App, AppView, PageFacts};
use crate::app::tasks::{batch_text, is_opening};
use crate::app::turns::{as_work, WriteResult};
use crate::app::{Action, Level, Step, Tab};
use crate::dialogs::confirm::writes;
use crate::dialogs::prompt::{submits, PromptChecks, PromptView};
use crate::event::{BatchOutcome, Msg, Task, TaskOutput};
use crate::keymap::{KeyCode, KeyEvent};
use crate::modal::{Modal, ModalView};
use crate::model::{MutationScope, Snapshot, Write};
use crate::sync_coordinator::ProbeReason;
use vstd::prelude::*;

verus! {

impl AppView {
    /// The next `n` things that are to be done are done.
    pub open spec fn brought(self, facts: PageFacts, n: nat) -> AppView
        decreases n,
    {
        if n == 0 {
            self
        } else {
            self.advanced(facts).brought(facts, (n - 1) as nat)
        }
    }

    /// An event of a single action, as far as it goes in four turns.
    pub open spec fn evented(self, action: Action, background: bool, facts: PageFacts) -> AppView {
        self.with_actions(seq![action], background).brought(facts, 4)
    }

    /// Finished work arrives, piece by piece.
    pub open spec fn arrived(self, shows: Seq<Action>, facts: PageFacts) -> AppView
        decreases shows.len(),
    {
        if shows.len() == 0 {
            self
        } else {
            self.arrived(shows.drop_last(), facts).evented(shows.last(), true, facts)
        }
    }

    /// Nothing is left to do, and no answer is waited for.
    pub open spec fn at_rest(self) -> bool {
        self.waiting is None && self.todo.len() == 0
    }

    /// Nothing but a dialog keeps finished work from showing something.
    pub open spec fn only_dialogs(self, facts: PageFacts) -> bool {
        &&& !self.quit
        &&& self.quit_prompt is None
        &&& self.context_menu is None
        &&& self.command_palette is None
        &&& !(self.tab == Tab::Tags && facts.tags_input)
    }
}

/// Nothing came up, except perhaps a dialog, that keeps finished work from showing
/// something.
pub open spec fn stays_clear(before: AppView, after: AppView) -> bool {
    &&& after.quit ==> before.quit
    &&& after.quit_prompt is Some ==> before.quit_prompt is Some
    &&& after.context_menu is Some ==> before.context_menu is Some
    &&& after.command_palette is Some ==> before.command_palette is Some
    &&& after.tab == Tab::Tags ==> before.tab == Tab::Tags
}

/// The four turns of an event, one by one.
proof fn lemma_four_turns(app: AppView, facts: PageFacts)
    ensures
        app.brought(facts, 4) == app.advanced(facts).advanced(facts).advanced(facts).advanced(facts),
{
    reveal_with_fuel(AppView::brought, 5);
}

proof fn lemma_closes(app: AppView, facts: PageFacts)
    ensures
        app.applied(Action::CloseModal, MutationScope::Library, facts) == (AppView {
            modal: behind(app.modal),
            ..app
        }),
{
    reveal_with_fuel(AppView::applied, 2);
    reveal(AppView::view_changed);
}

proof fn lemma_opens(app: AppView, next: Box<Modal>, facts: PageFacts)
    ensures
        app.applied(Action::OpenModal(next), MutationScope::Library, facts) == (AppView {
            modal: Some((*next)@),
            ..app.without_menus()
        }),
{
    reveal_with_fuel(AppView::applied, 2);
    reveal(AppView::view_changed);
}

proof fn lemma_begins_to_write(app: AppView, write: Write, scope: MutationScope, facts: PageFacts)
    ensures
        app.applied(Action::WriteMeta(write), scope, facts) == if app.refuses(
            Action::WriteMeta(write),
            scope,
        ) {
            app.refused()
        } else {
            app.wrote(write, scope, true)
        },
{
    reveal_with_fuel(AppView::applied, 2);
    reveal(AppView::write_begun);
}

proof fn lemma_unwraps(app: AppView, inner: Box<Action>, facts: PageFacts)
    ensures
        app.applied(Action::Deployment(inner), MutationScope::Library, facts) == app.applied(
            *inner,
            MutationScope::Deployment,
            facts,
        ),
{
    reveal_with_fuel(AppView::applied, 2);
}

/// The end of an event where nothing that waits is shown.
proof fn lemma_settles(app: AppView, facts: PageFacts)
    requires
        app.waiting is None,
        app.todo == seq![WorkView::Settle],
        app.blocked(facts),
    ensures
        ({
            let after = app.advanced(facts);
            &&& after.at_rest()
            &&& after.advanced(facts) == after
            &&& after.modal == app.modal
            &&& after.pending == app.pending
            &&& after.quit == app.quit
            &&& after.blocked(facts)
            &&& after.only_dialogs(facts) == app.only_dialogs(facts)
            &&& stays_clear(app, after)
            &&& after.batch_running == app.batch_running
        }),
{
    reveal(AppView::synced_if_ready);
    assert(app.todo.skip(1) =~= Seq::<WorkView>::empty());
}

/// The first turn of an event that is not of finished work.
proof fn lemma_begins(app: AppView, action: Action, facts: PageFacts)
    requires
        app.at_rest(),
    ensures
        app.with_actions(seq![action], false).advanced(facts) == (AppView {
            todo: seq![WorkView::Settle],
            ..app
        }).applied(action, MutationScope::Library, facts),
{
    let begun = app.with_actions(seq![action], false);
    assert(begun.todo =~= seq![
        WorkView::Act { action, scope: MutationScope::Library, background: false },
        WorkView::Settle,
    ]);
    assert(begun.todo.skip(1) =~= seq![WorkView::Settle]);
}

/// One piece of finished work arrives while something is shown.
proof fn lemma_one_arrives(app: AppView, action: Action, facts: PageFacts)
    requires
        app.at_rest(),
        is_showing(action),
        app.blocked(facts),
    ensures
        ({
            let after = app.evented(action, true, facts);
            &&& after.pending == app.pending.push(action)
            &&& after.at_rest()
            &&& after.blocked(facts)
            &&& after.modal == app.modal
            &&& after.quit == app.quit
            &&& after.only_dialogs(facts) == app.only_dialogs(facts)
            &&& stays_clear(app, after)
            &&& after.batch_running == app.batch_running
        }),
{
    reveal(AppView::synced_if_ready);
    let begun = app.with_actions(seq![action], true);
    lemma_four_turns(begun, facts);
    assert(as_work(seq![action], true).push(WorkView::Settle) =~= seq![
        WorkView::Act { action, scope: MutationScope::Library, background: true },
        WorkView::Settle,
    ]);
    assert(begun.todo =~= seq![
        WorkView::Act { action, scope: MutationScope::Library, background: true },
        WorkView::Settle,
    ]);
    let kept = begun.advanced(facts);
    assert(kept.todo =~= seq![WorkView::Settle]);
    let done = kept.advanced(facts);
    assert(done.todo =~= Seq::<WorkView>::empty());
}

/// Whatever finished work wants to show while a dialog is shown waits, in the order in which
/// it arrived and behind what waits already; the dialog stays as it is.
pub proof fn lemma_arrivals_wait_in_order(app: AppView, shows: Seq<Action>, facts: PageFacts)
    requires
        app.at_rest(),
        app.blocked(facts),
        forall|i: int| 0 <= i < shows.len() ==> is_showing(#[trigger] shows[i]),
    ensures
        app.arrived(shows, facts).pending == app.pending + shows,
        app.arrived(shows, facts).modal == app.modal,
        app.arrived(shows, facts).quit == app.quit,
        app.arrived(shows, facts).at_rest(),
        app.arrived(shows, facts).blocked(facts),
        app.arrived(shows, facts).only_dialogs(facts) == app.only_dialogs(facts),
        app.arrived(shows, facts).batch_running == app.batch_running,
    decreases shows.len(),
{
    if shows.len() == 0 {
        assert(app.pending + shows =~= app.pending);
    } else {
        assert forall|i: int| 0 <= i < shows.drop_last().len() implies is_showing(
            #[trigger] shows.drop_last()[i],
        ) by {
            assert(shows.drop_last()[i] == shows[i]);
        }
        lemma_arrivals_wait_in_order(app, shows.drop_last(), facts);
        lemma_one_arrives(app.arrived(shows.drop_last(), facts), shows.last(), facts);
        assert((app.pending + shows.drop_last()).push(shows.last()) =~= app.pending + shows);
    }
}

/// A text that is refused keeps its dialog, and what waits behind it.
pub proof fn lemma_refusal_keeps_what_waits(
    app: AppView,
    actions: Vec<Action>,
    error: String,
    facts: PageFacts,
)
    requires
        app.at_rest(),
        app.blocked(facts),
        actions@.len() > 0,
        actions@[0] == Action::Error(error),
    ensures
        ({
            let after = app.evented(Action::SubmitInput(actions), false, facts);
            &&& after.modal == app.modal
            &&& after.pending == app.pending
            &&& after.at_rest()
            &&& after.blocked(facts)
            &&& after.only_dialogs(facts) == app.only_dialogs(facts)
            &&& stays_clear(app, after)
        }),
{
    let action = Action::SubmitInput(actions);
    let begun = app.with_actions(seq![action], false);
    lemma_four_turns(begun, facts);
    lemma_begins(app, action, facts);
    let rest = AppView { todo: seq![WorkView::Settle], ..app };
    if rest.refuses(action, MutationScope::Library) {
        assert(rest.applied(action, MutationScope::Library, facts) == rest.refused()) by {
            reveal_with_fuel(AppView::applied, 2);
        }
        lemma_settles(rest.refused(), facts);
    } else {
        lemma_refused_input_comes_back(rest, actions, error, facts);
        lemma_settles(rest.told(error@, Level::Error), facts);
    }
}

/// The event that closes a dialog shows what has waited longest, if that is a dialog too,
/// and the rest goes on waiting.
pub proof fn lemma_closing_shows_the_next(
    app: AppView,
    next: Box<Modal>,
    facts: PageFacts,
)
    requires
        app.at_rest(),
        app.only_dialogs(facts),
        app.modal is Some,
        behind(app.modal) is None,
        app.pending.len() > 0,
        app.pending[0] == Action::OpenModal(next),
    ensures
        ({
            let after = app.evented(Action::CloseModal, false, facts);
            &&& after.modal == Some((*next)@)
            &&& after.pending == app.pending.skip(1)
            &&& after.at_rest()
            &&& after.only_dialogs(facts)
            &&& stays_clear(app, after)
        }),
{
    let begun = app.with_actions(seq![Action::CloseModal], false);
    lemma_four_turns(begun, facts);
    lemma_begins(app, Action::CloseModal, facts);
    let rest = AppView { todo: seq![WorkView::Settle], ..app };
    lemma_closes(rest, facts);
    let closed = AppView { modal: None, ..rest };
    let told = closed.announced();
    let taken = AppView { pending: told.pending.skip(1), ..told };
    assert(closed.advanced(facts) == taken.applied(
        Action::OpenModal(next),
        MutationScope::Library,
        facts,
    ));
    lemma_opens(taken, next, facts);
    lemma_settles(closed.advanced(facts), facts);
}

// ---- events as they come -----------------------------------------------------

impl App {
    /// An event comes, and what it asks for is done. What is wanted of the outside may have
    /// been taken since.
    #[verifier::opaque]
    pub open spec fn received(
        self,
        msg: Msg,
        facts: PageFacts,
        around: Surfaces,
        after: App,
    ) -> bool {
        exists|next: App|
            #[trigger] self.handled(msg, facts, around, next, None) && after@ == (AppView {
                effects: after@.effects,
                ..next@.brought(facts, 4)
            })
    }

    /// The event closes the dialog that is shown, and does nothing else.
    #[verifier::opaque]
    pub open spec fn is_closed_by(self, msg: Msg, facts: PageFacts, around: Surfaces) -> bool {
        forall|next: App| #[trigger]
            self.handled(msg, facts, around, next, None) ==> {
                &&& next@ == (AppView { modal: next@.modal, ..self@ }).with_actions(
                    seq![Action::CloseModal],
                    false,
                )
                &&& next@.modal is Some
                &&& behind(next@.modal) is None
            }
    }

    /// All that the work which is done asks for is that this dialog is shown.
    #[verifier::opaque]
    pub open spec fn is_shown(
        self,
        id: u64,
        out: TaskOutput,
        dialog: ModalView,
        facts: PageFacts,
    ) -> bool {
        forall|actions: Seq<Action>| #[trigger]
            self@.task_over(id).reports(out, facts, actions) ==> actions.len() == 1 && is_opening(
                actions[0],
                dialog,
            )
    }
}

/// The text that was entered is not accepted: all that comes of submitting it begins with
/// an error.
#[verifier::opaque]
pub open spec fn is_rejected(prompt: PromptView, checks: PromptChecks, snap: Snapshot) -> bool {
    forall|actions: Seq<Action>| #[trigger]
        submits(prompt.kind, prompt.input.text, checks, snap, actions) ==> actions.len() > 0
            && actions[0] is Error
}

/// The text that is being entered, and all that waits or is to be done, is left alone.
pub open spec fn leaves_the_text(before: AppView, after: AppView) -> bool {
    &&& after.modal == before.modal
    &&& after.pending == before.pending
    &&& after.todo == before.todo
    &&& after.waiting == before.waiting
    &&& stays_clear(before, after)
}

proof fn lemma_rescan_leaves_the_text(app: AppView)
    ensures
        leaves_the_text(app, app.rescanned()),
{
    reveal(AppView::rescanned);
    reveal(AppView::spawned);
}

proof fn lemma_change_leaves_the_text(app: AppView, scope: MutationScope, now: u64)
    requires
        app.modal is Some ==> app.modal->0 is Input,
    ensures
        leaves_the_text(app, app.mutated(scope, now)),
{
    reveal(AppView::mutated);
    reveal(AppView::library_changed);
    let changed = AppView { sync: app.sync.library_changed(), ..app };
    let looked = changed.observing(false, ProbeReason::Mutation, now);
    assert(leaves_the_text(changed, looked)) by {
        reveal(AppView::observing);
    }
    lemma_rescan_leaves_the_text(looked);
    lemma_rescan_leaves_the_text(app);
}

proof fn lemma_batch_leaves_the_text(app: AppView, outcome: BatchOutcome, now: u64)
    requires
        app.modal is Some,
        app.modal->0 is Input,
    ensures
        leaves_the_text(app, app.batch_done(outcome, now)),
{
    reveal(AppView::batch_done);
    let told = app.batch_released().recorded(outcome.intent).does(
        Effect::BatchFinished(outcome.failed),
    ).told(
        batch_text(outcome),
        if outcome.errors@.len() == 0 {
            Level::Success
        } else {
            Level::Error
        },
    );
    if outcome.changed_scope is Some {
        lemma_change_leaves_the_text(told, outcome.changed_scope->0, now);
    }
    lemma_rescan_leaves_the_text(told);
}

/// Work that is done leaves the text that is being entered alone, whatever it was.
proof fn lemma_results_leave_the_text(app: AppView, out: TaskOutput, facts: PageFacts)
    requires
        app.modal is Some,
        app.modal->0 is Input,
        app.quit_prompt is None,
    ensures
        leaves_the_text(app, app.tasked(out, facts)),
{
    match out {
        TaskOutput::Sync(request, result, _) => {
            reveal(AppView::manual_sync_over);
            lemma_rescan_leaves_the_text(app.sync_over());
        },
        TaskOutput::AutoSync(result) => {
            reveal(AppView::auto_sync_over);
            lemma_rescan_leaves_the_text(app.sync_over());
        },
        TaskOutput::Batch(outcome) => {
            lemma_batch_leaves_the_text(app, outcome, facts.now);
        },
        TaskOutput::Scan(result, stamp) => {
            reveal(AppView::scanned);
            reveal(AppView::snapshotted);
        },
        TaskOutput::RootStamp(result) => {
            reveal(AppView::polled);
        },
        _ => {},
    }
}

/// A dialog that finished work wants to show while a text is being entered waits behind what
/// waits already; the text, its cursor and its dialog stay as they are.
pub proof fn lemma_a_result_waits(
    before: App,
    id: u64,
    out: Box<TaskOutput>,
    dialog: ModalView,
    facts: PageFacts,
    around: Surfaces,
    after: App,
)
    requires
        before@.at_rest(),
        before@.modal is Some,
        before@.modal->0 is Input,
        before@.quit_prompt is None,
        before.is_shown(id, *out, dialog, facts),
        before.received(Msg::Task(id, out), facts, around, after),
    ensures
        after@.modal == before@.modal,
        after@.pending.len() == before@.pending.len() + 1,
        after@.pending.drop_last() == before@.pending,
        is_opening(after@.pending.last(), dialog),
        after@.at_rest(),
        after@.quit_prompt is None,
        stays_clear(before@, after@),
{
    reveal(App::received);
    reveal(App::is_shown);
    let next = choose|next: App|
        #[trigger] before.handled(Msg::Task(id, out), facts, around, next, None) && after@
            == (AppView { effects: after@.effects, ..next@.brought(facts, 4) });
    let over = before@.task_over(id);
    let actions = choose|actions: Seq<Action>|
        #[trigger] over.reports(*out, facts, actions) && next@ == over.tasked(
            *out,
            facts,
        ).with_actions(actions, true);
    lemma_results_leave_the_text(over, *out, facts);
    let calm = over.tasked(*out, facts);
    assert(actions =~= seq![actions[0]]);
    lemma_one_arrives(calm, actions[0], facts);
    assert(after@.pending.drop_last() =~= before@.pending);
    assert(stays_clear(before@, over));
}

/// Escape closes the dialog of a text, and a message that leads nowhere.
pub proof fn lemma_escape_closes(app: App, key: KeyEvent, facts: PageFacts, around: Surfaces)
    requires
        app@.only_dialogs(facts),
        app@.modal is Some,
        app@.modal->0 is Input || app@.modal->0 is Message,
        behind(app@.modal) is None,
        key.code == KeyCode::Esc,
    ensures
        app.is_closed_by(Msg::Key(key), facts, around),
{
    reveal(App::is_closed_by);
    reveal(Modal::takes_key);
    assert(app@.key_route(key, facts) == KeyRoute::Dialog);
    assert forall|next: App| #[trigger]
        app.handled(Msg::Key(key), facts, around, next, None) implies {
        &&& next@ == (AppView { modal: next@.modal, ..app@ }).with_actions(
            seq![Action::CloseModal],
            false,
        )
        &&& next@.modal is Some
        &&& behind(next@.modal) is None
    } by {
        let (mid, turn) = choose|mid: App, turn: Turn|
            #[trigger] app.routed(app@.key_route(key, facts), key, around, mid, turn) && next@
                == mid@.turned(turn) && turn.call() is None;
        assert(turn.acts() =~= seq![Action::CloseModal]);
    }
}

/// Enter submits the text, and leaves it as it is meanwhile.
proof fn lemma_enter_submits(
    app: App,
    key: KeyEvent,
    facts: PageFacts,
    around: Surfaces,
    next: App,
) -> (actions: Vec<Action>)
    requires
        app@.only_dialogs(facts),
        app@.modal is Some,
        app@.modal->0 is Input,
        key.code == KeyCode::Enter,
        app.handled(Msg::Key(key), facts, around, next, None),
    ensures
        next@ == app@.with_actions(seq![Action::SubmitInput(actions)], false),
        submits(
            app@.modal->0->Input_0.kind,
            app@.modal->0->Input_0.input.text,
            around.dialog.prompt,
            app@.snap,
            actions@,
        ),
{
    reveal(Modal::takes_key);
    assert(app@.key_route(key, facts) == KeyRoute::Dialog);
    let (mid, turn) = choose|mid: App, turn: Turn|
        #[trigger] app.routed(app@.key_route(key, facts), key, around, mid, turn) && next@
            == mid@.turned(turn) && turn.call() is None;
    let actions = turn.acts()[0]->SubmitInput_0;
    assert(turn.acts() =~= seq![Action::SubmitInput(actions)]);
    assert(mid@.modal == app@.modal);
    actions
}

/// A text that is rejected keeps its dialog, its cursor and all that waits.
pub proof fn lemma_a_rejected_text_stays(
    before: App,
    key: KeyEvent,
    facts: PageFacts,
    around: Surfaces,
    after: App,
)
    requires
        before@.at_rest(),
        before@.only_dialogs(facts),
        before@.modal is Some,
        before@.modal->0 is Input,
        key.code == KeyCode::Enter,
        is_rejected(before@.modal->0->Input_0, around.dialog.prompt, before@.snap),
        before.received(Msg::Key(key), facts, around, after),
    ensures
        after@.modal == before@.modal,
        after@.pending == before@.pending,
        after@.at_rest(),
        stays_clear(before@, after@),
{
    reveal(App::received);
    reveal(is_rejected);
    let next = choose|next: App|
        #[trigger] before.handled(Msg::Key(key), facts, around, next, None) && after@ == (AppView {
            effects: after@.effects,
            ..next@.brought(facts, 4)
        });
    let actions = lemma_enter_submits(before, key, facts, around, next);
    lemma_refusal_keeps_what_waits(before@, actions, actions@[0]->Error_0, facts);
}

/// The event that closes a dialog shows the dialog that has waited longest, and the rest
/// goes on waiting.
pub proof fn lemma_the_next_is_shown(
    before: App,
    msg: Msg,
    dialog: ModalView,
    facts: PageFacts,
    around: Surfaces,
    after: App,
)
    requires
        before@.at_rest(),
        before@.only_dialogs(facts),
        before@.pending.len() > 0,
        is_opening(before@.pending[0], dialog),
        before.is_closed_by(msg, facts, around),
        before.received(msg, facts, around, after),
    ensures
        after@.modal == Some(dialog),
        after@.pending == before@.pending.skip(1),
        after@.at_rest(),
        stays_clear(before@, after@),
{
    reveal(App::received);
    reveal(App::is_closed_by);
    let next = choose|next: App|
        #[trigger] before.handled(msg, facts, around, next, None) && after@ == (AppView {
            effects: after@.effects,
            ..next@.brought(facts, 4)
        });
    let left = AppView { modal: next@.modal, ..before@ };
    lemma_closing_shows_the_next(left, before@.pending[0]->OpenModal_0, facts);
}

impl AppView {
    /// A text is submitted: its dialog is gone, and its write is waited for.
    pub open spec fn saving(self, before: AppView, rest: Seq<Action>, scope: MutationScope) -> bool {
        &&& self.waiting is Some
        &&& self.waiting->0 is Write
        &&& self.waiting->0->Write_submitted
        &&& self.waiting->0->Write_scope == scope
        &&& self.todo == seq![
            WorkView::Submit { prompt: before.modal, rest, scope },
            WorkView::Settle,
        ]
        &&& self == AppView { waiting: self.waiting, todo: self.todo, modal: None, ..before }
    }
}

impl App {
    /// An event comes that asks for a write, the write is made or fails, and the rest is
    /// done. What is wanted of the outside may have been taken since.
    #[verifier::opaque]
    pub open spec fn saved(
        self,
        msg: Msg,
        facts: PageFacts,
        around: Surfaces,
        result: WriteResult,
        now: u64,
        later: PageFacts,
        after: App,
    ) -> bool {
        exists|next: App| #[trigger]
            self.handled(msg, facts, around, next, None) && {
                let asking = next@.brought(facts, 2);
                &&& asking.waiting is Some
                &&& asking.waiting->0 is Write
                &&& after@ == (AppView {
                    effects: after@.effects,
                    ..asking.write_taken(result, now).brought(later, 4)
                })
            }
    }
}

/// What a text can ask for: one thing, or a write and then the choice of what was written.
proof fn lemma_what_a_text_asks_for(
    prompt: PromptView,
    checks: PromptChecks,
    snap: Snapshot,
    actions: Seq<Action>,
)
    requires
        submits(prompt.kind, prompt.input.text, checks, snap, actions),
        actions.len() > 0,
    ensures
        actions[0] is Error || actions[0] is Write || actions[0] is WriteMeta
            || actions[0] is OpenModal || actions[0] is Spawn,
        actions.len() <= 2,
        actions.len() == 2 ==> actions[1] is SelectPreset || actions[1] is SelectTag,
{
}

proof fn lemma_spawning_asks_nothing(app: AppView, task: Task, facts: PageFacts)
    ensures
        app.applied(Action::Spawn(task), MutationScope::Library, facts).waiting == app.waiting,
{
    reveal_with_fuel(AppView::applied, 2);
    reveal(AppView::work_done);
    reveal(AppView::spawned);
}

/// A text that is submitted is put aside, unless it has to wait.
proof fn lemma_text_is_taken(app: AppView, actions: Vec<Action>, facts: PageFacts)
    requires
        !app.refuses(Action::SubmitInput(actions), MutationScope::Library),
        app.todo == seq![WorkView::Settle],
    ensures
        app.applied(Action::SubmitInput(actions), MutationScope::Library, facts) == (AppView {
            modal: None,
            todo: seq![
                WorkView::Submit {
                    prompt: app.modal,
                    rest: actions@,
                    scope: MutationScope::Library,
                },
                WorkView::Settle,
            ],
            ..app
        }),
{
    reveal_with_fuel(AppView::applied, 2);
    reveal(AppView::work_done);
    let frame = WorkView::Submit {
        prompt: app.modal,
        rest: actions@,
        scope: MutationScope::Library,
    };
    assert(seq![frame] + app.todo =~= seq![frame, WorkView::Settle]);
}

/// The first thing that a text asks for is a write, where one is waited for.
proof fn lemma_first_part_is_a_write(
    app: AppView,
    prompt: Option<ModalView>,
    actions: Seq<Action>,
    facts: PageFacts,
)
    requires
        app.waiting is None,
        app.todo == seq![
            WorkView::Submit { prompt, rest: actions, scope: MutationScope::Library },
            WorkView::Settle,
        ],
        actions.len() > 0 ==> (actions[0] is Error || actions[0] is Write || actions[0] is WriteMeta
            || actions[0] is OpenModal || actions[0] is Spawn),
        app.advanced(facts).waiting is Some,
    ensures
        actions.len() > 0,
        ({
            let asking = app.advanced(facts);
            &&& asking.waiting->0 is Write
            &&& asking.waiting->0->Write_submitted
            &&& asking.waiting->0->Write_scope == MutationScope::Library
            &&& asking == AppView {
                waiting: asking.waiting,
                todo: seq![
                    WorkView::Submit {
                        prompt,
                        rest: actions.skip(1),
                        scope: MutationScope::Library,
                    },
                    WorkView::Settle,
                ],
                ..app
            }
        }),
{
    reveal(AppView::part_done);
    let left = app.without_first();
    assert(left.todo =~= seq![WorkView::Settle]);
    if actions.len() > 0 {
        let frame = WorkView::Submit {
            prompt,
            rest: actions.skip(1),
            scope: MutationScope::Library,
        };
        assert(seq![frame] + left.todo =~= seq![frame, WorkView::Settle]);
        let kept = AppView { todo: seq![frame] + left.todo, ..left };
        match actions[0] {
            Action::Spawn(task) => {
                lemma_spawning_asks_nothing(kept, task, facts);
            },
            Action::OpenModal(next) => {
                lemma_opens(kept, next, facts);
            },
            _ => {},
        }
    }
}

/// A text whose write is waited for was put aside for it.
proof fn lemma_text_is_put_aside(app: AppView, actions: Vec<Action>, facts: PageFacts)
    requires
        app.at_rest(),
        app.blocked(facts),
        actions@.len() > 0 ==> (actions@[0] is Error || actions@[0] is Write
            || actions@[0] is WriteMeta || actions@[0] is OpenModal || actions@[0] is Spawn),
        app.with_actions(seq![Action::SubmitInput(actions)], false).brought(facts, 2).waiting
            is Some,
    ensures
        actions@.len() > 0,
        app.with_actions(seq![Action::SubmitInput(actions)], false).brought(facts, 2).saving(
            app,
            actions@.skip(1),
            MutationScope::Library,
        ),
{
    let action = Action::SubmitInput(actions);
    let begun = app.with_actions(seq![action], false);
    assert(begun.brought(facts, 2) == begun.advanced(facts).advanced(facts)) by {
        reveal_with_fuel(AppView::brought, 3);
    }
    lemma_begins(app, action, facts);
    let calm = AppView { todo: seq![WorkView::Settle], ..app };
    if calm.refuses(action, MutationScope::Library) {
        assert(calm.applied(action, MutationScope::Library, facts) == calm.refused()) by {
            reveal_with_fuel(AppView::applied, 2);
        }
        lemma_settles(calm.refused(), facts);
    } else {
        lemma_text_is_taken(calm, actions, facts);
        lemma_first_part_is_a_write(begun.advanced(facts), app.modal, actions@, facts);
    }
}

/// A text whose write failed is back, and what waits goes on waiting.
proof fn lemma_failed_write_brings_the_text_back(
    before: AppView,
    asking: AppView,
    rest: Seq<Action>,
    result: WriteResult,
    now: u64,
    later: PageFacts,
)
    requires
        asking.saving(before, rest, MutationScope::Library),
        before.modal is Some,
        result is Err,
    ensures
        ({
            let after = asking.write_taken(result, now).brought(later, 4);
            &&& after.modal == before.modal
            &&& after.pending == before.pending
            &&& after.at_rest()
            &&& stays_clear(before, after)
        }),
{
    let left = asking.answered().without_first();
    assert(left.todo =~= seq![WorkView::Settle]);
    lemma_rescan_leaves_the_text(left);
    let back = asking.write_taken(result, now);
    lemma_four_turns(back, later);
    lemma_settles(back, later);
}

/// Where nothing is shown, what has waited longest is opened.
proof fn lemma_next_is_opened(app: AppView, next: Box<Modal>, facts: PageFacts)
    requires
        app.waiting is None,
        app.todo == seq![WorkView::Settle],
        app.modal is None,
        app.only_dialogs(facts),
        app.pending.len() > 0,
        app.pending[0] == Action::OpenModal(next),
    ensures
        ({
            let after = app.advanced(facts).advanced(facts);
            &&& after.modal == Some((*next)@)
            &&& after.pending == app.pending.skip(1)
            &&& after.at_rest()
            &&& after.advanced(facts) == after
            &&& stays_clear(app, after)
        }),
{
    let told = app.announced();
    let taken = AppView { pending: told.pending.skip(1), ..told };
    assert(app.advanced(facts) == taken.applied(
        Action::OpenModal(next),
        MutationScope::Library,
        facts,
    ));
    lemma_opens(taken, next, facts);
    lemma_settles(app.advanced(facts), facts);
}

/// What was written is chosen.
proof fn lemma_written_is_chosen(app: AppView, action: Action, facts: PageFacts)
    requires
        action is SelectPreset || action is SelectTag,
    ensures
        app.applied(action, MutationScope::Library, facts) == (AppView {
            effects: app.applied(action, MutationScope::Library, facts).effects,
            ..app
        }),
{
    reveal_with_fuel(AppView::applied, 2);
    reveal(AppView::view_changed);
}

/// A text that was written is gone, and what has waited longest is opened.
proof fn lemma_saved_text_gives_way(
    before: AppView,
    asking: AppView,
    rest: Seq<Action>,
    result: WriteResult,
    now: u64,
    later: PageFacts,
    next: Box<Modal>,
)
    requires
        asking.saving(before, rest, MutationScope::Library),
        rest.len() <= 1,
        rest.len() == 1 ==> rest[0] is SelectPreset || rest[0] is SelectTag,
        result is Ok,
        before.only_dialogs(later),
        before.pending.len() > 0,
        before.pending[0] == Action::OpenModal(next),
    ensures
        ({
            let after = asking.write_taken(result, now).brought(later, 4);
            &&& after.modal == Some((*next)@)
            &&& after.pending == before.pending.skip(1)
            &&& after.at_rest()
            &&& stays_clear(before, after)
        }),
{
    lemma_change_leaves_the_text(asking.answered(), MutationScope::Library, now);
    let made = asking.write_taken(result, now);
    lemma_four_turns(made, later);
    let settle = seq![WorkView::Settle];
    assert(made.todo.skip(1) =~= settle);
    if rest.len() == 0 {
        lemma_next_is_opened(made.without_first(), next, later);
    } else {
        reveal(AppView::part_done);
        let none = WorkView::Submit {
            prompt: before.modal,
            rest: rest.skip(1),
            scope: MutationScope::Library,
        };
        assert(rest.skip(1).len() == 0);
        assert(seq![none] + settle =~= seq![none, WorkView::Settle]);
        let kept = AppView { todo: seq![none] + settle, ..made.without_first() };
        lemma_written_is_chosen(kept, rest[0], later);
        let chosen = made.advanced(later);
        assert(chosen.todo.skip(1) =~= settle);
        lemma_next_is_opened(chosen.without_first(), next, later);
    }
}

/// What is waited for where Enter asks for a write, and what is left to do after it.
proof fn lemma_what_is_saved(
    before: App,
    key: KeyEvent,
    facts: PageFacts,
    around: Surfaces,
    result: WriteResult,
    now: u64,
    later: PageFacts,
    after: App,
) -> (r: (AppView, Seq<Action>))
    requires
        before@.at_rest(),
        before@.only_dialogs(facts),
        before@.modal is Some,
        before@.modal->0 is Input,
        key.code == KeyCode::Enter,
        before.saved(Msg::Key(key), facts, around, result, now, later, after),
    ensures
        r.0.saving(before@, r.1, MutationScope::Library),
        r.1.len() <= 1,
        r.1.len() == 1 ==> r.1[0] is SelectPreset || r.1[0] is SelectTag,
        after@ == (AppView {
            effects: after@.effects,
            ..r.0.write_taken(result, now).brought(later, 4)
        }),
{
    reveal(App::saved);
    let next = choose|next: App| #[trigger]
        before.handled(Msg::Key(key), facts, around, next, None) && {
            let asking = next@.brought(facts, 2);
            &&& asking.waiting is Some
            &&& asking.waiting->0 is Write
            &&& after@ == (AppView {
                effects: after@.effects,
                ..asking.write_taken(result, now).brought(later, 4)
            })
        };
    let actions = lemma_enter_submits(before, key, facts, around, next);
    if actions@.len() > 0 {
        lemma_what_a_text_asks_for(
            before@.modal->0->Input_0,
            around.dialog.prompt,
            before@.snap,
            actions@,
        );
    }
    lemma_text_is_put_aside(before@, actions, facts);
    (next@.brought(facts, 2), actions@.skip(1))
}

/// A text whose write fails keeps its dialog, its cursor and all that waits.
pub proof fn lemma_a_failed_text_stays(
    before: App,
    key: KeyEvent,
    facts: PageFacts,
    around: Surfaces,
    result: WriteResult,
    now: u64,
    later: PageFacts,
    after: App,
)
    requires
        before@.at_rest(),
        before@.only_dialogs(facts),
        before@.modal is Some,
        before@.modal->0 is Input,
        key.code == KeyCode::Enter,
        result is Err,
        before.saved(Msg::Key(key), facts, around, result, now, later, after),
    ensures
        after@.modal == before@.modal,
        after@.pending == before@.pending,
        after@.at_rest(),
        stays_clear(before@, after@),
{
    let (asking, rest) = lemma_what_is_saved(
        before,
        key,
        facts,
        around,
        result,
        now,
        later,
        after,
    );
    lemma_failed_write_brings_the_text_back(before@, asking, rest, result, now, later);
}

/// A text that is written gives way to the dialog that has waited longest, and the rest goes
/// on waiting.
pub proof fn lemma_a_saved_text_gives_way(
    before: App,
    key: KeyEvent,
    dialog: ModalView,
    facts: PageFacts,
    around: Surfaces,
    result: WriteResult,
    now: u64,
    later: PageFacts,
    after: App,
)
    requires
        before@.at_rest(),
        before@.only_dialogs(facts),
        before@.only_dialogs(later),
        before@.modal is Some,
        before@.modal->0 is Input,
        before@.pending.len() > 0,
        is_opening(before@.pending[0], dialog),
        key.code == KeyCode::Enter,
        result is Ok,
        before.saved(Msg::Key(key), facts, around, result, now, later, after),
    ensures
        after@.modal == Some(dialog),
        after@.pending == before@.pending.skip(1),
        after@.at_rest(),
        stays_clear(before@, after@),
{
    let (asking, rest) = lemma_what_is_saved(
        before,
        key,
        facts,
        around,
        result,
        now,
        later,
        after,
    );
    lemma_saved_text_gives_way(
        before@,
        asking,
        rest,
        result,
        now,
        later,
        before@.pending[0]->OpenModal_0,
    );
}

impl App {
    /// Enter does not get the text that is being entered accepted: it is rejected at once,
    /// or its write fails.
    #[verifier::opaque]
    pub open spec fn turned_down(
        self,
        key: KeyEvent,
        facts: PageFacts,
        around: Surfaces,
        after: App,
    ) -> bool {
        &&& key.code == KeyCode::Enter
        &&& {
            ||| {
                &&& is_rejected(self@.modal->0->Input_0, around.dialog.prompt, self@.snap)
                &&& self.received(Msg::Key(key), facts, around, after)
            }
            ||| exists|result: WriteResult, now: u64, later: PageFacts|
                result is Err && #[trigger] self.saved(
                    Msg::Key(key),
                    facts,
                    around,
                    result,
                    now,
                    later,
                    after,
                )
        }
    }

    /// The dialog of the text that is being entered goes: an event closes it, or Enter gets
    /// the text written.
    #[verifier::opaque]
    pub open spec fn let_go(
        self,
        msg: Msg,
        facts: PageFacts,
        around: Surfaces,
        after: App,
    ) -> bool {
        ||| self.is_closed_by(msg, facts, around) && self.received(msg, facts, around, after)
        ||| {
            &&& msg matches Msg::Key(key)
            &&& key.code == KeyCode::Enter
            &&& exists|result: WriteResult, now: u64, later: PageFacts|
                result is Ok && self@.only_dialogs(later) && #[trigger] self.saved(
                    msg,
                    facts,
                    around,
                    result,
                    now,
                    later,
                    after,
                )
        }
    }
}

proof fn lemma_turned_down_stays(
    before: App,
    key: KeyEvent,
    facts: PageFacts,
    around: Surfaces,
    after: App,
)
    requires
        before@.at_rest(),
        before@.only_dialogs(facts),
        before@.modal is Some,
        before@.modal->0 is Input,
        before.turned_down(key, facts, around, after),
    ensures
        after@.modal == before@.modal,
        after@.pending == before@.pending,
        after@.at_rest(),
        stays_clear(before@, after@),
{
    reveal(App::turned_down);
    if is_rejected(before@.modal->0->Input_0, around.dialog.prompt, before@.snap)
        && before.received(Msg::Key(key), facts, around, after) {
        lemma_a_rejected_text_stays(before, key, facts, around, after);
    } else {
        let (result, now, later) = choose|result: WriteResult, now: u64, later: PageFacts|
            result is Err && #[trigger] before.saved(
                Msg::Key(key),
                facts,
                around,
                result,
                now,
                later,
                after,
            );
        lemma_a_failed_text_stays(before, key, facts, around, result, now, later, after);
    }
}

proof fn lemma_let_go_shows_the_next(
    before: App,
    msg: Msg,
    dialog: ModalView,
    facts: PageFacts,
    around: Surfaces,
    after: App,
)
    requires
        before@.at_rest(),
        before@.only_dialogs(facts),
        before@.modal is Some,
        before@.modal->0 is Input,
        before@.pending.len() > 0,
        is_opening(before@.pending[0], dialog),
        before.let_go(msg, facts, around, after),
    ensures
        after@.modal == Some(dialog),
        after@.pending == before@.pending.skip(1),
        after@.at_rest(),
        stays_clear(before@, after@),
{
    reveal(App::let_go);
    if before.is_closed_by(msg, facts, around) && before.received(msg, facts, around, after) {
        lemma_the_next_is_shown(before, msg, dialog, facts, around, after);
    } else {
        let (result, now, later) = choose|result: WriteResult, now: u64, later: PageFacts|
            result is Ok && before@.only_dialogs(later) && #[trigger] before.saved(
                msg,
                facts,
                around,
                result,
                now,
                later,
                after,
            );
        lemma_a_saved_text_gives_way(
            before,
            msg->Key_0,
            dialog,
            facts,
            around,
            result,
            now,
            later,
            after,
        );
    }
}

/// Two results of background work arrive while a text is being entered, and each wants to
/// show a dialog. Both wait in the order in which they arrived, and the dialog of the text,
/// its text and its cursor stay. A text that is not accepted keeps its dialog and what
/// waits. The event that ends the dialog of the text shows the first of the two, and the
/// event that closes the first shows the second; then nothing waits any more.
pub proof fn lemma_results_are_shown_one_by_one(
    typing: App,
    once: App,
    twice: App,
    kept: App,
    first: App,
    second: App,
    ids: (u64, u64),
    outs: (Box<TaskOutput>, Box<TaskOutput>),
    dialogs: (ModalView, ModalView),
    enter: KeyEvent,
    ending: Msg,
    closing: Msg,
    facts: Seq<PageFacts>,
    around: Seq<Surfaces>,
)
    requires
        typing@.at_rest(),
        typing@.modal is Some,
        typing@.modal->0 is Input,
        typing@.pending.len() == 0,
        forall|i: int| 0 <= i < 5 ==> typing@.only_dialogs(#[trigger] facts[i]),
        typing.is_shown(ids.0, *outs.0, dialogs.0, facts[0]),
        typing.received(Msg::Task(ids.0, outs.0), facts[0], around[0], once),
        once.is_shown(ids.1, *outs.1, dialogs.1, facts[1]),
        once.received(Msg::Task(ids.1, outs.1), facts[1], around[1], twice),
        twice.turned_down(enter, facts[2], around[2], kept),
        kept.let_go(ending, facts[3], around[3], first),
        first.is_closed_by(closing, facts[4], around[4]),
        first.received(closing, facts[4], around[4], second),
    ensures
        twice@.modal == typing@.modal,
        twice@.pending.len() == 2,
        is_opening(twice@.pending[0], dialogs.0),
        is_opening(twice@.pending[1], dialogs.1),
        kept@.modal == typing@.modal,
        kept@.pending == twice@.pending,
        first@.modal == Some(dialogs.0),
        first@.pending == seq![twice@.pending[1]],
        second@.modal == Some(dialogs.1),
        second@.pending.len() == 0,
{
    assert(typing@.only_dialogs(facts[0]));
    lemma_a_result_waits(typing, ids.0, outs.0, dialogs.0, facts[0], around[0], once);
    lemma_a_result_waits(once, ids.1, outs.1, dialogs.1, facts[1], around[1], twice);
    assert(once@.pending =~= seq![once@.pending.last()]);
    assert(twice@.pending[0] == twice@.pending.drop_last()[0]);
    assert(typing@.only_dialogs(facts[2]));
    lemma_turned_down_stays(twice, enter, facts[2], around[2], kept);
    assert(typing@.only_dialogs(facts[3]));
    lemma_let_go_shows_the_next(kept, ending, dialogs.0, facts[3], around[3], first);
    assert(first@.pending =~= seq![twice@.pending[1]]);
    assert(typing@.only_dialogs(facts[4]));
    lemma_the_next_is_shown(first, closing, dialogs.1, facts[4], around[4], second);
}

// ---- steps of the history ----------------------------------------------------

impl AppView {
    /// Nothing is left to do but what follows every event.
    pub open spec fn at_rest_but_settling(self) -> bool {
        self.waiting is None && self.todo == seq![WorkView::Settle]
    }
}

/// Among what `after` wants done beyond `before` the history does not move.
pub open spec fn history_stays(before: AppView, after: AppView) -> bool {
    &&& before.effects.len() <= after.effects.len()
    &&& after.effects.take(before.effects.len() as int) == before.effects
    &&& forall|i: int|
        before.effects.len() <= i < after.effects.len() ==> !(
        #[trigger] after.effects[i] matches EffectView::Does(Effect::Commit(_)))
}

proof fn lemma_rescan_leaves_the_history(app: AppView)
    ensures
        history_stays(app, app.rescanned()),
        app.rescanned().todo == app.todo,
        app.rescanned().waiting == app.waiting,
{
    reveal(AppView::rescanned);
    reveal(AppView::spawned);
    reveal(AppView::running);
    let read = app.does(Effect::Reload);
    assert(app.rescanned().effects.take(app.effects.len() as int) =~= app.effects);
}

/// A confirmed undo or redo whose write is refused, because other work is running, or fails,
/// leaves the history where it was: nothing moves it, and no move of it is left to do. What
/// stood in the way is told, or the names that collided are asked about.
pub proof fn lemma_a_failed_step_is_not_taken(
    app: AppView,
    actions: Seq<Action>,
    write: Write,
    step: Step,
    background: Option<Vec<String>>,
    title: Seq<char>,
    scope: MutationScope,
    facts: PageFacts,
    result: WriteResult,
    now: u64,
)
    requires
        app.at_rest(),
        writes(actions, write, Some(step), background, title, scope),
        result is Err,
    ensures
        ({
            let closed = app.with_actions(actions, false).advanced(facts);
            let begun = closed.advanced(facts);
            let answered = begun.answered().write_answered(scope, true, Some(step), result, now);
            &&& closed.effects == app.effects
            &&& begun.todo == seq![WorkView::Settle]
            &&& if app.refuses(Action::WriteMeta(write), scope) {
                begun.at_rest_but_settling() && begun.effects == app.effects.push(
                    EffectView::Tell(busy_text(), Level::Info),
                )
            } else {
                &&& begun.waiting == Some(
                    Waiting::Write { write, scope, meta: true, submitted: false, step: Some(step) },
                )
                &&& begun.effects == app.effects
                &&& history_stays(app, answered)
                &&& answered.at_rest_but_settling()
                &&& match result->Err_0.conflict {
                    Some(number) => answered.modal == Some(ModalView::DeploymentChoices(number)),
                    None => answered.effects.len() > app.effects.len()
                        && answered.effects[app.effects.len() as int] == EffectView::Tell(
                        result->Err_0.text@,
                        Level::Error,
                    ),
                }
            }
        }),
{
    lemma_step_begins(app, actions, write, step, background, title, scope, facts);
    let begun = app.with_actions(actions, false).advanced(facts).advanced(facts);
    if !app.refuses(Action::WriteMeta(write), scope) {
        let base = begun.answered();
        match result->Err_0.conflict {
            Some(number) => {
                lemma_rescan_leaves_the_history(base.choosing(number));
                reveal(AppView::rescanned);
                reveal(AppView::spawned);
                reveal(AppView::running);
            },
            None => {
                let told = base.told(result->Err_0.text@, Level::Error);
                lemma_rescan_leaves_the_history(told);
                let after = told.rescanned();
                assert(after.effects.take(told.effects.len() as int)[app.effects.len() as int]
                    == told.effects.last());
                assert(after.effects.take(app.effects.len() as int) =~= after.effects.take(
                    told.effects.len() as int,
                ).take(app.effects.len() as int));
                assert(after.effects.take(app.effects.len() as int) =~= app.effects);
                assert forall|i: int| app.effects.len() <= i < after.effects.len() implies !(
                #[trigger] after.effects[i] matches EffectView::Does(Effect::Commit(_))) by {
                    if i == app.effects.len() {
                    } else {
                        assert(told.effects.len() <= i);
                    }
                }
            },
        }
    }
}

/// How a confirmed undo or redo begins: its dialog closes, and its write is waited for, or
/// refused.
proof fn lemma_step_begins(
    app: AppView,
    actions: Seq<Action>,
    write: Write,
    step: Step,
    background: Option<Vec<String>>,
    title: Seq<char>,
    scope: MutationScope,
    facts: PageFacts,
)
    requires
        app.at_rest(),
        writes(actions, write, Some(step), background, title, scope),
    ensures
        ({
            let closed = app.with_actions(actions, false).advanced(facts);
            let begun = closed.advanced(facts);
            &&& closed.effects == app.effects
            &&& begun.todo == seq![WorkView::Settle]
            &&& if app.refuses(Action::WriteMeta(write), scope) {
                begun.waiting is None && begun.effects == app.effects.push(
                    EffectView::Tell(busy_text(), Level::Info),
                )
            } else {
                &&& begun.waiting == Some(
                    Waiting::Write { write, scope, meta: true, submitted: false, step: Some(step) },
                )
                &&& begun.effects == app.effects
            }
        }),
{
    let begun = app.with_actions(actions, false);
    assert(begun.todo =~= seq![
        WorkView::Act {
            action: actions[0],
            scope: MutationScope::Library,
            background: false,
        },
        WorkView::Act {
            action: actions[1],
            scope: MutationScope::Library,
            background: false,
        },
        WorkView::Act {
            action: actions[2],
            scope: MutationScope::Library,
            background: false,
        },
        WorkView::Settle,
    ]);
    lemma_closes(begun.without_first(), facts);
    let closed = begun.advanced(facts);
    let rest = closed.without_first();
    assert(rest.todo =~= begun.todo.skip(2));
    assert(rest.todo.skip(1) =~= seq![WorkView::Settle]);
    lemma_begins_to_write(rest, write, scope, facts);
    if scope == MutationScope::Deployment {
        match actions[1] {
            Action::Deployment(inner) => lemma_unwraps(rest, inner, facts),
            _ => {},
        }
    }
    assert(closed.advanced(facts) == rest.applied(
        Action::WriteMeta(write),
        scope,
        facts,
    ));
}

/// A confirmed undo or redo whose write goes through moves the history, once, as the last
/// thing that is done about it.
pub proof fn lemma_a_step_is_taken_once_written(
    app: AppView,
    scope: MutationScope,
    step: Step,
    result: WriteResult,
    now: u64,
)
    requires
        result is Ok,
    ensures
        app.write_answered(scope, true, Some(step), result, now).effects.last()
            == EffectView::Does(Effect::Commit(step)),
{
}

} // verus!
