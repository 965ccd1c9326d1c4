//! The order in which things are done, and what is done with the answers that they wait for.

use crate::app::apply::is_showing;
use crate::app::effects::{all_sound, dialog_view, work_views, Effect, EffectView, Waiting, Work, WorkView};
use crate::app::state::{App, AppView, PageFacts};
use crate::app::{Action, Level, Step};
use crate::dialogs::confirm::links_applied;
use crate::event::WriteFailure;
use crate::modal::{links_dialog, step_dialog, Modal, ModalView};
use crate::model::{
    any_changes, has_change, known, Intent, LinkAction, MutationScope, PlannedLink, Settings,
    Snapshot, Write,
};
use crate::sync_coordinator::ProbeReason;
use crate::sync_picker::{fresh, SyncPicker, SyncPickerView};
use crate::text::{cat2, cat3, clone_optional};
use vstd::prelude::*;

verus! {

// ---- one thing after the other -----------------------------------------------

/// The actions of an event, as work.
pub open spec fn as_work(actions: Seq<Action>, background: bool) -> Seq<WorkView> {
    actions.map_values(
        |action: Action| WorkView::Act { action, scope: MutationScope::Library, background },
    )
}

/// The scope of an action within a text that was entered, and the action itself.
pub open spec fn scoped(action: Action, scope: MutationScope) -> (MutationScope, Action) {
    match action {
        Action::Deployment(inner) => (MutationScope::Deployment, *inner),
        _ => (scope, action),
    }
}

impl AppView {
    /// The actions of an event are done after what is left to do, and then it is settled.
    pub open spec fn with_actions(self, actions: Seq<Action>, background: bool) -> AppView {
        AppView {
            todo: self.todo + as_work(actions, background).push(WorkView::Settle),
            ..self
        }
    }

    pub open spec fn without_first(self) -> AppView {
        AppView { todo: self.todo.skip(1), ..self }
    }

    /// The next action. What finished work wants to show waits while something is shown, and
    /// while something else waits.
    pub open spec fn acted(
        self,
        action: Action,
        scope: MutationScope,
        background: bool,
        facts: PageFacts,
    ) -> AppView {
        let rest = self.without_first();
        if background && is_showing(action) && (self.blocked(facts) || self.pending.len() > 0) {
            AppView { pending: self.pending.push(action), queued: true, ..rest }
        } else {
            rest.applied(action, scope, facts)
        }
    }

    /// What waits is told once for an event.
    pub open spec fn announced(self) -> AppView {
        if self.queued {
            AppView { queued: false, ..self }.told(
                "task ready — waiting for the current dialog"@,
                Level::Info,
            )
        } else {
            self
        }
    }

    /// After an event: what waits is shown, one after the other, as long as nothing else is;
    /// and an automatic synchronisation may start.
    pub open spec fn settled(self, facts: PageFacts) -> AppView {
        let told = self.announced();
        if !told.quit && !told.blocked(facts) && told.pending.len() > 0 {
            AppView { pending: told.pending.skip(1), ..told }.applied(
                told.pending[0],
                MutationScope::Library,
                facts,
            )
        } else if told.quit {
            told.without_first()
        } else {
            told.without_first().synced_if_ready(facts)
        }
    }

    /// The next part of what a text that was entered stands for. A part that fails brings
    /// the dialog back, and the rest is dropped.
    pub open spec fn submitted(
        self,
        prompt: Option<ModalView>,
        actions: Seq<Action>,
        scope: MutationScope,
        facts: PageFacts,
    ) -> AppView {
        let rest = self.without_first();
        if actions.len() == 0 {
            rest
        } else {
            let (inner, action) = scoped(actions[0], scope);
            rest.part_done(
                WorkView::Submit { prompt, rest: actions.skip(1), scope },
                prompt,
                action,
                inner,
                facts,
            )
        }
    }

    /// One part of what a text that was entered stands for; `frame` is what is left of it.
    #[verifier::opaque]
    pub open spec fn part_done(
        self,
        frame: WorkView,
        prompt: Option<ModalView>,
        action: Action,
        scope: MutationScope,
        facts: PageFacts,
    ) -> AppView {
        let kept = AppView { todo: seq![frame] + self.todo, ..self };
        match action {
            Action::Error(error) => AppView { modal: prompt, ..self }.told(error@, Level::Error),
            Action::Write(write) => AppView {
                waiting: Some(Waiting::Write { write, scope, meta: false, submitted: true, step: None }),
                ..kept
            },
            Action::WriteMeta(write) => AppView {
                waiting: Some(Waiting::Write { write, scope, meta: true, submitted: true, step: None }),
                ..kept
            },
            _ => kept.applied(action, scope, facts),
        }
    }

    /// The next thing that is to be done is done, unless an answer is waited for.
    pub open spec fn advanced(self, facts: PageFacts) -> AppView {
        if self.waiting is Some || self.todo.len() == 0 {
            self
        } else {
            match self.todo[0] {
                WorkView::Act { action, scope, background } => self.acted(
                    action,
                    scope,
                    background,
                    facts,
                ),
                WorkView::Settle => self.settled(facts),
                WorkView::Submit { prompt, rest, scope } => self.submitted(
                    prompt,
                    rest,
                    scope,
                    facts,
                ),
            }
        }
    }
}

impl App {
    /// The actions of an event are to be done.
    pub fn queue(&mut self, actions: Vec<Action>, background: bool)
        requires
            old(self).valid(),
            all_sound(actions@),
        ensures
            final(self)@ == old(self)@.with_actions(actions@, background),
            final(self).valid(),
    {
        reveal(App::valid);
        let ghost all = actions@;
        let ghost before = self@;
        let mut rest = actions;
        let ghost mut done: Seq<Action> = Seq::empty();
        assert(as_work(done, background) =~= Seq::empty());
        assert(self@.todo =~= before.todo + as_work(done, background));
        while rest.len() > 0
            invariant
                all == done + rest@,
                all_sound(all),
                self.valid(),
                self@ == (AppView { todo: before.todo + as_work(done, background), ..before }),
            decreases rest.len(),
        {
            reveal(App::valid);
            let ghost left = rest@;
            let action = rest.remove(0);
            assert(left[0] == action);
            assert(all[done.len() as int] == action);
            let work = Work::Act { action, scope: MutationScope::Library, background };
            let ghost prior = self.todo@;
            self.todo.push(work);
            proof {
                assert(work_views(self.todo@) =~= work_views(prior).push(work@));
                assert(as_work(done.push(action), background) =~= as_work(done, background).push(
                    work@,
                ));
                assert(before.todo + as_work(done, background).push(work@) =~= (before.todo
                    + as_work(done, background)).push(work@));
                assert(done + left =~= done.push(action) + rest@);
                done = done.push(action);
            }
        }
        assert(done =~= all);
        let ghost prior = self.todo@;
        self.todo.push(Work::Settle);
        assert(work_views(self.todo@) =~= work_views(prior).push(WorkView::Settle));
        assert(self@.todo =~= before.todo + as_work(all, background).push(WorkView::Settle));
    }

    fn drop_first(&mut self) -> (r: Work)
        requires
            old(self).valid(),
            old(self)@.waiting is None,
            old(self).todo@.len() > 0,
        ensures
            final(self)@ == old(self)@.without_first(),
            r == old(self).todo@[0],
            r@ == old(self)@.todo[0],
            r.sound(),
            final(self).valid(),
    {
        reveal(App::valid);
        let ghost before = self.todo@;
        let work = self.todo.remove(0);
        assert(before[0].sound());
        assert(work_views(self.todo@) =~= work_views(before).skip(1));
        assert forall|i: int| 0 <= i < self.todo@.len() implies (#[trigger] self.todo@[i]).sound() by {
            assert(self.todo@[i] == before[i + 1]);
        }
        work
    }

    fn put_first(&mut self, work: Work)
        requires
            old(self).valid(),
            old(self)@.waiting is None,
            work.sound(),
        ensures
            final(self)@ == (AppView { todo: seq![work@] + old(self)@.todo, ..old(self)@ }),
            final(self).todo@.len() > 0,
            final(self).valid(),
    {
        reveal(App::valid);
        let ghost before = self.todo@;
        self.todo.insert(0, work);
        assert(work_views(self.todo@) =~= seq![work@] + work_views(before));
        assert forall|i: int| 0 <= i < self.todo@.len() implies (#[trigger] self.todo@[i]).sound() by {
            if i > 0 {
                assert(self.todo@[i] == before[i - 1]);
            }
        }
    }

    /// Puts the rest of a text that was entered first, and waits for its next write.
    fn wait_for_submission(&mut self, work: Work, write: Write, scope: MutationScope, meta: bool)
        requires
            old(self).valid(),
            old(self)@.waiting is None,
            work is Submit,
            work.sound(),
        ensures
            final(self)@ == (AppView {
                todo: seq![work@] + old(self)@.todo,
                waiting: Some(Waiting::Write { write, scope, meta, submitted: true, step: None }),
                ..old(self)@
            }),
            final(self).valid(),
    {
        self.put_first(work);
        reveal(App::valid);
        assert(self@.todo[0] == self.todo@[0]@);
        self.waiting = Some(Waiting::Write { write, scope, meta, submitted: true, step: None });
    }

    fn put_off(&mut self, action: Action)
        requires
            old(self).valid(),
            action.sound(),
        ensures
            final(self)@ == (AppView {
                pending: old(self)@.pending.push(action),
                queued: true,
                ..old(self)@
            }),
            final(self).valid(),
    {
        reveal(App::valid);
        self.pending_task_ui.push(action);
        self.queued = true;
    }

    fn take_pending(&mut self) -> (r: Action)
        requires
            old(self).valid(),
            old(self)@.pending.len() > 0,
        ensures
            final(self)@ == (AppView { pending: old(self)@.pending.skip(1), ..old(self)@ }),
            r == old(self)@.pending[0],
            r.sound(),
            final(self).valid(),
    {
        reveal(App::valid);
        let ghost before = self.pending_task_ui@;
        assert(before[0].sound());
        let action = self.pending_task_ui.remove(0);
        assert(self.pending_task_ui@ =~= before.skip(1));
        assert forall|i: int| 0 <= i < self.pending_task_ui@.len() implies (
        #[trigger] self.pending_task_ui@[i]).sound() by {
            assert(self.pending_task_ui@[i] == before[i + 1]);
        }
        action
    }

    fn bring_back(&mut self, prompt: Option<Modal>)
        requires
            old(self).valid(),
            prompt is Some ==> prompt->0.valid(),
        ensures
            final(self)@ == (AppView { modal: dialog_view(prompt), ..old(self)@ }),
            final(self).valid(),
    {
        reveal(App::valid);
        self.modal = prompt;
    }

    fn announce(&mut self)
        requires
            old(self).valid(),
        ensures
            final(self)@ == old(self)@.announced(),
            final(self).valid(),
    {
        if self.queued {
            reveal(App::valid);
            self.queued = false;
            self.tell("task ready — waiting for the current dialog", Level::Info);
        }
    }

    fn act(&mut self, action: Action, scope: MutationScope, background: bool, facts: PageFacts)
        requires
            old(self).valid(),
            action.sound(),
            facts.timely(),
        ensures
            final(self)@ == if background && is_showing(action) && (old(self)@.blocked(facts)
                || old(self)@.pending.len() > 0) {
                AppView {
                    pending: old(self)@.pending.push(action),
                    queued: true,
                    ..old(self)@
                }
            } else {
                old(self)@.applied(action, scope, facts)
            },
            final(self).valid(),
    {
        if background && matches!(action, Action::OpenModal(_) | Action::Search { .. }) && (
        self.task_ui_blocked(facts) || self.pending_task_ui.len() > 0) {
            self.put_off(action);
        } else {
            self.apply_scoped(action, scope, facts);
        }
    }

    fn settle(&mut self, facts: PageFacts)
        requires
            old(self).valid(),
            old(self)@.waiting is None,
            old(self).todo@.len() > 0,
            facts.timely(),
        ensures
            final(self)@ == old(self)@.settled(facts),
            final(self).valid(),
    {
        assert(self@.todo.len() == self.todo@.len());
        self.announce();
        assert(self@.todo.len() == self.todo@.len());
        if !self.quit && !self.task_ui_blocked(facts) && self.pending_task_ui.len() > 0 {
            let action = self.take_pending();
            self.apply_scoped(action, MutationScope::Library, facts);
        } else {
            let _ = self.drop_first();
            if !self.quit {
                self.sync_if_ready(facts);
            }
        }
    }

    fn do_part(
        &mut self,
        prompt: Option<Modal>,
        rest: Vec<Action>,
        scope: MutationScope,
        action: Action,
        inner: MutationScope,
        facts: PageFacts,
    )
        requires
            old(self).valid(),
            old(self)@.waiting is None,
            prompt is Some ==> prompt->0.valid(),
            all_sound(rest@),
            action.sound(),
            facts.timely(),
        ensures
            final(self)@ == old(self)@.part_done(
                WorkView::Submit { prompt: dialog_view(prompt), rest: rest@, scope },
                dialog_view(prompt),
                action,
                inner,
                facts,
            ),
            final(self).valid(),
    {
        reveal(AppView::part_done);
        match action {
            Action::Error(error) => {
                self.bring_back(prompt);
                self.toast(error, Level::Error);
            },
            Action::Write(write) => {
                self.wait_for_submission(Work::Submit { prompt, rest, scope }, write, inner, false);
            },
            Action::WriteMeta(write) => {
                self.wait_for_submission(Work::Submit { prompt, rest, scope }, write, inner, true);
            },
            other => {
                self.put_first(Work::Submit { prompt, rest, scope });
                self.apply_scoped(other, inner, facts);
            },
        }
    }

    fn unwrap_scope(action: Action, scope: MutationScope) -> (r: (MutationScope, Action))
        requires
            action.sound(),
        ensures
            r == scoped(action, scope),
            r.1.sound(),
    {
        match action {
            Action::Deployment(inner) => (MutationScope::Deployment, *inner),
            other => (scope, other),
        }
    }

    fn submit_next(
        &mut self,
        prompt: Option<Modal>,
        actions: Vec<Action>,
        scope: MutationScope,
        facts: PageFacts,
    )
        requires
            old(self).valid(),
            old(self)@.waiting is None,
            prompt is Some ==> prompt->0.valid(),
            all_sound(actions@),
            facts.timely(),
        ensures
            final(self)@ == if actions@.len() == 0 {
                old(self)@
            } else {
                old(self)@.part_done(
                    WorkView::Submit {
                        prompt: dialog_view(prompt),
                        rest: actions@.skip(1),
                        scope,
                    },
                    dialog_view(prompt),
                    scoped(actions@[0], scope).1,
                    scoped(actions@[0], scope).0,
                    facts,
                )
            },
            final(self).valid(),
    {
        if actions.len() == 0 {
            return;
        }
        let ghost all = actions@;
        let mut rest = actions;
        assert(all[0].sound());
        let first = rest.remove(0);
        assert(rest@ =~= all.skip(1));
        assert forall|i: int| 0 <= i < rest@.len() implies (#[trigger] rest@[i]).sound() by {
            assert(rest@[i] == all[i + 1]);
        }
        let (inner, action) = App::unwrap_scope(first, scope);
        self.do_part(prompt, rest, scope, action, inner, facts);
    }

    /// Does the next thing that is to be done, unless an answer is waited for. Says whether
    /// there is more that can be done at once.
    pub fn advance(&mut self, facts: PageFacts) -> (r: bool)
        requires
            old(self).valid(),
            facts.timely(),
        ensures
            final(self)@ == old(self)@.advanced(facts),
            r == (final(self)@.waiting is None && final(self)@.todo.len() > 0),
            final(self).valid(),
    {
        if self.waiting.is_some() || self.todo.len() == 0 {
            return false;
        }
        let ghost before = self@;
        assert(before.todo[0] == self.todo@[0]@);
        if matches!(self.todo[0], Work::Settle) {
            self.settle(facts);
        } else {
            match self.drop_first() {
                Work::Act { action, scope, background } => self.act(
                    action,
                    scope,
                    background,
                    facts,
                ),
                Work::Submit { prompt, rest, scope } => self.submit_next(
                    prompt,
                    rest,
                    scope,
                    facts,
                ),
                Work::Settle => {},
            }
        }
        self.waiting.is_none() && self.todo.len() > 0
    }
}

// ---- answers -----------------------------------------------------------------

/// What a write came to: how it is told and what is recorded of it, or why it failed.
pub type WriteResult = Result<(String, Option<Intent>), WriteFailure>;

/// Whether links stand in each other's way.
#[derive(Debug)]
pub enum NameCheck {
    /// They do: one is to be chosen, by the number of the choice.
    Choose(u64),
    Failed(String),
    /// They do, and there is nothing to choose from.
    Unsettled,
    Clear,
}

/// What a step of the history would do now.
#[derive(Debug)]
pub enum StepPlan {
    /// There is no such step.
    NoEntry,
    ScanFailed(String),
    Failed(String),
    Links { what: String, actions: Vec<PlannedLink> },
    Write { describe: String, number: u64 },
    /// Nothing is left to do; why.
    Nothing(String),
}

/// The first reason, from `at` on, for which a link is skipped.
pub open spec fn skip_reason(actions: Seq<PlannedLink>, at: int) -> Option<Seq<char>>
    decreases actions.len() - at,
{
    if at < 0 || at >= actions.len() {
        None
    } else {
        match actions[at].action {
            LinkAction::Skip { reason, .. } => Some(reason@),
            _ => skip_reason(actions, at + 1),
        }
    }
}

fn first_reason(actions: &Vec<PlannedLink>) -> (r: Option<String>)
    ensures
        crate::text::said(r) == skip_reason(actions@, 0),
{
    let mut i: usize = 0;
    while i < actions.len()
        invariant
            i <= actions.len(),
            skip_reason(actions@, 0) == skip_reason(actions@, i as int),
        decreases actions.len() - i,
    {
        match &actions[i].action {
            LinkAction::Skip { reason, .. } => {
                return Some(reason.clone());
            },
            _ => {},
        }
        i = i + 1;
    }
    None
}

/// What follows links that were confirmed: the dialog closes, the result is told, and it is
/// recorded, or the history moves, once the links were changed.
pub open spec fn run_actions(
    result: Result<(), String>,
    summary: String,
    step: Option<Step>,
    intent: Option<Intent>,
) -> Seq<Action> {
    match result {
        Ok(_) => {
            let told = seq![Action::CloseModal, Action::Toast(summary), Action::Rescan];
            match step {
                Some(step) => told.push(Action::Step(step)),
                None => match intent {
                    Some(intent) => told.push(Action::Record(intent)),
                    None => told,
                },
            }
        },
        Err(error) => seq![Action::CloseModal, Action::Error(error), Action::Rescan],
    }
}

pub open spec fn undo_hint(intent: Option<Intent>) -> Seq<char> {
    if intent is Some {
        " · Ctrl+Z undo"@
    } else {
        ""@
    }
}

impl AppView {
    pub open spec fn recorded(self, intent: Option<Intent>) -> AppView {
        match intent {
            Some(intent) => self.does(Effect::Record(intent)),
            None => self,
        }
    }

    /// The history moves.
    pub open spec fn stepped(self, step: Option<Step>) -> AppView {
        match step {
            Some(step) => self.does(Effect::Commit(step)),
            None => self,
        }
    }

    pub open spec fn choosing(self, number: u64) -> AppView {
        AppView { modal: Some(ModalView::DeploymentChoices(number)), ..self }
    }

    /// A write was answered. The history moves only where it went through.
    pub open spec fn write_answered(
        self,
        scope: MutationScope,
        meta: bool,
        step: Option<Step>,
        result: WriteResult,
        now: u64,
    ) -> AppView {
        match result {
            Ok((message, intent)) => if meta {
                self.told(message@ + undo_hint(intent), Level::Success).recorded(intent).mutated(
                    scope,
                    now,
                ).stepped(step)
            } else {
                self.told(message@, Level::Success).mutated(scope, now).stepped(step)
            },
            Err(failure) => if meta && failure.conflict is Some {
                self.choosing(failure.conflict->0).rescanned()
            } else {
                self.told(failure.text@, Level::Error).rescanned()
            },
        }
    }

    /// A write that belongs to a text that was entered was answered. Where it failed, the
    /// dialog comes back as it was.
    pub open spec fn submission_answered(
        self,
        scope: MutationScope,
        meta: bool,
        result: WriteResult,
        now: u64,
    ) -> AppView {
        match result {
            Ok((message, intent)) => {
                let told = self.mutated(scope, now).told(message@, Level::Success);
                if meta {
                    told.recorded(intent)
                } else {
                    told
                }
            },
            Err(failure) => {
                let prompt = match self.todo[0] {
                    WorkView::Submit { prompt, .. } => prompt,
                    _ => self.modal,
                };
                AppView { modal: prompt, ..self.without_first().rescanned() }.told(
                    failure.text@,
                    Level::Error,
                )
            },
        }
    }

    /// A note was written, or not.
    pub open spec fn note_answered(self, result: WriteResult, now: u64) -> AppView {
        match result {
            Ok((message, intent)) => self.told(message@, Level::Success).recorded(
                intent,
            ).library_changed(now),
            Err(failure) => self.told("note failed: "@ + failure.text@, Level::Error).rescanned(),
        }
    }

    /// It is known whether links stand in each other's way.
    pub open spec fn names_answered(
        self,
        title: String,
        actions: Vec<PlannedLink>,
        confirm: bool,
        check: NameCheck,
    ) -> AppView {
        match check {
            NameCheck::Choose(number) => self.choosing(number),
            NameCheck::Failed(error) => self.told(error@, Level::Error),
            _ => if confirm {
                AppView { modal: Some(links_dialog(title@, actions@, None)), ..self }
            } else if check is Unsettled {
                self
            } else if !any_changes(actions@) {
                self.told(
                    match skip_reason(actions@, 0) {
                        Some(reason) => reason,
                        None => "nothing to do"@,
                    },
                    Level::Info,
                )
            } else {
                AppView { waiting: Some(Waiting::Links { title, actions }), ..self }
            },
        }
    }

    /// Links were changed, or not.
    pub open spec fn links_answered(
        self,
        title: Seq<char>,
        result: Result<(String, Option<Intent>), String>,
    ) -> AppView {
        match result {
            Ok((summary, intent)) => self.told(summary@, Level::Success).recorded(
                intent,
            ).rescanned(),
            Err(error) => self.told(title + " failed: "@ + error@, Level::Error).rescanned(),
        }
    }

    /// It is known what a step of the history would do.
    pub open spec fn step_planned(self, step: Step, plan: StepPlan) -> AppView {
        match plan {
            StepPlan::NoEntry => self.told(
                match step {
                    Step::Undo => "nothing to undo"@,
                    Step::Redo => "nothing to redo"@,
                },
                Level::Success,
            ),
            StepPlan::ScanFailed(error) => self.told("scan failed: "@ + error@, Level::Error),
            StepPlan::Failed(error) => self.told(error@, Level::Error),
            StepPlan::Links { what, actions } => AppView {
                modal: Some(
                    links_dialog(
                        (match step {
                            Step::Undo => "undo: "@,
                            Step::Redo => "redo: "@,
                        }) + what@,
                        actions@,
                        Some(step),
                    ),
                ),
                ..self
            },
            StepPlan::Write { describe, number } => AppView {
                modal: Some(step_dialog(describe@, number, step)),
                ..self
            },
            StepPlan::Nothing(why) => self.does(Effect::Commit(step)).told(why@, Level::Success),
        }
    }

    /// The settings of the backup were read: its dialog is shown with what is known of the
    /// backup, which is looked at again.
    pub open spec fn sync_opened(self, settings: Result<Settings, String>, now: u64) -> AppView {
        match settings {
            Ok(settings) => AppView {
                modal: Some(
                    ModalView::Sync(
                        SyncPickerView {
                            status: known(self.sync.status),
                            checking: true,
                            error: self.sync.error,
                            ..fresh(settings)
                        },
                    ),
                ),
                ..self.without_menus()
            }.observing(true, ProbeReason::Manual, now),
            Err(error) => self.told(error@, Level::Error),
        }
    }

    /// The library was read on the way.
    pub open spec fn seeing(self, snap: Option<Snapshot>) -> AppView {
        match snap {
            Some(snap) => AppView { snap, ..self },
            None => self,
        }
    }

    pub open spec fn answered(self) -> AppView {
        AppView { waiting: None, ..self }
    }

    /// The write that is waited for was made, or failed.
    pub open spec fn write_taken(self, result: WriteResult, now: u64) -> AppView {
        match self.waiting->0 {
            Waiting::Write { scope, meta, submitted, step, .. } => if submitted {
                self.answered().submission_answered(scope, meta, result, now)
            } else {
                self.answered().write_answered(scope, meta, step, result, now)
            },
            _ => self.answered().note_answered(result, now),
        }
    }
}

impl App {
    fn stop_waiting(&mut self) -> (r: Option<Waiting>)
        requires
            old(self).valid(),
        ensures
            final(self)@ == old(self)@.answered(),
            r == old(self)@.waiting,
            final(self).todo == old(self).todo,
            final(self).valid(),
    {
        reveal(App::valid);
        self.waiting.take()
    }

    fn record(&mut self, intent: Option<Intent>)
        requires
            old(self).valid(),
        ensures
            final(self)@ == old(self)@.recorded(intent),
            final(self).valid(),
    {
        match intent {
            Some(intent) => self.emit(Effect::Record(intent)),
            None => {},
        }
    }

    fn show(&mut self, modal: Modal)
        requires
            old(self).valid(),
            modal.valid(),
        ensures
            final(self)@ == (AppView { modal: Some(modal@), ..old(self)@ }),
            final(self).valid(),
    {
        self.bring_back(Some(modal));
    }

    fn answer_write(
        &mut self,
        scope: MutationScope,
        meta: bool,
        step: Option<Step>,
        result: WriteResult,
        now: u64,
    )
        requires
            old(self).valid(),
            now + 900_000 <= u64::MAX,
        ensures
            final(self)@ == old(self)@.write_answered(scope, meta, step, result, now),
            final(self).valid(),
    {
        match result {
            Ok((message, intent)) => {
                if meta {
                    let hint = if intent.is_some() {
                        " · Ctrl+Z undo"
                    } else {
                        ""
                    };
                    self.toast(cat2(message.as_str(), hint), Level::Success);
                    self.record(intent);
                } else {
                    self.toast(message, Level::Success);
                }
                self.mutation_finished(scope, now);
                match step {
                    Some(step) => self.emit(Effect::Commit(step)),
                    None => {},
                }
            },
            Err(failure) => {
                match failure.conflict {
                    Some(number) => {
                        if meta {
                            self.show(Modal::DeploymentChoices(number));
                        } else {
                            self.toast(failure.text, Level::Error);
                        }
                    },
                    None => self.toast(failure.text, Level::Error),
                }
                self.rescan();
            },
        }
    }

    fn answer_submission(&mut self, scope: MutationScope, meta: bool, result: WriteResult, now: u64)
        requires
            old(self).valid(),
            now + 900_000 <= u64::MAX,
            old(self)@.waiting is None,
            old(self).todo@.len() > 0,
            old(self)@.todo[0] is Submit,
        ensures
            final(self)@ == old(self)@.submission_answered(scope, meta, result, now),
            final(self).valid(),
    {
        match result {
            Ok((message, intent)) => {
                self.mutation_finished(scope, now);
                self.toast(message, Level::Success);
                if meta {
                    self.record(intent);
                }
            },
            Err(failure) => {
                match self.drop_first() {
                    Work::Submit { prompt, .. } => {
                        self.rescan();
                        self.bring_back(prompt);
                    },
                    _ => {},
                }
                self.toast(failure.text, Level::Error);
            },
        }
    }

    /// A write was made, or failed.
    pub fn written(&mut self, result: WriteResult, now: u64)
        requires
            old(self).valid(),
            now + 900_000 <= u64::MAX,
            old(self)@.waiting is Some,
            old(self)@.waiting->0 is Write || old(self)@.waiting->0 is Note,
        ensures
            final(self)@ == old(self)@.write_taken(result, now),
            final(self).valid(),
    {
        proof {
            reveal(App::valid);
            if self.todo@.len() > 0 {
                assert(self@.todo[0] == self.todo@[0]@);
            }
        }
        match self.stop_waiting() {
            Some(Waiting::Write { scope, meta, submitted, step, .. }) => {
                if submitted {
                    self.answer_submission(scope, meta, result, now);
                } else {
                    self.answer_write(scope, meta, step, result, now);
                }
            },
            _ => match result {
                Ok((message, intent)) => {
                    self.toast(message, Level::Success);
                    self.record(intent);
                    self.library_changed(now);
                },
                Err(failure) => {
                    self.toast(cat2("note failed: ", failure.text.as_str()), Level::Error);
                    self.rescan();
                },
            },
        }
    }

    /// It is known whether links stand in each other's way.
    pub fn names_checked(&mut self, check: NameCheck)
        requires
            old(self).valid(),
            old(self)@.waiting is Some,
            old(self)@.waiting->0 is Names,
        ensures
            final(self)@ == match old(self)@.waiting->0 {
                Waiting::Names { title, actions, confirm } => old(
                    self,
                )@.answered().names_answered(title, actions, confirm, check),
                _ => old(self)@,
            },
            final(self).valid(),
    {
        let (title, actions, confirm) = match self.stop_waiting() {
            Some(Waiting::Names { title, actions, confirm }) => (title, actions, confirm),
            _ => {
                return;
            },
        };
        match check {
            NameCheck::Choose(number) => self.show(Modal::DeploymentChoices(number)),
            NameCheck::Failed(error) => self.toast(error, Level::Error),
            NameCheck::Unsettled => {
                if confirm {
                    self.show(Modal::confirm(title, actions));
                }
            },
            NameCheck::Clear => {
                if confirm {
                    self.show(Modal::confirm(title, actions));
                } else if !has_change(&actions) {
                    match first_reason(&actions) {
                        Some(reason) => self.toast(reason, Level::Info),
                        None => self.tell("nothing to do", Level::Info),
                    }
                } else {
                    self.wait(Waiting::Links { title, actions });
                }
            },
        }
    }

    /// Links were changed, or not: how that is told and what is recorded of it.
    pub fn linked(&mut self, result: Result<(String, Option<Intent>), String>)
        requires
            old(self).valid(),
            old(self)@.waiting is Some,
            old(self)@.waiting->0 is Links,
        ensures
            final(self)@ == match old(self)@.waiting->0 {
                Waiting::Links { title, .. } => old(self)@.answered().links_answered(
                    title@,
                    result,
                ),
                _ => old(self)@,
            },
            final(self).valid(),
    {
        let title = match self.stop_waiting() {
            Some(Waiting::Links { title, .. }) => title,
            _ => {
                return;
            },
        };
        match result {
            Ok((summary, intent)) => {
                self.toast(summary, Level::Success);
                self.record(intent);
            },
            Err(error) => self.toast(
                cat3(title.as_str(), " failed: ", error.as_str()),
                Level::Error,
            ),
        }
        self.rescan();
    }

    fn do_first(&mut self, actions: Vec<Action>)
        requires
            old(self).valid(),
            old(self)@.waiting is None,
            all_sound(actions@),
        ensures
            final(self)@ == old(self)@.first(actions@, MutationScope::Library),
            final(self).valid(),
    {
        let ghost before = self@;
        let ghost all = actions@;
        let mut rest = actions;
        assert(as_work(all.skip(all.len() as int), false) + before.todo =~= before.todo);
        while rest.len() > 0
            invariant
                rest@ == all.take(rest@.len() as int),
                rest@.len() <= all.len(),
                all_sound(all),
                self.valid(),
                before.waiting is None,
                self@ == (AppView {
                    todo: as_work(all.skip(rest@.len() as int), false) + before.todo,
                    ..before
                }),
            decreases rest.len(),
        {
            let ghost n = rest@.len() as int;
            match rest.pop() {
                Some(action) => {
                    assert(action == all[n - 1]);
                    let work = Work::Act {
                        action,
                        scope: MutationScope::Library,
                        background: false,
                    };
                    self.put_first(work);
                    assert(rest@ =~= all.take(n - 1));
                    assert(as_work(all.skip(n - 1), false) =~= seq![work@] + as_work(
                        all.skip(n),
                        false,
                    ));
                    assert(seq![work@] + (as_work(all.skip(n), false) + before.todo) =~= as_work(
                        all.skip(n - 1),
                        false,
                    ) + before.todo);
                },
                None => {},
            }
        }
        assert(all.skip(0) =~= all);
        assert(self@.todo =~= before.first(all, MutationScope::Library).todo);
    }

    /// Links that were confirmed were changed, or not. What follows is done before anything
    /// else.
    pub fn links_run(&mut self, result: Result<(), String>, summary: String, intent: Option<Intent>)
        requires
            old(self).valid(),
            old(self)@.waiting is Some,
            old(self)@.waiting->0 is RunLinks,
        ensures
            final(self)@ == old(self)@.answered().first(
                run_actions(result, summary, old(self)@.waiting->0->RunLinks_step, intent),
                MutationScope::Library,
            ),
            final(self).valid(),
    {
        let step = match self.stop_waiting() {
            Some(Waiting::RunLinks { step, .. }) => step,
            _ => None,
        };
        let actions = links_applied(result, summary, step, intent);
        assert(actions@ == run_actions(result, summary, step, intent));
        self.do_first(actions);
    }

    /// It is known what a step of the history would do, seen how the library is now.
    #[verifier::rlimit(50)]
    pub fn planned(&mut self, snap: Option<Snapshot>, plan: StepPlan)
        requires
            old(self).valid(),
            old(self)@.waiting is Some,
            old(self)@.waiting->0 is Plan,
        ensures
            final(self)@ == old(self)@.answered().seeing(snap).step_planned(
                old(self)@.waiting->0->Plan_0,
                plan,
            ),
            final(self).valid(),
    {
        let step = match self.stop_waiting() {
            Some(Waiting::Plan(step)) => step,
            _ => {
                return;
            },
        };
        match snap {
            Some(snap) => {
                reveal(App::valid);
                self.snap = snap;
            },
            None => {},
        }
        match plan {
            StepPlan::NoEntry => self.tell(
                match step {
                    Step::Undo => "nothing to undo",
                    Step::Redo => "nothing to redo",
                },
                Level::Success,
            ),
            StepPlan::ScanFailed(error) => self.toast(
                cat2("scan failed: ", error.as_str()),
                Level::Error,
            ),
            StepPlan::Failed(error) => self.toast(error, Level::Error),
            StepPlan::Links { what, actions } => {
                let title = cat2(
                    match step {
                        Step::Undo => "undo: ",
                        Step::Redo => "redo: ",
                    },
                    what.as_str(),
                );
                self.show(Modal::confirm_then(title, actions, Some(step)));
            },
            StepPlan::Write { describe, number } => {
                self.show(Modal::undo_write(describe.as_str(), number, step));
            },
            StepPlan::Nothing(why) => {
                self.emit(Effect::Commit(step));
                self.toast(why, Level::Success);
            },
        }
    }

    /// The settings of the backup were read.
    pub fn sync_settings_read(&mut self, settings: Result<Settings, String>, now: u64)
        requires
            old(self).valid(),
            now + 900_000 <= u64::MAX,
            old(self)@.waiting == Some(Waiting::SyncSettings),
        ensures
            final(self)@ == old(self)@.answered().sync_opened(settings, now),
            final(self).valid(),
    {
        let _ = self.stop_waiting();
        match settings {
            Ok(settings) => {
                let status = match &self.sync.status {
                    Some(status) => Some(status.clone()),
                    None => None,
                };
                let error = clone_optional(&self.sync.error);
                let picker = SyncPicker::with_status(settings, status, true, error);
                self.close_menus();
                self.show(Modal::Sync(Box::new(picker)));
                self.refresh_sync_status(true, ProbeReason::Manual, now);
            },
            Err(error) => self.toast(error, Level::Error),
        }
    }

    /// An editor was closed: the note is written, or why not is told.
    pub fn finish_external(&mut self, outcome: Result<(String, Option<String>), String>)
        requires
            old(self).valid(),
        ensures
            match outcome {
                Ok((skill, None)) => final(self)@ == old(self)@.told(
                    "note unchanged on "@ + skill@,
                    Level::Info,
                ),
                Ok((skill, Some(text))) => final(self)@ == (AppView {
                    waiting: Some(Waiting::Note(Write::EditNote { skill, text })),
                    ..old(self)@
                }),
                Err(error) => final(self)@ == old(self)@.told(
                    "editor: "@ + error@,
                    Level::Error,
                ).rescanned(),
            },
            final(self).valid(),
    {
        match outcome {
            Ok((skill, text)) => match text {
                None => self.toast(cat2("note unchanged on ", skill.as_str()), Level::Info),
                Some(text) => self.wait(Waiting::Note(Write::EditNote { skill, text })),
            },
            Err(error) => {
                self.toast(cat2("editor: ", error.as_str()), Level::Error);
                self.rescan();
            },
        }
    }
}

// ---- laws --------------------------------------------------------------------

impl AppView {
    /// What the application asked for in this order, after what it had asked for before.
    pub open spec fn asked_after(self, before: AppView, i: int) -> EffectView {
        self.effects[before.effects.len() + i]
    }
}

/// A write that went through is told and, where it can be taken back, recorded; the step of
/// the history that waited for it is taken then, and only then.
pub proof fn lemma_a_write_is_told(
    app: AppView,
    message: String,
    intent: Option<Intent>,
    step: Option<Step>,
    now: u64,
)
    ensures
        ({
            let after = app.write_answered(
                MutationScope::Deployment,
                true,
                step,
                Ok((message, intent)),
                now,
            );
            &&& after.effects.len() > app.effects.len()
            &&& after.asked_after(app, 0) == EffectView::Tell(
                message@ + (if intent is Some {
                    " · Ctrl+Z undo"@
                } else {
                    ""@
                }),
                Level::Success,
            )
            &&& intent is Some ==> after.asked_after(app, 1) == EffectView::Does(
                Effect::Record(intent->0),
            )
            &&& step is Some ==> after.effects.last() == EffectView::Does(Effect::Commit(step->0))
        }),
        ({
            let after = app.write_answered(
                MutationScope::Deployment,
                false,
                step,
                Ok((message, intent)),
                now,
            );
            &&& after.asked_after(app, 0) == EffectView::Tell(message@, Level::Success)
            &&& after.asked_after(app, 1) == EffectView::Does(Effect::Reload)
            &&& step is Some ==> after.effects.last() == EffectView::Does(Effect::Commit(step->0))
        }),
{
    reveal(AppView::mutated);
    reveal(AppView::rescanned);
    reveal(AppView::spawned);
}

/// A write that failed is told, or asks which of several skills of one name is meant; no
/// step is taken and nothing is recorded.
pub proof fn lemma_a_failed_write_is_told(
    app: AppView,
    scope: MutationScope,
    meta: bool,
    step: Option<Step>,
    failure: WriteFailure,
    now: u64,
)
    ensures
        ({
            let after = app.write_answered(scope, meta, step, Err(failure), now);
            &&& after.sync == app.sync
            &&& meta && failure.conflict is Some ==> {
                &&& after.modal == Some(ModalView::DeploymentChoices(failure.conflict->0))
                &&& after.asked_after(app, 0) == EffectView::Does(Effect::Reload)
            }
            &&& !(meta && failure.conflict is Some) ==> {
                &&& after.modal == app.modal
                &&& after.asked_after(app, 0) == EffectView::Tell(failure.text@, Level::Error)
                &&& after.asked_after(app, 1) == EffectView::Does(Effect::Reload)
            }
            &&& forall|i: int|
                app.effects.len() <= i < after.effects.len() ==> !((#[trigger] after.effects[i])
                    is Does && (after.effects[i]->Does_0 is Commit || after.effects[i]->Does_0
                    is Record))
        }),
{
    reveal(AppView::rescanned);
    reveal(AppView::spawned);
}

/// A note that was written is told and recorded, and its backup is to follow; one that was
/// not is told, and the library is read again.
pub proof fn lemma_a_note_is_told(app: AppView, result: WriteResult, now: u64)
    ensures
        result is Ok ==> {
            let after = app.note_answered(result, now);
            &&& after.asked_after(app, 0) == EffectView::Tell(result->Ok_0.0@, Level::Success)
            &&& result->Ok_0.1 is Some ==> after.asked_after(app, 1) == EffectView::Does(
                Effect::Record(result->Ok_0.1->0),
            )
        },
        result is Err ==> {
            let after = app.note_answered(result, now);
            &&& after.asked_after(app, 0) == EffectView::Tell(
                "note failed: "@ + result->Err_0.text@,
                Level::Error,
            )
            &&& after.asked_after(app, 1) == EffectView::Does(Effect::Reload)
        },
{
    reveal(AppView::library_changed);
    reveal(AppView::observing);
    reveal(AppView::rescanned);
    reveal(AppView::spawned);
}

/// The first link that is skipped gives the reason, whatever is skipped after it.
pub proof fn lemma_the_first_reason_is_given(actions: Seq<PlannedLink>, at: int, i: int)
    requires
        0 <= at <= i < actions.len(),
        actions[i].action is Skip,
        forall|j: int| at <= j < i ==> !((#[trigger] actions[j]).action is Skip),
    ensures
        skip_reason(actions, at) == Some(actions[i].action->Skip_reason@),
    decreases i - at,
{
    if at < i {
        assert(!(actions[at].action is Skip));
        lemma_the_first_reason_is_given(actions, at + 1, i);
    }
}

/// Where nothing is skipped there is no reason.
pub proof fn lemma_no_reason_without_a_skip(actions: Seq<PlannedLink>, at: int)
    requires
        0 <= at <= actions.len(),
        forall|j: int| at <= j < actions.len() ==> !((#[trigger] actions[j]).action is Skip),
    ensures
        skip_reason(actions, at) is None,
    decreases actions.len() - at,
{
    if at < actions.len() {
        assert(!(actions[at].action is Skip));
        lemma_no_reason_without_a_skip(actions, at + 1);
    }
}

/// Links whose names are clear are shown for confirmation where that was asked for, and are
/// changed at once where it was not and one of them changes something. Names that stand in
/// each other's way are asked about instead, and nothing is changed.
pub proof fn lemma_checked_links_are_changed(
    app: AppView,
    title: String,
    actions: Vec<PlannedLink>,
    check: NameCheck,
    i: int,
)
    requires
        0 <= i < actions@.len(),
        !(actions@[i].action is Skip),
    ensures
        ({
            let asked = app.names_answered(title, actions, true, check);
            let done = app.names_answered(title, actions, false, check);
            &&& check is Choose ==> {
                &&& asked == (AppView {
                    modal: Some(ModalView::DeploymentChoices(check->Choose_0)),
                    ..app
                })
                &&& done == asked
            }
            &&& check is Failed ==> {
                &&& done == (AppView {
                    effects: app.effects.push(
                        EffectView::Tell(check->Failed_0@, Level::Error),
                    ),
                    ..app
                })
                &&& asked == done
            }
            &&& check is Clear || check is Unsettled ==> {
                &&& asked.modal is Some
                &&& asked.modal->0 is Confirm
                &&& asked.modal->0->Confirm_0.actions == actions@
                &&& asked.modal->0->Confirm_0.title == title@
                &&& asked.modal->0->Confirm_0.step is None
                &&& asked.waiting == app.waiting
            }
            &&& check is Unsettled ==> done == app
            &&& check is Clear ==> done == (AppView {
                waiting: Some(Waiting::Links { title, actions }),
                ..app
            })
        }),
{
    assert(actions@[i].action.changes());
}

/// Links that are all skipped are not changed: the first reason why is told.
pub proof fn lemma_skipped_links_are_not_changed(
    app: AppView,
    title: String,
    actions: Vec<PlannedLink>,
)
    requires
        actions@.len() > 0,
        forall|j: int| 0 <= j < actions@.len() ==> (#[trigger] actions@[j]).action is Skip,
    ensures
        app.names_answered(title, actions, false, NameCheck::Clear) == (AppView {
            effects: app.effects.push(
                EffectView::Tell(actions@[0].action->Skip_reason@, Level::Info),
            ),
            ..app
        }),
{
    assert(actions@[0].action is Skip);
    lemma_the_first_reason_is_given(actions@, 0, 0);
}

/// Changed links are told and recorded, and the library is read again; where it failed, the
/// title says of what.
pub proof fn lemma_changed_links_are_told(
    app: AppView,
    title: Seq<char>,
    result: Result<(String, Option<Intent>), String>,
)
    ensures
        ({
            let after = app.links_answered(title, result);
            &&& after.sync == app.sync
            &&& result is Ok ==> {
                &&& after.asked_after(app, 0) == EffectView::Tell(
                    result->Ok_0.0@,
                    Level::Success,
                )
                &&& result->Ok_0.1 is Some ==> {
                    &&& after.asked_after(app, 1) == EffectView::Does(
                        Effect::Record(result->Ok_0.1->0),
                    )
                    &&& after.asked_after(app, 2) == EffectView::Does(Effect::Reload)
                }
                &&& result->Ok_0.1 is None ==> after.asked_after(app, 1) == EffectView::Does(
                    Effect::Reload,
                )
            }
            &&& result is Err ==> {
                &&& after.asked_after(app, 0) == EffectView::Tell(
                    title + " failed: "@ + result->Err_0@,
                    Level::Error,
                )
                &&& after.asked_after(app, 1) == EffectView::Does(Effect::Reload)
            }
        }),
{
    reveal(AppView::rescanned);
    reveal(AppView::spawned);
}

/// Confirmed links close their dialog, are told, and the library is read; a step of the
/// history is taken, or the change recorded, only where they were changed.
pub proof fn lemma_confirmed_links_are_followed_up(
    result: Result<(), String>,
    summary: String,
    step: Option<Step>,
    intent: Option<Intent>,
)
    ensures
        ({
            let actions = run_actions(result, summary, step, intent);
            &&& actions.len() >= 3
            &&& actions[0] == Action::CloseModal
            &&& actions[2] == Action::Rescan
            &&& result is Ok ==> actions[1] == Action::Toast(summary)
            &&& result is Err ==> actions[1] == Action::Error(result->Err_0) && actions.len() == 3
            &&& result is Ok && step is Some ==> actions.len() == 4 && actions[3] == Action::Step(
                step->0,
            )
            &&& result is Ok && step is None && intent is Some ==> actions.len() == 4 && actions[3]
                == Action::Record(intent->0)
            &&& result is Ok && step is None && intent is None ==> actions.len() == 3
        }),
{
}

/// A step of the history that would change links shows them, and one that writes shows what
/// it takes back, for confirmation; either dialog takes that step. One with nothing left to
/// do is taken at once.
pub proof fn lemma_a_step_is_shown_first(app: AppView, step: Step, plan: StepPlan)
    ensures
        ({
            let after = app.step_planned(step, plan);
            &&& plan is NoEntry ==> after == (AppView {
                effects: app.effects.push(
                    EffectView::Tell(
                        if step == Step::Undo {
                            "nothing to undo"@
                        } else {
                            "nothing to redo"@
                        },
                        Level::Success,
                    ),
                ),
                ..app
            })
            &&& plan is ScanFailed ==> after == (AppView {
                effects: app.effects.push(
                    EffectView::Tell("scan failed: "@ + plan->ScanFailed_0@, Level::Error),
                ),
                ..app
            })
            &&& plan is Failed ==> after == (AppView {
                effects: app.effects.push(EffectView::Tell(plan->Failed_0@, Level::Error)),
                ..app
            })
            &&& plan is Write ==> {
                &&& after.effects == app.effects
                &&& after.modal is Some
                &&& after.modal->0 is ConfirmWrite
                &&& after.modal->0->ConfirmWrite_0.write == Some(Write::TakeBack(plan->number))
                &&& after.modal->0->ConfirmWrite_0.step == Some(step)
                &&& after.modal->0->ConfirmWrite_0.scope == MutationScope::Library
                &&& !after.modal->0->ConfirmWrite_0.on_cancel
                &&& step == Step::Undo ==> after.modal->0->ConfirmWrite_0.title == " undo "@
                &&& step == Step::Redo ==> after.modal->0->ConfirmWrite_0.title == " redo "@
            }
            &&& plan is Nothing ==> {
                &&& after.modal == app.modal
                &&& after.effects == app.effects.push(
                    EffectView::Does(Effect::Commit(step)),
                ).push(EffectView::Tell(plan->Nothing_0@, Level::Success))
            }
        }),
{
}

/// A step that changes links is confirmed with the links themselves, under its direction.
pub proof fn lemma_a_step_of_links_is_confirmed(
    app: AppView,
    step: Step,
    what: String,
    actions: Vec<PlannedLink>,
    i: int,
)
    requires
        0 <= i < actions@.len(),
        !(actions@[i].action is Skip),
    ensures
        ({
            let after = app.step_planned(step, StepPlan::Links { what, actions });
            &&& after.effects == app.effects
            &&& after.modal is Some
            &&& after.modal->0 is Confirm
            &&& after.modal->0->Confirm_0.actions == actions@
            &&& after.modal->0->Confirm_0.step == Some(step)
            &&& !after.modal->0->Confirm_0.on_cancel
            &&& step == Step::Undo ==> after.modal->0->Confirm_0.title == "undo: "@ + what@
            &&& step == Step::Redo ==> after.modal->0->Confirm_0.title == "redo: "@ + what@
        }),
{
    assert(actions@[i].action.changes());
}

/// The dialog of the backup opens with the settings that were read and what is known of the
/// backup, which is looked at from afar.
pub proof fn lemma_the_backup_is_shown(app: AppView, settings: Settings, now: u64)
    ensures
        ({
            let after = app.sync_opened(Ok(settings), now);
            &&& after.modal is Some
            &&& after.modal->0 is Sync
            &&& after.modal->0->Sync_0.settings == settings
            &&& after.modal->0->Sync_0.status == known(app.sync.status)
            &&& after.modal->0->Sync_0.error == app.sync.error
            &&& after.modal->0->Sync_0.checking
            &&& after.context_menu is None
            &&& after.command_palette is None
            &&& app.sync.can_probe() ==> {
                &&& after.effects.len() == app.effects.len() + 1
                &&& after.effects.last() is Does
                &&& after.effects.last()->Does_0 is Observe
                &&& after.effects.last()->Does_0->Observe_remote
            }
        }),
{
    reveal(AppView::observing);
}

/// Everything an event asks for is done in its order, after what is still to be done, and
/// what follows an event comes last.
pub proof fn lemma_actions_are_done_in_order(
    app: AppView,
    actions: Seq<Action>,
    background: bool,
    i: int,
)
    requires
        0 <= i < actions.len(),
    ensures
        ({
            let after = app.with_actions(actions, background);
            &&& after.todo.len() == app.todo.len() + actions.len() + 1
            &&& after.todo.take(app.todo.len() as int) == app.todo
            &&& after.todo[app.todo.len() + i] == (WorkView::Act {
                action: actions[i],
                scope: MutationScope::Library,
                background,
            })
            &&& after.todo.last() is Settle
        }),
{
    let after = app.with_actions(actions, background);
    assert(after.todo.take(app.todo.len() as int) =~= app.todo);
}

/// While an answer is waited for nothing further is done.
pub proof fn lemma_an_answer_is_waited_for(app: AppView, facts: PageFacts)
    requires
        app.waiting is Some || app.todo.len() == 0,
    ensures
        app.advanced(facts) == app,
{
}

/// A part of a text that writes is waited for with the rest kept behind it; a part that is
/// an error brings the dialog back and drops the rest.
pub proof fn lemma_parts_of_a_text(
    app: AppView,
    prompt: Option<ModalView>,
    actions: Seq<Action>,
    scope: MutationScope,
    facts: PageFacts,
    rest: Seq<WorkView>,
)
    requires
        app.waiting is None,
        app.todo == seq![WorkView::Submit { prompt, rest: actions, scope }] + rest,
        actions.len() > 0,
    ensures
        ({
            let after = app.advanced(facts);
            &&& actions[0] is Write ==> after == (AppView {
                waiting: Some(
                    Waiting::Write {
                        write: actions[0]->Write_0,
                        scope,
                        meta: false,
                        submitted: true,
                        step: None,
                    },
                ),
                todo: seq![WorkView::Submit { prompt, rest: actions.skip(1), scope }] + rest,
                ..app
            })
            &&& actions[0] is WriteMeta ==> after == (AppView {
                waiting: Some(
                    Waiting::Write {
                        write: actions[0]->WriteMeta_0,
                        scope,
                        meta: true,
                        submitted: true,
                        step: None,
                    },
                ),
                todo: seq![WorkView::Submit { prompt, rest: actions.skip(1), scope }] + rest,
                ..app
            })
            &&& actions[0] is Error ==> {
                &&& after.modal == prompt
                &&& after.todo == rest
                &&& after.waiting is None
                &&& after.effects == app.effects.push(
                    EffectView::Tell(actions[0]->Error_0@, Level::Error),
                )
            }
        }),
{
    reveal(AppView::part_done);
    assert(app.todo.skip(1) =~= rest);
}

/// A write of a text that went through is told, and recorded where it can be taken back;
/// the rest of the text is done next.
pub proof fn lemma_a_written_text_is_told(
    app: AppView,
    meta: bool,
    message: String,
    intent: Option<Intent>,
    now: u64,
)
    ensures
        ({
            let after = app.submission_answered(
                MutationScope::Deployment,
                meta,
                Ok((message, intent)),
                now,
            );
            let n = after.effects.len() as int;
            &&& after.todo == app.todo
            &&& after.modal == app.modal
            &&& meta && intent is Some ==> {
                &&& after.effects[n - 1] == EffectView::Does(Effect::Record(intent->0))
                &&& after.effects[n - 2] == EffectView::Tell(message@, Level::Success)
            }
            &&& !(meta && intent is Some) ==> after.effects[n - 1] == EffectView::Tell(
                message@,
                Level::Success,
            )
        }),
{
    reveal(AppView::mutated);
    reveal(AppView::rescanned);
    reveal(AppView::spawned);
}

/// What had to wait is told once, and nothing where nothing had to.
pub proof fn lemma_what_waits_is_told_once(app: AppView)
    ensures
        app.queued ==> {
            &&& !app.announced().queued
            &&& app.announced().effects == app.effects.push(
                EffectView::Tell("task ready — waiting for the current dialog"@, Level::Info),
            )
            &&& app.announced().announced() == app.announced()
        },
        !app.queued ==> app.announced() == app,
{
}

/// The library that was read on the way is what is shown from then on.
pub proof fn lemma_what_was_read_is_kept(app: AppView, snap: Option<Snapshot>)
    ensures
        snap is Some ==> app.seeing(snap).snap == snap->0,
        snap is None ==> app.seeing(snap) == app,
        app.seeing(snap).modal == app.modal,
        app.seeing(snap).effects == app.effects,
{
}

} // verus!
