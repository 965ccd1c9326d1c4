//! What follows when work that ran beside the interface is done.

use crate::app::effects::{all_sound, Effect};
use crate::app::state::{busied, owns_batch, App, AppView, PageFacts};
use crate::app::{both, complains, is_error, is_toast, nothing, only, tells, Action, Level, Tab};
use crate::dialogs::browser::{source_query_token, source_token};
use crate::dialogs::message::{Message, MessageView};
use crate::dialogs::resolve::undecided;
use crate::event::{
    count_inventory, count_new, count_updates, AutoSyncFailure, BatchOutcome, InstallFailure,
    InventoryState, Task, TaskOutput,
};
use crate::modal::{Modal, ModalView};
use crate::model::{
    AutoSyncDisposition, Intent, Prepared, Report, Settings, Snapshot,
};
use crate::repository_picker::{
    choice_at, find_choice, restored, Candidate, FetchedRepository, InstallSelection, NamedPath,
    RepositoryPicker,
};
use crate::sync_coordinator::ProbeReason;
use crate::sync_picker::{fresh, Request, SyncPicker, SyncPickerView, SyncStepView};
use crate::text::{
    cat2, cat3, cat4, cat5, cat6, decimal, join, joined, numeral, same_text, texts,
};
use vstd::prelude::*;

verus! {

/// The action opens this dialog.
pub open spec fn is_opening(action: Action, dialog: ModalView) -> bool {
    action matches Action::OpenModal(modal) && (*modal)@ == dialog
}

fn opening(modal: Modal) -> (r: Action)
    requires
        modal.valid(),
    ensures
        r == Action::OpenModal(Box::new(modal)),
        is_opening(r, modal@),
        r.sound(),
{
    Action::OpenModal(Box::new(modal))
}

fn error_of(context: &str, detail: &str) -> (r: Vec<Action>)
    ensures
        complains(r@, context@ + detail@),
        all_sound(r@),
{
    only(Action::Error(cat2(context, detail)))
}

// ---- the repair, and the setup of the backup ---------------------------------

#[verifier::opaque]
pub open spec fn repair_planned(result: Result<u64, String>, actions: Seq<Action>) -> bool {
    match result {
        Ok(number) => actions.len() == 1 && is_opening(
            actions[0],
            ModalView::HealthRepair(number),
        ),
        Err(error) => complains(actions, "Repair preview: "@ + error@),
    }
}

fn on_repair_plan(result: Result<u64, String>) -> (r: Vec<Action>)
    ensures
        repair_planned(result, r@),
        all_sound(r@),
{
    reveal(repair_planned);
    match result {
        Ok(number) => only(opening(Modal::HealthRepair(number))),
        Err(error) => error_of("Repair preview: ", error.as_str()),
    }
}

#[verifier::opaque]
pub open spec fn repair_applied(result: Result<Vec<String>, String>, actions: Seq<Action>) -> bool {
    &&& actions.len() == 2
    &&& actions[0] == Action::Rescan
    &&& match result {
        Ok(lines) => is_opening(
            actions[1],
            ModalView::Message(
                MessageView {
                    title: "Repair results"@,
                    lines: texts(lines@),
                    scroll: 0,
                    return_to: None,
                },
            ),
        ),
        Err(error) => is_error(
            actions[1],
            "Repair: "@ + error@ + "; inspect status; earlier actions may have completed"@,
        ),
    }
}

fn on_repair_applied(result: Result<Vec<String>, String>) -> (r: Vec<Action>)
    ensures
        repair_applied(result, r@),
        all_sound(r@),
{
    reveal(repair_applied);
    match result {
        Ok(lines) => both(Action::Rescan, opening(Modal::message("Repair results", lines))),
        Err(error) => both(
            Action::Rescan,
            Action::Error(
                cat3(
                    "Repair: ",
                    error.as_str(),
                    "; inspect status; earlier actions may have completed",
                ),
            ),
        ),
    }
}

/// The backup is looked at again, without its remote side, because it was set up anew.
pub open spec fn looks_at_setup(action: Action) -> bool {
    action == Action::RefreshSyncStatus { remote: false, reason: ProbeReason::Configuration }
}

#[verifier::opaque]
pub open spec fn sync_configured(result: Result<(), String>, actions: Seq<Action>) -> bool {
    match result {
        Ok(_) => {
            &&& actions.len() == 3
            &&& actions[0] == Action::Rescan
            &&& looks_at_setup(actions[1])
            &&& is_toast(actions[2], "Root auto-sync enabled"@)
        },
        Err(error) => complains(actions, "Root sync setup: "@ + error@),
    }
}

fn on_sync_configured(result: Result<(), String>) -> (r: Vec<Action>)
    ensures
        sync_configured(result, r@),
        all_sound(r@),
{
    reveal(sync_configured);
    match result {
        Ok(_) => {
            let mut actions = both(
                Action::Rescan,
                Action::RefreshSyncStatus { remote: false, reason: ProbeReason::Configuration },
            );
            actions.push(Action::Toast("Root auto-sync enabled".to_owned()));
            actions
        },
        Err(error) => error_of("Root sync setup: ", error.as_str()),
    }
}

#[verifier::opaque]
pub open spec fn sync_disabled(result: Result<(), String>, actions: Seq<Action>) -> bool {
    match result {
        Ok(_) => {
            &&& actions.len() == 2
            &&& looks_at_setup(actions[0])
            &&& is_toast(actions[1], "Automatic root sync disabled; Git history retained"@)
        },
        Err(error) => complains(actions, "Disable root sync: "@ + error@),
    }
}

fn on_sync_disabled(result: Result<(), String>) -> (r: Vec<Action>)
    ensures
        sync_disabled(result, r@),
        all_sound(r@),
{
    reveal(sync_disabled);
    match result {
        Ok(_) => both(
            Action::RefreshSyncStatus { remote: false, reason: ProbeReason::Configuration },
            Action::Toast("Automatic root sync disabled; Git history retained".to_owned()),
        ),
        Err(error) => error_of("Disable root sync: ", error.as_str()),
    }
}

// ---- synchronisations --------------------------------------------------------

pub open spec fn truth(b: bool) -> Seq<char> {
    if b {
        "true"@
    } else {
        "false"@
    }
}

fn truth_text(b: bool) -> (r: &'static str)
    ensures
        r@ == truth(b),
{
    if b {
        "true"
    } else {
        "false"
    }
}

/// How a synchronisation that went well is told.
pub open spec fn synced_text(report: Report) -> Seq<char> {
    "Root synced: backup "@ + truth(report.committed) + ", pull "@ + truth(report.pulled)
        + ", push "@ + truth(report.pushed)
}

fn synced(report: &Report) -> (r: String)
    ensures
        r@ == synced_text(*report),
{
    cat6(
        "Root synced: backup ",
        truth_text(report.committed),
        ", pull ",
        truth_text(report.pulled),
        ", push ",
        truth_text(report.pushed),
    )
}

/// The backup is looked at again after a run.
pub open spec fn looks_after_run(action: Action) -> bool {
    action == Action::RefreshSyncStatus { remote: true, reason: ProbeReason::AfterRun }
}

fn look_after_run() -> (r: Action)
    ensures
        looks_after_run(r),
        r.sound(),
{
    Action::RefreshSyncStatus { remote: true, reason: ProbeReason::AfterRun }
}

/// How a failed automatic synchronisation is told, by what is done about it.
pub open spec fn failure_told(
    disposition: AutoSyncDisposition,
    conflict: bool,
    detail: Seq<char>,
    action: Action,
) -> bool {
    match disposition {
        AutoSyncDisposition::Transient => is_error(
            action,
            "Root sync will retry after the next status check; local changes retained"@,
        ),
        AutoSyncDisposition::Fatal => is_error(
            action,
            if conflict {
                "Root sync conflict; local backup retained. Resolve with Git, then retry"@
            } else {
                "Root sync stopped: "@ + detail
            },
        ),
        AutoSyncDisposition::WorkingTreeChanged => is_toast(
            action,
            "Library changed externally; automatic sync paused"@,
        ),
    }
}

pub fn auto_sync_failure_action(disposition: AutoSyncDisposition, conflict: bool, detail: &str) -> (r:
    Action)
    ensures
        failure_told(disposition, conflict, detail@, r),
        r.sound(),
{
    match disposition {
        AutoSyncDisposition::Transient => Action::Error(
            "Root sync will retry after the next status check; local changes retained".to_owned(),
        ),
        AutoSyncDisposition::Fatal => {
            if conflict {
                Action::Error(
                    "Root sync conflict; local backup retained. Resolve with Git, then retry".to_owned(),
                )
            } else {
                Action::Error(cat2("Root sync stopped: ", detail))
            }
        },
        AutoSyncDisposition::WorkingTreeChanged => Action::Toast(
            "Library changed externally; automatic sync paused".to_owned(),
        ),
    }
}

impl AppView {
    /// No batch is running any more.
    pub open spec fn batch_over(self) -> AppView {
        AppView { batch_running: false, ..self }
    }

    /// A synchronisation is over: where quitting waited for it, the application quits.
    pub open spec fn sync_over(self) -> AppView {
        if self.quit_prompt is Some && self.quit_prompt->0.sync_in_progress {
            AppView { quit_prompt: None, quit: true, ..self.batch_over() }
        } else {
            self.batch_over()
        }
    }

    pub open spec fn history_lost(self, lost: bool) -> AppView {
        if lost {
            self.does(Effect::ForgetHistory)
        } else {
            self
        }
    }

    /// A synchronisation that was asked for is over.
    #[verifier::opaque]
    pub open spec fn manual_sync_over(self, request: Request, result: Result<Report, String>) -> AppView {
        let over = self.sync_over();
        if result is Ok && request.dry_run {
            over
        } else {
            let scanned = over.rescanned();
            AppView { sync: scanned.sync.finish_manual_sync(), ..scanned }.history_lost(
                result is Ok && result->Ok_0.pulled,
            )
        }
    }

    /// An automatic synchronisation is over.
    #[verifier::opaque]
    pub open spec fn auto_sync_over(self, result: Result<Report, AutoSyncFailure>) -> AppView {
        let scanned = self.sync_over().rescanned();
        AppView {
            sync: scanned.sync.finish_auto_sync(
                match result {
                    Ok(_) => Ok(()),
                    Err(failure) => Err(failure.disposition),
                },
            ),
            ..scanned
        }.history_lost(result is Ok && result->Ok_0.pulled)
    }
}

/// What a synchronisation that was asked for asks for in turn: its preview is shown, or its
/// result told and the backup looked at.
#[verifier::opaque]
pub open spec fn manual_sync_told(
    request: Request,
    result: Result<Report, String>,
    settings: Result<Settings, String>,
    actions: Seq<Action>,
) -> bool {
    match result {
        Ok(report) => if request.dry_run {
            match settings {
                Ok(settings) => actions.len() == 1 && is_opening(
                    actions[0],
                    ModalView::Sync(
                        SyncPickerView {
                            step: SyncStepView::Preview { request, report },
                            ..fresh(settings).with_selected(Some(0))
                        },
                    ),
                ),
                Err(error) => complains(actions, error@),
            }
        } else {
            actions.len() == 2 && looks_after_run(actions[0]) && is_toast(
                actions[1],
                synced_text(report),
            )
        },
        Err(error) => actions.len() == 2 && looks_after_run(actions[0]) && is_error(
            actions[1],
            "Root sync pending: "@ + error@ + "; local changes retained"@,
        ),
    }
}

#[verifier::opaque]
pub open spec fn auto_sync_told(result: Result<Report, AutoSyncFailure>, actions: Seq<Action>) -> bool {
    &&& actions.len() == 2
    &&& looks_after_run(actions[0])
    &&& match result {
        Ok(report) => is_toast(actions[1], synced_text(report)),
        Err(failure) => failure_told(
            failure.disposition,
            failure.conflict,
            failure.detail@,
            actions[1],
        ),
    }
}

impl App {
    fn end_batch(&mut self)
        requires
            old(self).valid(),
        ensures
            final(self)@ == old(self)@.batch_over(),
            final(self).valid(),
    {
        reveal(App::valid);
        self.batch_running = false;
    }

    fn disable_sync(&mut self)
        requires
            old(self).valid(),
        ensures
            final(self)@ == (AppView { sync: old(self)@.sync.disable(), ..old(self)@ }),
            final(self).valid(),
    {
        reveal(App::valid);
        self.sync.disable();
    }

    fn end_sync(&mut self)
        requires
            old(self).valid(),
        ensures
            final(self)@ == old(self)@.sync_over(),
            final(self).valid(),
    {
        reveal(App::valid);
        self.batch_running = false;
        match self.quit_prompt {
            Some(prompt) => {
                if prompt.sync_in_progress {
                    self.quit_prompt = None;
                    self.quit = true;
                }
            },
            None => {},
        }
    }

    fn forget_history(&mut self, lost: bool)
        requires
            old(self).valid(),
        ensures
            final(self)@ == old(self)@.history_lost(lost),
            final(self).valid(),
    {
        if lost {
            self.emit(Effect::ForgetHistory);
        }
    }

    fn on_sync(
        &mut self,
        request: Request,
        result: Result<Report, String>,
        settings: Result<Settings, String>,
    ) -> (r: Vec<Action>)
        requires
            old(self).valid(),
        ensures
            final(self)@ == old(self)@.manual_sync_over(request, result),
            manual_sync_told(request, result, settings, r@),
            all_sound(r@),
            final(self).valid(),
    {
        reveal(AppView::manual_sync_over);
        reveal(manual_sync_told);
        self.end_sync();
        match result {
            Ok(report) => {
                if request.dry_run {
                    return match settings {
                        Ok(settings) => only(
                            opening(
                                Modal::Sync(
                                    Box::new(SyncPicker::preview(settings, request, report)),
                                ),
                            ),
                        ),
                        Err(error) => only(Action::Error(error)),
                    };
                }
                self.rescan();
                proof {
                    reveal(App::valid);
                }
                self.sync.finish_manual_sync(true);
                self.forget_history(report.pulled);
                both(look_after_run(), Action::Toast(synced(&report)))
            },
            Err(error) => {
                self.rescan();
                proof {
                    reveal(App::valid);
                }
                self.sync.finish_manual_sync(false);
                both(
                    look_after_run(),
                    Action::Error(
                        cat3("Root sync pending: ", error.as_str(), "; local changes retained"),
                    ),
                )
            },
        }
    }

    fn on_auto_sync(&mut self, result: Result<Report, AutoSyncFailure>) -> (r: Vec<Action>)
        requires
            old(self).valid(),
        ensures
            final(self)@ == old(self)@.auto_sync_over(result),
            auto_sync_told(result, r@),
            all_sound(r@),
            final(self).valid(),
    {
        reveal(AppView::auto_sync_over);
        reveal(auto_sync_told);
        self.end_sync();
        self.rescan();
        proof {
            reveal(App::valid);
        }
        match result {
            Ok(report) => {
                self.sync.finish_auto_sync(Ok(()));
                self.forget_history(report.pulled);
                both(look_after_run(), Action::Toast(synced(&report)))
            },
            Err(failure) => {
                self.sync.finish_auto_sync(Err(failure.disposition));
                both(
                    look_after_run(),
                    auto_sync_failure_action(
                        failure.disposition,
                        failure.conflict,
                        failure.detail.as_str(),
                    ),
                )
            },
        }
    }
}

// ---- batches -----------------------------------------------------------------

/// The dialog that a batch leads back to where it failed.
pub open spec fn returned(app: AppView) -> Option<ModalView> {
    if app.batch_modal_owned && owns_batch(app.modal) {
        busied(app.modal, false)
    } else {
        None
    }
}

/// How a batch is told.
pub open spec fn batch_text(outcome: BatchOutcome) -> Seq<char> {
    if outcome.errors@.len() == 0 {
        outcome.message@ + crate::app::turns::undo_hint(outcome.intent)
    } else {
        outcome.message@ + "; errors: "@ + numeral(outcome.errors@.len() as int)
    }
}

impl AppView {
    /// The dialog that waited for a batch is put aside.
    pub open spec fn batch_released(self) -> AppView {
        AppView {
            batch_running: false,
            batch_modal_owned: false,
            modal: if self.batch_modal_owned && owns_batch(self.modal) {
                None
            } else {
                self.modal
            },
            ..self
        }
    }

    /// A batch is over.
    #[verifier::opaque]
    pub open spec fn batch_done(self, outcome: BatchOutcome, now: u64) -> AppView {
        let released = self.batch_released();
        if outcome.conflict is Some {
            released
        } else {
            let told = released.recorded(outcome.intent).does(
                Effect::BatchFinished(outcome.failed),
            ).told(
                batch_text(outcome),
                if outcome.errors@.len() == 0 {
                    Level::Success
                } else {
                    Level::Error
                },
            );
            match outcome.changed_scope {
                Some(scope) => told.mutated(scope, now),
                None => told.rescanned(),
            }
        }
    }
}

/// What a batch asks for: a choice between skills of one name, or nothing, or a message
/// that leads back to the dialog that started it.
#[verifier::opaque]
pub open spec fn batch_told(before: AppView, outcome: BatchOutcome, actions: Seq<Action>) -> bool {
    match outcome.conflict {
        Some(number) => actions.len() == 1 && is_opening(
            actions[0],
            ModalView::DeploymentChoices(number),
        ),
        None => if outcome.errors@.len() == 0 {
            actions.len() == 0
        } else {
            &&& actions.len() == 1
            &&& actions[0] matches Action::OpenModal(modal)
            &&& *modal matches Modal::Message(message)
            &&& message.title@ == "Operation needs attention"@
            &&& message.lines == outcome.errors
            &&& message.scroll == 0
            &&& boxed_view(message.return_to) == returned(before)
        },
    }
}

pub open spec fn boxed_view(modal: Option<Box<Modal>>) -> Option<ModalView> {
    match modal {
        Some(modal) => Some((*modal)@),
        None => None,
    }
}

impl App {
    fn release_batch(&mut self) -> (r: Option<Box<Modal>>)
        requires
            old(self).valid(),
        ensures
            final(self)@ == old(self)@.batch_released(),
            boxed_view(r) == returned(old(self)@),
            r is Some ==> r->0.valid(),
            final(self).valid(),
    {
        reveal(App::valid);
        self.batch_running = false;
        let owned = self.batch_modal_owned;
        self.batch_modal_owned = false;
        if !owned {
            return None;
        }
        match &mut self.modal {
            Some(Modal::Batch(batch)) => batch.set_busy(false),
            Some(Modal::PresetSkills(_)) => {},
            _ => {
                return None;
            },
        }
        match self.modal.take() {
            Some(modal) => Some(Box::new(modal)),
            None => None,
        }
    }

    fn tell_batch(&mut self, message: &str, errors: usize, undoable: bool)
        requires
            old(self).valid(),
        ensures
            final(self)@ == old(self)@.told(
                if errors == 0 {
                    message@ + (if undoable {
                        " · Ctrl+Z undo"@
                    } else {
                        ""@
                    })
                } else {
                    message@ + "; errors: "@ + numeral(errors as int)
                },
                if errors == 0 {
                    Level::Success
                } else {
                    Level::Error
                },
            ),
            final(self).valid(),
    {
        if errors == 0 {
            let hint = if undoable {
                " · Ctrl+Z undo"
            } else {
                ""
            };
            self.toast(cat2(message, hint), Level::Success);
        } else {
            self.toast(cat3(message, "; errors: ", decimal(errors).as_str()), Level::Error);
        }
    }

    fn report_batch(
        &mut self,
        intent: Option<Intent>,
        failed: Vec<String>,
        message: &str,
        errors: usize,
    )
        requires
            old(self).valid(),
        ensures
            final(self)@ == old(self)@.recorded(intent).does(Effect::BatchFinished(failed)).told(
                if errors == 0 {
                    message@ + crate::app::turns::undo_hint(intent)
                } else {
                    message@ + "; errors: "@ + numeral(errors as int)
                },
                if errors == 0 {
                    Level::Success
                } else {
                    Level::Error
                },
            ),
            final(self).valid(),
    {
        let undoable = intent.is_some();
        match intent {
            Some(intent) => self.emit(Effect::Record(intent)),
            None => {},
        }
        self.emit(Effect::BatchFinished(failed));
        self.tell_batch(message, errors, undoable);
    }

    fn on_batch(&mut self, outcome: BatchOutcome, now: u64) -> (r: Vec<Action>)
        requires
            old(self).valid(),
            now + 900_000 <= u64::MAX,
        ensures
            final(self)@ == old(self)@.batch_done(outcome, now),
            batch_told(old(self)@, outcome, r@),
            all_sound(r@),
            final(self).valid(),
    {
        reveal(AppView::batch_done);
        reveal(batch_told);
        let return_to = self.release_batch();
        match outcome.conflict {
            Some(number) => {
                return only(opening(Modal::DeploymentChoices(number)));
            },
            None => {},
        }
        let failures = outcome.errors.len();
        self.report_batch(outcome.intent, outcome.failed, outcome.message.as_str(), failures);
        match outcome.changed_scope {
            Some(scope) => self.mutation_finished(scope, now),
            None => self.rescan(),
        }
        if failures == 0 {
            return nothing();
        }
        let message = Message {
            title: "Operation needs attention".to_owned(),
            lines: outcome.errors,
            scroll: 0,
            return_to,
        };
        only(opening(Modal::Message(Box::new(message))))
    }
}

// ---- repositories ------------------------------------------------------------

#[verifier::opaque]
pub open spec fn fetch_told(
    reference: Seq<char>,
    result: Result<FetchedRepository, String>,
    actions: Seq<Action>,
) -> bool {
    match result {
        Ok(fetched) => actions.len() == 1 && is_opening(
            actions[0],
            ModalView::Repository(crate::repository_picker::opened(fetched)),
        ),
        Err(error) => complains(actions, "discover "@ + reference + ": "@ + error@),
    }
}

fn on_fetched(reference: &str, result: Result<FetchedRepository, String>) -> (r: Vec<Action>)
    ensures
        fetch_told(reference@, result, r@),
        all_sound(r@),
{
    reveal(fetch_told);
    match result {
        Ok(fetched) => only(
            opening(Modal::Repository(Box::new(RepositoryPicker::new(fetched)))),
        ),
        Err(error) => only(
            Action::Error(cat4("discover ", reference, ": ", error.as_str())),
        ),
    }
}

#[verifier::opaque]
pub open spec fn refresh_told(
    alias: Seq<char>,
    result: Result<Vec<InventoryState>, String>,
    current: bool,
    actions: Seq<Action>,
) -> bool {
    if !current {
        actions.len() == 0
    } else {
        match result {
            Ok(states) => tells(
                actions,
                "refreshed "@ + alias + ": "@ + numeral(count_new(states@)) + " available · "@
                    + numeral(count_updates(states@)) + " updates"@,
            ),
            Err(error) => complains(actions, "refresh "@ + alias + ": "@ + error@),
        }
    }
}

fn on_refreshed(alias: &str, result: Result<Vec<InventoryState>, String>, current: bool) -> (r: Vec<Action>)
    ensures
        refresh_told(alias@, result, current, r@),
        all_sound(r@),
{
    reveal(refresh_told);
    if !current {
        return nothing();
    }
    match result {
        Ok(states) => {
            let (fresh, updates) = count_inventory(&states);
            only(
                Action::Toast(
                    crate::text::cat7(
                        "refreshed ",
                        alias,
                        ": ",
                        decimal(fresh).as_str(),
                        " available · ",
                        decimal(updates).as_str(),
                        " updates",
                    ),
                ),
            )
        },
        Err(error) => only(Action::Error(cat4("refresh ", alias, ": ", error.as_str()))),
    }
}

/// The name is not the one that the skill would have got anyway.
pub open spec fn is_alias(choices: Seq<Candidate>, named: NamedPath) -> bool {
    match choice_at(choices, named.path@) {
        Some(i) => choices[i].local_name@ != named.name@,
        None => true,
    }
}

/// The names that were chosen for skills, other than those that they would have got.
pub open spec fn alias_texts(choices: Seq<Candidate>, names: Seq<NamedPath>) -> Seq<Seq<char>>
    decreases names.len(),
{
    if names.len() == 0 {
        Seq::empty()
    } else if is_alias(choices, names.last()) {
        alias_texts(choices, names.drop_last()).push(
            names.last().path@ + " → "@ + names.last().name@,
        )
    } else {
        alias_texts(choices, names.drop_last())
    }
}

fn list_aliases(choices: &Vec<Candidate>, names: &Vec<NamedPath>) -> (r: Vec<String>)
    ensures
        texts(r@) == alias_texts(choices@, names@),
{
    let mut out: Vec<String> = Vec::new();
    let mut i: usize = 0;
    assert(names@.take(0) =~= Seq::empty());
    assert(texts(out@) =~= Seq::empty());
    while i < names.len()
        invariant
            i <= names.len(),
            texts(out@) == alias_texts(choices@, names@.take(i as int)),
        decreases names.len() - i,
    {
        assert(names@.take(i + 1).drop_last() =~= names@.take(i as int));
        let alias = match find_choice(choices, names[i].path.as_str()) {
            Some(at) => !same_text(choices[at].local_name.as_str(), names[i].name.as_str()),
            None => true,
        };
        if alias {
            let text = cat3(names[i].path.as_str(), " → ", names[i].name.as_str());
            assert(texts(out@.push(text)) =~= texts(out@).push(text@));
            out.push(text);
        }
        i = i + 1;
    }
    assert(names@.take(i as int) =~= names@);
    out
}

/// How an installation is told.
pub open spec fn installed_text(selection: InstallSelection, count: int) -> Seq<char> {
    let aliases = alias_texts(selection.fetched.choices@, selection.names@);
    "Installed "@ + numeral(count) + " skills"@ + (if aliases.len() == 0 {
        ""@
    } else {
        "; warning: folder aliases "@ + joined(aliases, ", "@) + " (declared names unchanged)"@
    }) + "."@
}

fn installed_message(selection: &InstallSelection, count: usize) -> (r: String)
    ensures
        r@ == installed_text(*selection, count as int),
{
    let aliases = list_aliases(&selection.fetched.choices, &selection.names);
    assert(texts(aliases@).len() == aliases@.len());
    let warning = if aliases.len() == 0 {
        "".to_owned()
    } else {
        cat3(
            "; warning: folder aliases ",
            join(&aliases, ", ").as_str(),
            " (declared names unchanged)",
        )
    };
    cat5("Installed ", decimal(count).as_str(), " skills", warning.as_str(), ".")
}

/// What follows skills that were installed: each is recorded, the library is read, they are
/// shown, and what can be done with them is offered.
pub open spec fn install_told(
    keys: Seq<String>,
    query: Seq<char>,
    message: Seq<char>,
    actions: Seq<Action>,
) -> bool {
    let n = keys.len() as int;
    &&& actions.len() == n + 3
    &&& forall|i: int|
        0 <= i < n ==> #[trigger] actions[i] == Action::Record(Intent::Install { skill: keys[i] })
    &&& actions[n] == Action::LibraryChanged
    &&& (actions[n + 1] matches Action::Search { query: q, focus_list } && q@ == query && focus_list)
    &&& (actions[n + 2] matches Action::OpenModal(modal) && *modal
        matches Modal::InstallComplete { keys: k, message: m } && k@ == keys && m@ == message)
}

fn installed(keys: Vec<String>, query: String, message: String) -> (r: Vec<Action>)
    ensures
        install_told(keys@, query@, message@, r@),
        all_sound(r@),
{
    let mut actions: Vec<Action> = Vec::new();
    let mut i: usize = 0;
    while i < keys.len()
        invariant
            i <= keys.len(),
            actions@.len() == i,
            forall|k: int|
                0 <= k < i ==> #[trigger] actions@[k] == Action::Record(
                    Intent::Install { skill: keys@[k] },
                ),
        decreases keys.len() - i,
    {
        actions.push(Action::Record(Intent::Install { skill: keys[i].clone() }));
        i = i + 1;
    }
    actions.push(Action::LibraryChanged);
    actions.push(Action::Search { query, focus_list: true });
    actions.push(opening(Modal::InstallComplete { keys, message }));
    actions
}

/// What an installation from a repository asks for.
#[verifier::opaque]
pub open spec fn installation_told(
    selection: InstallSelection,
    result: Result<Vec<String>, String>,
    actions: Seq<Action>,
) -> bool {
    match result {
        Ok(keys) => if keys@.len() == 0 {
            tells(actions, "Already installed; skipped without changes"@)
        } else {
            install_told(
                keys@,
                source_token(selection.fetched.repository.display_name@),
                installed_text(selection, keys@.len() as int),
                actions,
            )
        },
        Err(error) => actions.len() == 2 && is_error(actions[0], "install: "@ + error@) && is_opening(
            actions[1],
            ModalView::Repository(restored(selection@)),
        ),
    }
}

impl App {
    fn on_repository_installed(
        &mut self,
        selection: InstallSelection,
        result: Result<Vec<String>, String>,
    ) -> (r: Vec<Action>)
        requires
            old(self).valid(),
        ensures
            final(self)@ == match result {
                Ok(_) => old(self)@.does(
                    Effect::Ask(Action::DiscardFetched(selection.fetched.workdir)),
                ),
                Err(_) => old(self)@,
            },
            installation_told(selection, result, r@),
            all_sound(r@),
            final(self).valid(),
    {
        reveal(installation_told);
        match result {
            Ok(keys) => {
                let message = installed_message(&selection, keys.len());
                let query = source_query_token(selection.fetched.repository.display_name.as_str());
                self.emit(Effect::Ask(Action::DiscardFetched(selection.fetched.workdir)));
                if keys.len() == 0 {
                    return only(
                        Action::Toast("Already installed; skipped without changes".to_owned()),
                    );
                }
                installed(keys, query, message)
            },
            Err(error) => both(
                Action::Error(cat2("install: ", error.as_str())),
                opening(Modal::Repository(Box::new(RepositoryPicker::restore(selection)))),
            ),
        }
    }
}

// ---- the library -------------------------------------------------------------

impl AppView {
    /// The library looks otherwise than when it was last read.
    pub open spec fn moved_on(self, stamp: Seq<char>) -> bool {
        self.root_stamp != Some(stamp)
    }

    /// What the library looks like is noted, where nothing is shown and nothing runs.
    #[verifier::opaque]
    pub open spec fn polled(self, stamp: Seq<char>, facts: PageFacts) -> AppView {
        if self.blocked(facts) || self.tasks_running != 0 {
            self
        } else {
            let noted = AppView { root_stamp: Some(stamp), ..self };
            if self.moved_on(stamp) {
                AppView { sync: noted.sync.library_changed(), ..noted }.observing(
                    false,
                    ProbeReason::ObservedChange,
                    facts.now,
                )
            } else {
                noted
            }
        }
    }

    /// The library was read.
    #[verifier::opaque]
    pub open spec fn scanned(self, snap: Snapshot, stamp: Option<Seq<char>>) -> AppView {
        AppView { root_stamp: stamp, snap, ..self }.snapshotted(self.tags_enabled)
    }
}

impl App {
    fn on_stamp(&mut self, stamp: String, facts: PageFacts) -> (r: Vec<Action>)
        requires
            old(self).valid(),
            facts.timely(),
        ensures
            final(self)@ == old(self)@.polled(stamp@, facts),
            r@ == if !old(self)@.blocked(facts) && old(self)@.tasks_running == 0 && old(
                self,
            )@.moved_on(stamp@) {
                seq![Action::Rescan]
            } else {
                Seq::empty()
            },
            all_sound(r@),
            final(self).valid(),
    {
        reveal(AppView::polled);
        if self.task_ui_blocked(facts) || self.tasks_running != 0 {
            return nothing();
        }
        let changed = match &self.root_stamp {
            Some(known) => !same_text(known.as_str(), stamp.as_str()),
            None => true,
        };
        proof {
            reveal(App::valid);
        }
        self.root_stamp = Some(stamp);
        if changed {
            self.sync.external_changed();
            self.refresh_sync_status(false, ProbeReason::ObservedChange, facts.now);
            return only(Action::Rescan);
        }
        nothing()
    }

    fn on_scan(&mut self, result: Result<Box<Snapshot>, String>, stamp: Option<String>) -> (r: Vec<
        Action,
    >)
        requires
            old(self).valid(),
        ensures
            match result {
                Ok(snap) => final(self)@ == old(self)@.scanned(*snap, crate::text::said(stamp))
                    && r@.len() == 0,
                Err(error) => final(self)@ == (AppView { root_stamp: None, ..old(self)@ })
                    && complains(r@, "scan failed: "@ + error@),
            },
            all_sound(r@),
            final(self).valid(),
    {
        reveal(AppView::scanned);
        proof {
            reveal(App::valid);
        }
        match result {
            Ok(snap) => {
                self.root_stamp = stamp;
                self.snap = *snap;
                self.on_snapshot(self.tags_enabled);
                nothing()
            },
            Err(error) => {
                self.root_stamp = None;
                error_of("scan failed: ", error.as_str())
            },
        }
    }
}

// ---- updates and installations -----------------------------------------------

/// The update changes nothing.
pub open spec fn is_current(prepared: Prepared) -> bool {
    !prepared.needs_resolution && prepared.from_revision is Some && prepared.from_revision->0@
        == prepared.to_revision@
}

#[verifier::opaque]
pub open spec fn update_told(key: Seq<char>, result: Result<Prepared, String>, actions: Seq<Action>) -> bool {
    match result {
        Ok(prepared) => if is_current(prepared) {
            tells(actions, key + " is up to date"@)
        } else {
            actions.len() == 1 && is_opening(actions[0], ModalView::Resolve(undecided(prepared)))
        },
        Err(error) => complains(actions, "update "@ + key + ": "@ + error@),
    }
}

impl App {
    fn on_prepared(&mut self, key: &str, result: Result<Prepared, String>) -> (r: Vec<Action>)
        requires
            old(self).valid(),
        ensures
            final(self)@ == match result {
                Ok(prepared) => if is_current(prepared) {
                    old(self)@.does(Effect::Ask(Action::DiscardUpdate(Box::new(prepared))))
                } else {
                    old(self)@
                },
                Err(_) => old(self)@,
            },
            update_told(key@, result, r@),
            all_sound(r@),
            final(self).valid(),
    {
        reveal(update_told);
        match result {
            Ok(prepared) => {
                let current = match &prepared.from_revision {
                    Some(from) => !prepared.needs_resolution && same_text(
                        from.as_str(),
                        prepared.to_revision.as_str(),
                    ),
                    None => false,
                };
                if current {
                    self.emit(Effect::Ask(Action::DiscardUpdate(Box::new(prepared))));
                    return only(Action::Toast(cat2(key, " is up to date")));
                }
                only(opening(Modal::resolve(prepared)))
            },
            Err(error) => only(Action::Error(cat4("update ", key, ": ", error.as_str()))),
        }
    }
}

#[verifier::opaque]
pub open spec fn single_install_told(
    reference: String,
    result: Result<String, InstallFailure>,
    actions: Seq<Action>,
) -> bool {
    match result {
        Ok(key) => install_told(
            seq![key],
            key@,
            "Installed "@ + key@ + "."@,
            actions,
        ),
        Err(failure) => if failure.several_skills {
            match failure.unreadable {
                None => actions == seq![Action::Spawn(Task::DiscoverRepository(reference))],
                Some(error) => complains(actions, "discover "@ + reference@ + ": "@ + error@),
            }
        } else {
            complains(actions, "install "@ + reference@ + ": "@ + failure.text@)
        },
    }
}

fn on_installed(reference: String, result: Result<String, InstallFailure>) -> (r: Vec<Action>)
    ensures
        single_install_told(reference, result, r@),
        all_sound(r@),
{
    reveal(single_install_told);
    match result {
        Ok(key) => {
            let message = cat3("Installed ", key.as_str(), ".");
            let query = key.clone();
            let mut keys: Vec<String> = Vec::new();
            keys.push(key);
            assert(keys@ =~= seq![key]);
            installed(keys, query, message)
        },
        Err(failure) => {
            if failure.several_skills {
                match failure.unreadable {
                    None => only(Action::Spawn(Task::DiscoverRepository(reference))),
                    Some(error) => only(
                        Action::Error(
                            cat4("discover ", reference.as_str(), ": ", error.as_str()),
                        ),
                    ),
                }
            } else {
                only(
                    Action::Error(
                        cat4("install ", reference.as_str(), ": ", failure.text.as_str()),
                    ),
                )
            }
        },
    }
}

/// What pages ask for after a check, where two of them tell it: the notices of the second
/// are left out.
pub open spec fn without_notices(actions: Seq<Action>) -> Seq<Action>
    decreases actions.len(),
{
    if actions.len() == 0 {
        actions
    } else if actions[0] is Toast {
        without_notices(actions.skip(1))
    } else {
        seq![actions[0]] + without_notices(actions.skip(1))
    }
}

pub fn check_actions(search: Vec<Action>, health: Vec<Action>) -> (r: Vec<Action>)
    ensures
        r@ == search@ + without_notices(health@),
{
    let ghost first = search@;
    let ghost all = health@;
    let mut out = search;
    let mut rest = health;
    assert(out@ + without_notices(rest@) =~= first + without_notices(all));
    while rest.len() > 0
        invariant
            out@ + without_notices(rest@) == first + without_notices(all),
        decreases rest.len(),
    {
        let ghost prior = rest@;
        let ghost before = out@;
        let action = rest.remove(0);
        assert(rest@ =~= prior.skip(1));
        if !matches!(action, Action::Toast(_)) {
            out.push(action);
            assert(before + (seq![action] + without_notices(rest@)) =~= out@ + without_notices(
                rest@,
            ));
        }
    }
    assert(out@ =~= first + without_notices(all));
    out
}

// ---- all of them -------------------------------------------------------------

impl AppView {
    /// What work that is done makes of the application.
    pub open spec fn tasked(self, out: TaskOutput, facts: PageFacts) -> AppView {
        match out {
            TaskOutput::RepairPlan(_) => self,
            TaskOutput::RepairApplied(_) => self.batch_over(),
            TaskOutput::SyncConfigured(_) => self.batch_over(),
            TaskOutput::SyncDisabled(result) => if result is Ok {
                AppView { sync: self.sync.disable(), ..self.batch_over() }
            } else {
                self.batch_over()
            },
            TaskOutput::Sync(request, result, _) => self.manual_sync_over(request, result),
            TaskOutput::AutoSync(result) => self.auto_sync_over(result),
            TaskOutput::Batch(outcome) => self.batch_done(outcome, facts.now),
            TaskOutput::RepositoryFetched(_, _) => self,
            TaskOutput::RepositoryRefreshed { .. } => self,
            TaskOutput::RepositoryInstalled(selection, result) => match result {
                Ok(_) => self.does(
                    Effect::Ask(Action::DiscardFetched((*selection).fetched.workdir)),
                ),
                Err(_) => self,
            },
            TaskOutput::Scan(result, stamp) => match result {
                Ok(snap) => self.scanned(*snap, crate::text::said(stamp)),
                Err(_) => AppView { root_stamp: None, ..self },
            },
            TaskOutput::RootStamp(result) => match result {
                Ok(stamp) => self.polled(stamp@, facts),
                Err(_) => self,
            },
            TaskOutput::Check(count) => self.does(
                Effect::ReportChecks { health_only: self.tab == Tab::Health || count > 1 },
            ),
            TaskOutput::Prepared(_, result) => match result {
                Ok(prepared) => if is_current(prepared) {
                    self.does(Effect::Ask(Action::DiscardUpdate(Box::new(prepared))))
                } else {
                    self
                },
                Err(_) => self,
            },
            TaskOutput::Installed(_, _) => self,
        }
    }

    /// What work that is done asks for.
    pub open spec fn reports(self, out: TaskOutput, facts: PageFacts, actions: Seq<Action>) -> bool {
        match out {
            TaskOutput::RepairPlan(result) => repair_planned(result, actions),
            TaskOutput::RepairApplied(result) => repair_applied(result, actions),
            TaskOutput::SyncConfigured(result) => sync_configured(result, actions),
            TaskOutput::SyncDisabled(result) => sync_disabled(result, actions),
            TaskOutput::Sync(request, result, settings) => manual_sync_told(
                request,
                result,
                settings,
                actions,
            ),
            TaskOutput::AutoSync(result) => auto_sync_told(result, actions),
            TaskOutput::Batch(outcome) => batch_told(self, outcome, actions),
            TaskOutput::RepositoryFetched(reference, result) => fetch_told(
                reference@,
                result,
                actions,
            ),
            TaskOutput::RepositoryRefreshed { alias, result, current } => refresh_told(
                alias@,
                result,
                current,
                actions,
            ),
            TaskOutput::RepositoryInstalled(selection, result) => installation_told(
                *selection,
                result,
                actions,
            ),
            TaskOutput::Scan(result, _) => match result {
                Ok(_) => actions.len() == 0,
                Err(error) => complains(actions, "scan failed: "@ + error@),
            },
            TaskOutput::RootStamp(result) => match result {
                Ok(stamp) => actions == if !self.blocked(facts) && self.tasks_running == 0
                    && self.moved_on(stamp@) {
                    seq![Action::Rescan]
                } else {
                    Seq::empty()
                },
                Err(_) => actions.len() == 0,
            },
            TaskOutput::Check(_) => actions.len() == 0,
            TaskOutput::Prepared(key, result) => update_told(key@, result, actions),
            TaskOutput::Installed(reference, result) => single_install_told(
                reference,
                result,
                actions,
            ),
        }
    }
}

impl App {
    /// Work that ran beside the interface is done.
    pub fn on_task(&mut self, out: TaskOutput, facts: PageFacts) -> (r: Vec<Action>)
        requires
            old(self).valid(),
            facts.timely(),
        ensures
            final(self)@ == old(self)@.tasked(out, facts),
            old(self)@.reports(out, facts, r@),
            all_sound(r@),
            final(self).valid(),
    {
        match out {
            TaskOutput::RepairPlan(result) => on_repair_plan(result),
            TaskOutput::RepairApplied(result) => {
                self.end_batch();
                on_repair_applied(result)
            },
            TaskOutput::SyncConfigured(result) => {
                self.end_batch();
                on_sync_configured(result)
            },
            TaskOutput::SyncDisabled(result) => {
                self.end_batch();
                if result.is_ok() {
                    self.disable_sync();
                }
                on_sync_disabled(result)
            },
            TaskOutput::Sync(request, result, settings) => self.on_sync(request, result, settings),
            TaskOutput::AutoSync(result) => self.on_auto_sync(result),
            TaskOutput::Batch(outcome) => self.on_batch(outcome, facts.now),
            TaskOutput::RepositoryFetched(reference, result) => on_fetched(
                reference.as_str(),
                result,
            ),
            TaskOutput::RepositoryRefreshed { alias, result, current } => on_refreshed(
                alias.as_str(),
                result,
                current,
            ),
            TaskOutput::RepositoryInstalled(selection, result) => self.on_repository_installed(
                *selection,
                result,
            ),
            TaskOutput::Scan(result, stamp) => self.on_scan(result, stamp),
            TaskOutput::RootStamp(result) => match result {
                Ok(stamp) => self.on_stamp(stamp, facts),
                Err(_) => nothing(),
            },
            TaskOutput::Check(count) => {
                self.emit(
                    Effect::ReportChecks { health_only: self.tab == Tab::Health || count > 1 },
                );
                nothing()
            },
            TaskOutput::Prepared(key, result) => self.on_prepared(key.as_str(), result),
            TaskOutput::Installed(reference, result) => on_installed(reference, result),
        }
    }
}

// ---- laws --------------------------------------------------------------------

/// A synchronisation that was only tried shows what it would do, for the same request, and
/// changes nothing; one that was made is told, the backup is looked at, and the library is
/// read again.
pub proof fn lemma_a_tried_run_is_shown(
    app: AppView,
    request: Request,
    report: Report,
    settings: Settings,
    facts: PageFacts,
    actions: Seq<Action>,
)
    requires
        request.dry_run,
        app.reports(TaskOutput::Sync(request, Ok(report), Ok(settings)), facts, actions),
    ensures
        ({
            let after = app.tasked(TaskOutput::Sync(request, Ok(report), Ok(settings)), facts);
            &&& !after.batch_running
            &&& after.sync == app.sync
            &&& after.effects == app.effects
            &&& after.snap == app.snap
        }),
        actions.len() == 1,
        actions[0] is OpenModal,
        (*actions[0]->OpenModal_0)@ is Sync,
        ({
            let dialog = (*actions[0]->OpenModal_0)@->Sync_0;
            &&& dialog.settings == settings
            &&& dialog.step is Preview
            &&& dialog.step->Preview_request == request
            &&& dialog.step->Preview_report == report
        }),
{
    reveal(manual_sync_told);
    reveal(AppView::manual_sync_over);
}

/// A synchronisation that was made is told with what it did, and one that failed with why;
/// either way the backup is looked at from afar.
pub proof fn lemma_a_made_run_is_told(
    app: AppView,
    request: Request,
    result: Result<Report, String>,
    settings: Result<Settings, String>,
    facts: PageFacts,
    actions: Seq<Action>,
)
    requires
        !request.dry_run || result is Err,
        app.reports(TaskOutput::Sync(request, result, settings), facts, actions),
    ensures
        actions.len() == 2,
        actions[0] == (Action::RefreshSyncStatus { remote: true, reason: ProbeReason::AfterRun }),
        result is Ok ==> actions[1] is Toast && actions[1]->Toast_0@ == "Root synced: backup "@ + (
        if result->Ok_0.committed {
            "true"@
        } else {
            "false"@
        }) + ", pull "@ + (if result->Ok_0.pulled {
            "true"@
        } else {
            "false"@
        }) + ", push "@ + (if result->Ok_0.pushed {
            "true"@
        } else {
            "false"@
        }),
        result is Err ==> actions[1] is Error && actions[1]->Error_0@ == "Root sync pending: "@
            + result->Err_0@ + "; local changes retained"@,
{
    reveal(manual_sync_told);
}

/// How an automatic synchronisation ends is told: what it did, that it will be tried again,
/// that it stopped and why, or that the library changed meanwhile.
pub proof fn lemma_an_automatic_run_is_told(
    app: AppView,
    result: Result<Report, AutoSyncFailure>,
    facts: PageFacts,
    actions: Seq<Action>,
)
    requires
        app.reports(TaskOutput::AutoSync(result), facts, actions),
    ensures
        actions.len() == 2,
        actions[0] == (Action::RefreshSyncStatus { remote: true, reason: ProbeReason::AfterRun }),
        result is Ok ==> actions[1] is Toast && actions[1]->Toast_0@ == "Root synced: backup "@ + (
        if result->Ok_0.committed {
            "true"@
        } else {
            "false"@
        }) + ", pull "@ + (if result->Ok_0.pulled {
            "true"@
        } else {
            "false"@
        }) + ", push "@ + (if result->Ok_0.pushed {
            "true"@
        } else {
            "false"@
        }),
        result is Err && result->Err_0.disposition == AutoSyncDisposition::Transient ==> {
            &&& actions[1] is Error
            &&& actions[1]->Error_0@
                == "Root sync will retry after the next status check; local changes retained"@
        },
        result is Err && result->Err_0.disposition == AutoSyncDisposition::Fatal
            && result->Err_0.conflict ==> {
            &&& actions[1] is Error
            &&& actions[1]->Error_0@
                == "Root sync conflict; local backup retained. Resolve with Git, then retry"@
        },
        result is Err && result->Err_0.disposition == AutoSyncDisposition::Fatal
            && !result->Err_0.conflict ==> {
            &&& actions[1] is Error
            &&& actions[1]->Error_0@ == "Root sync stopped: "@ + result->Err_0.detail@
        },
        result is Err && result->Err_0.disposition == AutoSyncDisposition::WorkingTreeChanged
            ==> {
            &&& actions[1] is Toast
            &&& actions[1]->Toast_0@ == "Library changed externally; automatic sync paused"@
        },
{
    reveal(auto_sync_told);
}

/// Whoever waits for a synchronisation to quit gets to quit when it ends; nobody else does.
pub proof fn lemma_quitting_waits_for_the_run(app: AppView, result: Result<Report, AutoSyncFailure>)
    ensures
        !app.auto_sync_over(result).batch_running,
        app.quit_prompt is Some && app.quit_prompt->0.sync_in_progress
            ==> app.auto_sync_over(result).quit && app.auto_sync_over(result).quit_prompt is None,
        !(app.quit_prompt is Some && app.quit_prompt->0.sync_in_progress)
            ==> app.auto_sync_over(result).quit == app.quit && app.auto_sync_over(
            result,
        ).quit_prompt == app.quit_prompt,
{
    reveal(AppView::auto_sync_over);
    reveal(AppView::rescanned);
    reveal(AppView::spawned);
}

/// Once something came from afar, earlier steps cannot be taken back; otherwise the history
/// stays as it is.
pub proof fn lemma_a_pull_ends_the_history(app: AppView, result: Result<Report, AutoSyncFailure>)
    ensures
        result is Ok && result->Ok_0.pulled ==> app.auto_sync_over(result).effects.last()
            == crate::app::effects::EffectView::Does(Effect::ForgetHistory),
        !(result is Ok && result->Ok_0.pulled) ==> app.auto_sync_over(result).effects
            == app.sync_over().rescanned().effects,
{
    reveal(AppView::auto_sync_over);
}

/// The plan of a repair is shown, by its number; one that could not be made is told.
pub proof fn lemma_a_repair_is_shown_first(
    app: AppView,
    result: Result<u64, String>,
    facts: PageFacts,
    actions: Seq<Action>,
)
    requires
        app.reports(TaskOutput::RepairPlan(result), facts, actions),
    ensures
        app.tasked(TaskOutput::RepairPlan(result), facts) == app,
        actions.len() == 1,
        result is Ok ==> actions[0] is OpenModal && (*actions[0]->OpenModal_0)@
            == ModalView::HealthRepair(result->Ok_0),
        result is Err ==> actions[0] is Error && actions[0]->Error_0@ == "Repair preview: "@
            + result->Err_0@,
{
    reveal(repair_planned);
}

/// After a repair the library is read again, whether it went through or not, and its
/// results are shown line by line.
pub proof fn lemma_a_repair_is_followed_by_a_scan(
    app: AppView,
    result: Result<Vec<String>, String>,
    facts: PageFacts,
    actions: Seq<Action>,
)
    requires
        app.reports(TaskOutput::RepairApplied(result), facts, actions),
    ensures
        !app.tasked(TaskOutput::RepairApplied(result), facts).batch_running,
        actions.len() == 2,
        actions[0] == Action::Rescan,
        result is Ok ==> {
            &&& actions[1] is OpenModal
            &&& (*actions[1]->OpenModal_0)@ is Message
            &&& (*actions[1]->OpenModal_0)@->Message_0.title == "Repair results"@
            &&& (*actions[1]->OpenModal_0)@->Message_0.lines == texts(result->Ok_0@)
            &&& (*actions[1]->OpenModal_0)@->Message_0.return_to is None
        },
        result is Err ==> actions[1] is Error && actions[1]->Error_0@ == "Repair: "@
            + result->Err_0@ + "; inspect status; earlier actions may have completed"@,
{
    reveal(repair_applied);
}

/// A backup that was set up is looked at, and the library read; one that was turned off is
/// forgotten by what runs automatically. What failed is told and changes nothing.
pub proof fn lemma_the_setup_is_followed_up(
    app: AppView,
    result: Result<(), String>,
    facts: PageFacts,
    actions: Seq<Action>,
)
    ensures
        app.reports(TaskOutput::SyncConfigured(result), facts, actions) && result is Ok ==> {
            &&& actions.len() == 3
            &&& actions[0] == Action::Rescan
            &&& actions[1] == (Action::RefreshSyncStatus {
                remote: false,
                reason: ProbeReason::Configuration,
            })
            &&& actions[2] is Toast
            &&& actions[2]->Toast_0@ == "Root auto-sync enabled"@
        },
        app.reports(TaskOutput::SyncConfigured(result), facts, actions) && result is Err ==> {
            &&& actions.len() == 1
            &&& actions[0] is Error
            &&& actions[0]->Error_0@ == "Root sync setup: "@ + result->Err_0@
        },
        app.reports(TaskOutput::SyncDisabled(result), facts, actions) && result is Ok ==> {
            &&& actions.len() == 2
            &&& actions[0] == (Action::RefreshSyncStatus {
                remote: false,
                reason: ProbeReason::Configuration,
            })
            &&& actions[1] is Toast
            &&& actions[1]->Toast_0@ == "Automatic root sync disabled; Git history retained"@
        },
        app.reports(TaskOutput::SyncDisabled(result), facts, actions) && result is Err ==> {
            &&& actions.len() == 1
            &&& actions[0] is Error
            &&& actions[0]->Error_0@ == "Disable root sync: "@ + result->Err_0@
        },
        app.tasked(TaskOutput::SyncDisabled(result), facts).sync == if result is Ok {
            app.sync.disable()
        } else {
            app.sync
        },
        app.tasked(TaskOutput::SyncConfigured(result), facts).sync == app.sync,
{
    reveal(sync_configured);
    reveal(sync_disabled);
}

/// A batch that found skills of one name asks which is meant; one with errors shows each of
/// them; one that went well shows nothing more.
pub proof fn lemma_a_batch_is_followed_up(
    app: AppView,
    outcome: BatchOutcome,
    facts: PageFacts,
    actions: Seq<Action>,
)
    requires
        app.reports(TaskOutput::Batch(outcome), facts, actions),
    ensures
        outcome.conflict is Some ==> {
            &&& actions.len() == 1
            &&& actions[0] is OpenModal
            &&& (*actions[0]->OpenModal_0)@ == ModalView::DeploymentChoices(outcome.conflict->0)
        },
        outcome.conflict is None && outcome.errors@.len() == 0 ==> actions.len() == 0,
        outcome.conflict is None && outcome.errors@.len() > 0 ==> {
            &&& actions.len() == 1
            &&& actions[0] is OpenModal
            &&& *actions[0]->OpenModal_0 is Message
            &&& (*actions[0]->OpenModal_0)->Message_0.title@ == "Operation needs attention"@
            &&& (*actions[0]->OpenModal_0)->Message_0.lines == outcome.errors
            &&& (*actions[0]->OpenModal_0)->Message_0.scroll == 0
        },
{
    reveal(batch_told);
}

/// What a batch did is told and recorded, and what it left marked is handed to the pages;
/// the dialog that waited for it is not busy any more.
pub proof fn lemma_what_a_batch_did_is_told(app: AppView, outcome: BatchOutcome, now: u64)
    requires
        outcome.conflict is None,
        outcome.changed_scope == Some(crate::app::MutationScope::Deployment) || outcome.changed_scope is None,
    ensures
        ({
            let after = app.batch_done(outcome, now);
            let n = app.effects.len() as int;
            let told = n + if outcome.intent is Some {
                2int
            } else {
                1int
            };
            &&& !after.batch_running
            &&& !after.batch_modal_owned
            &&& after.effects.len() > told
            &&& after.effects.take(n) == app.effects
            &&& outcome.intent is Some ==> after.effects[n]
                == crate::app::effects::EffectView::Does(Effect::Record(outcome.intent->0))
            &&& after.effects[told - 1] == crate::app::effects::EffectView::Does(
                Effect::BatchFinished(outcome.failed),
            )
            &&& outcome.errors@.len() == 0 ==> after.effects[told]
                == crate::app::effects::EffectView::Tell(
                outcome.message@ + (if outcome.intent is Some {
                    " · Ctrl+Z undo"@
                } else {
                    ""@
                }),
                Level::Success,
            )
            &&& outcome.errors@.len() > 0 ==> after.effects[told]
                == crate::app::effects::EffectView::Tell(
                outcome.message@ + "; errors: "@ + numeral(outcome.errors@.len() as int),
                Level::Error,
            )
        }),
{
    reveal(AppView::batch_done);
    reveal(AppView::mutated);
    reveal(AppView::rescanned);
    reveal(AppView::spawned);
    let after = app.batch_done(outcome, now);
    assert(after.effects.take(app.effects.len() as int) =~= app.effects);
}

/// A batch that has to ask leaves everything but its dialog as it was.
pub proof fn lemma_a_batch_that_asks_did_nothing(app: AppView, outcome: BatchOutcome, now: u64)
    requires
        outcome.conflict is Some,
    ensures
        app.batch_done(outcome, now).effects == app.effects,
        app.batch_done(outcome, now).sync == app.sync,
        app.batch_done(outcome, now).snap == app.snap,
        !app.batch_done(outcome, now).batch_running,
{
    reveal(AppView::batch_done);
}

/// A repository that was read is shown with its own candidates, none chosen; one that could
/// not be read is told with its reference.
pub proof fn lemma_a_fetched_repository_is_shown(
    app: AppView,
    reference: String,
    result: Result<FetchedRepository, String>,
    facts: PageFacts,
    actions: Seq<Action>,
)
    requires
        app.reports(TaskOutput::RepositoryFetched(reference, result), facts, actions),
    ensures
        app.tasked(TaskOutput::RepositoryFetched(reference, result), facts) == app,
        actions.len() == 1,
        result is Ok ==> {
            &&& actions[0] is OpenModal
            &&& (*actions[0]->OpenModal_0)@ is Repository
            &&& ({
                let dialog = (*actions[0]->OpenModal_0)@->Repository_0;
                &&& dialog.selection.choices == result->Ok_0.choices@
                &&& dialog.selection.workdir == result->Ok_0.workdir@
                &&& dialog.selection.revision == result->Ok_0.revision@
                &&& dialog.selection.repository == result->Ok_0.repository@
                &&& dialog.selection.paths.len() == 0
                &&& dialog.selection.names.len() == 0
            })
        },
        result is Err ==> actions[0] is Error && actions[0]->Error_0@ == "discover "@ + reference@
            + ": "@ + result->Err_0@,
{
    reveal(fetch_told);
}

/// A repository that was read again is told with what is new and what can be updated in it,
/// where its page still waits for that, and not at all where it does not.
pub proof fn lemma_a_refreshed_repository_is_told(
    app: AppView,
    alias: String,
    result: Result<Vec<InventoryState>, String>,
    current: bool,
    facts: PageFacts,
    actions: Seq<Action>,
)
    requires
        app.reports(TaskOutput::RepositoryRefreshed { alias, result, current }, facts, actions),
    ensures
        app.tasked(TaskOutput::RepositoryRefreshed { alias, result, current }, facts) == app,
        !current ==> actions.len() == 0,
        current && result is Ok ==> {
            &&& actions.len() == 1
            &&& actions[0] is Toast
            &&& actions[0]->Toast_0@ == "refreshed "@ + alias@ + ": "@ + numeral(
                count_new(result->Ok_0@),
            ) + " available · "@ + numeral(count_updates(result->Ok_0@)) + " updates"@
        },
        current && result is Err ==> {
            &&& actions.len() == 1
            &&& actions[0] is Error
            &&& actions[0]->Error_0@ == "refresh "@ + alias@ + ": "@ + result->Err_0@
        },
{
    reveal(refresh_told);
}

/// Each skill that was installed from a repository is recorded, in order; then the library
/// is read, the skills of the repository are searched for, and what can be done with those
/// that were installed is offered. The download is discarded.
pub proof fn lemma_installed_skills_are_shown(
    app: AppView,
    selection: InstallSelection,
    keys: Vec<String>,
    facts: PageFacts,
    actions: Seq<Action>,
)
    requires
        keys@.len() > 0,
        app.reports(
            TaskOutput::RepositoryInstalled(Box::new(selection), Ok(keys)),
            facts,
            actions,
        ),
    ensures
        ({
            let n = keys@.len() as int;
            &&& actions.len() == n + 3
            &&& forall|i: int|
                #![trigger keys@[i]]
                0 <= i < n ==> actions[i] == Action::Record(Intent::Install { skill: keys@[i] })
            &&& actions[n] == Action::LibraryChanged
            &&& actions[n + 1] is Search
            &&& actions[n + 1]->Search_query@ == source_token(
                selection.fetched.repository.display_name@,
            )
            &&& actions[n + 1]->Search_focus_list
            &&& actions[n + 2] is OpenModal
            &&& *actions[n + 2]->OpenModal_0 is InstallComplete
            &&& (*actions[n + 2]->OpenModal_0)->InstallComplete_keys@ == keys@
        }),
        app.tasked(TaskOutput::RepositoryInstalled(Box::new(selection), Ok(keys)), facts).effects
            == app.effects.push(
            crate::app::effects::EffectView::Does(
                Effect::Ask(Action::DiscardFetched(selection.fetched.workdir)),
            ),
        ),
{
    reveal(installation_told);
    let n = keys@.len() as int;
    assert forall|i: int| #![trigger keys@[i]] 0 <= i < n implies actions[i] == Action::Record(
        Intent::Install { skill: keys@[i] },
    ) by {
        assert(actions[i] == Action::Record(Intent::Install { skill: keys@[i] }));
    }
}

/// Where everything was installed already that is told; an installation that failed is told
/// and leads back to its dialog, with what was chosen there and the download kept.
pub proof fn lemma_an_installation_that_did_nothing(
    app: AppView,
    selection: InstallSelection,
    result: Result<Vec<String>, String>,
    facts: PageFacts,
    actions: Seq<Action>,
)
    requires
        result is Ok ==> result->Ok_0@.len() == 0,
        app.reports(TaskOutput::RepositoryInstalled(Box::new(selection), result), facts, actions),
    ensures
        result is Ok ==> {
            &&& actions.len() == 1
            &&& actions[0] is Toast
            &&& actions[0]->Toast_0@ == "Already installed; skipped without changes"@
        },
        result is Err ==> {
            &&& app.tasked(
                TaskOutput::RepositoryInstalled(Box::new(selection), result),
                facts,
            ) == app
            &&& actions.len() == 2
            &&& actions[0] is Error
            &&& actions[0]->Error_0@ == "install: "@ + result->Err_0@
            &&& actions[1] is OpenModal
            &&& (*actions[1]->OpenModal_0)@ is Repository
            &&& (*actions[1]->OpenModal_0)@->Repository_0.selection == selection@
        },
{
    reveal(installation_told);
}

/// The message of an installation counts the skills and names every folder that got
/// another name than its own.
pub proof fn lemma_folder_aliases_are_named(selection: InstallSelection, count: int)
    ensures
        ({
            let others = selection.names@.filter(
                |named: NamedPath| is_alias(selection.fetched.choices@, named),
            );
            &&& alias_texts(selection.fetched.choices@, selection.names@) == others.map_values(
                |named: NamedPath| named.path@ + " → "@ + named.name@,
            )
            &&& others.len() == 0 ==> installed_text(selection, count) == "Installed "@ + numeral(
                count,
            ) + " skills"@ + ""@ + "."@
            &&& others.len() > 0 ==> installed_text(selection, count) == "Installed "@ + numeral(
                count,
            ) + " skills"@ + ("; warning: folder aliases "@ + joined(
                others.map_values(|named: NamedPath| named.path@ + " → "@ + named.name@),
                ", "@,
            ) + " (declared names unchanged)"@) + "."@
        }),
{
    lemma_aliases_are_filtered(selection.fetched.choices@, selection.names@);
}

proof fn lemma_aliases_are_filtered(choices: Seq<Candidate>, names: Seq<NamedPath>)
    ensures
        alias_texts(choices, names) == names.filter(
            |named: NamedPath| is_alias(choices, named),
        ).map_values(|named: NamedPath| named.path@ + " → "@ + named.name@),
    decreases names.len(),
{
    reveal(Seq::filter);
    let kept = |named: NamedPath| is_alias(choices, named);
    let shown = |named: NamedPath| named.path@ + " → "@ + named.name@;
    if names.len() == 0 {
        assert(names.filter(kept).map_values(shown) =~= Seq::<Seq<char>>::empty());
    } else {
        lemma_aliases_are_filtered(choices, names.drop_last());
        let rest = names.drop_last().filter(kept);
        if kept(names.last()) {
            assert(rest.push(names.last()).map_values(shown) =~= rest.map_values(shown).push(
                shown(names.last()),
            ));
        }
    }
}

proof fn lemma_a_choice_is_the_first(choices: Seq<Candidate>, path: Seq<char>, i: int, from: int)
    requires
        0 <= from <= i < choices.len(),
        choices[i].path@ == path,
        forall|j: int| 0 <= j < i ==> (#[trigger] choices[j]).path@ != path,
    ensures
        crate::repository_picker::choice_from(choices, path, from) == Some(i),
    decreases i - from,
{
    if from < i {
        assert(choices[from].path@ != path);
        lemma_a_choice_is_the_first(choices, path, i, from + 1);
    }
}

/// A name is another than the folder's own where the candidate of that path would have got
/// another one, or where there is no such candidate.
pub proof fn lemma_what_an_alias_is(choices: Seq<Candidate>, named: NamedPath, i: int)
    requires
        0 <= i < choices.len(),
        choices[i].path@ == named.path@,
        forall|j: int| 0 <= j < i ==> (#[trigger] choices[j]).path@ != named.path@,
    ensures
        is_alias(choices, named) <==> choices[i].local_name@ != named.name@,
{
    lemma_a_choice_is_the_first(choices, named.path@, i, 0);
}

/// One skill that was installed by its reference is recorded and shown; a reference with
/// several skills is read to choose among them.
pub proof fn lemma_a_single_skill_is_installed(
    app: AppView,
    reference: String,
    result: Result<String, InstallFailure>,
    facts: PageFacts,
    actions: Seq<Action>,
)
    requires
        app.reports(TaskOutput::Installed(reference, result), facts, actions),
    ensures
        app.tasked(TaskOutput::Installed(reference, result), facts) == app,
        result is Ok ==> {
            &&& actions.len() == 4
            &&& actions[0] == Action::Record(Intent::Install { skill: result->Ok_0 })
            &&& actions[1] == Action::LibraryChanged
            &&& actions[2] is Search
            &&& actions[2]->Search_query@ == result->Ok_0@
            &&& actions[2]->Search_focus_list
            &&& actions[3] is OpenModal
            &&& *actions[3]->OpenModal_0 is InstallComplete
            &&& (*actions[3]->OpenModal_0)->InstallComplete_keys@ == seq![result->Ok_0]
            &&& (*actions[3]->OpenModal_0)->InstallComplete_message@ == "Installed "@
                + result->Ok_0@ + "."@
        },
        result is Err && result->Err_0.several_skills && result->Err_0.unreadable is None
            ==> actions == seq![Action::Spawn(Task::DiscoverRepository(reference))],
        result is Err && result->Err_0.several_skills && result->Err_0.unreadable is Some ==> {
            &&& actions.len() == 1
            &&& actions[0] is Error
            &&& actions[0]->Error_0@ == "discover "@ + reference@ + ": "@
                + result->Err_0.unreadable->0@
        },
        result is Err && !result->Err_0.several_skills ==> {
            &&& actions.len() == 1
            &&& actions[0] is Error
            &&& actions[0]->Error_0@ == "install "@ + reference@ + ": "@ + result->Err_0.text@
        },
{
    reveal(single_install_told);
}

/// An update that brings nothing new is told and discarded; every other one is shown for a
/// decision, with itself in the dialog.
pub proof fn lemma_an_update_is_decided(
    app: AppView,
    key: String,
    prepared: Prepared,
    facts: PageFacts,
    actions: Seq<Action>,
)
    requires
        app.reports(TaskOutput::Prepared(key, Ok(prepared)), facts, actions),
    ensures
        ({
            let same = prepared.from_revision is Some && prepared.from_revision->0@
                == prepared.to_revision@;
            let after = app.tasked(TaskOutput::Prepared(key, Ok(prepared)), facts);
            &&& actions.len() == 1
            &&& same && !prepared.needs_resolution ==> {
                &&& actions[0] is Toast
                &&& actions[0]->Toast_0@ == key@ + " is up to date"@
                &&& after.effects == app.effects.push(
                    crate::app::effects::EffectView::Does(
                        Effect::Ask(Action::DiscardUpdate(Box::new(prepared))),
                    ),
                )
            }
            &&& !same || prepared.needs_resolution ==> {
                &&& after == app
                &&& actions[0] is OpenModal
                &&& (*actions[0]->OpenModal_0)@ is Resolve
                &&& (*actions[0]->OpenModal_0)@->Resolve_0.prepared == Some(prepared)
            }
        }),
{
    reveal(update_told);
}

/// An update that could not be prepared is told and changes nothing.
pub proof fn lemma_a_failed_update_is_told(
    app: AppView,
    key: String,
    error: String,
    facts: PageFacts,
    actions: Seq<Action>,
)
    requires
        app.reports(TaskOutput::Prepared(key, Err(error)), facts, actions),
    ensures
        app.tasked(TaskOutput::Prepared(key, Err(error)), facts) == app,
        actions.len() == 1,
        actions[0] is Error,
        actions[0]->Error_0@ == "update "@ + key@ + ": "@ + error@,
{
    reveal(update_told);
}

/// A library that looks otherwise is read again and its backup looked at; one that looks
/// the same is left alone, and so is any while something is shown over the page or runs.
pub proof fn lemma_a_changed_library_is_read(
    app: AppView,
    stamp: String,
    facts: PageFacts,
    actions: Seq<Action>,
)
    requires
        app.reports(TaskOutput::RootStamp(Ok(stamp)), facts, actions),
    ensures
        ({
            let free = app.quit_prompt is None && app.modal is None && app.context_menu is None
                && app.command_palette is None && !(app.tab == Tab::Tags && facts.tags_input)
                && app.tasks_running == 0;
            let same = app.root_stamp is Some && app.root_stamp->0 == stamp@;
            let after = app.tasked(TaskOutput::RootStamp(Ok(stamp)), facts);
            &&& free && !same ==> actions == seq![Action::Rescan]
            &&& !free || same ==> actions.len() == 0
            &&& free ==> after.root_stamp == Some(stamp@)
            &&& !free ==> after == app
        }),
{
    reveal(AppView::polled);
    reveal(AppView::observing);
}

/// A scan that failed is told, and the next look reads the library again.
pub proof fn lemma_a_failed_scan_is_told(
    app: AppView,
    error: String,
    stamp: Option<String>,
    facts: PageFacts,
    actions: Seq<Action>,
)
    requires
        app.reports(TaskOutput::Scan(Err(error), stamp), facts, actions),
    ensures
        app.tasked(TaskOutput::Scan(Err(error), stamp), facts) == (AppView {
            root_stamp: None,
            ..app
        }),
        actions.len() == 1,
        actions[0] is Error,
        actions[0]->Error_0@ == "scan failed: "@ + error@,
{
}

/// What was read is what is shown from then on.
pub proof fn lemma_a_scan_is_shown(
    app: AppView,
    snap: Snapshot,
    stamp: Option<String>,
    facts: PageFacts,
    actions: Seq<Action>,
)
    requires
        app.reports(TaskOutput::Scan(Ok(Box::new(snap)), stamp), facts, actions),
    ensures
        app.tasked(TaskOutput::Scan(Ok(Box::new(snap)), stamp), facts).snap == snap,
        app.tasked(TaskOutput::Scan(Ok(Box::new(snap)), stamp), facts).root_stamp
            == crate::text::said(stamp),
        actions.len() == 0,
{
    reveal(AppView::scanned);
    reveal(AppView::snapshotted);
}

/// Of what the second page asks for after a check everything but its notices is kept, in
/// its order.
pub proof fn lemma_only_notices_are_left_out(actions: Seq<Action>)
    ensures
        without_notices(actions) == actions.filter(|action: Action| !(action is Toast)),
    decreases actions.len(),
{
    let kept = |action: Action| !(action is Toast);
    if actions.len() == 0 {
        reveal(Seq::filter);
        assert(actions.filter(kept) =~= actions);
    } else {
        lemma_only_notices_are_left_out(actions.skip(1));
        let head = seq![actions[0]];
        assert(actions =~= head + actions.skip(1));
        Seq::filter_distributes_over_add(head, actions.skip(1), kept);
        assert(head.drop_last() =~= Seq::<Action>::empty());
        assert(head.filter(kept) =~= if kept(actions[0]) {
            head
        } else {
            Seq::empty()
        }) by {
            reveal_with_fuel(Seq::filter, 2);
        }
        if !kept(actions[0]) {
            assert(head.filter(kept) + actions.skip(1).filter(kept) =~= actions.skip(1).filter(
                kept,
            ));
        }
    }
}

} // verus!
