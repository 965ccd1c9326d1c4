//! What reaches the application, and the work that runs beside it.

use crate::keymap::{KeyEvent, MouseEvent};
use crate::model::{
    AutoSyncDisposition, Intent, LinkAction, MutationScope, PlannedLink, Prepared, Report, Settings,
    Snapshot, Status, Write,
};
use crate::repository_picker::{FetchedRepository, InstallSelection};
use crate::sync_picker::Request;
use crate::text::{ascending, cat2, cat3, decimal, insert_sorted, numeral, texts};
use vstd::prelude::*;

verus! {

/// Everything that happens reaches the application as one of these.
#[derive(Debug)]
pub enum Msg {
    Key(KeyEvent),
    Paste(String),
    Mouse(MouseEvent),
    Resize,
    Tick,
    Task(u64, Box<TaskOutput>),
    Progress(u64, String),
    SyncPublishing,
    SyncStatus(u64, Result<Status, String>),
}

/// Long-running work that runs beside the interface.
#[derive(Debug)]
pub enum Task {
    DiscoverRepository(String),
    InstallRepository(Box<InstallSelection>),
    Scan,
    PollRoot,
    Check(Vec<String>),
    Prepare(String),
    /// Fetches a skill from a repository or a local path. The subpath stays separate:
    /// appended to a URL it would break the clone.
    Install { reference: String, subpath: Option<String> },
    Sync(Request),
    AutoSync(Vec<String>),
    SyncConfigure { url: String, branch: String },
    SyncDisable,
    /// Carries out a repair that was planned before, by its number.
    RepairApply(u64),
    RefreshRepository(String),
}

impl Task {
    /// The work synchronises the library with its backup.
    pub open spec fn syncs_root(self) -> bool {
        self is Sync || self is AutoSync
    }

    /// The work concerns the backup of the library.
    pub open spec fn concerns_root(self) -> bool {
        self.syncs_root() || self is SyncConfigure || self is SyncDisable
    }

    /// The work changes the library itself.
    pub open spec fn changes_library(self) -> bool {
        self is InstallRepository || self is Install || self is RepairApply
    }

    pub fn is_root_sync(&self) -> (r: bool)
        ensures
            r == self.syncs_root(),
    {
        matches!(self, Task::Sync(_) | Task::AutoSync(_))
    }

    pub fn is_root_operation(&self) -> (r: bool)
        ensures
            r == self.concerns_root(),
    {
        matches!(
            self,
            Task::Sync(_) | Task::AutoSync(_) | Task::SyncConfigure { .. } | Task::SyncDisable
        )
    }

    pub fn writes_library(&self) -> (r: bool)
        ensures
            r == self.changes_library(),
    {
        matches!(self, Task::InstallRepository(_) | Task::Install { .. } | Task::RepairApply(_))
    }

    /// How the work is named while it runs; scans and polls run unnamed.
    pub open spec fn title(self) -> Option<Seq<char>> {
        match self {
            Task::DiscoverRepository(reference) => Some("Discover "@ + reference@),
            Task::InstallRepository(_) => Some("Install skills"@),
            Task::Scan => None,
            Task::PollRoot => None,
            Task::Check(keys) => Some("Check "@ + numeral(keys@.len() as int) + " skills"@),
            Task::Prepare(key) => Some("Update "@ + key@),
            Task::Install { reference, .. } => Some("Install "@ + reference@),
            Task::Sync(_) => Some("Root sync"@),
            Task::AutoSync(_) => Some("Root sync"@),
            Task::SyncConfigure { .. } => Some("Root sync setup"@),
            Task::SyncDisable => Some("Disable root sync"@),
            Task::RepairApply(_) => Some("Repair"@),
            Task::RefreshRepository(alias) => Some("Refresh "@ + alias@),
        }
    }

    pub fn label(&self) -> (r: Option<String>)
        ensures
            crate::text::said(r) == self.title(),
    {
        match self {
            Task::DiscoverRepository(reference) => Some(cat2("Discover ", reference.as_str())),
            Task::InstallRepository(_) => Some("Install skills".to_owned()),
            Task::Scan => None,
            Task::PollRoot => None,
            Task::Check(keys) => Some(cat3("Check ", decimal(keys.len()).as_str(), " skills")),
            Task::Prepare(key) => Some(cat2("Update ", key.as_str())),
            Task::Install { reference, .. } => Some(cat2("Install ", reference.as_str())),
            Task::Sync(_) => Some("Root sync".to_owned()),
            Task::AutoSync(_) => Some("Root sync".to_owned()),
            Task::SyncConfigure { .. } => Some("Root sync setup".to_owned()),
            Task::SyncDisable => Some("Disable root sync".to_owned()),
            Task::RepairApply(_) => Some("Repair".to_owned()),
            Task::RefreshRepository(alias) => Some(cat2("Refresh ", alias.as_str())),
        }
    }
}

impl Task {
    /// What is told before the work begins.
    #[verifier::allow_in_spec]
    pub fn opening(&self) -> Option<&'static str>
        returns
            (match *self {
                Task::Install { .. } => Some("Install: preparing source files…"),
                Task::Prepare(_) => Some("Update: inspecting local files and fetching upstream…"),
                _ => None,
            }),
    {
        match self {
            Task::Install { .. } => Some("Install: preparing source files…"),
            Task::Prepare(_) => Some("Update: inspecting local files and fetching upstream…"),
            _ => None,
        }
    }
}

/// How far a check has come: `key` is looked up next, where there is one left.
pub open spec fn check_step(done: int, total: int, key: Option<Seq<char>>) -> Seq<char> {
    numeral(done) + "/"@ + numeral(total) + " complete"@ + match key {
        Some(key) => " · querying "@ + key + "…"@,
        None => ""@,
    }
}

pub fn check_progress(done: usize, total: usize, key: Option<&str>) -> (r: String)
    ensures
        r@ == check_step(
            done as int,
            total as int,
            match key {
                Some(key) => Some(key@),
                None => None,
            },
        ),
{
    let mut text = decimal(done);
    text.append("/");
    text.append(decimal(total).as_str());
    text.append(" complete");
    match key {
        Some(key) => text.append(cat3(" · querying ", key, "…").as_str()),
        None => text.append(""),
    }
    text
}

/// Why an automatic synchronisation failed.
#[derive(Debug)]
pub struct AutoSyncFailure {
    pub disposition: AutoSyncDisposition,
    pub conflict: bool,
    pub detail: String,
}

/// Why an installation failed. A source that holds several skills is told apart: it is
/// discovered instead, unless its reference cannot be read.
#[derive(Debug)]
pub struct InstallFailure {
    pub several_skills: bool,
    /// Why the reference cannot be read.
    pub unreadable: Option<String>,
    pub text: String,
}

/// How a skill of a repository stands against what is installed.
#[derive(Debug, Clone, Copy, PartialEq, Eq, Structural)]
pub enum InventoryState {
    Available,
    /// It is new here, and may be one that was moved.
    PossibleMove,
    Update,
    /// Nothing is to be done about it.
    Settled,
}

impl InventoryState {
    pub open spec fn is_new(self) -> bool {
        self == InventoryState::Available || self == InventoryState::PossibleMove
    }

    pub open spec fn has_update(self) -> bool {
        self == InventoryState::Update
    }
}

/// How many of the skills are new.
pub open spec fn count_new(states: Seq<InventoryState>) -> int
    decreases states.len(),
{
    if states.len() == 0 {
        0
    } else {
        count_new(states.drop_last()) + if states.last().is_new() {
            1int
        } else {
            0
        }
    }
}

/// How many of the skills have an update.
pub open spec fn count_updates(states: Seq<InventoryState>) -> int
    decreases states.len(),
{
    if states.len() == 0 {
        0
    } else {
        count_updates(states.drop_last()) + if states.last().has_update() {
            1int
        } else {
            0
        }
    }
}

/// How many of the skills are new, and how many have an update.
pub fn count_inventory(states: &Vec<InventoryState>) -> (r: (usize, usize))
    ensures
        r.0 == count_new(states@),
        r.1 == count_updates(states@),
{
    let mut fresh: usize = 0;
    let mut updates: usize = 0;
    let mut i: usize = 0;
    assert(states@.take(0) =~= Seq::empty());
    while i < states.len()
        invariant
            i <= states.len(),
            fresh <= i,
            updates <= i,
            fresh == count_new(states@.take(i as int)),
            updates == count_updates(states@.take(i as int)),
        decreases states.len() - i,
    {
        assert(states@.take(i + 1).drop_last() =~= states@.take(i as int));
        match states[i] {
            InventoryState::Available | InventoryState::PossibleMove => {
                fresh = fresh + 1;
            },
            InventoryState::Update => {
                updates = updates + 1;
            },
            InventoryState::Settled => {},
        }
        i = i + 1;
    }
    assert(states@.take(i as int) =~= states@);
    (fresh, updates)
}

/// What a task came to.
#[derive(Debug)]
pub enum TaskOutput {
    /// A repair was planned; the plan is known by its number.
    RepairPlan(Result<u64, String>),
    RepairApplied(Result<Vec<String>, String>),
    SyncConfigured(Result<(), String>),
    SyncDisabled(Result<(), String>),
    /// A synchronisation; the settings of the backup are there for its preview.
    Sync(Request, Result<Report, String>, Result<Settings, String>),
    AutoSync(Result<Report, AutoSyncFailure>),
    Batch(BatchOutcome),
    RepositoryFetched(String, Result<FetchedRepository, String>),
    /// A repository was read again; `current` where its page still waits for that.
    RepositoryRefreshed {
        alias: String,
        result: Result<Vec<InventoryState>, String>,
        current: bool,
    },
    RepositoryInstalled(Box<InstallSelection>, Result<Vec<String>, String>),
    Scan(Result<Box<Snapshot>, String>, Option<String>),
    RootStamp(Result<String, String>),
    /// Upstreams were checked; how many, and what the pages make of it comes as actions.
    Check(usize),
    Prepared(String, Result<Prepared, String>),
    /// The reference asked for, and the key it landed under.
    Installed(String, Result<String, InstallFailure>),
}

// ---- the input thread ---------------------------------------------------------

/// Takes the reader of the terminal off it for a while.
///
/// Handing the terminal to an editor takes more than to leave the screen: a reader that
/// still waits for input competes with the editor for the same keys. So it has to be
/// parked, and known to be parked, before that.
#[derive(Debug, Clone, Copy, PartialEq, Eq, Structural)]
pub struct InputGate {
    pub pause: bool,
    pub idle: bool,
}

impl InputGate {
    /// Once the reader was asked to stop.
    pub open spec fn held(self) -> InputGate {
        InputGate { pause: true, idle: false }
    }

    /// Once the reader may go on.
    pub open spec fn released(self) -> InputGate {
        InputGate { pause: false, ..self }
    }

    /// Once the reader asked whether it may read.
    pub open spec fn asked(self) -> InputGate {
        InputGate { idle: self.pause, ..self }
    }

    pub fn new() -> (r: InputGate)
        ensures
            r == (InputGate { pause: false, idle: false }),
    {
        InputGate { pause: false, idle: false }
    }

    /// Asks the reader to stop. It has stopped once it is parked.
    pub fn hold(&mut self)
        ensures
            *final(self) == old(self).held(),
    {
        self.idle = false;
        self.pause = true;
    }

    /// Whether the reader has stopped.
    pub fn parked(&self) -> (r: bool)
        ensures
            r == self.idle,
    {
        self.idle
    }

    pub fn release(&mut self)
        ensures
            *final(self) == old(self).released(),
    {
        self.pause = false;
    }

    /// The reader asks, before each wait for input, whether it may read.
    pub fn may_read(&mut self) -> (r: bool)
        ensures
            r == !old(self).pause,
            *final(self) == old(self).asked(),
    {
        self.idle = self.pause;
        !self.pause
    }
}

/// A hold is not seen as parked before the reader has asked, and from then on the reader
/// does not read, however often it asks, until it is released.
pub proof fn lemma_parked_reader_does_not_read(gate: InputGate)
    ensures
        !gate.held().idle,
        gate.held().asked().idle,
        gate.held().asked().pause,
        gate.held().asked().asked() == gate.held().asked(),
        !gate.held().asked().released().pause,
        !gate.held().asked().released().asked().idle,
{
}

// ---- batches -----------------------------------------------------------------

/// A change to several skills at once.
#[derive(Debug)]
pub enum BatchWork {
    Metadata(MutationScope, Write, Vec<String>),
    Links(Vec<PlannedLink>, Vec<String>),
}

/// What a batch came to.
#[derive(Debug)]
pub struct BatchOutcome {
    /// Skills of one name stand in each other's way: the choice, by its number.
    pub conflict: Option<u64>,
    pub message: String,
    pub intent: Option<Intent>,
    pub failed: Vec<String>,
    pub errors: Vec<String>,
    pub changed_scope: Option<MutationScope>,
}

/// Why a write failed.
#[derive(Debug)]
pub struct WriteFailure {
    pub text: String,
    /// Skills of one name stand in each other's way: the choice, by its number.
    pub conflict: Option<u64>,
}

impl BatchWork {
    /// The skills that the batch is about.
    pub fn keys(&self) -> (r: &Vec<String>)
        ensures
            *r == match *self {
                BatchWork::Metadata(_, _, keys) => keys,
                BatchWork::Links(_, keys) => keys,
            },
    {
        match self {
            BatchWork::Metadata(_, _, keys) => keys,
            BatchWork::Links(_, keys) => keys,
        }
    }
}

/// What a batch that wrote metadata came to.
pub open spec fn is_metadata_outcome(
    scope: MutationScope,
    keys: Vec<String>,
    result: Result<(String, Option<Intent>), WriteFailure>,
    r: BatchOutcome,
) -> bool {
    match result {
        Ok((message, intent)) => {
            &&& r.conflict is None
            &&& r.message == message
            &&& r.intent == intent
            &&& r.failed@.len() == 0
            &&& r.errors@.len() == 0
            &&& r.changed_scope == Some(scope)
        },
        Err(failure) => if failure.conflict is Some {
            &&& r.conflict == failure.conflict
            &&& r.message@ == "Choose conflicting skills"@
            &&& r.intent is None
            &&& r.failed@.len() == 0
            &&& r.errors@.len() == 0
            &&& r.changed_scope is None
        } else {
            &&& r.conflict is None
            &&& r.message@ == "Batch metadata edit failed"@
            &&& r.intent is None
            &&& r.failed == keys
            &&& r.errors@ == seq![failure.text]
            &&& r.changed_scope is None
        },
    }
}

/// The outcome of a batch that wrote metadata.
pub fn metadata_outcome(
    scope: MutationScope,
    keys: Vec<String>,
    result: Result<(String, Option<Intent>), WriteFailure>,
) -> (r: BatchOutcome)
    ensures
        is_metadata_outcome(scope, keys, result, r),
{
    match result {
        Ok((message, intent)) => BatchOutcome {
            conflict: None,
            message,
            intent,
            failed: Vec::new(),
            errors: Vec::new(),
            changed_scope: Some(scope),
        },
        Err(failure) => if failure.conflict.is_some() {
            name_conflict(failure.conflict)
        } else {
            refused_batch("Batch metadata edit failed", keys, failure.text)
        },
    }
}

/// The outcome of a batch that stops because skills of one name stand in each other's way.
fn name_conflict(conflict: Option<u64>) -> (r: BatchOutcome)
    ensures
        r.conflict == conflict,
        r.message@ == "Choose conflicting skills"@,
        r.intent is None,
        r.failed@.len() == 0,
        r.errors@.len() == 0,
        r.changed_scope is None,
{
    BatchOutcome {
        conflict,
        message: "Choose conflicting skills".to_owned(),
        intent: None,
        failed: Vec::new(),
        errors: Vec::new(),
        changed_scope: None,
    }
}

/// The outcome of a batch that failed as a whole.
fn refused_batch(message: &str, keys: Vec<String>, error: String) -> (r: BatchOutcome)
    ensures
        r.conflict is None,
        r.message@ == message@,
        r.intent is None,
        r.failed == keys,
        r.errors@ == seq![error],
        r.changed_scope is None,
{
    let mut errors: Vec<String> = Vec::new();
    errors.push(error);
    assert(errors@ =~= seq![error]);
    BatchOutcome {
        conflict: None,
        message: message.to_owned(),
        intent: None,
        failed: keys,
        errors,
        changed_scope: None,
    }
}

/// What a batch of links that was not begun came to.
pub open spec fn is_links_refusal(failure: WriteFailure, keys: Vec<String>, r: BatchOutcome) -> bool {
    &&& r.conflict == failure.conflict
    &&& r.intent is None
    &&& r.changed_scope is None
    &&& failure.conflict is Some ==> r.message@ == "Choose conflicting skills"@ && r.failed@.len()
        == 0 && r.errors@.len() == 0
    &&& failure.conflict is None ==> r.message@ == "Batch deployment failed"@ && r.failed == keys
        && r.errors@ == seq![failure.text]
}

/// The outcome of a batch of links that was not begun.
pub fn links_refused(failure: WriteFailure, keys: Vec<String>) -> (r: BatchOutcome)
    ensures
        is_links_refusal(failure, keys, r),
{
    if failure.conflict.is_some() {
        name_conflict(failure.conflict)
    } else {
        refused_batch("Batch deployment failed", keys, failure.text)
    }
}

/// What a batch whose worker stopped came to.
pub open spec fn is_stopped(keys: Vec<String>, r: BatchOutcome) -> bool {
    &&& r.conflict is None
    &&& r.message@ == "Batch worker failed"@
    &&& r.intent is None
    &&& r.failed == keys
    &&& r.errors@.len() == 1
    &&& r.errors@[0]@ == STOPPED_WORKER@
    &&& r.changed_scope is None
}

/// The outcome of a batch whose worker stopped.
pub fn worker_failed(keys: Vec<String>) -> (r: BatchOutcome)
    ensures
        is_stopped(keys, r),
{
    refused_batch("Batch worker failed", keys, STOPPED_WORKER.to_owned())
}

/// What is told where a worker stopped.
pub const STOPPED_WORKER: &'static str = "The worker stopped unexpectedly. Refresh and inspect affected skills before retrying.";

/// What is known of the place of a link, right before it is changed.
#[derive(Debug, Clone, Copy, PartialEq, Eq, Structural)]
pub struct LinkFacts {
    /// The directory of the agent is itself a link.
    pub parent_is_link: bool,
    /// The skill is there.
    pub target_is_dir: bool,
    /// There is a link at the place.
    pub path_is_link: bool,
    /// The link at the place leads to the skill.
    pub leads_to_skill: bool,
}

/// What is done about a link.
#[derive(Debug)]
pub enum LinkStep {
    Refuse(String),
    /// It is as it should be.
    Keep,
    /// The link is made where nothing is; anything there makes it fail.
    Create,
    Apply,
}

pub ghost enum LinkStepView {
    Refuse(Seq<char>),
    Keep,
    Create,
    Apply,
}

impl View for LinkStep {
    type V = LinkStepView;

    open spec fn view(&self) -> LinkStepView {
        match *self {
            LinkStep::Refuse(why) => LinkStepView::Refuse(why@),
            LinkStep::Keep => LinkStepView::Keep,
            LinkStep::Create => LinkStepView::Create,
            LinkStep::Apply => LinkStepView::Apply,
        }
    }
}

/// What is done about a link where its place is as the facts say.
pub open spec fn step_for(action: LinkAction, facts: LinkFacts) -> LinkStepView {
    match action {
        LinkAction::Link { target, .. } => if facts.parent_is_link {
            LinkStepView::Refuse("Agent directory became a symlink; refresh before deploying"@)
        } else if !facts.target_is_dir {
            LinkStepView::Refuse("Skill directory is no longer available: "@ + target@)
        } else if facts.path_is_link && facts.leads_to_skill {
            LinkStepView::Keep
        } else {
            LinkStepView::Create
        },
        LinkAction::Unlink { path, .. } => if facts.parent_is_link {
            LinkStepView::Refuse("Agent directory became a symlink; refresh before undeploying"@)
        } else if facts.path_is_link && !facts.leads_to_skill {
            LinkStepView::Refuse("Link target changed; refusing to remove "@ + path@)
        } else {
            LinkStepView::Apply
        },
        LinkAction::Mkdir { .. } => if facts.path_is_link {
            LinkStepView::Refuse("Agent directory became a symlink; refresh before deploying"@)
        } else {
            LinkStepView::Apply
        },
        _ => LinkStepView::Apply,
    }
}

/// What is done about a link, seen how its place is now: nothing that appeared since the
/// plan was made is ever replaced or removed.
pub fn batch_link_step(action: &LinkAction, facts: LinkFacts) -> (r: LinkStep)
    ensures
        r@ == step_for(*action, facts),
{
    match action {
        LinkAction::Link { target, .. } => {
            if facts.parent_is_link {
                LinkStep::Refuse(
                    "Agent directory became a symlink; refresh before deploying".to_owned(),
                )
            } else if !facts.target_is_dir {
                LinkStep::Refuse(cat2("Skill directory is no longer available: ", target.as_str()))
            } else if facts.path_is_link && facts.leads_to_skill {
                LinkStep::Keep
            } else {
                LinkStep::Create
            }
        },
        LinkAction::Unlink { path, .. } => {
            if facts.parent_is_link {
                LinkStep::Refuse(
                    "Agent directory became a symlink; refresh before undeploying".to_owned(),
                )
            } else if facts.path_is_link && !facts.leads_to_skill {
                LinkStep::Refuse(cat2("Link target changed; refusing to remove ", path.as_str()))
            } else {
                LinkStep::Apply
            }
        },
        LinkAction::Mkdir { .. } => {
            if facts.path_is_link {
                LinkStep::Refuse(
                    "Agent directory became a symlink; refresh before deploying".to_owned(),
                )
            } else {
                LinkStep::Apply
            }
        },
        _ => LinkStep::Apply,
    }
}

/// A batch of links that is being carried out, one by one.
#[derive(Debug)]
pub struct LinkBatch {
    pub actions: Vec<PlannedLink>,
    pub keys: Vec<String>,
    /// The next one to carry out.
    pub at: usize,
    pub completed: Vec<PlannedLink>,
    /// The skills that failed, in order and each once.
    pub failed: Vec<String>,
    pub errors: Vec<String>,
}

pub ghost struct LinkBatchView {
    pub actions: Seq<PlannedLink>,
    pub keys: Seq<String>,
    pub at: int,
    pub completed: Seq<PlannedLink>,
    pub failed: Seq<Seq<char>>,
    pub errors: Seq<Seq<char>>,
}

impl View for LinkBatch {
    type V = LinkBatchView;

    open spec fn view(&self) -> LinkBatchView {
        LinkBatchView {
            actions: self.actions@,
            keys: self.keys@,
            at: self.at as int,
            completed: self.completed@,
            failed: texts(self.failed@),
            errors: texts(self.errors@),
        }
    }
}

impl LinkBatchView {
    pub open spec fn valid(self) -> bool {
        0 <= self.at <= self.actions.len() && ascending(self.failed)
    }

    /// The skills that fail with the next action.
    pub open spec fn blamed(self, key: Seq<char>) -> bool {
        match self.actions[self.at].action.skill() {
            Some(skill) => key == skill@,
            None => texts(self.keys).contains(key),
        }
    }

    /// Why the next action fails, given what carrying it out came to: one that was planned
    /// to be skipped fails with its reason, whatever was done.
    pub open spec fn failure(self, result: Result<usize, String>) -> Option<Seq<char>> {
        match self.actions[self.at].action {
            LinkAction::Skip { reason, .. } => Some(reason@),
            _ => match result {
                Ok(_) => None,
                Err(error) => Some(error@),
            },
        }
    }

    /// The next action came to `result`, and the batch to `after`.
    pub open spec fn finished(self, result: Result<usize, String>, after: LinkBatchView) -> bool {
        let planned = self.actions[self.at];
        &&& after.at == self.at + 1
        &&& after.actions == self.actions
        &&& after.keys == self.keys
        &&& match self.failure(result) {
            None => {
                &&& after.errors == self.errors
                &&& after.failed == self.failed
                &&& after.completed == if result->Ok_0 > 0 {
                    self.completed.push(planned)
                } else {
                    self.completed
                }
            },
            Some(error) => {
                &&& after.completed == self.completed
                &&& after.errors == self.errors.push(planned.summary@ + ": "@ + error)
                &&& forall|key: Seq<char>| #[trigger]
                    after.failed.contains(key) <==> self.failed.contains(key) || self.blamed(key)
            },
        }
    }
}

impl LinkBatchView {
    /// What the batch came to once all of it was carried out.
    pub open spec fn came_to(self, summary: String, intent: Option<Intent>, r: BatchOutcome) -> bool {
        &&& r.conflict is None
        &&& r.message == summary
        &&& r.intent == intent
        &&& texts(r.failed@) == self.failed
        &&& texts(r.errors@) == self.errors
        &&& r.changed_scope == Some(MutationScope::Deployment)
    }
}

impl LinkBatch {
    pub fn new(actions: Vec<PlannedLink>, keys: Vec<String>) -> (r: LinkBatch)
        ensures
            r@ == (LinkBatchView {
                actions: actions@,
                keys: keys@,
                at: 0,
                completed: Seq::empty(),
                failed: Seq::empty(),
                errors: Seq::empty(),
            }),
            r@.valid(),
    {
        let r = LinkBatch {
            actions,
            keys,
            at: 0,
            completed: Vec::new(),
            failed: Vec::new(),
            errors: Vec::new(),
        };
        assert(r@.completed =~= Seq::empty());
        assert(r@.failed =~= Seq::empty());
        assert(r@.errors =~= Seq::empty());
        r
    }

    /// What is told while the next link is carried out; nothing once all are.
    pub fn progress(&self) -> (r: Option<String>)
        requires
            self@.valid(),
        ensures
            r is Some == (self@.at < self@.actions.len()),
            r is Some ==> (r->0)@ == "Deploy "@ + numeral(self@.at + 1) + "/"@ + numeral(
                self@.actions.len() as int,
            ) + ": "@ + self@.actions[self@.at].summary@,
    {
        if self.at < self.actions.len() {
            let done = decimal(self.at + 1);
            let all = decimal(self.actions.len());
            Some(
                crate::text::cat6(
                    "Deploy ",
                    done.as_str(),
                    "/",
                    all.as_str(),
                    ": ",
                    self.actions[self.at].summary.as_str(),
                ),
            )
        } else {
            None
        }
    }

    /// Takes what the next link came to: how many changes it made, or why it failed. A
    /// link that was planned to be skipped fails with its reason, whatever was done.
    pub fn finish_link(&mut self, result: Result<usize, String>)
        requires
            old(self)@.valid(),
            old(self)@.at < old(self)@.actions.len(),
        ensures
            final(self)@.valid(),
            old(self)@.finished(result, final(self)@),
    {
        let count = self.actions.len();
        let planned = self.actions[self.at].clone();
        let outcome: Result<usize, String> = match &planned.action {
            LinkAction::Skip { reason, .. } => Err(reason.clone()),
            _ => result,
        };
        match outcome {
            Ok(changes) => {
                if changes > 0 {
                    self.completed.push(planned);
                }
            },
            Err(error) => {
                let skill: Option<String> = match &planned.action {
                    LinkAction::Link { skill, .. } => Some(skill.clone()),
                    LinkAction::Unlink { skill, .. } => Some(skill.clone()),
                    LinkAction::Relink { skill, .. } => Some(skill.clone()),
                    LinkAction::Skip { skill, .. } => Some(skill.clone()),
                    LinkAction::Mkdir { .. } => None,
                };
                match skill {
                    Some(skill) => insert_sorted(&mut self.failed, skill),
                    None => self.blame_all(),
                }
                let text = cat3(planned.summary.as_str(), ": ", error.as_str());
                assert(texts(self.errors@.push(text)) =~= texts(self.errors@).push(text@));
                self.errors.push(text);
            },
        }
        self.at = self.at + 1;
    }

    /// What the batch came to: the links that were made are told and recorded, the others
    /// are told as errors.
    pub fn outcome(self, summary: String, intent: Option<Intent>) -> (r: BatchOutcome)
        ensures
            self@.came_to(summary, intent, r),
    {
        BatchOutcome {
            conflict: None,
            message: summary,
            intent,
            failed: self.failed,
            errors: self.errors,
            changed_scope: Some(MutationScope::Deployment),
        }
    }

    fn blame_all(&mut self)
        requires
            old(self)@.valid(),
        ensures
            final(self)@.valid(),
            final(self)@ == (LinkBatchView { failed: final(self)@.failed, ..old(self)@ }),
            forall|key: Seq<char>|
                final(self)@.failed.contains(key) <==> old(self)@.failed.contains(key) || texts(
                    old(self)@.keys,
                ).contains(key),
    {
        let ghost before = self@;
        let ghost all = texts(self.keys@);
        let mut i: usize = 0;
        assert(all.take(0) =~= Seq::empty());
        while i < self.keys.len()
            invariant
                i <= self.keys.len(),
                all == texts(self.keys@),
                self@ == (LinkBatchView { failed: self@.failed, ..before }),
                before.valid(),
                ascending(self@.failed),
                forall|key: Seq<char>|
                    #[trigger] self@.failed.contains(key) <==> before.failed.contains(key) || all.take(
                        i as int,
                    ).contains(key),
            decreases self.keys.len() - i,
        {
            let key = self.keys[i].clone();
            assert(key@ == all[i as int]);
            let ghost prior = self@.failed;
            insert_sorted(&mut self.failed, key);
            proof {
                let next = all.take(i + 1);
                let last = all.take(i as int);
                assert(next =~= last.push(all[i as int]));
                assert forall|k: Seq<char>|
                    self@.failed.contains(k) <==> before.failed.contains(k) || next.contains(
                        k,
                    ) by {
                    assert(prior.contains(k) <==> before.failed.contains(k) || last.contains(k));
                    if last.contains(k) {
                        let j = choose|j: int| 0 <= j < last.len() && last[j] == k;
                        assert(next[j] == k);
                    }
                    if k == all[i as int] {
                        assert(next[i as int] == k);
                    }
                    if next.contains(k) {
                        let j = choose|j: int| 0 <= j < next.len() && next[j] == k;
                        if j < i {
                            assert(last[j] == k);
                        }
                    }
                }
            }
            i = i + 1;
        }
        assert(all.take(i as int) =~= all);
    }
}

/// Each action is recorded as made, or told as an error, or neither, and never both; a
/// skill that failed once stays failed.
pub proof fn lemma_links_are_accounted_for(
    before: LinkBatchView,
    result: Result<usize, String>,
    after: LinkBatchView,
)
    requires
        before.finished(result, after),
        before.completed.len() + before.errors.len() <= before.at,
    ensures
        after.completed.len() + after.errors.len() <= after.at,
        after.completed == before.completed || after.errors == before.errors,
        before.failure(result) is Some ==> after.completed == before.completed
            && after.errors.len() == before.errors.len() + 1,
        forall|key: Seq<char>| #[trigger]
            before.failed.contains(key) ==> after.failed.contains(key),
{
}

/// A link that leads somewhere else is never removed, and a place in a directory that has
/// become a link is not touched.
pub proof fn lemma_foreign_link_is_kept(action: LinkAction, facts: LinkFacts)
    ensures
        action is Unlink && facts.path_is_link && !facts.leads_to_skill ==> step_for(
            action,
            facts,
        ) is Refuse,
        (action is Link || action is Unlink) && facts.parent_is_link ==> step_for(action, facts)
            is Refuse,
{
}

/// What is found at a path.
pub ghost enum Entry {
    Directory,
    Link(Seq<char>),
    Other,
}

/// What a look at the places of a link finds in a tree of files. `parent` is the directory
/// that the link is to be in.
pub open spec fn found(
    tree: Map<Seq<char>, Entry>,
    parent: Seq<char>,
    path: Seq<char>,
    target: Seq<char>,
) -> LinkFacts {
    LinkFacts {
        parent_is_link: tree.dom().contains(parent) && tree[parent] is Link,
        target_is_dir: tree.dom().contains(target) && tree[target] is Directory,
        path_is_link: tree.dom().contains(path) && tree[path] is Link,
        leads_to_skill: tree.dom().contains(path) && tree[path] == Entry::Link(target),
    }
}

/// How many links change, and the tree, once a link was asked for: it is made only where
/// nothing is.
pub open spec fn link_made(
    tree: Map<Seq<char>, Entry>,
    parent: Seq<char>,
    action: LinkAction,
) -> (Option<nat>, Map<Seq<char>, Entry>) {
    match action {
        LinkAction::Link { path, target, .. } => match step_for(
            action,
            found(tree, parent, path@, target@),
        ) {
            LinkStepView::Keep => (Some(0), tree),
            LinkStepView::Create => if tree.dom().contains(path@) {
                (None, tree)
            } else {
                (Some(1), tree.insert(path@, Entry::Link(target@)))
            },
            _ => (None, tree),
        },
        _ => (None, tree),
    }
}

/// What a link that is asked for does to the files. Where one link changed, nothing was at its
/// place before, it leads to the skill now, and asking again changes nothing. Where none
/// changed, it led there already. Anything else at the place, a skill that is not there or a
/// directory of the agent that is itself a link makes it fail; and then, as everywhere else,
/// nothing is created, replaced or removed.
pub proof fn lemma_links_replace_nothing(
    tree: Map<Seq<char>, Entry>,
    parent: Seq<char>,
    agent: String,
    skill: String,
    path: String,
    target: String,
)
    requires
        parent != path@,
    ensures
        ({
            let action = LinkAction::Link { agent, skill, path, target };
            let (count, after) = link_made(tree, parent, action);
            let leads = tree.dom().contains(path@) && tree[path@] == Entry::Link(target@);
            &&& count == Some(1nat) ==> !tree.dom().contains(path@) && after == tree.insert(
                path@,
                Entry::Link(target@),
            ) && link_made(after, parent, action) == (Some(0nat), after)
            &&& count == Some(0nat) ==> leads && after == tree
            &&& count is None ==> after == tree
            &&& count is None || count == Some(0nat) || count == Some(1nat)
            &&& tree.dom().contains(path@) && !leads ==> count is None
            &&& !(tree.dom().contains(target@) && tree[target@] is Directory) ==> count is None
            &&& tree.dom().contains(parent) && tree[parent] is Link ==> count is None
            &&& !tree.dom().contains(path@) && tree.dom().contains(target@)
                && tree[target@] is Directory && !(tree.dom().contains(parent)
                && tree[parent] is Link) ==> count == Some(1nat)
        }),
{
}

/// A link that was made is kept when it is asked for again.
pub proof fn lemma_link_is_made_once(action: LinkAction, facts: LinkFacts)
    requires
        action is Link,
        step_for(action, facts) is Create,
    ensures
        step_for(
            action,
            LinkFacts { path_is_link: true, leads_to_skill: true, ..facts },
        ) is Keep,
{
}

/// A batch that wrote metadata says that something changed, and where, only where the write
/// went through; only then it is recorded. A write that failed names all the skills, with one
/// reason; where names collide, no skill failed and the choice is asked for.
pub proof fn lemma_a_batch_tells_what_it_did(
    scope: MutationScope,
    keys: Vec<String>,
    result: Result<(String, Option<Intent>), WriteFailure>,
    r: BatchOutcome,
)
    requires
        is_metadata_outcome(scope, keys, result, r),
    ensures
        r.changed_scope is Some <==> result is Ok,
        result is Ok ==> r.changed_scope == Some(scope) && r.errors@.len() == 0 && r.failed@.len()
            == 0 && r.intent == result->Ok_0.1 && r.message == result->Ok_0.0,
        result is Err ==> r.intent is None && r.conflict == result->Err_0.conflict,
        result is Err && result->Err_0.conflict is None ==> r.failed == keys && r.errors@.len() == 1
            && r.errors@[0] == result->Err_0.text,
        result is Err && result->Err_0.conflict is Some ==> r.failed@.len() == 0 && r.errors@.len()
            == 0,
{
}

/// A batch that was not carried out changed nothing and records nothing: either all of its
/// skills failed, with a reason, or their names collide.
pub proof fn lemma_a_batch_that_did_not_run_changed_nothing(
    failure: WriteFailure,
    keys: Vec<String>,
    refused: BatchOutcome,
    stopped: BatchOutcome,
)
    requires
        is_links_refusal(failure, keys, refused),
        is_stopped(keys, stopped),
    ensures
        refused.changed_scope is None && stopped.changed_scope is None,
        refused.intent is None && stopped.intent is None,
        stopped.failed == keys && stopped.errors@.len() == 1 && stopped.conflict is None,
        refused.conflict == failure.conflict,
        failure.conflict is None ==> refused.failed == keys && refused.errors@.len() == 1
            && refused.errors@[0] == failure.text,
        failure.conflict is Some ==> refused.failed@.len() == 0 && refused.errors@.len() == 0,
{
}

/// What one link of a batch came to: made, it is recorded and no skill failed; as it should be
/// already, nothing is recorded; failed, its reason stands behind how it was told, and the
/// skill that it is about failed, or all of them where it is about none.
pub proof fn lemma_a_link_is_told_as_it_went(
    before: LinkBatchView,
    result: Result<usize, String>,
    after: LinkBatchView,
    key: Seq<char>,
)
    requires
        before.finished(result, after),
        before.actions[before.at].action !is Skip,
    ensures
        after.at == before.at + 1,
        after.actions == before.actions,
        result matches Ok(changes) ==> {
            &&& after.errors == before.errors
            &&& after.failed == before.failed
            &&& changes > 0 ==> after.completed == before.completed.push(before.actions[before.at])
            &&& changes == 0 ==> after.completed == before.completed
        },
        result matches Err(error) ==> {
            &&& after.completed == before.completed
            &&& after.errors == before.errors.push(
                before.actions[before.at].summary@ + ": "@ + error@,
            )
            &&& (before.actions[before.at].action matches LinkAction::Link { skill, .. }) ==> (
            after.failed.contains(key) <==> before.failed.contains(key) || key
                == before.actions[before.at].action->Link_skill@)
            &&& (before.actions[before.at].action matches LinkAction::Unlink { skill, .. }) ==> (
            after.failed.contains(key) <==> before.failed.contains(key) || key
                == before.actions[before.at].action->Unlink_skill@)
            &&& before.actions[before.at].action is Mkdir ==> (after.failed.contains(key)
                <==> before.failed.contains(key) || texts(before.keys).contains(key))
        },
{
}

/// A link that was planned to be left out is told with its reason, and its skill failed.
pub proof fn lemma_a_skipped_link_is_told(
    before: LinkBatchView,
    result: Result<usize, String>,
    after: LinkBatchView,
    key: Seq<char>,
)
    requires
        before.finished(result, after),
        before.actions[before.at].action is Skip,
    ensures
        after.completed == before.completed,
        after.errors == before.errors.push(
            before.actions[before.at].summary@ + ": "@
                + before.actions[before.at].action->Skip_reason@,
        ),
        after.failed.contains(key) <==> before.failed.contains(key) || key
            == before.actions[before.at].action->Skip_skill@,
{
}

/// The whole of a batch is told as its links were: no error is lost, and none is made up.
pub proof fn lemma_a_batch_keeps_its_errors(
    batch: LinkBatchView,
    summary: String,
    intent: Option<Intent>,
    r: BatchOutcome,
    i: int,
)
    requires
        batch.came_to(summary, intent, r),
    ensures
        r.errors@.len() == batch.errors.len(),
        r.failed@.len() == batch.failed.len(),
        0 <= i < batch.errors.len() ==> r.errors@[i]@ == batch.errors[i],
        0 <= i < batch.failed.len() ==> r.failed@[i]@ == batch.failed[i],
        r.intent == intent,
        r.message == summary,
        r.changed_scope == Some(MutationScope::Deployment),
        r.conflict is None,
{
    assert(texts(r.errors@).len() == r.errors@.len());
    assert(texts(r.failed@).len() == r.failed@.len());
    if 0 <= i < batch.errors.len() {
        assert(texts(r.errors@)[i] == r.errors@[i]@);
    }
    if 0 <= i < batch.failed.len() {
        assert(texts(r.failed@)[i] == r.failed@[i]@);
    }
}

/// What is done about a link that is to go: it goes unless the directory of its agent became a
/// link or it leads somewhere else now. A directory is made unless a link stands there.
pub proof fn lemma_a_link_is_taken_away(action: LinkAction, facts: LinkFacts)
    ensures
        action is Unlink ==> (step_for(action, facts) is Apply <==> !facts.parent_is_link && (
        facts.path_is_link ==> facts.leads_to_skill)),
        action is Unlink && !(step_for(action, facts) is Apply) ==> step_for(action, facts)
            is Refuse,
        action is Mkdir ==> (step_for(action, facts) is Apply <==> !facts.path_is_link),
        action is Mkdir && facts.path_is_link ==> step_for(action, facts) is Refuse,
        action is Link ==> (step_for(action, facts) is Create <==> !facts.parent_is_link
            && facts.target_is_dir && !(facts.path_is_link && facts.leads_to_skill)),
        action is Link ==> step_for(action, facts) !is Apply,
        action is Unlink ==> step_for(action, facts) !is Create,
{
}

/// Skills that are new, moved ones among them, and skills that have an update are counted
/// apart, each once.
pub proof fn lemma_the_inventory_is_counted(states: Seq<InventoryState>)
    ensures
        count_new(states) == states.filter(
            |s: InventoryState|
                s == InventoryState::Available || s == InventoryState::PossibleMove,
        ).len(),
        count_updates(states) == states.filter(
            |s: InventoryState| s == InventoryState::Update,
        ).len(),
        0 <= count_new(states),
        0 <= count_updates(states),
        count_new(states) + count_updates(states) <= states.len(),
    decreases states.len(),
{
    reveal(Seq::filter);
    if states.len() > 0 {
        lemma_the_inventory_is_counted(states.drop_last());
    }
}

/// Which work concerns the backup, and which changes the library: no work does both.
pub proof fn lemma_what_work_is_about(task: Task)
    ensures
        task is Sync || task is AutoSync <==> task.syncs_root(),
        task is SyncConfigure || task is SyncDisable || task.syncs_root() <==> task.concerns_root(),
        task is InstallRepository || task is Install || task is RepairApply
            <==> task.changes_library(),
        !(task.concerns_root() && task.changes_library()),
        task is Scan || task is PollRoot <==> task.title() is None,
{
}

/// A check says how far it has come and what it looks at next.
pub proof fn lemma_a_check_says_how_far_it_is(done: int, total: int, key: Seq<char>)
    ensures
        check_step(done, total, Some(key)) == numeral(done) + "/"@ + numeral(total)
            + " complete"@ + (" · querying "@ + key + "…"@),
        check_step(done, total, None) == numeral(done) + "/"@ + numeral(total) + " complete"@ + ""@,
{
}

/// Work is named after what it does; scans and looks at the library run unnamed.
pub proof fn lemma_how_work_is_named(task: Task)
    ensures
        task is Scan || task is PollRoot <==> task.title() is None,
        task is DiscoverRepository ==> task.title() == Some(
            "Discover "@ + task->DiscoverRepository_0@,
        ),
        task is InstallRepository ==> task.title() == Some("Install skills"@),
        task is Check ==> task.title() == Some(
            "Check "@ + numeral(task->Check_0@.len() as int) + " skills"@,
        ),
        task is Prepare ==> task.title() == Some("Update "@ + task->Prepare_0@),
        task is Install ==> task.title() == Some("Install "@ + task->Install_reference@),
        task is Sync || task is AutoSync ==> task.title() == Some("Root sync"@),
        task is SyncConfigure ==> task.title() == Some("Root sync setup"@),
        task is SyncDisable ==> task.title() == Some("Disable root sync"@),
        task is RepairApply ==> task.title() == Some("Repair"@),
        task is RefreshRepository ==> task.title() == Some("Refresh "@ + task->RefreshRepository_0@),
{
}

/// Nothing that appeared since a plan was made is replaced or removed: a link is made only
/// below a directory of the agent's own and to a skill that is there, and removed only where
/// it still leads to the skill.
pub proof fn lemma_what_appeared_is_not_replaced(action: LinkAction, facts: LinkFacts)
    ensures
        action is Link && facts.parent_is_link ==> step_for(action, facts) == LinkStepView::Refuse(
            "Agent directory became a symlink; refresh before deploying"@,
        ),
        action is Link && !facts.parent_is_link && !facts.target_is_dir ==> step_for(action, facts)
            == LinkStepView::Refuse(
            "Skill directory is no longer available: "@ + action->Link_target@,
        ),
        action is Link && !facts.parent_is_link && facts.target_is_dir && facts.path_is_link
            && facts.leads_to_skill ==> step_for(action, facts) is Keep,
        action is Link && !facts.parent_is_link && facts.target_is_dir && !(facts.path_is_link
            && facts.leads_to_skill) ==> step_for(action, facts) is Create,
        action is Unlink && facts.parent_is_link ==> step_for(action, facts)
            == LinkStepView::Refuse(
            "Agent directory became a symlink; refresh before undeploying"@,
        ),
        action is Unlink && !facts.parent_is_link && facts.path_is_link && !facts.leads_to_skill
            ==> step_for(action, facts) == LinkStepView::Refuse(
            "Link target changed; refusing to remove "@ + action->Unlink_path@,
        ),
        action is Unlink && !facts.parent_is_link && !(facts.path_is_link && !facts.leads_to_skill)
            ==> step_for(action, facts) is Apply,
        action is Mkdir && facts.path_is_link ==> step_for(action, facts) == LinkStepView::Refuse(
            "Agent directory became a symlink; refresh before deploying"@,
        ),
        action is Mkdir && !facts.path_is_link ==> step_for(action, facts) is Apply,
{
}

} // verus!
