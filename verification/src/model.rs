//! The library as this program sees it.

use crate::text::{clone_all, clone_optional, same_text};
use vstd::prelude::*;

verus! {

/// Where the library is backed up to.
#[derive(Debug)]
pub struct Settings {
    pub url: Option<String>,
    pub branch: Option<String>,
    pub enabled: bool,
}

/// How the library stands against its backup.
#[derive(Debug)]
pub struct Status {
    pub settings: Settings,
    pub changes: Vec<String>,
    pub ahead: usize,
    pub behind: usize,
    pub remote_checked: bool,
    pub local_revision: Option<String>,
    pub remote_revision: Option<String>,
}

pub ghost struct StatusView {
    pub settings: Settings,
    pub changes: Seq<String>,
    pub ahead: usize,
    pub behind: usize,
    pub remote_checked: bool,
    pub local_revision: Option<String>,
    pub remote_revision: Option<String>,
}

impl View for Status {
    type V = StatusView;

    open spec fn view(&self) -> StatusView {
        StatusView {
            settings: self.settings,
            changes: self.changes@,
            ahead: self.ahead,
            behind: self.behind,
            remote_checked: self.remote_checked,
            local_revision: self.local_revision,
            remote_revision: self.remote_revision,
        }
    }
}

/// What is known of the backup, as contracts speak of it.
pub open spec fn known(status: Option<Status>) -> Option<StatusView> {
    match status {
        Some(status) => Some(status@),
        None => None,
    }
}

impl Clone for Status {
    fn clone(&self) -> (r: Status)
        ensures
            r@ == self@,
    {
        Status {
            settings: self.settings.clone(),
            changes: clone_all(&self.changes),
            ahead: self.ahead,
            behind: self.behind,
            remote_checked: self.remote_checked,
            local_revision: clone_optional(&self.local_revision),
            remote_revision: clone_optional(&self.remote_revision),
        }
    }
}

/// Why an automatic synchronisation stopped.
#[derive(Debug, Clone, Copy, PartialEq, Eq, Structural)]
pub enum AutoSyncDisposition {
    /// It may work later with the same input.
    Transient,
    /// The library changed under it.
    WorkingTreeChanged,
    /// It will not work with the same input.
    Fatal,
}

/// How sources are marked: with the glyphs of a patched font, or in words.
#[derive(Debug, Clone, Copy, PartialEq, Eq, Structural)]
pub enum Icons {
    Nerd,
    Text,
}

/// Where a skill comes from.
#[derive(Debug)]
pub enum Source {
    Git {
        url: String,
        subpath: Option<String>,
        branch: Option<String>,
        revision: Option<String>,
    },
    Archive { url: String },
    Local { path: Option<String> },
}

impl Clone for Settings {
    fn clone(&self) -> (r: Settings)
        ensures
            r == *self,
    {
        Settings {
            url: clone_optional(&self.url),
            branch: clone_optional(&self.branch),
            enabled: self.enabled,
        }
    }
}

/// What a synchronisation does.
#[derive(Debug, Clone, Copy, PartialEq, Eq, Structural)]
pub enum Mode {
    Sync,
    Push,
    Pull,
}

impl Mode {
    #[verifier::allow_in_spec]
    pub fn name(self) -> &'static str
        returns
            (match self {
                Mode::Sync => "Sync",
                Mode::Push => "Push",
                Mode::Pull => "Pull",
            }),
    {
        match self {
            Mode::Sync => "Sync",
            Mode::Push => "Push",
            Mode::Pull => "Pull",
        }
    }
}

/// What a synchronisation did, or would do.
#[derive(Debug)]
pub struct Report {
    pub committed: bool,
    pub pulled: bool,
    pub pushed: bool,
    /// The local changes, one in a line.
    pub status: Vec<String>,
}

/// Which side of an update is kept.
#[derive(Debug, Clone, Copy, PartialEq, Eq, Structural)]
pub enum Take {
    Local,
    Upstream,
}

/// How a file stands against its upstream.
#[derive(Debug, Clone, Copy, PartialEq, Eq, Structural)]
pub enum FileChange {
    UpstreamChanged,
    LocalChanged,
    BothChanged,
    Differs,
    Unchanged,
}

/// A file of an update.
#[derive(Debug)]
pub struct ChangedFile {
    pub name: String,
    pub change: FileChange,
}

/// An update that was fetched and waits for a decision.
#[derive(Debug)]
pub struct Prepared {
    pub skill: String,
    pub from_revision: Option<String>,
    pub to_revision: String,
    /// The skill was modified locally.
    pub needs_resolution: bool,
    pub files: Vec<ChangedFile>,
    /// The revision that was installed is at hand.
    pub has_baseline: bool,
    pub new_skills: Vec<String>,
    /// Where the update was fetched to.
    pub workdir: String,
}

/// What a change touches: the library itself, or only what agents see of it.
#[derive(Debug, Clone, Copy, PartialEq, Eq, Structural)]
pub enum MutationScope {
    Library,
    Deployment,
}

/// What the directory of an agent is.
#[derive(Debug, Clone, Copy, PartialEq, Eq, Structural)]
pub enum AgentDirMode {
    Real,
    Missing,
    ReadOnly,
    Other,
}

/// What an agent has under the name of a skill.
#[derive(Debug)]
pub enum EntryState {
    Deployed,
    Broken,
    Shadow { same_content: bool },
    Foreign { target: String },
    AgentOnly,
}

/// How a skill stands.
#[derive(Debug)]
pub enum SkillStatus {
    Local,
    Repository,
    MissingBaseline,
    Modified,
    Missing,
    Renamed { to: String },
    MissingSource,
    Invalid { reason: String },
    CorruptMeta { error: String },
}

/// A skill of the library.
#[derive(Debug)]
pub struct SkillRecord {
    pub key: String,
    pub name: Option<String>,
    pub description: Option<String>,
    pub status: SkillStatus,
    pub tags: Vec<String>,
    pub presets: Vec<String>,
    pub note: Option<String>,
    pub source: Option<Source>,
    pub source_name: Option<String>,
    pub has_meta: bool,
    /// The agents that have it deployed.
    pub deployed: Vec<String>,
}

/// What an agent has under one name.
#[derive(Debug)]
pub struct AgentEntry {
    pub name: String,
    pub state: EntryState,
}

/// An agent that skills are deployed to.
#[derive(Debug)]
pub struct AgentRecord {
    pub key: String,
    pub name: String,
    pub mode: AgentDirMode,
    pub entries: Vec<AgentEntry>,
}

/// A repository that skills were installed from.
#[derive(Debug)]
pub struct RepositoryRecord {
    pub alias: String,
    pub display_name: String,
    pub source: Source,
}

/// A named list of skills.
#[derive(Debug)]
pub struct PresetRecord {
    pub name: String,
    pub members: Vec<String>,
}

/// The library at one time.
#[derive(Debug)]
pub struct Snapshot {
    pub root: String,
    pub skills: Vec<SkillRecord>,
    pub agents: Vec<AgentRecord>,
    pub repositories: Vec<RepositoryRecord>,
    pub presets: Vec<PresetRecord>,
    /// The tags that are configured, whether a skill has them or not.
    pub tags: Vec<String>,
}

/// `key` is the key of the `i`th skill.
pub open spec fn is_skill(snap: Snapshot, i: int, key: Seq<char>) -> bool {
    0 <= i < snap.skills@.len() && snap.skills@[i].key@ == key
}

/// The first skill, from `at` on, with this key.
pub open spec fn skill_from(skills: Seq<SkillRecord>, key: Seq<char>, at: int) -> Option<int>
    decreases skills.len() - at,
{
    if at < 0 || at >= skills.len() {
        None
    } else if skills[at].key@ == key {
        Some(at)
    } else {
        skill_from(skills, key, at + 1)
    }
}

impl Snapshot {
    /// Where the skill with this key is.
    pub open spec fn skill_at(self, key: Seq<char>) -> Option<int> {
        skill_from(self.skills@, key, 0)
    }

    pub fn find(&self, key: &str) -> (r: Option<usize>)
        ensures
            match r {
                Some(i) => self.skill_at(key@) == Some(i as int) && i < self.skills@.len(),
                None => self.skill_at(key@) is None,
            },
    {
        let mut i: usize = 0;
        while i < self.skills.len()
            invariant
                i <= self.skills.len(),
                self.skill_at(key@) == skill_from(self.skills@, key@, i as int),
            decreases self.skills.len() - i,
        {
            if same_text(self.skills[i].key.as_str(), key) {
                return Some(i);
            }
            i = i + 1;
        }
        None
    }
}

/// A change to one link of an agent's directory.
#[derive(Debug)]
pub enum LinkAction {
    Link { agent: String, skill: String, path: String, target: String },
    Unlink { agent: String, skill: String, path: String },
    Relink { agent: String, skill: String, path: String, target: String },
    Mkdir { agent: String, path: String },
    Skip { agent: String, skill: String, reason: String },
}

/// A planned change and how it is told.
#[derive(Debug)]
pub struct PlannedLink {
    pub action: LinkAction,
    pub summary: String,
}

impl LinkAction {
    /// The skill that a change is about.
    pub open spec fn skill(self) -> Option<String> {
        match self {
            LinkAction::Link { skill, .. } => Some(skill),
            LinkAction::Unlink { skill, .. } => Some(skill),
            LinkAction::Relink { skill, .. } => Some(skill),
            LinkAction::Skip { skill, .. } => Some(skill),
            LinkAction::Mkdir { .. } => None,
        }
    }

    pub open spec fn changes(self) -> bool {
        self !is Skip
    }

    /// Whether anything would be changed.
    pub fn is_change(&self) -> (r: bool)
        ensures
            r == self.changes(),
    {
        !matches!(self, LinkAction::Skip { .. })
    }
}

impl Clone for LinkAction {
    fn clone(&self) -> (r: LinkAction)
        ensures
            r == *self,
    {
        match self {
            LinkAction::Link { agent, skill, path, target } => LinkAction::Link {
                agent: agent.clone(),
                skill: skill.clone(),
                path: path.clone(),
                target: target.clone(),
            },
            LinkAction::Unlink { agent, skill, path } => LinkAction::Unlink {
                agent: agent.clone(),
                skill: skill.clone(),
                path: path.clone(),
            },
            LinkAction::Relink { agent, skill, path, target } => LinkAction::Relink {
                agent: agent.clone(),
                skill: skill.clone(),
                path: path.clone(),
                target: target.clone(),
            },
            LinkAction::Mkdir { agent, path } => LinkAction::Mkdir {
                agent: agent.clone(),
                path: path.clone(),
            },
            LinkAction::Skip { agent, skill, reason } => LinkAction::Skip {
                agent: agent.clone(),
                skill: skill.clone(),
                reason: reason.clone(),
            },
        }
    }
}

impl Clone for PlannedLink {
    fn clone(&self) -> (r: PlannedLink)
        ensures
            r == *self,
    {
        PlannedLink { action: self.action.clone(), summary: self.summary.clone() }
    }
}

/// Some change among the planned ones would change anything.
pub open spec fn any_changes(actions: Seq<PlannedLink>) -> bool {
    exists|i: int| 0 <= i < actions.len() && (#[trigger] actions[i]).action.changes()
}

pub fn has_change(actions: &Vec<PlannedLink>) -> (r: bool)
    ensures
        r == any_changes(actions@),
{
    let mut i: usize = 0;
    while i < actions.len()
        invariant
            i <= actions.len(),
            forall|k: int| 0 <= k < i ==> !(#[trigger] actions@[k]).action.changes(),
        decreases actions.len() - i,
    {
        if actions[i].action.is_change() {
            return true;
        }
        i = i + 1;
    }
    false
}

/// How the planned changes are told, one by one.
pub open spec fn summaries(actions: Seq<PlannedLink>) -> Seq<Seq<char>> {
    actions.map_values(|a: PlannedLink| a.summary@)
}

/// Something that happened and can be taken back.
#[derive(Debug)]
pub enum Intent {
    Install { skill: String },
    Rename { from: String, to: String },
    Links { added: Vec<(String, String)>, removed: Vec<(String, String)> },
    /// Anything else, kept by its number.
    Stored(u64),
}

/// A write to the library, to be carried out by whoever owns it.
#[derive(Debug)]
pub enum Write {
    RenameRepository { alias: String, name: String },
    RenameSkill { from: String, to: String },
    SetSource { skill: String, reference: String },
    CreatePreset { name: String },
    DescribePreset { name: String, description: String },
    RenamePreset { old: String, new: String },
    DeletePreset { name: String },
    CreateTag { name: String },
    DescribeTag { name: String, description: String },
    RenameTag { old: String, new: String },
    DeleteTag { tag: String },
    /// Puts a tag on skills or takes it from them; creates it where it is new.
    EditTag { name: String, keys: Vec<String>, add: bool },
    AddToPresets { names: Vec<String>, keys: Vec<String> },
    Deploy { keys: Vec<String>, changes: Vec<TargetChange> },
    Adopt { agent: String, path: String },
    RemoveSkill { key: String },
    DiscardSkill { key: String },
    SetTagsEnabled(bool),
    ApplyUpdate { prepared: Box<Prepared>, take: Take },
    EditNote { skill: String, text: String },
    /// A step of the history that was planned before, by its number.
    TakeBack(u64),
}

/// Whether an agent is to have the skills of a deployment, and in which project.
#[derive(Debug)]
pub struct TargetChange {
    pub agent: String,
    pub on: bool,
    pub project: Option<String>,
}

/// Whether an agent is to have the skills of a batch.
#[derive(Debug)]
pub struct LinkRequest {
    pub agent: String,
    pub on: bool,
}

/// The first agent, from `at` on, with this key.
pub open spec fn agent_from(agents: Seq<AgentRecord>, key: Seq<char>, at: int) -> Option<int>
    decreases agents.len() - at,
{
    if at < 0 || at >= agents.len() {
        None
    } else if agents[at].key@ == key {
        Some(at)
    } else {
        agent_from(agents, key, at + 1)
    }
}

impl Snapshot {
    /// Where the agent with this key is.
    pub open spec fn agent_at(self, key: Seq<char>) -> Option<int> {
        agent_from(self.agents@, key, 0)
    }

    pub fn find_agent(&self, key: &str) -> (r: Option<usize>)
        ensures
            match r {
                Some(i) => self.agent_at(key@) == Some(i as int) && i < self.agents@.len(),
                None => self.agent_at(key@) is None,
            },
    {
        let mut i: usize = 0;
        while i < self.agents.len()
            invariant
                i <= self.agents.len(),
                self.agent_at(key@) == agent_from(self.agents@, key@, i as int),
            decreases self.agents.len() - i,
        {
            if same_text(self.agents[i].key.as_str(), key) {
                return Some(i);
            }
            i = i + 1;
        }
        None
    }
}

// ---- laws --------------------------------------------------------------------

proof fn lemma_first_skill(skills: Seq<SkillRecord>, key: Seq<char>, at: int)
    requires
        0 <= at <= skills.len(),
    ensures
        skill_from(skills, key, at) matches Some(i) ==> at <= i < skills.len() && skills[i].key@
            == key && forall|k: int| at <= k < i ==> (#[trigger] skills[k]).key@ != key,
        skill_from(skills, key, at) is None ==> forall|k: int|
            at <= k < skills.len() ==> (#[trigger] skills[k]).key@ != key,
    decreases skills.len() - at,
{
    if at < skills.len() && skills[at].key@ != key {
        lemma_first_skill(skills, key, at + 1);
    }
}

/// A skill is found by its key, the first one where there are several; where none is found,
/// none has the key.
pub proof fn lemma_skills_are_found(snap: Snapshot, key: Seq<char>)
    ensures
        snap.skill_at(key) matches Some(i) ==> 0 <= i < snap.skills@.len() && snap.skills@[i].key@
            == key && forall|k: int| 0 <= k < i ==> (#[trigger] snap.skills@[k]).key@ != key,
        snap.skill_at(key) is None <==> forall|k: int|
            0 <= k < snap.skills@.len() ==> (#[trigger] snap.skills@[k]).key@ != key,
{
    lemma_first_skill(snap.skills@, key, 0);
}

proof fn lemma_first_agent(agents: Seq<AgentRecord>, key: Seq<char>, at: int)
    requires
        0 <= at <= agents.len(),
    ensures
        agent_from(agents, key, at) matches Some(i) ==> at <= i < agents.len() && agents[i].key@
            == key,
        agent_from(agents, key, at) is None ==> forall|k: int|
            at <= k < agents.len() ==> (#[trigger] agents[k]).key@ != key,
    decreases agents.len() - at,
{
    if at < agents.len() && agents[at].key@ != key {
        lemma_first_agent(agents, key, at + 1);
    }
}

/// An agent is found by its key; where none is found, none has the key.
pub proof fn lemma_agents_are_found(snap: Snapshot, key: Seq<char>)
    ensures
        snap.agent_at(key) matches Some(i) ==> 0 <= i < snap.agents@.len() && snap.agents@[i].key@
            == key,
        snap.agent_at(key) is None <==> forall|k: int|
            0 <= k < snap.agents@.len() ==> (#[trigger] snap.agents@[k]).key@ != key,
{
    lemma_first_agent(snap.agents@, key, 0);
}

/// Plans that only leave things out change nothing; any other plan changes something.
pub proof fn lemma_plans_that_change_something(actions: Seq<PlannedLink>, i: int)
    ensures
        0 <= i < actions.len() && (actions[i].action is Link || actions[i].action is Unlink
            || actions[i].action is Relink || actions[i].action is Mkdir) ==> any_changes(actions),
        (forall|k: int| 0 <= k < actions.len() ==> (#[trigger] actions[k]).action is Skip)
            ==> !any_changes(actions),
{
    if 0 <= i < actions.len() && actions[i].action !is Skip {
        assert(actions[i].action.changes());
    }
}

/// The ways of a synchronisation are called by their names.
pub proof fn lemma_ways_have_names(mode: Mode)
    ensures
        mode == Mode::Sync ==> mode.name()@ == "Sync"@,
        mode == Mode::Push ==> mode.name()@ == "Push"@,
        mode == Mode::Pull ==> mode.name()@ == "Pull"@,
{
}

} // verus!
