//! Prompts for one line of text, and what is done with it.

use crate::app::{both, complain, complains, nothing, only, Action, Hint};
use crate::dialogs::confirm::{plain_lines, plain_views, ConfirmWrite, ConfirmWriteView};
use crate::dialogs::message::{lines_of, split_lines};
use crate::event::Task;
use crate::geometry::{monus, plus16, spec_min, Rect};
use crate::keymap::{KeyCode, KeyEvent, MouseEvent, MouseKind};
use crate::modal::Modal;
use crate::model::{
    AgentDirMode, AgentEntry, AgentRecord, EntryState, MutationScope, PresetRecord, Snapshot, Write,
};
use crate::text::{
    after_last, before_last, cat2, cat3, cat4, cat5, cat6, chars_of, has_prefix, head_before_last,
    list_holds, quote, quoted, same_text, starts_with, tail_after, texts, trim, trimmed,
};
use crate::theme::Theme;
use crate::ui::{
    contents, count_wrapped, flowing, framed, wrapped_rows, Draw, DrawView, Scene, Wrap,
};
use crate::widgets::{
    centered, empty_input, input_with, is_multiline, middle_of, paste_refused, Input, InputView,
};
use vstd::prelude::*;

verus! {

/// What a text is asked for.
#[derive(Debug)]
pub enum InputKind {
    PresetName,
    TagName,
    TagDescription { name: String },
    PresetDescription { name: String },
    RenamePreset { old: String },
    RenameTag { old: String },
    RenameRepository { alias: String },
    Install,
    Rename { skill: String },
    SetSource { skill: String },
}

pub ghost enum KindView {
    PresetName,
    TagName,
    TagDescription { name: Seq<char> },
    PresetDescription { name: Seq<char> },
    RenamePreset { old: Seq<char> },
    RenameTag { old: Seq<char> },
    RenameRepository { alias: Seq<char> },
    Install,
    Rename { skill: Seq<char> },
    SetSource { skill: Seq<char> },
}

impl View for InputKind {
    type V = KindView;

    open spec fn view(&self) -> KindView {
        match *self {
            InputKind::PresetName => KindView::PresetName,
            InputKind::TagName => KindView::TagName,
            InputKind::TagDescription { name } => KindView::TagDescription { name: name@ },
            InputKind::PresetDescription { name } => KindView::PresetDescription { name: name@ },
            InputKind::RenamePreset { old } => KindView::RenamePreset { old: old@ },
            InputKind::RenameTag { old } => KindView::RenameTag { old: old@ },
            InputKind::RenameRepository { alias } => KindView::RenameRepository { alias: alias@ },
            InputKind::Install => KindView::Install,
            InputKind::Rename { skill } => KindView::Rename { skill: skill@ },
            InputKind::SetSource { skill } => KindView::SetSource { skill: skill@ },
        }
    }
}

/// What kind of source a reference names.
#[derive(Debug, Clone, Copy, PartialEq, Eq, Structural)]
pub enum RefKind {
    Local,
    Remote,
}

/// What is known of the text before it is submitted: whether the library takes it.
#[derive(Debug)]
pub struct PromptChecks {
    /// Why it is no name of a source.
    pub name_error: Option<String>,
    /// It is a name that a skill or a preset can have.
    pub key_ok: bool,
    /// The key that a skill would get is one that a skill can have.
    pub id_ok: bool,
    /// What source it names, or why it names none.
    pub reference: Result<RefKind, String>,
}

/// Asks for one line of text.
#[derive(Debug)]
pub struct Prompt {
    pub title: String,
    pub input: Input,
    pub kind: InputKind,
    pub hint: String,
    pub rect: Rect,
}

pub ghost struct PromptView {
    pub title: Seq<char>,
    pub input: InputView,
    pub kind: KindView,
    pub hint: Seq<char>,
    pub rect: Rect,
}

impl View for Prompt {
    type V = PromptView;

    open spec fn view(&self) -> PromptView {
        PromptView {
            title: self.title@,
            input: self.input@,
            kind: self.kind@,
            hint: self.hint@,
            rect: self.rect,
        }
    }
}

/// A prompt that was not drawn yet.
pub open spec fn asked(
    title: Seq<char>,
    input: InputView,
    kind: KindView,
    hint: Seq<char>,
) -> PromptView {
    PromptView { title, input, kind, hint, rect: Rect::zero() }
}

/// The text in a field to begin with.
pub open spec fn text_or_none(text: Option<&str>) -> Seq<char> {
    match text {
        Some(text) => text@,
        None => ""@,
    }
}

impl Modal {
    /// The dialog asks this.
    pub open spec fn asks(self, prompt: PromptView) -> bool {
        self matches Modal::Input(p) && p@ == prompt && p@.valid()
    }

    fn prompt(title: String, input: Input, kind: InputKind, hint: &str) -> (r: Modal)
        requires
            input@.valid(),
        ensures
            r.asks(asked(title@, input@, kind@, hint@)),
    {
        Modal::Input(
            Box::new(Prompt { title, input, kind, hint: hint.to_owned(), rect: Rect::zero() }),
        )
    }

    pub fn new_preset() -> (r: Modal)
        ensures
            r.asks(
                asked(
                    " new preset "@,
                    empty_input(),
                    KindView::PresetName,
                    "name · Enter create · Esc cancel"@,
                ),
            ),
    {
        Modal::prompt(
            " new preset ".to_owned(),
            Input::empty(),
            InputKind::PresetName,
            "name · Enter create · Esc cancel",
        )
    }

    /// Edits the description of a preset. An empty one clears it.
    pub fn preset_description(name: &str, current: Option<&str>) -> (r: Modal)
        ensures
            r.asks(
                asked(
                    " description of "@ + name@ + " "@,
                    input_with(text_or_none(current)),
                    KindView::PresetDescription { name: name@ },
                    "one sentence · Enter save · empty clears · Esc cancel"@,
                ),
            ),
    {
        let text = match current {
            Some(text) => text,
            None => "",
        };
        Modal::prompt(
            cat3(" description of ", name, " "),
            Input::with_value(text),
            InputKind::PresetDescription { name: name.to_owned() },
            "one sentence · Enter save · empty clears · Esc cancel",
        )
    }

    /// Asks for the new name of a preset, starting from the old one.
    pub fn rename_preset(name: &str) -> (r: Modal)
        ensures
            r.asks(
                asked(
                    " rename preset "@ + name@ + " "@,
                    input_with(name@),
                    KindView::RenamePreset { old: name@ },
                    "new name · Enter rename · Esc cancel"@,
                ),
            ),
    {
        Modal::prompt(
            cat3(" rename preset ", name, " "),
            Input::with_value(name),
            InputKind::RenamePreset { old: name.to_owned() },
            "new name · Enter rename · Esc cancel",
        )
    }

    /// Asks where to fetch a skill from.
    pub fn install() -> (r: Modal)
        ensures
            r.asks(
                asked(
                    " install a skill "@,
                    empty_input(),
                    KindView::Install,
                    "owner/repo[/path] · Git or archive URL · local path\nEnter install · Esc cancel"@,
                ),
            ),
    {
        Modal::prompt(
            " install a skill ".to_owned(),
            Input::empty(),
            InputKind::Install,
            "owner/repo[/path] · Git or archive URL · local path\nEnter install · Esc cancel",
        )
    }

    pub fn new_tag() -> (r: Modal)
        ensures
            r.asks(
                asked(
                    " create tag "@,
                    empty_input(),
                    KindView::TagName,
                    "name · Enter create · Esc cancel"@,
                ),
            ),
    {
        Modal::prompt(
            " create tag ".to_owned(),
            Input::empty(),
            InputKind::TagName,
            "name · Enter create · Esc cancel",
        )
    }

    pub fn tag_description(name: &str, current: Option<&str>) -> (r: Modal)
        ensures
            r.asks(
                asked(
                    " description of "@ + name@ + " "@,
                    input_with(text_or_none(current)),
                    KindView::TagDescription { name: name@ },
                    "one sentence · Enter save · empty clears · Esc cancel"@,
                ),
            ),
    {
        let text = match current {
            Some(text) => text,
            None => "",
        };
        Modal::prompt(
            cat3(" description of ", name, " "),
            Input::with_value(text),
            InputKind::TagDescription { name: name.to_owned() },
            "one sentence · Enter save · empty clears · Esc cancel",
        )
    }

    pub fn rename_tag(old_name: &str) -> (r: Modal)
        ensures
            r.asks(
                asked(
                    " rename tag "@ + old_name@ + " "@,
                    input_with(old_name@),
                    KindView::RenameTag { old: old_name@ },
                    "new name · Enter rename everywhere · Esc cancel"@,
                ),
            ),
    {
        Modal::prompt(
            cat3(" rename tag ", old_name, " "),
            Input::with_value(old_name),
            InputKind::RenameTag { old: old_name.to_owned() },
            "new name · Enter rename everywhere · Esc cancel",
        )
    }

    pub fn rename_source(alias: &str, current_name: &str) -> (r: Modal)
        ensures
            r.asks(
                asked(
                    " source name "@,
                    input_with(current_name@),
                    KindView::RenameRepository { alias: alias@ },
                    "display name · Enter save · Esc cancel"@,
                ),
            ),
    {
        Modal::prompt(
            " source name ".to_owned(),
            Input::with_value(current_name),
            InputKind::RenameRepository { alias: alias.to_owned() },
            "display name · Enter save · Esc cancel",
        )
    }

    /// Asks for the new name of a skill. The field starts with the old one.
    pub fn rename(skill: &str) -> (r: Modal)
        ensures
            r.asks(
                asked(
                    " rename "@ + skill@ + " "@,
                    input_with(after_last(skill@, '/')),
                    KindView::Rename { skill: skill@ },
                    "new name · Enter shows what moves · Esc cancel"@,
                ),
            ),
    {
        Modal::prompt(
            cat3(" rename ", skill, " "),
            Input::with_value(tail_after(skill, '/').as_str()),
            InputKind::Rename { skill: skill.to_owned() },
            "new name · Enter shows what moves · Esc cancel",
        )
    }

    /// Points a skill at another source. The field starts empty: a source is replaced, not
    /// edited. `now` says what it is.
    pub fn set_source(skill: &str, now: Option<&str>) -> (r: Modal)
        ensures
            r.asks(
                asked(
                    " source of "@ + skill@ + " "@,
                    empty_input(),
                    KindView::SetSource { skill: skill@ },
                    "now "@ + (match now {
                        Some(text) => text@,
                        None => "none"@,
                    }) + " · owner/repo[/path], Git or archive URL"@,
                ),
            ),
    {
        let text = match now {
            Some(text) => text,
            None => "none",
        };
        Modal::prompt(
            cat3(" source of ", skill, " "),
            Input::empty(),
            InputKind::SetSource { skill: skill.to_owned() },
            cat3("now ", text, " · owner/repo[/path], Git or archive URL").as_str(),
        )
    }
}

// ---- renaming a skill --------------------------------------------------------

/// The key that a skill gets with a new name: one of a repository stays in it.
pub open spec fn renamed(skill: Seq<char>, name: Seq<char>) -> Seq<char> {
    if has_prefix(skill, "repos/"@) {
        before_last(skill, '/') + "/"@ + name
    } else {
        name
    }
}

pub fn renamed_key(skill: &str, name: &str) -> (r: String)
    ensures
        r@ == renamed(skill@, name@),
{
    if starts_with(skill, "repos/") {
        cat3(head_before_last(skill, '/').as_str(), "/", name)
    } else {
        name.to_owned()
    }
}

/// What an agent has under a name, from the `at`th entry on.
pub open spec fn entry_from(entries: Seq<AgentEntry>, name: Seq<char>, at: int) -> Option<int>
    decreases entries.len() - at,
{
    if at < 0 || at >= entries.len() {
        None
    } else if entries[at].name@ == name {
        Some(at)
    } else {
        entry_from(entries, name, at + 1)
    }
}

/// An agent has a link to a skill in a directory of its own.
pub open spec fn links_to(agent: AgentRecord, skill: Seq<char>) -> bool {
    agent.mode == AgentDirMode::Real && match entry_from(agent.entries@, skill, 0) {
        Some(i) => agent.entries@[i].state is Deployed,
        None => false,
    }
}

fn has_link(agent: &AgentRecord, skill: &str) -> (r: bool)
    ensures
        r == links_to(*agent, skill@),
{
    if agent.mode != AgentDirMode::Real {
        return false;
    }
    let mut i: usize = 0;
    while i < agent.entries.len()
        invariant
            i <= agent.entries.len(),
            entry_from(agent.entries@, skill@, 0) == entry_from(
                agent.entries@,
                skill@,
                i as int,
            ),
            agent.mode == AgentDirMode::Real,
        decreases agent.entries.len() - i,
    {
        if same_text(agent.entries[i].name.as_str(), skill) {
            return matches!(agent.entries[i].state, EntryState::Deployed);
        }
        i = i + 1;
    }
    false
}

/// The links that move with a skill.
pub open spec fn moved_links(agents: Seq<AgentRecord>, from: Seq<char>, to: Seq<char>) -> Seq<
    Seq<char>,
>
    decreases agents.len(),
{
    if agents.len() == 0 {
        Seq::empty()
    } else {
        let before = moved_links(agents.drop_last(), from, to);
        let key = agents.last().key@;
        if links_to(agents.last(), from) {
            before.push("link       "@ + key + "/"@ + from + " → "@ + key + "/"@ + to)
        } else {
            before
        }
    }
}

/// The presets that follow a skill.
pub open spec fn moved_presets(presets: Seq<PresetRecord>, from: Seq<char>, to: Seq<char>) -> Seq<
    Seq<char>,
>
    decreases presets.len(),
{
    if presets.len() == 0 {
        Seq::empty()
    } else {
        let before = moved_presets(presets.drop_last(), from, to);
        if texts(presets.last().members@).contains(from) {
            before.push("preset     "@ + presets.last().name@ + ": "@ + from + " → "@ + to)
        } else {
            before
        }
    }
}

pub open spec fn has_metadata(snap: Snapshot, skill: Seq<char>) -> bool {
    match snap.skill_at(skill) {
        Some(i) => snap.skills@[i].has_meta,
        None => false,
    }
}

/// What a rename moves.
pub open spec fn rename_lines(snap: Snapshot, from: Seq<char>, to: Seq<char>) -> Seq<Seq<char>> {
    let head = seq![
        "Rename \""@ + from + "\" to \""@ + to + "\"?"@,
        "directory  "@ + from + "/ → "@ + to + "/"@,
    ];
    (if has_metadata(snap, from) {
        head.push("metadata   "@ + from + ".toml → "@ + to + ".toml"@)
    } else {
        head
    }) + moved_links(snap.agents@, from, to) + moved_presets(snap.presets@, from, to)
}

fn push_links(lines: &mut Vec<String>, agents: &Vec<AgentRecord>, from: &str, to: &str)
    ensures
        texts(final(lines)@) == texts(old(lines)@) + moved_links(agents@, from@, to@),
{
    let ghost before = texts(lines@);
    let mut i: usize = 0;
    assert(agents@.take(0) =~= Seq::empty());
    assert(texts(lines@) =~= before + Seq::empty());
    while i < agents.len()
        invariant
            i <= agents.len(),
            texts(lines@) == before + moved_links(agents@.take(i as int), from@, to@),
        decreases agents.len() - i,
    {
        assert(agents@.take(i + 1).drop_last() =~= agents@.take(i as int));
        if has_link(&agents[i], from) {
            let key = agents[i].key.as_str();
            let head = cat5("link       ", key, "/", from, " → ");
            let text = cat4(head.as_str(), key, "/", to);
            assert(texts(lines@.push(text)) =~= texts(lines@).push(text@));
            assert(texts(lines@).push(text@) =~= before + moved_links(
                agents@.take(i as int),
                from@,
                to@,
            ).push(text@));
            lines.push(text);
        }
        i = i + 1;
    }
    assert(agents@.take(i as int) =~= agents@);
}

fn push_presets(lines: &mut Vec<String>, presets: &Vec<PresetRecord>, from: &str, to: &str)
    ensures
        texts(final(lines)@) == texts(old(lines)@) + moved_presets(presets@, from@, to@),
{
    let ghost before = texts(lines@);
    let mut i: usize = 0;
    assert(presets@.take(0) =~= Seq::empty());
    assert(texts(lines@) =~= before + Seq::empty());
    while i < presets.len()
        invariant
            i <= presets.len(),
            texts(lines@) == before + moved_presets(presets@.take(i as int), from@, to@),
        decreases presets.len() - i,
    {
        assert(presets@.take(i + 1).drop_last() =~= presets@.take(i as int));
        if list_holds(&presets[i].members, from) {
            let text = cat6("preset     ", presets[i].name.as_str(), ": ", from, " → ", to);
            assert(texts(lines@.push(text)) =~= texts(lines@).push(text@));
            assert(texts(lines@).push(text@) =~= before + moved_presets(
                presets@.take(i as int),
                from@,
                to@,
            ).push(text@));
            lines.push(text);
        }
        i = i + 1;
    }
    assert(presets@.take(i as int) =~= presets@);
}

/// The question before a skill is renamed.
pub open spec fn asks_rename(
    question: ConfirmWriteView,
    snap: Snapshot,
    from: Seq<char>,
    to: Seq<char>,
) -> bool {
    &&& question.title == " rename "@ + from + " "@
    &&& question.lines == rename_lines(snap, from, to)
    &&& (question.write matches Some(Write::RenameSkill { from: f, to: t }) && f@ == from && t@
        == to)
    &&& question.background is None
    &&& question.scope == MutationScope::Library
    &&& question.step is None
    &&& question.on_cancel
}

/// What a rename moves, so that it is seen before it is confirmed.
pub fn confirm_rename(old_key: &str, new_key: &str, snap: &Snapshot) -> (r: ConfirmWrite)
    ensures
        asks_rename(r@, *snap, old_key@, new_key@),
{
    let mut lines: Vec<String> = Vec::new();
    let question = cat5("Rename \"", old_key, "\" to \"", new_key, "\"?");
    let directory = cat5("directory  ", old_key, "/ → ", new_key, "/");
    lines.push(question);
    lines.push(directory);
    assert(texts(lines@) =~= seq![question@, directory@]);
    let has_meta = match snap.find(old_key) {
        Some(i) => snap.skills[i].has_meta,
        None => false,
    };
    if has_meta {
        let text = cat5("metadata   ", old_key, ".toml → ", new_key, ".toml");
        assert(texts(lines@.push(text)) =~= texts(lines@).push(text@));
        lines.push(text);
    }
    push_links(&mut lines, &snap.agents, old_key, new_key);
    push_presets(&mut lines, &snap.presets, old_key, new_key);
    ConfirmWrite::new(
        cat3(" rename ", old_key, " "),
        lines,
        Write::RenameSkill { from: old_key.to_owned(), to: new_key.to_owned() },
    )
}

// ---- submitting --------------------------------------------------------------

/// What is done with a text.
pub open spec fn submits(
    kind: KindView,
    value: Seq<char>,
    checks: PromptChecks,
    snap: Snapshot,
    actions: Seq<Action>,
) -> bool {
    let text = trimmed(value);
    match kind {
        KindView::RenameRepository { alias } => match checks.name_error {
            Some(error) => complains(actions, error@),
            None => actions.len() == 1 && (actions[0] matches Action::Write(
                Write::RenameRepository { alias: a, name },
            ) && a@ == alias && name@ == value),
        },
        KindView::Rename { skill } => {
            let new_key = renamed(skill, text);
            if text.len() == 0 {
                actions.len() == 0
            } else if !checks.key_ok {
                complains(actions, "invalid local name: "@ + quoted(text))
            } else if new_key == skill {
                actions.len() == 0
            } else if !checks.id_ok {
                complains(actions, "invalid skill name: "@ + quoted(new_key))
            } else {
                actions.len() == 1 && (actions[0] matches Action::OpenModal(modal) && *modal matches Modal::ConfirmWrite(
                    question,
                ) && asks_rename(question@, snap, skill, new_key))
            }
        },
        KindView::SetSource { skill } => if text.len() == 0 {
            actions.len() == 0
        } else {
            match checks.reference {
                Ok(_) => actions.len() == 1 && (actions[0] matches Action::WriteMeta(
                    Write::SetSource { skill: s, reference },
                ) && s@ == skill && reference@ == text),
                Err(error) => complains(actions, error@),
            }
        },
        KindView::PresetName => if text.len() == 0 {
            actions.len() == 0
        } else {
            &&& actions.len() == 2
            &&& (actions[0] matches Action::WriteMeta(Write::CreatePreset { name }) && name@
                == text)
            &&& (actions[1] matches Action::SelectPreset(name) && name@ == text)
        },
        KindView::PresetDescription { name } => actions.len() == 1 && (actions[0] matches Action::WriteMeta(
            Write::DescribePreset { name: n, description },
        ) && n@ == name && description@ == value),
        KindView::RenamePreset { old: old_name } => if text.len() == 0 || text == old_name {
            actions.len() == 0
        } else if !checks.key_ok {
            complains(actions, "invalid preset name: "@ + quoted(text))
        } else {
            &&& actions.len() == 2
            &&& (actions[0] matches Action::WriteMeta(Write::RenamePreset { old: o, new: n }) && o@
                == old_name && n@ == text)
            &&& (actions[1] matches Action::SelectPreset(name) && name@ == text)
        },
        KindView::Install => if text.len() == 0 {
            actions.len() == 0
        } else {
            match checks.reference {
                Ok(RefKind::Local) => actions.len() == 1 && (actions[0] matches Action::Spawn(
                    Task::Install { reference, subpath },
                ) && reference@ == text && subpath is None),
                Ok(RefKind::Remote) => actions.len() == 1 && (actions[0] matches Action::Spawn(
                    Task::DiscoverRepository(reference),
                ) && reference@ == text),
                Err(error) => complains(actions, error@),
            }
        },
        KindView::TagName => if text.len() == 0 {
            actions.len() == 0
        } else {
            &&& actions.len() == 2
            &&& (actions[0] matches Action::WriteMeta(Write::CreateTag { name }) && name@ == text)
            &&& (actions[1] matches Action::SelectTag(name) && name@ == text)
        },
        KindView::TagDescription { name } => actions.len() == 1 && (actions[0] matches Action::WriteMeta(
            Write::DescribeTag { name: n, description },
        ) && n@ == name && description@ == text),
        KindView::RenameTag { old: old_name } => if text.len() == 0 || text == old_name {
            actions.len() == 0
        } else {
            actions.len() == 1 && (actions[0] matches Action::WriteMeta(
                Write::RenameTag { old: o, new: n },
            ) && o@ == old_name && n@ == text)
        },
    }
}

fn submit_rename(skill: &str, text: String, checks: &PromptChecks, snap: &Snapshot) -> (r: Vec<Action>)
    requires
        trimmed(text@) == text@,
    ensures
        submits(KindView::Rename { skill: skill@ }, text@, *checks, *snap, r@),
{
    if chars_of(text.as_str()).len() == 0 {
        return nothing();
    }
    if !checks.key_ok {
        return complain(cat2("invalid local name: ", quote(text.as_str()).as_str()).as_str());
    }
    let new_key = renamed_key(skill, text.as_str());
    if same_text(new_key.as_str(), skill) {
        return nothing();
    }
    // Refused before the question, which would otherwise list moves that are not made.
    if !checks.id_ok {
        return complain(cat2("invalid skill name: ", quote(new_key.as_str()).as_str()).as_str());
    }
    let question = confirm_rename(skill, new_key.as_str(), snap);
    only(Action::OpenModal(Box::new(Modal::ConfirmWrite(Box::new(question)))))
}

proof fn lemma_trimmed_twice(s: Seq<char>)
    ensures
        trimmed(trimmed(s)) == trimmed(s),
{
    crate::text::lemma_trimmed_is_settled(s);
}

/// What is done with a text that was entered.
pub fn submit(kind: &InputKind, value: &str, checks: &PromptChecks, snap: &Snapshot) -> (r: Vec<
    Action,
>)
    ensures
        submits(kind@, value@, *checks, *snap, r@),
{
    let text = trim(value);
    let blank = chars_of(text.as_str()).len() == 0;
    match kind {
        InputKind::RenameRepository { alias } => match &checks.name_error {
            Some(error) => complain(error.as_str()),
            None => only(
                Action::Write(
                    Write::RenameRepository { alias: alias.clone(), name: value.to_owned() },
                ),
            ),
        },
        InputKind::Rename { skill } => {
            proof {
                lemma_trimmed_twice(value@);
            }
            submit_rename(skill.as_str(), text, checks, snap)
        },
        InputKind::SetSource { skill } => {
            if blank {
                return nothing();
            }
            match &checks.reference {
                Ok(_) => only(
                    Action::WriteMeta(
                        Write::SetSource { skill: skill.clone(), reference: text },
                    ),
                ),
                Err(error) => complain(error.as_str()),
            }
        },
        InputKind::PresetName => {
            if blank {
                return nothing();
            }
            let name = text.clone();
            both(Action::WriteMeta(Write::CreatePreset { name }), Action::SelectPreset(text))
        },
        InputKind::PresetDescription { name } => only(
            Action::WriteMeta(
                Write::DescribePreset { name: name.clone(), description: value.to_owned() },
            ),
        ),
        InputKind::RenamePreset { old: old_name } => {
            if blank || same_text(text.as_str(), old_name.as_str()) {
                return nothing();
            }
            // The name of a preset is the name of its file.
            if !checks.key_ok {
                return complain(
                    cat2("invalid preset name: ", quote(text.as_str()).as_str()).as_str(),
                );
            }
            let name = text.clone();
            both(
                Action::WriteMeta(Write::RenamePreset { old: old_name.clone(), new: name }),
                Action::SelectPreset(text),
            )
        },
        InputKind::Install => {
            if blank {
                return nothing();
            }
            match &checks.reference {
                Ok(RefKind::Local) => only(
                    Action::Spawn(Task::Install { reference: text, subpath: None }),
                ),
                Ok(RefKind::Remote) => only(Action::Spawn(Task::DiscoverRepository(text))),
                Err(error) => complain(error.as_str()),
            }
        },
        InputKind::TagName => {
            if blank {
                return nothing();
            }
            let name = text.clone();
            both(Action::WriteMeta(Write::CreateTag { name }), Action::SelectTag(text))
        },
        InputKind::TagDescription { name } => only(
            Action::WriteMeta(Write::DescribeTag { name: name.clone(), description: text }),
        ),
        InputKind::RenameTag { old: old_name } => {
            if blank || same_text(text.as_str(), old_name.as_str()) {
                return nothing();
            }
            only(Action::WriteMeta(Write::RenameTag { old: old_name.clone(), new: text }))
        },
    }
}

// ---- the prompt --------------------------------------------------------------

impl PromptView {
    pub open spec fn valid(self) -> bool {
        self.input.valid()
    }

    pub open spec fn hint_list(self) -> Seq<Hint> {
        seq![
            (
                "Enter",
                if self.kind is Install {
                    "discover"
                } else {
                    "save"
                },
            ),
            ("Esc", "cancel"),
        ]
    }

    /// What a key makes of the prompt.
    pub open spec fn keyed(self, key: KeyEvent) -> PromptView {
        if key.code == KeyCode::Esc || key.code == KeyCode::Enter {
            self
        } else {
            PromptView { input: self.input.keyed(key), ..self }
        }
    }

    /// What a key asks of the application. A text that is submitted stays in its field until
    /// everything that it stands for has worked.
    pub open spec fn told(
        self,
        key: KeyEvent,
        checks: PromptChecks,
        snap: Snapshot,
        actions: Seq<Action>,
    ) -> bool {
        if key.code == KeyCode::Esc {
            actions == seq![Action::CloseModal]
        } else if key.code == KeyCode::Enter {
            actions.len() == 1 && (actions[0] matches Action::SubmitInput(inner) && submits(
                self.kind,
                self.input.text,
                checks,
                snap,
                inner@,
            ))
        } else {
            actions.len() == 0
        }
    }

    pub open spec fn moused(self, event: MouseEvent) -> PromptView {
        if event.kind == MouseKind::Down && self.rect.has(event.column as int, event.row as int) {
            PromptView { input: self.input.clicked(event.column as int), ..self }
        } else {
            self
        }
    }

    pub open spec fn mouse_closes(self, event: MouseEvent) -> bool {
        event.kind == MouseKind::Down && !self.rect.has(event.column as int, event.row as int)
    }

    pub open spec fn rect_in(self, area: Rect) -> Rect {
        let wide = monus(middle_of(area, 72, 4).width as int, 4) as u16;
        let rows = wrapped_rows(contents(plain_views(lines_of(self.hint))), wide) as int;
        middle_of(area, 72, 3 + spec_min(rows, 6))
    }

    pub open spec fn field_in(inner: Rect) -> Rect {
        Rect::at(plus16(inner.x as int, 1), inner.y as int, monus(inner.width as int, 2), 1)
    }

    pub open spec fn placed(self, area: Rect) -> PromptView {
        let rect = self.rect_in(area);
        PromptView {
            rect,
            input: InputView { field: PromptView::field_in(rect.inside()), ..self.input },
            ..self
        }
    }

    pub open spec fn scene(self, area: Rect, theme: Theme) -> Seq<DrawView> {
        let rect = self.rect_in(area);
        let inner = rect.inside();
        seq![
            DrawView::Clear(rect),
            framed(rect, self.title),
            DrawView::Field {
                rect: PromptView::field_in(inner),
                value: self.input.text,
                cursor: self.input.cursor as usize,
                focused: true,
                placeholder: ""@,
            },
            flowing(
                Rect::at(
                    plus16(inner.x as int, 1),
                    plus16(inner.y as int, 1),
                    monus(inner.width as int, 2),
                    monus(inner.height as int, 1),
                ),
                plain_views(lines_of(self.hint)),
                theme.dim(),
                Wrap::Words,
                0,
            ),
        ]
    }
}

impl Prompt {
    pub fn hints(&self) -> (r: Vec<Hint>)
        ensures
            r@ == self@.hint_list(),
    {
        let enter = if matches!(self.kind, InputKind::Install) {
            "discover"
        } else {
            "save"
        };
        vec![("Enter", enter), ("Esc", "cancel")]
    }

    pub fn paste(&mut self, text: &str) -> (r: Vec<Action>)
        requires
            old(self)@.valid(),
        ensures
            final(self)@.valid(),
            is_multiline(text@) ==> final(self)@ == old(self)@ && complains(r@, paste_refused()),
            !is_multiline(text@) ==> final(self)@ == (PromptView {
                input: old(self)@.input.with_pasted(text@),
                ..old(self)@
            }) && r@.len() == 0,
    {
        match self.input.paste(text) {
            Ok(_) => nothing(),
            Err(why) => complain(why),
        }
    }

    pub fn key(&mut self, key: KeyEvent, checks: &PromptChecks, snap: &Snapshot) -> (r: Vec<Action>)
        requires
            old(self)@.valid(),
        ensures
            final(self)@ == old(self)@.keyed(key),
            final(self)@.valid(),
            old(self)@.told(key, *checks, *snap, r@),
    {
        if key.code == KeyCode::Esc {
            return only(Action::CloseModal);
        }
        if key.code == KeyCode::Enter {
            let value = self.input.value();
            return only(
                Action::SubmitInput(submit(&self.kind, value.as_str(), checks, snap)),
            );
        }
        self.input.handle_key(key);
        nothing()
    }

    pub fn mouse(&mut self, event: MouseEvent) -> (r: Vec<Action>)
        requires
            old(self)@.valid(),
        ensures
            final(self)@ == old(self)@.moused(event),
            final(self)@.valid(),
            crate::dialogs::message::answered(old(self)@.mouse_closes(event), r@),
    {
        if event.kind == MouseKind::Down {
            if !self.rect.contains(event.column, event.row) {
                return only(Action::CloseModal);
            }
            self.input.click(event.column);
        }
        nothing()
    }

    pub fn draw(&mut self, area: Rect, theme: &Theme) -> (r: Scene)
        requires
            area.in_range(),
            old(self)@.valid(),
        ensures
            final(self)@ == old(self)@.placed(area),
            final(self)@.valid(),
            r@ == old(self)@.scene(area, *theme),
    {
        let wide: u16 = centered(area, 72, 4).width.saturating_sub(4);
        let lines = plain_lines(&split_lines(self.hint.as_str()));
        let rows = count_wrapped(&lines, wide);
        let tall: u16 = if rows < 6 {
            rows as u16
        } else {
            6
        };
        let rect = centered(area, 72, 3 + tall);
        let inner = rect.inner();
        let field = Rect::new(
            inner.x.saturating_add(1),
            inner.y,
            inner.width.saturating_sub(2),
            1,
        );
        let mut scene = Scene::new();
        scene.clear(rect);
        scene.frame(rect, self.title.as_str());
        scene.push(
            Draw::Field {
                rect: field,
                value: self.input.value(),
                cursor: self.input.cursor,
                focused: true,
                placeholder: "".to_owned(),
            },
        );
        scene.flow(
            Rect::new(
                inner.x.saturating_add(1),
                inner.y.saturating_add(1),
                inner.width.saturating_sub(2),
                inner.height.saturating_sub(1),
            ),
            lines,
            theme.dim(),
            Wrap::Words,
            0,
        );
        self.rect = rect;
        self.input.place(field);
        scene
    }
}

// ---- laws --------------------------------------------------------------------

/// An empty name submits nothing, whatever is asked for.
pub proof fn lemma_blank_names_do_nothing(
    kind: KindView,
    value: Seq<char>,
    checks: PromptChecks,
    snap: Snapshot,
    actions: Seq<Action>,
)
    requires
        trimmed(value).len() == 0,
        submits(kind, value, checks, snap, actions),
        kind is PresetName || kind is TagName || kind is Install || kind is Rename
            || kind is RenamePreset || kind is RenameTag || kind is SetSource,
    ensures
        actions.len() == 0,
{
}

/// To keep the old name submits nothing.
pub proof fn lemma_same_name_does_nothing(
    name: Seq<char>,
    checks: PromptChecks,
    snap: Snapshot,
    actions: Seq<Action>,
)
    requires
        trimmed(name) == name,
        ({
            ||| submits(KindView::RenamePreset { old: name }, name, checks, snap, actions)
            ||| submits(KindView::RenameTag { old: name }, name, checks, snap, actions)
        }),
    ensures
        actions.len() == 0,
{
}

/// A skill of a repository stays in it when it is renamed.
pub proof fn lemma_renaming_stays_in_the_repository(skill: Seq<char>, name: Seq<char>)
    requires
        has_prefix(skill, "repos/"@),
    ensures
        renamed(skill, name) == before_last(skill, '/') + "/"@ + name,
{
}

/// What is submitted goes to what the dialog was opened for, with the text that was typed and
/// without the blanks around it: a rename takes the old name to it, a description and a source
/// belong to what they were asked for, and a new preset or tag gets it as its name and is then
/// selected.
pub proof fn lemma_a_text_goes_where_it_was_asked_for(
    prompt: PromptView,
    key: KeyEvent,
    checks: PromptChecks,
    snap: Snapshot,
    actions: Seq<Action>,
    asked_for: Seq<Action>,
)
    requires
        key.code == KeyCode::Enter,
        prompt.told(key, checks, snap, actions),
        actions[0] matches Action::SubmitInput(inner) && inner@ == asked_for,
        trimmed(prompt.input.text).len() > 0,
    ensures
        ({
            let text = trimmed(prompt.input.text);
            match prompt.kind {
                KindView::PresetName => {
                    &&& asked_for.len() == 2
                    &&& (asked_for[0] matches Action::WriteMeta(Write::CreatePreset { name })
                        && name@ == text)
                    &&& (asked_for[1] matches Action::SelectPreset(name) && name@ == text)
                },
                KindView::TagName => {
                    &&& asked_for.len() == 2
                    &&& (asked_for[0] matches Action::WriteMeta(Write::CreateTag { name }) && name@
                        == text)
                    &&& (asked_for[1] matches Action::SelectTag(name) && name@ == text)
                },
                KindView::RenamePreset { old: before } => before != text && checks.key_ok ==> {
                    &&& asked_for.len() == 2
                    &&& (asked_for[0] matches Action::WriteMeta(
                        Write::RenamePreset { old: from, new: to },
                    ) && from@ == before && to@ == text)
                    &&& (asked_for[1] matches Action::SelectPreset(name) && name@ == text)
                },
                KindView::RenameTag { old: before } => before != text ==> asked_for.len() == 1 && (
                asked_for[0] matches Action::WriteMeta(Write::RenameTag { old: from, new: to })
                    && from@ == before && to@ == text),
                KindView::SetSource { skill } => checks.reference is Ok ==> asked_for.len() == 1
                    && (asked_for[0] matches Action::WriteMeta(
                    Write::SetSource { skill: of, reference },
                ) && of@ == skill && reference@ == text),
                KindView::TagDescription { name } => asked_for.len() == 1 && (
                asked_for[0] matches Action::WriteMeta(
                    Write::DescribeTag { name: of, description },
                ) && of@ == name && description@ == text),
                KindView::PresetDescription { name } => asked_for.len() == 1 && (
                asked_for[0] matches Action::WriteMeta(
                    Write::DescribePreset { name: of, description },
                ) && of@ == name && description@ == prompt.input.text),
                KindView::RenameRepository { alias } => checks.name_error is None
                    ==> asked_for.len() == 1 && (asked_for[0] matches Action::Write(
                    Write::RenameRepository { alias: of, name },
                ) && of@ == alias && name@ == prompt.input.text),
                KindView::Install => {
                    &&& checks.reference matches Ok(kind) ==> asked_for.len() == 1
                    &&& checks.reference == Ok::<RefKind, String>(RefKind::Local) ==> (
                    asked_for[0] matches Action::Spawn(Task::Install { reference, subpath })
                        && reference@ == text && subpath is None)
                    &&& checks.reference == Ok::<RefKind, String>(RefKind::Remote) ==> (
                    asked_for[0] matches Action::Spawn(Task::DiscoverRepository(reference))
                        && reference@ == text)
                },
                KindView::Rename { skill } => checks.key_ok && checks.id_ok && renamed(skill, text)
                    != skill ==> asked_for.len() == 1 && (asked_for[0] matches Action::OpenModal(
                    modal,
                ) && *modal matches Modal::ConfirmWrite(question) && (question@.write matches Some(
                    Write::RenameSkill { from, to },
                ) && from@ == skill && to@ == renamed(skill, text))),
            }
        }),
{
}

/// A text that the library does not take is refused with the reason, and nothing is written.
pub proof fn lemma_a_bad_text_is_refused(
    kind: KindView,
    value: Seq<char>,
    checks: PromptChecks,
    snap: Snapshot,
    actions: Seq<Action>,
)
    requires
        submits(kind, value, checks, snap, actions),
        trimmed(value).len() > 0,
    ensures
        (kind is SetSource || kind is Install) && checks.reference is Err ==> complains(
            actions,
            checks.reference->Err_0@,
        ),
        kind is RenameRepository && checks.name_error is Some ==> complains(
            actions,
            checks.name_error->0@,
        ),
        kind is Rename && !checks.key_ok ==> actions.len() == 1 && actions[0] is Error,
        kind is Rename && checks.key_ok && !checks.id_ok && renamed(
            kind->Rename_skill,
            trimmed(value),
        ) != kind->Rename_skill ==> actions.len() == 1 && actions[0] is Error,
        kind is RenamePreset && !checks.key_ok && kind->RenamePreset_old != trimmed(value) ==> actions.len() == 1
            && actions[0] is Error,
{
}

/// Esc closes the dialog and submits nothing; any other key but Enter only edits the text.
pub proof fn lemma_only_enter_submits(
    prompt: PromptView,
    key: KeyEvent,
    checks: PromptChecks,
    snap: Snapshot,
    actions: Seq<Action>,
)
    requires
        prompt.told(key, checks, snap, actions),
        key.code != KeyCode::Enter,
    ensures
        key.code == KeyCode::Esc ==> actions == seq![Action::CloseModal] && prompt.keyed(key)
            == prompt,
        key.code != KeyCode::Esc ==> actions.len() == 0 && prompt.keyed(key).input
            == prompt.input.keyed(key),
        prompt.keyed(key).kind == prompt.kind,
{
}

proof fn lemma_first_entry(entries: Seq<AgentEntry>, name: Seq<char>, at: int)
    requires
        0 <= at <= entries.len(),
    ensures
        entry_from(entries, name, at) matches Some(i) ==> at <= i < entries.len()
            && entries[i].name@ == name,
        entry_from(entries, name, at) is None ==> forall|i: int|
            at <= i < entries.len() ==> (#[trigger] entries[i]).name@ != name,
    decreases entries.len() - at,
{
    if at < entries.len() && entries[at].name@ != name {
        lemma_first_entry(entries, name, at + 1);
    }
}

/// Only an agent with a directory of its own, in which the skill is deployed, has a link that
/// moves with it.
pub proof fn lemma_which_links_move(agent: AgentRecord, skill: Seq<char>)
    ensures
        links_to(agent, skill) ==> agent.mode == AgentDirMode::Real && exists|i: int|
            0 <= i < agent.entries@.len() && (#[trigger] agent.entries@[i]).name@ == skill
                && agent.entries@[i].state is Deployed,
        agent.mode != AgentDirMode::Real ==> !links_to(agent, skill),
        (forall|i: int|
            0 <= i < agent.entries@.len() ==> (#[trigger] agent.entries@[i]).name@ != skill)
            ==> !links_to(agent, skill),
        agent.mode == AgentDirMode::Real && agent.entries@.len() == 1 && agent.entries@[0].name@
            == skill && agent.entries@[0].state is Deployed ==> links_to(agent, skill),
{
    lemma_first_entry(agent.entries@, skill, 0);
    reveal_with_fuel(entry_from, 2);
}

/// The question before a rename tells of every link and every preset that moves with the
/// skill, in their order, and of no other.
pub proof fn lemma_a_rename_tells_what_moves(
    agents: Seq<AgentRecord>,
    presets: Seq<PresetRecord>,
    from: Seq<char>,
    to: Seq<char>,
)
    ensures
        moved_links(agents, from, to) == agents.filter(
            |a: AgentRecord| links_to(a, from),
        ).map_values(
            |a: AgentRecord|
                "link       "@ + a.key@ + "/"@ + from + " → "@ + a.key@ + "/"@ + to,
        ),
        moved_presets(presets, from, to) == presets.filter(
            |p: PresetRecord| texts(p.members@).contains(from),
        ).map_values(
            |p: PresetRecord| "preset     "@ + p.name@ + ": "@ + from + " → "@ + to,
        ),
    decreases agents.len() + presets.len(),
{
    reveal(Seq::filter);
    let linked = |a: AgentRecord| links_to(a, from);
    let tell_link = |a: AgentRecord|
        "link       "@ + a.key@ + "/"@ + from + " → "@ + a.key@ + "/"@ + to;
    let holds = |p: PresetRecord| texts(p.members@).contains(from);
    let tell_preset = |p: PresetRecord| "preset     "@ + p.name@ + ": "@ + from + " → "@ + to;
    if agents.len() > 0 {
        lemma_a_rename_tells_what_moves(agents.drop_last(), presets, from, to);
        let before = agents.drop_last().filter(linked);
        if linked(agents.last()) {
            assert(before.push(agents.last()).map_values(tell_link) =~= before.map_values(
                tell_link,
            ).push(tell_link(agents.last())));
        }
    } else {
        assert(moved_links(agents, from, to) =~= agents.filter(linked).map_values(tell_link));
        if presets.len() > 0 {
            lemma_a_rename_tells_what_moves(agents, presets.drop_last(), from, to);
            let before = presets.drop_last().filter(holds);
            if holds(presets.last()) {
                assert(before.push(presets.last()).map_values(tell_preset) =~= before.map_values(
                    tell_preset,
                ).push(tell_preset(presets.last())));
            }
        } else {
            assert(moved_presets(presets, from, to) =~= presets.filter(holds).map_values(
                tell_preset,
            ));
        }
    }
}

/// A rename says first what it does, then what moves: the directory, the metadata where there
/// is any, then links and presets.
pub proof fn lemma_a_rename_says_what_it_does(snap: Snapshot, from: Seq<char>, to: Seq<char>)
    ensures
        ({
            let lines = rename_lines(snap, from, to);
            let more = moved_links(snap.agents@, from, to) + moved_presets(snap.presets@, from, to);
            &&& lines[0] == "Rename \""@ + from + "\" to \""@ + to + "\"?"@
            &&& lines[1] == "directory  "@ + from + "/ → "@ + to + "/"@
            &&& has_metadata(snap, from) ==> lines[2] == "metadata   "@ + from + ".toml → "@ + to
                + ".toml"@ && lines.len() == 3 + more.len()
            &&& !has_metadata(snap, from) ==> lines.len() == 2 + more.len()
        }),
{
}

/// What is asked before a skill is renamed renames that skill, begins on the way back, and
/// moves no history.
pub proof fn lemma_what_a_rename_asks(
    question: ConfirmWriteView,
    snap: Snapshot,
    from: Seq<char>,
    to: Seq<char>,
)
    requires
        asks_rename(question, snap, from, to),
    ensures
        question.title == " rename "@ + from + " "@,
        question.lines == rename_lines(snap, from, to),
        question.write is Some,
        question.write->0 is RenameSkill,
        question.write->0->RenameSkill_from@ == from,
        question.write->0->RenameSkill_to@ == to,
        question.scope == MutationScope::Library,
        question.on_cancel,
        question.step is None,
        question.background is None,
{
}

/// A name that cannot be one is refused with what was typed.
pub proof fn lemma_a_bad_name_is_named(
    kind: KindView,
    value: Seq<char>,
    checks: PromptChecks,
    snap: Snapshot,
    actions: Seq<Action>,
)
    requires
        submits(kind, value, checks, snap, actions),
        trimmed(value).len() > 0,
    ensures
        kind is Rename && !checks.key_ok ==> {
            &&& actions.len() == 1
            &&& actions[0] is Error
            &&& actions[0]->Error_0@ == "invalid local name: "@ + quoted(trimmed(value))
        },
        kind is Rename && checks.key_ok && !checks.id_ok && renamed(
            kind->Rename_skill,
            trimmed(value),
        ) != kind->Rename_skill ==> {
            &&& actions.len() == 1
            &&& actions[0] is Error
            &&& actions[0]->Error_0@ == "invalid skill name: "@ + quoted(
                renamed(kind->Rename_skill, trimmed(value)),
            )
        },
        kind is RenamePreset && !checks.key_ok && trimmed(value) != kind->RenamePreset_old ==> {
            &&& actions.len() == 1
            &&& actions[0] is Error
            &&& actions[0]->Error_0@ == "invalid preset name: "@ + quoted(trimmed(value))
        },
{
}

/// A press in the dialog of a text moves its cursor, and one beside it leaves the dialog;
/// neither changes the text.
pub proof fn lemma_mouse_of_a_text_field(prompt: PromptView, event: MouseEvent)
    ensures
        prompt.moused(event).input.text == prompt.input.text,
        prompt.moused(event).kind == prompt.kind,
        event.kind == MouseKind::Down && prompt.rect.has(event.column as int, event.row as int)
            ==> prompt.moused(event).input == prompt.input.clicked(event.column as int)
            && !prompt.mouse_closes(event),
        event.kind == MouseKind::Down && !prompt.rect.has(event.column as int, event.row as int)
            ==> prompt.mouse_closes(event),
        event.kind != MouseKind::Down ==> prompt.moused(event) == prompt && !prompt.mouse_closes(
            event,
        ),
{
}

/// The dialog of a text shows its title, the text with its cursor, and how it is left;
/// drawing keeps the text.
pub proof fn lemma_a_text_is_drawn(prompt: PromptView, area: Rect, theme: Theme)
    ensures
        ({
            let after = prompt.placed(area);
            let scene = prompt.scene(area, theme);
            &&& scene.len() == 4
            &&& scene[1] == framed(after.rect, prompt.title)
            &&& scene[2] is Field
            &&& scene[2]->Field_rect == after.input.field
            &&& scene[2]->Field_value == prompt.input.text
            &&& scene[2]->Field_cursor == prompt.input.cursor as usize
            &&& scene[2]->Field_focused
            &&& after.input.text == prompt.input.text
            &&& after.input.cursor == prompt.input.cursor
            &&& after.kind == prompt.kind
        }),
{
}

} // verus!
