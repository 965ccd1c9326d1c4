//! Overlays: help, messages, confirmations, text prompts and pickers.

use crate::app::effects::all_sound;
use crate::app::{nothing, only, Action, Hint, Step};
use crate::batch::{are_tag_rows, Batch, BatchView, Kind, Look};
use crate::deploy_picker::{DeployPicker, DeployPickerView};
use crate::dialogs::browser::{Browser, BrowserView};
use crate::dialogs::confirm::{
    hints_for, question_hints, Confirm, ConfirmView, ConfirmWrite, ConfirmWriteView,
};
use crate::dialogs::message::{answered, closes, scrolled, wheeled, Help, Message, MessageView};
use crate::dialogs::prompt::{Prompt, PromptChecks, PromptView};
use crate::dialogs::resolve::{Resolve, ResolveView};
use crate::geometry::{monus, spec_min, Rect};
use crate::keymap::{KeyCode, KeyEvent, MouseEvent, MouseKind};
use crate::measure::display_width;
use crate::model::{
    any_changes, has_change, summaries, Icons, MutationScope, PlannedLink, Prepared, Snapshot, Write,
};
use crate::repository_picker::{Checks, RepositoryPicker, RepositoryPickerView};
use crate::sync_picker::{SyncPicker, SyncPickerView};
use crate::text::{cat2, cat3, cat5, contains, has_part, texts};
use crate::theme::Theme;
use crate::ui::{framed, DrawView, Scene};
use crate::widgets::{centered, is_multiline, middle_of, paste_refused};
use crate::writes::{capitalize, capitalized};
use vstd::prelude::*;

verus! {

#[derive(Debug)]
pub enum Modal {
    /// Which of several skills of one name an agent gets; kept elsewhere, by its number.
    DeploymentChoices(u64),
    /// The repair of the library; kept elsewhere, by its number.
    HealthRepair(u64),
    Sync(Box<SyncPicker>),
    DeployTargets(Box<DeployPicker>),
    /// The skills of a preset, in the view that searches the library.
    PresetSkills(String),
    /// What can be done with skills that were just installed.
    InstallComplete { keys: Vec<String>, message: String },
    Batch(Box<Batch>),
    Repository(Box<RepositoryPicker>),
    Help(Help),
    Message(Box<Message>),
    Confirm(Box<Confirm>),
    ConfirmWrite(Box<ConfirmWrite>),
    Input(Box<Prompt>),
    Picker(Box<Browser>),
    Resolve(Box<Resolve>),
}

/// A dialog, as contracts speak of it.
pub ghost enum ModalView {
    DeploymentChoices(u64),
    HealthRepair(u64),
    Sync(SyncPickerView),
    DeployTargets(DeployPickerView),
    PresetSkills(Seq<char>),
    InstallComplete { keys: Seq<String>, message: Seq<char> },
    Batch(BatchView),
    Repository(RepositoryPickerView),
    Help(Help),
    Message(MessageView),
    Confirm(ConfirmView),
    ConfirmWrite(ConfirmWriteView),
    Input(PromptView),
    Picker(BrowserView),
    Resolve(ResolveView),
}

impl View for Modal {
    type V = ModalView;

    open spec fn view(&self) -> ModalView {
        match *self {
            Modal::DeploymentChoices(n) => ModalView::DeploymentChoices(n),
            Modal::HealthRepair(n) => ModalView::HealthRepair(n),
            Modal::Sync(p) => ModalView::Sync(p@),
            Modal::DeployTargets(p) => ModalView::DeployTargets(p@),
            Modal::PresetSkills(name) => ModalView::PresetSkills(name@),
            Modal::InstallComplete { keys, message } => ModalView::InstallComplete {
                keys: keys@,
                message: message@,
            },
            Modal::Batch(p) => ModalView::Batch(p@),
            Modal::Repository(p) => ModalView::Repository(p@),
            Modal::Help(h) => ModalView::Help(h),
            Modal::Message(m) => ModalView::Message(m@),
            Modal::Confirm(c) => ModalView::Confirm(c@),
            Modal::ConfirmWrite(c) => ModalView::ConfirmWrite(c@),
            Modal::Input(p) => ModalView::Input(p@),
            Modal::Picker(b) => ModalView::Picker(b@),
            Modal::Resolve(d) => ModalView::Resolve(d@),
        }
    }
}

/// What only the library knows of the text in a field, and what the settings say.
#[derive(Debug)]
pub struct Facts {
    pub prompt: PromptChecks,
    pub repository: Checks,
    /// The right end of a pill.
    pub right_cap: String,
    /// How many rows the wheel moves.
    pub wheel: u16,
}

/// What is drawn beside the state of a dialog.
#[derive(Debug)]
pub struct Surroundings {
    pub root: String,
    pub tags_enabled: bool,
    /// What a deployment would change, or why it cannot be planned.
    pub plan: Result<Vec<PlannedLink>, String>,
    /// The name of the skill that a batch of one is about.
    pub name: String,
    /// The name under which the selected skill of a repository is installed.
    pub local_name: String,
    /// The title of the skills of a preset.
    pub picker_title: String,
    pub look: Look,
}

impl Modal {
    /// The dialog is kept by whoever owns the pages.
    pub open spec fn is_hosted(self) -> bool {
        self is DeploymentChoices || self is HealthRepair || self is PresetSkills
            || self is InstallComplete
    }

    pub open spec fn valid(self) -> bool
        decreases self,
    {
        match self {
            Modal::Sync(p) => p@.valid(),
            Modal::DeployTargets(p) => p@.valid(),
            Modal::Batch(p) => p@.valid(),
            Modal::Repository(p) => p@.valid(),
            Modal::Input(p) => p@.valid(),
            Modal::Picker(p) => p@.valid(),
            Modal::Message(m) => match m.return_to {
                Some(modal) => modal.valid(),
                None => true,
            },
            _ => true,
        }
    }
}

// ---- constructors ------------------------------------------------------------

/// The skills that a confirmed write is about, where it runs beside the interface.
pub open spec fn skills_of(background: Option<Vec<String>>) -> Option<Seq<Seq<char>>> {
    match background {
        Some(keys) => Some(texts(keys@)),
        None => None,
    }
}

impl Modal {
    /// The dialog asks this before it writes, with the focus on its second button.
    pub open spec fn questions(
        self,
        title: Seq<char>,
        lines: Seq<Seq<char>>,
        background: Option<Seq<Seq<char>>>,
    ) -> bool {
        &&& self matches Modal::ConfirmWrite(q)
        &&& q@.title == title
        &&& q@.lines == lines
        &&& skills_of(q@.background) == background
        &&& q@.scope == MutationScope::Library
        &&& q@.step is None
        &&& q@.on_cancel
        &&& q@.apply == Rect::zero()
        &&& q@.cancel == Rect::zero()
        &&& q@.rect == Rect::zero()
    }

    /// What the dialog writes once it is confirmed.
    pub open spec fn write(self) -> Option<Write> {
        match self {
            Modal::ConfirmWrite(q) => q@.write,
            _ => None,
        }
    }

    /// The dialog says this.
    pub open spec fn says(self, title: Seq<char>, lines: Seq<Seq<char>>) -> bool {
        self matches Modal::Message(m) && m@ == (MessageView {
            title,
            lines,
            scroll: 0,
            return_to: None,
        })
    }

    pub fn batch_tags(keys: Vec<String>, snap: &Snapshot) -> (r: Modal)
        ensures
            r matches Modal::Batch(b) && crate::batch::are_tag_rows(*snap, keys@, b@.rows) && b@
                == crate::batch::fresh(Kind::Tags, keys@, b@.rows).refiltered(),
            r.valid(),
    {
        Modal::Batch(Box::new(Batch::tags(keys, snap)))
    }

    /// The directories of the project are to be looked up next.
    pub fn batch_deploy(keys: Vec<String>, project: &str) -> (r: Modal)
        ensures
            r matches Modal::DeployTargets(p) && p@ == crate::deploy_picker::unloaded(
                keys@,
                project@,
            ),
            r.valid(),
    {
        Modal::DeployTargets(Box::new(DeployPicker::new(keys, project)))
    }

    pub fn batch_deploy_agent(keys: Vec<String>, agent: &str, snap: &Snapshot) -> (r: Modal)
        ensures
            r matches Modal::Batch(b) && crate::batch::is_agent_batch(b@, *snap, keys@, agent@),
            r.valid(),
    {
        Modal::Batch(Box::new(Batch::deploy_agent(keys, agent, snap)))
    }

    pub fn batch_presets(keys: Vec<String>, snap: &Snapshot) -> (r: Modal)
        ensures
            r matches Modal::Batch(b) && b@ == crate::batch::fresh(Kind::Presets, keys@, b@.rows)
                && b@.rows.len() == snap.presets@.len() && forall|i: int|
                0 <= i < b@.rows.len() ==> crate::batch::preset_row(
                    keys@,
                    snap.presets@[i],
                    #[trigger] b@.rows[i],
                ),
            r.valid(),
    {
        Modal::Batch(Box::new(Batch::presets(keys, snap)))
    }

    pub fn help() -> (r: Modal)
        ensures
            r == Modal::Help(Help { scroll: 0 }),
    {
        Modal::Help(Help { scroll: 0 })
    }

    pub fn message(title: &str, lines: Vec<String>) -> (r: Modal)
        ensures
            r.says(title@, texts(lines@)),
            r.valid(),
    {
        Modal::Message(Box::new(Message::new(title, lines)))
    }

    pub fn confirm(title: String, actions: Vec<PlannedLink>) -> (r: Modal)
        ensures
            r@ == links_dialog(title@, actions@, None),
            r.valid(),
    {
        Modal::confirm_then(title, actions, None)
    }

    /// A confirmation that also moves the history once it went through. Where nothing would
    /// change, this is said instead.
    pub fn confirm_then(title: String, actions: Vec<PlannedLink>, step: Option<Step>) -> (r: Modal)
        ensures
            r@ == links_dialog(title@, actions@, step),
            r.valid(),
    {
        let mut lines: Vec<String> = Vec::new();
        let mut i: usize = 0;
        let ghost all = summaries(actions@);
        assert(texts(lines@) =~= all.take(0));
        while i < actions.len()
            invariant
                i <= actions.len(),
                all == summaries(actions@),
                texts(lines@) == all.take(i as int),
            decreases actions.len() - i,
        {
            let line = actions[i].summary.clone();
            assert(texts(lines@.push(line)) =~= texts(lines@).push(line@));
            lines.push(line);
            i = i + 1;
            assert(texts(lines@) =~= all.take(i as int));
        }
        assert(texts(lines@) =~= all);
        if has_change(&actions) {
            return Modal::Confirm(Box::new(Confirm::new(title, lines, actions, step)));
        }
        if lines.len() == 0 {
            assert(texts(lines@).len() == 0);
            let text = "nothing to do".to_owned();
            assert(texts(lines@.push(text)) =~= seq![text@]);
            lines.push(text);
        } else {
            assert(texts(lines@).len() == lines@.len());
        }
        Modal::message(title.as_str(), lines)
    }

    /// Asks before something is written.
    pub fn confirm_write(title: String, lines: Vec<String>, write: Write) -> (r: Modal)
        ensures
            r.questions(title@, texts(lines@), None),
            r.write() == Some(write),
    {
        Modal::ConfirmWrite(Box::new(ConfirmWrite::new(title, lines, write)))
    }

    /// Takes a directory of an agent into the library and leaves a link where it was. This
    /// cannot be taken back.
    pub fn adopt(agent: &str, name: &str, path: &str) -> (r: Modal)
        ensures
            r.questions(
                " adopt "@ + name@ + " "@,
                seq![
                    "Adopt \""@ + name@ + "\" from "@ + agent@ + " into the skills root?"@,
                    "Its directory moves into the root; "@ + agent@
                        + " keeps a link to it there."@,
                    "Metadata is created with the content as it stands for its baseline."@,
                    "Undo does not cover this."@,
                ],
                None,
            ),
            r.write() matches Some(Write::Adopt { agent: a, path: p }) && a@ == agent@ && p@ == path@,
    {
        let mut lines: Vec<String> = Vec::new();
        lines.push(cat5("Adopt \"", name, "\" from ", agent, " into the skills root?"));
        lines.push(
            cat3("Its directory moves into the root; ", agent, " keeps a link to it there."),
        );
        lines.push(
            "Metadata is created with the content as it stands for its baseline.".to_owned(),
        );
        lines.push("Undo does not cover this.".to_owned());
        assert(texts(lines@) =~= seq![
            "Adopt \""@ + name@ + "\" from "@ + agent@ + " into the skills root?"@,
            "Its directory moves into the root; "@ + agent@ + " keeps a link to it there."@,
            "Metadata is created with the content as it stands for its baseline."@,
            "Undo does not cover this."@,
        ]);
        Modal::confirm_write(
            cat3(" adopt ", name, " "),
            lines,
            Write::Adopt { agent: agent.to_owned(), path: path.to_owned() },
        )
    }

    pub fn delete_tag(tag: &str) -> (r: Modal)
        ensures
            r.questions(
                " delete tag "@ + tag@ + " "@,
                seq!["Remove the tag \""@ + tag@ + "\" from every skill?"@],
                None,
            ),
            r.write() matches Some(Write::DeleteTag { tag: t }) && t@ == tag@,
    {
        Modal::confirm_write(
            cat3(" delete tag ", tag, " "),
            one_line(cat3("Remove the tag \"", tag, "\" from every skill?")),
            Write::DeleteTag { tag: tag.to_owned() },
        )
    }

    pub fn delete_preset(name: &str) -> (r: Modal)
        ensures
            r.questions(
                " delete preset "@ + name@ + " "@,
                seq![
                    "Delete preset \""@ + name@ + "\"? Deployed links are left as they are."@,
                ],
                None,
            ),
            r.write() matches Some(Write::DeletePreset { name: n }) && n@ == name@,
    {
        Modal::confirm_write(
            cat3(" delete preset ", name, " "),
            one_line(
                cat3("Delete preset \"", name, "\"? Deployed links are left as they are."),
            ),
            Write::DeletePreset { name: name.to_owned() },
        )
    }

    /// Removes a skill, beside the interface.
    pub fn remove(skill: &str) -> (r: Modal)
        ensures
            r.questions(
                " remove "@ + skill@ + " "@,
                seq![
                    "Remove \""@ + skill@ + "\" from the skills root?"@,
                    "This unlinks it from every agent, deletes the directory and its metadata."@,
                ],
                Some(seq![skill@]),
            ),
            r.write() matches Some(Write::RemoveSkill { key }) && key@ == skill@,
    {
        let mut lines: Vec<String> = one_line(
            cat3("Remove \"", skill, "\" from the skills root?"),
        );
        let text = "This unlinks it from every agent, deletes the directory and its metadata.".to_owned();
        assert(texts(lines@.push(text)) =~= texts(lines@).push(text@));
        lines.push(text);
        assert(texts(lines@) =~= seq![
            "Remove \""@ + skill@ + "\" from the skills root?"@,
            "This unlinks it from every agent, deletes the directory and its metadata."@,
        ]);
        let question = ConfirmWrite::new(
            cat3(" remove ", skill, " "),
            lines,
            Write::RemoveSkill { key: skill.to_owned() },
        );
        Modal::ConfirmWrite(Box::new(question.in_background(one_line(skill.to_owned()))))
    }

    /// Deletes a directory that is no usable skill, beside the interface.
    pub fn discard_invalid(skill: &str, reason: &str) -> (r: Modal)
        ensures
            r.questions(
                " discard "@ + skill@ + " "@,
                discard_lines(skill@, reason@),
                Some(seq![skill@]),
            ),
            r.write() matches Some(Write::DiscardSkill { key }) && key@ == skill@,
    {
        let mut lines: Vec<String> = one_line(cat3("Delete the directory \"", skill, "\"?"));
        let why = cat3("It is not a usable skill: ", reason, ".");
        assert(texts(lines@.push(why)) =~= texts(lines@).push(why@));
        lines.push(why);
        if contains(reason, "missing SKILL.md") {
            let text = LEFT_BEHIND.to_owned();
            assert(texts(lines@.push(text)) =~= texts(lines@).push(text@));
            lines.push(text);
        }
        let text = "Its metadata, if any, goes with it.".to_owned();
        assert(texts(lines@.push(text)) =~= texts(lines@).push(text@));
        lines.push(text);
        assert(texts(lines@) =~= discard_lines(skill@, reason@));
        let question = ConfirmWrite::new(
            cat3(" discard ", skill, " "),
            lines,
            Write::DiscardSkill { key: skill.to_owned() },
        );
        Modal::ConfirmWrite(Box::new(question.in_background(one_line(skill.to_owned()))))
    }

    /// Asks before tags are shown or hidden.
    pub fn toggle_tags(enabled: bool) -> (r: Modal)
        ensures
            r.questions(
                "Settings · Tags"@,
                seq![
                    if enabled {
                        "Tags: false → true"@
                    } else {
                        "Tags: true → false"@
                    },
                    TAGS_NOTE@,
                ],
                None,
            ),
            r.write() == Some(Write::SetTagsEnabled(enabled)),
    {
        let mut lines: Vec<String> = Vec::new();
        lines.push(
            (if enabled {
                "Tags: false → true"
            } else {
                "Tags: true → false"
            }).to_owned(),
        );
        lines.push(TAGS_NOTE.to_owned());
        assert(texts(lines@) =~= seq![
            if enabled {
                "Tags: false → true"@
            } else {
                "Tags: true → false"@
            },
            TAGS_NOTE@,
        ]);
        Modal::confirm_write("Settings · Tags".to_owned(), lines, Write::SetTagsEnabled(enabled))
    }

    /// The skills of a preset, in the view that searches the library.
    pub fn preset_members(preset: &str) -> (r: Modal)
        ensures
            r matches Modal::PresetSkills(name) && name@ == preset@,
    {
        Modal::PresetSkills(preset.to_owned())
    }

    /// The repositories that skills were installed from.
    pub fn repositories(snap: &Snapshot, icons: Icons) -> (r: Modal)
        ensures
            r matches Modal::Picker(b) && crate::dialogs::browser::lists_repositories(
                b@,
                *snap,
                icons,
            ),
            r.valid(),
    {
        Modal::Picker(Box::new(Browser::repositories(snap, icons)))
    }

    /// Asks before a step of the history that is a write. The focus is on the first button:
    /// the step was asked for a moment ago.
    pub fn undo_write(describe: &str, number: u64, direction: Step) -> (r: Modal)
        ensures
            r@ == step_dialog(describe@, number, direction),
            r.valid(),
    {
        let title = match direction {
            Step::Undo => " undo ",
            Step::Redo => " redo ",
        };
        let question = ConfirmWrite::new(
            title.to_owned(),
            one_line(cat2(capitalize(describe).as_str(), "?")),
            Write::TakeBack(number),
        );
        Modal::ConfirmWrite(Box::new(question.with_step(direction)))
    }

    pub fn resolve(prepared: Prepared) -> (r: Modal)
        ensures
            r matches Modal::Resolve(d) && d@ == crate::dialogs::resolve::undecided(prepared),
    {
        Modal::Resolve(Box::new(Resolve::new(prepared)))
    }
}

/// Why a directory may be left without its contents.
pub const LEFT_BEHIND: &'static str = "A directory left with no SKILL.md is usually what git leaves behind when the files are discarded, because git does not remove empty directories.";

/// What hiding the tags does and does not do.
pub const TAGS_NOTE: &'static str = "Hide or show tag classification throughout the interface. Existing data and preset membership are preserved.";

/// The dialog before a step of the history that is a write.
pub open spec fn step_dialog(describe: Seq<char>, number: u64, direction: Step) -> ModalView {
    ModalView::ConfirmWrite(
        ConfirmWriteView {
            title: step_title(direction),
            lines: seq![capitalized(describe) + "?"@],
            write: Some(Write::TakeBack(number)),
            background: None,
            scope: MutationScope::Library,
            step: Some(direction),
            on_cancel: false,
            apply: Rect::zero(),
            cancel: Rect::zero(),
            rect: Rect::zero(),
        },
    )
}

/// The dialog before links are changed; where nothing would change, what says so.
pub open spec fn links_dialog(
    title: Seq<char>,
    actions: Seq<PlannedLink>,
    step: Option<Step>,
) -> ModalView {
    if any_changes(actions) {
        ModalView::Confirm(
            ConfirmView {
                title,
                lines: summaries(actions),
                actions,
                step,
                scroll: 0,
                on_cancel: false,
                apply: Rect::zero(),
                cancel: Rect::zero(),
                rect: Rect::zero(),
            },
        )
    } else {
        ModalView::Message(
            MessageView { title, lines: unchanged_lines(actions), scroll: 0, return_to: None },
        )
    }
}

pub open spec fn step_title(direction: Step) -> Seq<char> {
    match direction {
        Step::Undo => " undo "@,
        Step::Redo => " redo "@,
    }
}

/// What is said where nothing would change.
pub open spec fn unchanged_lines(actions: Seq<PlannedLink>) -> Seq<Seq<char>> {
    if actions.len() == 0 {
        seq!["nothing to do"@]
    } else {
        summaries(actions)
    }
}

/// What is asked before a directory is deleted.
pub open spec fn discard_lines(skill: Seq<char>, reason: Seq<char>) -> Seq<Seq<char>> {
    let head = seq![
        "Delete the directory \""@ + skill + "\"?"@,
        "It is not a usable skill: "@ + reason + "."@,
    ];
    (if has_part(reason, "missing SKILL.md"@) {
        head.push(LEFT_BEHIND@)
    } else {
        head
    }).push("Its metadata, if any, goes with it."@)
}

fn one_line(text: String) -> (r: Vec<String>)
    ensures
        texts(r@) == seq![text@],
        r@ == seq![text],
{
    let mut lines: Vec<String> = Vec::new();
    lines.push(text);
    assert(texts(lines@) =~= seq![text@]);
    lines
}

// ---- events ------------------------------------------------------------------

impl Modal {
    /// What is asked once the library was read again.
    pub open spec fn refreshes(self, actions: Seq<Action>) -> bool {
        match self {
            Modal::Repository(p) => actions.len() == 2 && (actions[0] matches Action::SearchCandidates(
                text,
            ) && text@ == p@.search.text) && actions[1] == Action::SuggestCandidates,
            Modal::PresetSkills(_) => actions == seq![Action::Forward],
            _ => actions.len() == 0,
        }
    }

    /// The library was read again: a search in a repository is made once more.
    pub fn refresh(&self) -> (r: Vec<Action>)
        ensures
            self.refreshes(r@),
    {
        match self {
            Modal::Repository(p) => p.refresh(),
            Modal::PresetSkills(_) => only(Action::Forward),
            _ => nothing(),
        }
    }

    /// The dialog with the library as it is now.
    pub open spec fn freshened(self, snap: Snapshot, after: Modal) -> bool {
        match self {
            Modal::Batch(p) => {
                &&& after is Batch
                &&& p@.kind != Kind::Tags ==> after->Batch_0@ == p@
                &&& p@.kind == Kind::Tags ==> are_tag_rows(snap, p@.keys, after->Batch_0@.rows)
                    && after->Batch_0@ == p@.refreshed(after->Batch_0@.rows)
            },
            _ => after == self,
        }
    }

    /// Takes the library as it is now: the tags of a batch may have changed.
    pub fn freshen(&mut self, snap: &Snapshot)
        requires
            old(self).valid(),
        ensures
            old(self).freshened(*snap, *final(self)),
            final(self).valid(),
    {
        match self {
            Modal::Batch(p) => p.refresh(snap),
            _ => {},
        }
    }

    /// The hints for the keys of the dialog; nothing for one that is kept elsewhere.
    pub open spec fn hint_list(self) -> Option<Seq<Hint>> {
        match self {
            Modal::Sync(p) => Some(p@.hint_list()),
            Modal::DeployTargets(p) => Some(crate::deploy_picker::deploy_hints()),
            Modal::Batch(p) => Some(p@.hint_list()),
            Modal::Repository(p) => Some(p@.hint_list()),
            Modal::Help(_) => Some(
                seq![("↑↓", "scroll"), ("PgUp/PgDn", "page"), ("Esc", "close")],
            ),
            Modal::Message(m) => Some(m@.hint_list()),
            Modal::Confirm(c) => Some(question_hints(c@.on_cancel)),
            Modal::ConfirmWrite(c) => Some(question_hints(c@.on_cancel)),
            Modal::Input(p) => Some(p@.hint_list()),
            Modal::Picker(b) => Some(b@.hint_list()),
            Modal::Resolve(d) => Some(crate::dialogs::resolve::resolve_hints()),
            _ => None,
        }
    }

    pub fn hints(&self) -> (r: Option<Vec<Hint>>)
        ensures
            match r {
                Some(hints) => self.hint_list() == Some(hints@),
                None => self.hint_list() is None,
            },
    {
        match self {
            Modal::Sync(p) => Some(p.hints()),
            Modal::DeployTargets(p) => Some(p.hints()),
            Modal::Batch(p) => Some(p.hints()),
            Modal::Repository(p) => Some(p.hints()),
            Modal::Help(_) => Some(
                vec![("↑↓", "scroll"), ("PgUp/PgDn", "page"), ("Esc", "close")],
            ),
            Modal::Message(m) => Some(m.hints()),
            Modal::Confirm(c) => Some(hints_for(c.on_cancel)),
            Modal::ConfirmWrite(c) => Some(hints_for(c.on_cancel)),
            Modal::Input(p) => Some(p.hints()),
            Modal::Picker(b) => Some(b.hints()),
            Modal::Resolve(d) => Some(d.hints()),
            _ => None,
        }
    }

    /// What a paste makes of the dialog, and what is asked for it.
    #[verifier::opaque]
    pub open spec fn takes_paste(self, text: Seq<char>, after: Modal, actions: Seq<Action>) -> bool {
        match self {
            Modal::Sync(p) => after matches Modal::Sync(q) && q@ == p@.pasted(text).0 && p@.pasted(
                text,
            ).1.told(actions),
            Modal::DeployTargets(p) => after matches Modal::DeployTargets(q) && q@ == p@.pasted(text)
                && actions.len() == 0,
            Modal::Batch(p) => after matches Modal::Batch(q) && q@ == p@.pasted(text).0 && p@.pasted(
                text,
            ).1.told(p@.keys, actions),
            Modal::Repository(p) => after matches Modal::Repository(q) && q@ == p@.pasted(text).0
                && p@.pasted(text).1.told(actions),
            Modal::Input(p) => after matches Modal::Input(q) && if is_multiline(text) {
                q@ == p@ && crate::app::complains(actions, paste_refused())
            } else {
                q@ == (PromptView { input: p@.input.with_pasted(text), ..p@ }) && actions.len() == 0
            },
            Modal::Picker(b) => after matches Modal::Picker(q) && q@ == b@.pasted(text).0
                && b@.pasted(text).1.told(actions),
            Modal::PresetSkills(_) => after == self && actions == seq![Action::Forward],
            Modal::HealthRepair(_) => after == self && actions == seq![Action::Forward],
            _ => after == self && actions.len() == 0,
        }
    }

    pub fn paste(&mut self, text: &str) -> (r: Vec<Action>)
        requires
            old(self).valid(),
        ensures
            old(self).takes_paste(text@, *final(self), r@),
            final(self).valid(),
    {
        reveal(Modal::takes_paste);
        match self {
            Modal::Sync(p) => p.paste(text),
            Modal::DeployTargets(p) => p.paste(text),
            Modal::Batch(p) => p.paste(text),
            Modal::Repository(p) => p.paste(text),
            Modal::Input(p) => p.paste(text),
            Modal::Picker(b) => b.paste(text),
            Modal::PresetSkills(_) | Modal::HealthRepair(_) => only(Action::Forward),
            _ => nothing(),
        }
    }

    /// What a key makes of the dialog, and what is asked for it.
    #[verifier::opaque]
    pub open spec fn takes_key(
        self,
        key: KeyEvent,
        snap: Snapshot,
        facts: Facts,
        after: Modal,
        actions: Seq<Action>,
    ) -> bool {
        match self {
            Modal::Sync(p) => after matches Modal::Sync(q) && q@ == p@.keyed(key).0 && p@.keyed(
                key,
            ).1.told(actions),
            Modal::DeployTargets(p) => after matches Modal::DeployTargets(q) && q@ == p@.keyed(key).0
                && p@.keyed(key).1.told(p@.keys, actions),
            Modal::Batch(p) => after matches Modal::Batch(q) && q@ == p@.keyed(key).0 && p@.keyed(
                key,
            ).1.told(p@.keys, actions),
            Modal::Repository(p) => after matches Modal::Repository(q) && q@ == p@.keyed(
                key,
                facts.repository,
            ).0 && p@.keyed(key, facts.repository).1.told(actions),
            Modal::Help(h) => after == Modal::Help(Help { scroll: scrolled(h.scroll, key.code) })
                && answered(closes(key.code), actions),
            Modal::Message(m) => after matches Modal::Message(n) && n@ == m@.keyed(key) && answered(
                m@.closes(key),
                actions,
            ),
            Modal::Confirm(c) => after matches Modal::Confirm(d) && d@ == c@.keyed(key).0 && c@.keyed(
                key,
            ).1.told(actions),
            Modal::ConfirmWrite(c) => after matches Modal::ConfirmWrite(d) && d@ == c@.keyed(key).0
                && c@.keyed(key).1.told(actions),
            Modal::Input(p) => after matches Modal::Input(q) && q@ == p@.keyed(key) && p@.told(
                key,
                facts.prompt,
                snap,
                actions,
            ),
            Modal::Picker(b) => after matches Modal::Picker(q) && q@ == b@.keyed(key, snap).0
                && b@.keyed(key, snap).1.told(actions),
            Modal::Resolve(d) => after matches Modal::Resolve(e) && e@ == d@.keyed(key).0 && d@.keyed(
                key,
            ).1.told(actions),
            _ => after == self && actions == seq![Action::Forward],
        }
    }

    pub fn handle_key(&mut self, key: KeyEvent, snap: &Snapshot, facts: &Facts) -> (r: Vec<Action>)
        requires
            old(self).valid(),
        ensures
            old(self).takes_key(key, *snap, *facts, *final(self), r@),
            final(self).valid(),
    {
        reveal(Modal::takes_key);
        match self {
            Modal::Sync(p) => p.key(key),
            Modal::DeployTargets(p) => p.key(key),
            Modal::Batch(p) => p.key(key),
            Modal::Repository(p) => p.key(key, &facts.repository),
            Modal::Help(h) => h.key(key),
            Modal::Message(m) => m.key(key),
            Modal::Confirm(c) => c.key(key),
            Modal::ConfirmWrite(c) => c.key(key),
            Modal::Input(p) => p.key(key, &facts.prompt, snap),
            Modal::Picker(b) => b.key(key, snap),
            Modal::Resolve(d) => d.key(key),
            _ => only(Action::Forward),
        }
    }

    /// What the mouse makes of the dialog, and what is asked for it.
    #[verifier::opaque]
    pub open spec fn takes_mouse(
        self,
        event: MouseEvent,
        snap: Snapshot,
        facts: Facts,
        after: Modal,
        actions: Seq<Action>,
    ) -> bool {
        let cap = spec_min(display_width(facts.right_cap@) as int, 65535);
        match self {
            Modal::Sync(p) => after matches Modal::Sync(q) && q@ == p@.moused(event).0 && p@.moused(
                event,
            ).1.told(actions),
            Modal::DeployTargets(p) => after matches Modal::DeployTargets(q) && q@ == p@.moused(
                event,
            ).0 && p@.moused(event).1.told(p@.keys, actions),
            Modal::Batch(p) => after matches Modal::Batch(q) && q@ == p@.moused(event, cap).0
                && p@.moused(event, cap).1.told(p@.keys, actions),
            Modal::Repository(p) => after matches Modal::Repository(q) && q@ == p@.moused(
                event,
                facts.wheel as int,
                facts.repository,
            ).0 && p@.moused(event, facts.wheel as int, facts.repository).1.told(actions),
            Modal::Help(h) => after == Modal::Help(
                Help { scroll: wheeled(h.scroll, event.kind) },
            ) && answered(event.kind == MouseKind::Down, actions),
            Modal::Message(m) => after matches Modal::Message(n) && n@ == m@.moused(event)
                && answered(event.kind == MouseKind::Down, actions),
            Modal::Confirm(c) => after matches Modal::Confirm(d) && d@ == c@.moused(event).0
                && c@.moused(event).1.told(actions),
            Modal::ConfirmWrite(c) => after matches Modal::ConfirmWrite(d) && d@ == c@.moused(
                event,
            ).0 && c@.moused(event).1.told(actions),
            Modal::Input(p) => after matches Modal::Input(q) && q@ == p@.moused(event) && answered(
                p@.mouse_closes(event),
                actions,
            ),
            Modal::Picker(b) => after matches Modal::Picker(q) && q@ == b@.moused(event, snap).0
                && b@.moused(event, snap).1.told(actions),
            Modal::Resolve(d) => after matches Modal::Resolve(e) && e@ == d@.moused(event).0
                && d@.moused(event).1.told(actions),
            _ => after == self && actions == seq![Action::Forward],
        }
    }

    pub fn handle_mouse(&mut self, event: MouseEvent, snap: &Snapshot, facts: &Facts) -> (r: Vec<
        Action,
    >)
        requires
            old(self).valid(),
        ensures
            old(self).takes_mouse(event, *snap, *facts, *final(self), r@),
            final(self).valid(),
    {
        reveal(Modal::takes_mouse);
        match self {
            Modal::Sync(p) => p.mouse(event),
            Modal::DeployTargets(p) => p.mouse(event),
            Modal::Batch(p) => p.mouse(event, facts.right_cap.as_str()),
            Modal::Repository(p) => p.mouse(event, facts.wheel, &facts.repository),
            Modal::Help(h) => h.mouse(event),
            Modal::Message(m) => m.mouse(event),
            Modal::Confirm(c) => c.mouse(event),
            Modal::ConfirmWrite(c) => c.mouse(event),
            Modal::Input(p) => p.mouse(event),
            Modal::Picker(b) => b.mouse(event, snap),
            Modal::Resolve(d) => d.mouse(event),
            _ => only(Action::Forward),
        }
    }
}

// ---- drawing -----------------------------------------------------------------

/// Where the skills of a preset are drawn, with their frame.
pub open spec fn members_rect(area: Rect) -> Rect {
    middle_of(area, monus(area.width as int, 4), monus(area.height as int, 2))
}

impl Modal {
    #[verifier::opaque]
    pub open spec fn picker_scene(self, area: Rect, around: Surroundings) -> Seq<DrawView> {
        let theme = around.look.theme;
        match self {
            Modal::Sync(p) => p@.scene(area, theme),
            Modal::DeployTargets(p) => p@.scene(area, around.root@, theme),
            Modal::Batch(p) => if p@.kind == Kind::Tags {
                p@.tags_scene(area, around.name@, around.look)
            } else {
                p@.plain_scene(area, around.plan, theme)
            },
            Modal::Repository(p) => p@.scene(area, around.local_name@, theme),
            Modal::Picker(b) => b@.scene(area, theme),
            _ => Seq::empty(),
        }
    }

    #[verifier::opaque]
    pub open spec fn question_scene(self, area: Rect, theme: Theme) -> Seq<DrawView> {
        match self {
            Modal::Confirm(c) => c@.scene(area, theme),
            Modal::ConfirmWrite(c) => c@.scene(area, theme),
            Modal::Input(p) => p@.scene(area, theme),
            Modal::Resolve(d) => d@.scene(area, theme),
            _ => Seq::empty(),
        }
    }

    /// How the dialog is drawn. Of one that is kept elsewhere, at most the frame.
    pub open spec fn scene(self, area: Rect, around: Surroundings) -> Seq<DrawView> {
        let theme = around.look.theme;
        if self.is_picker() {
            self.picker_scene(area, around)
        } else if self.is_question() {
            self.question_scene(area, theme)
        } else {
            match self {
                Modal::PresetSkills(_) => seq![
                    DrawView::Clear(members_rect(area)),
                    framed(members_rect(area), around.picker_title@),
                ],
                Modal::Help(h) => h.scene(area, around.tags_enabled, theme),
                Modal::Message(m) => m@.scene(area, theme),
                _ => Seq::empty(),
            }
        }
    }

    #[verifier::opaque]
    pub open spec fn picker_placed(self, area: Rect, around: Surroundings, after: Modal) -> bool {
        match self {
            Modal::Sync(p) => after matches Modal::Sync(q) && q@ == p@.placed(area),
            Modal::DeployTargets(p) => after matches Modal::DeployTargets(q) && q@ == p@.placed(area),
            Modal::Batch(p) => after matches Modal::Batch(q) && q@ == if p@.kind == Kind::Tags {
                p@.tags_placed(area, around.look)
            } else {
                p@.plain_placed(area)
            },
            Modal::Repository(p) => after matches Modal::Repository(q) && q@ == p@.placed(area),
            Modal::Picker(b) => after matches Modal::Picker(q) && q@ == b@.placed(area),
            _ => after == self,
        }
    }

    #[verifier::opaque]
    pub open spec fn question_placed(self, area: Rect, after: Modal) -> bool {
        match self {
            Modal::Confirm(c) => after matches Modal::Confirm(d) && d@ == c@.placed(area),
            Modal::ConfirmWrite(c) => after matches Modal::ConfirmWrite(d) && d@ == c@.placed(area),
            Modal::Input(p) => after matches Modal::Input(q) && q@ == p@.placed(area),
            Modal::Resolve(d) => after matches Modal::Resolve(e) && e@ == d@.placed(area),
            _ => after == self,
        }
    }

    /// The dialog once it is drawn: it knows where its parts are.
    pub open spec fn is_placed(self, area: Rect, around: Surroundings, after: Modal) -> bool {
        let theme = around.look.theme;
        if self.is_picker() {
            self.picker_placed(area, around, after)
        } else if self.is_question() {
            self.question_placed(area, after)
        } else {
            match self {
                Modal::Help(h) => after == Modal::Help(
                    h.placed(area, around.tags_enabled, theme),
                ),
                Modal::Message(m) => after matches Modal::Message(n) && n@ == m@.placed(area, theme),
                _ => after == self,
            }
        }
    }

    pub open spec fn is_picker(self) -> bool {
        self is Sync || self is DeployTargets || self is Batch || self is Repository || self is Picker
    }

    pub open spec fn is_question(self) -> bool {
        self is Confirm || self is ConfirmWrite || self is Input || self is Resolve
    }

    fn draw_picker(&mut self, area: Rect, around: &Surroundings) -> (r: Scene)
        requires
            area.in_range(),
            old(self).valid(),
            old(self).is_picker(),
        ensures
            r@ == old(self).scene(area, *around),
            old(self).is_placed(area, *around, *final(self)),
            final(self).valid(),
    {
        reveal(Modal::picker_scene);
        reveal(Modal::picker_placed);
        let theme = &around.look.theme;
        match self {
            Modal::Sync(p) => p.draw(area, theme),
            Modal::DeployTargets(p) => p.draw(area, around.root.as_str(), theme),
            Modal::Batch(p) => p.draw(area, around.name.as_str(), &around.plan, &around.look),
            Modal::Repository(p) => p.draw(area, around.local_name.as_str(), theme),
            Modal::Picker(b) => b.draw(area, theme),
            _ => Scene::new(),
        }
    }

    fn draw_question(&mut self, area: Rect, around: &Surroundings) -> (r: Scene)
        requires
            area.in_range(),
            old(self).valid(),
            old(self).is_question(),
        ensures
            r@ == old(self).scene(area, *around),
            old(self).is_placed(area, *around, *final(self)),
            final(self).valid(),
    {
        reveal(Modal::question_scene);
        reveal(Modal::question_placed);
        let theme = &around.look.theme;
        match self {
            Modal::Confirm(c) => c.draw(area, theme),
            Modal::ConfirmWrite(c) => c.draw(area, theme),
            Modal::Input(p) => p.draw(area, theme),
            Modal::Resolve(d) => d.draw(area, theme),
            _ => Scene::new(),
        }
    }

    fn draw_text(&mut self, area: Rect, around: &Surroundings) -> (r: Scene)
        requires
            area.in_range(),
            old(self).valid(),
            !old(self).is_picker(),
            !old(self).is_question(),
        ensures
            r@ == old(self).scene(area, *around),
            old(self).is_placed(area, *around, *final(self)),
            final(self).valid(),
    {
        let theme = &around.look.theme;
        match self {
            Modal::PresetSkills(_) => {
                let rect = centered(
                    area,
                    area.width.saturating_sub(4),
                    area.height.saturating_sub(2),
                );
                let mut scene = Scene::new();
                scene.clear(rect);
                scene.frame(rect, around.picker_title.as_str());
                scene
            },
            Modal::Help(h) => h.draw(area, around.tags_enabled, theme),
            Modal::Message(m) => m.draw(area, theme),
            _ => Scene::new(),
        }
    }

    pub fn draw(&mut self, area: Rect, around: &Surroundings) -> (r: Scene)
        requires
            area.in_range(),
            old(self).valid(),
        ensures
            r@ == old(self).scene(area, *around),
            old(self).is_placed(area, *around, *final(self)),
            final(self).valid(),
    {
        match self {
            Modal::Sync(_)
            | Modal::DeployTargets(_)
            | Modal::Batch(_)
            | Modal::Repository(_)
            | Modal::Picker(_) => self.draw_picker(area, around),
            Modal::Confirm(_) | Modal::ConfirmWrite(_) | Modal::Input(_) | Modal::Resolve(_) => {
                self.draw_question(area, around)
            },
            _ => self.draw_text(area, around),
        }
    }
}

// ---- laws --------------------------------------------------------------------

/// A question before a write answers nothing to a key that is held with a command modifier.
pub proof fn lemma_questions_ignore_commands(
    modal: Modal,
    key: KeyEvent,
    snap: Snapshot,
    facts: Facts,
    after: Modal,
    actions: Seq<Action>,
)
    requires
        modal is Confirm || modal is ConfirmWrite,
        key.modifiers.commands(),
        modal.takes_key(key, snap, facts, after, actions),
    ensures
        actions.len() == 0,
        after.write() == modal.write(),
{
    reveal(Modal::takes_key);
}

/// Whatever comes, a dialog stays the dialog that it is until the application closes it.
pub proof fn lemma_dialogs_do_not_turn_into_others(
    modal: Modal,
    key: KeyEvent,
    snap: Snapshot,
    facts: Facts,
    after: Modal,
    actions: Seq<Action>,
)
    requires
        modal.takes_key(key, snap, facts, after, actions),
    ensures
        modal.is_hosted() ==> after == modal,
        modal is Input ==> after is Input,
        modal is Batch ==> after is Batch,
        modal is Repository ==> after is Repository,
        modal is ConfirmWrite ==> after is ConfirmWrite,
        modal is Confirm ==> after is Confirm,
        modal is Resolve ==> after is Resolve,
        modal is Message ==> after is Message,
{
    reveal(Modal::takes_key);
}

/// A write that was confirmed is made once: the same dialog does not hand it out again.
pub proof fn lemma_a_write_is_confirmed_once(
    modal: Modal,
    key: KeyEvent,
    snap: Snapshot,
    facts: Facts,
    after: Modal,
    actions: Seq<Action>,
    again: KeyEvent,
    last: Modal,
    more: Seq<Action>,
)
    requires
        modal is ConfirmWrite,
        modal.takes_key(key, snap, facts, after, actions),
        actions.len() >= 2,
        after.takes_key(again, snap, facts, last, more),
    ensures
        after.write() is None,
        more.len() <= 1,
{
    reveal(Modal::takes_key);
}

/// A question before something is deleted, adopted or set begins on the button that goes
/// back: Enter alone closes it and writes nothing.
pub proof fn lemma_a_question_begins_on_the_way_back(
    modal: Modal,
    title: Seq<char>,
    lines: Seq<Seq<char>>,
    background: Option<Seq<Seq<char>>>,
    key: KeyEvent,
    snap: Snapshot,
    facts: Facts,
    after: Modal,
    actions: Seq<Action>,
)
    requires
        modal.questions(title, lines, background),
        modal.takes_key(key, snap, facts, after, actions),
        key.code == KeyCode::Enter,
        !key.modifiers.control,
        !key.modifiers.alt,
        !key.modifiers.super_key,
    ensures
        modal is ConfirmWrite,
        modal@->ConfirmWrite_0.title == title,
        modal@->ConfirmWrite_0.lines == lines,
        modal@->ConfirmWrite_0.scope == MutationScope::Library,
        modal@->ConfirmWrite_0.step is None,
        actions == seq![Action::CloseModal],
        after.write() == modal.write(),
{
    reveal(Modal::takes_key);
}

/// A step of the history that writes begins on the button that takes it: Enter alone
/// closes the dialog and takes back what it shows, moving the history in its direction.
pub proof fn lemma_a_step_begins_on_its_button(
    modal: Modal,
    describe: Seq<char>,
    number: u64,
    direction: Step,
    key: KeyEvent,
    snap: Snapshot,
    facts: Facts,
    after: Modal,
    actions: Seq<Action>,
)
    requires
        modal@ == step_dialog(describe, number, direction),
        modal.takes_key(key, snap, facts, after, actions),
        key.code == KeyCode::Enter,
        !key.modifiers.control,
        !key.modifiers.alt,
        !key.modifiers.super_key,
    ensures
        actions.len() == 3,
        actions[0] == Action::CloseModal,
        actions[1] == Action::WriteMeta(Write::TakeBack(number)),
        actions[2] == Action::Step(direction),
        after.write() is None,
{
    reveal(Modal::takes_key);
}

/// Links that would change something are asked about, each with its line; where none would,
/// there is nothing to confirm and the lines are only read.
pub proof fn lemma_links_are_asked_about(
    title: Seq<char>,
    actions: Seq<PlannedLink>,
    step: Option<Step>,
)
    ensures
        (exists|i: int| 0 <= i < actions.len() && !((#[trigger] actions[i]).action is Skip)) ==> {
            let dialog = links_dialog(title, actions, step);
            &&& dialog is Confirm
            &&& dialog->Confirm_0.title == title
            &&& dialog->Confirm_0.actions == actions
            &&& dialog->Confirm_0.step == step
            &&& dialog->Confirm_0.lines == actions.map_values(|p: PlannedLink| p.summary@)
            &&& !dialog->Confirm_0.on_cancel
        },
        (forall|i: int| 0 <= i < actions.len() ==> (#[trigger] actions[i]).action is Skip) ==> {
            let dialog = links_dialog(title, actions, step);
            &&& dialog is Message
            &&& dialog->Message_0.title == title
            &&& dialog->Message_0.return_to is None
            &&& actions.len() > 0 ==> dialog->Message_0.lines == actions.map_values(
                |p: PlannedLink| p.summary@,
            )
            &&& actions.len() == 0 ==> dialog->Message_0.lines == seq!["nothing to do"@]
        },
{
    if exists|i: int| 0 <= i < actions.len() && !((#[trigger] actions[i]).action is Skip) {
        let i = choose|i: int| 0 <= i < actions.len() && !((#[trigger] actions[i]).action is Skip);
        assert(actions[i].action.changes());
    }
    assert(summaries(actions) =~= actions.map_values(|p: PlannedLink| p.summary@));
}

/// Before a directory is deleted it is named, with what is wrong with it; that an empty one
/// is left by git is said of one without its file, and of no other.
pub proof fn lemma_a_discarded_directory_is_named(skill: Seq<char>, reason: Seq<char>)
    ensures
        ({
            let lines = discard_lines(skill, reason);
            &&& lines[0] == "Delete the directory \""@ + skill + "\"?"@
            &&& lines[1] == "It is not a usable skill: "@ + reason + "."@
            &&& lines.last() == "Its metadata, if any, goes with it."@
            &&& has_part(reason, "missing SKILL.md"@) ==> lines.len() == 4 && lines[2]
                == LEFT_BEHIND@
            &&& !has_part(reason, "missing SKILL.md"@) ==> lines.len() == 3
        }),
{
}

/// Escape takes the help, a message, a question, an update and a dialog that is not being
/// typed in away, and asks for nothing else. What is kept elsewhere gets its keys there.
pub proof fn lemma_escape_leaves_a_dialog(
    modal: Modal,
    key: KeyEvent,
    snap: Snapshot,
    facts: Facts,
    after: Modal,
    actions: Seq<Action>,
)
    requires
        modal.takes_key(key, snap, facts, after, actions),
        key.code == KeyCode::Esc,
        !key.modifiers.control,
        !key.modifiers.alt,
        !key.modifiers.super_key,
    ensures
        modal is Help || modal is Message || modal is Confirm || modal is ConfirmWrite
            || modal is Input ==> actions == seq![Action::CloseModal],
        modal is DeploymentChoices || modal is HealthRepair || modal is PresetSkills
            || modal is InstallComplete ==> actions == seq![Action::Forward] && after == modal,
{
    reveal(Modal::takes_key);
}

/// The arrows and page keys scroll the help and messages by one and by ten rows, and Home
/// goes to the top; none of them closes anything.
pub proof fn lemma_texts_are_scrolled(
    modal: Modal,
    key: KeyEvent,
    snap: Snapshot,
    facts: Facts,
    after: Modal,
    actions: Seq<Action>,
)
    requires
        modal.takes_key(key, snap, facts, after, actions),
        modal is Help || modal is Message,
        key.code == KeyCode::Down || key.code == KeyCode::Up || key.code == KeyCode::PageDown
            || key.code == KeyCode::PageUp || key.code == KeyCode::Home,
    ensures
        actions.len() == 0,
        ({
            let from = if modal is Help {
                modal->Help_0.scroll as int
            } else {
                modal@->Message_0.scroll as int
            };
            let to = if modal is Help {
                after->Help_0.scroll as int
            } else {
                after@->Message_0.scroll as int
            };
            &&& modal is Message ==> after is Message && after@->Message_0.lines
                == modal@->Message_0.lines && after@->Message_0.return_to
                == modal@->Message_0.return_to
            &&& modal is Help ==> after is Help
            &&& key.code == KeyCode::Down ==> to == (if from < 65535 {
                from + 1
            } else {
                65535
            })
            &&& key.code == KeyCode::Up ==> to == (if from > 0 {
                from - 1
            } else {
                0
            })
            &&& key.code == KeyCode::PageDown ==> to == (if from <= 65525 {
                from + 10
            } else {
                65535
            })
            &&& key.code == KeyCode::PageUp ==> to == (if from >= 10 {
                from - 10
            } else {
                0
            })
            &&& key.code == KeyCode::Home ==> to == 0
        }),
{
    reveal(Modal::takes_key);
}

/// Once the library was read, a repository is searched again for what was typed; the skills
/// of a preset are read where they are kept, and nothing else asks for anything.
pub proof fn lemma_a_search_is_made_again(modal: Modal, actions: Seq<Action>)
    requires
        modal.refreshes(actions),
    ensures
        modal is Repository ==> {
            &&& actions.len() == 2
            &&& actions[0] is SearchCandidates
            &&& actions[0]->SearchCandidates_0@ == modal@->Repository_0.search.text
            &&& actions[1] == Action::SuggestCandidates
        },
        modal is PresetSkills ==> actions == seq![Action::Forward],
        !(modal is Repository || modal is PresetSkills) ==> actions.len() == 0,
{
}

/// Only the tags of a batch follow the library: every other dialog stays as it is.
pub proof fn lemma_only_tags_are_read_again(modal: Modal, snap: Snapshot, after: Modal)
    requires
        modal.freshened(snap, after),
    ensures
        !(modal is Batch) ==> after == modal,
        modal is Batch && modal@->Batch_0.kind != Kind::Tags ==> after@ == modal@,
        modal is Batch ==> after is Batch && after@->Batch_0.keys == modal@->Batch_0.keys
            && after@->Batch_0.kind == modal@->Batch_0.kind,
{
}

/// A text of several lines is not pasted into a field of one line; one of a single line
/// goes to its cursor. Dialogs without a field take nothing.
pub proof fn lemma_what_a_dialog_takes_of_a_paste(
    modal: Modal,
    text: Seq<char>,
    after: Modal,
    actions: Seq<Action>,
)
    requires
        modal.takes_paste(text, after, actions),
    ensures
        modal is Input && is_multiline(text) ==> {
            &&& after@ == modal@
            &&& actions.len() == 1
            &&& actions[0] is Error
            &&& actions[0]->Error_0@ == paste_refused()
        },
        modal is Input && !is_multiline(text) ==> {
            &&& actions.len() == 0
            &&& after is Input
            &&& after@->Input_0.input == modal@->Input_0.input.with_pasted(text)
            &&& after@->Input_0.kind == modal@->Input_0.kind
        },
        modal is PresetSkills || modal is HealthRepair ==> after == modal && actions == seq![
            Action::Forward,
        ],
        modal is Help || modal is Message || modal is Confirm || modal is ConfirmWrite
            || modal is Resolve || modal is DeploymentChoices || modal is InstallComplete ==> after
            == modal && actions.len() == 0,
{
    reveal(Modal::takes_paste);
}

/// A click anywhere takes the help and messages away; the wheel scrolls them by three rows
/// up, stopping at the top.
pub proof fn lemma_mouse_of_a_text(
    modal: Modal,
    event: MouseEvent,
    snap: Snapshot,
    facts: Facts,
    after: Modal,
    actions: Seq<Action>,
)
    requires
        modal is Help || modal is Message,
        modal.takes_mouse(event, snap, facts, after, actions),
    ensures
        event.kind == MouseKind::Down ==> actions == seq![Action::CloseModal],
        event.kind != MouseKind::Down ==> actions.len() == 0,
        modal is Help && event.kind == MouseKind::ScrollUp ==> after->Help_0.scroll as int == (
        if modal->Help_0.scroll >= 3 {
            modal->Help_0.scroll - 3
        } else {
            0
        }),
        modal is Message && event.kind == MouseKind::ScrollUp ==> after@->Message_0.scroll as int
            == (if modal@->Message_0.scroll >= 3 {
            modal@->Message_0.scroll - 3
        } else {
            0
        }),
        modal is Help && event.kind == MouseKind::ScrollDown && modal->Help_0.scroll < 65533
            ==> after->Help_0.scroll == modal->Help_0.scroll + 3,
        modal is Message && event.kind == MouseKind::ScrollDown && modal@->Message_0.scroll < 65533
            ==> after@->Message_0.scroll == modal@->Message_0.scroll + 3,
{
    reveal(Modal::takes_mouse);
}

/// Every dialog that is kept here has hints; those of a message say whether it leads back.
pub proof fn lemma_dialogs_have_hints(modal: Modal)
    ensures
        modal.hint_list() is None <==> (modal is DeploymentChoices || modal is HealthRepair
            || modal is PresetSkills || modal is InstallComplete),
        modal is Help ==> modal.hint_list() == Some(
            seq![("↑↓", "scroll"), ("PgUp/PgDn", "page"), ("Esc", "close")],
        ),
        modal is Message && modal@->Message_0.return_to is Some ==> modal.hint_list()->0.last() == (
            "Esc",
            "back to selection",
        ),
        modal is Message && modal@->Message_0.return_to is None
            && !modal@->Message_0.is_repair() ==> modal.hint_list()->0.last() == ("Esc", "close"),
{
}

/// A dialog that is drawn is the same dialog: only where its parts are is new.
pub proof fn lemma_drawing_asks_nothing(
    modal: Modal,
    area: Rect,
    around: Surroundings,
    after: Modal,
)
    requires
        modal.is_placed(area, around, after),
    ensures
        modal.write() == after.write(),
        modal is DeploymentChoices || modal is HealthRepair || modal is PresetSkills
            || modal is InstallComplete ==> after == modal,
        modal is Input ==> after is Input && after@->Input_0.input.text
            == modal@->Input_0.input.text && after@->Input_0.kind == modal@->Input_0.kind,
        modal is Confirm ==> after is Confirm && after@->Confirm_0.actions
            == modal@->Confirm_0.actions && after@->Confirm_0.step == modal@->Confirm_0.step,
        modal is Message ==> after is Message && after@->Message_0.lines == modal@->Message_0.lines,
{
    reveal(Modal::picker_placed);
    reveal(Modal::question_placed);
}

// ---- dialogs within what dialogs ask -----------------------------------------

proof fn lemma_submitted_are_sound(prompt: PromptView, key: KeyEvent, facts: Facts, snap: Snapshot, actions: Seq<Action>)
    requires
        prompt.told(key, facts.prompt, snap, actions),
    ensures
        all_sound(actions),
{
    if key.code == KeyCode::Enter {
        match actions[0] {
            Action::SubmitInput(inner) => {
                assert(all_sound(inner@));
            },
            _ => {},
        }
    }
}

/// Every dialog that a dialog asks for after a key can be shown.
#[verifier::rlimit(50)]
pub proof fn lemma_keys_ask_soundly(
    modal: Modal,
    key: KeyEvent,
    snap: Snapshot,
    facts: Facts,
    after: Modal,
    actions: Seq<Action>,
)
    requires
        modal.takes_key(key, snap, facts, after, actions),
    ensures
        all_sound(actions),
{
    reveal(Modal::takes_key);
    reveal_with_fuel(Action::sound, 3);
    match modal {
        Modal::Input(p) => lemma_submitted_are_sound(p@, key, facts, snap, actions),
        _ => {},
    }
}

/// Every dialog that a dialog asks for after a move of the mouse can be shown.
pub proof fn lemma_mouse_asks_soundly(
    modal: Modal,
    event: MouseEvent,
    snap: Snapshot,
    facts: Facts,
    after: Modal,
    actions: Seq<Action>,
)
    requires
        modal.takes_mouse(event, snap, facts, after, actions),
    ensures
        all_sound(actions),
{
    reveal(Modal::takes_mouse);
    reveal_with_fuel(Action::sound, 3);
}

/// Every dialog that a dialog asks for after a paste can be shown.
pub proof fn lemma_pastes_ask_soundly(modal: Modal, text: Seq<char>, after: Modal, actions: Seq<Action>)
    requires
        modal.takes_paste(text, after, actions),
    ensures
        all_sound(actions),
{
    reveal(Modal::takes_paste);
}

} // verus!
