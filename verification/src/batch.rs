//! Staged edits of a fixed selection of skills.

use crate::app::{complain, complains, nothing, only, Action, Hint};
use crate::components::choice_footer::{
    button_rects, draw_with_labels, footer_scene, ChoiceEvent, ChoiceFocus,
};
use crate::geometry::{clamp16, min16, monus, plus16, spec_max, spec_min, Rect};
use crate::keymap::{KeyCode, KeyEvent, KeyModifiers, MouseEvent, MouseKind};
use crate::measure::{display_width, fit, fitted, lower, to_lowercase, width};
use crate::model::{
    AgentDirMode, AgentRecord, LinkAction, LinkRequest, PlannedLink, PresetRecord, Snapshot, Write,
};
use crate::text::{
    ascending, cat2, cat3, cat5, chars_of, clone_all, contains, decimal, ends_with, has_char,
    has_part, has_prefix, has_suffix, insert_sorted, list_holds, numeral, repeat, repeated,
    same_text, starts_with, texts, trim, trimmed,
};
use crate::theme::Theme;
use crate::ui::{
    framed, listed, plain_run, run, shown, Color, Draw, DrawView, Line, Lines, Scene, Span,
    SpanView, Style,
};
use crate::widgets::{
    clamped, empty_input, first_of, input_with, is_multiline, moved, paste_refused, Input,
    InputView, ListNav,
};
use vstd::prelude::*;

verus! {

/// What a batch is about.
#[derive(Debug, Clone, Copy, PartialEq, Eq, Structural)]
pub enum Kind {
    Tags,
    Deploy,
    Presets,
}

/// What the keys go to.
#[derive(Debug, Clone, Copy, PartialEq, Eq, Structural)]
pub enum BatchFocus {
    Input,
    List,
    Apply,
    Cancel,
}

/// A tag, an agent or a preset: how many of the skills it has, and what is wanted.
#[derive(Debug)]
pub struct Row {
    pub id: String,
    pub label: String,
    pub count: usize,
    pub desired: Option<bool>,
}

impl Row {
    /// What is wanted: what was chosen, or else what is.
    pub open spec fn wanted(self, total: int) -> bool {
        match self.desired {
            Some(on) => on,
            None => self.count == total,
        }
    }

    pub fn enabled(&self, total: usize) -> (r: bool)
        ensures
            r == self.wanted(total as int),
    {
        match self.desired {
            Some(on) => on,
            None => self.count == total,
        }
    }

    pub fn toggle(&mut self, total: usize)
        ensures
            *final(self) == (Row { desired: Some(!old(self).wanted(total as int)), ..*old(self) }),
    {
        let on = !self.enabled(total);
        self.desired = Some(on);
    }

    pub open spec fn mark(self, total: int) -> Seq<char> {
        match self.desired {
            Some(true) => "[✓]"@,
            Some(false) => "[ ]"@,
            None => if self.count == total {
                "[✓]"@
            } else if self.count > 0 {
                "[−]"@
            } else {
                "[ ]"@
            },
        }
    }

    pub fn marker(&self, total: usize) -> (r: &'static str)
        ensures
            r@ == self.mark(total as int),
    {
        match self.desired {
            Some(on) => if on {
                "[✓]"
            } else {
                "[ ]"
            },
            None => if self.count == total {
                "[✓]"
            } else if self.count > 0 {
                "[−]"
            } else {
                "[ ]"
            },
        }
    }

    /// What was chosen differs from what is; skills are never taken out of a preset here.
    pub open spec fn changes(self, kind: Kind, total: int) -> bool {
        ||| self.desired == Some(true) && self.count < total
        ||| kind == Kind::Deploy && self.desired == Some(false) && self.count > 0
    }

    fn is_changed(&self, kind: Kind, total: usize) -> (r: bool)
        ensures
            r == self.changes(kind, total as int),
    {
        match self.desired {
            Some(on) => if on {
                self.count < total
            } else {
                kind == Kind::Deploy && self.count > 0
            },
            None => false,
        }
    }
}

/// A tag that all skills have, with its place on the screen.
#[derive(Debug)]
pub struct Chip {
    pub rect: Rect,
    pub name: String,
}

/// What a tag looks like.
#[derive(Debug)]
pub struct TagColor {
    pub name: String,
    pub fill: Color,
}

/// How things are drawn: colours, and the ends of the tags.
#[derive(Debug)]
pub struct Look {
    pub theme: Theme,
    pub left_cap: String,
    pub right_cap: String,
    pub tags: Vec<TagColor>,
}

#[derive(Debug)]
pub struct Batch {
    pub busy: bool,
    pub kind: Kind,
    pub keys: Vec<String>,
    pub rows: Vec<Row>,
    pub input: Input,
    pub focus: BatchFocus,
    pub list: ListNav,
    /// The rows that are shown; one behind the last row offers to create a tag.
    pub shown: Vec<usize>,
    pub rect: Rect,
    pub input_rect: Rect,
    pub apply: Rect,
    pub cancel: Rect,
    pub tag_chips: Vec<Chip>,
    /// The tags that all skills have, in the order in which they came.
    pub selected_tags: Vec<String>,
    pub remove_armed: bool,
    pub error: Option<String>,
}

pub ghost struct ChipView {
    pub rect: Rect,
    pub name: Seq<char>,
}

pub open spec fn chips_view(chips: Seq<Chip>) -> Seq<ChipView> {
    chips.map_values(|c: Chip| ChipView { rect: c.rect, name: c.name@ })
}

pub ghost struct BatchView {
    pub busy: bool,
    pub kind: Kind,
    pub keys: Seq<String>,
    pub rows: Seq<Row>,
    pub input: InputView,
    pub focus: BatchFocus,
    pub list: ListNav,
    pub shown: Seq<usize>,
    pub rect: Rect,
    pub input_rect: Rect,
    pub apply: Rect,
    pub cancel: Rect,
    pub tag_chips: Seq<ChipView>,
    pub selected_tags: Seq<Seq<char>>,
    pub remove_armed: bool,
    pub error: Option<Seq<char>>,
}

impl View for Batch {
    type V = BatchView;

    open spec fn view(&self) -> BatchView {
        BatchView {
            busy: self.busy,
            kind: self.kind,
            keys: self.keys@,
            rows: self.rows@,
            input: self.input@,
            focus: self.focus,
            list: self.list,
            shown: self.shown@,
            rect: self.rect,
            input_rect: self.input_rect,
            apply: self.apply,
            cancel: self.cancel,
            tag_chips: chips_view(self.tag_chips@),
            selected_tags: texts(self.selected_tags@),
            remove_armed: self.remove_armed,
            error: crate::text::said(self.error),
        }
    }
}

// ---- the rows ----------------------------------------------------------------

/// A skill has a tag.
pub open spec fn has_tag(snap: Snapshot, key: Seq<char>, tag: Seq<char>) -> bool {
    match snap.skill_at(key) {
        Some(i) => texts(snap.skills@[i].tags@).contains(tag),
        None => false,
    }
}

/// A skill is deployed to an agent.
pub open spec fn is_deployed(snap: Snapshot, key: Seq<char>, agent: Seq<char>) -> bool {
    match snap.skill_at(key) {
        Some(i) => texts(snap.skills@[i].deployed@).contains(agent),
        None => false,
    }
}

/// How many of some skills have a tag.
pub open spec fn tag_count(snap: Snapshot, keys: Seq<String>, tag: Seq<char>) -> int
    decreases keys.len(),
{
    if keys.len() == 0 {
        0
    } else {
        tag_count(snap, keys.drop_last(), tag) + if has_tag(snap, keys.last()@, tag) {
            1int
        } else {
            0int
        }
    }
}

/// How many of some skills are deployed to an agent.
pub open spec fn agent_count(snap: Snapshot, keys: Seq<String>, agent: Seq<char>) -> int
    decreases keys.len(),
{
    if keys.len() == 0 {
        0
    } else {
        agent_count(snap, keys.drop_last(), agent) + if is_deployed(snap, keys.last()@, agent) {
            1int
        } else {
            0int
        }
    }
}

/// How many of some skills are in a list.
pub open spec fn member_count(keys: Seq<String>, members: Seq<Seq<char>>) -> int
    decreases keys.len(),
{
    if keys.len() == 0 {
        0
    } else {
        member_count(keys.drop_last(), members) + if members.contains(keys.last()@) {
            1int
        } else {
            0int
        }
    }
}

fn count_tag(snap: &Snapshot, keys: &Vec<String>, tag: &str) -> (r: usize)
    ensures
        r == tag_count(*snap, keys@, tag@),
{
    let mut count: usize = 0;
    let mut i: usize = 0;
    assert(keys@.take(0) =~= Seq::empty());
    while i < keys.len()
        invariant
            i <= keys.len(),
            count <= i,
            count == tag_count(*snap, keys@.take(i as int), tag@),
        decreases keys.len() - i,
    {
        assert(keys@.take(i + 1).drop_last() =~= keys@.take(i as int));
        let has = match snap.find(keys[i].as_str()) {
            Some(at) => list_holds(&snap.skills[at].tags, tag),
            None => false,
        };
        if has {
            count = count + 1;
        }
        i = i + 1;
    }
    assert(keys@.take(i as int) =~= keys@);
    count
}

fn count_agent(snap: &Snapshot, keys: &Vec<String>, agent: &str) -> (r: usize)
    ensures
        r == agent_count(*snap, keys@, agent@),
{
    let mut count: usize = 0;
    let mut i: usize = 0;
    assert(keys@.take(0) =~= Seq::empty());
    while i < keys.len()
        invariant
            i <= keys.len(),
            count <= i,
            count == agent_count(*snap, keys@.take(i as int), agent@),
        decreases keys.len() - i,
    {
        assert(keys@.take(i + 1).drop_last() =~= keys@.take(i as int));
        let has = match snap.find(keys[i].as_str()) {
            Some(at) => list_holds(&snap.skills[at].deployed, agent),
            None => false,
        };
        if has {
            count = count + 1;
        }
        i = i + 1;
    }
    assert(keys@.take(i as int) =~= keys@);
    count
}

fn count_members(keys: &Vec<String>, members: &Vec<String>) -> (r: usize)
    ensures
        r == member_count(keys@, texts(members@)),
{
    let mut count: usize = 0;
    let mut i: usize = 0;
    assert(keys@.take(0) =~= Seq::empty());
    while i < keys.len()
        invariant
            i <= keys.len(),
            count <= i,
            count == member_count(keys@.take(i as int), texts(members@)),
        decreases keys.len() - i,
    {
        assert(keys@.take(i + 1).drop_last() =~= keys@.take(i as int));
        if list_holds(members, keys[i].as_str()) {
            count = count + 1;
        }
        i = i + 1;
    }
    assert(keys@.take(i as int) =~= keys@);
    count
}

/// A tag that some skill has, or that is configured.
pub open spec fn is_tag(snap: Snapshot, tag: Seq<char>) -> bool {
    ||| texts(snap.tags@).contains(tag)
    ||| exists|i: int|
        0 <= i < snap.skills@.len() && texts((#[trigger] snap.skills@[i]).tags@).contains(tag)
}

fn add_all(names: &mut Vec<String>, more: &Vec<String>)
    requires
        ascending(texts(old(names)@)),
    ensures
        ascending(texts(final(names)@)),
        forall|t: Seq<char>| #[trigger]
            texts(final(names)@).contains(t) <==> texts(old(names)@).contains(t) || texts(
                more@,
            ).contains(t),
{
    let ghost start = texts(names@);
    let ghost all = texts(more@);
    let mut i: usize = 0;
    while i < more.len()
        invariant
            i <= more.len(),
            all == texts(more@),
            ascending(texts(names@)),
            forall|t: Seq<char>| #[trigger]
                texts(names@).contains(t) <==> start.contains(t) || exists|k: int|
                    0 <= k < i && #[trigger] all[k] == t,
        decreases more.len() - i,
    {
        let ghost before = texts(names@);
        assert(all[i as int] == more@[i as int]@);
        insert_sorted(names, more[i].clone());
        proof {
            assert forall|t: Seq<char>| #[trigger]
                texts(names@).contains(t) <==> start.contains(t) || exists|k: int|
                    0 <= k < i + 1 && #[trigger] all[k] == t by {
                assert(texts(names@).contains(t) <==> before.contains(t) || t == all[i as int]);
                if exists|k: int| 0 <= k < i + 1 && #[trigger] all[k] == t {
                    let k = choose|k: int| 0 <= k < i + 1 && #[trigger] all[k] == t;
                    if k < i {
                        assert(before.contains(t));
                    }
                }
            }
        }
        i = i + 1;
    }
    proof {
        assert forall|t: Seq<char>| #[trigger]
            texts(names@).contains(t) <==> start.contains(t) || all.contains(t) by {
            if all.contains(t) {
                let k = choose|k: int| 0 <= k < all.len() && all[k] == t;
                assert(all[k] == t);
            }
        }
    }
}

/// All tags, in order.
fn tag_names(snap: &Snapshot) -> (r: Vec<String>)
    ensures
        ascending(texts(r@)),
        forall|t: Seq<char>| #[trigger] texts(r@).contains(t) <==> is_tag(*snap, t),
{
    let mut names: Vec<String> = Vec::new();
    let mut i: usize = 0;
    while i < snap.skills.len()
        invariant
            i <= snap.skills.len(),
            ascending(texts(names@)),
            forall|t: Seq<char>| #[trigger]
                texts(names@).contains(t) <==> exists|k: int|
                    0 <= k < i && texts((#[trigger] snap.skills@[k]).tags@).contains(t),
        decreases snap.skills.len() - i,
    {
        let ghost before = texts(names@);
        add_all(&mut names, &snap.skills[i].tags);
        proof {
            assert forall|t: Seq<char>| #[trigger]
                texts(names@).contains(t) <==> exists|k: int|
                    0 <= k < i + 1 && texts((#[trigger] snap.skills@[k]).tags@).contains(t) by {
                assert(texts(names@).contains(t) <==> before.contains(t) || texts(
                    snap.skills@[i as int].tags@,
                ).contains(t));
                if exists|k: int|
                    0 <= k < i + 1 && texts((#[trigger] snap.skills@[k]).tags@).contains(t) {
                    let k = choose|k: int|
                        0 <= k < i + 1 && texts((#[trigger] snap.skills@[k]).tags@).contains(t);
                    if k < i {
                        assert(before.contains(t));
                    }
                }
            }
        }
        i = i + 1;
    }
    add_all(&mut names, &snap.tags);
    names
}

/// The identities of rows.
pub open spec fn row_ids(rows: Seq<Row>) -> Seq<Seq<char>> {
    rows.map_values(|r: Row| r.id@)
}

/// Every row says how many of the skills have its tag, and nothing is chosen.
pub open spec fn counts_tags(snap: Snapshot, keys: Seq<String>, rows: Seq<Row>) -> bool {
    forall|i: int|
        0 <= i < rows.len() ==> {
            &&& (#[trigger] rows[i]).label == rows[i].id
            &&& rows[i].count == tag_count(snap, keys, rows[i].id@)
            &&& rows[i].desired is None
        }
}

/// The rows of all tags: in order, each once.
pub open spec fn are_tag_rows(snap: Snapshot, keys: Seq<String>, rows: Seq<Row>) -> bool {
    &&& ascending(row_ids(rows))
    &&& forall|t: Seq<char>| #[trigger] row_ids(rows).contains(t) <==> is_tag(snap, t)
    &&& counts_tags(snap, keys, rows)
}

fn tag_rows(keys: &Vec<String>, snap: &Snapshot) -> (r: Vec<Row>)
    ensures
        are_tag_rows(*snap, keys@, r@),
{
    let names = tag_names(snap);
    let mut rows: Vec<Row> = Vec::new();
    let mut i: usize = 0;
    while i < names.len()
        invariant
            i <= names.len(),
            rows@.len() == i,
            row_ids(rows@) == texts(names@).take(i as int),
            counts_tags(*snap, keys@, rows@),
        decreases names.len() - i,
    {
        let id = names[i].clone();
        let count = count_tag(snap, keys, id.as_str());
        let row = Row { label: id.clone(), id, count, desired: None };
        assert(row_ids(rows@.push(row)) =~= texts(names@).take(i + 1));
        rows.push(row);
        i = i + 1;
    }
    assert(texts(names@).take(i as int) =~= texts(names@));
    rows
}

/// The row of an agent.
pub open spec fn agent_row(snap: Snapshot, keys: Seq<String>, agent: AgentRecord, row: Row) -> bool {
    &&& row.id == agent.key
    &&& row.label == agent.name
    &&& row.count == agent_count(snap, keys, agent.key@)
    &&& row.desired is None
}

/// The row of a preset.
pub open spec fn preset_row(keys: Seq<String>, preset: PresetRecord, row: Row) -> bool {
    &&& row.id == preset.name
    &&& row.label == preset.name
    &&& row.count == member_count(keys, texts(preset.members@))
    &&& row.desired is None
}

fn agent_rows(keys: &Vec<String>, snap: &Snapshot) -> (r: Vec<Row>)
    ensures
        r@.len() == snap.agents@.len(),
        forall|i: int|
            0 <= i < r@.len() ==> agent_row(*snap, keys@, snap.agents@[i], #[trigger] r@[i]),
{
    let mut rows: Vec<Row> = Vec::new();
    let mut i: usize = 0;
    while i < snap.agents.len()
        invariant
            i <= snap.agents.len(),
            rows@.len() == i,
            forall|k: int|
                0 <= k < i ==> agent_row(*snap, keys@, snap.agents@[k], #[trigger] rows@[k]),
        decreases snap.agents.len() - i,
    {
        let agent = &snap.agents[i];
        let count = count_agent(snap, keys, agent.key.as_str());
        rows.push(
            Row { id: agent.key.clone(), label: agent.name.clone(), count, desired: None },
        );
        i = i + 1;
    }
    rows
}

fn preset_rows(keys: &Vec<String>, snap: &Snapshot) -> (r: Vec<Row>)
    ensures
        r@.len() == snap.presets@.len(),
        forall|i: int|
            0 <= i < r@.len() ==> preset_row(keys@, snap.presets@[i], #[trigger] r@[i]),
{
    let mut rows: Vec<Row> = Vec::new();
    let mut i: usize = 0;
    while i < snap.presets.len()
        invariant
            i <= snap.presets.len(),
            rows@.len() == i,
            forall|k: int| 0 <= k < i ==> preset_row(keys@, snap.presets@[k], #[trigger] rows@[k]),
        decreases snap.presets.len() - i,
    {
        let preset = &snap.presets[i];
        let count = count_members(keys, &preset.members);
        rows.push(
            Row { id: preset.name.clone(), label: preset.name.clone(), count, desired: None },
        );
        i = i + 1;
    }
    rows
}

/// The rows of one agent.
pub open spec fn rows_of(rows: Seq<Row>, id: Seq<char>) -> Seq<Row>
    decreases rows.len(),
{
    if rows.len() == 0 {
        Seq::empty()
    } else if rows.last().id@ == id {
        rows_of(rows.drop_last(), id).push(rows.last())
    } else {
        rows_of(rows.drop_last(), id)
    }
}

impl Clone for Row {
    fn clone(&self) -> (r: Row)
        ensures
            r == *self,
    {
        Row {
            id: self.id.clone(),
            label: self.label.clone(),
            count: self.count,
            desired: self.desired,
        }
    }
}

fn take_rows(rows: &Vec<Row>, id: &str) -> (r: Vec<Row>)
    ensures
        r@ == rows_of(rows@, id@),
{
    let mut out: Vec<Row> = Vec::new();
    let mut i: usize = 0;
    assert(rows@.take(0) =~= Seq::empty());
    while i < rows.len()
        invariant
            i <= rows.len(),
            out@ == rows_of(rows@.take(i as int), id@),
        decreases rows.len() - i,
    {
        assert(rows@.take(i + 1).drop_last() =~= rows@.take(i as int));
        if same_text(rows[i].id.as_str(), id) {
            out.push(rows[i].clone());
        }
        i = i + 1;
    }
    assert(rows@.take(i as int) =~= rows@);
    out
}

// ---- the filter --------------------------------------------------------------

/// A row is shown: its label holds what was typed. A tag that all skills have is shown
/// only where something was typed.
pub open spec fn is_listed(row: Row, query: Seq<char>, kind: Kind, total: int) -> bool {
    has_part(lower(row.label@), query) && (kind != Kind::Tags || row.count != total || query.len()
        > 0)
}

/// The first rows that are shown.
pub open spec fn listed_rows(rows: Seq<Row>, query: Seq<char>, kind: Kind, total: int, n: int) -> Seq<usize>
    decreases n,
{
    if n <= 0 {
        Seq::empty()
    } else if is_listed(rows[n - 1], query, kind, total) {
        listed_rows(rows, query, kind, total, n - 1).push((n - 1) as usize)
    } else {
        listed_rows(rows, query, kind, total, n - 1)
    }
}

/// No row is what was typed: a tag can be created.
pub open spec fn can_create(rows: Seq<Row>, query: Seq<char>, kind: Kind) -> bool {
    &&& kind == Kind::Tags
    &&& query.len() > 0
    &&& forall|i: int| 0 <= i < rows.len() ==> lower((#[trigger] rows[i]).id@) != query
}

/// The rows that are shown, and behind them the offer to create a tag.
pub open spec fn filtered(rows: Seq<Row>, query: Seq<char>, kind: Kind, total: int) -> Seq<usize> {
    let found = listed_rows(rows, query, kind, total, rows.len() as int);
    if can_create(rows, query, kind) {
        found.push(rows.len() as usize)
    } else {
        found
    }
}

fn filter_rows(rows: &Vec<Row>, query: &str, kind: Kind, total: usize) -> (r: Vec<usize>)
    ensures
        r@ == filtered(rows@, query@, kind, total as int),
{
    let typed = chars_of(query).len() > 0;
    let mut found: Vec<usize> = Vec::new();
    let mut known = false;
    let mut i: usize = 0;
    while i < rows.len()
        invariant
            i <= rows.len(),
            typed == (query@.len() > 0),
            found@ == listed_rows(rows@, query@, kind, total as int, i as int),
            known == exists|k: int| 0 <= k < i && lower((#[trigger] rows@[k]).id@) == query@,
        decreases rows.len() - i,
    {
        let label = to_lowercase(rows[i].label.as_str());
        if contains(label.as_str(), query) && (kind != Kind::Tags || rows[i].count != total
            || typed) {
            found.push(i);
        }
        let id = to_lowercase(rows[i].id.as_str());
        if same_text(id.as_str(), query) {
            assert(lower(rows@[i as int].id@) == query@);
            known = true;
        }
        i = i + 1;
    }
    if kind == Kind::Tags && typed && !known {
        found.push(rows.len());
    }
    found
}

// ---- the dialog --------------------------------------------------------------

/// What the dialog asks of the application.
pub ghost enum BatchReply {
    Nothing,
    Close,
    Complain(Seq<char>),
    EditTag { name: Seq<char>, add: bool },
    AddToPresets(Seq<Seq<char>>),
    Plan(Seq<LinkRequest>),
}

impl BatchReply {
    pub open spec fn told(self, keys: Seq<String>, actions: Seq<Action>) -> bool {
        match self {
            BatchReply::Nothing => actions.len() == 0,
            BatchReply::Close => actions == seq![Action::CloseModal],
            BatchReply::Complain(text) => complains(actions, text),
            BatchReply::EditTag { name, add } => actions.len() == 1 && (actions[0] matches Action::WriteMeta(
                Write::EditTag { name: n, keys: k, add: a },
            ) && n@ == name && k@ == keys && a == add),
            BatchReply::AddToPresets(names) => actions.len() == 1 && (actions[0] matches Action::BatchMeta(
                Write::AddToPresets { names: n, keys: k },
                about,
            ) && texts(n@) == names && k@ == keys && about@ == keys),
            BatchReply::Plan(changes) => actions.len() == 1 && (actions[0] matches Action::PlanDeployment {
                keys: k,
                changes: c,
            } && k@ == keys && c@ == changes),
        }
    }
}

/// The rows that were chosen or given up.
pub open spec fn requests(rows: Seq<Row>) -> Seq<LinkRequest>
    decreases rows.len(),
{
    if rows.len() == 0 {
        Seq::empty()
    } else {
        match rows.last().desired {
            Some(on) => requests(rows.drop_last()).push(
                LinkRequest { agent: rows.last().id, on },
            ),
            None => requests(rows.drop_last()),
        }
    }
}

/// The rows that were chosen.
pub open spec fn chosen_ids(rows: Seq<Row>) -> Seq<Seq<char>>
    decreases rows.len(),
{
    if rows.len() == 0 {
        Seq::empty()
    } else if rows.last().desired == Some(true) {
        chosen_ids(rows.drop_last()).push(rows.last().id@)
    } else {
        chosen_ids(rows.drop_last())
    }
}

/// How many rows would change.
pub open spec fn changed_count(rows: Seq<Row>, kind: Kind, total: int) -> int
    decreases rows.len(),
{
    if rows.len() == 0 {
        0
    } else {
        changed_count(rows.drop_last(), kind, total) + if rows.last().changes(kind, total) {
            1int
        } else {
            0int
        }
    }
}

impl BatchFocus {
    /// The focus of the list and its buttons.
    pub open spec fn choice(self) -> ChoiceFocus {
        match self {
            BatchFocus::Apply => ChoiceFocus::Apply,
            BatchFocus::Cancel => ChoiceFocus::Cancel,
            _ => ChoiceFocus::List,
        }
    }

    fn as_choice(self) -> (r: ChoiceFocus)
        ensures
            r == self.choice(),
    {
        match self {
            BatchFocus::Apply => ChoiceFocus::Apply,
            BatchFocus::Cancel => ChoiceFocus::Cancel,
            _ => ChoiceFocus::List,
        }
    }
}

pub open spec fn focus_of(choice: ChoiceFocus) -> BatchFocus {
    match choice {
        ChoiceFocus::List => BatchFocus::List,
        ChoiceFocus::Apply => BatchFocus::Apply,
        ChoiceFocus::Cancel => BatchFocus::Cancel,
    }
}

fn from_choice(choice: ChoiceFocus) -> (r: BatchFocus)
    ensures
        r == focus_of(choice),
{
    match choice {
        ChoiceFocus::List => BatchFocus::List,
        ChoiceFocus::Apply => BatchFocus::Apply,
        ChoiceFocus::Cancel => BatchFocus::Cancel,
    }
}

impl BatchView {
    /// The rows that are shown exist; only tags can be created.
    pub open spec fn valid(self) -> bool {
        &&& self.input.valid()
        &&& forall|i: int|
            0 <= i < self.shown.len() ==> #[trigger] self.shown[i] <= self.rows.len() && (
            self.shown[i] == self.rows.len() ==> self.kind == Kind::Tags)
    }

    pub open spec fn total(self) -> int {
        self.keys.len() as int
    }

    pub open spec fn query(self) -> Seq<char> {
        lower(trimmed(self.input.text))
    }

    /// The row that is selected; one behind the last where a tag would be created.
    pub open spec fn at(self) -> Option<int> {
        match self.list.selected {
            Some(i) => if i < self.shown.len() {
                Some(self.shown[i as int] as int)
            } else {
                None
            },
            None => None,
        }
    }

    /// The selected row, where it is one.
    pub open spec fn selected_row(self) -> Option<Row> {
        match self.at() {
            Some(i) => if i < self.rows.len() {
                Some(self.rows[i])
            } else {
                None
            },
            None => None,
        }
    }

    /// All skills have the selected tag.
    pub open spec fn selects_shared(self) -> bool {
        self.selected_row() is Some && self.selected_row()->0.count == self.total()
    }

    pub open spec fn refiltered(self) -> BatchView {
        let shown = filtered(self.rows, self.query(), self.kind, self.total());
        BatchView {
            shown,
            list: ListNav { selected: first_of(shown.len() as int), ..self.list },
            ..self
        }
    }

    pub open spec fn with_input(self, input: InputView) -> BatchView {
        BatchView { input, ..self }.refiltered()
    }

    pub open spec fn with_focus(self, focus: BatchFocus) -> BatchView {
        BatchView { focus, ..self }
    }

    pub open spec fn with_selected(self, selected: Option<usize>) -> BatchView {
        BatchView { list: ListNav { selected, ..self.list }, ..self }
    }

    pub open spec fn pending(self) -> int {
        changed_count(self.rows, self.kind, self.total())
    }

    /// The selected row is chosen or given up.
    pub open spec fn toggled(self) -> BatchView {
        match self.at() {
            Some(i) => if i < self.rows.len() {
                if self.kind == Kind::Presets && self.rows[i].count == self.total() {
                    self
                } else {
                    BatchView {
                        rows: self.rows.update(
                            i,
                            Row {
                                desired: Some(!self.rows[i].wanted(self.total())),
                                ..self.rows[i]
                            },
                        ),
                        error: None,
                        ..self
                    }
                }
            } else {
                self
            },
            None => self,
        }
    }

    /// A tag is put on the skills or taken from them.
    pub open spec fn editing(self, name: Seq<char>, add: bool) -> (BatchView, BatchReply) {
        (self.with_input(empty_input()), BatchReply::EditTag { name, add })
    }

    /// The selected tag is put on the skills, or taken from them where all have it.
    pub open spec fn editing_selected(self) -> (BatchView, BatchReply) {
        match self.at() {
            Some(i) => if i < self.rows.len() {
                self.editing(self.rows[i].id@, self.rows[i].count != self.total())
            } else {
                self.editing(trimmed(self.input.text), true)
            },
            None => (self, BatchReply::Nothing),
        }
    }

    /// What was chosen is to be done.
    pub open spec fn applied(self) -> (BatchView, BatchReply) {
        if self.kind != Kind::Tags && self.pending() == 0 {
            (self, BatchReply::Nothing)
        } else if self.keys.len() == 0 {
            (
                BatchView { error: Some("No skills selected."@), ..self },
                BatchReply::Nothing,
            )
        } else {
            match self.kind {
                Kind::Deploy => (self, BatchReply::Plan(requests(self.rows))),
                Kind::Tags => self.editing_selected(),
                Kind::Presets => (self, BatchReply::AddToPresets(chosen_ids(self.rows))),
            }
        }
    }

    pub open spec fn at_end(self) -> bool {
        self.shown.len() == 0 || (self.list.selected is Some && self.list.selected->0
            == self.shown.len() - 1)
    }

    /// The text is edited.
    pub open spec fn typed(self, key: KeyEvent) -> BatchView {
        let after = BatchView { input: self.input.keyed(key), ..self };
        if self.input.edits(key) {
            after.refiltered()
        } else {
            after
        }
    }

    /// A key in the dialog of the tags.
    pub open spec fn tag_keyed(self, key: KeyEvent) -> (BatchView, BatchReply) {
        let calm = if key.code == KeyCode::Backspace {
            self
        } else {
            BatchView { remove_armed: false, ..self }
        };
        let n = calm.shown.len() as int;
        match key.code {
            KeyCode::Down => (
                calm.with_selected(moved(calm.list.selected, 1, n)),
                BatchReply::Nothing,
            ),
            KeyCode::Up => (
                calm.with_selected(moved(calm.list.selected, -1, n)),
                BatchReply::Nothing,
            ),
            KeyCode::Enter => calm.editing_selected(),
            KeyCode::Backspace => if calm.input.text.len() == 0 {
                if calm.selected_tags.len() == 0 {
                    (calm, BatchReply::Nothing)
                } else if calm.remove_armed {
                    BatchView { remove_armed: false, ..calm }.editing(
                        calm.selected_tags.last(),
                        false,
                    )
                } else {
                    (BatchView { remove_armed: true, ..calm }, BatchReply::Nothing)
                }
            } else {
                (calm.typed(key), BatchReply::Nothing)
            },
            KeyCode::Tab => match calm.selected_row() {
                Some(row) => (calm.with_input(input_with(row.id@)), BatchReply::Nothing),
                None => (calm, BatchReply::Nothing),
            },
            _ => (calm.typed(key), BatchReply::Nothing),
        }
    }

    /// A key that is not one of the buttons'.
    pub open spec fn plain_keyed(self, key: KeyEvent) -> (BatchView, BatchReply) {
        let n = self.shown.len() as int;
        let to_list = self.with_focus(BatchFocus::List).with_selected(
            clamped(self.list.selected, n),
        );
        if key.code == KeyCode::Enter && key.modifiers.control {
            self.applied()
        } else {
            match key.code {
                KeyCode::Down => match self.focus {
                    BatchFocus::Input => (to_list, BatchReply::Nothing),
                    BatchFocus::List => (
                        self.with_selected(moved(self.list.selected, 1, n)),
                        BatchReply::Nothing,
                    ),
                    _ => (self, BatchReply::Nothing),
                },
                KeyCode::Up => match self.focus {
                    BatchFocus::List => if self.list.selected == Some(0usize) {
                        (self.with_focus(BatchFocus::Input), BatchReply::Nothing)
                    } else {
                        (
                            self.with_selected(moved(self.list.selected, -1, n)),
                            BatchReply::Nothing,
                        )
                    },
                    BatchFocus::Input => (self.typed(key), BatchReply::Nothing),
                    _ => (self, BatchReply::Nothing),
                },
                KeyCode::Enter => match self.focus {
                    BatchFocus::Apply => self.applied(),
                    BatchFocus::Cancel => (self, BatchReply::Close),
                    BatchFocus::List => (self.toggled(), BatchReply::Nothing),
                    BatchFocus::Input => (to_list, BatchReply::Nothing),
                },
                _ => if self.focus == BatchFocus::Input {
                    (self.typed(key), BatchReply::Nothing)
                } else if key.code == KeyCode::Char('/') {
                    (self.with_focus(BatchFocus::Input), BatchReply::Nothing)
                } else if key.code == KeyCode::Char(' ') && self.focus == BatchFocus::List {
                    (self.toggled(), BatchReply::Nothing)
                } else {
                    (self, BatchReply::Nothing)
                },
            }
        }
    }

    /// A key on the list or a button.
    pub open spec fn choice_keyed(self, key: KeyEvent) -> (BatchView, BatchReply) {
        match self.focus.choice().pressed(key.code, self.at_end()) {
            Some((choice, event)) => {
                let after = self.with_focus(focus_of(choice));
                match event {
                    ChoiceEvent::Apply => if after.pending() > 0 {
                        after.applied()
                    } else {
                        (after, BatchReply::Nothing)
                    },
                    ChoiceEvent::Cancel => (after, BatchReply::Close),
                    ChoiceEvent::Moved => (after, BatchReply::Nothing),
                }
            },
            None => self.plain_keyed(key),
        }
    }

    /// What a key does.
    pub open spec fn keyed(self, key: KeyEvent) -> (BatchView, BatchReply) {
        let tags = self.kind == Kind::Tags;
        if !tags && self.focus == BatchFocus::Input && key.code == KeyCode::Esc {
            if self.input.text.len() == 0 {
                (self.with_focus(BatchFocus::List), BatchReply::Nothing)
            } else {
                (self.with_input(empty_input()), BatchReply::Nothing)
            }
        } else if key.code == KeyCode::Esc || (!tags && self.focus != BatchFocus::Input && key.code
            == KeyCode::Char('q') && key.modifiers == KeyModifiers::none()) {
            (self, BatchReply::Close)
        } else if tags {
            self.tag_keyed(key)
        } else if self.focus == BatchFocus::Input && key.code == KeyCode::Tab {
            (self.with_focus(BatchFocus::Apply), BatchReply::Nothing)
        } else if self.focus == BatchFocus::Input && key.code == KeyCode::BackTab {
            (self.with_focus(BatchFocus::Cancel), BatchReply::Nothing)
        } else if self.focus != BatchFocus::Input {
            self.choice_keyed(key)
        } else {
            self.plain_keyed(key)
        }
    }

    /// What a paste does.
    pub open spec fn pasted(self, text: Seq<char>) -> (BatchView, BatchReply) {
        let calm = BatchView { remove_armed: false, ..self };
        if self.focus != BatchFocus::Input {
            (calm, BatchReply::Nothing)
        } else if is_multiline(text) {
            (calm, BatchReply::Complain(paste_refused()))
        } else if text.len() > 0 {
            (calm.with_input(calm.input.with_pasted(text)), BatchReply::Nothing)
        } else {
            (
                BatchView { input: calm.input.with_pasted(text), ..calm },
                BatchReply::Nothing,
            )
        }
    }

    /// The first tag at a place of the screen.
    pub open spec fn chip_from(self, x: int, y: int, at: int) -> Option<int>
        decreases self.tag_chips.len() - at,
    {
        if at < 0 || at >= self.tag_chips.len() {
            None
        } else if self.tag_chips[at].rect.has(x, y) {
            Some(at)
        } else {
            self.chip_from(x, y, at + 1)
        }
    }

    /// A press in the dialog of the tags. Only the sign at the end of a tag removes it;
    /// `cap` is the width of the end itself.
    pub open spec fn tag_pressed(self, event: MouseEvent, cap: int) -> (BatchView, BatchReply) {
        let x = event.column as int;
        let y = event.row as int;
        if !self.rect.has(x, y) {
            (self, BatchReply::Close)
        } else {
            match self.chip_from(x, y, 0) {
                Some(i) => if x == monus(self.tag_chips[i].rect.end_x(), plus16(cap, 2)) {
                    self.editing(self.tag_chips[i].name, false)
                } else {
                    (self, BatchReply::Nothing)
                },
                None => {
                    let after = if self.input_rect.has(x, y) {
                        BatchView { input: self.input.clicked(x), ..self }
                    } else {
                        self
                    };
                    if after.list.rows.has(x, y) {
                        match after.list.hit(y, after.shown.len() as int) {
                            Some(at) => after.with_selected(Some(at)).editing_selected(),
                            None => (after, BatchReply::Nothing),
                        }
                    } else {
                        (after, BatchReply::Nothing)
                    }
                },
            }
        }
    }

    /// A press in one of the other dialogs.
    pub open spec fn pressed(self, event: MouseEvent) -> (BatchView, BatchReply) {
        let x = event.column as int;
        let y = event.row as int;
        if !self.rect.has(x, y) || self.cancel.has(x, y) {
            (self, BatchReply::Close)
        } else if self.apply.has(x, y) {
            self.with_focus(BatchFocus::Apply).applied()
        } else if self.input_rect.has(x, y) {
            (
                BatchView {
                    input: self.input.clicked(x),
                    focus: BatchFocus::Input,
                    ..self
                },
                BatchReply::Nothing,
            )
        } else if self.list.rows.has(x, y) {
            match self.list.hit(y, self.shown.len() as int) {
                Some(at) => (
                    self.with_selected(Some(at)).with_focus(BatchFocus::List).toggled(),
                    BatchReply::Nothing,
                ),
                None => (self, BatchReply::Nothing),
            }
        } else {
            (self, BatchReply::Nothing)
        }
    }

    /// What the mouse does.
    pub open spec fn moused(self, event: MouseEvent, cap: int) -> (BatchView, BatchReply) {
        let calm = BatchView { remove_armed: false, ..self };
        let tags = self.kind == Kind::Tags;
        let n = self.shown.len() as int;
        let over = self.list.rows.has(event.column as int, event.row as int);
        let listing = if tags {
            calm
        } else {
            calm.with_focus(BatchFocus::List)
        };
        match event.kind {
            MouseKind::Down => if tags {
                calm.tag_pressed(event, cap)
            } else {
                calm.pressed(event)
            },
            MouseKind::ScrollDown => if tags || over {
                (
                    listing.with_selected(moved(self.list.selected, 1, n)),
                    BatchReply::Nothing,
                )
            } else {
                (calm, BatchReply::Nothing)
            },
            MouseKind::ScrollUp => if tags || over {
                (
                    listing.with_selected(moved(self.list.selected, -1, n)),
                    BatchReply::Nothing,
                )
            } else {
                (calm, BatchReply::Nothing)
            },
            _ => (calm, BatchReply::Nothing),
        }
    }

    pub open spec fn hint_list(self) -> Seq<Hint> {
        if self.busy {
            seq![("…", "applying changes")]
        } else if self.kind == Kind::Tags {
            seq![
                (
                    "Enter",
                    if self.selects_shared() {
                        "remove"
                    } else {
                        "add / create"
                    },
                ),
                ("↑↓", "choose"),
                ("Tab", "complete"),
                ("Backspace", "select last · again removes"),
                ("Esc", "done"),
            ]
        } else if self.focus == BatchFocus::Input {
            seq![
                ("type", "filter"),
                ("↓", "list"),
                ("Enter", "results"),
                ("Tab/Shift+Tab", "list / buttons"),
                ("Esc", "cancel"),
            ]
        } else {
            seq![
                ("↑↓", "move"),
                ("Space", "toggle"),
                ("←→", "controls"),
                ("Tab/Shift+Tab", "list / buttons"),
                ("Esc", "cancel"),
            ]
        }
    }
}

/// A dialog with these rows, all of them shown and none selected.
pub open spec fn fresh(kind: Kind, keys: Seq<String>, rows: Seq<Row>) -> BatchView {
    BatchView {
        busy: false,
        kind,
        keys,
        rows,
        input: empty_input(),
        focus: BatchFocus::Input,
        list: ListNav::empty(),
        shown: Seq::new(rows.len(), |i: int| i as usize),
        rect: Rect::zero(),
        input_rect: Rect::zero(),
        apply: Rect::zero(),
        cancel: Rect::zero(),
        tag_chips: Seq::empty(),
        selected_tags: Seq::empty(),
        remove_armed: false,
        error: None,
    }
}

proof fn lemma_listed_bounds(rows: Seq<Row>, query: Seq<char>, kind: Kind, total: int, n: int)
    requires
        0 <= n <= rows.len() <= usize::MAX,
    ensures
        forall|i: int|
            0 <= i < listed_rows(rows, query, kind, total, n).len() ==> #[trigger] listed_rows(
                rows,
                query,
                kind,
                total,
                n,
            )[i] < n,
    decreases n,
{
    if n > 0 {
        lemma_listed_bounds(rows, query, kind, total, n - 1);
        let before = listed_rows(rows, query, kind, total, n - 1);
        let got = listed_rows(rows, query, kind, total, n);
        assert forall|i: int| 0 <= i < got.len() implies #[trigger] got[i] < n by {
            if i < before.len() {
                assert(got[i] == before[i]);
            }
        }
    }
}

/// A deployment to one agent: of the rows of all agents, those of this one.
pub open spec fn is_agent_batch(
    view: BatchView,
    snap: Snapshot,
    keys: Seq<String>,
    agent: Seq<char>,
) -> bool {
    exists|all: Seq<Row>|
        #![trigger rows_of(all, agent)]
        all.len() == snap.agents@.len() && (forall|i: int|
            0 <= i < all.len() ==> agent_row(snap, keys, snap.agents@[i], #[trigger] all[i])) && view
            == fresh(Kind::Deploy, keys, rows_of(all, agent)).refiltered()
}

impl Batch {
    fn new(kind: Kind, keys: Vec<String>, rows: Vec<Row>) -> (r: Batch)
        ensures
            r@ == fresh(kind, keys@, rows@),
            r@.valid(),
    {
        let mut shown: Vec<usize> = Vec::new();
        let mut i: usize = 0;
        while i < rows.len()
            invariant
                i <= rows.len(),
                shown@.len() == i,
                forall|k: int| 0 <= k < i ==> #[trigger] shown@[k] == k,
            decreases rows.len() - i,
        {
            shown.push(i);
            i = i + 1;
        }
        let batch = Batch {
            busy: false,
            kind,
            keys,
            rows,
            input: Input::empty(),
            focus: BatchFocus::Input,
            list: ListNav::empty(),
            shown,
            rect: Rect::zero(),
            input_rect: Rect::zero(),
            apply: Rect::zero(),
            cancel: Rect::zero(),
            tag_chips: Vec::new(),
            selected_tags: Vec::new(),
            remove_armed: false,
            error: None,
        };
        assert(batch@.shown =~= fresh(kind, keys@, rows@).shown);
        assert(batch@.tag_chips =~= Seq::empty());
        assert(batch@.selected_tags =~= Seq::empty());
        batch
    }

    /// The dialog that puts tags on skills.
    pub fn tags(keys: Vec<String>, snap: &Snapshot) -> (r: Batch)
        ensures
            are_tag_rows(*snap, keys@, r@.rows),
            r@ == fresh(Kind::Tags, keys@, r@.rows).refiltered(),
            r@.valid(),
    {
        let rows = tag_rows(&keys, snap);
        let mut batch = Batch::new(Kind::Tags, keys, rows);
        batch.filter();
        batch
    }

    /// The dialog that deploys skills to agents.
    pub fn deploy(keys: Vec<String>, snap: &Snapshot) -> (r: Batch)
        ensures
            r@.rows.len() == snap.agents@.len(),
            forall|i: int|
                0 <= i < r@.rows.len() ==> agent_row(
                    *snap,
                    keys@,
                    snap.agents@[i],
                    #[trigger] r@.rows[i],
                ),
            r@ == fresh(Kind::Deploy, keys@, r@.rows),
            r@.valid(),
    {
        let rows = agent_rows(&keys, snap);
        Batch::new(Kind::Deploy, keys, rows)
    }

    /// The dialog that adds skills to presets.
    pub fn presets(keys: Vec<String>, snap: &Snapshot) -> (r: Batch)
        ensures
            r@.rows.len() == snap.presets@.len(),
            forall|i: int|
                0 <= i < r@.rows.len() ==> preset_row(
                    keys@,
                    snap.presets@[i],
                    #[trigger] r@.rows[i],
                ),
            r@ == fresh(Kind::Presets, keys@, r@.rows),
            r@.valid(),
    {
        let rows = preset_rows(&keys, snap);
        Batch::new(Kind::Presets, keys, rows)
    }

    /// The dialog that deploys skills to one agent.
    pub fn deploy_agent(keys: Vec<String>, agent: &str, snap: &Snapshot) -> (r: Batch)
        ensures
            is_agent_batch(r@, *snap, keys@, agent@),
            r@.valid(),
    {
        let all = agent_rows(&keys, snap);
        let rows = take_rows(&all, agent);
        assert(rows@ == rows_of(all@, agent@));
        let mut batch = Batch::new(Kind::Deploy, keys, rows);
        batch.filter();
        batch
    }

    pub fn set_busy(&mut self, busy: bool)
        requires
            old(self)@.valid(),
        ensures
            final(self)@ == (BatchView { busy, ..old(self)@ }),
            final(self)@.valid(),
    {
        self.busy = busy;
    }

    /// Shows the rows that hold what was typed.
    pub fn filter(&mut self)
        requires
            old(self)@.input.valid(),
        ensures
            final(self)@ == old(self)@.refiltered(),
            final(self)@.valid(),
    {
        let query = to_lowercase(trim(self.input.value().as_str()).as_str());
        self.shown = filter_rows(&self.rows, query.as_str(), self.kind, self.keys.len());
        self.list.first(self.shown.len());
        proof {
            let n = self.rows.len();
            lemma_listed_bounds(
                self.rows@,
                query@,
                self.kind,
                self.keys@.len() as int,
                self.rows@.len() as int,
            );
            let found = listed_rows(
                self.rows@,
                query@,
                self.kind,
                self.keys@.len() as int,
                self.rows@.len() as int,
            );
            assert forall|i: int| 0 <= i < self@.shown.len() implies #[trigger] self@.shown[i]
                <= self@.rows.len() && (self@.shown[i] == self@.rows.len() ==> self@.kind
                == Kind::Tags) by {
                if i < found.len() {
                    assert(self@.shown[i] == found[i]);
                }
            }
        }
    }

    fn selected_at(&self) -> (r: Option<usize>)
        ensures
            match r {
                Some(i) => self@.at() == Some(i as int),
                None => self@.at() is None,
            },
    {
        match self.list.selected {
            Some(i) => if i < self.shown.len() {
                Some(self.shown[i])
            } else {
                None
            },
            None => None,
        }
    }

    fn is_shared_selected(&self) -> (r: bool)
        ensures
            r == self@.selects_shared(),
    {
        match self.selected_at() {
            Some(i) => i < self.rows.len() && self.rows[i].count == self.keys.len(),
            None => false,
        }
    }

    pub fn hints(&self) -> (r: Vec<Hint>)
        ensures
            r@ == self@.hint_list(),
    {
        if self.busy {
            return vec![("…", "applying changes")];
        }
        if self.kind == Kind::Tags {
            let enter = if self.is_shared_selected() {
                "remove"
            } else {
                "add / create"
            };
            return vec![
                ("Enter", enter),
                ("↑↓", "choose"),
                ("Tab", "complete"),
                ("Backspace", "select last · again removes"),
                ("Esc", "done"),
            ];
        }
        if self.focus == BatchFocus::Input {
            vec![
                ("type", "filter"),
                ("↓", "list"),
                ("Enter", "results"),
                ("Tab/Shift+Tab", "list / buttons"),
                ("Esc", "cancel"),
            ]
        } else {
            vec![
                ("↑↓", "move"),
                ("Space", "toggle"),
                ("←→", "controls"),
                ("Tab/Shift+Tab", "list / buttons"),
                ("Esc", "cancel"),
            ]
        }
    }

    fn toggle(&mut self)
        requires
            old(self)@.valid(),
        ensures
            final(self)@ == old(self)@.toggled(),
            final(self)@.valid(),
    {
        let total = self.keys.len();
        match self.selected_at() {
            Some(i) => {
                if i < self.rows.len() {
                    if self.kind == Kind::Presets && self.rows[i].count == total {
                        return;
                    }
                    let mut row = self.rows[i].clone();
                    row.toggle(total);
                    self.rows.set(i, row);
                    self.error = None;
                }
            },
            None => {},
        }
    }

    /// How many rows would change.
    pub fn pending_count(&self) -> (r: usize)
        ensures
            r == self@.pending(),
    {
        let total = self.keys.len();
        let mut count: usize = 0;
        let mut i: usize = 0;
        assert(self.rows@.take(0) =~= Seq::empty());
        while i < self.rows.len()
            invariant
                i <= self.rows.len(),
                count <= i,
                total == self.keys@.len(),
                count == changed_count(self.rows@.take(i as int), self.kind, total as int),
            decreases self.rows.len() - i,
        {
            assert(self.rows@.take(i + 1).drop_last() =~= self.rows@.take(i as int));
            if self.rows[i].is_changed(self.kind, total) {
                count = count + 1;
            }
            i = i + 1;
        }
        assert(self.rows@.take(i as int) =~= self.rows@);
        count
    }

    fn take_requests(&self) -> (r: Vec<LinkRequest>)
        ensures
            r@ == requests(self.rows@),
    {
        let mut out: Vec<LinkRequest> = Vec::new();
        let mut i: usize = 0;
        assert(self.rows@.take(0) =~= Seq::empty());
        while i < self.rows.len()
            invariant
                i <= self.rows.len(),
                out@ == requests(self.rows@.take(i as int)),
            decreases self.rows.len() - i,
        {
            assert(self.rows@.take(i + 1).drop_last() =~= self.rows@.take(i as int));
            match self.rows[i].desired {
                Some(on) => out.push(LinkRequest { agent: self.rows[i].id.clone(), on }),
                None => {},
            }
            i = i + 1;
        }
        assert(self.rows@.take(i as int) =~= self.rows@);
        out
    }

    fn take_chosen(&self) -> (r: Vec<String>)
        ensures
            texts(r@) == chosen_ids(self.rows@),
    {
        let mut out: Vec<String> = Vec::new();
        let mut i: usize = 0;
        assert(self.rows@.take(0) =~= Seq::empty());
        assert(texts(out@) =~= Seq::empty());
        while i < self.rows.len()
            invariant
                i <= self.rows.len(),
                texts(out@) == chosen_ids(self.rows@.take(i as int)),
            decreases self.rows.len() - i,
        {
            assert(self.rows@.take(i + 1).drop_last() =~= self.rows@.take(i as int));
            match self.rows[i].desired {
                Some(on) => {
                    if on {
                        let id = self.rows[i].id.clone();
                        assert(texts(out@.push(id)) =~= texts(out@).push(id@));
                        out.push(id);
                    }
                },
                None => {},
            }
            i = i + 1;
        }
        assert(self.rows@.take(i as int) =~= self.rows@);
        out
    }

    fn edit_tag(&mut self, name: String, add: bool) -> (r: Vec<Action>)
        requires
            old(self)@.valid(),
        ensures
            final(self)@ == old(self)@.editing(name@, add).0,
            old(self)@.editing(name@, add).1.told(old(self)@.keys, r@),
            final(self)@.valid(),
    {
        let keys = clone_all(&self.keys);
        self.input = Input::empty();
        self.filter();
        only(Action::WriteMeta(Write::EditTag { name, keys, add }))
    }

    fn edit_selected_tag(&mut self) -> (r: Vec<Action>)
        requires
            old(self)@.valid(),
        ensures
            final(self)@ == old(self)@.editing_selected().0,
            old(self)@.editing_selected().1.told(old(self)@.keys, r@),
            final(self)@.valid(),
    {
        match self.selected_at() {
            Some(i) => if i < self.rows.len() {
                let name = self.rows[i].id.clone();
                let add = self.rows[i].count != self.keys.len();
                self.edit_tag(name, add)
            } else {
                let name = trim(self.input.value().as_str());
                self.edit_tag(name, true)
            },
            None => nothing(),
        }
    }

    /// Does what was chosen.
    pub fn apply_changes(&mut self) -> (r: Vec<Action>)
        requires
            old(self)@.valid(),
        ensures
            final(self)@ == old(self)@.applied().0,
            old(self)@.applied().1.told(old(self)@.keys, r@),
            final(self)@.valid(),
    {
        if self.kind != Kind::Tags && self.pending_count() == 0 {
            return nothing();
        }
        if self.keys.len() == 0 {
            self.error = Some("No skills selected.".to_owned());
            return nothing();
        }
        match self.kind {
            Kind::Deploy => {
                let changes = self.take_requests();
                only(Action::PlanDeployment { keys: clone_all(&self.keys), changes })
            },
            Kind::Tags => self.edit_selected_tag(),
            Kind::Presets => {
                let names = self.take_chosen();
                only(
                    Action::BatchMeta(
                        Write::AddToPresets { names, keys: clone_all(&self.keys) },
                        clone_all(&self.keys),
                    ),
                )
            },
        }
    }

    /// Takes the links that were planned, or why they cannot be.
    pub fn planned(&mut self, result: Result<Vec<PlannedLink>, String>, snap: &Snapshot) -> (r: Vec<
        Action,
    >)
        requires
            old(self)@.valid(),
        ensures
            final(self)@.valid(),
            match result {
                Ok(actions) => {
                    &&& final(self)@ == old(self)@
                    &&& r@.len() == 1
                    &&& (r@[0] matches Action::BatchLinks { title, actions: kept, keys } && title@
                        == "Deploy · "@ + numeral(old(self)@.total()) + " skills"@ && kept@
                        == worthwhile(*snap, actions@) && keys@ == old(self)@.keys)
                },
                Err(error) => {
                    &&& final(self)@ == (BatchView { error: Some(error@), ..old(self)@ })
                    &&& r@.len() == 0
                },
            },
    {
        match result {
            Ok(actions) => {
                let title = cat3("Deploy · ", decimal(self.keys.len()).as_str(), " skills");
                only(
                    Action::BatchLinks {
                        title,
                        actions: trim_plan(&actions, snap),
                        keys: clone_all(&self.keys),
                    },
                )
            },
            Err(error) => {
                self.error = Some(error);
                nothing()
            },
        }
    }

    pub fn paste(&mut self, text: &str) -> (r: Vec<Action>)
        requires
            old(self)@.valid(),
        ensures
            final(self)@ == old(self)@.pasted(text@).0,
            old(self)@.pasted(text@).1.told(old(self)@.keys, r@),
            final(self)@.valid(),
    {
        self.remove_armed = false;
        if self.focus != BatchFocus::Input {
            return nothing();
        }
        match self.input.paste(text) {
            Ok(changed) => {
                if changed {
                    self.filter();
                }
                nothing()
            },
            Err(why) => complain(why),
        }
    }

    fn type_key(&mut self, key: KeyEvent)
        requires
            old(self)@.valid(),
        ensures
            final(self)@ == old(self)@.typed(key),
            final(self)@.valid(),
    {
        if self.input.handle_key(key) {
            self.filter();
        }
    }

    fn tag_key(&mut self, key: KeyEvent) -> (r: Vec<Action>)
        requires
            old(self)@.valid(),
        ensures
            final(self)@ == old(self)@.tag_keyed(key).0,
            old(self)@.tag_keyed(key).1.told(old(self)@.keys, r@),
            final(self)@.valid(),
    {
        if key.code != KeyCode::Backspace {
            self.remove_armed = false;
        }
        match key.code {
            KeyCode::Down => {
                self.list.move_by(1, self.shown.len());
                nothing()
            },
            KeyCode::Up => {
                self.list.move_by(-1, self.shown.len());
                nothing()
            },
            KeyCode::Enter => self.edit_selected_tag(),
            KeyCode::Backspace => {
                if !self.input.is_empty() {
                    self.type_key(key);
                    return nothing();
                }
                let count = self.selected_tags.len();
                if count == 0 {
                    return nothing();
                }
                if self.remove_armed {
                    self.remove_armed = false;
                    let name = self.selected_tags[count - 1].clone();
                    return self.edit_tag(name, false);
                }
                self.remove_armed = true;
                nothing()
            },
            KeyCode::Tab => {
                match self.selected_at() {
                    Some(i) => {
                        if i < self.rows.len() {
                            self.input = Input::with_value(self.rows[i].id.as_str());
                            self.filter();
                        }
                    },
                    None => {},
                }
                nothing()
            },
            _ => {
                self.type_key(key);
                nothing()
            },
        }
    }

    fn plain_key(&mut self, key: KeyEvent) -> (r: Vec<Action>)
        requires
            old(self)@.valid(),
        ensures
            final(self)@ == old(self)@.plain_keyed(key).0,
            old(self)@.plain_keyed(key).1.told(old(self)@.keys, r@),
            final(self)@.valid(),
    {
        if key.code == KeyCode::Enter && key.modifiers.control {
            return self.apply_changes();
        }
        match key.code {
            KeyCode::Down => match self.focus {
                BatchFocus::Input => {
                    self.focus = BatchFocus::List;
                    self.list.clamp(self.shown.len());
                },
                BatchFocus::List => self.list.move_by(1, self.shown.len()),
                _ => {},
            },
            KeyCode::Up => match self.focus {
                BatchFocus::List => {
                    let first = match self.list.selected {
                        Some(at) => at == 0,
                        None => false,
                    };
                    if first {
                        self.focus = BatchFocus::Input;
                    } else {
                        self.list.move_by(-1, self.shown.len());
                    }
                },
                BatchFocus::Input => self.type_key(key),
                _ => {},
            },
            KeyCode::Enter => match self.focus {
                BatchFocus::Apply => {
                    return self.apply_changes();
                },
                BatchFocus::Cancel => {
                    return only(Action::CloseModal);
                },
                BatchFocus::List => self.toggle(),
                BatchFocus::Input => {
                    self.focus = BatchFocus::List;
                    self.list.clamp(self.shown.len());
                },
            },
            _ => {
                if self.focus == BatchFocus::Input {
                    self.type_key(key);
                } else if key.code == KeyCode::Char('/') {
                    self.focus = BatchFocus::Input;
                } else if key.code == KeyCode::Char(' ') && self.focus == BatchFocus::List {
                    self.toggle();
                }
            },
        }
        nothing()
    }

    fn choice_key(&mut self, key: KeyEvent) -> (r: Vec<Action>)
        requires
            old(self)@.valid(),
        ensures
            final(self)@ == old(self)@.choice_keyed(key).0,
            old(self)@.choice_keyed(key).1.told(old(self)@.keys, r@),
            final(self)@.valid(),
    {
        let rows = self.shown.len();
        let at_end = rows == 0 || match self.list.selected {
            Some(at) => at == rows - 1,
            None => false,
        };
        let mut choice = self.focus.as_choice();
        match choice.key(key.code, at_end) {
            Some(event) => {
                self.focus = from_choice(choice);
                match event {
                    ChoiceEvent::Apply => if self.pending_count() > 0 {
                        self.apply_changes()
                    } else {
                        nothing()
                    },
                    ChoiceEvent::Cancel => only(Action::CloseModal),
                    ChoiceEvent::Moved => nothing(),
                }
            },
            None => self.plain_key(key),
        }
    }

    pub fn key(&mut self, key: KeyEvent) -> (r: Vec<Action>)
        requires
            old(self)@.valid(),
        ensures
            final(self)@ == old(self)@.keyed(key).0,
            old(self)@.keyed(key).1.told(old(self)@.keys, r@),
            final(self)@.valid(),
    {
        let tags = self.kind == Kind::Tags;
        let typing = self.focus == BatchFocus::Input;
        if !tags && typing && key.code == KeyCode::Esc {
            if self.input.is_empty() {
                self.focus = BatchFocus::List;
            } else {
                self.input = Input::empty();
                self.filter();
            }
            return nothing();
        }
        if key.code == KeyCode::Esc || (!tags && !typing && key.code == KeyCode::Char('q')
            && key.modifiers == KeyModifiers::none()) {
            return only(Action::CloseModal);
        }
        if tags {
            return self.tag_key(key);
        }
        if typing && key.code == KeyCode::Tab {
            self.focus = BatchFocus::Apply;
            return nothing();
        }
        if typing && key.code == KeyCode::BackTab {
            self.focus = BatchFocus::Cancel;
            return nothing();
        }
        if !typing {
            self.choice_key(key)
        } else {
            self.plain_key(key)
        }
    }

    fn chip_at(&self, x: u16, y: u16) -> (r: Option<usize>)
        ensures
            match r {
                Some(i) => self@.chip_from(x as int, y as int, 0) == Some(i as int) && i
                    < self.tag_chips@.len(),
                None => self@.chip_from(x as int, y as int, 0) is None,
            },
    {
        let mut i: usize = 0;
        while i < self.tag_chips.len()
            invariant
                i <= self.tag_chips.len(),
                self@.chip_from(x as int, y as int, 0) == self@.chip_from(
                    x as int,
                    y as int,
                    i as int,
                ),
            decreases self.tag_chips.len() - i,
        {
            assert(self@.tag_chips[i as int].rect == self.tag_chips@[i as int].rect);
            if self.tag_chips[i].rect.contains(x, y) {
                return Some(i);
            }
            i = i + 1;
        }
        None
    }

    fn tag_press(&mut self, event: MouseEvent, cap: u16) -> (r: Vec<Action>)
        requires
            old(self)@.valid(),
        ensures
            final(self)@ == old(self)@.tag_pressed(event, cap as int).0,
            old(self)@.tag_pressed(event, cap as int).1.told(old(self)@.keys, r@),
            final(self)@.valid(),
    {
        let (x, y): (u16, u16) = (event.column, event.row);
        if !self.rect.contains(x, y) {
            return only(Action::CloseModal);
        }
        match self.chip_at(x, y) {
            Some(i) => {
                let close: u16 = self.tag_chips[i].rect.right().saturating_sub(
                    cap.saturating_add(2),
                );
                if x == close {
                    let name = self.tag_chips[i].name.clone();
                    assert(self@.tag_chips[i as int].name == name@);
                    return self.edit_tag(name, false);
                }
                return nothing();
            },
            None => {},
        }
        if self.input_rect.contains(x, y) {
            self.input.click(x);
        }
        if self.list.rows.contains(x, y) {
            match self.list.row_at(y, self.shown.len()) {
                Some(at) => {
                    self.list.select(Some(at));
                    return self.edit_selected_tag();
                },
                None => {},
            }
        }
        nothing()
    }

    fn press(&mut self, event: MouseEvent) -> (r: Vec<Action>)
        requires
            old(self)@.valid(),
        ensures
            final(self)@ == old(self)@.pressed(event).0,
            old(self)@.pressed(event).1.told(old(self)@.keys, r@),
            final(self)@.valid(),
    {
        let (x, y): (u16, u16) = (event.column, event.row);
        if !self.rect.contains(x, y) || self.cancel.contains(x, y) {
            return only(Action::CloseModal);
        }
        if self.apply.contains(x, y) {
            self.focus = BatchFocus::Apply;
            return self.apply_changes();
        }
        if self.input_rect.contains(x, y) {
            self.focus = BatchFocus::Input;
            self.input.click(x);
        } else if self.list.rows.contains(x, y) {
            match self.list.row_at(y, self.shown.len()) {
                Some(at) => {
                    self.list.select(Some(at));
                    self.focus = BatchFocus::List;
                    self.toggle();
                },
                None => {},
            }
        }
        nothing()
    }

    /// Takes the mouse. `right_cap` is the end of the tags as they are drawn.
    pub fn mouse(&mut self, event: MouseEvent, right_cap: &str) -> (r: Vec<Action>)
        requires
            old(self)@.valid(),
        ensures
            final(self)@ == old(self)@.moused(
                event,
                spec_min(display_width(right_cap@) as int, 65535),
            ).0,
            old(self)@.moused(event, spec_min(display_width(right_cap@) as int, 65535)).1.told(
                old(self)@.keys,
                r@,
            ),
            final(self)@.valid(),
    {
        self.remove_armed = false;
        assert(self@.shown == old(self)@.shown && self@.rows == old(self)@.rows);
        assert(self@.valid());
        let tags = self.kind == Kind::Tags;
        match event.kind {
            MouseKind::Down => {
                if tags {
                    let cap = clamp16(width(right_cap));
                    return self.tag_press(event, cap);
                }
                return self.press(event);
            },
            MouseKind::ScrollDown | MouseKind::ScrollUp => {
                if tags || self.list.rows.contains(event.column, event.row) {
                    if !tags {
                        self.focus = BatchFocus::List;
                    }
                    if event.kind == MouseKind::ScrollDown {
                        self.list.move_by(1, self.shown.len());
                    } else {
                        self.list.move_by(-1, self.shown.len());
                    }
                }
            },
            _ => {},
        }
        nothing()
    }
}

// ---- plans -------------------------------------------------------------------

/// A planned link is worth telling: it changes something, or it is skipped for a reason
/// other than that nothing is to be done.
pub open spec fn is_worthwhile(snap: Snapshot, action: LinkAction) -> bool {
    match action {
        LinkAction::Skip { agent, reason, .. } => !(reason@ == "already deployed"@ || reason@
            == "not deployed"@ || has_suffix(reason@, "; already deployed"@) || has_prefix(
            reason@,
            "agent directory is read-only:"@,
        ) || (reason@ == "agent dir missing or foreign"@ && match snap.agent_at(agent@) {
            Some(i) => snap.agents@[i].mode == AgentDirMode::Missing,
            None => false,
        })),
        _ => true,
    }
}

fn worth(snap: &Snapshot, action: &LinkAction) -> (r: bool)
    ensures
        r == is_worthwhile(*snap, *action),
{
    match action {
        LinkAction::Skip { agent, reason, .. } => {
            let reason = reason.as_str();
            if same_text(reason, "already deployed") || same_text(reason, "not deployed")
                || ends_with(reason, "; already deployed") || starts_with(
                reason,
                "agent directory is read-only:",
            ) {
                return false;
            }
            if !same_text(reason, "agent dir missing or foreign") {
                return true;
            }
            match snap.find_agent(agent.as_str()) {
                Some(i) => snap.agents[i].mode != AgentDirMode::Missing,
                None => true,
            }
        },
        _ => true,
    }
}

/// The planned links that are worth telling.
pub open spec fn worthwhile(snap: Snapshot, actions: Seq<PlannedLink>) -> Seq<PlannedLink>
    decreases actions.len(),
{
    if actions.len() == 0 {
        Seq::empty()
    } else if is_worthwhile(snap, actions.last().action) {
        worthwhile(snap, actions.drop_last()).push(actions.last())
    } else {
        worthwhile(snap, actions.drop_last())
    }
}

/// Leaves out what is as it should be.
pub fn trim_plan(actions: &Vec<PlannedLink>, snap: &Snapshot) -> (r: Vec<PlannedLink>)
    ensures
        r@ == worthwhile(*snap, actions@),
{
    let mut out: Vec<PlannedLink> = Vec::new();
    let mut i: usize = 0;
    assert(actions@.take(0) =~= Seq::empty());
    while i < actions.len()
        invariant
            i <= actions.len(),
            out@ == worthwhile(*snap, actions@.take(i as int)),
        decreases actions.len() - i,
    {
        assert(actions@.take(i + 1).drop_last() =~= actions@.take(i as int));
        if worth(snap, &actions[i].action) {
            out.push(actions[i].clone());
        }
        i = i + 1;
    }
    assert(actions@.take(i as int) =~= actions@);
    out
}

// ---- writes ------------------------------------------------------------------

/// Why a tag cannot be edited.
pub open spec fn tag_refusal(enabled: bool, keys: Seq<String>, name: Seq<char>) -> Option<Seq<char>> {
    if !enabled {
        Some("Tags are disabled"@)
    } else if keys.len() == 0 {
        Some("No skills selected"@)
    } else if name.len() == 0 || name == "(untagged)"@ || name.contains(',') {
        Some("Invalid tag name"@)
    } else {
        None
    }
}

/// Checks an edit of a tag before it is made.
pub fn check_tag_edit(enabled: bool, keys: &Vec<String>, name: &str) -> (r: Result<(), &'static str>)
    ensures
        match tag_refusal(enabled, keys@, name@) {
            Some(why) => r is Err && r->Err_0@ == why,
            None => r is Ok,
        },
{
    if !enabled {
        return Err("Tags are disabled");
    }
    if keys.len() == 0 {
        return Err("No skills selected");
    }
    if chars_of(name).len() == 0 || same_text(name, "(untagged)") || has_char(name, ',') {
        return Err("Invalid tag name");
    }
    Ok(())
}

/// The members that are not among some keys.
pub open spec fn without_keys(members: Seq<Seq<char>>, keys: Seq<Seq<char>>) -> Seq<Seq<char>>
    decreases members.len(),
{
    if members.len() == 0 {
        Seq::empty()
    } else if keys.contains(members.last()) {
        without_keys(members.drop_last(), keys)
    } else {
        without_keys(members.drop_last(), keys).push(members.last())
    }
}

/// The skills of a tag after it was put on some skills, or taken from them.
pub fn edit_members(members: &Vec<String>, keys: &Vec<String>, add: bool) -> (r: Vec<String>)
    ensures
        texts(r@) == if add {
            without_keys(texts(members@), texts(keys@)) + texts(keys@)
        } else {
            without_keys(texts(members@), texts(keys@))
        },
        texts(r@) == texts(members@).filter(|m: Seq<char>| !texts(keys@).contains(m)) + if add {
            texts(keys@)
        } else {
            Seq::empty()
        },
{
    proof {
        lemma_others_are_kept(texts(members@), texts(keys@));
    }
    let mut out: Vec<String> = Vec::new();
    let ghost all = texts(members@);
    let ghost wanted = texts(keys@);
    let mut i: usize = 0;
    assert(all.take(0) =~= Seq::empty());
    assert(texts(out@) =~= Seq::empty());
    while i < members.len()
        invariant
            i <= members.len(),
            all == texts(members@),
            wanted == texts(keys@),
            texts(out@) == without_keys(all.take(i as int), wanted),
        decreases members.len() - i,
    {
        assert(all.take(i + 1).drop_last() =~= all.take(i as int));
        assert(all.take(i + 1).last() == members@[i as int]@);
        if !list_holds(keys, members[i].as_str()) {
            let copy = members[i].clone();
            assert(texts(out@.push(copy)) =~= texts(out@).push(copy@));
            out.push(copy);
        }
        i = i + 1;
    }
    assert(all.take(i as int) =~= all);
    assert(texts(out@) + Seq::<Seq<char>>::empty() =~= texts(out@));
    if add {
        let mut more = clone_all(keys);
        let ghost before = out@;
        out.append(&mut more);
        assert(texts(out@) =~= texts(before) + texts(keys@));
    }
    out
}

/// A list with the keys behind it that it lacks.
pub open spec fn with_keys(members: Seq<Seq<char>>, keys: Seq<Seq<char>>) -> Seq<Seq<char>>
    decreases keys.len(),
{
    if keys.len() == 0 {
        members
    } else {
        let before = with_keys(members, keys.drop_last());
        if before.contains(keys.last()) {
            before
        } else {
            before.push(keys.last())
        }
    }
}

/// The skills of a preset after some were added.
pub fn add_members(members: &Vec<String>, keys: &Vec<String>) -> (r: Vec<String>)
    ensures
        texts(r@) == with_keys(texts(members@), texts(keys@)),
{
    let mut out = clone_all(members);
    let ghost wanted = texts(keys@);
    let mut i: usize = 0;
    assert(wanted.take(0) =~= Seq::empty());
    while i < keys.len()
        invariant
            i <= keys.len(),
            wanted == texts(keys@),
            texts(out@) == with_keys(texts(members@), wanted.take(i as int)),
        decreases keys.len() - i,
    {
        assert(wanted.take(i + 1).drop_last() =~= wanted.take(i as int));
        assert(wanted.take(i + 1).last() == keys@[i as int]@);
        if !list_holds(&out, keys[i].as_str()) {
            let copy = keys[i].clone();
            assert(texts(out@.push(copy)) =~= texts(out@).push(copy@));
            out.push(copy);
        }
        i = i + 1;
    }
    assert(wanted.take(i as int) =~= wanted);
    out
}

/// The first key, from `at` on, of a skill that is not there.
pub open spec fn absent_from(keys: Seq<Seq<char>>, found: Seq<Seq<char>>, at: int) -> Option<Seq<char>>
    decreases keys.len() - at,
{
    if at < 0 || at >= keys.len() {
        None
    } else if !found.contains(keys[at]) {
        Some("no such skill: "@ + keys[at])
    } else {
        absent_from(keys, found, at + 1)
    }
}

/// Checks that all skills are there before their tags are edited; `found` are those that are.
pub fn check_present(keys: &Vec<String>, found: &Vec<String>) -> (r: Result<(), String>)
    ensures
        match absent_from(texts(keys@), texts(found@), 0) {
            Some(why) => r is Err && r->Err_0@ == why,
            None => r is Ok,
        },
{
    let mut i: usize = 0;
    while i < keys.len()
        invariant
            i <= keys.len(),
            absent_from(texts(keys@), texts(found@), 0) == absent_from(
                texts(keys@),
                texts(found@),
                i as int,
            ),
        decreases keys.len() - i,
    {
        assert(texts(keys@)[i as int] == keys@[i as int]@);
        if !list_holds(found, keys[i].as_str()) {
            return Err(cat2("no such skill: ", keys[i].as_str()));
        }
        i = i + 1;
    }
    Ok(())
}

/// The skills whose tags change where a tag is put on some skills, or taken from them: each
/// of them is recorded.
pub open spec fn changed_keys(
    members: Seq<Seq<char>>,
    keys: Seq<Seq<char>>,
    add: bool,
) -> Seq<Seq<char>>
    decreases keys.len(),
{
    if keys.len() == 0 {
        Seq::empty()
    } else if members.contains(keys.last()) != add {
        changed_keys(members, keys.drop_last(), add).push(keys.last())
    } else {
        changed_keys(members, keys.drop_last(), add)
    }
}

pub fn tag_changes(members: &Vec<String>, keys: &Vec<String>, add: bool) -> (r: Vec<String>)
    ensures
        texts(r@) == changed_keys(texts(members@), texts(keys@), add),
{
    let mut out: Vec<String> = Vec::new();
    let ghost all = texts(keys@);
    let mut i: usize = 0;
    assert(all.take(0) =~= Seq::empty());
    assert(texts(out@) =~= Seq::empty());
    while i < keys.len()
        invariant
            i <= keys.len(),
            all == texts(keys@),
            texts(out@) == changed_keys(texts(members@), all.take(i as int), add),
        decreases keys.len() - i,
    {
        assert(all.take(i + 1).drop_last() =~= all.take(i as int));
        assert(all.take(i + 1).last() == keys@[i as int]@);
        if list_holds(members, keys[i].as_str()) != add {
            let copy = keys[i].clone();
            assert(texts(out@.push(copy)) =~= texts(out@).push(copy@));
            out.push(copy);
        }
        i = i + 1;
    }
    assert(all.take(i as int) =~= all);
    out
}

/// The first of some presets, from `at` on, that there is none of.
pub open spec fn missing_from(loaded: Seq<Option<PresetRecord>>, at: int) -> Option<int>
    decreases loaded.len() - at,
{
    if at < 0 || at >= loaded.len() {
        None
    } else if loaded[at] is None {
        Some(at)
    } else {
        missing_from(loaded, at + 1)
    }
}

/// The presets that skills are added to, as they were read: all of them are there, and there
/// is at least one.
pub fn chosen_presets(names: &Vec<String>, loaded: Vec<Option<PresetRecord>>) -> (r: Result<
    Vec<PresetRecord>,
    String,
>)
    requires
        names@.len() == loaded@.len(),
    ensures
        match missing_from(loaded@, 0) {
            Some(i) => r is Err && 0 <= i < names@.len() && r->Err_0@ == "No such preset: "@
                + names@[i]@,
            None => if names@.len() == 0 {
                r is Err && r->Err_0@ == "No presets selected."@
            } else {
                r is Ok && r->Ok_0@ == loaded@.map_values(|p: Option<PresetRecord>| p->0)
            },
        },
{
    if names.len() == 0 {
        return Err("No presets selected.".to_owned());
    }
    let ghost all = loaded@;
    let ghost records = all.map_values(|p: Option<PresetRecord>| p->0);
    let mut rest = loaded;
    let mut out: Vec<PresetRecord> = Vec::new();
    assert(rest@ =~= all.skip(0));
    while rest.len() > 0
        invariant
            all == loaded@,
            names@.len() == all.len(),
            out@.len() <= all.len(),
            records == all.map_values(|p: Option<PresetRecord>| p->0),
            rest@ == all.skip(out@.len() as int),
            out@ == records.take(out@.len() as int),
            missing_from(all, 0) == missing_from(all, out@.len() as int),
        decreases rest.len(),
    {
        let ghost at = out@.len() as int;
        let ghost prior = rest@;
        match rest.remove(0) {
            Some(record) => {
                assert(all[at] == prior[0]);
                out.push(record);
                assert(rest@ =~= all.skip(at + 1));
                assert(out@ =~= records.take(at + 1));
            },
            None => {
                assert(all[at] == prior[0]);
                return Err(cat2("No such preset: ", names[out.len()].as_str()));
            },
        }
    }
    assert(out@ =~= records);
    Ok(out)
}

/// Which presets are put back where the `failed`-th of them could not be saved: those that
/// were saved before, the last one first.
pub open spec fn put_back(failed: nat) -> Seq<usize> {
    Seq::new(failed, |i: int| (failed - 1 - i) as usize)
}

pub fn presets_to_put_back(failed: usize) -> (r: Vec<usize>)
    ensures
        r@ == put_back(failed as nat),
{
    let mut out: Vec<usize> = Vec::new();
    let mut i: usize = failed;
    assert(out@ =~= put_back(failed as nat).take(0));
    while i > 0
        invariant
            i <= failed,
            out@ == put_back(failed as nat).take(failed - i),
        decreases i,
    {
        i = i - 1;
        out.push(i);
        assert(out@ =~= put_back(failed as nat).take(failed - i));
    }
    assert(out@ =~= put_back(failed as nat));
    out
}

// ---- keeping up with the library ---------------------------------------------

/// Rows of the same tags with the same counts.
pub open spec fn same_rows(a: Seq<Row>, b: Seq<Row>) -> bool {
    &&& a.len() == b.len()
    &&& forall|i: int|
        0 <= i < a.len() ==> (#[trigger] a[i]).id@ == b[i].id@ && a[i].count == b[i].count
}

fn rows_agree(a: &Vec<Row>, b: &Vec<Row>) -> (r: bool)
    ensures
        r == same_rows(a@, b@),
{
    if a.len() != b.len() {
        return false;
    }
    let mut i: usize = 0;
    while i < a.len()
        invariant
            i <= a.len(),
            a@.len() == b@.len(),
            forall|k: int|
                0 <= k < i ==> (#[trigger] a@[k]).id@ == b@[k].id@ && a@[k].count == b@[k].count,
        decreases a.len() - i,
    {
        if !same_text(a[i].id.as_str(), b[i].id.as_str()) || a[i].count != b[i].count {
            return false;
        }
        i = i + 1;
    }
    true
}

/// Where a tag is shown.
pub open spec fn shown_from(shown: Seq<usize>, rows: Seq<Row>, name: Seq<char>, at: int) -> Option<int>
    decreases shown.len() - at,
{
    if at < 0 || at >= shown.len() {
        None
    } else if shown[at] < rows.len() && rows[shown[at] as int].id@ == name {
        Some(at)
    } else {
        shown_from(shown, rows, name, at + 1)
    }
}

/// All skills have a tag.
pub open spec fn is_shared(rows: Seq<Row>, name: Seq<char>, total: int) -> bool {
    exists|i: int|
        0 <= i < rows.len() && (#[trigger] rows[i]).id@ == name && rows[i].count == total
}

/// The tags of a list that all skills have.
pub open spec fn still_shared(tags: Seq<Seq<char>>, rows: Seq<Row>, total: int) -> Seq<Seq<char>>
    decreases tags.len(),
{
    if tags.len() == 0 {
        Seq::empty()
    } else if is_shared(rows, tags.last(), total) {
        still_shared(tags.drop_last(), rows, total).push(tags.last())
    } else {
        still_shared(tags.drop_last(), rows, total)
    }
}

/// A list with the tags of the first rows behind it that all skills have.
pub open spec fn with_shared(tags: Seq<Seq<char>>, rows: Seq<Row>, total: int, n: int) -> Seq<Seq<char>>
    decreases n,
{
    if n <= 0 {
        tags
    } else {
        let before = with_shared(tags, rows, total, n - 1);
        if rows[n - 1].count == total && !before.contains(rows[n - 1].id@) {
            before.push(rows[n - 1].id@)
        } else {
            before
        }
    }
}

fn shares(rows: &Vec<Row>, name: &str, total: usize) -> (r: bool)
    ensures
        r == is_shared(rows@, name@, total as int),
{
    let mut i: usize = 0;
    while i < rows.len()
        invariant
            i <= rows.len(),
            forall|k: int|
                0 <= k < i ==> !((#[trigger] rows@[k]).id@ == name@ && rows@[k].count == total),
        decreases rows.len() - i,
    {
        if rows[i].count == total && same_text(rows[i].id.as_str(), name) {
            return true;
        }
        i = i + 1;
    }
    false
}

/// The tags that all skills have: those that were known keep their order.
fn shared_tags(tags: &Vec<String>, rows: &Vec<Row>, total: usize) -> (r: Vec<String>)
    ensures
        texts(r@) == with_shared(
            still_shared(texts(tags@), rows@, total as int),
            rows@,
            total as int,
            rows@.len() as int,
        ),
{
    let ghost all = texts(tags@);
    let mut out: Vec<String> = Vec::new();
    let mut i: usize = 0;
    assert(all.take(0) =~= Seq::empty());
    assert(texts(out@) =~= Seq::empty());
    while i < tags.len()
        invariant
            i <= tags.len(),
            all == texts(tags@),
            texts(out@) == still_shared(all.take(i as int), rows@, total as int),
        decreases tags.len() - i,
    {
        assert(all.take(i + 1).drop_last() =~= all.take(i as int));
        assert(all.take(i + 1).last() == tags@[i as int]@);
        if shares(rows, tags[i].as_str(), total) {
            let copy = tags[i].clone();
            assert(texts(out@.push(copy)) =~= texts(out@).push(copy@));
            out.push(copy);
        }
        i = i + 1;
    }
    assert(all.take(i as int) =~= all);
    let ghost kept = texts(out@);
    let mut k: usize = 0;
    while k < rows.len()
        invariant
            k <= rows.len(),
            texts(out@) == with_shared(kept, rows@, total as int, k as int),
        decreases rows.len() - k,
    {
        if rows[k].count == total && !list_holds(&out, rows[k].id.as_str()) {
            let copy = rows[k].id.clone();
            assert(texts(out@.push(copy)) =~= texts(out@).push(copy@));
            out.push(copy);
        }
        k = k + 1;
    }
    out
}

impl BatchView {
    /// What is selected, by its name.
    pub open spec fn selected_name(self) -> Option<Seq<char>> {
        match self.at() {
            Some(i) => Some(
                if i < self.rows.len() {
                    self.rows[i].id@
                } else {
                    trimmed(self.input.text)
                },
            ),
            None => None,
        }
    }

    /// The rows are replaced. Where they differ they are filtered anew, and the selection
    /// stays on its tag.
    pub open spec fn with_rows(self, rows: Seq<Row>) -> BatchView {
        let after = BatchView { rows, ..self };
        if same_rows(self.rows, rows) {
            after
        } else {
            let anew = after.refiltered();
            match self.selected_name() {
                Some(name) => match shown_from(anew.shown, rows, name, 0) {
                    Some(i) => anew.with_selected(Some(i as usize)),
                    None => anew,
                },
                None => anew,
            }
        }
    }

    /// The dialog of the tags with the rows of the library as it is now.
    pub open spec fn refreshed(self, rows: Seq<Row>) -> BatchView {
        BatchView {
            selected_tags: with_shared(
                still_shared(self.selected_tags, rows, self.total()),
                rows,
                self.total(),
                rows.len() as int,
            ),
            ..self.with_rows(rows)
        }
    }
}

impl Batch {
    fn find_shown(&self, name: &str) -> (r: Option<usize>)
        ensures
            match r {
                Some(i) => shown_from(self.shown@, self.rows@, name@, 0) == Some(i as int) && i
                    < self.shown@.len(),
                None => shown_from(self.shown@, self.rows@, name@, 0) is None,
            },
    {
        let mut i: usize = 0;
        while i < self.shown.len()
            invariant
                i <= self.shown.len(),
                shown_from(self.shown@, self.rows@, name@, 0) == shown_from(
                    self.shown@,
                    self.rows@,
                    name@,
                    i as int,
                ),
            decreases self.shown.len() - i,
        {
            let at = self.shown[i];
            if at < self.rows.len() && same_text(self.rows[at].id.as_str(), name) {
                return Some(i);
            }
            i = i + 1;
        }
        None
    }

    fn named_selection(&self) -> (r: Option<String>)
        ensures
            crate::text::said(r) == self@.selected_name(),
    {
        match self.selected_at() {
            Some(i) => Some(
                if i < self.rows.len() {
                    self.rows[i].id.clone()
                } else {
                    trim(self.input.value().as_str())
                },
            ),
            None => None,
        }
    }

    /// Takes the tags of the library as it is now.
    pub fn refresh(&mut self, snap: &Snapshot)
        requires
            old(self)@.valid(),
        ensures
            old(self)@.kind != Kind::Tags ==> final(self)@ == old(self)@,
            old(self)@.kind == Kind::Tags ==> are_tag_rows(
                *snap,
                old(self)@.keys,
                final(self)@.rows,
            ) && final(self)@ == old(self)@.refreshed(final(self)@.rows),
            final(self)@.valid(),
    {
        if self.kind != Kind::Tags {
            return;
        }
        let selected = self.named_selection();
        let rows = tag_rows(&self.keys, snap);
        let total = self.keys.len();
        let tags = shared_tags(&self.selected_tags, &rows, total);
        let agree = rows_agree(&self.rows, &rows);
        self.rows = rows;
        if !agree {
            self.filter();
            match &selected {
                Some(name) => match self.find_shown(name.as_str()) {
                    Some(i) => self.list.select(Some(i)),
                    None => {},
                },
                None => {},
            }
        }
        self.selected_tags = tags;
        assert(self@.valid());
    }
}

// ---- drawing -----------------------------------------------------------------

/// The dialog in the middle of an area.
pub open spec fn dialog_in(area: Rect, w: int, h: int) -> Rect {
    Rect::at(area.x + (area.width - w) / 2, area.y + (area.height - h) / 2, w, h)
}

fn place_dialog(area: Rect, w: u16, h: u16) -> (r: Rect)
    requires
        area.in_range(),
        w <= area.width,
        h <= area.height,
    ensures
        r == dialog_in(area, w as int, h as int),
        r.in_range(),
{
    Rect::new(area.x + (area.width - w) / 2, area.y + (area.height - h) / 2, w, h)
}

/// The columns of the ends of a tag.
pub open spec fn caps_width(look: Look) -> int {
    plus16(
        spec_min(display_width(look.left_cap@) as int, 65535),
        spec_min(display_width(look.right_cap@) as int, 65535),
    )
}

/// The colour of a tag, from the `at`th on.
pub open spec fn fill_from(tags: Seq<TagColor>, name: Seq<char>, at: int, otherwise: Color) -> Color
    decreases tags.len() - at,
{
    if at < 0 || at >= tags.len() {
        otherwise
    } else if tags[at].name@ == name {
        tags[at].fill
    } else {
        fill_from(tags, name, at + 1, otherwise)
    }
}

impl Look {
    /// The colour of a tag.
    pub open spec fn fill(self, name: Seq<char>) -> Color {
        fill_from(self.tags@, name, 0, self.theme.tag)
    }

    fn fill_of(&self, name: &str) -> (r: Color)
        ensures
            r == self.fill(name@),
    {
        let mut i: usize = 0;
        while i < self.tags.len()
            invariant
                i <= self.tags.len(),
                self.fill(name@) == fill_from(self.tags@, name@, i as int, self.theme.tag),
            decreases self.tags.len() - i,
        {
            if same_text(self.tags[i].name.as_str(), name) {
                return self.tags[i].fill;
            }
            i = i + 1;
        }
        self.theme.tag
    }

    fn caps(&self) -> (r: u16)
        ensures
            r == caps_width(*self),
    {
        clamp16(width(self.left_cap.as_str())).saturating_add(
            clamp16(width(self.right_cap.as_str())),
        )
    }
}

/// A tag: its text on its colour, between its ends.
pub open spec fn pill(text: Seq<char>, fill: Color, look: Look) -> Seq<SpanView> {
    seq![
        run(look.left_cap@, Style::colored(fill)),
        run(" "@ + text + " "@, Style { bg: Some(fill), ..Style::plain() }),
        run(look.right_cap@, Style::colored(fill)),
    ]
}

fn push_pill(line: &mut Line, text: &str, fill: Color, look: &Look)
    ensures
        final(line)@ == old(line)@ + pill(text@, fill, *look),
{
    line.push(Span::styled(look.left_cap.as_str(), Style::colored(fill)));
    line.push(Span::of(cat3(" ", text, " "), Style { bg: Some(fill), ..Style::plain() }));
    line.push(Span::styled(look.right_cap.as_str(), Style::colored(fill)));
    assert(line@ =~= old(line)@ + pill(text@, fill, *look));
}

/// A tag before it is placed: its column and row among the others.
pub ghost struct Token {
    pub x: int,
    pub y: int,
    pub width: int,
    pub name: Seq<char>,
    pub body: Seq<char>,
}

/// The text of a tag that can be removed.
pub open spec fn token_body(name: Seq<char>, available: int, caps: int) -> Seq<char> {
    " "@ + fitted(name, monus(available, plus16(caps, 5))) + " × "@
}

pub open spec fn token_width(body: Seq<char>, caps: int) -> int {
    plus16(spec_min(display_width(body) as int, 65535), caps)
}

/// The tags row by row: one that does not fit begins the next row. Behind them, where the
/// next one would be.
pub open spec fn laid(names: Seq<Seq<char>>, available: int, caps: int) -> (Seq<Token>, int, int)
    decreases names.len(),
{
    if names.len() == 0 {
        (Seq::empty(), 0, 0)
    } else {
        let (before, x, y) = laid(names.drop_last(), available, caps);
        let body = token_body(names.last(), available, caps);
        let width = token_width(body, caps);
        let wraps = x > 0 && plus16(x, width) > available;
        let at = if wraps {
            0
        } else {
            x
        };
        let row = if wraps {
            plus16(y, 1)
        } else {
            y
        };
        (
            before.push(Token { x: at, y: row, width, name: names.last(), body }),
            plus16(plus16(at, width), 1),
            row,
        )
    }
}

/// A tag before it is placed.
struct Laid {
    x: u16,
    y: u16,
    width: u16,
    name: String,
    body: String,
}

spec fn tokens(list: Seq<Laid>) -> Seq<Token> {
    list.map_values(
        |t: Laid|
            Token {
                x: t.x as int,
                y: t.y as int,
                width: t.width as int,
                name: t.name@,
                body: t.body@,
            },
    )
}

fn lay(names: &Vec<String>, available: u16, caps: u16) -> (r: (Vec<Laid>, u16))
    ensures
        tokens(r.0@) == laid(texts(names@), available as int, caps as int).0,
        r.1 == laid(texts(names@), available as int, caps as int).2,
{
    let ghost all = texts(names@);
    let mut out: Vec<Laid> = Vec::new();
    let mut x: u16 = 0;
    let mut y: u16 = 0;
    let mut i: usize = 0;
    assert(all.take(0) =~= Seq::empty());
    assert(tokens(out@) =~= Seq::empty());
    while i < names.len()
        invariant
            i <= names.len(),
            all == texts(names@),
            (tokens(out@), x as int, y as int) == laid(
                all.take(i as int),
                available as int,
                caps as int,
            ),
        decreases names.len() - i,
    {
        assert(all.take(i + 1).drop_last() =~= all.take(i as int));
        assert(all.take(i + 1).last() == names@[i as int]@);
        let room: usize = (available as usize).saturating_sub(caps.saturating_add(5) as usize);
        let body = cat3(" ", fit(names[i].as_str(), room).as_str(), " × ");
        let wide: u16 = clamp16(width(body.as_str())).saturating_add(caps);
        if x > 0 && x.saturating_add(wide) > available {
            x = 0;
            y = y.saturating_add(1);
        }
        let token = Laid { x, y, width: wide, name: names[i].clone(), body };
        assert(tokens(out@.push(token)) =~= tokens(out@).push(
            Token {
                x: x as int,
                y: y as int,
                width: wide as int,
                name: token.name@,
                body: token.body@,
            },
        ));
        out.push(token);
        x = x.saturating_add(wide).saturating_add(1);
        i = i + 1;
    }
    assert(all.take(i as int) =~= all);
    (out, y)
}

/// How many tags are in rows above the first one that is shown.
pub open spec fn hidden_count(list: Seq<Token>, first: int) -> int
    decreases list.len(),
{
    if list.len() == 0 {
        0
    } else {
        hidden_count(list.drop_last(), first) + if list.last().y < first {
            1int
        } else {
            0int
        }
    }
}

fn count_hidden(list: &Vec<Laid>, first: u16) -> (r: usize)
    ensures
        r == hidden_count(tokens(list@), first as int),
{
    let ghost all = tokens(list@);
    let mut count: usize = 0;
    let mut i: usize = 0;
    assert(all.take(0) =~= Seq::empty());
    while i < list.len()
        invariant
            i <= list.len(),
            count <= i,
            all == tokens(list@),
            count == hidden_count(all.take(i as int), first as int),
        decreases list.len() - i,
    {
        assert(all.take(i + 1).drop_last() =~= all.take(i as int));
        assert(all.take(i + 1).last().y == list@[i as int].y);
        if list[i].y < first {
            count = count + 1;
        }
        i = i + 1;
    }
    assert(all.take(i as int) =~= all);
    count
}

/// Where a tag is on the screen.
pub open spec fn token_rect(token: Token, inner: Rect, first: int, overflow: bool) -> Rect {
    Rect::at(
        plus16(plus16(token.x, inner.x as int), 1),
        plus16(
            plus16(inner.y as int, token.y - first),
            if overflow {
                1
            } else {
                0
            },
        ),
        token.width,
        1,
    )
}

/// The tags that are shown, with their places.
pub open spec fn placed_chips(list: Seq<Token>, inner: Rect, first: int, overflow: bool) -> Seq<ChipView>
    decreases list.len(),
{
    if list.len() == 0 {
        Seq::empty()
    } else {
        let before = placed_chips(list.drop_last(), inner, first, overflow);
        if list.last().y < first {
            before
        } else {
            before.push(
                ChipView {
                    rect: token_rect(list.last(), inner, first, overflow),
                    name: list.last().name,
                },
            )
        }
    }
}

/// The tag whose removal was begun is underlined.
pub open spec fn token_style(underlined: bool) -> Style {
    Style { underlined, ..Style::plain() }
}

/// The drawing of the tags that are shown.
pub open spec fn chip_scene(
    list: Seq<Token>,
    inner: Rect,
    first: int,
    overflow: bool,
    armed: Option<Seq<char>>,
    look: Look,
) -> Seq<DrawView>
    decreases list.len(),
{
    if list.len() == 0 {
        Seq::empty()
    } else {
        let before = chip_scene(list.drop_last(), inner, first, overflow, armed, look);
        let token = list.last();
        if token.y < first {
            before
        } else {
            before.push(
                shown(
                    token_rect(token, inner, first, overflow),
                    seq![pill(trimmed(token.body), look.fill(token.name), look)],
                    token_style(armed == Some(token.name)),
                ),
            )
        }
    }
}

fn draw_chips(
    scene: &mut Scene,
    chips: &mut Vec<Chip>,
    list: &Vec<Laid>,
    inner: Rect,
    first: u16,
    overflow: bool,
    armed: &Option<String>,
    look: &Look,
)
    requires
        old(chips)@.len() == 0,
    ensures
        chips_view(final(chips)@) == placed_chips(tokens(list@), inner, first as int, overflow),
        final(scene)@ == old(scene)@ + chip_scene(
            tokens(list@),
            inner,
            first as int,
            overflow,
            crate::text::said(*armed),
            *look,
        ),
{
    let ghost all = tokens(list@);
    let ghost mark = crate::text::said(*armed);
    let ghost before = scene@;
    let mut i: usize = 0;
    assert(all.take(0) =~= Seq::empty());
    assert(chips_view(chips@) =~= Seq::empty());
    assert(scene@ =~= before + Seq::empty());
    while i < list.len()
        invariant
            i <= list.len(),
            all == tokens(list@),
            mark == crate::text::said(*armed),
            chips_view(chips@) == placed_chips(all.take(i as int), inner, first as int, overflow),
            scene@ == before + chip_scene(
                all.take(i as int),
                inner,
                first as int,
                overflow,
                mark,
                *look,
            ),
        decreases list.len() - i,
    {
        let token = &list[i];
        assert(all.take(i + 1).drop_last() =~= all.take(i as int));
        assert(all.take(i + 1).last() == all[i as int]);
        if token.y >= first {
            let down: u16 = if overflow {
                1
            } else {
                0
            };
            let rect = Rect::new(
                token.x.saturating_add(inner.x).saturating_add(1),
                inner.y.saturating_add(token.y - first).saturating_add(down),
                token.width,
                1,
            );
            let underlined = match armed {
                Some(name) => same_text(name.as_str(), token.name.as_str()),
                None => false,
            };
            let mut line = Line::new();
            push_pill(
                &mut line,
                trim(token.body.as_str()).as_str(),
                look.fill_of(token.name.as_str()),
                look,
            );
            assert(line@ =~= pill(trimmed(token.body@), look.fill(token.name@), *look));
            let style = Style { underlined, ..Style::plain() };
            scene.line(rect, line, style);
            let chip = Chip { rect, name: token.name.clone() };
            assert(chips_view(chips@.push(chip)) =~= chips_view(chips@).push(
                ChipView { rect, name: token.name@ },
            ));
            chips.push(chip);
            assert(rect == token_rect(all[i as int], inner, first as int, overflow));
            assert(scene@ =~= before + chip_scene(
                all.take(i + 1),
                inner,
                first as int,
                overflow,
                mark,
                *look,
            ));
        }
        i = i + 1;
    }
    assert(all.take(i as int) =~= all);
}

/// The numbers of the dialog of the tags.
pub ghost struct TagLayout {
    pub w: int,
    pub h: int,
    pub list: Seq<Token>,
    /// The rows that the tags take, and that they may take.
    pub chip_rows: int,
    /// Some of the tags are not shown.
    pub overflow: bool,
    /// The first row of tags that is shown.
    pub first: int,
}

impl BatchView {
    #[verifier::opaque]
    pub open spec fn tag_layout(self, area: Rect, look: Look) -> TagLayout {
        let w = spec_min(monus(area.width as int, 2), 50);
        let (list, _, y) = laid(self.selected_tags, monus(w, 4), caps_width(look));
        let all_rows = if list.len() == 0 {
            0
        } else {
            plus16(y, 1)
        };
        let chip_rows = spec_min(all_rows, monus(area.height as int, 10) / 2);
        let overflow = all_rows > chip_rows && chip_rows > 0;
        let first = monus(
            all_rows,
            monus(
                chip_rows,
                if overflow {
                    1
                } else {
                    0
                },
            ),
        );
        let h = spec_min(
            monus(area.height as int, 2),
            spec_max(1, spec_min(self.shown.len() as int, 7)) + 6 + chip_rows,
        );
        TagLayout { w, h, list, chip_rows, overflow, first }
    }

    pub open spec fn tag_title(self, name: Seq<char>, w: int) -> Seq<char> {
        " Tags · "@ + if self.keys.len() == 1 {
            fitted(name, monus(w, 12))
        } else {
            numeral(self.total()) + " skills · tokens shared by all"@
        } + " "@
    }

    pub open spec fn tag_list_in(inner: Rect, chip_rows: int) -> Rect {
        Rect::at(
            plus16(inner.x as int, 1),
            plus16(plus16(inner.y as int, chip_rows), 2),
            monus(inner.width as int, 2),
            monus(inner.height as int, plus16(4, chip_rows)),
        )
    }

    pub open spec fn tag_input_in(inner: Rect, chip_rows: int) -> Rect {
        Rect::at(
            plus16(inner.x as int, 3),
            plus16(inner.y as int, chip_rows),
            monus(inner.width as int, 4),
            1,
        )
    }

    pub open spec fn tag_cramped(inner: Rect) -> bool {
        inner.height < 4 || inner.width < 6
    }

    /// The list once it is drawn in an area.
    pub open spec fn list_at(self, rows: Rect) -> ListNav {
        ListNav {
            rows,
            selected: clamped(self.list.selected, self.shown.len() as int),
            ..self.list
        }.drawn(self.shown.len() as int)
    }

    /// The dialog of the tags once it is drawn: where everything is.
    pub open spec fn tags_placed(self, area: Rect, look: Look) -> BatchView {
        let lay = self.tag_layout(area, look);
        let rect = dialog_in(area, lay.w, lay.h);
        let inner = rect.inside();
        if BatchView::tag_cramped(inner) {
            BatchView { rect, tag_chips: Seq::empty(), ..self }
        } else {
            let field = BatchView::tag_input_in(inner, lay.chip_rows);
            BatchView {
                rect,
                tag_chips: placed_chips(lay.list, inner, lay.first, lay.overflow),
                input_rect: field,
                input: InputView { field, ..self.input },
                list: self.list_at(BatchView::tag_list_in(inner, lay.chip_rows)),
                ..self
            }
        }
    }

    /// How many of the skills have a tag, in short.
    pub open spec fn membership(self, row: Row) -> Seq<char> {
        if row.count == self.total() {
            "✓"@
        } else if row.count > 0 {
            numeral(row.count as int) + "/"@ + numeral(self.total())
        } else {
            " "@
        }
    }

    /// The row of a tag.
    pub open spec fn tag_line(self, row: Row, width: int, look: Look) -> Seq<SpanView> {
        let caps = caps_width(look);
        let told = self.membership(row);
        let told_width = spec_min(display_width(told) as int, 65535);
        let label = fitted(row.label@, monus(width, plus16(plus16(6, caps), told_width)));
        let chip_width = spec_min(display_width(" "@ + label + " "@) as int, 65535);
        let gap = monus(width, plus16(plus16(plus16(chip_width, caps), told_width), 2));
        seq![plain_run(" "@)] + pill(label, look.fill(row.id@), look) + seq![
            plain_run(repeated(' ', gap)),
            run(told, look.theme.ok()),
            plain_run(" "@),
        ]
    }

    /// The offer to create a tag.
    pub open spec fn create_line(self, width: int, look: Look) -> Seq<SpanView> {
        seq![
            run(" + "@, look.theme.accent()),
            run("Create "@, look.theme.dim()),
            run(fitted(trimmed(self.input.text), monus(width, 10)), look.theme.accent()),
        ]
    }

    pub open spec fn tag_row(self, at: usize, width: int, look: Look) -> Seq<SpanView> {
        if at < self.rows.len() {
            self.tag_line(self.rows[at as int], width, look)
        } else {
            self.create_line(width, look)
        }
    }

    pub open spec fn tag_rows(self, width: int, look: Look) -> Seq<Seq<SpanView>> {
        self.shown.map_values(|at: usize| self.tag_row(at, width, look))
    }

    pub open spec fn armed_tag(self) -> Option<Seq<char>> {
        if self.remove_armed && self.selected_tags.len() > 0 {
            Some(self.selected_tags.last())
        } else {
            None
        }
    }

    pub open spec fn overflow_scene(self, inner: Rect, lay: TagLayout, look: Look) -> Seq<DrawView> {
        if lay.overflow {
            seq![
                shown(
                    Rect::at(
                        plus16(inner.x as int, 1),
                        inner.y as int,
                        monus(inner.width as int, 2),
                        1,
                    ),
                    seq![
                        seq![
                            plain_run(
                                "+"@ + numeral(hidden_count(lay.list, lay.first))
                                    + " more · search to remove"@,
                            ),
                        ],
                    ],
                    look.theme.dim(),
                ),
            ]
        } else {
            Seq::empty()
        }
    }

    pub open spec fn field_scene(self, inner: Rect, chip_rows: int, look: Look) -> Seq<DrawView> {
        let y = plus16(inner.y as int, chip_rows);
        seq![
            shown(
                Rect::at(plus16(inner.x as int, 1), y, 1, 1),
                seq![seq![plain_run("›"@)]],
                look.theme.accent(),
            ),
            DrawView::Field {
                rect: BatchView::tag_input_in(inner, chip_rows),
                value: self.input.text,
                cursor: self.input.cursor as usize,
                focused: true,
                placeholder: "Search or create…"@,
            },
            shown(
                Rect::at(inner.x as int, plus16(y, 1), inner.width as int, 1),
                seq![seq![plain_run(repeated('─', inner.width as int))]],
                look.theme.dim(),
            ),
        ]
    }

    pub open spec fn tag_note(self) -> Seq<char> {
        if self.remove_armed {
            "Backspace removes last tag · type to cancel"@
        } else if self.selects_shared() {
            "Enter remove · Esc done"@
        } else {
            "Enter add · × remove · Esc done"@
        }
    }

    pub open spec fn rows_scene(self, inner: Rect, chip_rows: int, look: Look) -> Seq<DrawView> {
        let at = BatchView::tag_list_in(inner, chip_rows);
        seq![
            if self.shown.len() == 0 {
                shown(
                    at,
                    seq![seq![plain_run("Type to add or create a tag"@)]],
                    look.theme.dim(),
                )
            } else {
                listed(
                    self.list,
                    self.tag_rows(at.width as int, look),
                    look.theme.selected_unfocused(),
                )
            },
            shown(
                Rect::at(
                    plus16(inner.x as int, 2),
                    inner.end_y() - 1,
                    monus(inner.width as int, 4),
                    1,
                ),
                seq![seq![plain_run(self.tag_note())]],
                look.theme.dim(),
            ),
        ]
    }

    /// The drawing of the dialog of the tags. `name` is that of the skill, where it is one.
    pub open spec fn tags_scene(self, area: Rect, name: Seq<char>, look: Look) -> Seq<DrawView> {
        let lay = self.tag_layout(area, look);
        let rect = dialog_in(area, lay.w, lay.h);
        let inner = rect.inside();
        let border = seq![
            DrawView::Clear(rect),
            DrawView::Frame {
                rect,
                title: seq![run(self.tag_title(name, lay.w), look.theme.accent())],
                focused: false,
            },
        ];
        if BatchView::tag_cramped(inner) {
            border
        } else {
            let after = BatchView {
                list: self.list_at(BatchView::tag_list_in(inner, lay.chip_rows)),
                ..self
            };
            border + self.overflow_scene(inner, lay, look) + chip_scene(
                lay.list,
                inner,
                lay.first,
                lay.overflow,
                self.armed_tag(),
                look,
            ) + self.field_scene(inner, lay.chip_rows, look) + after.rows_scene(
                inner,
                lay.chip_rows,
                look,
            )
        }
    }
}

/// The numbers of the dialog of the tags.
struct Numbers {
    w: u16,
    h: u16,
    list: Vec<Laid>,
    chip_rows: u16,
    overflow: bool,
    first: u16,
}

impl Numbers {
    spec fn layout(self) -> TagLayout {
        TagLayout {
            w: self.w as int,
            h: self.h as int,
            list: tokens(self.list@),
            chip_rows: self.chip_rows as int,
            overflow: self.overflow,
            first: self.first as int,
        }
    }
}

impl Batch {
    fn measure(&self, area: Rect, look: &Look) -> (r: Numbers)
        requires
            area.in_range(),
        ensures
            r.layout() == self@.tag_layout(area, *look),
            r.w <= area.width,
            r.h <= area.height,
    {
        reveal(BatchView::tag_layout);
        let w: u16 = min16(area.width.saturating_sub(2), 50);
        let (list, y) = lay(&self.selected_tags, w.saturating_sub(4), look.caps());
        assert(tokens(list@).len() == list@.len());
        let all_rows: u16 = if list.len() == 0 {
            0
        } else {
            y.saturating_add(1)
        };
        let chip_rows: u16 = min16(all_rows, area.height.saturating_sub(10) / 2);
        let overflow = all_rows > chip_rows && chip_rows > 0;
        let less: u16 = if overflow {
            1
        } else {
            0
        };
        let first: u16 = all_rows.saturating_sub(chip_rows.saturating_sub(less));
        let rows: u16 = if self.shown.len() < 1 {
            1
        } else if self.shown.len() > 7 {
            7
        } else {
            self.shown.len() as u16
        };
        let h: u16 = min16(area.height.saturating_sub(2), rows + 6 + chip_rows);
        Numbers { w, h, list, chip_rows, overflow, first }
    }

    fn tag_title(&self, name: &str, w: u16) -> (r: String)
        ensures
            r@ == self@.tag_title(name@, w as int),
    {
        let middle = if self.keys.len() == 1 {
            fit(name, w.saturating_sub(12) as usize)
        } else {
            cat2(decimal(self.keys.len()).as_str(), " skills · tokens shared by all")
        };
        cat3(" Tags · ", middle.as_str(), " ")
    }

    fn membership(&self, row: &Row) -> (r: String)
        ensures
            r@ == self@.membership(*row),
    {
        if row.count == self.keys.len() {
            "✓".to_owned()
        } else if row.count > 0 {
            cat3(decimal(row.count).as_str(), "/", decimal(self.keys.len()).as_str())
        } else {
            " ".to_owned()
        }
    }

    fn draw_tag_line(&self, row: &Row, wide: u16, look: &Look) -> (r: Line)
        ensures
            r@ == self@.tag_line(*row, wide as int, *look),
    {
        let caps = look.caps();
        let told = self.membership(row);
        let told_width: u16 = clamp16(width(told.as_str()));
        let six: u16 = 6;
        let room: u16 = wide.saturating_sub(six.saturating_add(caps).saturating_add(told_width));
        let label = fit(row.label.as_str(), room as usize);
        let chip_width: u16 = clamp16(width(cat3(" ", label.as_str(), " ").as_str()));
        let gap: u16 = wide.saturating_sub(
            chip_width.saturating_add(caps).saturating_add(told_width).saturating_add(2),
        );
        let mut line = Line::raw(" ");
        push_pill(&mut line, label.as_str(), look.fill_of(row.id.as_str()), look);
        line.push(Span::raw(repeat(' ', gap as usize).as_str()));
        line.push(Span::of(told, look.theme.ok()));
        line.push(Span::raw(" "));
        assert(line@ =~= self@.tag_line(*row, wide as int, *look));
        line
    }

    fn draw_create_line(&self, wide: u16, look: &Look) -> (r: Line)
        ensures
            r@ == self@.create_line(wide as int, *look),
    {
        let mut line = Line::new();
        line.push(Span::styled(" + ", look.theme.accent()));
        line.push(Span::styled("Create ", look.theme.dim()));
        line.push(
            Span::of(
                fit(trim(self.input.value().as_str()).as_str(), wide.saturating_sub(10) as usize),
                look.theme.accent(),
            ),
        );
        line
    }

    fn draw_tag_rows(&self, wide: u16, look: &Look) -> (r: Lines)
        ensures
            r@ == self@.tag_rows(wide as int, *look),
    {
        let mut lines = Lines::new();
        let ghost all = self@.tag_rows(wide as int, *look);
        let mut i: usize = 0;
        while i < self.shown.len()
            invariant
                i <= self.shown.len(),
                all == self@.tag_rows(wide as int, *look),
                lines@ == all.take(i as int),
            decreases self.shown.len() - i,
        {
            let at = self.shown[i];
            let line = if at < self.rows.len() {
                self.draw_tag_line(&self.rows[at], wide, look)
            } else {
                self.draw_create_line(wide, look)
            };
            assert(line@ == all[i as int]);
            lines.push(line);
            i = i + 1;
            assert(lines@ =~= all.take(i as int));
        }
        assert(lines@ =~= all);
        lines
    }

    fn draw_field(&self, scene: &mut Scene, inner: Rect, chip_rows: u16, look: &Look)
        requires
            self.input_rect == BatchView::tag_input_in(inner, chip_rows as int),
        ensures
            final(scene)@ == old(scene)@ + self@.field_scene(inner, chip_rows as int, *look),
    {
        let y: u16 = inner.y.saturating_add(chip_rows);
        scene.note(
            Rect::new(inner.x.saturating_add(1), y, 1, 1),
            "›",
            look.theme.accent(),
        );
        scene.push(
            Draw::Field {
                rect: self.input_rect,
                value: self.input.value(),
                cursor: self.input.cursor,
                focused: true,
                placeholder: "Search or create…".to_owned(),
            },
        );
        scene.note(
            Rect::new(inner.x, y.saturating_add(1), inner.width, 1),
            repeat('─', inner.width as usize).as_str(),
            look.theme.dim(),
        );
        assert(scene@ =~= old(scene)@ + self@.field_scene(inner, chip_rows as int, *look));
    }

    fn draw_tag_list(&self, scene: &mut Scene, inner: Rect, chip_rows: u16, look: &Look)
        requires
            inner.in_range(),
            inner.height >= 4,
            self.list.rows == BatchView::tag_list_in(inner, chip_rows as int),
        ensures
            final(scene)@ == old(scene)@ + self@.rows_scene(inner, chip_rows as int, *look),
    {
        if self.shown.len() == 0 {
            scene.note(self.list.rows, "Type to add or create a tag", look.theme.dim());
        } else {
            let rows = self.draw_tag_rows(self.list.rows.width, look);
            scene.list(self.list, rows, look.theme.selected_unfocused());
        }
        let note = if self.remove_armed {
            "Backspace removes last tag · type to cancel"
        } else if self.is_shared_selected() {
            "Enter remove · Esc done"
        } else {
            "Enter add · × remove · Esc done"
        };
        scene.note(
            Rect::new(
                inner.x.saturating_add(2),
                inner.bottom() - 1,
                inner.width.saturating_sub(4),
                1,
            ),
            note,
            look.theme.dim(),
        );
        assert(scene@ =~= old(scene)@ + self@.rows_scene(inner, chip_rows as int, *look));
    }

    fn draw_overflow(&self, scene: &mut Scene, inner: Rect, numbers: &Numbers, look: &Look)
        ensures
            final(scene)@ == old(scene)@ + self@.overflow_scene(inner, numbers.layout(), *look),
    {
        if numbers.overflow {
            let hidden = count_hidden(&numbers.list, numbers.first);
            scene.note(
                Rect::new(
                    inner.x.saturating_add(1),
                    inner.y,
                    inner.width.saturating_sub(2),
                    1,
                ),
                cat3("+", decimal(hidden).as_str(), " more · search to remove").as_str(),
                look.theme.dim(),
            );
        }
        assert(scene@ =~= old(scene)@ + self@.overflow_scene(inner, numbers.layout(), *look));
    }

    fn armed(&self) -> (r: Option<String>)
        ensures
            crate::text::said(r) == self@.armed_tag(),
    {
        if self.remove_armed && self.selected_tags.len() > 0 {
            Some(self.selected_tags[self.selected_tags.len() - 1].clone())
        } else {
            None
        }
    }

    /// Draws the dialog of the tags.
    #[verifier::rlimit(30)]
    fn draw_tags(&mut self, area: Rect, name: &str, look: &Look) -> (r: Scene)
        requires
            area.in_range(),
            old(self)@.valid(),
        ensures
            final(self)@ == old(self)@.tags_placed(area, *look),
            final(self)@.valid(),
            r@ == old(self)@.tags_scene(area, name@, *look),
    {
        let numbers = self.measure(area, look);
        let rect = place_dialog(area, numbers.w, numbers.h);
        let inner = rect.inner();
        let title = self.tag_title(name, numbers.w);
        let armed = self.armed();
        let mut scene = Scene::new();
        scene.clear(rect);
        scene.push(
            Draw::Frame {
                rect,
                title: Line::styled(title.as_str(), look.theme.accent()),
                focused: false,
            },
        );
        self.rect = rect;
        let mut chips: Vec<Chip> = Vec::new();
        if inner.height < 4 || inner.width < 6 {
            assert(chips_view(chips@) =~= Seq::empty());
            self.tag_chips = chips;
            assert(self@.valid());
            return scene;
        }
        self.draw_overflow(&mut scene, inner, &numbers, look);
        draw_chips(
            &mut scene,
            &mut chips,
            &numbers.list,
            inner,
            numbers.first,
            numbers.overflow,
            &armed,
            look,
        );
        self.tag_chips = chips;
        let chip_rows = numbers.chip_rows;
        let four: u16 = 4;
        self.input_rect = Rect::new(
            inner.x.saturating_add(3),
            inner.y.saturating_add(chip_rows),
            inner.width.saturating_sub(4),
            1,
        );
        self.input.place(self.input_rect);
        self.list.rows = Rect::new(
            inner.x.saturating_add(1),
            inner.y.saturating_add(chip_rows).saturating_add(2),
            inner.width.saturating_sub(2),
            inner.height.saturating_sub(four.saturating_add(chip_rows)),
        );
        self.list.clamp(self.shown.len());
        self.list.show(self.shown.len());
        self.draw_field(&mut scene, inner, chip_rows, look);
        self.draw_tag_list(&mut scene, inner, chip_rows, look);
        proof {
            let after = BatchView {
                list: old(self)@.list_at(BatchView::tag_list_in(inner, chip_rows as int)),
                ..old(self)@
            };
            lemma_same_tag_scene(self@, after, inner, chip_rows as int, *look);
            lemma_same_field_scene(self@, old(self)@, inner, chip_rows as int, *look);
        }
        assert(self@.valid());
        scene
    }
}

proof fn lemma_same_tag_scene(a: BatchView, b: BatchView, inner: Rect, chip_rows: int, look: Look)
    requires
        a.rows == b.rows,
        a.shown == b.shown,
        a.keys == b.keys,
        a.input.text == b.input.text,
        a.list == b.list,
        a.remove_armed == b.remove_armed,
    ensures
        a.rows_scene(inner, chip_rows, look) == b.rows_scene(inner, chip_rows, look),
{
    let w = BatchView::tag_list_in(inner, chip_rows).width as int;
    assert(a.tag_rows(w, look) =~= b.tag_rows(w, look)) by {
        assert forall|i: int| 0 <= i < a.shown.len() implies #[trigger] a.tag_rows(w, look)[i]
            == b.tag_rows(w, look)[i] by {
            let at = a.shown[i];
            assert(a.tag_row(at, w, look) == b.tag_row(at, w, look));
        }
    }
}

proof fn lemma_same_field_scene(a: BatchView, b: BatchView, inner: Rect, chip_rows: int, look: Look)
    requires
        a.input.text == b.input.text,
        a.input.cursor == b.input.cursor,
    ensures
        a.field_scene(inner, chip_rows, look) == b.field_scene(inner, chip_rows, look),
{
}

// ---- the other dialogs -------------------------------------------------------

/// What is said of a plan.
pub open spec fn changing(actions: Seq<PlannedLink>) -> int
    decreases actions.len(),
{
    if actions.len() == 0 {
        0
    } else {
        changing(actions.drop_last()) + if actions.last().action.changes() {
            1int
        } else {
            0int
        }
    }
}

fn count_changes(actions: &Vec<PlannedLink>) -> (r: usize)
    ensures
        r == changing(actions@),
        r <= actions@.len(),
{
    let mut count: usize = 0;
    let mut i: usize = 0;
    assert(actions@.take(0) =~= Seq::empty());
    while i < actions.len()
        invariant
            i <= actions.len(),
            count <= i,
            count == changing(actions@.take(i as int)),
        decreases actions.len() - i,
    {
        assert(actions@.take(i + 1).drop_last() =~= actions@.take(i as int));
        if actions[i].action.is_change() {
            count = count + 1;
        }
        i = i + 1;
    }
    assert(actions@.take(i as int) =~= actions@);
    count
}

impl BatchView {
    pub open spec fn title(self) -> Seq<char> {
        " "@ + match self.kind {
            Kind::Tags => "Tags"@,
            Kind::Deploy => "Deploy"@,
            Kind::Presets => "Add to presets"@,
        } + " · "@ + numeral(self.total()) + " skills "@
    }

    /// What is wanted of a row, in words.
    pub open spec fn detail(self, row: Row) -> Seq<char> {
        match row.desired {
            Some(on) => if self.kind == Kind::Presets {
                "add"@
            } else if on {
                "all"@
            } else {
                "none"@
            },
            None => numeral(row.count as int) + "/"@ + numeral(self.total()),
        }
    }

    pub open spec fn plain_row(self, at: usize, width: int) -> Seq<SpanView> {
        let row = self.rows[at as int];
        seq![
            plain_run(
                row.mark(self.total()) + " "@ + fitted(row.label@, monus(width, 14)) + "  "@
                    + self.detail(row),
            ),
        ]
    }

    pub open spec fn plain_rows(self, width: int) -> Seq<Seq<SpanView>> {
        self.shown.map_values(|at: usize| self.plain_row(at, width))
    }

    /// What is said below the list.
    pub open spec fn summary(self, plan: Result<Vec<PlannedLink>, String>) -> Seq<char> {
        if self.busy {
            "Applying changes… Please wait."@
        } else if self.error is Some {
            self.error->0
        } else if self.kind == Kind::Deploy {
            match plan {
                Ok(actions) => "Apply "@ + numeral(changing(actions@)) + " link changes; "@
                    + numeral(actions@.len() - changing(actions@)) + " unchanged/skipped"@,
                Err(error) => error@,
            }
        } else {
            "Add selected skills to each chosen Preset's fixed member list."@
        }
    }

    pub open spec fn rect_in(area: Rect) -> Rect {
        dialog_in(
            area,
            spec_min(monus(area.width as int, 2), 76),
            spec_min(monus(area.height as int, 2), 20),
        )
    }

    pub open spec fn plain_list_in(inner: Rect) -> Rect {
        Rect::at(inner.x as int, inner.y + 2, inner.width as int, inner.height - 5)
    }

    pub open spec fn foot_in(inner: Rect) -> Rect {
        Rect::at(inner.x as int, inner.end_y() - 1, inner.width as int, 1)
    }

    /// The dialog once it is drawn: where everything is.
    pub open spec fn plain_placed(self, area: Rect) -> BatchView {
        let rect = BatchView::rect_in(area);
        let inner = rect.inside();
        if inner.height < 5 {
            BatchView { rect, ..self }
        } else {
            let field = Rect::at(inner.x as int, inner.y as int, inner.width as int, 1);
            let buttons = button_rects(BatchView::foot_in(inner), "Apply"@, "Cancel"@);
            BatchView {
                rect,
                input_rect: field,
                input: InputView { field, ..self.input },
                list: self.list_at(BatchView::plain_list_in(inner)),
                apply: buttons[0],
                cancel: buttons[1],
                ..self
            }
        }
    }

    pub open spec fn body_scene(
        self,
        inner: Rect,
        plan: Result<Vec<PlannedLink>, String>,
        theme: Theme,
    ) -> Seq<DrawView> {
        let at = BatchView::plain_list_in(inner);
        seq![
            DrawView::Field {
                rect: Rect::at(inner.x as int, inner.y as int, inner.width as int, 1),
                value: self.input.text,
                cursor: self.input.cursor as usize,
                focused: self.focus == BatchFocus::Input,
                placeholder: "Filter…"@,
            },
            if self.shown.len() == 0 {
                shown(at, seq![seq![plain_run("No matching entries"@)]], theme.dim())
            } else {
                listed(
                    self.list_at(at),
                    self.plain_rows(inner.width as int),
                    if self.focus == BatchFocus::List {
                        theme.selected()
                    } else {
                        theme.selected_unfocused()
                    },
                )
            },
            shown(
                Rect::at(inner.x as int, inner.end_y() - 2, inner.width as int, 1),
                seq![seq![plain_run(fitted(self.summary(plan), inner.width as int))]],
                if self.error is Some {
                    theme.err()
                } else {
                    theme.dim()
                },
            ),
        ]
    }

    /// The drawing of one of the other dialogs.
    pub open spec fn plain_scene(
        self,
        area: Rect,
        plan: Result<Vec<PlannedLink>, String>,
        theme: Theme,
    ) -> Seq<DrawView> {
        let rect = BatchView::rect_in(area);
        let inner = rect.inside();
        let border = seq![DrawView::Clear(rect), framed(rect, self.title())];
        if inner.height < 5 {
            border.push(
                shown(
                    inner,
                    seq![seq![plain_run("Enlarge terminal · Esc cancel"@)]],
                    Style::plain(),
                ),
            )
        } else {
            border + self.body_scene(inner, plan, theme) + footer_scene(
                BatchView::foot_in(inner),
                self.focus.choice(),
                self.pending() > 0,
                if self.pending() == 0 {
                    "No pending changes"@
                } else {
                    "Pending changes"@
                },
                "Apply"@,
                "Cancel"@,
                theme,
            )
        }
    }
}

impl Batch {
    fn title(&self) -> (r: String)
        ensures
            r@ == self@.title(),
    {
        let kind = match self.kind {
            Kind::Tags => "Tags",
            Kind::Deploy => "Deploy",
            Kind::Presets => "Add to presets",
        };
        cat5(" ", kind, " · ", decimal(self.keys.len()).as_str(), " skills ")
    }

    fn detail(&self, row: &Row) -> (r: String)
        ensures
            r@ == self@.detail(*row),
    {
        match row.desired {
            Some(on) => if self.kind == Kind::Presets {
                "add".to_owned()
            } else if on {
                "all".to_owned()
            } else {
                "none".to_owned()
            },
            None => cat3(decimal(row.count).as_str(), "/", decimal(self.keys.len()).as_str()),
        }
    }

    fn draw_plain_rows(&self, wide: u16) -> (r: Lines)
        requires
            self@.valid(),
            self@.kind != Kind::Tags,
        ensures
            r@ == self@.plain_rows(wide as int),
    {
        let mut lines = Lines::new();
        let ghost all = self@.plain_rows(wide as int);
        let mut i: usize = 0;
        while i < self.shown.len()
            invariant
                i <= self.shown.len(),
                self@.valid(),
                self@.kind != Kind::Tags,
                all == self@.plain_rows(wide as int),
                lines@ == all.take(i as int),
            decreases self.shown.len() - i,
        {
            assert(self@.shown[i as int] < self@.rows.len());
            let row = &self.rows[self.shown[i]];
            let text = cat5(
                row.marker(self.keys.len()),
                " ",
                fit(row.label.as_str(), wide.saturating_sub(14) as usize).as_str(),
                "  ",
                self.detail(row).as_str(),
            );
            let line = Line::raw(text.as_str());
            assert(line@ =~= all[i as int]);
            lines.push(line);
            i = i + 1;
            assert(lines@ =~= all.take(i as int));
        }
        assert(lines@ =~= all);
        lines
    }

    fn summary(&self, plan: &Result<Vec<PlannedLink>, String>) -> (r: String)
        ensures
            r@ == self@.summary(*plan),
    {
        if self.busy {
            return "Applying changes… Please wait.".to_owned();
        }
        match &self.error {
            Some(error) => {
                return error.clone();
            },
            None => {},
        }
        if self.kind == Kind::Deploy {
            match plan {
                Ok(actions) => {
                    let changes = count_changes(actions);
                    cat5(
                        "Apply ",
                        decimal(changes).as_str(),
                        " link changes; ",
                        decimal(actions.len() - changes).as_str(),
                        " unchanged/skipped",
                    )
                },
                Err(error) => error.clone(),
            }
        } else {
            "Add selected skills to each chosen Preset's fixed member list.".to_owned()
        }
    }

    fn draw_body(
        &self,
        scene: &mut Scene,
        inner: Rect,
        plan: &Result<Vec<PlannedLink>, String>,
        theme: &Theme,
    )
        requires
            self@.valid(),
            self@.kind != Kind::Tags,
            inner.in_range(),
            inner.height >= 5,
        ensures
            final(scene)@ == old(scene)@ + self@.body_scene(inner, *plan, *theme),
    {
        let at = Rect::new(inner.x, inner.y + 2, inner.width, inner.height - 5);
        scene.push(
            Draw::Field {
                rect: Rect::new(inner.x, inner.y, inner.width, 1),
                value: self.input.value(),
                cursor: self.input.cursor,
                focused: self.focus == BatchFocus::Input,
                placeholder: "Filter…".to_owned(),
            },
        );
        if self.shown.len() == 0 {
            scene.note(at, "No matching entries", theme.dim());
        } else {
            let rows = self.draw_plain_rows(inner.width);
            let mut list = self.list;
            list.rows = at;
            list.clamp(self.shown.len());
            list.show(self.shown.len());
            scene.list(
                list,
                rows,
                if self.focus == BatchFocus::List {
                    theme.selected()
                } else {
                    theme.selected_unfocused()
                },
            );
        }
        let summary = self.summary(plan);
        scene.note(
            Rect::new(inner.x, inner.bottom() - 2, inner.width, 1),
            fit(summary.as_str(), inner.width as usize).as_str(),
            if self.error.is_some() {
                theme.err()
            } else {
                theme.dim()
            },
        );
        assert(scene@ =~= old(scene)@ + self@.body_scene(inner, *plan, *theme));
    }

    /// Draws one of the other dialogs.
    fn draw_plain(
        &mut self,
        area: Rect,
        plan: &Result<Vec<PlannedLink>, String>,
        theme: &Theme,
    ) -> (r: Scene)
        requires
            area.in_range(),
            old(self)@.valid(),
            old(self)@.kind != Kind::Tags,
        ensures
            final(self)@ == old(self)@.plain_placed(area),
            final(self)@.valid(),
            r@ == old(self)@.plain_scene(area, *plan, *theme),
    {
        let w: u16 = min16(area.width.saturating_sub(2), 76);
        let h: u16 = min16(area.height.saturating_sub(2), 20);
        let rect = place_dialog(area, w, h);
        let inner = rect.inner();
        let title = self.title();
        let mut scene = Scene::new();
        scene.clear(rect);
        scene.frame(rect, title.as_str());
        if inner.height < 5 {
            scene.note(inner, "Enlarge terminal · Esc cancel", Style::plain());
            self.rect = rect;
            assert(self@.valid());
            return scene;
        }
        self.draw_body(&mut scene, inner, plan, theme);
        let pending = self.pending_count();
        let buttons = draw_with_labels(
            &mut scene,
            Rect::new(inner.x, inner.bottom() - 1, inner.width, 1),
            self.focus.as_choice(),
            pending > 0,
            if pending == 0 {
                "No pending changes"
            } else {
                "Pending changes"
            },
            "Apply",
            "Cancel",
            theme,
        );
        self.rect = rect;
        self.input_rect = Rect::new(inner.x, inner.y, inner.width, 1);
        self.input.place(self.input_rect);
        self.list.rows = Rect::new(inner.x, inner.y + 2, inner.width, inner.height - 5);
        self.list.clamp(self.shown.len());
        self.list.show(self.shown.len());
        self.apply = buttons[0];
        self.cancel = buttons[1];
        assert(self@.valid());
        scene
    }

    /// Draws the dialog in an area. `name` is that of the skill, where it is one, and
    /// `plan` what would be done to the agents' links.
    pub fn draw(
        &mut self,
        area: Rect,
        name: &str,
        plan: &Result<Vec<PlannedLink>, String>,
        look: &Look,
    ) -> (r: Scene)
        requires
            area.in_range(),
            old(self)@.valid(),
        ensures
            final(self)@ == if old(self)@.kind == Kind::Tags {
                old(self)@.tags_placed(area, *look)
            } else {
                old(self)@.plain_placed(area)
            },
            final(self)@.valid(),
            r@ == if old(self)@.kind == Kind::Tags {
                old(self)@.tags_scene(area, name@, *look)
            } else {
                old(self)@.plain_scene(area, *plan, look.theme)
            },
    {
        if self.kind == Kind::Tags {
            self.draw_tags(area, name, look)
        } else {
            self.draw_plain(area, plan, &look.theme)
        }
    }
}

// ---- laws --------------------------------------------------------------------

/// Where a preset could not be saved, exactly those before it are put back, each once, and
/// the last one first.
pub proof fn lemma_saved_presets_are_put_back(failed: nat, at: usize)
    requires
        failed <= usize::MAX,
    ensures
        put_back(failed).contains(at) <==> at < failed,
        forall|i: int, j: int|
            0 <= i < j < put_back(failed).len() ==> #[trigger] put_back(failed)[i]
                > #[trigger] put_back(failed)[j],
{
    if at < failed {
        assert(put_back(failed)[failed - 1 - at] == at);
    }
}

/// A tag that was put on some skills is on them, and putting it on them again changes
/// nothing; the same holds where it is taken from them.
pub proof fn lemma_tags_change_once(members: Seq<Seq<char>>, keys: Seq<Seq<char>>, add: bool)
    ensures
        changed_keys(
            if add {
                without_keys(members, keys) + keys
            } else {
                without_keys(members, keys)
            },
            keys,
            add,
        ).len() == 0,
{
    let after = if add {
        without_keys(members, keys) + keys
    } else {
        without_keys(members, keys)
    };
    assert forall|i: int| 0 <= i < keys.len() implies after.contains(#[trigger] keys[i]) == add by {
        lemma_without_keys(members, keys, keys[i]);
        if add {
            assert(after[without_keys(members, keys).len() + i] == keys[i]);
        }
    }
    lemma_unchanged(after, keys, add);
}

proof fn lemma_unchanged(members: Seq<Seq<char>>, keys: Seq<Seq<char>>, add: bool)
    requires
        forall|i: int| 0 <= i < keys.len() ==> members.contains(#[trigger] keys[i]) == add,
    ensures
        changed_keys(members, keys, add).len() == 0,
    decreases keys.len(),
{
    if keys.len() > 0 {
        assert forall|i: int| 0 <= i < keys.drop_last().len() implies members.contains(
            #[trigger] keys.drop_last()[i],
        ) == add by {
            assert(keys.drop_last()[i] == keys[i]);
        }
        lemma_unchanged(members, keys.drop_last(), add);
        assert(keys.last() == keys[keys.len() - 1]);
    }
}

proof fn lemma_without_keys(members: Seq<Seq<char>>, keys: Seq<Seq<char>>, key: Seq<char>)
    requires
        keys.contains(key),
    ensures
        !without_keys(members, keys).contains(key),
    decreases members.len(),
{
    if members.len() > 0 {
        lemma_without_keys(members.drop_last(), keys, key);
        let before = without_keys(members.drop_last(), keys);
        if !keys.contains(members.last()) {
            assert forall|i: int| 0 <= i < before.push(members.last()).len() implies before.push(
                members.last(),
            )[i] != key by {
                if i < before.len() {
                    assert(before.contains(before[i]));
                }
            }
        }
    }
}

/// Nothing that is to be done is left out of a plan, and nothing is added to it.
pub proof fn lemma_plans_keep_every_change(snap: Snapshot, actions: Seq<PlannedLink>, i: int)
    requires
        0 <= i < actions.len(),
        actions[i].action.changes(),
    ensures
        worthwhile(snap, actions).contains(actions[i]),
        worthwhile(snap, actions).len() <= actions.len(),
    decreases actions.len(),
{
    lemma_plan_len(snap, actions.drop_last());
    let before = worthwhile(snap, actions.drop_last());
    let after = worthwhile(snap, actions);
    if i == actions.len() - 1 {
        assert(after[after.len() - 1] == actions[i]);
    } else {
        lemma_plans_keep_every_change(snap, actions.drop_last(), i);
        let k = choose|k: int| 0 <= k < before.len() && before[k] == actions[i];
        assert(after[k] == actions[i]);
    }
}

proof fn lemma_plan_len(snap: Snapshot, actions: Seq<PlannedLink>)
    ensures
        worthwhile(snap, actions).len() <= actions.len(),
    decreases actions.len(),
{
    if actions.len() > 0 {
        lemma_plan_len(snap, actions.drop_last());
    }
}

/// Members that a preset has stay, in their order, and every key that is added is in it.
pub proof fn lemma_adding_keeps_members(members: Seq<Seq<char>>, keys: Seq<Seq<char>>, i: int)
    ensures
        members.is_prefix_of(with_keys(members, keys)),
        0 <= i < keys.len() ==> with_keys(members, keys).contains(keys[i]),
    decreases keys.len(),
{
    if keys.len() > 0 {
        lemma_adding_keeps_members(members, keys.drop_last(), i);
        let before = with_keys(members, keys.drop_last());
        let after = with_keys(members, keys);
        if i < keys.len() - 1 && 0 <= i {
            let k = choose|k: int| 0 <= k < before.len() && before[k] == keys[i];
            assert(after[k] == keys[i]);
        } else if i == keys.len() - 1 && !before.contains(keys.last()) {
            assert(after[after.len() - 1] == keys[i]);
        }
    }
}

/// Adding the same skills again changes nothing.
pub proof fn lemma_adding_twice_adds_once(members: Seq<Seq<char>>, keys: Seq<Seq<char>>)
    requires
        forall|i: int| 0 <= i < keys.len() ==> members.contains(#[trigger] keys[i]),
    ensures
        with_keys(members, keys) == members,
    decreases keys.len(),
{
    if keys.len() > 0 {
        assert forall|i: int| 0 <= i < keys.drop_last().len() implies members.contains(
            #[trigger] keys.drop_last()[i],
        ) by {
            assert(members.contains(keys[i]));
        }
        lemma_adding_twice_adds_once(members, keys.drop_last());
        assert(members.contains(keys[keys.len() - 1]));
    }
}

/// Choosing a row twice gives back what was wanted before.
pub proof fn lemma_toggling_twice(row: Row, total: int)
    ensures
        ({
            let once = Row { desired: Some(!row.wanted(total)), ..row };
            let twice = Row { desired: Some(!once.wanted(total)), ..once };
            once.wanted(total) != row.wanted(total) && twice.wanted(total) == row.wanted(total)
        }),
{
}

/// The last tag is not removed by one press of the key, and a press while something is
/// typed never removes one.
pub proof fn lemma_removal_takes_two_presses(batch: BatchView, key: KeyEvent)
    requires
        batch.kind == Kind::Tags,
        key.code == KeyCode::Backspace,
        !batch.remove_armed || batch.input.text.len() > 0,
    ensures
        batch.keyed(key).1 == BatchReply::Nothing,
        batch.keyed(key).0.selected_tags == batch.selected_tags,
{
}

/// A preset that has all the skills is not changed.
pub proof fn lemma_full_presets_are_left_alone(batch: BatchView)
    requires
        batch.kind == Kind::Presets,
        batch.selects_shared(),
    ensures
        batch.toggled() == batch,
{
}

/// A skill that is not among those that are edited keeps a tag that it has: the members that
/// are left are all the others, as often as they were there and in their order.
pub proof fn lemma_others_are_kept(members: Seq<Seq<char>>, keys: Seq<Seq<char>>)
    ensures
        without_keys(members, keys) == members.filter(|m: Seq<char>| !keys.contains(m)),
        forall|m: Seq<char>| #[trigger]
            without_keys(members, keys).contains(m) <==> members.contains(m) && !keys.contains(m),
        forall|m: Seq<char>|
            !keys.contains(m) ==> #[trigger] without_keys(members, keys).to_multiset().count(m)
                == members.to_multiset().count(m),
    decreases members.len(),
{
    reveal(Seq::filter);
    broadcast use vstd::seq_lib::group_to_multiset_ensures;

    if members.len() > 0 {
        let front = members.drop_last();
        let last = members.last();
        let before = without_keys(front, keys);
        let after = without_keys(members, keys);
        lemma_others_are_kept(front, keys);
        assert(members =~= front.push(last));
        assert forall|m: Seq<char>| #[trigger] after.contains(m) <==> members.contains(m)
            && !keys.contains(m) by {
            lemma_pushed_is_held(front, last, m);
            lemma_pushed_is_held(before, last, m);
            assert(before.contains(m) <==> front.contains(m) && !keys.contains(m));
        }
        assert forall|m: Seq<char>| !keys.contains(m) implies #[trigger] after.to_multiset().count(
            m,
        ) == members.to_multiset().count(m) by {
            assert(before.to_multiset().count(m) == front.to_multiset().count(m));
        }
    } else {
        assert(without_keys(members, keys) =~= members);
    }
}

proof fn lemma_pushed_is_held<A>(list: Seq<A>, last: A, m: A)
    ensures
        list.push(last).contains(m) <==> list.contains(m) || m == last,
{
    if list.contains(m) {
        let i = choose|i: int| 0 <= i < list.len() && list[i] == m;
        assert(list.push(last)[i] == m);
    }
    assert(list.push(last)[list.len() as int] == last);
    if list.push(last).contains(m) && m != last {
        let i = choose|i: int| 0 <= i < list.push(last).len() && list.push(last)[i] == m;
        assert(list[i] == m);
    }
}

/// Editing a tag gives it to all the skills that were chosen, or takes it from all of them,
/// and changes it for no other skill.
pub proof fn lemma_a_tag_is_edited_where_it_was_chosen(
    members: Seq<Seq<char>>,
    keys: Seq<Seq<char>>,
    m: Seq<char>,
)
    ensures
        ({
            let added = without_keys(members, keys) + keys;
            let taken = without_keys(members, keys);
            &&& keys.contains(m) ==> added.contains(m) && !taken.contains(m)
            &&& !keys.contains(m) ==> added.contains(m) == members.contains(m) && taken.contains(m)
                == members.contains(m)
        }),
{
    lemma_others_are_kept(members, keys);
    let rest = without_keys(members, keys);
    if keys.contains(m) {
        let i = choose|i: int| 0 <= i < keys.len() && keys[i] == m;
        assert((rest + keys)[rest.len() + i] == m);
        assert(!rest.contains(m));
    } else {
        if rest.contains(m) {
            let i = choose|i: int| 0 <= i < rest.len() && rest[i] == m;
            assert((rest + keys)[i] == m);
        }
        if (rest + keys).contains(m) {
            let i = choose|i: int| 0 <= i < (rest + keys).len() && (rest + keys)[i] == m;
            if i >= rest.len() {
                assert(keys[i - rest.len()] == m);
            } else {
                assert(rest[i] == m);
            }
        }
    }
}

/// The skills that are recorded as changed are those, and only those, that had the tag where
/// it is taken, or lacked it where it is given.
pub proof fn lemma_changed_skills_are_recorded(
    members: Seq<Seq<char>>,
    keys: Seq<Seq<char>>,
    add: bool,
)
    ensures
        changed_keys(members, keys, add) == keys.filter(
            |k: Seq<char>| members.contains(k) != add,
        ),
    decreases keys.len(),
{
    reveal(Seq::filter);
    if keys.len() > 0 {
        lemma_changed_skills_are_recorded(members, keys.drop_last(), add);
    } else {
        assert(changed_keys(members, keys, add) =~= keys);
    }
}

/// Adding skills to a preset adds those that were chosen and no others, and takes none out.
pub proof fn lemma_a_preset_gets_what_was_chosen(
    members: Seq<Seq<char>>,
    keys: Seq<Seq<char>>,
    m: Seq<char>,
)
    ensures
        with_keys(members, keys).contains(m) <==> members.contains(m) || keys.contains(m),
        with_keys(members, keys).take(members.len() as int) == members,
        members.no_duplicates() ==> with_keys(members, keys).no_duplicates(),
    decreases keys.len(),
{
    if keys.len() > 0 {
        let front = keys.drop_last();
        let before = with_keys(members, front);
        lemma_a_preset_gets_what_was_chosen(members, front, m);
        lemma_adding_keeps_members(members, front, 0);
        assert(keys =~= front.push(keys.last()));
        lemma_pushed_is_held(front, keys.last(), m);
        lemma_pushed_is_held(before, keys.last(), m);
        assert(with_keys(members, keys).take(members.len() as int) =~= members);
    } else {
        assert(members.take(members.len() as int) =~= members);
        assert(!keys.contains(m));
    }
}

/// Checking that the skills are there names one that is not, and passes where all are.
pub proof fn lemma_a_missing_skill_is_named(
    keys: Seq<Seq<char>>,
    found: Seq<Seq<char>>,
    at: int,
)
    requires
        0 <= at <= keys.len(),
    ensures
        absent_from(keys, found, at) is None <==> forall|i: int|
            at <= i < keys.len() ==> found.contains(#[trigger] keys[i]),
        absent_from(keys, found, at) matches Some(why) ==> exists|i: int|
            at <= i < keys.len() && !found.contains(#[trigger] keys[i]) && why
                == "no such skill: "@ + keys[i] && forall|j: int|
                at <= j < i ==> found.contains(#[trigger] keys[j]),
    decreases keys.len() - at,
{
    if at < keys.len() && found.contains(keys[at]) {
        lemma_a_missing_skill_is_named(keys, found, at + 1);
        if absent_from(keys, found, at) is Some {
            let why = absent_from(keys, found, at)->0;
            let i = choose|i: int|
                at + 1 <= i < keys.len() && !found.contains(#[trigger] keys[i]) && why
                    == "no such skill: "@ + keys[i] && forall|j: int|
                    at + 1 <= j < i ==> found.contains(#[trigger] keys[j]);
            assert forall|j: int| at <= j < i implies found.contains(#[trigger] keys[j]) by {
                if j == at {
                    assert(found.contains(keys[at]));
                }
            }
        } else {
            assert forall|i: int| at <= i < keys.len() implies found.contains(
                #[trigger] keys[i],
            ) by {
                if i == at {
                    assert(found.contains(keys[at]));
                }
            }
        }
    } else if at < keys.len() {
        assert(!found.contains(keys[at]));
    }
}

/// A tag cannot be edited while tags are switched off, for no skills, or under a name that
/// is empty, stands for no tag, or holds the sign between two tags; any other edit is made.
pub proof fn lemma_which_tags_can_be_edited(enabled: bool, keys: Seq<String>, name: Seq<char>)
    ensures
        !enabled ==> tag_refusal(enabled, keys, name) is Some,
        keys.len() == 0 ==> tag_refusal(enabled, keys, name) is Some,
        name.len() == 0 ==> tag_refusal(enabled, keys, name) is Some,
        name == "(untagged)"@ ==> tag_refusal(enabled, keys, name) is Some,
        name.contains(',') ==> tag_refusal(enabled, keys, name) is Some,
        enabled && keys.len() > 0 && name.len() > 0 && name != "(untagged)"@ && !name.contains(',')
            ==> tag_refusal(enabled, keys, name) is None,
{
}

/// Enter in the dialog of the tags puts the selected tag on all the skills where one of them
/// lacks it, takes it from them where all have it, and creates a tag of what was typed where
/// that is selected.
pub proof fn lemma_enter_edits_the_selected_tag(
    batch: BatchView,
    key: KeyEvent,
    actions: Seq<Action>,
    at: int,
)
    requires
        batch.kind == Kind::Tags,
        key.code == KeyCode::Enter,
        batch.list.selected is Some,
        batch.list.selected->0 == at,
        0 <= at < batch.shown.len(),
        batch.keyed(key).1.told(batch.keys, actions),
    ensures
        ({
            let row = batch.shown[at] as int;
            &&& actions.len() == 1
            &&& (actions[0] matches Action::WriteMeta(Write::EditTag { name, keys, add }) && {
                &&& keys@ == batch.keys
                &&& row < batch.rows.len() ==> name@ == batch.rows[row].id@ && (add <==> batch.rows[row].count
                    != batch.keys.len())
                &&& row >= batch.rows.len() ==> name@ == trimmed(batch.input.text) && add
            })
        }),
{
}

/// The second press of the key that removes takes the last tag from the skills, and nothing
/// else does so without a selection.
pub proof fn lemma_the_last_tag_is_removed(batch: BatchView, key: KeyEvent, actions: Seq<Action>)
    requires
        batch.kind == Kind::Tags,
        key.code == KeyCode::Backspace,
        batch.input.text.len() == 0,
        batch.selected_tags.len() > 0,
        batch.remove_armed,
        batch.keyed(key).1.told(batch.keys, actions),
    ensures
        actions.len() == 1,
        actions[0] matches Action::WriteMeta(Write::EditTag { name, keys, add }) && name@
            == batch.selected_tags.last() && keys@ == batch.keys && !add,
        !batch.keyed(key).0.remove_armed,
{
}

proof fn lemma_requests_go_row_by_row(rows: Seq<Row>, i: int, c: int)
    ensures
        0 <= i < rows.len() && rows[i].desired is Some ==> exists|k: int|
            0 <= k < requests(rows).len() && (#[trigger] requests(rows)[k]).agent == rows[i].id
                && Some(requests(rows)[k].on) == rows[i].desired,
        0 <= c < requests(rows).len() ==> exists|k: int|
            0 <= k < rows.len() && (#[trigger] rows[k]).id == requests(rows)[c].agent
                && rows[k].desired == Some(requests(rows)[c].on),
    decreases rows.len(),
{
    if rows.len() > 0 {
        let front = rows.drop_last();
        let before = requests(front);
        let all = requests(rows);
        lemma_requests_go_row_by_row(front, i, c);
        if i == rows.len() - 1 && rows[i].desired is Some {
            assert(all[before.len() as int].agent == rows[i].id);
        } else if 0 <= i < front.len() && front[i].desired is Some {
            let k = choose|k: int|
                0 <= k < before.len() && (#[trigger] before[k]).agent == front[i].id && Some(
                    before[k].on,
                ) == front[i].desired;
            assert(all[k] == before[k]);
        }
        if 0 <= c < before.len() {
            let k = choose|k: int|
                0 <= k < front.len() && (#[trigger] front[k]).id == before[c].agent
                    && front[k].desired == Some(before[c].on);
            assert(rows[k] == front[k]);
        } else if c == before.len() {
            assert(rows[rows.len() - 1] == rows.last());
        }
    }
}

/// Every agent that was ticked or unticked is planned for with the state that it was set to,
/// and no other agent is.
pub proof fn lemma_deployments_are_planned_as_chosen(
    batch: BatchView,
    key: KeyEvent,
    i: int,
    c: int,
)
    requires
        batch.keyed(key).1 is Plan,
    ensures
        batch.kind == Kind::Deploy,
        ({
            let changes = batch.keyed(key).1->Plan_0;
            &&& 0 <= i < batch.rows.len() && batch.rows[i].desired is Some ==> exists|k: int|
                0 <= k < changes.len() && (#[trigger] changes[k]).agent == batch.rows[i].id && Some(
                    changes[k].on,
                ) == batch.rows[i].desired
            &&& 0 <= c < changes.len() ==> exists|k: int|
                0 <= k < batch.rows.len() && (#[trigger] batch.rows[k]).id == changes[c].agent
                    && batch.rows[k].desired == Some(changes[c].on)
        }),
{
    assert(batch.keyed(key).1->Plan_0 == requests(batch.rows));
    lemma_requests_go_row_by_row(batch.rows, i, c);
}

proof fn lemma_chosen_go_row_by_row(rows: Seq<Row>, name: Seq<char>)
    ensures
        chosen_ids(rows).contains(name) <==> exists|k: int|
            0 <= k < rows.len() && (#[trigger] rows[k]).id@ == name && rows[k].desired == Some(
                true,
            ),
    decreases rows.len(),
{
    if rows.len() > 0 {
        let front = rows.drop_last();
        lemma_chosen_go_row_by_row(front, name);
        lemma_pushed_is_held(chosen_ids(front), rows.last().id@, name);
        assert(rows[rows.len() - 1] == rows.last());
        if chosen_ids(front).contains(name) {
            let k = choose|k: int|
                0 <= k < front.len() && (#[trigger] front[k]).id@ == name && front[k].desired
                    == Some(true);
            assert(rows[k] == front[k]);
        }
        if exists|k: int|
            0 <= k < rows.len() && (#[trigger] rows[k]).id@ == name && rows[k].desired == Some(
                true,
            ) {
            let k = choose|k: int|
                0 <= k < rows.len() && (#[trigger] rows[k]).id@ == name && rows[k].desired == Some(
                    true,
                );
            if k < front.len() {
                assert(front[k].id@ == name);
            }
        }
    } else {
        assert(!chosen_ids(rows).contains(name));
    }
}

/// Skills are added to the presets that were ticked and to no others.
pub proof fn lemma_ticked_presets_get_the_skills(
    batch: BatchView,
    key: KeyEvent,
    actions: Seq<Action>,
    name: Seq<char>,
)
    requires
        batch.keyed(key).1 is AddToPresets,
        batch.keyed(key).1.told(batch.keys, actions),
    ensures
        batch.kind == Kind::Presets,
        actions.len() == 1,
        actions[0] matches Action::BatchMeta(Write::AddToPresets { names, keys }, about) && keys@
            == batch.keys && about@ == batch.keys && (texts(names@).contains(name) <==> exists|
            k: int,
        |
            0 <= k < batch.rows.len() && (#[trigger] batch.rows[k]).id@ == name
                && batch.rows[k].desired == Some(true)),
{
    lemma_chosen_go_row_by_row(batch.rows, name);
}

/// A press of the key on a row turns what is wanted of it around and changes no other row: one
/// that has all the skills is given up, any other one is chosen, and a choice is taken back.
pub proof fn lemma_a_row_turns_around(batch: BatchView, key: KeyEvent, at: int, i: int)
    requires
        batch.kind == Kind::Deploy,
        batch.focus == BatchFocus::List,
        key.code == KeyCode::Char(' ') || key.code == KeyCode::Enter && !key.modifiers.control,
        batch.list.selected is Some,
        batch.list.selected->0 == at,
        0 <= at < batch.shown.len(),
        batch.shown[at] < batch.rows.len(),
        0 <= i < batch.rows.len(),
    ensures
        ({
            let row = batch.shown[at] as int;
            let after = batch.keyed(key).0.rows;
            &&& batch.keyed(key).1 is Nothing
            &&& batch.rows[row].desired == Some(true) ==> after[row].desired == Some(false)
            &&& batch.rows[row].desired == Some(false) ==> after[row].desired == Some(true)
            &&& batch.rows[row].desired is None && batch.rows[row].count == batch.keys.len()
                ==> after[row].desired == Some(false)
            &&& batch.rows[row].desired is None && batch.rows[row].count != batch.keys.len()
                ==> after[row].desired == Some(true)
            &&& after[row].id == batch.rows[row].id
            &&& i != row ==> after[i] == batch.rows[i]
        }),
{
}

/// What is told and what is left to tell of a plan: links that are as they should be are left
/// out, and everything else stays in its order.
pub proof fn lemma_plans_leave_out_what_is_so(snap: Snapshot, actions: Seq<PlannedLink>, i: int)
    ensures
        worthwhile(snap, actions) == actions.filter(
            |a: PlannedLink| is_worthwhile(snap, a.action),
        ),
        0 <= i < actions.len() && actions[i].action !is Skip ==> is_worthwhile(
            snap,
            actions[i].action,
        ),
        0 <= i < actions.len() && (actions[i].action matches LinkAction::Skip { reason, .. } && (
        reason@ == "already deployed"@ || reason@ == "not deployed"@)) ==> !is_worthwhile(
            snap,
            actions[i].action,
        ),
    decreases actions.len(),
{
    reveal(Seq::filter);
    if actions.len() > 0 {
        lemma_plans_leave_out_what_is_so(snap, actions.drop_last(), 0);
    } else {
        assert(worthwhile(snap, actions) =~= actions);
    }
}

/// How many of the skills have a tag, are deployed, or are in a preset: each is counted where
/// it is so, and only there.
pub proof fn lemma_rows_count_the_skills(
    snap: Snapshot,
    keys: Seq<String>,
    name: Seq<char>,
    members: Seq<Seq<char>>,
)
    ensures
        tag_count(snap, keys, name) == keys.filter(|k: String| has_tag(snap, k@, name)).len(),
        agent_count(snap, keys, name) == keys.filter(|k: String| is_deployed(snap, k@, name)).len(),
        member_count(keys, members) == keys.filter(|k: String| members.contains(k@)).len(),
    decreases keys.len(),
{
    reveal(Seq::filter);
    if keys.len() > 0 {
        lemma_rows_count_the_skills(snap, keys.drop_last(), name, members);
    }
}

/// The rows that are shown are those whose label holds what was typed; in the dialog of the
/// tags one that all the skills have is shown only where something was typed. They stay in
/// their order.
pub proof fn lemma_the_filter_shows_what_was_typed(
    rows: Seq<Row>,
    query: Seq<char>,
    kind: Kind,
    total: int,
    n: int,
    i: int,
)
    requires
        0 <= n <= rows.len() <= usize::MAX,
        0 <= i < n,
    ensures
        listed_rows(rows, query, kind, total, n).contains(i as usize) <==> has_part(
            lower(rows[i].label@),
            query,
        ) && !(kind == Kind::Tags && rows[i].count == total && query.len() == 0),
        forall|a: int, b: int|
            0 <= a < b < listed_rows(rows, query, kind, total, n).len() ==> #[trigger] listed_rows(
                rows,
                query,
                kind,
                total,
                n,
            )[a] < #[trigger] listed_rows(rows, query, kind, total, n)[b],
    decreases n,
{
    if n > 0 {
        let before = listed_rows(rows, query, kind, total, n - 1);
        let got = listed_rows(rows, query, kind, total, n);
        lemma_listed_bounds(rows, query, kind, total, n - 1);
        lemma_pushed_is_held(before, (n - 1) as usize, i as usize);
        if n > 1 {
            lemma_the_filter_shows_what_was_typed(
                rows,
                query,
                kind,
                total,
                n - 1,
                if i < n - 1 {
                    i
                } else {
                    0
                },
            );
        } else {
            assert(before.len() == 0);
        }
        if i == n - 1 {
            assert(!before.contains(i as usize));
        }
        assert forall|a: int, b: int| 0 <= a < b < got.len() implies #[trigger] got[a]
            < #[trigger] got[b] by {
            assert(got[a] == before[a]);
            if b < before.len() {
                assert(got[b] == before[b]);
            }
        }
    }
}

/// Nothing is asked for by leaving the dialog.
pub proof fn lemma_leaving_a_batch_asks_for_nothing(batch: BatchView, key: KeyEvent)
    requires
        key.code == KeyCode::Esc,
    ensures
        batch.kind == Kind::Tags || batch.focus != BatchFocus::Input ==> batch.keyed(key).1 is Close,
        batch.kind != Kind::Tags && batch.focus == BatchFocus::Input ==> batch.keyed(key).1
            is Nothing,
        batch.keyed(key).0.rows == batch.rows,
{
}

/// The rows of one agent are those with its name, in their order.
pub proof fn lemma_the_rows_of_one_agent(rows: Seq<Row>, id: Seq<char>)
    ensures
        rows_of(rows, id) == rows.filter(|row: Row| row.id@ == id),
    decreases rows.len(),
{
    reveal(Seq::filter);
    if rows.len() > 0 {
        lemma_the_rows_of_one_agent(rows.drop_last(), id);
    }
}

proof fn lemma_a_row_of_an_agent(rows: Seq<Row>, id: Seq<char>, i: int) -> (k: int)
    requires
        0 <= i < rows_of(rows, id).len(),
    ensures
        0 <= k < rows.len(),
        rows[k] == rows_of(rows, id)[i],
        rows[k].id@ == id,
    decreases rows.len(),
{
    let before = rows_of(rows.drop_last(), id);
    if i < before.len() {
        lemma_a_row_of_an_agent(rows.drop_last(), id, i)
    } else {
        rows.len() - 1
    }
}

/// A deployment to one agent is about that agent alone: its rows are of it, and count the
/// skills that it has.
pub proof fn lemma_a_deployment_to_one_agent(
    batch: BatchView,
    snap: Snapshot,
    keys: Seq<String>,
    agent: Seq<char>,
    i: int,
)
    requires
        is_agent_batch(batch, snap, keys, agent),
        0 <= i < batch.rows.len(),
    ensures
        batch.kind == Kind::Deploy,
        batch.keys == keys,
        !batch.busy,
        batch.rows[i].id@ == agent,
        batch.rows[i].count == keys.filter(|k: String| is_deployed(snap, k@, agent)).len(),
        batch.rows[i].desired is None,
{
    let all = choose|all: Seq<Row>|
        #![trigger rows_of(all, agent)]
        all.len() == snap.agents@.len() && (forall|k: int|
            0 <= k < all.len() ==> agent_row(snap, keys, snap.agents@[k], #[trigger] all[k]))
            && batch == fresh(Kind::Deploy, keys, rows_of(all, agent)).refiltered();
    let k = lemma_a_row_of_an_agent(all, agent, i);
    assert(agent_row(snap, keys, snap.agents@[k], all[k]));
    lemma_rows_count_the_skills(snap, keys, agent, Seq::empty());
}

/// A row of a preset counts the skills that are in it.
pub proof fn lemma_the_row_of_a_preset(keys: Seq<String>, preset: PresetRecord, row: Row, snap: Snapshot)
    requires
        preset_row(keys, preset, row),
    ensures
        row.id == preset.name,
        row.label == preset.name,
        row.count == keys.filter(|k: String| texts(preset.members@).contains(k@)).len(),
        row.desired is None,
{
    lemma_rows_count_the_skills(snap, keys, Seq::empty(), texts(preset.members@));
}

/// A row shows whether all, some or none of the skills are meant, and what is wanted of it.
pub proof fn lemma_a_row_shows_what_is_wanted(batch: BatchView, at: usize, width: int)
    requires
        at < batch.rows.len(),
        batch.keys.len() > 0,
    ensures
        ({
            let row = batch.rows[at as int];
            let total = batch.keys.len() as int;
            let line = batch.plain_row(at, width);
            let mark = if row.desired == Some(true) || row.desired is None && row.count == total {
                "[✓]"@
            } else if row.desired is None && row.count > 0 {
                "[−]"@
            } else {
                "[ ]"@
            };
            let wanted = if row.desired is None {
                numeral(row.count as int) + "/"@ + numeral(total)
            } else if batch.kind == Kind::Presets {
                "add"@
            } else if row.desired == Some(true) {
                "all"@
            } else {
                "none"@
            };
            &&& line.len() == 1
            &&& line[0].content == mark + " "@ + fitted(row.label@, monus(width, 14)) + "  "@
                + wanted
        }),
        forall|i: int|
            0 <= i < batch.shown.len() ==> #[trigger] batch.plain_rows(width)[i]
                == batch.plain_row(batch.shown[i], width),
        batch.plain_rows(width).len() == batch.shown.len(),
{
}

/// The dialog of the tags says how many of the skills have one.
pub proof fn lemma_a_tag_says_how_many_have_it(batch: BatchView, row: Row)
    requires
        batch.keys.len() > 0,
    ensures
        row.count == batch.keys.len() ==> batch.membership(row) == "✓"@,
        0 < row.count && row.count != batch.keys.len() ==> batch.membership(row) == numeral(
            row.count as int,
        ) + "/"@ + numeral(batch.keys.len() as int),
        row.count == 0 ==> batch.membership(row) == " "@,
{
}

/// The dialog of the tags says what Enter and the backspace would do.
pub proof fn lemma_the_tags_say_what_is_next(batch: BatchView)
    ensures
        batch.remove_armed ==> batch.tag_note() == "Backspace removes last tag · type to cancel"@,
        !batch.remove_armed && batch.selects_shared() ==> batch.tag_note()
            == "Enter remove · Esc done"@,
        !batch.remove_armed && !batch.selects_shared() ==> batch.tag_note()
            == "Enter add · × remove · Esc done"@,
        batch.remove_armed && batch.selected_tags.len() > 0 ==> batch.armed_tag() == Some(
            batch.selected_tags.last(),
        ),
        !batch.remove_armed ==> batch.armed_tag() is None,
        token_style(true).underlined,
        !token_style(false).underlined,
{
}

/// A row that would create a tag names it as it would be created.
pub proof fn lemma_a_new_tag_is_named(batch: BatchView, at: usize, width: int, look: Look)
    requires
        at >= batch.rows.len(),
    ensures
        ({
            let line = batch.tag_row(at, width, look);
            &&& line.len() == 3
            &&& line[1].content == "Create "@
            &&& line[2].content == fitted(trimmed(batch.input.text), monus(width, 10))
        }),
{
}

/// The first preset that there is none of is the one that is missed.
pub proof fn lemma_the_first_missing_preset(loaded: Seq<Option<PresetRecord>>, at: int, i: int)
    requires
        0 <= at <= i < loaded.len(),
        loaded[i] is None,
        forall|j: int| at <= j < i ==> (#[trigger] loaded[j]) is Some,
    ensures
        missing_from(loaded, at) == Some(i),
    decreases i - at,
{
    if at < i {
        assert(loaded[at] is Some);
        lemma_the_first_missing_preset(loaded, at + 1, i);
    }
}

/// Where there is every preset, none is missed.
pub proof fn lemma_no_preset_is_missing(loaded: Seq<Option<PresetRecord>>, at: int)
    requires
        0 <= at <= loaded.len(),
        forall|j: int| at <= j < loaded.len() ==> (#[trigger] loaded[j]) is Some,
    ensures
        missing_from(loaded, at) is None,
    decreases loaded.len() - at,
{
    if at < loaded.len() {
        assert(loaded[at] is Some);
        lemma_no_preset_is_missing(loaded, at + 1);
    }
}

/// Why a tag cannot be edited is said: that tags are hidden, that nothing is selected, or
/// that it is no name.
pub proof fn lemma_why_a_tag_cannot_be_edited(enabled: bool, keys: Seq<String>, name: Seq<char>)
    ensures
        !enabled ==> tag_refusal(enabled, keys, name) == Some("Tags are disabled"@),
        enabled && keys.len() == 0 ==> tag_refusal(enabled, keys, name) == Some(
            "No skills selected"@,
        ),
        enabled && keys.len() > 0 && (name.len() == 0 || name == "(untagged)"@ || name.contains(','))
            ==> tag_refusal(enabled, keys, name) == Some("Invalid tag name"@),
{
}

/// A change without skills is not made, and says so.
pub proof fn lemma_nothing_is_changed_without_skills(batch: BatchView)
    requires
        batch.keys.len() == 0,
    ensures
        batch.applied().1 is Nothing,
        batch.kind == Kind::Tags || batch.pending() > 0 ==> batch.applied().0.error == Some(
            "No skills selected."@,
        ),
{
}

/// A skipped link is told unless it is so already: it is deployed, or is not, or its agent
/// cannot have it.
pub proof fn lemma_which_skips_are_told(snap: Snapshot, action: LinkAction)
    ensures
        !(action is Skip) ==> is_worthwhile(snap, action),
        action is Skip && (action->Skip_reason@ == "already deployed"@ || action->Skip_reason@
            == "not deployed"@ || has_suffix(action->Skip_reason@, "; already deployed"@)
            || has_prefix(action->Skip_reason@, "agent directory is read-only:"@))
            ==> !is_worthwhile(snap, action),
        action is Skip && action->Skip_reason@ == "agent dir missing or foreign"@
            && snap.agent_at(action->Skip_agent@) is Some && snap.agents@[snap.agent_at(
            action->Skip_agent@,
        )->0].mode == AgentDirMode::Missing ==> !is_worthwhile(snap, action),
        action is Skip && action->Skip_reason@ != "already deployed"@ && action->Skip_reason@
            != "not deployed"@ && !has_suffix(action->Skip_reason@, "; already deployed"@)
            && !has_prefix(action->Skip_reason@, "agent directory is read-only:"@)
            && action->Skip_reason@ != "agent dir missing or foreign"@ ==> is_worthwhile(
            snap,
            action,
        ),
{
}

/// The dialog says what it is about, for how many skills, and what applying it would do.
pub proof fn lemma_what_a_batch_says(batch: BatchView, plan: Result<Vec<PlannedLink>, String>)
    ensures
        batch.kind == Kind::Deploy ==> batch.title() == " "@ + "Deploy"@ + " · "@ + numeral(
            batch.keys.len() as int,
        ) + " skills "@,
        batch.kind == Kind::Presets ==> batch.title() == " "@ + "Add to presets"@ + " · "@
            + numeral(batch.keys.len() as int) + " skills "@,
        batch.busy ==> batch.summary(plan) == "Applying changes… Please wait."@,
        !batch.busy && batch.error is Some ==> batch.summary(plan) == batch.error->0,
        !batch.busy && batch.error is None && batch.kind == Kind::Presets ==> batch.summary(plan)
            == "Add selected skills to each chosen Preset's fixed member list."@,
        !batch.busy && batch.error is None && batch.kind == Kind::Deploy && plan is Err
            ==> batch.summary(plan) == plan->Err_0@,
        !batch.busy && batch.error is None && batch.kind == Kind::Deploy && plan is Ok
            ==> batch.summary(plan) == "Apply "@ + numeral(changing(plan->Ok_0@))
            + " link changes; "@ + numeral(plan->Ok_0@.len() - changing(plan->Ok_0@))
            + " unchanged/skipped"@,
{
}

/// The hints of a batch follow what has the keys: while it is busy there are none to press.
pub proof fn lemma_the_hints_of_a_batch(batch: BatchView)
    ensures
        batch.busy ==> batch.hint_list() == seq![("…", "applying changes")],
        !batch.busy && batch.kind == Kind::Tags ==> {
            &&& batch.hint_list().last() == ("Esc", "done")
            &&& batch.selects_shared() ==> batch.hint_list()[0] == ("Enter", "remove")
            &&& !batch.selects_shared() ==> batch.hint_list()[0] == ("Enter", "add / create")
            &&& batch.hint_list()[2] == ("Tab", "complete")
            &&& batch.hint_list()[3] == ("Backspace", "select last · again removes")
        },
        !batch.busy && batch.kind != Kind::Tags ==> batch.hint_list().last() == ("Esc", "cancel")
            && batch.hint_list().contains(("Tab/Shift+Tab", "list / buttons")),
        !batch.busy && batch.kind != Kind::Tags && batch.focus == BatchFocus::Input
            ==> batch.hint_list()[0] == ("type", "filter") && batch.hint_list()[1] == ("↓", "list"),
        !batch.busy && batch.kind != Kind::Tags && batch.focus != BatchFocus::Input
            ==> batch.hint_list()[0] == ("↑↓", "move") && batch.hint_list()[1] == (
            "Space",
            "toggle",
        ),
{
    let hints = batch.hint_list();
    if !batch.busy && batch.kind != Kind::Tags {
        assert(hints[3] == ("Tab/Shift+Tab", "list / buttons"));
    }
}

/// The title of the tags names the one skill, or how many there are.
pub proof fn lemma_the_title_of_the_tags(batch: BatchView, name: Seq<char>, w: int)
    ensures
        batch.keys.len() == 1 ==> batch.tag_title(name, w) == " Tags · "@ + fitted(
            name,
            monus(w, 12),
        ) + " "@,
        batch.keys.len() != 1 ==> batch.tag_title(name, w) == " Tags · "@ + (numeral(
            batch.keys.len() as int,
        ) + " skills · tokens shared by all"@) + " "@,
{
}

/// A press on a button does what the button does, one beside the dialog leaves it, one on the
/// filter goes there, and one on a row turns it around.
pub proof fn lemma_mouse_of_a_batch(batch: BatchView, event: MouseEvent, cap: int, at: usize)
    requires
        batch.kind != Kind::Tags,
        event.kind == MouseKind::Down,
    ensures
        ({
            let x = event.column as int;
            let y = event.row as int;
            let calm = BatchView { remove_armed: false, ..batch };
            let after = batch.moused(event, cap);
            let inside = batch.rect.has(x, y) && !batch.cancel.has(x, y);
            &&& !inside ==> after == (calm, BatchReply::Close)
            &&& inside && batch.apply.has(x, y) ==> after == (BatchView {
                focus: BatchFocus::Apply,
                ..calm
            }).applied()
            &&& inside && !batch.apply.has(x, y) && batch.input_rect.has(x, y) ==> {
                &&& after.0.focus == BatchFocus::Input
                &&& after.0.input == batch.input.clicked(x)
                &&& after.0.rows == batch.rows
                &&& after.1 is Nothing
            }
            &&& inside && !batch.apply.has(x, y) && !batch.input_rect.has(x, y)
                && batch.list.rows.has(x, y) && batch.list.hit(y, batch.shown.len() as int) == Some(
                at,
            ) ==> {
                &&& after.0.list.selected == Some(at)
                &&& after.0.focus == BatchFocus::List
                &&& after.0 == (BatchView {
                    focus: BatchFocus::List,
                    list: ListNav { selected: Some(at), ..batch.list },
                    ..calm
                }).toggled()
                &&& after.1 is Nothing
            }
        }),
{
}

/// In the dialog of the tags a press on the sign at the end of a tag takes that tag from the
/// skills, a press elsewhere on it does nothing, and one on a row does what Enter does there.
pub proof fn lemma_mouse_of_the_tags(batch: BatchView, event: MouseEvent, cap: int, i: int)
    requires
        batch.kind == Kind::Tags,
        event.kind == MouseKind::Down,
    ensures
        ({
            let x = event.column as int;
            let y = event.row as int;
            let calm = BatchView { remove_armed: false, ..batch };
            let after = batch.moused(event, cap);
            &&& !batch.rect.has(x, y) ==> after == (calm, BatchReply::Close)
            &&& batch.rect.has(x, y) && 0 <= i < batch.tag_chips.len() && batch.tag_chips[i].rect.has(
                x,
                y,
            ) && (forall|j: int|
                0 <= j < i ==> !(#[trigger] batch.tag_chips[j]).rect.has(x, y)) ==> {
                &&& x == monus(batch.tag_chips[i].rect.end_x(), plus16(cap, 2)) ==> after.1
                    == (BatchReply::EditTag { name: batch.tag_chips[i].name, add: false })
                &&& x != monus(batch.tag_chips[i].rect.end_x(), plus16(cap, 2)) ==> after == (
                    calm,
                    BatchReply::Nothing,
                )
            }
        }),
{
    let x = event.column as int;
    let y = event.row as int;
    let calm = BatchView { remove_armed: false, ..batch };
    if 0 <= i < batch.tag_chips.len() && batch.tag_chips[i].rect.has(x, y) && (forall|j: int|
        0 <= j < i ==> !(#[trigger] batch.tag_chips[j]).rect.has(x, y)) {
        lemma_the_first_tag_is_pressed(calm, x, y, 0, i);
    }
}

proof fn lemma_the_first_tag_is_pressed(batch: BatchView, x: int, y: int, at: int, i: int)
    requires
        0 <= at <= i < batch.tag_chips.len(),
        batch.tag_chips[i].rect.has(x, y),
        forall|j: int| 0 <= j < i ==> !(#[trigger] batch.tag_chips[j]).rect.has(x, y),
    ensures
        batch.chip_from(x, y, at) == Some(i),
    decreases i - at,
{
    if at < i {
        assert(!batch.tag_chips[at].rect.has(x, y));
        lemma_the_first_tag_is_pressed(batch, x, y, at + 1, i);
    }
}

/// The wheel moves by one row, over the list of a batch or anywhere over the tags, and
/// changes nothing.
pub proof fn lemma_the_wheel_over_a_batch(batch: BatchView, event: MouseEvent, cap: int)
    requires
        event.kind == MouseKind::ScrollDown || event.kind == MouseKind::ScrollUp,
    ensures
        ({
            let after = batch.moused(event, cap);
            let over = batch.list.rows.has(event.column as int, event.row as int);
            let step: int = if event.kind == MouseKind::ScrollDown {
                1
            } else {
                -1
            };
            &&& after.1 is Nothing
            &&& after.0.rows == batch.rows
            &&& batch.kind == Kind::Tags || over ==> after.0.list.selected == moved(
                batch.list.selected,
                step,
                batch.shown.len() as int,
            )
            &&& batch.kind != Kind::Tags && !over ==> after.0.list == batch.list
        }),
{
}

/// A paste goes into the filter where that has the keys.
pub proof fn lemma_a_paste_goes_into_the_filter(batch: BatchView, text: Seq<char>)
    ensures
        batch.focus != BatchFocus::Input ==> batch.pasted(text).0.input == batch.input
            && batch.pasted(text).1 is Nothing,
        batch.focus == BatchFocus::Input && is_multiline(text) ==> batch.pasted(text).0.input
            == batch.input && batch.pasted(text).1 == BatchReply::Complain(
            "Paste a single line"@,
        ),
        batch.focus == BatchFocus::Input && !is_multiline(text) ==> batch.pasted(text).0.input
            == batch.input.with_pasted(text) && batch.pasted(text).1 is Nothing,
        batch.pasted(text).0.rows == batch.rows,
{
}

/// The buttons and the filter of a batch can be pressed where they are drawn; drawing keeps
/// what was chosen and typed.
pub proof fn lemma_a_batch_is_pressed_where_it_is_drawn(
    batch: BatchView,
    area: Rect,
    plan: Result<Vec<PlannedLink>, String>,
    theme: Theme,
)
    requires
        BatchView::rect_in(area).inside().height >= 5,
    ensures
        ({
            let after = batch.plain_placed(area);
            let scene = batch.plain_scene(area, plan, theme);
            let n = scene.len() as int;
            &&& n == 8
            &&& scene[1] == framed(after.rect, batch.title())
            &&& scene[2] is Field
            &&& scene[2]->Field_rect == after.input_rect
            &&& scene[2]->Field_value == batch.input.text
            &&& scene[2]->Field_focused == (batch.focus == BatchFocus::Input)
            &&& scene[6] is Text
            &&& scene[6]->Text_rect == after.apply
            &&& scene[6]->Text_lines[0][0].content == "[ "@ + "Apply"@ + " ]"@
            &&& scene[7] is Text
            &&& scene[7]->Text_rect == after.cancel
            &&& scene[7]->Text_lines[0][0].content == "[ "@ + "Cancel"@ + " ]"@
            &&& batch.shown.len() > 0 ==> scene[3] is List && scene[3]->List_rect
                == after.list.rows && scene[3]->List_rows == batch.plain_rows(
                after.rect.inside().width as int,
            )
            &&& batch.shown.len() == 0 ==> scene[3] is Text && scene[3]->Text_lines == seq![
                seq![plain_run("No matching entries"@)],
            ]
            &&& after.rows == batch.rows
            &&& after.keys == batch.keys
            &&& after.input.text == batch.input.text
            &&& after.shown == batch.shown
        }),
{
}

/// Drawing the tags keeps what was typed and what was chosen.
pub proof fn lemma_drawing_the_tags_keeps_them(batch: BatchView, area: Rect, look: Look)
    ensures
        ({
            let after = batch.tags_placed(area, look);
            &&& after.rows == batch.rows
            &&& after.keys == batch.keys
            &&& after.input.text == batch.input.text
            &&& after.selected_tags == batch.selected_tags
            &&& after.remove_armed == batch.remove_armed
            &&& after.shown == batch.shown
        }),
{
}

/// The dialog stands in the middle, at most 76 columns wide and 20 rows high; its list lies
/// between the filter and what is said below it.
pub proof fn lemma_where_a_batch_is_drawn(area: Rect)
    requires
        area.in_range(),
        area.width >= 78,
        area.height >= 22,
    ensures
        ({
            let rect = BatchView::rect_in(area);
            let inner = rect.inside();
            let left = rect.x - area.x;
            let right = area.x + area.width - (rect.x + rect.width);
            &&& rect.width == 76
            &&& rect.height == 20
            &&& 0 <= right - left <= 1
            &&& BatchView::plain_list_in(inner).y == inner.y + 2
            &&& BatchView::plain_list_in(inner).height == inner.height - 5
            &&& BatchView::foot_in(inner).y == inner.y + inner.height - 1
        }),
{
}

} // verus!
