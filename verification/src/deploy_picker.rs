//! Stages which agents get some skills, each with the directory that it reads.

use crate::app::{both, nothing, only, Action, Hint};
use crate::components::choice_footer::{
    button_rects, draw_with_labels, footer_scene, ChoiceEvent, ChoiceFocus,
};
use crate::geometry::{monus, spec_max, spec_min, Rect};
use crate::keymap::{KeyCode, KeyEvent, KeyModifiers, MouseEvent, MouseKind};
use crate::measure::{cut_in_middle, fit, fitted, middle_ellipsis};
use crate::model::{TargetChange, Write};
use crate::paths::{path_before, path_parts, path_precedes, same_path};
use crate::text::{
    cat2, cat3, cat5, clone_all, clone_optional, comes_before, decimal, lemma_list_precedes_total,
    lemma_list_precedes_transitive, lemma_precedes_total, lemma_precedes_transitive, list_holds,
    list_precedes, numeral, precedes, same_text, texts, trim, trimmed, widen, widened,
};
use crate::theme::Theme;
use crate::ui::{
    flowing, listed, plain_run, run, shown, Draw, DrawView, Line, Lines, Scene, Span, SpanView,
    Style, Wrap,
};
use crate::widgets::{first_of, input_with, moved, Input, InputView, ListNav};
use vstd::prelude::*;

verus! {

/// A directory that skills can be deployed to, and the agent that reads it.
#[derive(Debug)]
pub struct Target {
    pub key: String,
    /// The directory.
    pub path: String,
    /// The directory, with the home directory in short.
    pub shown_path: String,
    /// The product that the agent belongs to.
    pub product: String,
    pub product_name: String,
    pub display_name: String,
    /// Where the directory is, in words.
    pub location: String,
    pub read_only: bool,
    /// The skills that are deployed there.
    pub deployed: Vec<String>,
}

/// The directories that there are, for all projects and for one.
#[derive(Debug)]
pub struct Candidates {
    pub project: String,
    pub global: Vec<Target>,
    pub local: Vec<Target>,
    /// The products that are shown, where not all are.
    pub products: Option<Vec<String>>,
}

/// A directory in the list: how many of the skills it has, and what is wanted.
#[derive(Debug)]
pub struct TargetRow {
    pub key: String,
    pub path: String,
    pub shown_path: String,
    pub product: String,
    pub product_name: String,
    pub display_name: String,
    pub location: String,
    /// It belongs to the project.
    pub local: bool,
    pub count: usize,
    pub desired: Option<bool>,
}

#[derive(Debug)]
pub struct DeployPicker {
    pub keys: Vec<String>,
    pub project: Input,
    pub resolved: Option<String>,
    pub rows: Vec<TargetRow>,
    pub list: ListNav,
    pub editing: bool,
    pub focus: ChoiceFocus,
    pub error: Option<String>,
    /// A press on the list that waits for the directories to be looked up.
    pub press: Option<u16>,
    pub rect: Rect,
    pub project_rect: Rect,
    pub apply: Rect,
    pub cancel: Rect,
}

pub ghost struct DeployPickerView {
    pub keys: Seq<String>,
    pub project: InputView,
    pub resolved: Option<String>,
    pub rows: Seq<TargetRow>,
    pub list: ListNav,
    pub editing: bool,
    pub focus: ChoiceFocus,
    pub error: Option<Seq<char>>,
    pub press: Option<u16>,
    pub rect: Rect,
    pub project_rect: Rect,
    pub apply: Rect,
    pub cancel: Rect,
}

impl View for DeployPicker {
    type V = DeployPickerView;

    open spec fn view(&self) -> DeployPickerView {
        DeployPickerView {
            keys: self.keys@,
            project: self.project@,
            resolved: self.resolved,
            rows: self.rows@,
            list: self.list,
            editing: self.editing,
            focus: self.focus,
            error: crate::text::said(self.error),
            press: self.press,
            rect: self.rect,
            project_rect: self.project_rect,
            apply: self.apply,
            cancel: self.cancel,
        }
    }
}

// ---- the rows ----------------------------------------------------------------

/// The order of the rows: by product, those of the project behind the others, by path.
pub open spec fn row_before(a: TargetRow, b: TargetRow) -> bool {
    if a.product@ != b.product@ {
        precedes(a.product@, b.product@)
    } else if a.local != b.local {
        b.local
    } else {
        path_precedes(a.path@, b.path@)
    }
}

fn is_before(a: &TargetRow, b: &TargetRow) -> (r: bool)
    ensures
        r == row_before(*a, *b),
{
    if !same_text(a.product.as_str(), b.product.as_str()) {
        comes_before(a.product.as_str(), b.product.as_str())
    } else if a.local != b.local {
        b.local
    } else {
        path_before(a.path.as_str(), b.path.as_str())
    }
}

/// Where a row goes among the rows from `at` on: in front of the first one behind it.
pub open spec fn place_from(rows: Seq<TargetRow>, row: TargetRow, at: int) -> int
    decreases rows.len() - at,
{
    if at < 0 || at >= rows.len() {
        rows.len() as int
    } else if row_before(row, rows[at]) {
        at
    } else {
        place_from(rows, row, at + 1)
    }
}

/// How many of some skills are deployed in a directory.
pub open spec fn deployed_count(keys: Seq<String>, deployed: Seq<Seq<char>>) -> int
    decreases keys.len(),
{
    if keys.len() == 0 {
        0
    } else {
        deployed_count(keys.drop_last(), deployed) + if deployed.contains(keys.last()@) {
            1int
        } else {
            0int
        }
    }
}

pub open spec fn keys_of(targets: Seq<Target>) -> Seq<Seq<char>> {
    targets.map_values(|t: Target| t.key@)
}

/// The row of a directory.
pub open spec fn row_from(target: Target, local_keys: Seq<Seq<char>>, keys: Seq<String>) -> TargetRow {
    TargetRow {
        key: target.key,
        path: target.path,
        shown_path: target.shown_path,
        product: target.product,
        product_name: target.product_name,
        display_name: target.display_name,
        location: target.location,
        local: local_keys.contains(target.key@),
        count: deployed_count(keys, texts(target.deployed@)) as usize,
        desired: None,
    }
}

/// A directory is offered: it can be written to, and its product is shown.
pub open spec fn is_offered(target: Target, products: Option<Vec<String>>) -> bool {
    !target.read_only && match products {
        Some(list) => texts(list@).contains(target.product@),
        None => true,
    }
}

/// The rows of the directories that are offered, in order; those that are equal stay in
/// the order in which they came.
pub open spec fn rows_from(
    targets: Seq<Target>,
    local_keys: Seq<Seq<char>>,
    keys: Seq<String>,
    products: Option<Vec<String>>,
) -> Seq<TargetRow>
    decreases targets.len(),
{
    if targets.len() == 0 {
        Seq::empty()
    } else {
        let before = rows_from(targets.drop_last(), local_keys, keys, products);
        if is_offered(targets.last(), products) {
            let row = row_from(targets.last(), local_keys, keys);
            before.insert(place_from(before, row, 0), row)
        } else {
            before
        }
    }
}

pub open spec fn all_rows(candidates: Candidates, keys: Seq<String>) -> Seq<TargetRow> {
    rows_from(
        candidates.global@ + candidates.local@,
        keys_of(candidates.local@),
        keys,
        candidates.products,
    )
}

proof fn lemma_place_bounds(rows: Seq<TargetRow>, row: TargetRow, at: int)
    requires
        0 <= at <= rows.len(),
    ensures
        at <= place_from(rows, row, at) <= rows.len(),
        forall|k: int| at <= k < place_from(rows, row, at) ==> !row_before(row, #[trigger] rows[k]),
        place_from(rows, row, at) < rows.len() ==> row_before(
            row,
            rows[place_from(rows, row, at)],
        ),
    decreases rows.len() - at,
{
    if at < rows.len() && !row_before(row, rows[at]) {
        lemma_place_bounds(rows, row, at + 1);
    }
}

proof fn lemma_count_bounds(keys: Seq<String>, deployed: Seq<Seq<char>>)
    ensures
        0 <= deployed_count(keys, deployed) <= keys.len(),
    decreases keys.len(),
{
    if keys.len() > 0 {
        lemma_count_bounds(keys.drop_last(), deployed);
    }
}

fn count_deployed(keys: &Vec<String>, deployed: &Vec<String>) -> (r: usize)
    ensures
        r == deployed_count(keys@, texts(deployed@)),
{
    let mut count: usize = 0;
    let mut i: usize = 0;
    assert(keys@.take(0) =~= Seq::empty());
    while i < keys.len()
        invariant
            i <= keys.len(),
            count <= i,
            count == deployed_count(keys@.take(i as int), texts(deployed@)),
        decreases keys.len() - i,
    {
        if list_holds(deployed, keys[i].as_str()) {
            count = count + 1;
        }
        i = i + 1;
        assert(keys@.take(i as int).drop_last() =~= keys@.take(i - 1));
    }
    assert(keys@.take(i as int) =~= keys@);
    count
}

fn holds_key(targets: &Vec<Target>, key: &str) -> (r: bool)
    ensures
        r == keys_of(targets@).contains(key@),
{
    let mut i: usize = 0;
    while i < targets.len()
        invariant
            i <= targets.len(),
            forall|k: int| 0 <= k < i ==> #[trigger] keys_of(targets@)[k] != key@,
        decreases targets.len() - i,
    {
        if same_text(targets[i].key.as_str(), key) {
            assert(keys_of(targets@)[i as int] == key@);
            return true;
        }
        i = i + 1;
    }
    false
}

fn offers(target: &Target, products: &Option<Vec<String>>) -> (r: bool)
    ensures
        r == is_offered(*target, *products),
{
    !target.read_only && match products {
        Some(list) => list_holds(list, target.product.as_str()),
        None => true,
    }
}

fn make_row(target: &Target, local: &Vec<Target>, keys: &Vec<String>) -> (r: TargetRow)
    ensures
        r == row_from(*target, keys_of(local@), keys@),
{
    proof {
        lemma_count_bounds(keys@, texts(target.deployed@));
    }
    TargetRow {
        key: target.key.clone(),
        path: target.path.clone(),
        shown_path: target.shown_path.clone(),
        product: target.product.clone(),
        product_name: target.product_name.clone(),
        display_name: target.display_name.clone(),
        location: target.location.clone(),
        local: holds_key(local, target.key.as_str()),
        count: count_deployed(keys, &target.deployed),
        desired: None,
    }
}

fn insert_row(rows: &mut Vec<TargetRow>, row: TargetRow)
    ensures
        final(rows)@ == old(rows)@.insert(place_from(old(rows)@, row, 0), row),
{
    let mut i: usize = 0;
    while i < rows.len() && !is_before(&row, &rows[i])
        invariant
            i <= rows.len(),
            rows@ == old(rows)@,
            place_from(old(rows)@, row, 0) == place_from(rows@, row, i as int),
        decreases rows.len() - i,
    {
        i = i + 1;
    }
    proof {
        lemma_place_bounds(rows@, row, i as int);
    }
    rows.insert(i, row);
}

/// Takes the rows of some more directories.
fn take_rows(
    rows: &mut Vec<TargetRow>,
    targets: &Vec<Target>,
    local: &Vec<Target>,
    keys: &Vec<String>,
    products: &Option<Vec<String>>,
    Ghost(before): Ghost<Seq<Target>>,
)
    requires
        old(rows)@ == rows_from(before, keys_of(local@), keys@, *products),
    ensures
        final(rows)@ == rows_from(before + targets@, keys_of(local@), keys@, *products),
{
    let mut i: usize = 0;
    assert(before + targets@.take(0) =~= before);
    while i < targets.len()
        invariant
            i <= targets.len(),
            rows@ == rows_from(
                before + targets@.take(i as int),
                keys_of(local@),
                keys@,
                *products,
            ),
        decreases targets.len() - i,
    {
        if offers(&targets[i], products) {
            let row = make_row(&targets[i], local, keys);
            insert_row(rows, row);
        }
        i = i + 1;
        assert((before + targets@.take(i as int)).drop_last() =~= before + targets@.take(i - 1));
        assert((before + targets@.take(i as int)).last() == targets@[i - 1]);
    }
    assert(before + targets@.take(i as int) =~= before + targets@);
}

// ---- what is wanted ----------------------------------------------------------

impl TargetRow {
    /// What is wanted of the row: what was chosen, or else what is.
    pub open spec fn wanted(self, skills: int) -> bool {
        match self.desired {
            Some(on) => on,
            None => self.count == skills,
        }
    }

    /// What was chosen differs from what is.
    pub open spec fn changes(self, skills: int) -> bool {
        match self.desired {
            Some(on) => if on {
                self.count < skills
            } else {
                self.count > 0
            },
            None => false,
        }
    }

    fn is_wanted(&self, skills: usize) -> (r: bool)
        ensures
            r == self.wanted(skills as int),
    {
        match self.desired {
            Some(on) => on,
            None => self.count == skills,
        }
    }

    fn is_changed(&self, skills: usize) -> (r: bool)
        ensures
            r == self.changes(skills as int),
    {
        match self.desired {
            Some(on) => if on {
                self.count < skills
            } else {
                self.count > 0
            },
            None => false,
        }
    }
}

/// The rows once all of one directory are wanted, or none. It is the same directory where
/// the parts of its path are the same.
pub open spec fn rows_set(rows: Seq<TargetRow>, path: Seq<char>, on: bool) -> Seq<TargetRow> {
    rows.map_values(
        |row: TargetRow|
            if path_parts(row.path@) == path_parts(path) {
                TargetRow { desired: Some(on), ..row }
            } else {
                row
            },
    )
}

/// The directories that would change.
pub open spec fn changed_paths(rows: Seq<TargetRow>, skills: int) -> Set<Seq<Seq<char>>>
    decreases rows.len(),
{
    if rows.len() == 0 {
        Set::empty()
    } else if rows.last().changes(skills) {
        changed_paths(rows.drop_last(), skills).insert(path_parts(rows.last().path@))
    } else {
        changed_paths(rows.drop_last(), skills)
    }
}

/// The changes that the rows ask for.
pub open spec fn asked_changes(
    rows: Seq<TargetRow>,
    skills: int,
    resolved: Option<String>,
) -> Seq<TargetChange>
    decreases rows.len(),
{
    if rows.len() == 0 {
        Seq::empty()
    } else {
        let before = asked_changes(rows.drop_last(), skills, resolved);
        let row = rows.last();
        if row.changes(skills) {
            before.push(
                TargetChange {
                    agent: row.key,
                    on: row.desired->0,
                    project: if row.local {
                        resolved
                    } else {
                        None
                    },
                },
            )
        } else {
            before
        }
    }
}

/// What the dialog asks of the application.
pub ghost enum DeployReply {
    Nothing,
    Close,
    Deploy(Seq<TargetChange>),
    Load(Seq<char>),
}

impl DeployReply {
    pub open spec fn told(self, keys: Seq<String>, actions: Seq<Action>) -> bool {
        match self {
            DeployReply::Nothing => actions.len() == 0,
            DeployReply::Close => actions == seq![Action::CloseModal],
            DeployReply::Deploy(changes) => {
                &&& actions.len() == 2
                &&& actions[0] == Action::CloseModal
                &&& (actions[1] matches Action::Deployment(inner) && *inner matches Action::BatchMeta(
                    Write::Deploy { keys: k, changes: c },
                    about,
                ) && k@ == keys && c@ == changes && about@ == keys)
            },
            DeployReply::Load(project) => actions.len() == 1 && (actions[0] matches Action::LoadTargets(
                path,
            ) && path@ == project),
        }
    }
}

impl DeployPickerView {
    pub open spec fn valid(self) -> bool {
        self.project.valid()
    }

    pub open spec fn skills(self) -> int {
        self.keys.len() as int
    }

    /// How many directories would change.
    pub open spec fn pending(self) -> nat {
        changed_paths(self.rows, self.skills()).len()
    }

    /// The selected row, and with it all of its directory, is chosen or given up.
    pub open spec fn toggled(self) -> DeployPickerView {
        match self.list.selected {
            Some(i) => if i < self.rows.len() {
                let row = self.rows[i as int];
                DeployPickerView {
                    rows: rows_set(self.rows, row.path@, !row.wanted(self.skills())),
                    ..self
                }
            } else {
                self
            },
            None => self,
        }
    }

    /// What was chosen is to be done.
    pub open spec fn applied(self) -> (DeployPickerView, DeployReply) {
        if self.editing {
            (
                DeployPickerView {
                    error: Some("Press Enter to confirm the project path first"@),
                    ..self
                },
                DeployReply::Nothing,
            )
        } else if self.pending() == 0 {
            (self, DeployReply::Nothing)
        } else {
            (
                self,
                DeployReply::Deploy(asked_changes(self.rows, self.skills(), self.resolved)),
            )
        }
    }

    /// The project was edited: its directories have to be looked up.
    pub open spec fn asking(self, press: Option<u16>) -> (DeployPickerView, DeployReply) {
        (
            DeployPickerView { editing: false, press, ..self },
            DeployReply::Load(trimmed(self.project.text)),
        )
    }

    pub open spec fn at_end(self) -> bool {
        self.rows.len() == 0 || (self.list.selected is Some && self.list.selected->0
            == self.rows.len() - 1)
    }

    pub open spec fn with_selected(self, selected: Option<usize>) -> DeployPickerView {
        DeployPickerView { list: ListNav { selected, ..self.list }, ..self }
    }

    /// A key that belongs to the list.
    pub open spec fn list_keyed(self, key: KeyEvent) -> (DeployPickerView, DeployReply) {
        let n = self.rows.len() as int;
        match key.code {
            KeyCode::Char(c) => if c == 'p' {
                (DeployPickerView { editing: true, ..self }, DeployReply::Nothing)
            } else if c == ' ' {
                (self.toggled(), DeployReply::Nothing)
            } else {
                (self, DeployReply::Nothing)
            },
            KeyCode::Up => (
                self.with_selected(moved(self.list.selected, -1, n)),
                DeployReply::Nothing,
            ),
            KeyCode::Down => (
                self.with_selected(moved(self.list.selected, 1, n)),
                DeployReply::Nothing,
            ),
            KeyCode::Enter => if key.modifiers.control {
                self.applied()
            } else {
                (self.toggled(), DeployReply::Nothing)
            },
            _ => (self, DeployReply::Nothing),
        }
    }

    /// What a key does.
    pub open spec fn keyed(self, key: KeyEvent) -> (DeployPickerView, DeployReply) {
        if self.editing && key.code == KeyCode::Esc {
            (DeployPickerView { editing: false, ..self }, DeployReply::Nothing)
        } else if key.code == KeyCode::Esc || (!self.editing && key.code == KeyCode::Char('q')
            && key.modifiers == KeyModifiers::none()) {
            (self, DeployReply::Close)
        } else if self.editing {
            if key.code == KeyCode::Enter || key.code == KeyCode::Tab {
                self.asking(None)
            } else {
                (
                    DeployPickerView { project: self.project.keyed(key), ..self },
                    DeployReply::Nothing,
                )
            }
        } else {
            match self.focus.pressed(key.code, self.at_end()) {
                Some((focus, event)) => {
                    let after = DeployPickerView { focus, ..self };
                    match event {
                        ChoiceEvent::Apply => after.applied(),
                        ChoiceEvent::Cancel => (after, DeployReply::Close),
                        ChoiceEvent::Moved => (after, DeployReply::Nothing),
                    }
                },
                None => self.list_keyed(key),
            }
        }
    }

    /// A press on a row of the list.
    pub open spec fn row_pressed(self, y: int) -> DeployPickerView {
        match self.list.hit(y, self.rows.len() as int) {
            Some(at) => DeployPickerView {
                focus: ChoiceFocus::List,
                ..self.with_selected(Some(at))
            }.toggled(),
            None => self,
        }
    }

    /// What the mouse does.
    pub open spec fn moused(self, event: MouseEvent) -> (DeployPickerView, DeployReply) {
        let x = event.column as int;
        let y = event.row as int;
        let n = self.rows.len() as int;
        match event.kind {
            MouseKind::Down => if self.project_rect.has(x, y) {
                (
                    DeployPickerView {
                        editing: true,
                        project: self.project.clicked(x),
                        ..self
                    },
                    DeployReply::Nothing,
                )
            } else if self.apply.has(x, y) {
                DeployPickerView { focus: ChoiceFocus::Apply, ..self }.applied()
            } else if self.cancel.has(x, y) {
                (DeployPickerView { focus: ChoiceFocus::Cancel, ..self }, DeployReply::Close)
            } else if self.list.rows.has(x, y) {
                if self.editing {
                    self.asking(Some(event.row))
                } else {
                    (self.row_pressed(y), DeployReply::Nothing)
                }
            } else {
                (self, DeployReply::Nothing)
            },
            MouseKind::ScrollDown => (
                self.with_selected(moved(self.list.selected, 3, n)),
                DeployReply::Nothing,
            ),
            MouseKind::ScrollUp => (
                self.with_selected(moved(self.list.selected, -3, n)),
                DeployReply::Nothing,
            ),
            _ => (self, DeployReply::Nothing),
        }
    }

    /// The dialog once the directories of its project were looked up, and a press that
    /// waited for that was made.
    pub open spec fn loaded(self, result: Result<Candidates, String>) -> DeployPickerView {
        let after = DeployPickerView { press: None, ..self.listing(result) };
        match self.press {
            Some(row) => after.row_pressed(row as int),
            None => after,
        }
    }

    /// The dialog with the rows of the directories.
    pub open spec fn listing(self, result: Result<Candidates, String>) -> DeployPickerView {
        let rows = match result {
            Ok(candidates) => all_rows(candidates, self.keys),
            Err(_) => Seq::empty(),
        };
        DeployPickerView {
            rows,
            error: match result {
                Ok(_) => None,
                Err(error) => Some(error@),
            },
            resolved: match result {
                Ok(candidates) => Some(candidates.project),
                Err(_) => None,
            },
            list: ListNav { selected: first_of(rows.len() as int), ..self.list },
            focus: if rows.len() == 0 {
                ChoiceFocus::Apply
            } else {
                self.focus
            },
            ..self
        }
    }
}

/// The dialog for some skills and a project, before its directories were looked up.
pub open spec fn unloaded(keys: Seq<String>, project: Seq<char>) -> DeployPickerView {
    DeployPickerView {
        keys,
        project: input_with(project),
        resolved: None,
        rows: Seq::empty(),
        list: ListNav::empty(),
        editing: false,
        focus: ChoiceFocus::List,
        error: None,
        press: None,
        rect: Rect::zero(),
        project_rect: Rect::zero(),
        apply: Rect::zero(),
        cancel: Rect::zero(),
    }
}

pub open spec fn deploy_hints() -> Seq<Hint> {
    seq![
        ("Tab/Shift+Tab", "list / buttons"),
        ("Enter/Space", "select / activate"),
        ("↑↓", "move"),
        ("p", "project path"),
        ("Esc", "cancel"),
    ]
}

impl DeployPickerView {
    /// What a paste does: it goes into the path while that is edited.
    pub open spec fn pasted(self, text: Seq<char>) -> DeployPickerView {
        if !self.editing {
            self
        } else if crate::widgets::is_multiline(text) {
            DeployPickerView { error: Some(crate::widgets::paste_refused()), ..self }
        } else {
            DeployPickerView { project: self.project.with_pasted(text), ..self }
        }
    }
}

impl DeployPicker {
    /// The dialog for some skills and a project; its directories are not looked up yet.
    pub fn new(keys: Vec<String>, project: &str) -> (r: DeployPicker)
        ensures
            r@ == unloaded(keys@, project@),
            r@.valid(),
    {
        let picker = DeployPicker {
            keys,
            project: Input::with_value(project),
            resolved: None,
            rows: Vec::new(),
            list: ListNav::empty(),
            editing: false,
            focus: ChoiceFocus::List,
            error: None,
            press: None,
            rect: Rect::zero(),
            project_rect: Rect::zero(),
            apply: Rect::zero(),
            cancel: Rect::zero(),
        };
        assert(picker@.rows =~= Seq::empty());
        picker
    }

    /// Takes the directories of the project, or why they cannot be had.
    pub fn load(&mut self, result: Result<Candidates, String>)
        requires
            old(self)@.valid(),
        ensures
            final(self)@ == old(self)@.loaded(result),
            final(self)@.valid(),
    {
        let mut rows: Vec<TargetRow> = Vec::new();
        match result {
            Ok(candidates) => {
                assert(rows@ =~= Seq::empty());
                take_rows(
                    &mut rows,
                    &candidates.global,
                    &candidates.local,
                    &self.keys,
                    &candidates.products,
                    Ghost(Seq::empty()),
                );
                assert(Seq::empty() + candidates.global@ =~= candidates.global@);
                take_rows(
                    &mut rows,
                    &candidates.local,
                    &candidates.local,
                    &self.keys,
                    &candidates.products,
                    Ghost(candidates.global@),
                );
                self.error = None;
                self.resolved = Some(candidates.project);
            },
            Err(error) => {
                assert(rows@ =~= Seq::empty());
                self.error = Some(error);
                self.resolved = None;
            },
        }
        self.rows = rows;
        self.list.first(self.rows.len());
        if self.rows.len() == 0 {
            self.focus = ChoiceFocus::Apply;
        }
        let press = self.press;
        self.press = None;
        match press {
            Some(row) => self.press_row(row),
            None => {},
        }
    }

    fn press_row(&mut self, row: u16)
        requires
            old(self)@.valid(),
        ensures
            final(self)@ == old(self)@.row_pressed(row as int),
            final(self)@.valid(),
    {
        match self.list.row_at(row, self.rows.len()) {
            Some(at) => {
                self.focus = ChoiceFocus::List;
                self.list.select(Some(at));
                self.toggle();
            },
            None => {},
        }
    }

    /// Chooses the selected row and all of its directory, or gives them up.
    pub fn toggle(&mut self)
        requires
            old(self)@.valid(),
        ensures
            final(self)@ == old(self)@.toggled(),
            final(self)@.valid(),
    {
        let at: usize = match self.list.selected {
            Some(at) => at,
            None => {
                return;
            },
        };
        if at >= self.rows.len() {
            return;
        }
        let path = self.rows[at].path.clone();
        let on = !self.rows[at].is_wanted(self.keys.len());
        let ghost before = self@;
        let ghost all = rows_set(self.rows@, path@, on);
        let mut i: usize = 0;
        while i < self.rows.len()
            invariant
                i <= self.rows.len(),
                self.rows@.len() == before.rows.len(),
                all == rows_set(before.rows, path@, on),
                self@ == (DeployPickerView { rows: self.rows@, ..before }),
                forall|k: int| 0 <= k < i ==> #[trigger] self.rows@[k] == all[k],
                forall|k: int| i <= k < self.rows@.len() ==> #[trigger] self.rows@[k]
                    == before.rows[k],
            decreases self.rows.len() - i,
        {
            if same_path(self.rows[i].path.as_str(), path.as_str()) {
                self.rows[i].desired = Some(on);
            }
            i = i + 1;
        }
        assert(self.rows@ =~= all);
    }

    /// How many directories would change.
    pub fn pending_count(&self) -> (r: usize)
        ensures
            r == self@.pending(),
    {
        let mut count: usize = 0;
        let skills = self.keys.len();
        let mut i: usize = 0;
        assert(self.rows@.take(0) =~= Seq::empty());
        while i < self.rows.len()
            invariant
                i <= self.rows.len(),
                count <= i,
                skills == self.keys@.len(),
                changed_paths(self.rows@.take(i as int), skills as int).finite(),
                count == changed_paths(self.rows@.take(i as int), skills as int).len(),
            decreases self.rows.len() - i,
        {
            assert(self.rows@.take(i + 1).drop_last() =~= self.rows@.take(i as int));
            if self.rows[i].is_changed(skills) && !self.is_counted(i) {
                count = count + 1;
            }
            i = i + 1;
        }
        assert(self.rows@.take(i as int) =~= self.rows@);
        count
    }

    /// The directory of a row changes for a row above it already.
    fn is_counted(&self, at: usize) -> (r: bool)
        requires
            at < self.rows@.len(),
        ensures
            r == changed_paths(self.rows@.take(at as int), self.keys@.len() as int).contains(
                path_parts(self.rows@[at as int].path@),
            ),
    {
        let ghost path = path_parts(self.rows@[at as int].path@);
        let skills = self.keys.len();
        let mut found = false;
        let mut i: usize = 0;
        assert(self.rows@.take(0) =~= Seq::empty());
        while i < at
            invariant
                i <= at,
                at < self.rows@.len(),
                skills == self.keys@.len(),
                path == path_parts(self.rows@[at as int].path@),
                found == changed_paths(self.rows@.take(i as int), skills as int).contains(path),
            decreases at - i,
        {
            assert(self.rows@.take(i + 1).drop_last() =~= self.rows@.take(i as int));
            if self.rows[i].is_changed(skills) && same_path(
                self.rows[i].path.as_str(),
                self.rows[at].path.as_str(),
            ) {
                found = true;
            }
            i = i + 1;
        }
        found
    }

    fn changes(&self) -> (r: Vec<TargetChange>)
        ensures
            r@ == asked_changes(self.rows@, self.keys@.len() as int, self.resolved),
    {
        let mut changes: Vec<TargetChange> = Vec::new();
        let skills = self.keys.len();
        let mut i: usize = 0;
        assert(self.rows@.take(0) =~= Seq::empty());
        while i < self.rows.len()
            invariant
                i <= self.rows.len(),
                skills == self.keys@.len(),
                changes@ == asked_changes(self.rows@.take(i as int), skills as int, self.resolved),
            decreases self.rows.len() - i,
        {
            assert(self.rows@.take(i + 1).drop_last() =~= self.rows@.take(i as int));
            let row = &self.rows[i];
            if row.is_changed(skills) {
                let project = if row.local {
                    clone_optional(&self.resolved)
                } else {
                    None
                };
                let on = match row.desired {
                    Some(on) => on,
                    None => false,
                };
                changes.push(TargetChange { agent: row.key.clone(), on, project });
            }
            i = i + 1;
        }
        assert(self.rows@.take(i as int) =~= self.rows@);
        changes
    }

    fn apply_changes(&mut self) -> (r: Vec<Action>)
        requires
            old(self)@.valid(),
        ensures
            final(self)@ == old(self)@.applied().0,
            old(self)@.applied().1.told(old(self)@.keys, r@),
            final(self)@.valid(),
    {
        if self.editing {
            self.error = Some("Press Enter to confirm the project path first".to_owned());
            return nothing();
        }
        if self.pending_count() == 0 {
            return nothing();
        }
        let changes = self.changes();
        let keys = clone_all(&self.keys);
        let about = clone_all(&self.keys);
        both(
            Action::CloseModal,
            Action::deployment(Action::BatchMeta(Write::Deploy { keys, changes }, about)),
        )
    }

    fn ask(&mut self, press: Option<u16>) -> (r: Vec<Action>)
        requires
            old(self)@.valid(),
        ensures
            final(self)@ == old(self)@.asking(press).0,
            old(self)@.asking(press).1.told(old(self)@.keys, r@),
            final(self)@.valid(),
    {
        self.editing = false;
        self.press = press;
        only(Action::LoadTargets(trim(self.project.value().as_str())))
    }

    pub fn hints(&self) -> (r: Vec<Hint>)
        ensures
            r@ == deploy_hints(),
    {
        vec![
            ("Tab/Shift+Tab", "list / buttons"),
            ("Enter/Space", "select / activate"),
            ("↑↓", "move"),
            ("p", "project path"),
            ("Esc", "cancel"),
        ]
    }

    pub fn paste(&mut self, text: &str) -> (r: Vec<Action>)
        requires
            old(self)@.valid(),
        ensures
            r@.len() == 0,
            final(self)@ == old(self)@.pasted(text@),
            final(self)@.valid(),
    {
        if self.editing {
            match self.project.paste(text) {
                Ok(_) => {},
                Err(why) => {
                    self.error = Some(why.to_owned());
                },
            }
        }
        nothing()
    }

    fn list_key(&mut self, key: KeyEvent) -> (r: Vec<Action>)
        requires
            old(self)@.valid(),
        ensures
            final(self)@ == old(self)@.list_keyed(key).0,
            old(self)@.list_keyed(key).1.told(old(self)@.keys, r@),
            final(self)@.valid(),
    {
        let rows = self.rows.len();
        match key.code {
            KeyCode::Char(c) => {
                if c == 'p' {
                    self.editing = true;
                } else if c == ' ' {
                    self.toggle();
                }
            },
            KeyCode::Up => self.list.move_by(-1, rows),
            KeyCode::Down => self.list.move_by(1, rows),
            KeyCode::Enter => {
                if key.modifiers.control {
                    return self.apply_changes();
                }
                self.toggle();
            },
            _ => {},
        }
        nothing()
    }

    pub fn key(&mut self, key: KeyEvent) -> (r: Vec<Action>)
        requires
            old(self)@.valid(),
        ensures
            final(self)@ == old(self)@.keyed(key).0,
            old(self)@.keyed(key).1.told(old(self)@.keys, r@),
            final(self)@.valid(),
    {
        if self.editing && key.code == KeyCode::Esc {
            self.editing = false;
            return nothing();
        }
        if key.code == KeyCode::Esc || (!self.editing && key.code == KeyCode::Char('q') && key.modifiers
            == KeyModifiers::none()) {
            return only(Action::CloseModal);
        }
        if self.editing {
            if key.code == KeyCode::Enter || key.code == KeyCode::Tab {
                return self.ask(None);
            }
            self.project.handle_key(key);
            return nothing();
        }
        let rows = self.rows.len();
        let at_end = rows == 0 || match self.list.selected {
            Some(at) => at == rows - 1,
            None => false,
        };
        match self.focus.key(key.code, at_end) {
            Some(event) => match event {
                ChoiceEvent::Apply => self.apply_changes(),
                ChoiceEvent::Cancel => only(Action::CloseModal),
                ChoiceEvent::Moved => nothing(),
            },
            None => self.list_key(key),
        }
    }

    pub fn mouse(&mut self, event: MouseEvent) -> (r: Vec<Action>)
        requires
            old(self)@.valid(),
        ensures
            final(self)@ == old(self)@.moused(event).0,
            old(self)@.moused(event).1.told(old(self)@.keys, r@),
            final(self)@.valid(),
    {
        let rows = self.rows.len();
        match event.kind {
            MouseKind::Down => {
                if self.project_rect.contains(event.column, event.row) {
                    self.editing = true;
                    self.project.click(event.column);
                } else if self.apply.contains(event.column, event.row) {
                    self.focus = ChoiceFocus::Apply;
                    return self.apply_changes();
                } else if self.cancel.contains(event.column, event.row) {
                    self.focus = ChoiceFocus::Cancel;
                    return only(Action::CloseModal);
                } else if self.list.rows.contains(event.column, event.row) {
                    if self.editing {
                        return self.ask(Some(event.row));
                    }
                    self.press_row(event.row);
                }
            },
            MouseKind::ScrollDown => self.list.move_by(3, rows),
            MouseKind::ScrollUp => self.list.move_by(-3, rows),
            _ => {},
        }
        nothing()
    }
}

// ---- drawing -----------------------------------------------------------------

/// The dialog in the middle of an area.
pub open spec fn dialog_in(area: Rect) -> Rect {
    let w = spec_min(monus(area.width as int, 2), 100);
    let h = spec_min(monus(area.height as int, 2), 26);
    Rect::at(area.x + (area.width - w) / 2, area.y + (area.height - h) / 2, w, h)
}

fn place_dialog(area: Rect) -> (r: Rect)
    requires
        area.in_range(),
    ensures
        r == dialog_in(area),
        r.in_range(),
{
    let w: u16 = crate::geometry::min16(area.width.saturating_sub(2), 100);
    let h: u16 = crate::geometry::min16(area.height.saturating_sub(2), 26);
    Rect::new(area.x + (area.width - w) / 2, area.y + (area.height - h) / 2, w, h)
}

/// The mark of a row: chosen, given up, or as it is.
pub open spec fn mark_of(row: TargetRow, skills: int) -> Seq<char> {
    match row.desired {
        Some(true) => "[✓]"@,
        Some(false) => "[ ]"@,
        None => if row.count == skills {
            "[✓]"@
        } else if row.count > 0 {
            "[−]"@
        } else {
            "[ ]"@
        },
    }
}

fn mark(row: &TargetRow, skills: usize) -> (r: &'static str)
    ensures
        r@ == mark_of(*row, skills as int),
{
    match row.desired {
        Some(on) => if on {
            "[✓]"
        } else {
            "[ ]"
        },
        None => if row.count == skills {
            "[✓]"
        } else if row.count > 0 {
            "[−]"
        } else {
            "[ ]"
        },
    }
}

/// A row where there is little room.
pub open spec fn short_row(row: TargetRow, skills: int) -> Seq<SpanView> {
    seq![
        plain_run(
            if row.wanted(skills) {
                "[✓]"@
            } else {
                "[ ]"@
            } + " "@ + row.display_name@ + " "@ + numeral(row.count as int) + "/"@ + numeral(
                skills,
            ),
        ),
    ]
}

/// The name of the product stands at its first row only.
pub open spec fn product_label(rows: Seq<TargetRow>, i: int) -> Seq<char> {
    let previous = if i > 0 {
        rows[i - 1].product@
    } else {
        Seq::<char>::empty()
    };
    if rows[i].product@ == previous {
        ""@
    } else {
        rows[i].product_name@
    }
}

/// A row.
pub open spec fn full_row(
    rows: Seq<TargetRow>,
    i: int,
    skills: int,
    width: int,
    theme: Theme,
) -> Seq<SpanView> {
    let row = rows[i];
    seq![
        run(
            mark_of(row, skills) + " "@,
            if row.desired is Some {
                theme.accent()
            } else if row.count > 0 {
                theme.ok()
            } else {
                theme.dim()
            },
        ),
        run(widened(product_label(rows, i), 15) + " "@, theme.bold()),
        run(
            fitted(
                row.location@ + "  "@ + numeral(row.count as int) + "/"@ + numeral(skills),
                monus(width, 20),
            ),
            theme.dim(),
        ),
    ]
}

pub open spec fn short_rows(rows: Seq<TargetRow>, skills: int) -> Seq<Seq<SpanView>> {
    rows.map_values(|row: TargetRow| short_row(row, skills))
}

pub open spec fn full_rows(
    rows: Seq<TargetRow>,
    skills: int,
    width: int,
    theme: Theme,
) -> Seq<Seq<SpanView>> {
    Seq::new(rows.len(), |i: int| full_row(rows, i, skills, width, theme))
}

impl DeployPickerView {
    pub open spec fn title(self) -> Seq<char> {
        " Install to agents · "@ + numeral(self.skills()) + " "@ + if self.skills() == 1 {
            "skill"@
        } else {
            "skills"@
        } + " "@
    }

    pub open spec fn short(inner: Rect) -> bool {
        inner.height < 12 || inner.width < 26
    }

    pub open spec fn foot_in(inner: Rect) -> Rect {
        let height = spec_min(inner.height as int, 2);
        Rect::at(inner.x as int, inner.end_y() - height, inner.width as int, height)
    }

    pub open spec fn list_in(inner: Rect) -> Rect {
        if DeployPickerView::short(inner) {
            Rect::at(
                inner.x as int,
                inner.y as int,
                inner.width as int,
                monus(inner.height as int, 2),
            )
        } else {
            Rect::at(
                inner.x as int,
                inner.y + 5,
                inner.width as int,
                spec_max(monus(inner.height as int, 11), 1),
            )
        }
    }

    pub open spec fn field_in(inner: Rect) -> Rect {
        Rect::at(inner.x + 9, inner.y + 2, inner.width - 9, 1)
    }

    /// The list once it is drawn.
    pub open spec fn list_at(self, inner: Rect) -> ListNav {
        ListNav { rows: DeployPickerView::list_in(inner), ..self.list }.drawn(
            self.rows.len() as int,
        )
    }

    /// The dialog once it is drawn: where everything is.
    pub open spec fn placed(self, area: Rect) -> DeployPickerView {
        let rect = dialog_in(area);
        let inner = rect.inside();
        let buttons = button_rects(DeployPickerView::foot_in(inner), "Apply"@, "Cancel"@);
        let short = DeployPickerView::short(inner);
        let field = DeployPickerView::field_in(inner);
        DeployPickerView {
            rect,
            list: self.list_at(inner),
            project_rect: if short {
                Rect::zero()
            } else {
                field
            },
            project: if short {
                self.project
            } else {
                InputView { field, ..self.project }
            },
            apply: buttons[0],
            cancel: buttons[1],
            ..self
        }
    }

    pub open spec fn destination(self, width: int) -> Seq<Seq<SpanView>> {
        match self.list.selected {
            Some(i) => if i < self.rows.len() {
                seq![
                    seq![plain_run("Target: "@ + self.rows[i as int].product_name@)],
                    seq![plain_run(cut_in_middle(self.rows[i as int].shown_path@, width))],
                ]
            } else {
                Seq::empty()
            },
            None => Seq::empty(),
        }
    }

    pub open spec fn summary(self) -> Seq<char> {
        if self.pending() == 0 {
            "No pending changes"@
        } else {
            numeral(self.pending() as int) + " pending destinations"@
        }
    }

    pub open spec fn short_scene(self, inner: Rect, theme: Theme) -> Seq<DrawView> {
        seq![
            listed(
                self.list,
                short_rows(self.rows, self.skills()),
                if self.focus == ChoiceFocus::List {
                    theme.selected()
                } else {
                    theme.dim()
                },
            ),
        ]
    }

    pub open spec fn head_scene(self, inner: Rect, root: Seq<char>, theme: Theme) -> Seq<DrawView> {
        let width = inner.width as int;
        seq![
            shown(
                Rect::at(inner.x as int, inner.y as int, width, 1),
                seq![
                    seq![
                        plain_run("Select directories under each product · Global & Local"@),
                    ],
                ],
                theme.bold(),
            ),
            shown(
                Rect::at(inner.x as int, inner.y + 2, 8, 1),
                seq![seq![plain_run("Project:"@)]],
                Style::plain(),
            ),
            DrawView::Field {
                rect: DeployPickerView::field_in(inner),
                value: self.project.text,
                cursor: self.project.cursor as usize,
                focused: self.editing,
                placeholder: "Project directory"@,
            },
            shown(
                Rect::at(inner.x as int, inner.y + 3, width, 1),
                seq![
                    seq![
                        plain_run(
                            fitted("Source: "@ + root + " (symlink deployment)"@, width),
                        ),
                    ],
                ],
                theme.dim(),
            ),
        ]
    }

    pub open spec fn body_scene(self, inner: Rect, theme: Theme) -> Seq<DrawView> {
        let width = inner.width as int;
        seq![
            listed(
                self.list,
                full_rows(self.rows, self.skills(), width, theme),
                if self.focus == ChoiceFocus::List && !self.editing {
                    theme.selected()
                } else {
                    theme.dim()
                },
            ),
            flowing(
                Rect::at(inner.x as int, inner.end_y() - 6, width, 2),
                self.destination(width),
                Style::plain(),
                Wrap::Words,
                0,
            ),
            flowing(
                Rect::at(inner.x as int, inner.end_y() - 4, width, 2),
                seq![
                    seq![
                        plain_run(
                            match self.error {
                                Some(error) => " "@ + error,
                                None => "Shared directories affect every agent reading them."@,
                            },
                        ),
                    ],
                ],
                if self.error is Some {
                    theme.err()
                } else {
                    theme.dim()
                },
                Wrap::Words,
                0,
            ),
        ]
    }

    /// The drawing of the dialog.
    pub open spec fn scene(self, area: Rect, root: Seq<char>, theme: Theme) -> Seq<DrawView> {
        let rect = dialog_in(area);
        let inner = rect.inside();
        let short = DeployPickerView::short(inner);
        let after = DeployPickerView { list: self.list_at(inner), ..self };
        seq![DrawView::Clear(rect), crate::ui::framed(rect, self.title())] + (if short {
            after.short_scene(inner, theme)
        } else {
            self.head_scene(inner, root, theme) + after.body_scene(inner, theme)
        }) + footer_scene(
            DeployPickerView::foot_in(inner),
            self.focus,
            self.pending() > 0,
            if short {
                ""@
            } else {
                self.summary()
            },
            "Apply"@,
            "Cancel"@,
            theme,
        )
    }
}

fn draw_short_rows(rows: &Vec<TargetRow>, skills: usize) -> (r: Lines)
    ensures
        r@ == short_rows(rows@, skills as int),
{
    let mut lines = Lines::new();
    let ghost all = short_rows(rows@, skills as int);
    let mut i: usize = 0;
    while i < rows.len()
        invariant
            i <= rows.len(),
            all == short_rows(rows@, skills as int),
            lines@ == all.take(i as int),
        decreases rows.len() - i,
    {
        let row = &rows[i];
        let sign = if row.is_wanted(skills) {
            "[✓]"
        } else {
            "[ ]"
        };
        let line = Line::raw(
            crate::text::cat7(
                sign,
                " ",
                row.display_name.as_str(),
                " ",
                decimal(row.count).as_str(),
                "/",
                decimal(skills).as_str(),
            ).as_str(),
        );
        assert(line@ =~= all[i as int]);
        lines.push(line);
        i = i + 1;
        assert(lines@ =~= all.take(i as int));
    }
    assert(lines@ =~= all);
    lines
}

fn draw_full_row(rows: &Vec<TargetRow>, i: usize, skills: usize, width: u16, theme: &Theme) -> (r:
    Line)
    requires
        i < rows@.len(),
    ensures
        r@ == full_row(rows@, i as int, skills as int, width as int, *theme),
{
    let row = &rows[i];
    let same = if i > 0 {
        same_text(row.product.as_str(), rows[i - 1].product.as_str())
    } else {
        let blank = crate::text::chars_of(row.product.as_str()).len() == 0;
        assert(blank == (row.product@ =~= Seq::<char>::empty()));
        blank
    };
    let label = if same {
        ""
    } else {
        row.product_name.as_str()
    };
    let style = if row.desired.is_some() {
        theme.accent()
    } else if row.count > 0 {
        theme.ok()
    } else {
        theme.dim()
    };
    let place = cat5(
        row.location.as_str(),
        "  ",
        decimal(row.count).as_str(),
        "/",
        decimal(skills).as_str(),
    );
    let mut line = Line::new();
    line.push(Span::of(cat2(mark(row, skills), " "), style));
    line.push(Span::of(cat2(widen(label, 15).as_str(), " "), theme.bold()));
    line.push(Span::of(fit(place.as_str(), width.saturating_sub(20) as usize), theme.dim()));
    assert(label@ == product_label(rows@, i as int));
    line
}

fn draw_full_rows(rows: &Vec<TargetRow>, skills: usize, width: u16, theme: &Theme) -> (r: Lines)
    ensures
        r@ == full_rows(rows@, skills as int, width as int, *theme),
{
    let mut lines = Lines::new();
    let ghost all = full_rows(rows@, skills as int, width as int, *theme);
    let mut i: usize = 0;
    while i < rows.len()
        invariant
            i <= rows.len(),
            all == full_rows(rows@, skills as int, width as int, *theme),
            lines@ == all.take(i as int),
        decreases rows.len() - i,
    {
        let line = draw_full_row(rows, i, skills, width, theme);
        lines.push(line);
        i = i + 1;
        assert(lines@ =~= all.take(i as int));
    }
    assert(lines@ =~= all);
    lines
}

impl DeployPicker {
    fn draw_short(&self, scene: &mut Scene, inner: Rect, theme: &Theme)
        requires
            inner.in_range(),
            DeployPickerView::short(inner),
        ensures
            final(scene)@ == old(scene)@ + self@.short_scene(inner, *theme),
    {
        let rows = draw_short_rows(&self.rows, self.keys.len());
        scene.list(
            self.list,
            rows,
            if self.focus == ChoiceFocus::List {
                theme.selected()
            } else {
                theme.dim()
            },
        );
        assert(scene@ =~= old(scene)@ + self@.short_scene(inner, *theme));
    }

    fn draw_head(&self, scene: &mut Scene, inner: Rect, root: &str, theme: &Theme)
        requires
            inner.in_range(),
            !DeployPickerView::short(inner),
            self.project_rect == DeployPickerView::field_in(inner),
        ensures
            final(scene)@ == old(scene)@ + self@.head_scene(inner, root@, *theme),
    {
        scene.note(
            Rect::new(inner.x, inner.y, inner.width, 1),
            "Select directories under each product · Global & Local",
            theme.bold(),
        );
        scene.note(Rect::new(inner.x, inner.y + 2, 8, 1), "Project:", Style::plain());
        scene.push(
            Draw::Field {
                rect: self.project_rect,
                value: self.project.value(),
                cursor: self.project.cursor,
                focused: self.editing,
                placeholder: "Project directory".to_owned(),
            },
        );
        scene.note(
            Rect::new(inner.x, inner.y + 3, inner.width, 1),
            fit(cat3("Source: ", root, " (symlink deployment)").as_str(), inner.width as usize).as_str(),
            theme.dim(),
        );
        assert(scene@ =~= old(scene)@ + self@.head_scene(inner, root@, *theme));
    }

    fn draw_destination(&self, width: u16) -> (r: Lines)
        ensures
            r@ == self@.destination(width as int),
    {
        let mut lines = Lines::new();
        match self.list.selected {
            Some(i) => {
                if i < self.rows.len() {
                    lines.push(
                        Line::raw(cat2("Target: ", self.rows[i].product_name.as_str()).as_str()),
                    );
                    lines.push(
                        Line::raw(
                            middle_ellipsis(
                                self.rows[i].shown_path.as_str(),
                                width as usize,
                            ).as_str(),
                        ),
                    );
                }
            },
            None => {},
        }
        assert(lines@ =~= self@.destination(width as int));
        lines
    }

    fn draw_body(&self, scene: &mut Scene, inner: Rect, theme: &Theme)
        requires
            inner.in_range(),
            !DeployPickerView::short(inner),
        ensures
            final(scene)@ == old(scene)@ + self@.body_scene(inner, *theme),
    {
        let rows = draw_full_rows(&self.rows, self.keys.len(), inner.width, theme);
        scene.list(
            self.list,
            rows,
            if self.focus == ChoiceFocus::List && !self.editing {
                theme.selected()
            } else {
                theme.dim()
            },
        );
        scene.flow(
            Rect::new(inner.x, inner.bottom() - 6, inner.width, 2),
            self.draw_destination(inner.width),
            Style::plain(),
            Wrap::Words,
            0,
        );
        let at = Rect::new(inner.x, inner.bottom() - 4, inner.width, 2);
        match &self.error {
            Some(error) => scene.flow(
                at,
                Lines::one(Line::raw(cat2(" ", error.as_str()).as_str())),
                theme.err(),
                Wrap::Words,
                0,
            ),
            None => scene.flow(
                at,
                Lines::one(Line::raw("Shared directories affect every agent reading them.")),
                theme.dim(),
                Wrap::Words,
                0,
            ),
        }
        assert(scene@ =~= old(scene)@ + self@.body_scene(inner, *theme));
    }

    fn title(&self) -> (r: String)
        ensures
            r@ == self@.title(),
    {
        let n = self.keys.len();
        cat5(
            " Install to agents · ",
            decimal(n).as_str(),
            " ",
            if n == 1 {
                "skill"
            } else {
                "skills"
            },
            " ",
        )
    }

    /// Draws the dialog in an area. `root` is where the skills are.
    pub fn draw(&mut self, area: Rect, root: &str, theme: &Theme) -> (r: Scene)
        requires
            area.in_range(),
            old(self)@.valid(),
        ensures
            final(self)@ == old(self)@.placed(area),
            final(self)@.valid(),
            r@ == old(self)@.scene(area, root@, *theme),
    {
        self.rect = place_dialog(area);
        let inner = self.rect.inner();
        let title = self.title();
        let pending = self.pending_count();
        let mut scene = Scene::new();
        scene.clear(self.rect);
        scene.frame(self.rect, title.as_str());
        let height: u16 = crate::geometry::min16(inner.height, 2);
        let foot = Rect::new(inner.x, inner.bottom() - height, inner.width, height);
        let ghost head = scene@;
        let summary = if inner.height < 12 || inner.width < 26 {
            self.project_rect = Rect::zero();
            self.list.rows = Rect::new(
                inner.x,
                inner.y,
                inner.width,
                inner.height.saturating_sub(2),
            );
            self.list.show(self.rows.len());
            self.draw_short(&mut scene, inner, theme);
            "".to_owned()
        } else {
            self.project_rect = Rect::new(inner.x + 9, inner.y + 2, inner.width - 9, 1);
            self.project.place(self.project_rect);
            self.list.rows = Rect::new(
                inner.x,
                inner.y + 5,
                inner.width,
                crate::geometry::max16(inner.height.saturating_sub(11), 1),
            );
            self.list.show(self.rows.len());
            self.draw_head(&mut scene, inner, root, theme);
            self.draw_body(&mut scene, inner, theme);
            if pending == 0 {
                "No pending changes".to_owned()
            } else {
                cat2(decimal(pending).as_str(), " pending destinations")
            }
        };
        let buttons = draw_with_labels(
            &mut scene,
            foot,
            self.focus,
            pending > 0,
            summary.as_str(),
            "Apply",
            "Cancel",
            theme,
        );
        self.apply = buttons[0];
        self.cancel = buttons[1];
        assert(scene@ =~= old(self)@.scene(area, root@, *theme));
        scene
    }
}

// ---- laws --------------------------------------------------------------------

proof fn lemma_row_order(a: TargetRow, b: TargetRow, c: TargetRow)
    ensures
        !row_before(b, a) && !row_before(c, b) ==> !row_before(c, a),
        row_before(a, b) ==> !row_before(b, a),
        row_before(a, b) && !row_before(c, b) ==> row_before(a, c),
{
    let (pa, pb, pc) = (a.product@, b.product@, c.product@);
    lemma_precedes_total(pa, pb);
    lemma_precedes_total(pb, pc);
    lemma_precedes_total(pa, pc);
    if precedes(pa, pb) && precedes(pb, pc) {
        lemma_precedes_transitive(pa, pb, pc);
    }
    if precedes(pc, pa) && precedes(pa, pb) {
        lemma_precedes_transitive(pc, pa, pb);
    }
    if precedes(pb, pc) && precedes(pc, pa) {
        lemma_precedes_transitive(pb, pc, pa);
    }
    let (x, y, z) = (path_parts(a.path@), path_parts(b.path@), path_parts(c.path@));
    lemma_list_precedes_total(x, y);
    lemma_list_precedes_total(y, z);
    lemma_list_precedes_total(x, z);
    if list_precedes(x, y) && list_precedes(y, z) {
        lemma_list_precedes_transitive(x, y, z);
    }
    if list_precedes(z, x) && list_precedes(x, y) {
        lemma_list_precedes_transitive(z, x, y);
    }
    if list_precedes(y, z) && list_precedes(z, x) {
        lemma_list_precedes_transitive(y, z, x);
    }
}

/// No row stands in front of one that comes before it.
pub open spec fn in_order(rows: Seq<TargetRow>) -> bool {
    forall|i: int, j: int|
        0 <= i < j < rows.len() ==> !row_before(#[trigger] rows[j], #[trigger] rows[i])
}

/// The rows are in order: by product, those of the project behind the others, by path.
pub proof fn lemma_rows_are_in_order(
    targets: Seq<Target>,
    local_keys: Seq<Seq<char>>,
    keys: Seq<String>,
    products: Option<Vec<String>>,
)
    ensures
        in_order(rows_from(targets, local_keys, keys, products)),
    decreases targets.len(),
{
    if targets.len() > 0 {
        let before = rows_from(targets.drop_last(), local_keys, keys, products);
        lemma_rows_are_in_order(targets.drop_last(), local_keys, keys, products);
        if is_offered(targets.last(), products) {
            let row = row_from(targets.last(), local_keys, keys);
            let at = place_from(before, row, 0);
            lemma_place_bounds(before, row, 0);
            let after = before.insert(at, row);
            assert forall|i: int, j: int| 0 <= i < j < after.len() implies !row_before(
                #[trigger] after[j],
                #[trigger] after[i],
            ) by {
                if j == at {
                    assert(after[i] == before[i]);
                } else if i == at {
                    let other = before[j - 1];
                    assert(after[j] == other);
                    lemma_row_order(row, before[at], other);
                    if j - 1 > at {
                        assert(!row_before(before[j - 1], before[at]));
                    }
                    lemma_row_order(row, other, other);
                } else {
                    let x = if i < at {
                        i
                    } else {
                        i - 1
                    };
                    let y = if j < at {
                        j
                    } else {
                        j - 1
                    };
                    assert(after[i] == before[x]);
                    assert(after[j] == before[y]);
                }
            }
        }
    }
}

/// Every directory that is offered has its row, with nothing chosen yet.
pub proof fn lemma_every_offer_has_a_row(
    targets: Seq<Target>,
    local_keys: Seq<Seq<char>>,
    keys: Seq<String>,
    products: Option<Vec<String>>,
    i: int,
)
    requires
        0 <= i < targets.len(),
        is_offered(targets[i], products),
    ensures
        rows_from(targets, local_keys, keys, products).contains(
            row_from(targets[i], local_keys, keys),
        ),
    decreases targets.len(),
{
    let before = rows_from(targets.drop_last(), local_keys, keys, products);
    let row = row_from(targets[i], local_keys, keys);
    let after = rows_from(targets, local_keys, keys, products);
    if i == targets.len() - 1 {
        let at = place_from(before, row, 0);
        lemma_place_bounds(before, row, 0);
        assert(after[at] == row);
    } else {
        lemma_every_offer_has_a_row(targets.drop_last(), local_keys, keys, products, i);
        let k = choose|k: int| 0 <= k < before.len() && before[k] == row;
        if is_offered(targets.last(), products) {
            let at = place_from(before, row_from(targets.last(), local_keys, keys), 0);
            lemma_place_bounds(before, row_from(targets.last(), local_keys, keys), 0);
            assert(after[if k < at {
                k
            } else {
                k + 1
            }] == row);
        }
    }
}

/// All agents that read a directory are chosen together, and choosing twice gives back
/// what was wanted before.
pub proof fn lemma_shared_directories_go_together(picker: DeployPickerView, i: int, j: int)
    requires
        picker.list.selected is Some,
        picker.list.selected->0 < picker.rows.len(),
        0 <= i < picker.rows.len(),
        0 <= j < picker.rows.len(),
        path_parts(picker.rows[i].path@) == path_parts(
            picker.rows[picker.list.selected->0 as int].path@,
        ),
    ensures
        picker.toggled().rows[i].desired == Some(
            !picker.rows[picker.list.selected->0 as int].wanted(picker.skills()),
        ),
        picker.toggled().rows[i].wanted(picker.skills()) != picker.rows[picker.list.selected->0 as int].wanted(
            picker.skills(),
        ),
        picker.toggled().toggled().rows[i].wanted(picker.skills())
            == picker.rows[picker.list.selected->0 as int].wanted(picker.skills()),
        path_parts(picker.rows[j].path@) != path_parts(picker.rows[i].path@) ==> picker.toggled().rows[j]
            == picker.rows[j],
{
}

/// Something is pending exactly where something would change.
pub proof fn lemma_pending_means_changes(rows: Seq<TargetRow>, skills: int, resolved: Option<String>)
    ensures
        changed_paths(rows, skills).finite(),
        changed_paths(rows, skills).len() == 0 <==> asked_changes(rows, skills, resolved).len() == 0,
    decreases rows.len(),
{
    if rows.len() > 0 {
        lemma_pending_means_changes(rows.drop_last(), skills, resolved);
        if rows.last().changes(skills) {
            assert(changed_paths(rows, skills).contains(path_parts(rows.last().path@)));
        }
    }
}

/// The changes that some actions ask the library for.
pub open spec fn asked_of_the_library(actions: Seq<Action>) -> Seq<TargetChange> {
    match actions[1] {
        Action::Deployment(inner) => match *inner {
            Action::BatchMeta(Write::Deploy { changes, .. }, _) => changes@,
            _ => Seq::empty(),
        },
        _ => Seq::empty(),
    }
}

proof fn lemma_asking_goes_row_by_row(
    rows: Seq<TargetRow>,
    skills: int,
    resolved: Option<String>,
    i: int,
    c: int,
)
    ensures
        0 <= i < rows.len() && (rows[i].desired == Some(true) && rows[i].count < skills
            || rows[i].desired == Some(false) && rows[i].count > 0) ==> exists|k: int|
            0 <= k < asked_changes(rows, skills, resolved).len() && {
                let change = #[trigger] asked_changes(rows, skills, resolved)[k];
                &&& change.agent == rows[i].key
                &&& Some(change.on) == rows[i].desired
                &&& change.project == if rows[i].local {
                    resolved
                } else {
                    None
                }
            },
        0 <= c < asked_changes(rows, skills, resolved).len() ==> exists|k: int|
            0 <= k < rows.len() && {
                let row = #[trigger] rows[k];
                let change = asked_changes(rows, skills, resolved)[c];
                &&& change.agent == row.key
                &&& Some(change.on) == row.desired
                &&& change.on ==> row.count < skills
                &&& !change.on ==> row.count > 0
                &&& row.local ==> change.project == resolved
                &&& !row.local ==> change.project is None
            },
        asked_changes(rows, skills, resolved).len() <= rows.len(),
    decreases rows.len(),
{
    if rows.len() > 0 {
        let front = rows.drop_last();
        let before = asked_changes(front, skills, resolved);
        let all = asked_changes(rows, skills, resolved);
        lemma_asking_goes_row_by_row(front, skills, resolved, i, c);
        if i == rows.len() - 1 && rows[i].changes(skills) {
            assert(all[before.len() as int].agent == rows[i].key);
        } else if 0 <= i < front.len() && front[i].changes(skills) {
            let k = choose|k: int|
                0 <= k < before.len() && {
                    let change = #[trigger] before[k];
                    &&& change.agent == front[i].key
                    &&& Some(change.on) == front[i].desired
                    &&& change.project == if front[i].local {
                        resolved
                    } else {
                        None
                    }
                };
            assert(all[k] == before[k]);
        }
        if 0 <= c < before.len() {
            let k = choose|k: int|
                0 <= k < front.len() && {
                    let row = #[trigger] front[k];
                    let change = before[c];
                    &&& change.agent == row.key
                    &&& Some(change.on) == row.desired
                    &&& change.on ==> row.count < skills
                    &&& !change.on ==> row.count > 0
                    &&& row.local ==> change.project == resolved
                    &&& !row.local ==> change.project is None
                };
            assert(rows[k] == front[k]);
        } else if c == before.len() {
            assert(rows[rows.len() - 1] == rows.last());
        }
    }
}

/// What was ticked is deployed where it is not yet deployed everywhere, and what was unticked
/// is taken off where it is deployed: each such row is asked for with the state that it was
/// set to, for the skills of the dialog. What the project has is asked for in the project.
pub proof fn lemma_choices_are_carried_out(
    picker: DeployPickerView,
    key: KeyEvent,
    actions: Seq<Action>,
    i: int,
)
    requires
        picker.keyed(key).1 is Deploy,
        picker.keyed(key).1.told(picker.keys, actions),
        0 <= i < picker.rows.len(),
        picker.rows[i].desired == Some(true) && picker.rows[i].count < picker.keys.len()
            || picker.rows[i].desired == Some(false) && picker.rows[i].count > 0,
    ensures
        actions.len() == 2,
        actions[0] == Action::CloseModal,
        actions[1] matches Action::Deployment(inner) && *inner matches Action::BatchMeta(
            Write::Deploy { keys, changes },
            about,
        ) && keys@ == picker.keys && about@ == picker.keys,
        exists|k: int|
            0 <= k < asked_of_the_library(actions).len() && {
                let change = #[trigger] asked_of_the_library(actions)[k];
                &&& change.agent == picker.rows[i].key
                &&& Some(change.on) == picker.rows[i].desired
                &&& change.project == if picker.rows[i].local {
                    picker.resolved
                } else {
                    None
                }
            },
{
    let changes = asked_changes(picker.rows, picker.keys.len() as int, picker.resolved);
    assert(asked_of_the_library(actions) == changes);
    lemma_asking_goes_row_by_row(
        picker.rows,
        picker.keys.len() as int,
        picker.resolved,
        i,
        0,
    );
}

/// Nothing is asked for but what a row was set to, and nothing that is so already.
pub proof fn lemma_nothing_else_is_carried_out(
    picker: DeployPickerView,
    key: KeyEvent,
    actions: Seq<Action>,
    c: int,
)
    requires
        picker.keyed(key).1 is Deploy,
        picker.keyed(key).1.told(picker.keys, actions),
        0 <= c < asked_of_the_library(actions).len(),
    ensures
        exists|k: int|
            0 <= k < picker.rows.len() && {
                let row = #[trigger] picker.rows[k];
                let change = asked_of_the_library(actions)[c];
                &&& change.agent == row.key
                &&& Some(change.on) == row.desired
                &&& change.on ==> row.count < picker.keys.len()
                &&& !change.on ==> row.count > 0
                &&& row.local ==> change.project == picker.resolved
                &&& !row.local ==> change.project is None
            },
{
    lemma_asking_goes_row_by_row(
        picker.rows,
        picker.keys.len() as int,
        picker.resolved,
        0,
        c,
    );
}

/// The same holds of the button that applies the choices.
pub proof fn lemma_the_button_carries_out_the_choices(
    picker: DeployPickerView,
    event: MouseEvent,
    i: int,
    c: int,
)
    requires
        picker.moused(event).1 is Deploy,
    ensures
        ({
            let changes = picker.moused(event).1->Deploy_0;
            &&& 0 <= i < picker.rows.len() && (picker.rows[i].desired == Some(true)
                && picker.rows[i].count < picker.keys.len() || picker.rows[i].desired == Some(false)
                && picker.rows[i].count > 0) ==> exists|k: int|
                0 <= k < changes.len() && (#[trigger] changes[k]).agent == picker.rows[i].key
                    && Some(changes[k].on) == picker.rows[i].desired
            &&& 0 <= c < changes.len() ==> exists|k: int|
                0 <= k < picker.rows.len() && (#[trigger] picker.rows[k]).key == changes[c].agent
                    && Some(changes[c].on) == picker.rows[k].desired
        }),
{
    lemma_asking_goes_row_by_row(
        picker.rows,
        picker.keys.len() as int,
        picker.resolved,
        i,
        c,
    );
}

/// A dialog whose choices were made can apply them: with Control and Enter on the list, and
/// with Enter on its button. Without choices that change anything it asks for nothing, and
/// while the path is edited it never does.
pub proof fn lemma_when_choices_are_applied(picker: DeployPickerView, key: KeyEvent, i: int)
    requires
        key.code == KeyCode::Enter,
    ensures
        picker.editing ==> picker.keyed(key).1 !is Deploy,
        !picker.editing && picker.focus == ChoiceFocus::Cancel ==> picker.keyed(key).1 is Close,
        !picker.editing && picker.focus == ChoiceFocus::List && !key.modifiers.control
            ==> picker.keyed(key).1 is Nothing,
        0 <= i < picker.rows.len() && (picker.rows[i].desired == Some(true) && picker.rows[i].count
            < picker.keys.len() || picker.rows[i].desired == Some(false) && picker.rows[i].count
            > 0) && !picker.editing && (picker.focus == ChoiceFocus::Apply || picker.focus
            == ChoiceFocus::List && key.modifiers.control) ==> picker.keyed(key).1 is Deploy,
        (forall|k: int|
            0 <= k < picker.rows.len() ==> (#[trigger] picker.rows[k]).desired is None)
            ==> picker.keyed(key).1 !is Deploy,
{
    let skills = picker.keys.len() as int;
    lemma_pending_means_changes(picker.rows, skills, picker.resolved);
    lemma_asking_goes_row_by_row(picker.rows, skills, picker.resolved, i, 0);
    if forall|k: int| 0 <= k < picker.rows.len() ==> (#[trigger] picker.rows[k]).desired is None {
        if asked_changes(picker.rows, skills, picker.resolved).len() > 0 {
            assert(false);
        }
    }
}

/// A press of the key on a row turns what is wanted of it around: a directory that has all
/// the skills is to lose them, any other one is to get them, and a choice is taken back.
/// Every row of the same directory follows, and no other row does.
pub proof fn lemma_a_toggle_turns_around(picker: DeployPickerView, key: KeyEvent, at: int, i: int)
    requires
        !picker.editing,
        picker.focus == ChoiceFocus::List,
        key.code == KeyCode::Char(' ') || key.code == KeyCode::Enter && !key.modifiers.control,
        picker.list.selected is Some,
        picker.list.selected->0 == at,
        0 <= at < picker.rows.len(),
        0 <= i < picker.rows.len(),
    ensures
        ({
            let after = picker.keyed(key).0;
            let old_row = picker.rows[at];
            &&& picker.keyed(key).1 is Nothing
            &&& after.rows.len() == picker.rows.len()
            &&& old_row.desired == Some(true) ==> after.rows[at].desired == Some(false)
            &&& old_row.desired == Some(false) ==> after.rows[at].desired == Some(true)
            &&& old_row.desired is None && old_row.count == picker.keys.len()
                ==> after.rows[at].desired == Some(false)
            &&& old_row.desired is None && old_row.count != picker.keys.len()
                ==> after.rows[at].desired == Some(true)
            &&& path_parts(picker.rows[i].path@) == path_parts(old_row.path@)
                ==> after.rows[i].desired == after.rows[at].desired
            &&& path_parts(picker.rows[i].path@) != path_parts(old_row.path@)
                ==> after.rows[i] == picker.rows[i]
            &&& after.rows[i].key == picker.rows[i].key
            &&& after.rows[i].count == picker.rows[i].count
            &&& after.rows[i].path == picker.rows[i].path
            &&& after.rows[i].local == picker.rows[i].local
            &&& after.keys == picker.keys
        }),
{
}

/// How many of the skills a directory has: each skill counts once for every time it is
/// among them, and others do not count.
pub proof fn lemma_skills_are_counted(keys: Seq<String>, deployed: Seq<Seq<char>>)
    ensures
        deployed_count(keys, deployed) == keys.filter(|k: String| deployed.contains(k@)).len(),
        deployed_count(keys, deployed) == keys.len() <==> forall|i: int|
            0 <= i < keys.len() ==> deployed.contains((#[trigger] keys[i])@),
        deployed_count(keys, deployed) == 0 <==> forall|i: int|
            0 <= i < keys.len() ==> !deployed.contains((#[trigger] keys[i])@),
    decreases keys.len(),
{
    reveal(Seq::filter);
    if keys.len() > 0 {
        let front = keys.drop_last();
        lemma_skills_are_counted(front, deployed);
        lemma_count_bounds(front, deployed);
        assert(keys[keys.len() - 1] == keys.last());
        assert forall|i: int| 0 <= i < front.len() implies #[trigger] front[i] == keys[i] by {}
        if deployed_count(keys, deployed) == keys.len() {
            assert forall|i: int| 0 <= i < keys.len() implies deployed.contains(
                (#[trigger] keys[i])@,
            ) by {
                if i < front.len() {
                    assert(deployed.contains(front[i]@));
                }
            }
        }
        if forall|i: int| 0 <= i < keys.len() ==> deployed.contains((#[trigger] keys[i])@) {
            assert forall|i: int| 0 <= i < front.len() implies deployed.contains(
                (#[trigger] front[i])@,
            ) by {
                assert(deployed.contains(keys[i]@));
            }
        }
        if deployed_count(keys, deployed) == 0 {
            assert forall|i: int| 0 <= i < keys.len() implies !deployed.contains(
                (#[trigger] keys[i])@,
            ) by {
                if i < front.len() {
                    assert(!deployed.contains(front[i]@));
                }
            }
        }
        if forall|i: int| 0 <= i < keys.len() ==> !deployed.contains((#[trigger] keys[i])@) {
            assert forall|i: int| 0 <= i < front.len() implies !deployed.contains(
                (#[trigger] front[i])@,
            ) by {
                assert(!deployed.contains(keys[i]@));
            }
        }
    }
}

/// Every row is one of the directories: one that can be written to and whose product is
/// shown, with its own names. It belongs to the project where the project lists its agent,
/// and nothing is chosen for it yet.
pub proof fn lemma_rows_are_offers(
    targets: Seq<Target>,
    local_keys: Seq<Seq<char>>,
    keys: Seq<String>,
    products: Option<Vec<String>>,
    i: int,
)
    requires
        0 <= i < rows_from(targets, local_keys, keys, products).len(),
        keys.len() <= usize::MAX,
    ensures
        rows_from(targets, local_keys, keys, products).len() <= targets.len(),
        exists|k: int|
            0 <= k < targets.len() && {
                let target = #[trigger] targets[k];
                let row = rows_from(targets, local_keys, keys, products)[i];
                &&& !target.read_only
                &&& products is Some ==> texts(products->0@).contains(target.product@)
                &&& row.key == target.key
                &&& row.path == target.path
                &&& row.product == target.product
                &&& row.location == target.location
                &&& row.display_name == target.display_name
                &&& row.local == local_keys.contains(target.key@)
                &&& row.count == deployed_count(keys, texts(target.deployed@))
                &&& row.desired is None
            },
    decreases targets.len(),
{
    if targets.len() > 0 {
        let front = targets.drop_last();
        let before = rows_from(front, local_keys, keys, products);
        let rows = rows_from(targets, local_keys, keys, products);
        lemma_count_bounds(keys, texts(targets.last().deployed@));
        lemma_rows_are_few(front, local_keys, keys, products);
        let from = if is_offered(targets.last(), products) {
            let row = row_from(targets.last(), local_keys, keys);
            let at = place_from(before, row, 0);
            lemma_place_bounds(before, row, 0);
            if i == at {
                assert(rows[i] == row);
                assert(targets[targets.len() - 1] == targets.last());
                -1
            } else if i < at {
                assert(rows[i] == before[i]);
                i
            } else {
                assert(rows[i] == before[i - 1]);
                i - 1
            }
        } else {
            i
        };
        if from >= 0 {
            lemma_rows_are_offers(front, local_keys, keys, products, from);
            let k = choose|k: int|
                0 <= k < front.len() && {
                    let target = #[trigger] front[k];
                    let row = before[from];
                    &&& !target.read_only
                    &&& products is Some ==> texts(products->0@).contains(target.product@)
                    &&& row.key == target.key
                    &&& row.path == target.path
                    &&& row.product == target.product
                    &&& row.location == target.location
                    &&& row.display_name == target.display_name
                    &&& row.local == local_keys.contains(target.key@)
                    &&& row.count == deployed_count(keys, texts(target.deployed@))
                    &&& row.desired is None
                };
            assert(targets[k] == front[k]);
        }
    }
}

proof fn lemma_rows_are_few(
    targets: Seq<Target>,
    local_keys: Seq<Seq<char>>,
    keys: Seq<String>,
    products: Option<Vec<String>>,
)
    ensures
        rows_from(targets, local_keys, keys, products).len() <= targets.len(),
    decreases targets.len(),
{
    if targets.len() > 0 {
        lemma_rows_are_few(targets.drop_last(), local_keys, keys, products);
        let before = rows_from(targets.drop_last(), local_keys, keys, products);
        lemma_place_bounds(before, row_from(targets.last(), local_keys, keys), 0);
    }
}

/// Every directory that can be written to, and whose product is shown, has a row.
pub proof fn lemma_nothing_is_left_out(candidates: Candidates, keys: Seq<String>, k: int)
    requires
        keys.len() <= usize::MAX,
        0 <= k < candidates.global@.len() + candidates.local@.len(),
        !(candidates.global@ + candidates.local@)[k].read_only,
        candidates.products is Some ==> texts(candidates.products->0@).contains(
            (candidates.global@ + candidates.local@)[k].product@,
        ),
    ensures
        exists|i: int|
            0 <= i < all_rows(candidates, keys).len() && (#[trigger] all_rows(
                candidates,
                keys,
            )[i]).key == (candidates.global@ + candidates.local@)[k].key && all_rows(
                candidates,
                keys,
            )[i].path == (candidates.global@ + candidates.local@)[k].path,
{
    let targets = candidates.global@ + candidates.local@;
    let locals = keys_of(candidates.local@);
    lemma_every_offer_has_a_row(targets, locals, keys, candidates.products, k);
    let row = row_from(targets[k], locals, keys);
    let i = choose|i: int|
        0 <= i < all_rows(candidates, keys).len() && all_rows(candidates, keys)[i] == row;
    assert(all_rows(candidates, keys)[i].key == targets[k].key);
}

/// Looking a project up gives its rows and its path, and a failure gives neither but says
/// why; the skills stay.
pub proof fn lemma_a_project_is_looked_up(
    picker: DeployPickerView,
    result: Result<Candidates, String>,
)
    requires
        picker.press is None,
    ensures
        picker.loaded(result).keys == picker.keys,
        picker.loaded(result).project == picker.project,
        result matches Ok(candidates) ==> {
            &&& picker.loaded(result).rows == all_rows(candidates, picker.keys)
            &&& picker.loaded(result).resolved == Some(candidates.project)
            &&& picker.loaded(result).error is None
        },
        result matches Err(error) ==> {
            &&& picker.loaded(result).rows.len() == 0
            &&& picker.loaded(result).resolved is None
            &&& picker.loaded(result).error == Some(error@)
        },
{
}

/// Esc leaves the path first and then the dialog, and asks for nothing.
pub proof fn lemma_escape_asks_for_nothing(picker: DeployPickerView, key: KeyEvent)
    requires
        key.code == KeyCode::Esc,
    ensures
        picker.editing ==> picker.keyed(key).1 is Nothing && !picker.keyed(key).0.editing,
        !picker.editing ==> picker.keyed(key).1 is Close,
        picker.keyed(key).0.rows == picker.rows,
        picker.keyed(key).0.project == picker.project,
{
}

/// A path that was edited is looked up as it stands in the field, without the blanks around
/// it, when Enter or Tab leaves the field.
pub proof fn lemma_an_edited_path_is_looked_up(picker: DeployPickerView, key: KeyEvent)
    requires
        picker.editing,
        key.code == KeyCode::Enter || key.code == KeyCode::Tab,
    ensures
        picker.keyed(key).1 == DeployReply::Load(trimmed(picker.project.text)),
        !picker.keyed(key).0.editing,
        picker.keyed(key).0.rows == picker.rows,
{
}

/// The mark of a row says what is wanted: a tick where it was ticked or has all the skills,
/// none where it was unticked or has none of them, and a dash in between.
pub proof fn lemma_marks_say_what_is_wanted(row: TargetRow, skills: int)
    ensures
        row.desired == Some(true) ==> mark_of(row, skills) == "[✓]"@,
        row.desired == Some(false) ==> mark_of(row, skills) == "[ ]"@,
        row.desired is None && row.count == skills ==> mark_of(row, skills) == "[✓]"@,
        row.desired is None && row.count == 0 && skills > 0 ==> mark_of(row, skills) == "[ ]"@,
        row.desired is None && 0 < row.count < skills ==> mark_of(row, skills) == "[−]"@,
{
}

/// The name of a product stands at the first of its rows and at no other.
pub proof fn lemma_a_product_is_named_once(rows: Seq<TargetRow>, i: int)
    requires
        0 <= i < rows.len(),
        rows[i].product@.len() > 0,
    ensures
        i == 0 || rows[i - 1].product@ != rows[i].product@ ==> product_label(rows, i)
            == rows[i].product_name@,
        i > 0 && rows[i - 1].product@ == rows[i].product@ ==> product_label(rows, i) == ""@,
{
}

/// Every row is shown with its mark, where it is, and how many of the skills are there.
pub proof fn lemma_every_directory_is_shown(
    rows: Seq<TargetRow>,
    skills: int,
    width: int,
    theme: Theme,
    i: int,
)
    requires
        0 <= i < rows.len(),
    ensures
        full_rows(rows, skills, width, theme).len() == rows.len(),
        full_rows(rows, skills, width, theme)[i][0].content == mark_of(rows[i], skills) + " "@,
        full_rows(rows, skills, width, theme)[i][2].content == fitted(
            rows[i].location@ + "  "@ + numeral(rows[i].count as int) + "/"@ + numeral(skills),
            monus(width, 20),
        ),
        short_rows(rows, skills).len() == rows.len(),
        short_rows(rows, skills)[i][0].content == (if rows[i].desired == Some(true)
            || rows[i].desired is None && rows[i].count == skills {
            "[✓]"@
        } else {
            "[ ]"@
        }) + " "@ + rows[i].display_name@ + " "@ + numeral(rows[i].count as int) + "/"@ + numeral(
            skills,
        ),
{
}

/// Below the list stands where the selected row leads.
pub proof fn lemma_the_selected_directory_is_told(picker: DeployPickerView, width: int)
    ensures
        picker.list.selected is Some && picker.list.selected->0 < picker.rows.len() ==> {
            let row = picker.rows[picker.list.selected->0 as int];
            picker.destination(width) == seq![
                seq![plain_run("Target: "@ + row.product_name@)],
                seq![plain_run(cut_in_middle(row.shown_path@, width))],
            ]
        },
        picker.list.selected is None ==> picker.destination(width).len() == 0,
{
}

/// The dialog begins with the skills and the project that it was opened for, and with
/// nothing chosen.
pub proof fn lemma_the_deployment_begins_empty(keys: Seq<String>, project: Seq<char>)
    ensures
        unloaded(keys, project).keys == keys,
        unloaded(keys, project).project.text == project,
        unloaded(keys, project).rows.len() == 0,
        unloaded(keys, project).resolved is None,
        !unloaded(keys, project).editing,
{
}

/// A path that is still being typed is confirmed before anything is applied.
pub proof fn lemma_a_typed_path_is_confirmed_first(picker: DeployPickerView)
    requires
        picker.editing,
    ensures
        picker.applied().1 is Nothing,
        picker.applied().0.error == Some("Press Enter to confirm the project path first"@),
        picker.applied().0.rows == picker.rows,
{
}

/// The dialog says for how many skills it is, and how many directories would change.
pub proof fn lemma_what_a_deployment_says(picker: DeployPickerView)
    ensures
        picker.keys.len() == 1 ==> picker.title() == " Install to agents · "@ + numeral(1) + " "@
            + "skill"@ + " "@,
        picker.keys.len() != 1 ==> picker.title() == " Install to agents · "@ + numeral(
            picker.keys.len() as int,
        ) + " "@ + "skills"@ + " "@,
        picker.pending() == 0 ==> picker.summary() == "No pending changes"@,
        picker.pending() > 0 ==> picker.summary() == numeral(picker.pending() as int)
            + " pending destinations"@,
{
}

/// A press on a button does what Enter does on it, a press on the path edits it, and a press
/// on a row turns it around; the wheel moves by three rows and changes nothing.
pub proof fn lemma_mouse_of_a_deployment(picker: DeployPickerView, event: MouseEvent)
    ensures
        ({
            let x = event.column as int;
            let y = event.row as int;
            let after = picker.moused(event);
            let on_path = picker.project_rect.has(x, y);
            &&& event.kind == MouseKind::Down && on_path ==> {
                &&& after.0.editing
                &&& after.0.project == picker.project.clicked(x)
                &&& after.0.rows == picker.rows
                &&& after.1 is Nothing
            }
            &&& event.kind == MouseKind::Down && !on_path && picker.apply.has(x, y) ==> after
                == (DeployPickerView { focus: ChoiceFocus::Apply, ..picker }).applied()
            &&& event.kind == MouseKind::Down && !on_path && !picker.apply.has(x, y)
                && picker.cancel.has(x, y) ==> after.1 is Close && after.0.rows == picker.rows
            &&& event.kind == MouseKind::ScrollDown ==> after.1 is Nothing && after.0.rows
                == picker.rows && after.0.list.selected == moved(
                picker.list.selected,
                3,
                picker.rows.len() as int,
            )
            &&& event.kind == MouseKind::ScrollUp ==> after.1 is Nothing && after.0.rows
                == picker.rows && after.0.list.selected == moved(
                picker.list.selected,
                -3,
                picker.rows.len() as int,
            )
        }),
{
}

/// A press on a row selects it and turns it around, as the blank does; while the path is
/// edited the path is looked up first.
pub proof fn lemma_a_press_on_a_directory(picker: DeployPickerView, event: MouseEvent, at: usize)
    requires
        event.kind == MouseKind::Down,
        !picker.project_rect.has(event.column as int, event.row as int),
        !picker.apply.has(event.column as int, event.row as int),
        !picker.cancel.has(event.column as int, event.row as int),
        picker.list.rows.has(event.column as int, event.row as int),
        picker.list.hit(event.row as int, picker.rows.len() as int) == Some(at),
        at < picker.rows.len(),
    ensures
        picker.editing ==> {
            &&& picker.moused(event).1 == DeployReply::Load(trimmed(picker.project.text))
            &&& picker.moused(event).0.press == Some(event.row)
            &&& !picker.moused(event).0.editing
        },
        !picker.editing ==> {
            let after = picker.moused(event).0;
            &&& after.list.selected == Some(at)
            &&& after.focus == ChoiceFocus::List
            &&& after == (DeployPickerView {
                focus: ChoiceFocus::List,
                list: ListNav { selected: Some(at), ..picker.list },
                ..picker
            }).toggled()
            &&& picker.moused(event).1 is Nothing
        },
{
}

/// A paste goes into the path while that is edited.
pub proof fn lemma_a_paste_goes_into_the_path(picker: DeployPickerView, text: Seq<char>)
    ensures
        !picker.editing ==> picker.pasted(text) == picker,
        picker.editing && !crate::widgets::is_multiline(text) ==> picker.pasted(text).project
            == picker.project.with_pasted(text) && picker.pasted(text).rows == picker.rows,
        picker.editing && crate::widgets::is_multiline(text) ==> picker.pasted(text).error == Some(
            "Paste a single line"@,
        ) && picker.pasted(text).project == picker.project,
{
}

/// The buttons and the path can be pressed where they are drawn; drawing keeps what was
/// chosen and typed.
pub proof fn lemma_the_deployment_is_pressed_where_it_is_drawn(
    picker: DeployPickerView,
    area: Rect,
    root: Seq<char>,
    theme: Theme,
)
    ensures
        ({
            let after = picker.placed(area);
            let scene = picker.scene(area, root, theme);
            let n = scene.len() as int;
            &&& n >= 5
            &&& scene[1] == crate::ui::framed(after.rect, picker.title())
            &&& scene[n - 2] is Text
            &&& scene[n - 2]->Text_rect == after.apply
            &&& scene[n - 2]->Text_lines[0][0].content == "[ "@ + "Apply"@ + " ]"@
            &&& scene[n - 1] is Text
            &&& scene[n - 1]->Text_rect == after.cancel
            &&& scene[n - 1]->Text_lines[0][0].content == "[ "@ + "Cancel"@ + " ]"@
            &&& after.rect.inside().height >= 12 && after.rect.inside().width >= 26 ==> {
                &&& scene[4] is Field
                &&& scene[4]->Field_rect == after.project_rect
                &&& scene[4]->Field_value == picker.project.text
                &&& scene[4]->Field_focused == picker.editing
                &&& scene[4]->Field_placeholder == "Project directory"@
            }
            &&& after.rows == picker.rows
            &&& after.project.text == picker.project.text
            &&& after.editing == picker.editing
            &&& after.keys == picker.keys
        }),
{
    let rect = dialog_in(area);
    let inner = rect.inside();
    let scene = picker.scene(area, root, theme);
    let n = scene.len() as int;
    let short = DeployPickerView::short(inner);
    let foot = footer_scene(
        DeployPickerView::foot_in(inner),
        picker.focus,
        picker.pending() > 0,
        if short {
            ""@
        } else {
            picker.summary()
        },
        "Apply"@,
        "Cancel"@,
        theme,
    );
    assert(scene[n - 2] == foot[1]);
    assert(scene[n - 1] == foot[2]);
    if !short {
        assert(scene[4] == picker.head_scene(inner, root, theme)[2]);
    }
}

/// The dialog stands in the middle, at most a hundred columns wide and 26 rows high; its list
/// lies between the head and the buttons.
pub proof fn lemma_where_a_deployment_is_drawn(area: Rect)
    requires
        area.in_range(),
        area.width >= 102,
        area.height >= 28,
    ensures
        ({
            let rect = dialog_in(area);
            let inner = rect.inside();
            let left = rect.x - area.x;
            let right = area.x + area.width - (rect.x + rect.width);
            &&& rect.width == 100
            &&& rect.height == 26
            &&& 0 <= right - left <= 1
            &&& DeployPickerView::list_in(inner).y == inner.y + 5
            &&& DeployPickerView::list_in(inner).height == inner.height - 11
            &&& DeployPickerView::foot_in(inner).height == 2
            &&& DeployPickerView::foot_in(inner).y == inner.y + inner.height - 2
            &&& DeployPickerView::field_in(inner).x == inner.x + 9
            &&& DeployPickerView::field_in(inner).y == inner.y + 2
        }),
{
}

} // verus!
