//! Configures and runs the backup of the whole library.

use crate::app::{both, complain, complains, nothing, only, Action, Hint};
use crate::components::choice_footer::{
    button_rects, draw_with_labels, footer_scene, ChoiceEvent, ChoiceFocus,
};
use crate::event::Task;
use crate::geometry::{monus, spec_max, Rect};
use crate::keymap::{KeyCode, KeyEvent, MouseEvent, MouseKind};
use crate::measure::{fit, fitted};
use crate::modal::Modal;
use crate::model::{known, Mode, Report, Settings, Status, StatusView};
use crate::text::{cat2, cat5, decimal, numeral, trim, trimmed};
use crate::theme::Theme;
use crate::ui::{
    flowing, framed, listed, plain_run, run, shown, Draw, DrawView, Line, Lines, Scene, Span,
    SpanView, Style, Wrap,
};
use crate::widgets::{
    centered, clamped, first_of, input_with, is_multiline, middle_of, moved, paste_refused, Input,
    InputView, ListNav,
};
use vstd::prelude::*;

verus! {

/// A synchronisation that is asked for. A dry run only says what it would do.
#[derive(Debug, Clone, Copy, PartialEq, Eq, Structural)]
pub struct Request {
    pub mode: Mode,
    pub dry_run: bool,
}

/// What can be chosen on the first page.
#[derive(Debug, Clone, Copy, PartialEq, Eq, Structural)]
pub enum OverviewAction {
    Configure,
    Sync(Mode),
    Disable,
}

/// The page that is open.
#[derive(Debug)]
pub enum SyncStep {
    Overview,
    /// The second field is the one that is edited where `second` says so.
    Configure { url: Input, branch: Input, second: bool },
    Preview { request: Request, report: Report },
    Disable,
}

#[derive(Debug)]
pub struct SyncPicker {
    pub settings: Settings,
    pub step: SyncStep,
    pub list: ListNav,
    pub focus: ChoiceFocus,
    /// What was last found out about the backup.
    pub status: Option<Status>,
    /// The backup is being looked at.
    pub checking: bool,
    /// Why the last look failed.
    pub error: Option<String>,
    pub rect: Rect,
    pub url_field: Rect,
    pub branch_field: Rect,
    pub apply: Rect,
    pub cancel: Rect,
}

pub ghost enum SyncStepView {
    Overview,
    Configure { url: InputView, branch: InputView, second: bool },
    Preview { request: Request, report: Report },
    Disable,
}

impl View for SyncStep {
    type V = SyncStepView;

    open spec fn view(&self) -> SyncStepView {
        match *self {
            SyncStep::Overview => SyncStepView::Overview,
            SyncStep::Configure { url, branch, second } => SyncStepView::Configure {
                url: url@,
                branch: branch@,
                second,
            },
            SyncStep::Preview { request, report } => SyncStepView::Preview { request, report },
            SyncStep::Disable => SyncStepView::Disable,
        }
    }
}

pub ghost struct SyncPickerView {
    pub settings: Settings,
    pub step: SyncStepView,
    pub list: ListNav,
    pub focus: ChoiceFocus,
    pub status: Option<StatusView>,
    pub checking: bool,
    pub error: Option<String>,
    pub rect: Rect,
    pub url_field: Rect,
    pub branch_field: Rect,
    pub apply: Rect,
    pub cancel: Rect,
}

impl View for SyncPicker {
    type V = SyncPickerView;

    open spec fn view(&self) -> SyncPickerView {
        SyncPickerView {
            settings: self.settings,
            step: self.step@,
            list: self.list,
            focus: self.focus,
            status: known(self.status),
            checking: self.checking,
            error: self.error,
            rect: self.rect,
            url_field: self.url_field,
            branch_field: self.branch_field,
            apply: self.apply,
            cancel: self.cancel,
        }
    }
}

/// What the dialog asks of the application.
pub ghost enum SyncReply {
    Nothing,
    Close,
    Run(Request),
    Configure { url: Seq<char>, branch: Seq<char> },
    Disable,
    Complain(Seq<char>),
}

impl SyncReply {
    /// The actions say so.
    pub open spec fn told(self, actions: Seq<Action>) -> bool {
        match self {
            SyncReply::Nothing => actions.len() == 0,
            SyncReply::Close => actions == seq![Action::CloseModal],
            SyncReply::Run(request) => actions == seq![
                Action::CloseModal,
                Action::Spawn(Task::Sync(request)),
            ],
            SyncReply::Configure { url, branch } => {
                &&& actions.len() == 2
                &&& actions[0] == Action::CloseModal
                &&& (actions[1] matches Action::Spawn(Task::SyncConfigure { url: u, branch: b }) && u@
                    == url && b@ == branch)
            },
            SyncReply::Disable => actions == seq![
                Action::CloseModal,
                Action::Spawn(Task::SyncDisable),
            ],
            SyncReply::Complain(text) => complains(actions, text),
        }
    }
}

/// What the first page offers.
pub open spec fn offered(configured: bool) -> Seq<OverviewAction> {
    if configured {
        seq![
            OverviewAction::Sync(Mode::Sync),
            OverviewAction::Sync(Mode::Push),
            OverviewAction::Sync(Mode::Pull),
            OverviewAction::Configure,
            OverviewAction::Disable,
        ]
    } else {
        seq![OverviewAction::Configure]
    }
}

/// The text of a setting, or what stands in for it.
pub open spec fn setting_or(setting: Option<String>, instead: Seq<char>) -> Seq<char> {
    match setting {
        Some(text) => text@,
        None => instead,
    }
}

impl SyncPickerView {
    /// The cursors stand in their texts.
    pub open spec fn valid(self) -> bool {
        match self.step {
            SyncStepView::Configure { url, branch, .. } => {
                &&& url.valid()
                &&& branch.valid()
            },
            _ => true,
        }
    }

    pub open spec fn configured(self) -> bool {
        self.settings.url is Some && self.settings.branch is Some
    }

    pub open spec fn offers(self) -> Seq<OverviewAction> {
        offered(self.configured())
    }

    /// How many rows the page lists.
    pub open spec fn rows(self) -> int {
        match self.step {
            SyncStepView::Overview => self.offers().len() as int,
            SyncStepView::Preview { report, .. } => spec_max(report.status@.len() as int, 1),
            SyncStepView::Configure { .. } => 2,
            SyncStepView::Disable => 1,
        }
    }

    pub open spec fn with_selected(self, selected: Option<usize>) -> SyncPickerView {
        SyncPickerView { list: ListNav { selected, ..self.list }, ..self }
    }

    /// The first page.
    pub open spec fn home(self) -> SyncPickerView {
        SyncPickerView {
            step: SyncStepView::Overview,
            focus: ChoiceFocus::List,
            ..self.with_selected(first_of(self.offers().len() as int))
        }
    }

    /// One page back; the first page is left.
    pub open spec fn backed(self) -> (SyncPickerView, SyncReply) {
        if self.step is Overview {
            (self, SyncReply::Close)
        } else {
            (self.home(), SyncReply::Nothing)
        }
    }

    /// The page with the two fields.
    pub open spec fn configuring(self) -> SyncPickerView {
        SyncPickerView {
            step: SyncStepView::Configure {
                url: input_with(setting_or(self.settings.url, ""@)),
                branch: input_with(setting_or(self.settings.branch, "main"@)),
                second: false,
            },
            focus: ChoiceFocus::List,
            ..self
        }
    }

    /// The page that asks before the backup is turned off.
    pub open spec fn disabling(self) -> SyncPickerView {
        SyncPickerView { step: SyncStepView::Disable, focus: ChoiceFocus::List, ..self }
    }

    /// The selected row of the first page is chosen.
    pub open spec fn activated(self) -> (SyncPickerView, SyncReply) {
        match self.list.selected {
            Some(i) => if i < self.offers().len() {
                match self.offers()[i as int] {
                    OverviewAction::Configure => (self.configuring(), SyncReply::Nothing),
                    OverviewAction::Disable => (
                        self.disabling().with_selected(Some(0)),
                        SyncReply::Nothing,
                    ),
                    OverviewAction::Sync(mode) => (
                        self,
                        SyncReply::Run(Request { mode, dry_run: true }),
                    ),
                }
            } else {
                (self, SyncReply::Nothing)
            },
            None => (self, SyncReply::Nothing),
        }
    }

    /// What the page is for is done.
    pub open spec fn applied(self) -> (SyncPickerView, SyncReply) {
        match self.step {
            SyncStepView::Overview => self.activated(),
            SyncStepView::Preview { request, .. } => (
                self,
                SyncReply::Run(Request { dry_run: false, ..request }),
            ),
            SyncStepView::Disable => (self, SyncReply::Disable),
            SyncStepView::Configure { url, branch, .. } => (
                self,
                if trimmed(url.text).len() == 0 {
                    SyncReply::Complain("Remote URL is required"@)
                } else if trimmed(branch.text).len() == 0 {
                    SyncReply::Complain("Branch is required"@)
                } else {
                    SyncReply::Configure { url: trimmed(url.text), branch: trimmed(branch.text) }
                },
            ),
        }
    }

    pub open spec fn at_end(self) -> bool {
        self.rows() == 0 || (self.list.selected is Some && self.list.selected->0 == self.rows() - 1)
    }

    /// What a key does to the buttons; nothing where it is not theirs.
    pub open spec fn chosen(self, key: KeyCode) -> Option<(SyncPickerView, SyncReply)> {
        match self.focus.pressed(key, self.at_end()) {
            None => None,
            Some((focus, event)) => {
                let after = SyncPickerView { focus, ..self };
                Some(
                    match event {
                        ChoiceEvent::Apply => after.applied(),
                        ChoiceEvent::Cancel => after.backed(),
                        ChoiceEvent::Moved => (after, SyncReply::Nothing),
                    },
                )
            },
        }
    }

    /// The field that is edited is the second one, or the first.
    pub open spec fn editing(self, edit_second: bool) -> SyncPickerView {
        match self.step {
            SyncStepView::Configure { url, branch, .. } => SyncPickerView {
                step: SyncStepView::Configure { url, branch, second: edit_second },
                ..self
            },
            _ => self,
        }
    }

    /// A key goes to the field that is edited.
    pub open spec fn typed(self, key: KeyEvent) -> SyncPickerView {
        match self.step {
            SyncStepView::Configure { url, branch, second } => SyncPickerView {
                step: if second {
                    SyncStepView::Configure { url, branch: branch.keyed(key), second }
                } else {
                    SyncStepView::Configure { url: url.keyed(key), branch, second }
                },
                ..self
            },
            _ => self,
        }
    }

    /// A key on the page with the fields, where they have the focus.
    pub open spec fn field_keyed(self, key: KeyEvent, second: bool) -> SyncPickerView {
        match key.code {
            KeyCode::Tab => if second {
                SyncPickerView { focus: ChoiceFocus::Apply, ..self }
            } else {
                self.editing(true)
            },
            KeyCode::BackTab => if second {
                self.editing(false)
            } else {
                SyncPickerView { focus: ChoiceFocus::Cancel, ..self }
            },
            KeyCode::Up => self.editing(false),
            KeyCode::Down => self.editing(true),
            KeyCode::Enter => if second {
                SyncPickerView { focus: ChoiceFocus::Apply, ..self }
            } else {
                self.editing(true)
            },
            _ => self.typed(key),
        }
    }

    /// A key on a page with a list, where it is not one of the buttons'.
    pub open spec fn list_keyed(self, key: KeyEvent) -> (SyncPickerView, SyncReply) {
        let at = self.list.selected;
        let overview = self.step is Overview;
        match key.code {
            KeyCode::Down => (self.with_selected(moved(at, 1, self.rows())), SyncReply::Nothing),
            KeyCode::Up => (self.with_selected(moved(at, -1, self.rows())), SyncReply::Nothing),
            KeyCode::PageDown => (
                self.with_selected(moved(at, 10, self.rows())),
                SyncReply::Nothing,
            ),
            KeyCode::PageUp => (
                self.with_selected(moved(at, -10, self.rows())),
                SyncReply::Nothing,
            ),
            KeyCode::Home => (self.with_selected(first_of(self.rows())), SyncReply::Nothing),
            KeyCode::End => (
                self.with_selected(Some((self.rows() - 1) as usize)),
                SyncReply::Nothing,
            ),
            KeyCode::Enter => if overview {
                self.activated()
            } else {
                (SyncPickerView { focus: ChoiceFocus::Apply, ..self }, SyncReply::Nothing)
            },
            KeyCode::Char(c) => if overview && c == 'a' {
                (self.configuring(), SyncReply::Nothing)
            } else if overview && self.configured() && c == 'd' {
                (self.disabling(), SyncReply::Nothing)
            } else if overview && self.configured() && c == 's' {
                (self, SyncReply::Run(Request { mode: Mode::Sync, dry_run: true }))
            } else if overview && self.configured() && c == 'p' {
                (self, SyncReply::Run(Request { mode: Mode::Push, dry_run: true }))
            } else if overview && self.configured() && c == 'P' {
                (self, SyncReply::Run(Request { mode: Mode::Pull, dry_run: true }))
            } else if self.step is Preview && c == 'y' {
                self.applied()
            } else {
                (self, SyncReply::Nothing)
            },
            _ => (self, SyncReply::Nothing),
        }
    }

    /// What a key does.
    pub open spec fn keyed(self, key: KeyEvent) -> (SyncPickerView, SyncReply) {
        if key.code == KeyCode::Esc {
            self.backed()
        } else {
            match self.step {
                SyncStepView::Configure { second, .. } => if self.focus == ChoiceFocus::List {
                    (self.field_keyed(key, second), SyncReply::Nothing)
                } else {
                    match self.chosen(key.code) {
                        Some(done) => done,
                        None => (self, SyncReply::Nothing),
                    }
                },
                _ => match self.chosen(key.code) {
                    Some(done) => done,
                    None => self.list_keyed(key),
                },
            }
        }
    }

    /// A press inside the dialog, beside the buttons.
    pub open spec fn pressed(self, event: MouseEvent) -> (SyncPickerView, SyncReply) {
        let x = event.column as int;
        let y = event.row as int;
        match self.step {
            SyncStepView::Configure { url, branch, .. } => if self.url_field.has(x, y) {
                (
                    SyncPickerView {
                        step: SyncStepView::Configure {
                            url: url.clicked(x),
                            branch,
                            second: false,
                        },
                        focus: ChoiceFocus::List,
                        ..self
                    },
                    SyncReply::Nothing,
                )
            } else if self.branch_field.has(x, y) {
                (
                    SyncPickerView {
                        step: SyncStepView::Configure {
                            url,
                            branch: branch.clicked(x),
                            second: true,
                        },
                        focus: ChoiceFocus::List,
                        ..self
                    },
                    SyncReply::Nothing,
                )
            } else {
                (self, SyncReply::Nothing)
            },
            _ => match self.list.hit(y, self.rows()) {
                Some(at) => {
                    let after = SyncPickerView {
                        focus: ChoiceFocus::List,
                        ..self.with_selected(Some(at))
                    };
                    if event.repeated && self.step is Overview {
                        after.activated()
                    } else {
                        (after, SyncReply::Nothing)
                    }
                },
                None => (self, SyncReply::Nothing),
            },
        }
    }

    /// What the mouse does.
    pub open spec fn moused(self, event: MouseEvent) -> (SyncPickerView, SyncReply) {
        let x = event.column as int;
        let y = event.row as int;
        match event.kind {
            MouseKind::ScrollDown => (
                self.with_selected(moved(self.list.selected, 3, self.rows())),
                SyncReply::Nothing,
            ),
            MouseKind::ScrollUp => (
                self.with_selected(moved(self.list.selected, -3, self.rows())),
                SyncReply::Nothing,
            ),
            MouseKind::Down => if !self.rect.has(x, y) {
                self.backed()
            } else if self.apply.has(x, y) {
                self.applied()
            } else if self.cancel.has(x, y) {
                self.backed()
            } else {
                self.pressed(event)
            },
            _ => (self, SyncReply::Nothing),
        }
    }

    /// What a paste does: it goes to the field that is edited.
    pub open spec fn pasted(self, text: Seq<char>) -> (SyncPickerView, SyncReply) {
        match self.step {
            SyncStepView::Configure { url, branch, second } => if is_multiline(text) {
                (self, SyncReply::Complain(paste_refused()))
            } else if second {
                (
                    SyncPickerView {
                        step: SyncStepView::Configure {
                            url,
                            branch: branch.with_pasted(text),
                            second,
                        },
                        ..self
                    },
                    SyncReply::Nothing,
                )
            } else {
                (
                    SyncPickerView {
                        step: SyncStepView::Configure {
                            url: url.with_pasted(text),
                            branch,
                            second,
                        },
                        ..self
                    },
                    SyncReply::Nothing,
                )
            },
            _ => (self, SyncReply::Nothing),
        }
    }

    /// The keys that the page tells of.
    pub open spec fn hint_list(self) -> Seq<Hint> {
        match self.step {
            SyncStepView::Configure { .. } => seq![
                ("Tab", "next field"),
                ("Enter", "continue"),
                ("Esc", "back"),
            ],
            SyncStepView::Preview { .. } => seq![
                ("Tab", "buttons"),
                ("Enter", "choose"),
                ("Esc", "back"),
            ],
            SyncStepView::Disable => seq![
                ("Tab", "buttons"),
                ("Enter", "choose"),
                ("Esc", "back"),
            ],
            SyncStepView::Overview => if self.configured() {
                seq![
                    ("↑↓", "choose"),
                    ("Enter", "open"),
                    ("s/p/P", "sync / push / pull"),
                    ("Esc", "close"),
                ]
            } else {
                seq![("↑↓", "choose"), ("Enter", "set up"), ("Esc", "close")]
            },
        }
    }
}

/// The dialog on its first page.
pub open spec fn fresh(settings: Settings) -> SyncPickerView {
    SyncPickerView {
        settings,
        step: SyncStepView::Overview,
        list: ListNav {
            selected: first_of(offered(settings.url is Some && settings.branch is Some).len() as int),
            ..ListNav::empty()
        },
        focus: ChoiceFocus::List,
        status: None,
        checking: false,
        error: None,
        rect: Rect::zero(),
        url_field: Rect::zero(),
        branch_field: Rect::zero(),
        apply: Rect::zero(),
        cancel: Rect::zero(),
    }
}

impl SyncPicker {
    pub fn new(settings: Settings) -> (r: SyncPicker)
        ensures
            r@ == fresh(settings),
            r@.valid(),
    {
        let mut picker = SyncPicker {
            settings,
            step: SyncStep::Overview,
            list: ListNav::empty(),
            focus: ChoiceFocus::List,
            status: None,
            checking: false,
            error: None,
            rect: Rect::zero(),
            url_field: Rect::zero(),
            branch_field: Rect::zero(),
            apply: Rect::zero(),
            cancel: Rect::zero(),
        };
        let count = picker.actions().len();
        picker.list.first(count);
        picker
    }

    /// The page that shows what a dry run found.
    pub fn preview(settings: Settings, request: Request, report: Report) -> (r: SyncPicker)
        ensures
            r@ == (SyncPickerView {
                step: SyncStepView::Preview { request, report },
                ..fresh(settings).with_selected(Some(0))
            }),
            r@.valid(),
    {
        let mut picker = SyncPicker::new(settings);
        picker.step = SyncStep::Preview { request, report };
        let count = picker.row_count();
        picker.list.first(count);
        picker
    }

    /// The first page, with what is known of the backup already.
    pub fn with_status(
        settings: Settings,
        status: Option<Status>,
        checking: bool,
        error: Option<String>,
    ) -> (r: SyncPicker)
        ensures
            r@ == (SyncPickerView { status: known(status), checking, error, ..fresh(settings) }),
            r@.valid(),
    {
        let mut picker = SyncPicker::new(settings);
        picker.status = status;
        picker.checking = checking;
        picker.error = error;
        picker
    }

    /// The backup was looked at.
    pub fn set_status(&mut self, status: Status, error: Option<String>)
        requires
            old(self)@.valid(),
        ensures
            final(self)@ == (SyncPickerView {
                settings: status.settings,
                status: Some(status@),
                checking: false,
                error,
                ..old(self)@
            }),
            final(self)@.valid(),
    {
        self.settings = status.settings.clone();
        self.status = Some(status);
        self.checking = false;
        self.error = error;
    }

    /// The backup is being looked at, or no more; what is known of it stays.
    pub fn set_checking(&mut self, checking: bool)
        requires
            old(self)@.valid(),
        ensures
            final(self)@ == (SyncPickerView { checking, ..old(self)@ }),
            final(self)@.valid(),
    {
        self.checking = checking;
    }

    /// A look at the backup failed; what is known of it stays.
    pub fn set_error(&mut self, error: String)
        requires
            old(self)@.valid(),
        ensures
            final(self)@ == (SyncPickerView { error: Some(error), ..old(self)@ }),
            final(self)@.valid(),
    {
        self.error = Some(error);
    }

    pub fn configured(&self) -> (r: bool)
        ensures
            r == self@.configured(),
    {
        self.settings.url.is_some() && self.settings.branch.is_some()
    }

    pub fn actions(&self) -> (r: Vec<OverviewAction>)
        ensures
            r@ == self@.offers(),
    {
        let mut offers: Vec<OverviewAction> = Vec::new();
        if self.configured() {
            offers.push(OverviewAction::Sync(Mode::Sync));
            offers.push(OverviewAction::Sync(Mode::Push));
            offers.push(OverviewAction::Sync(Mode::Pull));
            offers.push(OverviewAction::Configure);
            offers.push(OverviewAction::Disable);
        } else {
            offers.push(OverviewAction::Configure);
        }
        offers
    }

    pub fn row_count(&self) -> (r: usize)
        ensures
            r == self@.rows(),
    {
        match &self.step {
            SyncStep::Overview => self.actions().len(),
            SyncStep::Preview { report, .. } => if report.status.len() > 0 {
                report.status.len()
            } else {
                1
            },
            SyncStep::Configure { .. } => 2,
            SyncStep::Disable => 1,
        }
    }

    pub fn hints(&self) -> (r: Vec<Hint>)
        ensures
            r@ == self@.hint_list(),
    {
        match &self.step {
            SyncStep::Configure { .. } => vec![
                ("Tab", "next field"),
                ("Enter", "continue"),
                ("Esc", "back"),
            ],
            SyncStep::Preview { .. } => vec![
                ("Tab", "buttons"),
                ("Enter", "choose"),
                ("Esc", "back"),
            ],
            SyncStep::Disable => vec![
                ("Tab", "buttons"),
                ("Enter", "choose"),
                ("Esc", "back"),
            ],
            SyncStep::Overview => if self.configured() {
                vec![
                    ("↑↓", "choose"),
                    ("Enter", "open"),
                    ("s/p/P", "sync / push / pull"),
                    ("Esc", "close"),
                ]
            } else {
                vec![("↑↓", "choose"), ("Enter", "set up"), ("Esc", "close")]
            },
        }
    }

    pub fn paste(&mut self, text: &str) -> (r: Vec<Action>)
        requires
            old(self)@.valid(),
        ensures
            final(self)@ == old(self)@.pasted(text@).0,
            old(self)@.pasted(text@).1.told(r@),
            final(self)@.valid(),
    {
        match &mut self.step {
            SyncStep::Configure { url, branch, second } => {
                let result = if *second {
                    branch.paste(text)
                } else {
                    url.paste(text)
                };
                match result {
                    Ok(_) => nothing(),
                    Err(why) => complain(why),
                }
            },
            _ => nothing(),
        }
    }

    fn back(&mut self) -> (r: Vec<Action>)
        requires
            old(self)@.valid(),
        ensures
            final(self)@ == old(self)@.backed().0,
            old(self)@.backed().1.told(r@),
            final(self)@.valid(),
    {
        if matches!(self.step, SyncStep::Overview) {
            return only(Action::CloseModal);
        }
        self.step = SyncStep::Overview;
        self.focus = ChoiceFocus::List;
        let count = self.actions().len();
        self.list.first(count);
        nothing()
    }

    /// Opens the page with the two fields.
    pub fn configure(&mut self)
        ensures
            final(self)@ == old(self)@.configuring(),
            final(self)@.valid(),
    {
        let url = match &self.settings.url {
            Some(url) => Input::with_value(url.as_str()),
            None => Input::with_value(""),
        };
        let branch = match &self.settings.branch {
            Some(branch) => Input::with_value(branch.as_str()),
            None => Input::with_value("main"),
        };
        self.step = SyncStep::Configure { url, branch, second: false };
        self.focus = ChoiceFocus::List;
    }
}

impl SyncPicker {
    fn run(request: Request) -> (r: Vec<Action>)
        ensures
            SyncReply::Run(request).told(r@),
    {
        both(Action::CloseModal, Action::Spawn(Task::Sync(request)))
    }

    fn activate_overview(&mut self) -> (r: Vec<Action>)
        requires
            old(self)@.valid(),
        ensures
            final(self)@ == old(self)@.activated().0,
            old(self)@.activated().1.told(r@),
            final(self)@.valid(),
    {
        let offers = self.actions();
        let at: usize = match self.list.selected {
            Some(at) => at,
            None => {
                return nothing();
            },
        };
        if at >= offers.len() {
            return nothing();
        }
        match offers[at] {
            OverviewAction::Configure => {
                self.configure();
                nothing()
            },
            OverviewAction::Disable => {
                self.step = SyncStep::Disable;
                self.focus = ChoiceFocus::List;
                self.list.first(1);
                nothing()
            },
            OverviewAction::Sync(mode) => SyncPicker::run(Request { mode, dry_run: true }),
        }
    }

    fn primary(&mut self) -> (r: Vec<Action>)
        requires
            old(self)@.valid(),
        ensures
            final(self)@ == old(self)@.applied().0,
            old(self)@.applied().1.told(r@),
            final(self)@.valid(),
    {
        match &self.step {
            SyncStep::Overview => self.activate_overview(),
            SyncStep::Preview { request, .. } => {
                let request = Request { mode: request.mode, dry_run: false };
                SyncPicker::run(request)
            },
            SyncStep::Disable => both(Action::CloseModal, Action::Spawn(Task::SyncDisable)),
            SyncStep::Configure { url, branch, .. } => {
                let url = trim(url.value().as_str());
                let branch = trim(branch.value().as_str());
                if crate::text::chars_of(url.as_str()).len() == 0 {
                    return complain("Remote URL is required");
                }
                if crate::text::chars_of(branch.as_str()).len() == 0 {
                    return complain("Branch is required");
                }
                both(Action::CloseModal, Action::Spawn(Task::SyncConfigure { url, branch }))
            },
        }
    }

    fn handle_choice(&mut self, key: KeyCode) -> (r: Option<Vec<Action>>)
        requires
            old(self)@.valid(),
        ensures
            match old(self)@.chosen(key) {
                Some((after, reply)) => r is Some && final(self)@ == after && reply.told((r->0)@),
                None => r is None && final(self)@ == old(self)@,
            },
            final(self)@.valid(),
    {
        let rows = self.row_count();
        let at_end = rows == 0 || match self.list.selected {
            Some(at) => at == rows - 1,
            None => false,
        };
        match self.focus.key(key, at_end) {
            Some(event) => Some(
                match event {
                    ChoiceEvent::Apply => self.primary(),
                    ChoiceEvent::Cancel => self.back(),
                    ChoiceEvent::Moved => nothing(),
                },
            ),
            None => None,
        }
    }

    /// A key on the page with the fields, where they have the focus.
    fn field_key(&mut self, key: KeyEvent)
        requires
            old(self)@.valid(),
            old(self)@.step is Configure,
        ensures
            final(self)@ == old(self)@.field_keyed(key, old(self)@.step->second),
            final(self)@.valid(),
    {
        match &mut self.step {
            SyncStep::Configure { url, branch, second } => {
                match key.code {
                    KeyCode::Tab => {
                        if *second {
                            self.focus = ChoiceFocus::Apply;
                        } else {
                            *second = true;
                        }
                    },
                    KeyCode::BackTab => {
                        if *second {
                            *second = false;
                        } else {
                            self.focus = ChoiceFocus::Cancel;
                        }
                    },
                    KeyCode::Up => {
                        *second = false;
                    },
                    KeyCode::Down => {
                        *second = true;
                    },
                    KeyCode::Enter => {
                        if *second {
                            self.focus = ChoiceFocus::Apply;
                        } else {
                            *second = true;
                        }
                    },
                    _ => {
                        if *second {
                            branch.handle_key(key);
                        } else {
                            url.handle_key(key);
                        }
                    },
                }
            },
            _ => {},
        }
    }

    /// A key on a page with a list, where it is not one of the buttons'.
    fn list_key(&mut self, key: KeyEvent) -> (r: Vec<Action>)
        requires
            old(self)@.valid(),
            old(self)@.step !is Configure,
        ensures
            final(self)@ == old(self)@.list_keyed(key).0,
            old(self)@.list_keyed(key).1.told(r@),
            final(self)@.valid(),
    {
        let rows = self.row_count();
        let overview = matches!(self.step, SyncStep::Overview);
        let preview = matches!(self.step, SyncStep::Preview { .. });
        let configured = self.configured();
        match key.code {
            KeyCode::Down => self.list.move_by(1, rows),
            KeyCode::Up => self.list.move_by(-1, rows),
            KeyCode::PageDown => self.list.move_by(10, rows),
            KeyCode::PageUp => self.list.move_by(-10, rows),
            KeyCode::Home => self.list.first(rows),
            KeyCode::End => self.list.last(rows),
            KeyCode::Enter => {
                if overview {
                    return self.activate_overview();
                }
                self.focus = ChoiceFocus::Apply;
            },
            KeyCode::Char(c) => {
                if overview && c == 'a' {
                    self.configure();
                } else if overview && configured && c == 'd' {
                    self.step = SyncStep::Disable;
                    self.focus = ChoiceFocus::List;
                } else if overview && configured && c == 's' {
                    return SyncPicker::run(Request { mode: Mode::Sync, dry_run: true });
                } else if overview && configured && c == 'p' {
                    return SyncPicker::run(Request { mode: Mode::Push, dry_run: true });
                } else if overview && configured && c == 'P' {
                    return SyncPicker::run(Request { mode: Mode::Pull, dry_run: true });
                } else if preview && c == 'y' {
                    return self.primary();
                }
            },
            _ => {},
        }
        nothing()
    }

    pub fn key(&mut self, key: KeyEvent) -> (r: Vec<Action>)
        requires
            old(self)@.valid(),
        ensures
            final(self)@ == old(self)@.keyed(key).0,
            old(self)@.keyed(key).1.told(r@),
            final(self)@.valid(),
    {
        if key.code == KeyCode::Esc {
            return self.back();
        }
        if matches!(self.step, SyncStep::Configure { .. }) {
            if self.focus == ChoiceFocus::List {
                self.field_key(key);
                return nothing();
            }
            return match self.handle_choice(key.code) {
                Some(actions) => actions,
                None => nothing(),
            };
        }
        match self.handle_choice(key.code) {
            Some(actions) => actions,
            None => self.list_key(key),
        }
    }

    fn press(&mut self, event: MouseEvent) -> (r: Vec<Action>)
        requires
            old(self)@.valid(),
        ensures
            final(self)@ == old(self)@.pressed(event).0,
            old(self)@.pressed(event).1.told(r@),
            final(self)@.valid(),
    {
        let rows = self.row_count();
        match &mut self.step {
            SyncStep::Configure { url, branch, second } => {
                if self.url_field.contains(event.column, event.row) {
                    *second = false;
                    self.focus = ChoiceFocus::List;
                    url.click(event.column);
                } else if self.branch_field.contains(event.column, event.row) {
                    *second = true;
                    self.focus = ChoiceFocus::List;
                    branch.click(event.column);
                }
                return nothing();
            },
            _ => {},
        }
        match self.list.click(event.row, rows, event.repeated) {
            Some((_, double)) => {
                self.focus = ChoiceFocus::List;
                if double && matches!(self.step, SyncStep::Overview) {
                    return self.activate_overview();
                }
            },
            None => {},
        }
        nothing()
    }

    pub fn mouse(&mut self, event: MouseEvent) -> (r: Vec<Action>)
        requires
            old(self)@.valid(),
        ensures
            final(self)@ == old(self)@.moused(event).0,
            old(self)@.moused(event).1.told(r@),
            final(self)@.valid(),
    {
        let rows = self.row_count();
        match event.kind {
            MouseKind::ScrollDown => self.list.move_by(3, rows),
            MouseKind::ScrollUp => self.list.move_by(-3, rows),
            MouseKind::Down => {
                if !self.rect.contains(event.column, event.row) {
                    return self.back();
                }
                if self.apply.contains(event.column, event.row) {
                    return self.primary();
                }
                if self.cancel.contains(event.column, event.row) {
                    return self.back();
                }
                return self.press(event);
            },
            _ => {},
        }
        nothing()
    }
}

/// The dialog for the backup, or why its settings cannot be read.
pub fn open(settings: Result<Settings, String>) -> (r: Modal)
    ensures
        match settings {
            Ok(settings) => r matches Modal::Sync(picker) && picker@ == fresh(settings),
            Err(error) => r.says("Root sync"@, seq![error@]),
        },
        r.valid(),
{
    match settings {
        Ok(settings) => Modal::Sync(Box::new(SyncPicker::new(settings))),
        Err(error) => {
            let mut lines: Vec<String> = Vec::new();
            lines.push(error);
            assert(crate::text::texts(lines@) =~= seq![error@]);
            Modal::message("Root sync", lines)
        },
    }
}

// ---- drawing -----------------------------------------------------------------

/// A row inside the border, one cell in from it on both sides.
pub open spec fn row_in(inner: Rect, down: int, height: int) -> Rect {
    Rect::at(inner.x + 1, inner.y + down, inner.width - 2, height)
}

/// A row inside the border, counted from the bottom.
pub open spec fn row_up(inner: Rect, up: int, height: int) -> Rect {
    Rect::at(inner.x + 1, inner.end_y() - up, inner.width - 2, height)
}

fn row_at(inner: Rect, down: u16, height: u16) -> (r: Rect)
    requires
        inner.in_range(),
        inner.width >= 2,
        down <= inner.height,
    ensures
        r == row_in(inner, down as int, height as int),
{
    Rect::new(inner.x + 1, inner.y + down, inner.width - 2, height)
}

fn row_above(inner: Rect, up: u16, height: u16) -> (r: Rect)
    requires
        inner.in_range(),
        inner.width >= 2,
        up <= inner.height,
    ensures
        r == row_up(inner, up as int, height as int),
{
    Rect::new(inner.x + 1, inner.bottom() - up, inner.width - 2, height)
}

/// The last rows inside the border.
pub open spec fn foot_in(inner: Rect, height: int) -> Rect {
    Rect::at(inner.x as int, inner.end_y() - height, inner.width as int, height)
}

fn foot_of(inner: Rect, height: u16) -> (r: Rect)
    requires
        inner.in_range(),
        height <= inner.height,
    ensures
        r == foot_in(inner, height as int),
        r.in_range(),
{
    Rect::new(inner.x, inner.bottom() - height, inner.width, height)
}

/// The style of the selected row.
pub open spec fn highlight_of(focus: ChoiceFocus, theme: Theme) -> Style {
    if focus == ChoiceFocus::List {
        theme.selected()
    } else {
        theme.selected_unfocused()
    }
}

fn highlight(focus: ChoiceFocus, theme: &Theme) -> (r: Style)
    ensures
        r == highlight_of(focus, *theme),
{
    if focus == ChoiceFocus::List {
        theme.selected()
    } else {
        theme.selected_unfocused()
    }
}

/// How a choice of the first page is named, and what is said of it.
pub open spec fn choice_label(action: OverviewAction, configured: bool) -> (Seq<char>, Seq<char>) {
    match action {
        OverviewAction::Configure => if configured {
            ("Configure backup"@, "settings"@)
        } else {
            ("Set up backup"@, "recommended"@)
        },
        OverviewAction::Sync(Mode::Sync) => ("Sync now"@, "recommended"@),
        OverviewAction::Sync(Mode::Push) => ("Push local changes only"@, "advanced"@),
        OverviewAction::Sync(Mode::Pull) => ("Pull remote changes only"@, "advanced"@),
        OverviewAction::Disable => ("Turn off automatic sync"@, "keeps Git history"@),
    }
}

fn label_of(action: OverviewAction, configured: bool) -> (r: (&'static str, &'static str))
    ensures
        (r.0@, r.1@) == choice_label(action, configured),
{
    match action {
        OverviewAction::Configure => if configured {
            ("Configure backup", "settings")
        } else {
            ("Set up backup", "recommended")
        },
        OverviewAction::Sync(mode) => match mode {
            Mode::Sync => ("Sync now", "recommended"),
            Mode::Push => ("Push local changes only", "advanced"),
            Mode::Pull => ("Pull remote changes only", "advanced"),
        },
        OverviewAction::Disable => ("Turn off automatic sync", "keeps Git history"),
    }
}

pub open spec fn choice_row(action: OverviewAction, configured: bool, theme: Theme) -> Seq<SpanView> {
    let (label, tail) = choice_label(action, configured);
    seq![plain_run("  "@ + label), run("  "@ + tail, theme.description())]
}

pub open spec fn choice_rows(configured: bool, theme: Theme) -> Seq<Seq<SpanView>> {
    offered(configured).map_values(|action: OverviewAction| choice_row(action, configured, theme))
}

/// The rows of a dry run.
pub open spec fn status_rows(status: Seq<String>, width: int) -> Seq<Seq<SpanView>> {
    if status.len() == 0 {
        seq![seq![plain_run("  Working tree is clean"@)]]
    } else {
        status.map_values(|line: String| seq![plain_run("  "@ + fitted(line@, monus(width, 4)))])
    }
}

impl SyncPickerView {
    pub open spec fn full_height(self) -> int {
        match self.step {
            SyncStepView::Configure { .. } => 17,
            SyncStepView::Preview { .. } => 21,
            SyncStepView::Overview => 21,
            SyncStepView::Disable => 13,
        }
    }

    pub open spec fn least_height(self) -> int {
        match self.step {
            SyncStepView::Configure { .. } => 13,
            SyncStepView::Preview { .. } => 8,
            SyncStepView::Overview => 8,
            SyncStepView::Disable => 7,
        }
    }

    pub open spec fn area_in(self, area: Rect) -> Rect {
        middle_of(area, 82, self.full_height())
    }

    pub open spec fn cramped(self, inner: Rect) -> bool {
        inner.width < 26 || inner.height < self.least_height()
    }

    pub open spec fn title(self) -> Seq<char> {
        match self.step {
            SyncStepView::Overview => " Root backup "@,
            SyncStepView::Configure { .. } => " Root backup · configure "@,
            SyncStepView::Preview { .. } => " Root backup · review "@,
            SyncStepView::Disable => " Root backup · turn off automatic sync "@,
        }
    }

    pub open spec fn foot(self, inner: Rect) -> Rect {
        foot_in(
            inner,
            if self.step is Overview {
                1
            } else {
                2
            },
        )
    }

    pub open spec fn apply_label(self) -> Seq<char> {
        match self.step {
            SyncStepView::Overview => "Open"@,
            SyncStepView::Configure { .. } => "Enable"@,
            SyncStepView::Preview { .. } => "✓ Run sync"@,
            SyncStepView::Disable => "Turn off"@,
        }
    }

    pub open spec fn cancel_label(self) -> Seq<char> {
        if self.step is Overview {
            "Close"@
        } else {
            "Back"@
        }
    }

    pub open spec fn foot_note(self) -> Seq<char> {
        match self.step {
            SyncStepView::Overview => "↑↓ choose"@,
            SyncStepView::Configure { .. } => "Configuration is stored in local Git settings"@,
            SyncStepView::Preview { .. } => "Conflicts preserve the local backup commit"@,
            SyncStepView::Disable => "Git history is retained"@,
        }
    }

    /// Both fields are filled in, where there are fields.
    pub open spec fn ready(self) -> bool {
        match self.step {
            SyncStepView::Configure { url, branch, .. } => trimmed(url.text).len() > 0 && trimmed(
                branch.text,
            ).len() > 0,
            _ => true,
        }
    }

    pub open spec fn list_area(self, inner: Rect) -> Rect {
        match self.step {
            SyncStepView::Overview => row_in(inner, 5, inner.height - 8),
            SyncStepView::Preview { .. } => row_in(inner, 2, inner.height - 8),
            SyncStepView::Disable => row_in(inner, 1, 1),
            SyncStepView::Configure { .. } => self.list.rows,
        }
    }

    /// The list as it is drawn: where, and with a row selected.
    pub open spec fn list_in(self, inner: Rect) -> ListNav {
        match self.step {
            SyncStepView::Overview => ListNav {
                selected: clamped(self.list.selected, self.rows()),
                rows: self.list_area(inner),
                item_height: 1,
                ..self.list
            }.drawn(self.rows()),
            SyncStepView::Preview { .. } => ListNav {
                selected: clamped(self.list.selected, self.rows()),
                rows: self.list_area(inner),
                item_height: 1,
                ..self.list
            }.drawn(self.rows()),
            _ => ListNav { rows: self.list_area(inner), ..self.list },
        }
    }

    /// The page with its fields where they are drawn.
    pub open spec fn step_in(self, inner: Rect) -> SyncStepView {
        match self.step {
            SyncStepView::Configure { url, branch, second } => SyncStepView::Configure {
                url: InputView { field: row_in(inner, 3, 1), ..url },
                branch: InputView { field: row_in(inner, 6, 1), ..branch },
                second,
            },
            step => step,
        }
    }

    /// The dialog once it is drawn: where everything is.
    pub open spec fn placed(self, area: Rect) -> SyncPickerView {
        let rect = self.area_in(area);
        let inner = rect.inside();
        let bare = SyncPickerView {
            rect,
            url_field: Rect::zero(),
            branch_field: Rect::zero(),
            apply: Rect::zero(),
            cancel: Rect::zero(),
            ..self
        };
        if self.cramped(inner) {
            bare
        } else {
            let buttons = button_rects(self.foot(inner), self.apply_label(), self.cancel_label());
            let configuring = self.step is Configure;
            SyncPickerView {
                step: self.step_in(inner),
                list: self.list_in(inner),
                url_field: if configuring {
                    row_in(inner, 3, 1)
                } else {
                    Rect::zero()
                },
                branch_field: if configuring {
                    row_in(inner, 6, 1)
                } else {
                    Rect::zero()
                },
                apply: buttons[0],
                cancel: buttons[1],
                ..bare
            }
        }
    }

    /// What is said of the backup on the first page.
    pub open spec fn headline(self) -> Seq<char> {
        if self.settings.enabled {
            "● Automatic sync is on"@
        } else if self.configured() {
            "○ Automatic sync is off"@
        } else {
            "○ Backup is not configured"@
        }
    }

    pub open spec fn details(self, inner: Rect) -> Seq<Seq<SpanView>> {
        if self.configured() {
            seq![
                seq![
                    plain_run(
                        "Remote  "@ + fitted(
                            setting_or(self.settings.url, ""@),
                            monus(inner.width as int, 10),
                        ),
                    ),
                ],
                seq![plain_run("Branch  "@ + setting_or(self.settings.branch, "—"@))],
            ]
        } else {
            seq![
                seq![
                    plain_run(
                        "Set a remote repository and branch to back up this skills root."@,
                    ),
                ],
            ]
        }
    }

    pub open spec fn overview_scene(self, inner: Rect, theme: Theme) -> Seq<DrawView> {
        seq![
            shown(
                row_in(inner, 0, 1),
                seq![seq![plain_run(self.headline())]],
                if self.settings.enabled {
                    theme.ok()
                } else {
                    theme.warn()
                },
            ),
            shown(row_in(inner, 2, 2), self.details(inner), theme.dim()),
            listed(
                self.list_in(inner),
                choice_rows(self.configured(), theme),
                highlight_of(self.focus, theme),
            ),
            flowing(
                row_up(inner, 3, 2),
                seq![
                    seq![
                        plain_run(
                            "Sync saves local work, merges remote updates, then pushes. Conflicts stop without force/reset."@,
                        ),
                    ],
                ],
                theme.description(),
                Wrap::Trimmed,
                0,
            ),
        ]
    }

    pub open spec fn configure_scene(self, inner: Rect, theme: Theme) -> Seq<DrawView> {
        match self.step {
            SyncStepView::Configure { url, branch, second } => seq![
                shown(
                    row_in(inner, 0, 1),
                    seq![seq![plain_run("Back up the entire skills root to one Git remote."@)]],
                    theme.bold(),
                ),
                shown(row_in(inner, 2, 1), seq![seq![plain_run("Remote URL"@)]], theme.dim()),
                DrawView::Field {
                    rect: row_in(inner, 3, 1),
                    value: url.text,
                    cursor: url.cursor as usize,
                    focused: self.focus == ChoiceFocus::List && !second,
                    placeholder: "https://… or /path/to/repo.git"@,
                },
                shown(row_in(inner, 5, 1), seq![seq![plain_run("Branch"@)]], theme.dim()),
                DrawView::Field {
                    rect: row_in(inner, 6, 1),
                    value: branch.text,
                    cursor: branch.cursor as usize,
                    focused: self.focus == ChoiceFocus::List && second,
                    placeholder: "main"@,
                },
                flowing(
                    row_up(inner, 5, 3),
                    seq![
                        seq![
                            plain_run(
                                "Skills, metadata, notes, presets and machine paths are shared. Deletions propagate; runtime files stay local."@,
                            ),
                        ],
                    ],
                    theme.description(),
                    Wrap::Trimmed,
                    0,
                ),
            ],
            _ => Seq::empty(),
        }
    }

    pub open spec fn preview_scene(self, inner: Rect, theme: Theme) -> Seq<DrawView> {
        match self.step {
            SyncStepView::Preview { request, report } => {
                let count = report.status@.len() as int;
                seq![
                    shown(
                        row_in(inner, 0, 1),
                        seq![
                            seq![
                                plain_run(
                                    request.mode.name()@ + " · "@ + numeral(count)
                                        + " local change"@ + if count == 1 {
                                        ""@
                                    } else {
                                        "s"@
                                    },
                                ),
                            ],
                        ],
                        if count == 0 {
                            theme.ok()
                        } else {
                            theme.warn()
                        },
                    ),
                    listed(
                        self.list_in(inner),
                        status_rows(report.status@, inner.width as int),
                        highlight_of(self.focus, theme),
                    ),
                    flowing(
                        row_up(inner, 5, 3),
                        seq![
                            seq![
                                plain_run(
                                    "Plan: commit local changes → fetch and merge remote updates → push. The remote is checked again before writing."@,
                                ),
                            ],
                        ],
                        theme.description(),
                        Wrap::Trimmed,
                        0,
                    ),
                ]
            },
            _ => Seq::empty(),
        }
    }

    pub open spec fn disable_lines(theme: Theme) -> Seq<Seq<SpanView>> {
        seq![
            seq![run("Automatic synchronization will stop."@, theme.warn())],
            seq![plain_run(""@)],
            seq![
                plain_run(
                    "The Git history, remote and current files remain unchanged. You can still sync manually or enable it again later."@,
                ),
            ],
        ]
    }

    pub open spec fn disable_scene(self, inner: Rect, theme: Theme) -> Seq<DrawView> {
        seq![
            flowing(
                row_in(inner, 1, inner.height - 4),
                SyncPickerView::disable_lines(theme),
                Style::plain(),
                Wrap::Trimmed,
                0,
            ),
        ]
    }

    /// The drawing of the page, without its border and its buttons.
    pub open spec fn page_scene(self, inner: Rect, theme: Theme) -> Seq<DrawView> {
        match self.step {
            SyncStepView::Overview => self.overview_scene(inner, theme),
            SyncStepView::Configure { .. } => self.configure_scene(inner, theme),
            SyncStepView::Preview { .. } => self.preview_scene(inner, theme),
            SyncStepView::Disable => self.disable_scene(inner, theme),
        }
    }

    /// The drawing of the dialog.
    pub open spec fn scene(self, area: Rect, theme: Theme) -> Seq<DrawView> {
        let rect = self.area_in(area);
        let inner = rect.inside();
        let border = seq![DrawView::Clear(rect), framed(rect, self.title())];
        if self.cramped(inner) {
            border.push(
                shown(
                    inner,
                    seq![seq![plain_run("Enlarge terminal · Esc back"@)]],
                    Style::plain(),
                ),
            )
        } else {
            border + self.page_scene(inner, theme) + footer_scene(
                self.foot(inner),
                self.focus,
                self.ready(),
                self.foot_note(),
                self.apply_label(),
                self.cancel_label(),
                theme,
            )
        }
    }
}

fn draw_choices(offers: &Vec<OverviewAction>, configured: bool, theme: &Theme) -> (r: Lines)
    requires
        offers@ == offered(configured),
    ensures
        r@ == choice_rows(configured, *theme),
{
    let mut rows = Lines::new();
    let ghost all = choice_rows(configured, *theme);
    let mut i: usize = 0;
    while i < offers.len()
        invariant
            i <= offers.len(),
            offers@ == offered(configured),
            all == choice_rows(configured, *theme),
            rows@ == all.take(i as int),
        decreases offers.len() - i,
    {
        let (label, tail) = label_of(offers[i], configured);
        let mut line = Line::new();
        line.push(Span::raw(cat2("  ", label).as_str()));
        line.push(Span::styled(cat2("  ", tail).as_str(), theme.description()));
        assert(line@ =~= all[i as int]);
        rows.push(line);
        i = i + 1;
        assert(rows@ =~= all.take(i as int));
    }
    assert(rows@ =~= all);
    rows
}

fn draw_status(status: &Vec<String>, width: u16) -> (r: Lines)
    ensures
        r@ == status_rows(status@, width as int),
{
    if status.len() == 0 {
        return Lines::one(Line::raw("  Working tree is clean"));
    }
    let room: usize = width.saturating_sub(4) as usize;
    let mut rows = Lines::new();
    let ghost all = status_rows(status@, width as int);
    let mut i: usize = 0;
    while i < status.len()
        invariant
            i <= status.len(),
            status@.len() > 0,
            room == monus(width as int, 4),
            all == status_rows(status@, width as int),
            rows@ == all.take(i as int),
        decreases status.len() - i,
    {
        let line = Line::raw(cat2("  ", fit(status[i].as_str(), room).as_str()).as_str());
        assert(line@ =~= all[i as int]);
        rows.push(line);
        i = i + 1;
        assert(rows@ =~= all.take(i as int));
    }
    assert(rows@ =~= all);
    rows
}

impl SyncPicker {
    fn draw_overview(&mut self, scene: &mut Scene, inner: Rect, theme: &Theme)
        requires
            inner.in_range(),
            inner.width >= 26,
            inner.height >= 8,
            old(self)@.step is Overview,
        ensures
            final(self)@ == (SyncPickerView { list: old(self)@.list_in(inner), ..old(self)@ }),
            final(scene)@ == old(scene)@ + old(self)@.overview_scene(inner, *theme),
    {
        let configured = self.configured();
        let headline = if self.settings.enabled {
            "● Automatic sync is on"
        } else if configured {
            "○ Automatic sync is off"
        } else {
            "○ Backup is not configured"
        };
        let style = if self.settings.enabled {
            theme.ok()
        } else {
            theme.warn()
        };
        let mut details = Lines::new();
        if configured {
            let room: usize = inner.width.saturating_sub(10) as usize;
            match &self.settings.url {
                Some(url) => details.push(
                    Line::raw(cat2("Remote  ", fit(url.as_str(), room).as_str()).as_str()),
                ),
                None => {},
            }
            match &self.settings.branch {
                Some(branch) => details.push(Line::raw(cat2("Branch  ", branch.as_str()).as_str())),
                None => {},
            }
        } else {
            details.push(
                Line::raw("Set a remote repository and branch to back up this skills root."),
            );
        }
        assert(details@ =~= self@.details(inner));
        let offers = self.actions();
        self.list.rows = row_at(inner, 5, inner.height - 8);
        self.list.item_height = 1;
        self.list.clamp(offers.len());
        self.list.show(offers.len());
        let rows = draw_choices(&offers, configured, theme);
        scene.note(row_at(inner, 0, 1), headline, style);
        scene.lines(row_at(inner, 2, 2), details, theme.dim());
        scene.list(self.list, rows, highlight(self.focus, theme));
        scene.flow_note(
            row_above(inner, 3, 2),
            "Sync saves local work, merges remote updates, then pushes. Conflicts stop without force/reset.",
            theme.description(),
        );
        assert(scene@ =~= old(scene)@ + old(self)@.overview_scene(inner, *theme));
    }

    fn draw_configure(&mut self, scene: &mut Scene, inner: Rect, theme: &Theme)
        requires
            inner.in_range(),
            inner.width >= 26,
            inner.height >= 13,
            old(self)@.step is Configure,
        ensures
            final(self)@ == (SyncPickerView {
                step: old(self)@.step_in(inner),
                url_field: row_in(inner, 3, 1),
                branch_field: row_in(inner, 6, 1),
                ..old(self)@
            }),
            final(scene)@ == old(scene)@ + old(self)@.configure_scene(inner, *theme),
    {
        let listed = self.focus == ChoiceFocus::List;
        self.url_field = row_at(inner, 3, 1);
        self.branch_field = row_at(inner, 6, 1);
        scene.note(
            row_at(inner, 0, 1),
            "Back up the entire skills root to one Git remote.",
            theme.bold(),
        );
        match &mut self.step {
            SyncStep::Configure { url, branch, second } => {
                url.place(self.url_field);
                branch.place(self.branch_field);
                scene.note(row_at(inner, 2, 1), "Remote URL", theme.dim());
                scene.push(
                    Draw::Field {
                        rect: self.url_field,
                        value: url.value(),
                        cursor: url.cursor,
                        focused: listed && !*second,
                        placeholder: "https://… or /path/to/repo.git".to_owned(),
                    },
                );
                scene.note(row_at(inner, 5, 1), "Branch", theme.dim());
                scene.push(
                    Draw::Field {
                        rect: self.branch_field,
                        value: branch.value(),
                        cursor: branch.cursor,
                        focused: listed && *second,
                        placeholder: "main".to_owned(),
                    },
                );
            },
            _ => {},
        }
        scene.flow_note(
            row_above(inner, 5, 3),
            "Skills, metadata, notes, presets and machine paths are shared. Deletions propagate; runtime files stay local.",
            theme.description(),
        );
        assert(scene@ =~= old(scene)@ + old(self)@.configure_scene(inner, *theme));
    }

    fn draw_preview(&mut self, scene: &mut Scene, inner: Rect, theme: &Theme)
        requires
            inner.in_range(),
            inner.width >= 26,
            inner.height >= 8,
            old(self)@.step is Preview,
        ensures
            final(self)@ == (SyncPickerView { list: old(self)@.list_in(inner), ..old(self)@ }),
            final(scene)@ == old(scene)@ + old(self)@.preview_scene(inner, *theme),
    {
        let rows = self.row_count();
        self.list.rows = row_at(inner, 2, inner.height - 8);
        self.list.item_height = 1;
        self.list.clamp(rows);
        self.list.show(rows);
        match &self.step {
            SyncStep::Preview { request, report } => {
                let count = report.status.len();
                let text = cat5(
                    request.mode.name(),
                    " · ",
                    decimal(count).as_str(),
                    " local change",
                    if count == 1 {
                        ""
                    } else {
                        "s"
                    },
                );
                scene.note(
                    row_at(inner, 0, 1),
                    text.as_str(),
                    if count == 0 {
                        theme.ok()
                    } else {
                        theme.warn()
                    },
                );
                let lines = draw_status(&report.status, inner.width);
                scene.list(self.list, lines, highlight(self.focus, theme));
            },
            _ => {},
        }
        scene.flow_note(
            row_above(inner, 5, 3),
            "Plan: commit local changes → fetch and merge remote updates → push. The remote is checked again before writing.",
            theme.description(),
        );
        assert(scene@ =~= old(scene)@ + old(self)@.preview_scene(inner, *theme));
    }

    fn draw_disable(&mut self, scene: &mut Scene, inner: Rect, theme: &Theme)
        requires
            inner.in_range(),
            inner.width >= 26,
            inner.height >= 7,
            old(self)@.step is Disable,
        ensures
            final(self)@ == (SyncPickerView { list: old(self)@.list_in(inner), ..old(self)@ }),
            final(scene)@ == old(scene)@ + old(self)@.disable_scene(inner, *theme),
    {
        let mut lines = Lines::new();
        lines.push(Line::styled("Automatic synchronization will stop.", theme.warn()));
        lines.push(Line::raw(""));
        lines.push(
            Line::raw(
                "The Git history, remote and current files remain unchanged. You can still sync manually or enable it again later.",
            ),
        );
        assert(lines@ =~= SyncPickerView::disable_lines(*theme));
        scene.flow(
            row_at(inner, 1, inner.height - 4),
            lines,
            Style::plain(),
            Wrap::Trimmed,
            0,
        );
        self.list.rows = row_at(inner, 1, 1);
        assert(scene@ =~= old(scene)@ + old(self)@.disable_scene(inner, *theme));
    }

    fn is_ready(&self) -> (r: bool)
        ensures
            r == self@.ready(),
    {
        match &self.step {
            SyncStep::Configure { url, branch, .. } => {
                let url = trim(url.value().as_str());
                let branch = trim(branch.value().as_str());
                crate::text::chars_of(url.as_str()).len() > 0 && crate::text::chars_of(
                    branch.as_str(),
                ).len() > 0
            },
            _ => true,
        }
    }

    /// The page inside the border, and its buttons.
    fn draw_inside(&mut self, scene: &mut Scene, inner: Rect, theme: &Theme)
        requires
            inner.in_range(),
            !old(self)@.cramped(inner),
        ensures
            final(scene)@ == old(scene)@ + old(self)@.page_scene(inner, *theme) + footer_scene(
                old(self)@.foot(inner),
                old(self)@.focus,
                old(self)@.ready(),
                old(self)@.foot_note(),
                old(self)@.apply_label(),
                old(self)@.cancel_label(),
                *theme,
            ),
            ({
                let buttons = button_rects(
                    old(self)@.foot(inner),
                    old(self)@.apply_label(),
                    old(self)@.cancel_label(),
                );
                final(self)@ == (SyncPickerView {
                    step: old(self)@.step_in(inner),
                    list: old(self)@.list_in(inner),
                    url_field: if old(self)@.step is Configure {
                        row_in(inner, 3, 1)
                    } else {
                        old(self)@.url_field
                    },
                    branch_field: if old(self)@.step is Configure {
                        row_in(inner, 6, 1)
                    } else {
                        old(self)@.branch_field
                    },
                    apply: buttons[0],
                    cancel: buttons[1],
                    ..old(self)@
                })
            }),
    {
        let ready = self.is_ready();
        let focus = self.focus;
        let (note, apply, cancel, height): (&'static str, &'static str, &'static str, u16) = match &self.step {
            SyncStep::Overview => ("↑↓ choose", "Open", "Close", 1),
            SyncStep::Configure { .. } => (
                "Configuration is stored in local Git settings",
                "Enable",
                "Back",
                2,
            ),
            SyncStep::Preview { .. } => (
                "Conflicts preserve the local backup commit",
                "✓ Run sync",
                "Back",
                2,
            ),
            SyncStep::Disable => ("Git history is retained", "Turn off", "Back", 2),
        };
        match &self.step {
            SyncStep::Overview => self.draw_overview(scene, inner, theme),
            SyncStep::Configure { .. } => self.draw_configure(scene, inner, theme),
            SyncStep::Preview { .. } => self.draw_preview(scene, inner, theme),
            SyncStep::Disable => self.draw_disable(scene, inner, theme),
        }
        let foot = foot_of(inner, height);
        let buttons = draw_with_labels(scene, foot, focus, ready, note, apply, cancel, theme);
        self.apply = buttons[0];
        self.cancel = buttons[1];
    }

    /// Draws the dialog in an area.
    pub fn draw(&mut self, area: Rect, theme: &Theme) -> (r: Scene)
        requires
            area.in_range(),
            old(self)@.valid(),
        ensures
            final(self)@ == old(self)@.placed(area),
            final(self)@.valid(),
            r@ == old(self)@.scene(area, *theme),
    {
        let (height, least, title): (u16, u16, &'static str) = match &self.step {
            SyncStep::Overview => (21, 8, " Root backup "),
            SyncStep::Configure { .. } => (17, 13, " Root backup · configure "),
            SyncStep::Preview { .. } => (21, 8, " Root backup · review "),
            SyncStep::Disable => (13, 7, " Root backup · turn off automatic sync "),
        };
        self.rect = centered(area, 82, height);
        let inner = self.rect.inner();
        self.url_field = Rect::zero();
        self.branch_field = Rect::zero();
        self.apply = Rect::zero();
        self.cancel = Rect::zero();
        let mut scene = Scene::new();
        scene.clear(self.rect);
        scene.frame(self.rect, title);
        if inner.width < 26 || inner.height < least {
            scene.note(inner, "Enlarge terminal · Esc back", Style::plain());
            return scene;
        }
        self.draw_inside(&mut scene, inner, theme);
        scene
    }
}

// ---- laws --------------------------------------------------------------------

/// A synchronisation that writes is only ever asked for on the page that shows what it
/// would do; everywhere else it is a dry run.
pub proof fn lemma_writing_needs_a_preview(picker: SyncPickerView, key: KeyEvent, event: MouseEvent)
    ensures
        picker.keyed(key).1 matches SyncReply::Run(request) ==> request.dry_run || picker.step
            is Preview,
        picker.moused(event).1 matches SyncReply::Run(request) ==> request.dry_run || picker.step
            is Preview,
{
}

/// Where no backup is configured, nothing is synchronised and nothing is turned off.
pub proof fn lemma_nothing_runs_unconfigured(picker: SyncPickerView, key: KeyEvent)
    requires
        !picker.configured(),
        picker.step is Overview,
    ensures
        picker.keyed(key).1 !is Run,
        picker.keyed(key).1 !is Disable,
        picker.keyed(key).0.step is Overview || picker.keyed(key).0.step is Configure,
{
}

/// Esc always leads to the first page, and from there out.
pub proof fn lemma_escape_leads_out(picker: SyncPickerView, key: KeyEvent)
    requires
        key.code == KeyCode::Esc,
    ensures
        picker.keyed(key).0.step is Overview,
        picker.keyed(key).1 == SyncReply::Nothing || picker.keyed(key).1 == SyncReply::Close,
        picker.keyed(key).0.keyed(key).1 == SyncReply::Close,
{
}

/// A configuration that is asked for names both a remote and a branch.
pub proof fn lemma_configuration_is_complete(picker: SyncPickerView, key: KeyEvent)
    ensures
        picker.keyed(key).1 matches SyncReply::Configure { url, branch } ==> url.len() > 0
            && branch.len() > 0,
{
}

/// What is confirmed is what was shown: on the page that shows what a synchronisation would
/// do, a run that is asked for goes the same way as the one that was shown, and it writes.
pub proof fn lemma_the_reviewed_run_is_made(
    picker: SyncPickerView,
    key: KeyEvent,
    event: MouseEvent,
    actions: Seq<Action>,
)
    requires
        picker.step is Preview,
    ensures
        picker.keyed(key).1 matches SyncReply::Run(request) ==> request.mode
            == picker.step->Preview_request.mode && !request.dry_run,
        picker.moused(event).1 matches SyncReply::Run(request) ==> request.mode
            == picker.step->Preview_request.mode && !request.dry_run,
        key.code == KeyCode::Char('y') && picker.focus == ChoiceFocus::List
            && picker.keyed(key).1.told(actions) ==> {
            &&& actions.len() == 2
            &&& actions[0] == Action::CloseModal
            &&& (actions[1] matches Action::Spawn(Task::Sync(request)) && request.mode
                == picker.step->Preview_request.mode && !request.dry_run)
        },
        key.code == KeyCode::Enter && picker.focus == ChoiceFocus::Apply
            && picker.keyed(key).1.told(actions) ==> {
            &&& actions.len() == 2
            &&& actions[0] == Action::CloseModal
            &&& (actions[1] matches Action::Spawn(Task::Sync(request)) && request.mode
                == picker.step->Preview_request.mode && !request.dry_run)
        },
        picker.keyed(key).1 !is Configure,
        picker.keyed(key).1 !is Disable,
        key.code == KeyCode::Enter && picker.focus != ChoiceFocus::Apply ==> picker.keyed(key).1
            is Nothing,
{
}

/// On the first page every way of synchronising is shown before it is made: its letter and
/// its row ask for a trial of that way and no other.
pub proof fn lemma_every_way_is_tried_first(picker: SyncPickerView, key: KeyEvent)
    requires
        picker.step is Overview,
        picker.focus == ChoiceFocus::List,
        picker.settings.url is Some,
        picker.settings.branch is Some,
    ensures
        key.code == KeyCode::Char('s') ==> picker.keyed(key).1 == SyncReply::Run(
            Request { mode: Mode::Sync, dry_run: true },
        ),
        key.code == KeyCode::Char('p') ==> picker.keyed(key).1 == SyncReply::Run(
            Request { mode: Mode::Push, dry_run: true },
        ),
        key.code == KeyCode::Char('P') ==> picker.keyed(key).1 == SyncReply::Run(
            Request { mode: Mode::Pull, dry_run: true },
        ),
        key.code == KeyCode::Char('a') ==> picker.keyed(key).0.step is Configure,
        key.code == KeyCode::Char('d') ==> picker.keyed(key).0.step is Disable,
        picker.keyed(key).1 !is Disable,
        picker.keyed(key).1 !is Configure,
        key.code == KeyCode::Enter && picker.list.selected == Some(0usize) ==> picker.keyed(key).1
            == SyncReply::Run(Request { mode: Mode::Sync, dry_run: true }),
        key.code == KeyCode::Enter && picker.list.selected == Some(1usize) ==> picker.keyed(key).1
            == SyncReply::Run(Request { mode: Mode::Push, dry_run: true }),
        key.code == KeyCode::Enter && picker.list.selected == Some(2usize) ==> picker.keyed(key).1
            == SyncReply::Run(Request { mode: Mode::Pull, dry_run: true }),
        key.code == KeyCode::Enter && picker.list.selected == Some(3usize) ==> picker.keyed(
            key,
        ).0.step is Configure,
        key.code == KeyCode::Enter && picker.list.selected == Some(4usize) ==> picker.keyed(
            key,
        ).0.step is Disable,
{
}

/// Each row of the first page does what its label says.
pub proof fn lemma_rows_do_what_they_say(picker: SyncPickerView, key: KeyEvent, at: usize)
    requires
        picker.step is Overview,
        picker.focus == ChoiceFocus::List,
        key.code == KeyCode::Enter,
        picker.list.selected == Some(at),
        at < picker.offers().len(),
    ensures
        ({
            let label = choice_label(picker.offers()[at as int], picker.configured()).0;
            let (after, reply) = picker.keyed(key);
            &&& reply == SyncReply::Run(Request { mode: Mode::Sync, dry_run: true }) ==> label
                == "Sync now"@
            &&& reply == SyncReply::Run(Request { mode: Mode::Push, dry_run: true }) ==> label
                == "Push local changes only"@
            &&& reply == SyncReply::Run(Request { mode: Mode::Pull, dry_run: true }) ==> label
                == "Pull remote changes only"@
            &&& after.step is Disable ==> label == "Turn off automatic sync"@
            &&& after.step is Configure ==> label == if picker.configured() {
                "Configure backup"@
            } else {
                "Set up backup"@
            }
            &&& reply is Run || after.step is Disable || after.step is Configure
            &&& !picker.configured() ==> after.step is Configure
        }),
{
}

/// Turning the backup off takes a page of its own: it is asked for only there, by its button,
/// and what it asks for is just that.
pub proof fn lemma_turning_off_is_confirmed(
    picker: SyncPickerView,
    key: KeyEvent,
    event: MouseEvent,
    actions: Seq<Action>,
)
    ensures
        picker.keyed(key).1 is Disable ==> picker.step is Disable && picker.focus
            == ChoiceFocus::Apply && (key.code == KeyCode::Enter || key.code == KeyCode::Char(' ')),
        picker.moused(event).1 is Disable ==> picker.step is Disable && picker.apply.has(
            event.column as int,
            event.row as int,
        ),
        picker.step is Disable && picker.focus == ChoiceFocus::Apply && key.code == KeyCode::Enter
            && picker.keyed(key).1.told(actions) ==> actions == seq![
            Action::CloseModal,
            Action::Spawn(Task::SyncDisable),
        ],
{
}

/// A backup is set up with what stands in the two fields, without the blanks around it: the
/// first is the remote, the second the branch. Where one of them is blank, that is said and
/// nothing is set up.
pub proof fn lemma_the_fields_are_set_up(
    picker: SyncPickerView,
    key: KeyEvent,
    actions: Seq<Action>,
)
    requires
        picker.step is Configure,
        picker.focus == ChoiceFocus::Apply,
        key.code == KeyCode::Enter,
        picker.keyed(key).1.told(actions),
    ensures
        ({
            let url = trimmed(picker.step->Configure_url.text);
            let branch = trimmed(picker.step->Configure_branch.text);
            &&& url.len() > 0 && branch.len() > 0 ==> actions.len() == 2 && actions[0]
                == Action::CloseModal && (actions[1] matches Action::Spawn(
                Task::SyncConfigure { url: u, branch: b },
            ) && u@ == url && b@ == branch)
            &&& url.len() == 0 ==> complains(actions, "Remote URL is required"@)
            &&& url.len() > 0 && branch.len() == 0 ==> complains(actions, "Branch is required"@)
        }),
{
}

/// The fields begin with the settings that there are; without a branch it is the usual one.
pub proof fn lemma_the_fields_begin_with_the_settings(picker: SyncPickerView, key: KeyEvent)
    requires
        picker.step is Overview,
        picker.focus == ChoiceFocus::List,
        key.code == KeyCode::Char('a'),
    ensures
        ({
            let step = picker.keyed(key).0.step;
            &&& step is Configure
            &&& !step->second
            &&& picker.settings.url matches Some(url) ==> step->Configure_url.text == url@
            &&& picker.settings.url is None ==> step->Configure_url.text == ""@
            &&& picker.settings.branch matches Some(branch) ==> step->Configure_branch.text
                == branch@
            &&& picker.settings.branch is None ==> step->Configure_branch.text == "main"@
        }),
{
}

/// A letter goes into the field that is edited and leaves the other one alone.
pub proof fn lemma_letters_go_to_their_field(picker: SyncPickerView, key: KeyEvent)
    requires
        picker.step is Configure,
        picker.focus == ChoiceFocus::List,
        key.code is Char,
    ensures
        ({
            let before = picker.step;
            let after = picker.keyed(key).0.step;
            &&& after is Configure
            &&& after->second == before->second
            &&& before->second ==> after->Configure_url == before->Configure_url
                && after->Configure_branch == before->Configure_branch.keyed(key)
            &&& !before->second ==> after->Configure_branch == before->Configure_branch
                && after->Configure_url == before->Configure_url.keyed(key)
            &&& picker.keyed(key).1 is Nothing
        }),
{
}

/// Esc never asks for anything but to leave; a press beside the dialog does the same.
pub proof fn lemma_leaving_asks_for_nothing(
    picker: SyncPickerView,
    key: KeyEvent,
    event: MouseEvent,
)
    ensures
        key.code == KeyCode::Esc ==> {
            &&& picker.step is Overview ==> picker.keyed(key).1 is Close
            &&& picker.step !is Overview ==> picker.keyed(key).1 is Nothing && picker.keyed(
                key,
            ).0.step is Overview
        },
        event.kind == MouseKind::Down && !picker.rect.has(event.column as int, event.row as int)
            ==> {
            &&& picker.step is Overview ==> picker.moused(event).1 is Close
            &&& picker.step !is Overview ==> picker.moused(event).1 is Nothing
        },
        picker.focus == ChoiceFocus::Cancel && key.code == KeyCode::Enter ==> picker.keyed(key).1
            is Close || picker.keyed(key).1 is Nothing,
{
}

/// What the first page says of the backup: whether it synchronises by itself, could, or is
/// not set up.
pub proof fn lemma_what_the_first_page_says(picker: SyncPickerView)
    ensures
        picker.settings.enabled ==> picker.headline() == "● Automatic sync is on"@,
        !picker.settings.enabled && picker.settings.url is Some && picker.settings.branch is Some
            ==> picker.headline() == "○ Automatic sync is off"@,
        !picker.settings.enabled && (picker.settings.url is None || picker.settings.branch is None)
            ==> picker.headline() == "○ Backup is not configured"@,
{
}

/// The buttons of each page are called after what they do.
pub proof fn lemma_the_buttons_of_a_page(picker: SyncPickerView)
    ensures
        picker.step is Overview ==> picker.apply_label() == "Open"@ && picker.cancel_label()
            == "Close"@,
        picker.step is Configure ==> picker.apply_label() == "Enable"@ && picker.cancel_label()
            == "Back"@,
        picker.step is Preview ==> picker.apply_label() == "✓ Run sync"@ && picker.cancel_label()
            == "Back"@,
        picker.step is Disable ==> picker.apply_label() == "Turn off"@ && picker.cancel_label()
            == "Back"@,
        picker.step is Disable ==> picker.foot_note() == "Git history is retained"@,
        picker.step is Preview ==> picker.foot_note()
            == "Conflicts preserve the local backup commit"@,
{
}

/// A run that was tried is shown with the way it goes, how many changes there are, and every
/// one of them.
pub proof fn lemma_a_preview_shows_every_change(
    picker: SyncPickerView,
    inner: Rect,
    theme: Theme,
    i: int,
)
    requires
        picker.step is Preview,
        0 <= i,
    ensures
        ({
            let report = picker.step->Preview_report;
            let request = picker.step->Preview_request;
            let scene = picker.preview_scene(inner, theme);
            let n = report.status@.len() as int;
            &&& scene.len() == 3
            &&& scene[0] == shown(
                row_in(inner, 0, 1),
                seq![
                    seq![
                        plain_run(
                            request.mode.name()@ + " · "@ + numeral(n) + " local change"@ + (
                            if n == 1 {
                                ""@
                            } else {
                                "s"@
                            }),
                        ),
                    ],
                ],
                if n == 0 {
                    theme.ok()
                } else {
                    theme.warn()
                },
            )
            &&& n == 0 ==> status_rows(report.status@, inner.width as int) == seq![
                seq![plain_run("  Working tree is clean"@)],
            ]
            &&& n > 0 ==> status_rows(report.status@, inner.width as int).len() == n
            &&& i < n ==> status_rows(report.status@, inner.width as int)[i] == seq![
                plain_run("  "@ + fitted(report.status@[i]@, monus(inner.width as int, 4))),
            ]
        }),
{
}

/// Each row of the first page shows what it does.
pub proof fn lemma_rows_show_what_they_do(configured: bool, theme: Theme, i: int)
    requires
        0 <= i < offered(configured).len(),
    ensures
        choice_rows(configured, theme).len() == offered(configured).len(),
        choice_rows(configured, theme)[i] == seq![
            plain_run("  "@ + choice_label(offered(configured)[i], configured).0),
            run("  "@ + choice_label(offered(configured)[i], configured).1, theme.description()),
        ],
{
}

/// The title says which page is shown.
pub proof fn lemma_the_title_of_a_page(picker: SyncPickerView)
    ensures
        picker.step is Overview ==> picker.title() == " Root backup "@,
        picker.step is Configure ==> picker.title() == " Root backup · configure "@,
        picker.step is Preview ==> picker.title() == " Root backup · review "@,
        picker.step is Disable ==> picker.title() == " Root backup · turn off automatic sync "@,
{
}

/// The first page shows where the backup is, or that there is none yet.
pub proof fn lemma_where_the_backup_is(picker: SyncPickerView, inner: Rect)
    ensures
        picker.settings.url is Some && picker.settings.branch is Some ==> picker.details(inner)
            == seq![
            seq![
                plain_run(
                    "Remote  "@ + fitted(
                        picker.settings.url->0@,
                        monus(inner.width as int, 10),
                    ),
                ),
            ],
            seq![plain_run("Branch  "@ + picker.settings.branch->0@)],
        ],
        picker.settings.url is None || picker.settings.branch is None ==> picker.details(inner)
            == seq![
            seq![
                plain_run("Set a remote repository and branch to back up this skills root."@),
            ],
        ],
{
}

/// The hints follow the page: only the first closes, and its letters are told where the
/// backup is set up.
pub proof fn lemma_the_hints_of_a_page(picker: SyncPickerView)
    ensures
        picker.step is Overview ==> picker.hint_list().last() == ("Esc", "close"),
        !(picker.step is Overview) ==> picker.hint_list().last() == ("Esc", "back"),
        picker.step is Configure ==> picker.hint_list()[0] == ("Tab", "next field")
            && picker.hint_list()[1] == ("Enter", "continue"),
        picker.step is Overview && picker.settings.url is Some && picker.settings.branch is Some
            ==> picker.hint_list()[1] == ("Enter", "open") && picker.hint_list()[2] == (
            "s/p/P",
            "sync / push / pull",
        ),
        picker.step is Overview && (picker.settings.url is None || picker.settings.branch is None)
            ==> picker.hint_list()[1] == ("Enter", "set up"),
        picker.step is Preview || picker.step is Disable ==> picker.hint_list()[0] == (
            "Tab",
            "buttons",
        ) && picker.hint_list()[1] == ("Enter", "choose"),
{
}

/// What is said beside a choice of the first page.
pub proof fn lemma_what_is_said_of_a_choice(configured: bool)
    ensures
        choice_label(OverviewAction::Sync(Mode::Sync), configured) == (
            "Sync now"@,
            "recommended"@,
        ),
        choice_label(OverviewAction::Sync(Mode::Push), configured) == (
            "Push local changes only"@,
            "advanced"@,
        ),
        choice_label(OverviewAction::Sync(Mode::Pull), configured) == (
            "Pull remote changes only"@,
            "advanced"@,
        ),
        choice_label(OverviewAction::Disable, configured) == (
            "Turn off automatic sync"@,
            "keeps Git history"@,
        ),
        choice_label(OverviewAction::Configure, true) == ("Configure backup"@, "settings"@),
        choice_label(OverviewAction::Configure, false) == ("Set up backup"@, "recommended"@),
{
}

/// A press on a button does what the button does, a press beside the dialog goes back, and
/// the wheel moves by three rows; only a press on a button can ask for anything, or a second
/// one on a row of the first page.
pub proof fn lemma_mouse_of_the_backup(picker: SyncPickerView, event: MouseEvent)
    ensures
        ({
            let x = event.column as int;
            let y = event.row as int;
            let after = picker.moused(event);
            let inside = picker.rect.has(x, y);
            &&& event.kind == MouseKind::Down && inside && picker.apply.has(x, y) ==> after
                == picker.applied()
            &&& event.kind == MouseKind::Down && (!inside || (picker.cancel.has(x, y)
                && !picker.apply.has(x, y))) ==> after == picker.backed()
            &&& event.kind == MouseKind::ScrollDown ==> after.1 is Nothing && after.0.list.selected
                == moved(picker.list.selected, 3, picker.rows())
            &&& event.kind == MouseKind::ScrollUp ==> after.1 is Nothing && after.0.list.selected
                == moved(picker.list.selected, -3, picker.rows())
            &&& event.kind == MouseKind::Down && inside && !picker.apply.has(x, y)
                && !picker.cancel.has(x, y) && !(event.repeated && picker.step is Overview)
                ==> after.1 is Nothing
            &&& event.kind != MouseKind::Down ==> after.0.step == picker.step
        }),
{
}

/// A press on a field of the settings puts the cursor there, and on a row of another page
/// selects it; pressed twice, a row of the first page is opened.
pub proof fn lemma_presses_inside_the_backup(picker: SyncPickerView, event: MouseEvent, at: usize)
    requires
        event.kind == MouseKind::Down,
        picker.rect.has(event.column as int, event.row as int),
        !picker.apply.has(event.column as int, event.row as int),
        !picker.cancel.has(event.column as int, event.row as int),
    ensures
        ({
            let x = event.column as int;
            let y = event.row as int;
            let after = picker.moused(event);
            &&& picker.step is Configure && picker.url_field.has(x, y) ==> {
                &&& after.0.step is Configure
                &&& !after.0.step->Configure_second
                &&& after.0.step->Configure_url == picker.step->Configure_url.clicked(x)
                &&& after.0.step->Configure_branch == picker.step->Configure_branch
                &&& after.0.focus == ChoiceFocus::List
            }
            &&& picker.step is Configure && !picker.url_field.has(x, y) && picker.branch_field.has(
                x,
                y,
            ) ==> {
                &&& after.0.step is Configure
                &&& after.0.step->Configure_second
                &&& after.0.step->Configure_branch == picker.step->Configure_branch.clicked(x)
                &&& after.0.step->Configure_url == picker.step->Configure_url
                &&& after.0.focus == ChoiceFocus::List
            }
            &&& !(picker.step is Configure) && picker.list.hit(y, picker.rows()) == Some(at) && !(
            event.repeated && picker.step is Overview) ==> {
                &&& after.0.list.selected == Some(at)
                &&& after.0.focus == ChoiceFocus::List
                &&& after.0.step == picker.step
                &&& after.1 is Nothing
            }
            &&& picker.step is Overview && picker.list.hit(y, picker.rows()) == Some(at)
                && event.repeated ==> after == (SyncPickerView {
                focus: ChoiceFocus::List,
                list: ListNav { selected: Some(at), ..picker.list },
                ..picker
            }).activated()
        }),
{
}

/// A paste goes to the field that is edited, and to nothing else.
pub proof fn lemma_a_paste_goes_to_its_field(picker: SyncPickerView, text: Seq<char>)
    ensures
        !(picker.step is Configure) ==> picker.pasted(text).0 == picker && picker.pasted(text).1
            is Nothing,
        picker.step is Configure && is_multiline(text) ==> picker.pasted(text).0 == picker
            && picker.pasted(text).1 == SyncReply::Complain("Paste a single line"@),
        picker.step is Configure && !is_multiline(text) && picker.step->Configure_second ==> {
            let after = picker.pasted(text).0.step;
            &&& after->Configure_branch == picker.step->Configure_branch.with_pasted(text)
            &&& after->Configure_url == picker.step->Configure_url
        },
        picker.step is Configure && !is_multiline(text) && !picker.step->Configure_second ==> {
            let after = picker.pasted(text).0.step;
            &&& after->Configure_url == picker.step->Configure_url.with_pasted(text)
            &&& after->Configure_branch == picker.step->Configure_branch
        },
{
}

/// The buttons of a page, and its fields, can be pressed where they are drawn; drawing keeps
/// the page, its texts and its focus.
pub proof fn lemma_the_backup_is_pressed_where_it_is_drawn(
    picker: SyncPickerView,
    area: Rect,
    theme: Theme,
)
    requires
        !picker.cramped(picker.area_in(area).inside()),
    ensures
        ({
            let after = picker.placed(area);
            let scene = picker.scene(area, theme);
            let n = scene.len() as int;
            &&& n >= 5
            &&& scene[1] == framed(after.rect, picker.title())
            &&& scene[n - 2] is Text
            &&& scene[n - 2]->Text_rect == after.apply
            &&& scene[n - 2]->Text_lines[0][0].content == "[ "@ + picker.apply_label() + " ]"@
            &&& scene[n - 1] is Text
            &&& scene[n - 1]->Text_rect == after.cancel
            &&& scene[n - 1]->Text_lines[0][0].content == "[ "@ + picker.cancel_label() + " ]"@
            &&& picker.step is Configure ==> {
                &&& scene[4] is Field
                &&& scene[4]->Field_rect == after.url_field
                &&& scene[4]->Field_value == picker.step->Configure_url.text
                &&& scene[6] is Field
                &&& scene[6]->Field_rect == after.branch_field
                &&& scene[6]->Field_value == picker.step->Configure_branch.text
                &&& scene[4]->Field_focused == (picker.focus == ChoiceFocus::List
                    && !picker.step->Configure_second)
                &&& scene[6]->Field_focused == (picker.focus == ChoiceFocus::List
                    && picker.step->Configure_second)
                &&& after.step->Configure_url.text == picker.step->Configure_url.text
                &&& after.step->Configure_branch.text == picker.step->Configure_branch.text
            }
            &&& !(picker.step is Configure) ==> after.step == picker.step
            &&& after.focus == picker.focus
            &&& after.settings == picker.settings
        }),
{
    let inner = picker.area_in(area).inside();
    let page = picker.page_scene(inner, theme);
    let border = seq![
        DrawView::Clear(picker.area_in(area)),
        framed(picker.area_in(area), picker.title()),
    ];
    let scene = picker.scene(area, theme);
    let n = scene.len() as int;
    let foot = footer_scene(
        picker.foot(inner),
        picker.focus,
        picker.ready(),
        picker.foot_note(),
        picker.apply_label(),
        picker.cancel_label(),
        theme,
    );
    assert(scene[n - 2] == foot[1]);
    assert(scene[n - 1] == foot[2]);
    if picker.step is Configure {
        assert(scene[4] == page[2]);
        assert(scene[6] == page[4]);
    }
}

/// How large each page of the backup is drawn, and what it takes to draw it at all.
pub proof fn lemma_how_large_a_page_is(picker: SyncPickerView, area: Rect)
    requires
        area.in_range(),
        area.width >= 84,
        area.height >= 23,
    ensures
        picker.area_in(area).width == 82,
        picker.step is Overview || picker.step is Preview ==> picker.area_in(area).height == 21,
        picker.step is Configure ==> picker.area_in(area).height == 17,
        picker.step is Disable ==> picker.area_in(area).height == 13,
        !picker.cramped(picker.area_in(area).inside()),
{
}

/// What does not fit is not drawn: each page needs its rows, and all of them their columns.
pub proof fn lemma_what_a_page_needs(picker: SyncPickerView, inner: Rect)
    ensures
        picker.cramped(inner) <==> inner.width < 26 || (picker.step is Configure && inner.height
            < 13) || ((picker.step is Preview || picker.step is Overview) && inner.height < 8) || (
        picker.step is Disable && inner.height < 7),
{
}

/// The two fields of the settings know where they are drawn, on rows of their own.
pub proof fn lemma_where_the_settings_are(picker: SyncPickerView, area: Rect)
    requires
        picker.step is Configure,
        !picker.cramped(picker.area_in(area).inside()),
        area.in_range(),
    ensures
        ({
            let after = picker.placed(area);
            let inner = after.rect.inside();
            &&& after.step is Configure
            &&& after.step->Configure_url.field == after.url_field
            &&& after.step->Configure_branch.field == after.branch_field
            &&& after.url_field.y == inner.y + 3
            &&& after.branch_field.y == inner.y + 6
            &&& after.url_field.height == 1
            &&& after.branch_field.height == 1
            &&& after.url_field.x == inner.x + 1
            &&& after.url_field.width == inner.width - 2
        }),
{
    crate::widgets::lemma_middle_within(area, 82, picker.full_height());
}

} // verus!
