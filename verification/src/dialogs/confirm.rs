//! Questions before something is changed.

use crate::app::{nothing, only, Action, Hint, Step};
use crate::dialogs::message::{scroll_by_wheel, wheeled};
use crate::geometry::{clamp16, min16, monus, plus16, spec_min, Rect};
use crate::keymap::{KeyCode, KeyEvent, MouseEvent, MouseKind};
use crate::measure::{display_width, width};
use crate::model::{Intent, MutationScope, PlannedLink, Write};
use crate::text::{cat3, cat4, decimal, has_prefix, numeral, starts_with, texts, trim, trimmed};
use crate::theme::Theme;
use crate::ui::{
    button, button_run, contents, count_wrapped, flowing, framed, plain_run, run, shown,
    wrapped_rows, DrawView, Line, Lines, Scene, Span, SpanView, Style, Wrap,
};
use crate::widgets::{centered, middle_of};
use vstd::prelude::*;

verus! {

// ---- buttons -----------------------------------------------------------------

/// The label of a button, with a number where there is one.
pub open spec fn counted(label: Seq<char>, n: int) -> Seq<char> {
    if n > 0 {
        label + " ("@ + numeral(n) + ")"@
    } else {
        label
    }
}

fn with_count(label: &str, n: usize) -> (r: String)
    ensures
        r@ == counted(label@, n as int),
{
    if n > 0 {
        cat4(label, " (", decimal(n).as_str(), ")")
    } else {
        label.to_owned()
    }
}

/// The columns of a button.
pub open spec fn button_width(label: Seq<char>) -> int {
    plus16(spec_min(display_width(label) as int, 65535), 4)
}

/// The columns of two buttons with a gap between them.
pub open spec fn row_width(first: Seq<char>, second: Seq<char>) -> int {
    plus16(plus16(button_width(first), button_width(second)), 2)
}

/// Where the row of buttons begins: at the right end of the last row.
pub open spec fn row_start(inner: Rect, first: Seq<char>, second: Seq<char>) -> int {
    monus(inner.end_x(), plus16(row_width(first, second), 1))
}

/// Where two buttons are.
pub open spec fn first_button(inner: Rect, first: Seq<char>, second: Seq<char>) -> Rect {
    Rect::at(
        row_start(inner, first, second),
        monus(inner.end_y(), 1),
        button_width(first),
        1,
    )
}

pub open spec fn second_button(inner: Rect, first: Seq<char>, second: Seq<char>) -> Rect {
    Rect::at(
        plus16(plus16(row_start(inner, first, second), button_width(first)), 2),
        monus(inner.end_y(), 1),
        button_width(second),
        1,
    )
}

/// Two buttons in a line, of which one has the focus.
pub open spec fn buttons_line(
    first: Seq<char>,
    second: Seq<char>,
    on_second: bool,
    theme: Theme,
) -> Seq<SpanView> {
    seq![
        button_run(first, !on_second, theme.selected(), theme.accent()),
        plain_run("  "@),
        button_run(second, on_second, theme.selected(), theme.accent()),
        plain_run("  "@),
    ]
}

/// The drawing of two buttons.
pub open spec fn buttons_scene(
    inner: Rect,
    first: Seq<char>,
    second: Seq<char>,
    on_second: bool,
    theme: Theme,
) -> Seq<DrawView> {
    seq![
        shown(
            Rect::at(
                row_start(inner, first, second),
                monus(inner.end_y(), 1),
                plus16(row_width(first, second), 1),
                1,
            ),
            seq![buttons_line(first, second, on_second, theme)],
            Style::plain(),
        ),
    ]
}

/// Draws two buttons at the right end of the last row; says where they are.
pub fn draw_buttons(
    scene: &mut Scene,
    inner: Rect,
    first: &str,
    second: &str,
    on_second: bool,
    theme: &Theme,
) -> (r: (Rect, Rect))
    ensures
        r.0 == first_button(inner, first@, second@),
        r.1 == second_button(inner, first@, second@),
        final(scene)@ == old(scene)@ + buttons_scene(inner, first@, second@, on_second, *theme),
{
    let w1: u16 = clamp16(width(first)).saturating_add(4);
    let w2: u16 = clamp16(width(second)).saturating_add(4);
    let total: u16 = w1.saturating_add(w2).saturating_add(2).saturating_add(1);
    let y: u16 = inner.bottom().saturating_sub(1);
    let start: u16 = inner.right().saturating_sub(total);
    let mut line = Line::new();
    line.push(button(first, !on_second, theme.selected(), theme.accent()));
    line.push(Span::raw("  "));
    line.push(button(second, on_second, theme.selected(), theme.accent()));
    line.push(Span::raw("  "));
    assert(line@ =~= buttons_line(first@, second@, on_second, *theme));
    scene.line(Rect::new(start, y, total, 1), line, Style::plain());
    assert(scene@ =~= old(scene)@ + buttons_scene(inner, first@, second@, on_second, *theme));
    (
        Rect::new(start, y, w1, 1),
        Rect::new(start.saturating_add(w1).saturating_add(2), y, w2, 1),
    )
}

// ---- changes of links --------------------------------------------------------

/// Shows changes of links before they are made.
#[derive(Debug)]
pub struct Confirm {
    pub title: String,
    pub lines: Vec<String>,
    pub actions: Vec<PlannedLink>,
    /// Comes only once the changes were made, so that a confirmation that was cancelled or
    /// failed leaves the history where it was.
    pub step: Option<Step>,
    pub scroll: u16,
    /// The second button has the focus.
    pub on_cancel: bool,
    pub apply: Rect,
    pub cancel: Rect,
    pub rect: Rect,
}

pub ghost struct ConfirmView {
    pub title: Seq<char>,
    pub lines: Seq<Seq<char>>,
    pub actions: Seq<PlannedLink>,
    pub step: Option<Step>,
    pub scroll: u16,
    pub on_cancel: bool,
    pub apply: Rect,
    pub cancel: Rect,
    pub rect: Rect,
}

impl View for Confirm {
    type V = ConfirmView;

    open spec fn view(&self) -> ConfirmView {
        ConfirmView {
            title: self.title@,
            lines: texts(self.lines@),
            actions: self.actions@,
            step: self.step,
            scroll: self.scroll,
            on_cancel: self.on_cancel,
            apply: self.apply,
            cancel: self.cancel,
            rect: self.rect,
        }
    }
}

/// What the answer is.
pub ghost enum ConfirmReply {
    Nothing,
    Close,
    Run(Seq<PlannedLink>, Option<Step>),
}

impl ConfirmReply {
    pub open spec fn told(self, actions: Seq<Action>) -> bool {
        match self {
            ConfirmReply::Nothing => actions.len() == 0,
            ConfirmReply::Close => actions == seq![Action::CloseModal],
            ConfirmReply::Run(links, step) => actions.len() == 1 && (actions[0] matches Action::RunLinks {
                actions: a,
                step: s,
            } && a@ == links && s == step),
        }
    }
}

/// The style of a change, by its first word.
pub open spec fn action_style(line: Seq<char>, theme: Theme) -> Style {
    if has_prefix(line, "link"@) {
        theme.ok()
    } else if has_prefix(line, "unlink"@) {
        theme.warn()
    } else if has_prefix(line, "skip"@) {
        theme.dim()
    } else {
        theme.accent()
    }
}

pub fn action_line(line: &str, theme: &Theme) -> (r: Line)
    ensures
        r@ == seq![run(line@, action_style(line@, *theme))],
{
    let style = if starts_with(line, "link") {
        theme.ok()
    } else if starts_with(line, "unlink") {
        theme.warn()
    } else if starts_with(line, "skip") {
        theme.dim()
    } else {
        theme.accent()
    };
    Line::styled(line, style)
}

pub open spec fn action_views(lines: Seq<Seq<char>>, theme: Theme) -> Seq<Seq<SpanView>> {
    lines.map_values(|line: Seq<char>| seq![run(line, action_style(line, theme))])
}

fn action_lines(lines: &Vec<String>, theme: &Theme) -> (r: Lines)
    ensures
        r@ == action_views(texts(lines@), *theme),
{
    let ghost all = action_views(texts(lines@), *theme);
    let mut out = Lines::new();
    let mut i: usize = 0;
    while i < lines.len()
        invariant
            i <= lines.len(),
            all == action_views(texts(lines@), *theme),
            out@ == all.take(i as int),
        decreases lines.len() - i,
    {
        let line = action_line(lines[i].as_str(), theme);
        assert(line@ =~= all[i as int]);
        out.push(line);
        i = i + 1;
        assert(out@ =~= all.take(i as int));
    }
    assert(out@ =~= all);
    out
}

/// How many of the lines tell of a change.
pub open spec fn change_count(lines: Seq<Seq<char>>) -> int
    decreases lines.len(),
{
    if lines.len() == 0 {
        0
    } else {
        change_count(lines.drop_last()) + if has_prefix(lines.last(), "skip"@) {
            0int
        } else {
            1int
        }
    }
}

fn count_changes(lines: &Vec<String>) -> (r: usize)
    ensures
        r == change_count(texts(lines@)),
{
    let ghost all = texts(lines@);
    let mut count: usize = 0;
    let mut i: usize = 0;
    assert(all.take(0) =~= Seq::empty());
    while i < lines.len()
        invariant
            i <= lines.len(),
            count <= i,
            all == texts(lines@),
            count == change_count(all.take(i as int)),
        decreases lines.len() - i,
    {
        assert(all.take(i + 1).drop_last() =~= all.take(i as int));
        assert(all.take(i + 1).last() == lines@[i as int]@);
        if !starts_with(lines[i].as_str(), "skip") {
            count = count + 1;
        }
        i = i + 1;
    }
    assert(all.take(i as int) =~= all);
    count
}

/// The key moves the focus to the other button.
pub open spec fn switches(code: KeyCode) -> bool {
    code == KeyCode::Left || code == KeyCode::Right || code == KeyCode::Char('h') || code
        == KeyCode::Char('l')
}

/// The key refuses.
pub open spec fn refuses(code: KeyCode) -> bool {
    code == KeyCode::Char('n') || code == KeyCode::Esc || code == KeyCode::Char('q')
}

fn is_switch(code: KeyCode) -> (r: bool)
    ensures
        r == switches(code),
{
    code == KeyCode::Left || code == KeyCode::Right || code == KeyCode::Char('h') || code
        == KeyCode::Char('l')
}

fn is_refusal(code: KeyCode) -> (r: bool)
    ensures
        r == refuses(code),
{
    code == KeyCode::Char('n') || code == KeyCode::Esc || code == KeyCode::Char('q')
}

/// The keys that a question tells of.
pub open spec fn question_hints(on_cancel: bool) -> Seq<Hint> {
    if on_cancel {
        seq![("Enter/Esc/n", "cancel"), ("y", "apply"), ("←→", "buttons")]
    } else {
        seq![("Enter/y", "apply"), ("Esc/n", "cancel"), ("←→", "buttons")]
    }
}

pub fn hints_for(on_cancel: bool) -> (r: Vec<Hint>)
    ensures
        r@ == question_hints(on_cancel),
{
    if on_cancel {
        vec![("Enter/Esc/n", "cancel"), ("y", "apply"), ("←→", "buttons")]
    } else {
        vec![("Enter/y", "apply"), ("Esc/n", "cancel"), ("←→", "buttons")]
    }
}

impl ConfirmView {
    /// The changes are made. They leave the dialog: they are not made twice.
    pub open spec fn applied(self) -> (ConfirmView, ConfirmReply) {
        (
            ConfirmView { actions: Seq::empty(), step: None, ..self },
            ConfirmReply::Run(self.actions, self.step),
        )
    }

    /// What a key does; one that is held with a command modifier does nothing.
    pub open spec fn keyed(self, key: KeyEvent) -> (ConfirmView, ConfirmReply) {
        let code = key.code;
        if key.modifiers.commands() {
            (self, ConfirmReply::Nothing)
        } else if code == KeyCode::Char('y') {
            self.applied()
        } else if code == KeyCode::Enter {
            if self.on_cancel {
                (self, ConfirmReply::Close)
            } else {
                self.applied()
            }
        } else if refuses(code) {
            (self, ConfirmReply::Close)
        } else if switches(code) {
            (ConfirmView { on_cancel: !self.on_cancel, ..self }, ConfirmReply::Nothing)
        } else if code == KeyCode::Down || code == KeyCode::Char('j') {
            (
                ConfirmView { scroll: plus16(self.scroll as int, 1) as u16, ..self },
                ConfirmReply::Nothing,
            )
        } else if code == KeyCode::Up || code == KeyCode::Char('k') {
            (
                ConfirmView { scroll: monus(self.scroll as int, 1) as u16, ..self },
                ConfirmReply::Nothing,
            )
        } else {
            (self, ConfirmReply::Nothing)
        }
    }

    /// What the mouse does.
    pub open spec fn moused(self, event: MouseEvent) -> (ConfirmView, ConfirmReply) {
        let x = event.column as int;
        let y = event.row as int;
        if event.kind == MouseKind::Down {
            if self.apply.has(x, y) {
                self.applied()
            } else if self.cancel.has(x, y) || !self.rect.has(x, y) {
                (self, ConfirmReply::Close)
            } else {
                (self, ConfirmReply::Nothing)
            }
        } else {
            (
                ConfirmView { scroll: wheeled(self.scroll, event.kind), ..self },
                ConfirmReply::Nothing,
            )
        }
    }

    pub open spec fn rect_in(self, area: Rect) -> Rect {
        middle_of(
            area,
            96,
            spec_min(
                plus16(spec_min(self.lines.len() as int, 65535), 5),
                monus(area.height as int, 2),
            ),
        )
    }

    pub open spec fn apply_label(self) -> Seq<char> {
        counted("Apply"@, change_count(self.lines))
    }

    pub open spec fn placed(self, area: Rect) -> ConfirmView {
        let rect = self.rect_in(area);
        let inner = rect.inside();
        ConfirmView {
            rect,
            apply: first_button(inner, self.apply_label(), "Cancel"@),
            cancel: second_button(inner, self.apply_label(), "Cancel"@),
            ..self
        }
    }

    pub open spec fn scene(self, area: Rect, theme: Theme) -> Seq<DrawView> {
        let rect = self.rect_in(area);
        let inner = rect.inside();
        seq![
            DrawView::Clear(rect),
            framed(rect, " "@ + trimmed(self.title) + " "@),
            flowing(
                Rect { height: monus(inner.height as int, 2) as u16, ..inner },
                action_views(self.lines, theme),
                Style::plain(),
                Wrap::Cut,
                self.scroll,
            ),
        ] + buttons_scene(inner, self.apply_label(), "Cancel"@, self.on_cancel, theme)
    }
}

impl Confirm {
    pub fn new(title: String, lines: Vec<String>, actions: Vec<PlannedLink>, step: Option<Step>) -> (r:
        Confirm)
        ensures
            r@ == (ConfirmView {
                title: title@,
                lines: texts(lines@),
                actions: actions@,
                step,
                scroll: 0,
                on_cancel: false,
                apply: Rect::zero(),
                cancel: Rect::zero(),
                rect: Rect::zero(),
            }),
    {
        Confirm {
            title,
            lines,
            actions,
            step,
            scroll: 0,
            on_cancel: false,
            apply: Rect::zero(),
            cancel: Rect::zero(),
            rect: Rect::zero(),
        }
    }

    fn run(&mut self) -> (r: Vec<Action>)
        ensures
            final(self)@ == old(self)@.applied().0,
            old(self)@.applied().1.told(r@),
    {
        let mut actions: Vec<PlannedLink> = Vec::new();
        std::mem::swap(&mut actions, &mut self.actions);
        assert(self.actions@ =~= Seq::empty());
        let step = self.step;
        self.step = None;
        only(Action::RunLinks { actions, step })
    }

    pub fn key(&mut self, key: KeyEvent) -> (r: Vec<Action>)
        ensures
            final(self)@ == old(self)@.keyed(key).0,
            old(self)@.keyed(key).1.told(r@),
    {
        let code = key.code;
        if !crate::keymap::plain(key) {
            return nothing();
        }
        if code == KeyCode::Char('y') || (code == KeyCode::Enter && !self.on_cancel) {
            return self.run();
        }
        // To cancel is no event: the dialog goes and nothing is said.
        if code == KeyCode::Enter || is_refusal(code) {
            return only(Action::CloseModal);
        }
        if is_switch(code) {
            self.on_cancel = !self.on_cancel;
        } else if code == KeyCode::Down || code == KeyCode::Char('j') {
            self.scroll = self.scroll.saturating_add(1);
        } else if code == KeyCode::Up || code == KeyCode::Char('k') {
            self.scroll = self.scroll.saturating_sub(1);
        }
        nothing()
    }

    pub fn mouse(&mut self, event: MouseEvent) -> (r: Vec<Action>)
        ensures
            final(self)@ == old(self)@.moused(event).0,
            old(self)@.moused(event).1.told(r@),
    {
        let (x, y): (u16, u16) = (event.column, event.row);
        if event.kind == MouseKind::Down {
            if self.apply.contains(x, y) {
                return self.run();
            }
            if self.cancel.contains(x, y) || !self.rect.contains(x, y) {
                return only(Action::CloseModal);
            }
            return nothing();
        }
        self.scroll = scroll_by_wheel(self.scroll, event.kind);
        nothing()
    }

    pub fn draw(&mut self, area: Rect, theme: &Theme) -> (r: Scene)
        requires
            area.in_range(),
        ensures
            final(self)@ == old(self)@.placed(area),
            r@ == old(self)@.scene(area, *theme),
    {
        let height: u16 = min16(
            clamp16(self.lines.len()).saturating_add(5),
            area.height.saturating_sub(2),
        );
        assert(texts(self.lines@).len() == self.lines@.len());
        let rect = centered(area, 96, height);
        let inner = rect.inner();
        let title = cat3(" ", trim(self.title.as_str()).as_str(), " ");
        let apply = with_count("Apply", count_changes(&self.lines));
        let mut scene = Scene::new();
        scene.clear(rect);
        scene.frame(rect, title.as_str());
        let lines = action_lines(&self.lines, theme);
        scene.flow(
            Rect::new(inner.x, inner.y, inner.width, inner.height.saturating_sub(2)),
            lines,
            Style::plain(),
            Wrap::Cut,
            self.scroll,
        );
        let buttons = draw_buttons(
            &mut scene,
            inner,
            apply.as_str(),
            "Cancel",
            self.on_cancel,
            theme,
        );
        self.rect = rect;
        self.apply = buttons.0;
        self.cancel = buttons.1;
        scene
    }
}

/// What is done once confirmed changes were made, or failed.
pub open spec fn links_told(
    result: Result<(), String>,
    summary: String,
    step: Option<Step>,
    intent: Option<Intent>,
) -> Seq<Action> {
    match result {
        Ok(_) => {
            let told = seq![Action::CloseModal, Action::Toast(summary), Action::Rescan];
            match step {
                Some(step) => told.push(Action::Step(step)),
                None => match intent {
                    Some(intent) => told.push(Action::Record(intent)),
                    None => told,
                },
            }
        },
        Err(error) => seq![Action::CloseModal, Action::Error(error), Action::Rescan],
    }
}

/// What follows the changes that were confirmed, given what they came to: how they are
/// told, and what is recorded of them. Nothing is recorded before they are made.
pub fn links_applied(
    result: Result<(), String>,
    summary: String,
    step: Option<Step>,
    intent: Option<Intent>,
) -> (r: Vec<Action>)
    ensures
        r@ == links_told(result, summary, step, intent),
{
    let mut out: Vec<Action> = Vec::new();
    out.push(Action::CloseModal);
    match result {
        Ok(_) => {
            out.push(Action::Toast(summary));
            out.push(Action::Rescan);
            match step {
                Some(step) => out.push(Action::Step(step)),
                None => match intent {
                    Some(intent) => out.push(Action::Record(intent)),
                    None => {},
                },
            }
        },
        Err(error) => {
            out.push(Action::Error(error));
            out.push(Action::Rescan);
        },
    }
    out
}

// ---- writes ------------------------------------------------------------------

/// Asks before something is written.
#[derive(Debug)]
pub struct ConfirmWrite {
    pub title: String,
    pub lines: Vec<String>,
    /// What is written; nothing once it was.
    pub write: Option<Write>,
    /// The skills that it is about, where it runs beside the interface.
    pub background: Option<Vec<String>>,
    pub scope: MutationScope,
    /// The step of the history that this is.
    pub step: Option<Step>,
    pub on_cancel: bool,
    pub apply: Rect,
    pub cancel: Rect,
    pub rect: Rect,
}

pub ghost struct ConfirmWriteView {
    pub title: Seq<char>,
    pub lines: Seq<Seq<char>>,
    pub write: Option<Write>,
    pub background: Option<Vec<String>>,
    pub scope: MutationScope,
    pub step: Option<Step>,
    pub on_cancel: bool,
    pub apply: Rect,
    pub cancel: Rect,
    pub rect: Rect,
}

impl View for ConfirmWrite {
    type V = ConfirmWriteView;

    open spec fn view(&self) -> ConfirmWriteView {
        ConfirmWriteView {
            title: self.title@,
            lines: texts(self.lines@),
            write: self.write,
            background: self.background,
            scope: self.scope,
            step: self.step,
            on_cancel: self.on_cancel,
            apply: self.apply,
            cancel: self.cancel,
            rect: self.rect,
        }
    }
}

/// A write that was confirmed. It runs beside the interface only where it is no step of the
/// history.
pub open spec fn is_write(
    action: Action,
    write: Write,
    step: Option<Step>,
    background: Option<Vec<String>>,
    title: Seq<char>,
) -> bool {
    if background is Some && step is None {
        action matches Action::BackgroundWrite { title: t, write: w, keys } && t@ == title && w
            == write && keys == background->0
    } else {
        action == Action::WriteMeta(write)
    }
}

/// The actions of a write that was confirmed: the dialog closes, the write is made as the
/// scope says, and the history moves once it went through.
pub open spec fn writes(
    actions: Seq<Action>,
    write: Write,
    step: Option<Step>,
    background: Option<Vec<String>>,
    title: Seq<char>,
    scope: MutationScope,
) -> bool {
    &&& actions.len() == if step is Some {
        3
    } else {
        2nat
    }
    &&& actions[0] == Action::CloseModal
    &&& if scope == MutationScope::Deployment {
        actions[1] matches Action::Deployment(inner) && is_write(
            *inner,
            write,
            step,
            background,
            title,
        )
    } else {
        is_write(actions[1], write, step, background, title)
    }
    &&& step is Some ==> actions[2] == Action::Step(step->0)
}

/// A confirmed write, and the move of the history that belongs to it.
pub fn write_actions(
    write: Write,
    step: Option<Step>,
    background: Option<Vec<String>>,
    title: &str,
    scope: MutationScope,
) -> (r: Vec<Action>)
    ensures
        writes(r@, write, step, background, title@, scope),
{
    let action = match background {
        Some(keys) => if step.is_none() {
            Action::BackgroundWrite { title: title.to_owned(), write, keys }
        } else {
            Action::WriteMeta(write)
        },
        None => Action::WriteMeta(write),
    };
    let mut out: Vec<Action> = Vec::new();
    out.push(Action::CloseModal);
    if scope == MutationScope::Deployment {
        out.push(Action::deployment(action));
    } else {
        out.push(action);
    }
    match step {
        Some(step) => out.push(Action::Step(step)),
        None => {},
    }
    out
}

/// What the answer is.
pub ghost enum WriteReply {
    Nothing,
    Close,
    Run {
        write: Write,
        step: Option<Step>,
        background: Option<Vec<String>>,
        title: Seq<char>,
        scope: MutationScope,
    },
}

impl WriteReply {
    pub open spec fn told(self, actions: Seq<Action>) -> bool {
        match self {
            WriteReply::Nothing => actions.len() == 0,
            WriteReply::Close => actions == seq![Action::CloseModal],
            WriteReply::Run { write, step, background, title, scope } => writes(
                actions,
                write,
                step,
                background,
                title,
                scope,
            ),
        }
    }
}

/// Lines of plain text.
pub open spec fn plain_views(lines: Seq<Seq<char>>) -> Seq<Seq<SpanView>> {
    lines.map_values(|line: Seq<char>| seq![plain_run(line)])
}

pub fn plain_lines(lines: &Vec<String>) -> (r: Lines)
    ensures
        r@ == plain_views(texts(lines@)),
{
    let ghost all = plain_views(texts(lines@));
    let mut out = Lines::new();
    let mut i: usize = 0;
    while i < lines.len()
        invariant
            i <= lines.len(),
            all == plain_views(texts(lines@)),
            out@ == all.take(i as int),
        decreases lines.len() - i,
    {
        let line = Line::raw(lines[i].as_str());
        assert(line@ =~= all[i as int]);
        out.push(line);
        i = i + 1;
        assert(out@ =~= all.take(i as int));
    }
    assert(out@ =~= all);
    out
}

impl ConfirmWriteView {
    /// The write is made, once.
    pub open spec fn applied(self) -> (ConfirmWriteView, WriteReply) {
        match self.write {
            Some(write) => (
                ConfirmWriteView { write: None, step: None, background: None, ..self },
                WriteReply::Run {
                    write,
                    step: self.step,
                    background: self.background,
                    title: self.title,
                    scope: self.scope,
                },
            ),
            None => (self, WriteReply::Nothing),
        }
    }

    /// What a key does; one that is held with a command modifier does nothing.
    pub open spec fn keyed(self, key: KeyEvent) -> (ConfirmWriteView, WriteReply) {
        let code = key.code;
        if key.modifiers.commands() {
            (self, WriteReply::Nothing)
        } else if code == KeyCode::Char('y') {
            self.applied()
        } else if code == KeyCode::Enter {
            if self.on_cancel {
                (self, WriteReply::Close)
            } else {
                self.applied()
            }
        } else if refuses(code) {
            (self, WriteReply::Close)
        } else if switches(code) {
            (ConfirmWriteView { on_cancel: !self.on_cancel, ..self }, WriteReply::Nothing)
        } else {
            (self, WriteReply::Nothing)
        }
    }

    /// What the mouse does.
    pub open spec fn moused(self, event: MouseEvent) -> (ConfirmWriteView, WriteReply) {
        let x = event.column as int;
        let y = event.row as int;
        if event.kind == MouseKind::Down {
            if self.apply.has(x, y) {
                self.applied()
            } else if self.cancel.has(x, y) || !self.rect.has(x, y) {
                (self, WriteReply::Close)
            } else {
                (self, WriteReply::Nothing)
            }
        } else {
            (self, WriteReply::Nothing)
        }
    }

    pub open spec fn rect_in(self, area: Rect) -> Rect {
        let wide = monus(middle_of(area, 70, 5).width as int, 2) as u16;
        let rows = wrapped_rows(contents(plain_views(self.lines)), wide) as int;
        middle_of(area, 70, plus16(spec_min(rows, 65535), 4))
    }

    pub open spec fn placed(self, area: Rect) -> ConfirmWriteView {
        let rect = self.rect_in(area);
        ConfirmWriteView {
            rect,
            apply: first_button(rect.inside(), "Yes"@, "Cancel"@),
            cancel: second_button(rect.inside(), "Yes"@, "Cancel"@),
            ..self
        }
    }

    pub open spec fn scene(self, area: Rect, theme: Theme) -> Seq<DrawView> {
        let rect = self.rect_in(area);
        let inner = rect.inside();
        seq![
            DrawView::Clear(rect),
            framed(rect, " "@ + trimmed(self.title) + " "@),
            flowing(
                Rect { height: monus(inner.height as int, 2) as u16, ..inner },
                plain_views(self.lines),
                Style::plain(),
                Wrap::Words,
                0,
            ),
        ] + buttons_scene(inner, "Yes"@, "Cancel"@, self.on_cancel, theme)
    }
}

impl ConfirmWrite {
    /// A question that starts on its second button: a second Enter cannot delete anything.
    pub fn new(title: String, lines: Vec<String>, write: Write) -> (r: ConfirmWrite)
        ensures
            r@ == (ConfirmWriteView {
                title: title@,
                lines: texts(lines@),
                write: Some(write),
                background: None,
                scope: MutationScope::Library,
                step: None,
                on_cancel: true,
                apply: Rect::zero(),
                cancel: Rect::zero(),
                rect: Rect::zero(),
            }),
    {
        ConfirmWrite {
            title,
            lines,
            write: Some(write),
            background: None,
            scope: MutationScope::Library,
            step: None,
            on_cancel: true,
            apply: Rect::zero(),
            cancel: Rect::zero(),
            rect: Rect::zero(),
        }
    }

    /// The write is to run beside the interface.
    pub fn in_background(self, keys: Vec<String>) -> (r: ConfirmWrite)
        ensures
            r@ == (ConfirmWriteView { background: Some(keys), ..self@ }),
    {
        let mut this = self;
        this.background = Some(keys);
        this
    }

    /// The write changes agents only.
    pub fn deployment_only(self) -> (r: ConfirmWrite)
        ensures
            r@ == (ConfirmWriteView { scope: MutationScope::Deployment, ..self@ }),
    {
        let mut this = self;
        this.scope = MutationScope::Deployment;
        this
    }

    /// The write is a step of the history. It starts on its first button: the step was asked
    /// for a moment ago, and Enter does what was asked.
    pub fn with_step(self, step: Step) -> (r: ConfirmWrite)
        ensures
            r@ == (ConfirmWriteView { step: Some(step), on_cancel: false, ..self@ }),
    {
        let mut this = self;
        this.step = Some(step);
        this.on_cancel = false;
        this
    }

    fn run(&mut self) -> (r: Vec<Action>)
        ensures
            final(self)@ == old(self)@.applied().0,
            old(self)@.applied().1.told(r@),
    {
        match self.write.take() {
            Some(write) => {
                let step = self.step;
                self.step = None;
                let background = self.background.take();
                write_actions(write, step, background, self.title.as_str(), self.scope)
            },
            None => nothing(),
        }
    }

    pub fn key(&mut self, key: KeyEvent) -> (r: Vec<Action>)
        ensures
            final(self)@ == old(self)@.keyed(key).0,
            old(self)@.keyed(key).1.told(r@),
    {
        let code = key.code;
        if !crate::keymap::plain(key) {
            return nothing();
        }
        if code == KeyCode::Char('y') || (code == KeyCode::Enter && !self.on_cancel) {
            return self.run();
        }
        if code == KeyCode::Enter || is_refusal(code) {
            return only(Action::CloseModal);
        }
        if is_switch(code) {
            self.on_cancel = !self.on_cancel;
        }
        nothing()
    }

    pub fn mouse(&mut self, event: MouseEvent) -> (r: Vec<Action>)
        ensures
            final(self)@ == old(self)@.moused(event).0,
            old(self)@.moused(event).1.told(r@),
    {
        let (x, y): (u16, u16) = (event.column, event.row);
        if event.kind == MouseKind::Down {
            if self.apply.contains(x, y) {
                return self.run();
            }
            if self.cancel.contains(x, y) || !self.rect.contains(x, y) {
                return only(Action::CloseModal);
            }
        }
        nothing()
    }

    pub fn draw(&mut self, area: Rect, theme: &Theme) -> (r: Scene)
        requires
            area.in_range(),
        ensures
            final(self)@ == old(self)@.placed(area),
            r@ == old(self)@.scene(area, *theme),
    {
        let wide: u16 = centered(area, 70, 5).width.saturating_sub(2);
        let lines = plain_lines(&self.lines);
        let rows: u16 = clamp16(count_wrapped(&lines, wide));
        let rect = centered(area, 70, rows.saturating_add(4));
        let inner = rect.inner();
        let title = cat3(" ", trim(self.title.as_str()).as_str(), " ");
        let mut scene = Scene::new();
        scene.clear(rect);
        scene.frame(rect, title.as_str());
        scene.flow(
            Rect::new(inner.x, inner.y, inner.width, inner.height.saturating_sub(2)),
            lines,
            Style::plain(),
            Wrap::Words,
            0,
        );
        let buttons = draw_buttons(&mut scene, inner, "Yes", "Cancel", self.on_cancel, theme);
        self.rect = rect;
        self.apply = buttons.0;
        self.cancel = buttons.1;
        scene
    }
}

// ---- laws --------------------------------------------------------------------

/// A key that is held with a command modifier never answers a question.
pub proof fn lemma_commands_do_not_answer(
    links: ConfirmView,
    write: ConfirmWriteView,
    key: KeyEvent,
)
    requires
        key.modifiers.commands(),
    ensures
        links.keyed(key) == (links, ConfirmReply::Nothing),
        write.keyed(key) == (write, WriteReply::Nothing),
{
}

/// A write that was confirmed cannot be made again from the same dialog.
pub proof fn lemma_write_is_made_once(write: ConfirmWriteView, key: KeyEvent, again: KeyEvent)
    requires
        write.keyed(key).1 is Run,
    ensures
        write.keyed(key).0.keyed(again).1 !is Run,
{
}

/// A question that is about to destroy something refuses where Enter is pressed at once; a
/// step of the history that was just asked for goes through.
pub proof fn lemma_enter_is_safe_by_default(write: ConfirmWriteView, key: KeyEvent)
    requires
        key.code == KeyCode::Enter,
        !key.modifiers.commands(),
        write.write is Some,
    ensures
        write.on_cancel ==> write.keyed(key) == (write, WriteReply::Close),
        !write.on_cancel ==> write.keyed(key).1 is Run,
{
}

/// A change that failed moves no history and records nothing.
pub proof fn lemma_failed_links_record_nothing(error: String, actions: Seq<Action>, i: int)
    requires
        actions == seq![Action::CloseModal, Action::Error(error), Action::Rescan],
        0 <= i < actions.len(),
    ensures
        actions[i] !is Step,
        actions[i] !is Record,
{
}

/// Whatever confirmed changes came to, the dialog closes and the library is read again.
/// Those that were made are told; a step of the history is then taken and not recorded anew,
/// and any other change is recorded. Those that failed are told as an error, and the history
/// stays where it is.
pub proof fn lemma_confirmed_links_are_told(
    result: Result<(), String>,
    summary: String,
    step: Option<Step>,
    intent: Option<Intent>,
    actions: Seq<Action>,
)
    requires
        actions == links_told(result, summary, step, intent),
    ensures
        actions[0] == Action::CloseModal,
        actions.contains(Action::Rescan),
        result is Ok <==> actions.contains(Action::Toast(summary)),
        result matches Err(error) ==> actions.contains(Action::Error(error)),
        forall|s: Step| #[trigger]
            actions.contains(Action::Step(s)) <==> result is Ok && step == Some(s),
        forall|i: Intent| #[trigger]
            actions.contains(Action::Record(i)) <==> result is Ok && step is None && intent == Some(
                i,
            ),
{
    assert(actions[2] == Action::Rescan);
    assert(result is Ok ==> actions[1] == Action::Toast(summary));
    assert(result is Err ==> actions[1] == Action::Error(result->Err_0));
    assert(result is Ok && step is Some ==> actions[3] == Action::Step(step->0));
    assert(result is Ok && step is None && intent is Some ==> actions[3] == Action::Record(
        intent->0,
    ));
}

/// A question about links is answered with yes by 'y', by Enter on its first button and by a
/// press on that button: then just the links that were shown are made, with the step that
/// they belong to. It is answered with no by 'n', 'q', Esc, Enter on its second button, a
/// press on that one and a press beside the dialog: then nothing is made.
pub proof fn lemma_links_are_made_as_shown(
    links: ConfirmView,
    key: KeyEvent,
    event: MouseEvent,
    actions: Seq<Action>,
    by_mouse: Seq<Action>,
)
    requires
        !key.modifiers.commands(),
        links.keyed(key).1.told(actions),
        links.moused(event).1.told(by_mouse),
    ensures
        ({
            let yes = key.code == KeyCode::Char('y') || key.code == KeyCode::Enter
                && !links.on_cancel;
            let no = key.code == KeyCode::Char('n') || key.code == KeyCode::Char('q') || key.code
                == KeyCode::Esc || key.code == KeyCode::Enter && links.on_cancel;
            &&& yes ==> actions.len() == 1 && (actions[0] matches Action::RunLinks {
                actions: made,
                step,
            } && made@ == links.actions && step == links.step)
            &&& no ==> actions == seq![Action::CloseModal]
            &&& !yes && !no ==> actions.len() == 0
        }),
        ({
            let x = event.column as int;
            let y = event.row as int;
            let press = event.kind == MouseKind::Down;
            &&& press && links.apply.has(x, y) ==> by_mouse.len() == 1 && (
            by_mouse[0] matches Action::RunLinks { actions: made, step } && made@ == links.actions
                && step == links.step)
            &&& press && !links.apply.has(x, y) && (links.cancel.has(x, y) || !links.rect.has(x, y))
                ==> by_mouse == seq![Action::CloseModal]
            &&& !press ==> by_mouse.len() == 0
        }),
{
}

/// A question about a write is answered in the same way: with yes the dialog closes and just
/// the write that it asked about is made, among the agents only where it was said so, beside
/// the interface where it was said so, and the history moves behind it.
pub proof fn lemma_the_write_is_made_as_asked(
    question: ConfirmWriteView,
    key: KeyEvent,
    actions: Seq<Action>,
    write: Write,
)
    requires
        !key.modifiers.commands(),
        question.write == Some(write),
        question.keyed(key).1.told(actions),
    ensures
        ({
            let yes = key.code == KeyCode::Char('y') || key.code == KeyCode::Enter
                && !question.on_cancel;
            let no = key.code == KeyCode::Char('n') || key.code == KeyCode::Char('q') || key.code
                == KeyCode::Esc || key.code == KeyCode::Enter && question.on_cancel;
            let plain = Action::WriteMeta(write);
            &&& no ==> actions == seq![Action::CloseModal]
            &&& !yes && !no ==> actions.len() == 0
            &&& yes ==> actions.len() >= 2 && actions[0] == Action::CloseModal
            &&& yes && question.step is None && question.background is None && question.scope
                == MutationScope::Library ==> actions =~= seq![Action::CloseModal, plain]
            &&& yes && question.step is None && question.background is None && question.scope
                == MutationScope::Deployment ==> actions.len() == 2 && actions[1]
                == Action::Deployment(Box::new(plain))
            &&& yes && question.step is Some && question.scope == MutationScope::Library
                ==> actions =~= seq![
                Action::CloseModal,
                plain,
                Action::Step(question.step->0),
            ]
            &&& yes && question.step is None && question.background is Some && question.scope
                == MutationScope::Library ==> actions.len() == 2 && (
            actions[1] matches Action::BackgroundWrite { write: made, keys, .. } && made == write
                && Some(keys) == question.background)
        }),
{
}

/// The keys beside answer nothing: they move between the buttons, and twice brings the focus
/// back.
pub proof fn lemma_buttons_are_changed(question: ConfirmWriteView, key: KeyEvent)
    requires
        !key.modifiers.commands(),
        key.code == KeyCode::Left || key.code == KeyCode::Right || key.code == KeyCode::Char('h')
            || key.code == KeyCode::Char('l'),
    ensures
        question.keyed(key).0.on_cancel == !question.on_cancel,
        question.keyed(key).0.keyed(key).0 == question,
        question.keyed(key).1 is Nothing,
{
}

/// The button tells of as many changes as lines tell of one.
pub proof fn lemma_changes_are_counted(lines: Seq<Seq<char>>)
    ensures
        change_count(lines) == lines.filter(|l: Seq<char>| !has_prefix(l, "skip"@)).len(),
    decreases lines.len(),
{
    reveal(Seq::filter);
    if lines.len() > 0 {
        lemma_changes_are_counted(lines.drop_last());
    }
}

/// Links are shown by what is done with them: made, taken away, or left.
pub proof fn lemma_links_are_told_apart(rest: Seq<char>, theme: Theme)
    ensures
        action_style("link"@ + rest, theme) == theme.ok(),
        action_style("unlink"@ + rest, theme) == theme.warn(),
        action_style("skip"@ + rest, theme) == theme.dim(),
{
    reveal_strlit("link");
    reveal_strlit("unlink");
    reveal_strlit("skip");
    assert(("link"@ + rest).subrange(0, 4) =~= "link"@);
    assert(("unlink"@ + rest).subrange(0, 6) =~= "unlink"@);
    assert(("skip"@ + rest).subrange(0, 4) =~= "skip"@);
    assert(("unlink"@ + rest)[0] == 'u');
    assert(("skip"@ + rest)[0] == 's');
    assert(("unlink"@ + rest).subrange(0, 4)[0] != "link"@[0]);
    assert(("skip"@ + rest).subrange(0, 4)[0] != "link"@[0]);
    if has_prefix("skip"@ + rest, "unlink"@) {
        assert(("skip"@ + rest).subrange(0, 6)[0] == "unlink"@[0]);
    }
}

/// Every change is shown in its line, and told apart by its color.
pub proof fn lemma_every_change_is_shown(lines: Seq<Seq<char>>, theme: Theme, i: int)
    requires
        0 <= i < lines.len(),
    ensures
        action_views(lines, theme).len() == lines.len(),
        action_views(lines, theme)[i].len() == 1,
        action_views(lines, theme)[i][0].content == lines[i],
        has_prefix(lines[i], "link"@) ==> action_views(lines, theme)[i][0].style == theme.ok(),
        has_prefix(lines[i], "unlink"@) && !has_prefix(lines[i], "link"@) ==> action_views(
            lines,
            theme,
        )[i][0].style == theme.warn(),
        has_prefix(lines[i], "skip"@) && !has_prefix(lines[i], "link"@) && !has_prefix(
            lines[i],
            "unlink"@,
        ) ==> action_views(lines, theme)[i][0].style == theme.dim(),
{
}

/// The button that has the focus stands out, and only that one.
pub proof fn lemma_the_button_with_the_focus_stands_out(
    first: Seq<char>,
    second: Seq<char>,
    on_second: bool,
    theme: Theme,
)
    ensures
        ({
            let line = buttons_line(first, second, on_second, theme);
            &&& line[0].content == "[ "@ + first + " ]"@
            &&& line[2].content == "[ "@ + second + " ]"@
            &&& on_second ==> line[2].style == theme.selected() && line[0].style == theme.accent()
            &&& !on_second ==> line[0].style == theme.selected() && line[2].style == theme.accent()
        }),
{
}

/// The lines of a question are scrolled by the arrows, and by `j` and `k`, one at a time; its
/// buttons stay as they are.
pub proof fn lemma_a_question_is_scrolled(question: ConfirmView, key: KeyEvent)
    requires
        !key.modifiers.control,
        !key.modifiers.alt,
        !key.modifiers.super_key,
    ensures
        key.code == KeyCode::Down || key.code == KeyCode::Char('j') ==> {
            let after = question.keyed(key).0;
            &&& question.scroll < 65535 ==> after.scroll == question.scroll + 1
            &&& question.scroll == 65535 ==> after.scroll == 65535
            &&& after.on_cancel == question.on_cancel
            &&& question.keyed(key).1 is Nothing
        },
        key.code == KeyCode::Up || key.code == KeyCode::Char('k') ==> {
            let after = question.keyed(key).0;
            &&& question.scroll > 0 ==> after.scroll == question.scroll - 1
            &&& question.scroll == 0 ==> after.scroll == 0
            &&& after.on_cancel == question.on_cancel
            &&& question.keyed(key).1 is Nothing
        },
{
}

/// The hints of a question say what Enter would do: apply, or go back.
pub proof fn lemma_the_hints_of_a_question(on_cancel: bool)
    ensures
        on_cancel ==> question_hints(on_cancel) == seq![
            ("Enter/Esc/n", "cancel"),
            ("y", "apply"),
            ("←→", "buttons"),
        ],
        !on_cancel ==> question_hints(on_cancel) == seq![
            ("Enter/y", "apply"),
            ("Esc/n", "cancel"),
            ("←→", "buttons"),
        ],
{
}

/// The button that applies counts the lines that change something, and says nothing more
/// where none does.
pub proof fn lemma_the_button_counts_the_changes(question: ConfirmView)
    ensures
        change_count(question.lines) > 0 ==> question.apply_label() == "Apply"@ + " ("@ + numeral(
            change_count(question.lines),
        ) + ")"@,
        change_count(question.lines) == 0 ==> question.apply_label() == "Apply"@,
{
}

/// A press on the first button of a question does what the letter for yes does, and a press
/// on the other, or beside the question, closes it; one on its text does nothing.
pub proof fn lemma_mouse_of_a_question(
    links: ConfirmView,
    write: ConfirmWriteView,
    event: MouseEvent,
    yes: KeyEvent,
)
    requires
        event.kind == MouseKind::Down,
        yes.code == KeyCode::Char('y'),
        !yes.modifiers.control,
        !yes.modifiers.alt,
        !yes.modifiers.super_key,
    ensures
        ({
            let x = event.column as int;
            let y = event.row as int;
            &&& links.apply.has(x, y) ==> links.moused(event) == links.keyed(yes)
            &&& !links.apply.has(x, y) && (links.cancel.has(x, y) || !links.rect.has(x, y))
                ==> links.moused(event) == (links, ConfirmReply::Close)
            &&& !links.apply.has(x, y) && !links.cancel.has(x, y) && links.rect.has(x, y)
                ==> links.moused(event) == (links, ConfirmReply::Nothing)
            &&& write.apply.has(x, y) ==> write.moused(event) == write.keyed(yes)
            &&& !write.apply.has(x, y) && (write.cancel.has(x, y) || !write.rect.has(x, y))
                ==> write.moused(event) == (write, WriteReply::Close)
            &&& !write.apply.has(x, y) && !write.cancel.has(x, y) && write.rect.has(x, y)
                ==> write.moused(event) == (write, WriteReply::Nothing)
        }),
{
}

/// The buttons of a question can be pressed where they are drawn, the one that applies before
/// the other; drawing keeps what would be done.
pub proof fn lemma_questions_are_pressed_where_they_are_drawn(
    links: ConfirmView,
    write: ConfirmWriteView,
    area: Rect,
    theme: Theme,
)
    ensures
        ({
            let after = links.placed(area);
            let scene = links.scene(area, theme);
            &&& scene.len() == 4
            &&& scene[1] == framed(after.rect, " "@ + trimmed(links.title) + " "@)
            &&& scene[2]->Text_lines == action_views(links.lines, theme)
            &&& scene[3]->Text_rect.x == after.apply.x
            &&& scene[3]->Text_rect.y == after.apply.y
            &&& scene[3]->Text_rect.y == after.cancel.y
            &&& scene[3]->Text_lines[0][0].content == "[ "@ + links.apply_label() + " ]"@
            &&& scene[3]->Text_lines[0][2].content == "[ "@ + "Cancel"@ + " ]"@
            &&& after.actions == links.actions
            &&& after.step == links.step
            &&& after.on_cancel == links.on_cancel
            &&& after.lines == links.lines
        }),
        ({
            let after = write.placed(area);
            let scene = write.scene(area, theme);
            &&& scene.len() == 4
            &&& scene[1] == framed(after.rect, " "@ + trimmed(write.title) + " "@)
            &&& scene[3]->Text_rect.x == after.apply.x
            &&& scene[3]->Text_rect.y == after.apply.y
            &&& scene[3]->Text_rect.y == after.cancel.y
            &&& scene[3]->Text_lines[0][0].content == "[ "@ + "Yes"@ + " ]"@
            &&& scene[3]->Text_lines[0][2].content == "[ "@ + "Cancel"@ + " ]"@
            &&& after.write == write.write
            &&& after.scope == write.scope
            &&& after.on_cancel == write.on_cancel
            &&& after.lines == write.lines
        }),
{
}

/// The second button stands two columns behind the first, and both are as wide as they are
/// drawn.
pub proof fn lemma_the_second_button_follows(inner: Rect, first: Seq<char>, second: Seq<char>)
    requires
        inner.in_range(),
        inner.height > 0,
        display_width(first) + display_width(second) + 11 <= inner.width,
    ensures
        ({
            let a = first_button(inner, first, second);
            let b = second_button(inner, first, second);
            &&& a.width == display_width(first) + 4
            &&& b.width == display_width(second) + 4
            &&& b.x == a.x + a.width + 2
            &&& b.x + b.width + 1 == inner.x + inner.width
            &&& a.y == inner.y + inner.height - 1
            &&& b.y == a.y
            &&& a.height == 1 && b.height == 1
        }),
{
}

/// A question about links is 96 columns wide and shows each of its lines where the screen
/// has the rows.
pub proof fn lemma_how_large_a_question_is(question: ConfirmView, area: Rect)
    requires
        area.in_range(),
        area.width >= 98,
        area.height > 2,
        question.lines.len() + 5 <= area.height - 2,
    ensures
        question.rect_in(area).width == 96,
        question.rect_in(area).height == question.lines.len() + 5,
{
}

/// A question before a write is 70 columns wide and as high as its lines are wrapped.
pub proof fn lemma_how_large_a_written_question_is(question: ConfirmWriteView, area: Rect)
    requires
        area.in_range(),
        area.width >= 72,
        area.height > 2,
    ensures
        ({
            let rows = wrapped_rows(contents(plain_views(question.lines)), 68) as int;
            &&& question.rect_in(area).width == 70
            &&& rows + 4 <= area.height - 2 ==> question.rect_in(area).height == rows + 4
        }),
{
}

} // verus!
