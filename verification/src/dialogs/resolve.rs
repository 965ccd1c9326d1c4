//! Decides about an update: the whole skill as it is here, or as it is upstream.

use crate::app::{nothing, Action, Hint};
use crate::dialogs::confirm::{
    buttons_scene, draw_buttons, first_button, second_button,
};
use crate::geometry::{clamp16, min16, monus, plus16, spec_min, Rect};
use crate::icons::{short_rev, short_revision};
use crate::keymap::{KeyCode, KeyEvent, MouseEvent, MouseKind};
use crate::model::{ChangedFile, FileChange, Prepared, Take, Write};
use crate::text::{cat2, cat3, join, joined, texts};
use crate::theme::Theme;
use crate::ui::{
    framed, marked_list, plain_run, run, shown, DrawView, Line, Lines, Scene, Span, SpanView, Style,
};
use crate::widgets::{centered, first_of, middle_of, moved, ListNav};
use vstd::prelude::*;

verus! {

/// A file that differs, and which side of it is kept.
#[derive(Debug)]
pub struct ResolveFile {
    pub name: String,
    pub change: FileChange,
    pub take: Take,
}

#[derive(Debug)]
pub struct Resolve {
    pub prepared: Option<Prepared>,
    pub files: Vec<ResolveFile>,
    pub list: ListNav,
    pub default_take: Take,
    pub on_cancel: bool,
    pub apply: Rect,
    pub cancel: Rect,
    pub rect: Rect,
}

pub ghost struct ResolveView {
    pub prepared: Option<Prepared>,
    pub files: Seq<ResolveFile>,
    pub list: ListNav,
    pub default_take: Take,
    pub on_cancel: bool,
    pub apply: Rect,
    pub cancel: Rect,
    pub rect: Rect,
}

impl View for Resolve {
    type V = ResolveView;

    open spec fn view(&self) -> ResolveView {
        ResolveView {
            prepared: self.prepared,
            files: self.files@,
            list: self.list,
            default_take: self.default_take,
            on_cancel: self.on_cancel,
            apply: self.apply,
            cancel: self.cancel,
            rect: self.rect,
        }
    }
}

/// The other side.
pub open spec fn flipped(take: Take) -> Take {
    match take {
        Take::Local => Take::Upstream,
        Take::Upstream => Take::Local,
    }
}

pub fn flip(take: Take) -> (r: Take)
    ensures
        r == flipped(take),
{
    match take {
        Take::Local => Take::Upstream,
        Take::Upstream => Take::Local,
    }
}

/// The files that differ, each kept as it is here.
pub open spec fn differing(files: Seq<ChangedFile>) -> Seq<ResolveFile>
    decreases files.len(),
{
    if files.len() == 0 {
        Seq::empty()
    } else if files.last().change == FileChange::Unchanged {
        differing(files.drop_last())
    } else {
        differing(files.drop_last()).push(
            ResolveFile {
                name: files.last().name,
                change: files.last().change,
                take: Take::Local,
            },
        )
    }
}

/// All files are kept from one side.
pub open spec fn all_taken(files: Seq<ResolveFile>, take: Take) -> Seq<ResolveFile> {
    files.map_values(|f: ResolveFile| ResolveFile { take, ..f })
}

/// What the decision is.
pub ghost enum ResolveReply {
    Nothing,
    Close,
    /// The update is not made, and what was fetched for it goes.
    Cancel(Option<Prepared>),
    Apply(Prepared, Take),
}

impl ResolveReply {
    pub open spec fn told(self, actions: Seq<Action>) -> bool {
        match self {
            ResolveReply::Nothing => actions.len() == 0,
            ResolveReply::Close => actions == seq![Action::CloseModal],
            ResolveReply::Cancel(prepared) => {
                let base = if prepared is Some {
                    1int
                } else {
                    0int
                };
                &&& actions.len() == base + 2
                &&& prepared is Some ==> (actions[0] matches Action::DiscardUpdate(p) && *p
                    == prepared->0)
                &&& actions[base] == Action::CloseModal
                &&& crate::app::is_toast(actions[base + 1], "update cancelled"@)
            },
            ResolveReply::Apply(prepared, side) => {
                &&& actions.len() == 2
                &&& actions[0] == Action::CloseModal
                &&& (actions[1] matches Action::Write(Write::ApplyUpdate { prepared: p, take }) && *p
                    == prepared && take == side)
            },
        }
    }
}

impl ResolveView {
    /// All of the skill is kept from one side.
    pub open spec fn taking(self, take: Take) -> ResolveView {
        ResolveView { default_take: take, files: all_taken(self.files, take), ..self }
    }

    pub open spec fn cancelled(self) -> (ResolveView, ResolveReply) {
        (ResolveView { prepared: None, ..self }, ResolveReply::Cancel(self.prepared))
    }

    /// The decision is carried out.
    pub open spec fn applied(self) -> (ResolveView, ResolveReply) {
        match self.prepared {
            Some(prepared) => (
                ResolveView { prepared: None, ..self },
                ResolveReply::Apply(prepared, self.default_take),
            ),
            None => (self, ResolveReply::Close),
        }
    }

    pub open spec fn with_selected(self, selected: Option<usize>) -> ResolveView {
        ResolveView { list: ListNav { selected, ..self.list }, ..self }
    }

    /// What a key does.
    pub open spec fn keyed(self, key: KeyEvent) -> (ResolveView, ResolveReply) {
        let n = self.files.len() as int;
        match key.code {
            KeyCode::Esc => self.cancelled(),
            KeyCode::Down => (
                self.with_selected(moved(self.list.selected, 1, n)),
                ResolveReply::Nothing,
            ),
            KeyCode::Up => (
                self.with_selected(moved(self.list.selected, -1, n)),
                ResolveReply::Nothing,
            ),
            KeyCode::Left => (
                ResolveView { on_cancel: !self.on_cancel, ..self },
                ResolveReply::Nothing,
            ),
            KeyCode::Right => (
                ResolveView { on_cancel: !self.on_cancel, ..self },
                ResolveReply::Nothing,
            ),
            KeyCode::Enter => if self.on_cancel {
                self.cancelled()
            } else {
                self.applied()
            },
            KeyCode::Char(c) => if c == 'q' {
                self.cancelled()
            } else if c == 'j' {
                (
                    self.with_selected(moved(self.list.selected, 1, n)),
                    ResolveReply::Nothing,
                )
            } else if c == 'k' {
                (
                    self.with_selected(moved(self.list.selected, -1, n)),
                    ResolveReply::Nothing,
                )
            } else if c == ' ' {
                (self.taking(flipped(self.default_take)), ResolveReply::Nothing)
            } else if c == 'l' && !key.modifiers.control {
                (self.taking(Take::Local), ResolveReply::Nothing)
            } else if c == 'u' && !key.modifiers.control {
                (self.taking(Take::Upstream), ResolveReply::Nothing)
            } else if c == 'y' {
                self.applied()
            } else {
                (self, ResolveReply::Nothing)
            },
            _ => (self, ResolveReply::Nothing),
        }
    }

    /// What the mouse does.
    pub open spec fn moused(self, event: MouseEvent) -> (ResolveView, ResolveReply) {
        let x = event.column as int;
        let y = event.row as int;
        let n = self.files.len() as int;
        match event.kind {
            MouseKind::ScrollUp => (
                self.with_selected(moved(self.list.selected, -3, n)),
                ResolveReply::Nothing,
            ),
            MouseKind::ScrollDown => (
                self.with_selected(moved(self.list.selected, 3, n)),
                ResolveReply::Nothing,
            ),
            MouseKind::Down => if self.apply.has(x, y) {
                self.applied()
            } else if self.cancel.has(x, y) || !self.rect.has(x, y) {
                self.cancelled()
            } else {
                match self.list.hit(y, n) {
                    Some(at) => (
                        self.with_selected(Some(at)).taking(flipped(self.default_take)),
                        ResolveReply::Nothing,
                    ),
                    None => (self, ResolveReply::Nothing),
                }
            },
            _ => (self, ResolveReply::Nothing),
        }
    }
}

/// The dialog for an update that nothing was decided about.
pub open spec fn undecided(prepared: Prepared) -> ResolveView {
    let files = differing(prepared.files@);
    ResolveView {
        prepared: Some(prepared),
        files,
        list: ListNav { selected: first_of(files.len() as int), ..ListNav::empty() },
        default_take: if prepared.needs_resolution {
            Take::Local
        } else {
            Take::Upstream
        },
        on_cancel: false,
        apply: Rect::zero(),
        cancel: Rect::zero(),
        rect: Rect::zero(),
    }
}

pub open spec fn resolve_hints() -> Seq<Hint> {
    seq![
        ("Space", "toggle side"),
        ("l/u", "keep local/use upstream"),
        ("Enter", "apply"),
        ("Esc", "cancel"),
    ]
}

impl Resolve {
    /// The dialog for an update. A skill that was modified here is kept as it is unless
    /// something else is chosen.
    pub fn new(prepared: Prepared) -> (r: Resolve)
        ensures
            r@ == undecided(prepared),
    {
        let mut files: Vec<ResolveFile> = Vec::new();
        let mut i: usize = 0;
        assert(prepared.files@.take(0) =~= Seq::empty());
        while i < prepared.files.len()
            invariant
                i <= prepared.files.len(),
                files@ == differing(prepared.files@.take(i as int)),
            decreases prepared.files.len() - i,
        {
            assert(prepared.files@.take(i + 1).drop_last() =~= prepared.files@.take(i as int));
            let file = &prepared.files[i];
            if file.change != FileChange::Unchanged {
                files.push(
                    ResolveFile {
                        name: file.name.clone(),
                        change: file.change,
                        take: Take::Local,
                    },
                );
            }
            i = i + 1;
        }
        assert(prepared.files@.take(i as int) =~= prepared.files@);
        let mut list = ListNav::empty();
        list.clamp(files.len());
        let default_take = if prepared.needs_resolution {
            Take::Local
        } else {
            Take::Upstream
        };
        Resolve {
            prepared: Some(prepared),
            files,
            list,
            default_take,
            on_cancel: false,
            apply: Rect::zero(),
            cancel: Rect::zero(),
            rect: Rect::zero(),
        }
    }

    pub fn hints(&self) -> (r: Vec<Hint>)
        ensures
            r@ == resolve_hints(),
    {
        vec![
            ("Space", "toggle side"),
            ("l/u", "keep local/use upstream"),
            ("Enter", "apply"),
            ("Esc", "cancel"),
        ]
    }

    fn take_all(&mut self, take: Take)
        ensures
            final(self)@ == old(self)@.taking(take),
    {
        let ghost before = self@;
        let ghost all = all_taken(self.files@, take);
        let mut i: usize = 0;
        while i < self.files.len()
            invariant
                i <= self.files.len(),
                self.files@.len() == before.files.len(),
                all == all_taken(before.files, take),
                self@ == (ResolveView { files: self.files@, ..before }),
                forall|k: int| 0 <= k < i ==> #[trigger] self.files@[k] == all[k],
                forall|k: int| i <= k < self.files@.len() ==> #[trigger] self.files@[k]
                    == before.files[k],
            decreases self.files.len() - i,
        {
            self.files[i].take = take;
            i = i + 1;
        }
        assert(self.files@ =~= all);
        self.default_take = take;
    }

    fn give_up(&mut self) -> (r: Vec<Action>)
        ensures
            final(self)@ == old(self)@.cancelled().0,
            old(self)@.cancelled().1.told(r@),
    {
        let mut out: Vec<Action> = Vec::new();
        match self.prepared.take() {
            Some(prepared) => out.push(Action::DiscardUpdate(Box::new(prepared))),
            None => {},
        }
        out.push(Action::CloseModal);
        out.push(Action::Toast("update cancelled".to_owned()));
        out
    }

    fn carry_out(&mut self) -> (r: Vec<Action>)
        ensures
            final(self)@ == old(self)@.applied().0,
            old(self)@.applied().1.told(r@),
    {
        let mut out: Vec<Action> = Vec::new();
        out.push(Action::CloseModal);
        match self.prepared.take() {
            Some(prepared) => out.push(
                Action::Write(
                    Write::ApplyUpdate { prepared: Box::new(prepared), take: self.default_take },
                ),
            ),
            None => {},
        }
        out
    }

    pub fn key(&mut self, key: KeyEvent) -> (r: Vec<Action>)
        ensures
            final(self)@ == old(self)@.keyed(key).0,
            old(self)@.keyed(key).1.told(r@),
    {
        let n = self.files.len();
        match key.code {
            KeyCode::Esc => {
                return self.give_up();
            },
            KeyCode::Down => self.list.move_by(1, n),
            KeyCode::Up => self.list.move_by(-1, n),
            KeyCode::Left | KeyCode::Right => {
                self.on_cancel = !self.on_cancel;
            },
            KeyCode::Enter => {
                if self.on_cancel {
                    return self.give_up();
                }
                return self.carry_out();
            },
            KeyCode::Char(c) => {
                if c == 'q' {
                    return self.give_up();
                } else if c == 'j' {
                    self.list.move_by(1, n);
                } else if c == 'k' {
                    self.list.move_by(-1, n);
                } else if c == ' ' {
                    let take = flip(self.default_take);
                    self.take_all(take);
                } else if c == 'l' && !key.modifiers.control {
                    self.take_all(Take::Local);
                } else if c == 'u' && !key.modifiers.control {
                    self.take_all(Take::Upstream);
                } else if c == 'y' {
                    return self.carry_out();
                }
            },
            _ => {},
        }
        nothing()
    }

    pub fn mouse(&mut self, event: MouseEvent) -> (r: Vec<Action>)
        ensures
            final(self)@ == old(self)@.moused(event).0,
            old(self)@.moused(event).1.told(r@),
    {
        let (x, y): (u16, u16) = (event.column, event.row);
        let n = self.files.len();
        match event.kind {
            MouseKind::ScrollUp => self.list.move_by(-3, n),
            MouseKind::ScrollDown => self.list.move_by(3, n),
            MouseKind::Down => {
                if self.apply.contains(x, y) {
                    return self.carry_out();
                }
                if self.cancel.contains(x, y) || !self.rect.contains(x, y) {
                    return self.give_up();
                }
                match self.list.click(y, n, event.repeated) {
                    Some(_) => {
                        let take = flip(self.default_take);
                        self.take_all(take);
                    },
                    None => {},
                }
            },
            _ => {},
        }
        nothing()
    }
}

// ---- drawing -----------------------------------------------------------------

pub open spec fn revision_or_dash(revision: Option<String>) -> Seq<char> {
    match revision {
        Some(revision) => short_revision(revision@),
        None => "-"@,
    }
}

/// The line on the revisions.
pub open spec fn revision_line(prepared: Prepared, theme: Theme) -> Seq<SpanView> {
    seq![
        run("revision "@, theme.dim()),
        plain_run(revision_or_dash(prepared.from_revision)),
        run(" → "@, theme.dim()),
        plain_run(short_revision(prepared.to_revision@)),
        if prepared.needs_resolution {
            run("   modified locally — choose the whole skill"@, theme.warn())
        } else {
            run("   clean update"@, theme.ok())
        },
    ]
}

pub open spec fn side_name(take: Take) -> Seq<char> {
    match take {
        Take::Local => "local"@,
        Take::Upstream => "upstream"@,
    }
}

/// The line on the side that is kept.
pub open spec fn side_line(prepared: Prepared, take: Take, theme: Theme) -> Seq<SpanView> {
    seq![
        run("whole skill  "@, theme.dim()),
        run(side_name(take), theme.accent()),
        run(
            if prepared.has_baseline {
                "   (three-way against the installed revision)"@
            } else {
                "   (two-way: baseline revision unavailable)"@
            },
            theme.dim(),
        ),
    ]
}

/// The line on skills that are new upstream.
pub open spec fn new_line(prepared: Prepared) -> Seq<SpanView> {
    seq![
        plain_run(
            if prepared.new_skills@.len() == 0 {
                ""@
            } else {
                "New upstream skills (not installed): "@ + joined(
                    texts(prepared.new_skills@),
                    ", "@,
                )
            },
        ),
    ]
}

pub open spec fn head_lines(prepared: Prepared, take: Take, theme: Theme) -> Seq<Seq<SpanView>> {
    seq![
        revision_line(prepared, theme),
        side_line(prepared, take, theme),
        new_line(prepared),
    ]
}

pub open spec fn change_label(change: FileChange, theme: Theme) -> (Seq<char>, Style) {
    match change {
        FileChange::UpstreamChanged => ("upstream changed"@, theme.accent()),
        FileChange::LocalChanged => ("local changed   "@, theme.warn()),
        FileChange::BothChanged => ("both changed    "@, theme.err()),
        FileChange::Differs => ("differs         "@, theme.warn()),
        FileChange::Unchanged => ("unchanged       "@, theme.dim()),
    }
}

/// The row of a file.
pub open spec fn file_row(file: ResolveFile, theme: Theme) -> Seq<SpanView> {
    let (label, style) = change_label(file.change, theme);
    seq![
        match file.take {
            Take::Local => run("[local   ]"@, theme.warn()),
            Take::Upstream => run("[upstream]"@, theme.accent()),
        },
        plain_run(" "@),
        run(label, style),
        plain_run("  "@),
        plain_run(file.name@),
    ]
}

pub open spec fn file_rows(files: Seq<ResolveFile>, theme: Theme) -> Seq<Seq<SpanView>> {
    files.map_values(|f: ResolveFile| file_row(f, theme))
}

fn draw_head(prepared: &Prepared, take: Take, theme: &Theme) -> (r: Lines)
    ensures
        r@ == head_lines(*prepared, take, *theme),
{
    let mut first = Line::new();
    first.push(Span::styled("revision ", theme.dim()));
    match &prepared.from_revision {
        Some(revision) => first.push(Span::raw(short_rev(revision.as_str()).as_str())),
        None => first.push(Span::raw("-")),
    }
    first.push(Span::styled(" → ", theme.dim()));
    first.push(Span::raw(short_rev(prepared.to_revision.as_str()).as_str()));
    if prepared.needs_resolution {
        first.push(
            Span::styled("   modified locally — choose the whole skill", theme.warn()),
        );
    } else {
        first.push(Span::styled("   clean update", theme.ok()));
    }
    let mut second = Line::new();
    second.push(Span::styled("whole skill  ", theme.dim()));
    second.push(
        Span::styled(
            match take {
                Take::Local => "local",
                Take::Upstream => "upstream",
            },
            theme.accent(),
        ),
    );
    second.push(
        Span::styled(
            if prepared.has_baseline {
                "   (three-way against the installed revision)"
            } else {
                "   (two-way: baseline revision unavailable)"
            },
            theme.dim(),
        ),
    );
    let third = if prepared.new_skills.len() == 0 {
        Line::raw("")
    } else {
        Line::raw(
            cat2(
                "New upstream skills (not installed): ",
                join(&prepared.new_skills, ", ").as_str(),
            ).as_str(),
        )
    };
    assert(first@ =~= revision_line(*prepared, *theme));
    assert(second@ =~= side_line(*prepared, take, *theme));
    assert(third@ =~= new_line(*prepared));
    let mut lines = Lines::new();
    lines.push(first);
    lines.push(second);
    lines.push(third);
    lines
}

fn draw_files(files: &Vec<ResolveFile>, theme: &Theme) -> (r: Lines)
    ensures
        r@ == file_rows(files@, *theme),
{
    let ghost all = file_rows(files@, *theme);
    let mut lines = Lines::new();
    let mut i: usize = 0;
    while i < files.len()
        invariant
            i <= files.len(),
            all == file_rows(files@, *theme),
            lines@ == all.take(i as int),
        decreases files.len() - i,
    {
        let file = &files[i];
        let (label, style): (&'static str, Style) = match file.change {
            FileChange::UpstreamChanged => ("upstream changed", theme.accent()),
            FileChange::LocalChanged => ("local changed   ", theme.warn()),
            FileChange::BothChanged => ("both changed    ", theme.err()),
            FileChange::Differs => ("differs         ", theme.warn()),
            FileChange::Unchanged => ("unchanged       ", theme.dim()),
        };
        let mut line = Line::new();
        match file.take {
            Take::Local => line.push(Span::styled("[local   ]", theme.warn())),
            Take::Upstream => line.push(Span::styled("[upstream]", theme.accent())),
        }
        line.push(Span::raw(" "));
        line.push(Span::styled(label, style));
        line.push(Span::raw("  "));
        line.push(Span::raw(file.name.as_str()));
        assert(line@ =~= all[i as int]);
        lines.push(line);
        i = i + 1;
        assert(lines@ =~= all.take(i as int));
    }
    assert(lines@ =~= all);
    lines
}

impl ResolveView {
    pub open spec fn rect_in(self, area: Rect) -> Rect {
        middle_of(
            area,
            100,
            spec_min(
                plus16(spec_min(self.files.len() as int, 65535), 8),
                monus(area.height as int, 2),
            ),
        )
    }

    pub open spec fn list_in(inner: Rect) -> Rect {
        Rect::at(
            inner.x as int,
            plus16(inner.y as int, 3),
            inner.width as int,
            monus(inner.height as int, 5),
        )
    }

    /// The list of the files once it is drawn.
    pub open spec fn list_at(self, inner: Rect) -> ListNav {
        ListNav { rows: ResolveView::list_in(inner), ..self.list }.drawn(self.files.len() as int)
    }

    /// The dialog once it is drawn. One whose update was decided is not drawn any more.
    pub open spec fn placed(self, area: Rect) -> ResolveView {
        let rect = self.rect_in(area);
        let inner = rect.inside();
        if self.prepared is Some {
            ResolveView {
                rect,
                list: self.list_at(inner),
                apply: first_button(inner, "Apply"@, "Cancel"@),
                cancel: second_button(inner, "Apply"@, "Cancel"@),
                ..self
            }
        } else {
            self
        }
    }

    pub open spec fn body_scene(self, prepared: Prepared, inner: Rect, theme: Theme) -> Seq<DrawView> {
        let at = ResolveView::list_in(inner);
        let base = seq![
            shown(
                Rect { height: spec_min(3, inner.height as int) as u16, ..inner },
                head_lines(prepared, self.default_take, theme),
                Style::plain(),
            ),
            marked_list(
                self.list_at(inner),
                file_rows(self.files, theme),
                theme.selected(),
                "▸ "@,
            ),
        ];
        if self.files.len() == 0 {
            base.push(
                shown(
                    at,
                    seq![
                        seq![
                            run(
                                "No content diff to display. Local skips; upstream replaces the whole skill."@,
                                theme.dim(),
                            ),
                        ],
                    ],
                    Style::plain(),
                ),
            )
        } else {
            base
        }
    }

    pub open spec fn scene(self, area: Rect, theme: Theme) -> Seq<DrawView> {
        match self.prepared {
            None => Seq::empty(),
            Some(prepared) => {
                let rect = self.rect_in(area);
                let inner = rect.inside();
                seq![
                    DrawView::Clear(rect),
                    framed(rect, " update "@ + prepared.skill@ + " "@),
                ] + self.body_scene(prepared, inner, theme) + buttons_scene(
                    inner,
                    "Apply"@,
                    "Cancel"@,
                    self.on_cancel,
                    theme,
                )
            },
        }
    }
}

impl Resolve {
    fn draw_body(
        &self,
        scene: &mut Scene,
        prepared: &Prepared,
        list: ListNav,
        inner: Rect,
        theme: &Theme,
    )
        requires
            list == self@.list_at(inner),
        ensures
            final(scene)@ == old(scene)@ + self@.body_scene(*prepared, inner, *theme),
    {
        let at = list.rows;
        scene.lines(
            Rect {
                x: inner.x,
                y: inner.y,
                width: inner.width,
                height: min16(3, inner.height),
            },
            draw_head(prepared, self.default_take, theme),
            Style::plain(),
        );
        let rows = draw_files(&self.files, theme);
        scene.marked_list(list, rows, theme.selected(), "▸ ");
        if self.files.len() == 0 {
            scene.line(
                at,
                Line::styled(
                    "No content diff to display. Local skips; upstream replaces the whole skill.",
                    theme.dim(),
                ),
                Style::plain(),
            );
        }
        assert(scene@ =~= old(scene)@ + self@.body_scene(*prepared, inner, *theme));
    }

    pub fn draw(&mut self, area: Rect, theme: &Theme) -> (r: Scene)
        requires
            area.in_range(),
        ensures
            final(self)@ == old(self)@.placed(area),
            r@ == old(self)@.scene(area, *theme),
    {
        let tall: u16 = min16(
            clamp16(self.files.len()).saturating_add(8),
            area.height.saturating_sub(2),
        );
        let rect = centered(area, 100, tall);
        let inner = rect.inner();
        let mut list = self.list;
        list.rows = Rect::new(
            inner.x,
            inner.y.saturating_add(3),
            inner.width,
            inner.height.saturating_sub(5),
        );
        list.show(self.files.len());
        let mut scene = Scene::new();
        match &self.prepared {
            Some(prepared) => {
                scene.clear(rect);
                scene.frame(rect, cat3(" update ", prepared.skill.as_str(), " ").as_str());
                self.draw_body(&mut scene, prepared, list, inner, theme);
            },
            None => {
                return scene;
            },
        }
        let buttons = draw_buttons(
            &mut scene,
            inner,
            "Apply",
            "Cancel",
            self.on_cancel,
            theme,
        );
        self.rect = rect;
        self.list = list;
        self.apply = buttons.0;
        self.cancel = buttons.1;
        scene
    }
}

// ---- laws --------------------------------------------------------------------

/// The whole skill is kept from one side: no two files are ever kept from different ones
/// once a side was chosen.
pub proof fn lemma_one_side_for_all(view: ResolveView, take: Take, i: int, j: int)
    requires
        0 <= i < view.files.len(),
        0 <= j < view.files.len(),
    ensures
        view.taking(take).files[i].take == take,
        view.taking(take).files[i].take == view.taking(take).files[j].take,
        view.taking(take).files.len() == view.files.len(),
{
}

/// An update is decided once: what was fetched for it is used or goes, never both.
pub proof fn lemma_decided_once(view: ResolveView, key: KeyEvent, again: KeyEvent)
    requires
        view.keyed(key).1 is Apply || view.keyed(key).1 is Cancel,
    ensures
        view.keyed(key).0.prepared is None,
        view.keyed(key).0.keyed(again).1 !is Apply,
{
}

/// The letter for a side takes all of the skill from that side, and Enter then applies just
/// that side: 'u' the one from upstream, 'l' the one that is here.
pub proof fn lemma_the_letters_choose_their_side(
    view: ResolveView,
    letter: KeyEvent,
    enter: KeyEvent,
    prepared: Prepared,
    actions: Seq<Action>,
    i: int,
)
    requires
        view.prepared == Some(prepared),
        !view.on_cancel,
        letter.code == KeyCode::Char('u') || letter.code == KeyCode::Char('l'),
        !letter.modifiers.control,
        enter.code == KeyCode::Enter || enter.code == KeyCode::Char('y'),
        view.keyed(letter).0.keyed(enter).1.told(actions),
    ensures
        ({
            let chosen = view.keyed(letter).0;
            let side = if letter.code == KeyCode::Char('u') {
                Take::Upstream
            } else {
                Take::Local
            };
            &&& view.keyed(letter).1 is Nothing
            &&& chosen.default_take == side
            &&& chosen.files.len() == view.files.len()
            &&& 0 <= i < view.files.len() ==> chosen.files[i].take == side && chosen.files[i].name
                == view.files[i].name && chosen.files[i].change == view.files[i].change
            &&& actions.len() == 2
            &&& actions[0] == Action::CloseModal
            &&& (actions[1] matches Action::Write(Write::ApplyUpdate { prepared: p, take }) && take
                == side && *p == prepared)
        }),
{
}

/// What is applied is the side that is chosen, whether a key or the button asks for it.
pub proof fn lemma_the_chosen_side_is_applied(
    view: ResolveView,
    key: KeyEvent,
    event: MouseEvent,
)
    ensures
        view.keyed(key).1 matches ResolveReply::Apply(prepared, side) ==> view.prepared == Some(
            prepared,
        ) && side == view.default_take,
        view.moused(event).1 matches ResolveReply::Apply(prepared, side) ==> view.prepared == Some(
            prepared,
        ) && side == view.default_take,
        view.moused(event).1 is Apply ==> view.apply.has(event.column as int, event.row as int),
        view.keyed(key).1 is Apply ==> key.code == KeyCode::Enter && !view.on_cancel || key.code
            == KeyCode::Char('y'),
{
}

/// The blank turns the side around, and twice brings it back.
pub proof fn lemma_the_blank_turns_the_side(view: ResolveView, key: KeyEvent)
    requires
        key.code == KeyCode::Char(' '),
    ensures
        view.default_take == Take::Local ==> view.keyed(key).0.default_take == Take::Upstream,
        view.default_take == Take::Upstream ==> view.keyed(key).0.default_take == Take::Local,
        view.keyed(key).0.keyed(key).0.default_take == view.default_take,
        view.keyed(key).0.prepared == view.prepared,
        view.keyed(key).1 is Nothing,
        forall|i: int|
            0 <= i < view.files.len() ==> (#[trigger] view.keyed(key).0.files[i]).take
                == view.keyed(key).0.default_take,
{
}

/// Leaving the dialog makes no update, and what was fetched for it goes: Esc, 'q', the button
/// to cancel and a press beside the dialog do so.
pub proof fn lemma_leaving_takes_nothing(
    view: ResolveView,
    key: KeyEvent,
    event: MouseEvent,
    actions: Seq<Action>,
)
    ensures
        key.code == KeyCode::Esc || key.code == KeyCode::Char('q') || key.code == KeyCode::Enter
            && view.on_cancel ==> view.keyed(key).1 == ResolveReply::Cancel(view.prepared),
        event.kind == MouseKind::Down && !view.apply.has(event.column as int, event.row as int) && (
        view.cancel.has(event.column as int, event.row as int) || !view.rect.has(
            event.column as int,
            event.row as int,
        )) ==> view.moused(event).1 == ResolveReply::Cancel(view.prepared),
        view.prepared is Some && key.code == KeyCode::Esc && view.keyed(key).1.told(actions) ==> {
            &&& actions.len() == 3
            &&& (actions[0] matches Action::DiscardUpdate(p) && *p == view.prepared->0)
            &&& actions[1] == Action::CloseModal
        },
{
}

/// An update of a skill that was changed here begins with what is here, any other one with
/// what is upstream; nothing is lost without a choice.
pub proof fn lemma_local_changes_are_kept_by_default(prepared: Prepared, enter: KeyEvent)
    requires
        enter.code == KeyCode::Enter,
    ensures
        prepared.needs_resolution ==> undecided(prepared).keyed(enter).1 == ResolveReply::Apply(
            prepared,
            Take::Local,
        ),
        !prepared.needs_resolution ==> undecided(prepared).keyed(enter).1 == ResolveReply::Apply(
            prepared,
            Take::Upstream,
        ),
{
}

/// The files that are listed are those that differ, in their order.
pub proof fn lemma_differing_files_are_listed(files: Seq<ChangedFile>)
    ensures
        differing(files) == files.filter(
            |f: ChangedFile| f.change != FileChange::Unchanged,
        ).map_values(
            |f: ChangedFile| ResolveFile { name: f.name, change: f.change, take: Take::Local },
        ),
        forall|i: int|
            0 <= i < differing(files).len() ==> (#[trigger] differing(files)[i]).change
                != FileChange::Unchanged,
    decreases files.len(),
{
    reveal(Seq::filter);
    if files.len() > 0 {
        lemma_differing_files_are_listed(files.drop_last());
        let keep = |f: ChangedFile| f.change != FileChange::Unchanged;
        let show = |f: ChangedFile|
            ResolveFile { name: f.name, change: f.change, take: Take::Local };
        let before = files.drop_last().filter(keep);
        if keep(files.last()) {
            assert(before.push(files.last()).map_values(show) =~= before.map_values(show).push(
                show(files.last()),
            ));
        }
    }
}

/// Every file shows its name and the side that it is kept from.
pub proof fn lemma_sides_are_shown(file: ResolveFile, theme: Theme)
    ensures
        file.take == Take::Local ==> file_row(file, theme)[0] == run("[local   ]"@, theme.warn()),
        file.take == Take::Upstream ==> file_row(file, theme)[0] == run(
            "[upstream]"@,
            theme.accent(),
        ),
        file_row(file, theme).last() == plain_run(file.name@),
        side_name(Take::Local) == "local"@,
        side_name(Take::Upstream) == "upstream"@,
{
}

/// The dialog of an update shows from which revision to which it goes, whether something was
/// changed here, which side is kept, and which skills are new.
pub proof fn lemma_what_an_update_shows(prepared: Prepared, take: Take, theme: Theme)
    ensures
        ({
            let lines = head_lines(prepared, take, theme);
            &&& lines.len() == 3
            &&& lines[0][0].content == "revision "@
            &&& prepared.from_revision is Some ==> lines[0][1].content == short_revision(
                prepared.from_revision->0@,
            )
            &&& prepared.from_revision is None ==> lines[0][1].content == "-"@
            &&& lines[0][2].content == " → "@
            &&& lines[0][3].content == short_revision(prepared.to_revision@)
            &&& prepared.needs_resolution ==> lines[0][4].content
                == "   modified locally — choose the whole skill"@
            &&& !prepared.needs_resolution ==> lines[0][4].content == "   clean update"@
            &&& take == Take::Local ==> lines[1][1].content == "local"@
            &&& take == Take::Upstream ==> lines[1][1].content == "upstream"@
            &&& prepared.has_baseline ==> lines[1][2].content
                == "   (three-way against the installed revision)"@
            &&& !prepared.has_baseline ==> lines[1][2].content
                == "   (two-way: baseline revision unavailable)"@
            &&& prepared.new_skills@.len() == 0 ==> lines[2][0].content == ""@
            &&& prepared.new_skills@.len() > 0 ==> lines[2][0].content
                == "New upstream skills (not installed): "@ + joined(
                texts(prepared.new_skills@),
                ", "@,
            )
        }),
{
}

/// Every file is shown with the side that is taken and what was changed.
pub proof fn lemma_every_file_is_shown(files: Seq<ResolveFile>, theme: Theme, i: int)
    requires
        0 <= i < files.len(),
    ensures
        ({
            let rows = file_rows(files, theme);
            &&& rows.len() == files.len()
            &&& rows[i].len() == 5
            &&& rows[i][4].content == files[i].name@
            &&& files[i].take == Take::Local ==> rows[i][0].content == "[local   ]"@
            &&& files[i].take == Take::Upstream ==> rows[i][0].content == "[upstream]"@
            &&& files[i].change == FileChange::UpstreamChanged ==> rows[i][2].content
                == "upstream changed"@
            &&& files[i].change == FileChange::LocalChanged ==> rows[i][2].content
                == "local changed   "@
            &&& files[i].change == FileChange::BothChanged ==> rows[i][2].content
                == "both changed    "@
            &&& files[i].change == FileChange::Differs ==> rows[i][2].content == "differs         "@
        }),
{
}

/// The arrows, and `j` and `k`, move through the files; the blank, `l` and `u` choose the
/// side; Left and Right change the button. None of them ends the update.
pub proof fn lemma_keys_that_only_look(dialog: ResolveView, key: KeyEvent)
    ensures
        key.code == KeyCode::Down || key.code == KeyCode::Char('j') ==> {
            &&& dialog.keyed(key).1 is Nothing
            &&& dialog.keyed(key).0.list.selected == moved(
                dialog.list.selected,
                1,
                dialog.files.len() as int,
            )
            &&& dialog.keyed(key).0.default_take == dialog.default_take
            &&& dialog.keyed(key).0.prepared == dialog.prepared
        },
        key.code == KeyCode::Up || key.code == KeyCode::Char('k') ==> {
            &&& dialog.keyed(key).1 is Nothing
            &&& dialog.keyed(key).0.list.selected == moved(
                dialog.list.selected,
                -1,
                dialog.files.len() as int,
            )
            &&& dialog.keyed(key).0.default_take == dialog.default_take
            &&& dialog.keyed(key).0.prepared == dialog.prepared
        },
        key.code == KeyCode::Left || key.code == KeyCode::Right ==> {
            &&& dialog.keyed(key).1 is Nothing
            &&& dialog.keyed(key).0.on_cancel == !dialog.on_cancel
            &&& dialog.keyed(key).0.default_take == dialog.default_take
        },
{
}

/// An update that is given up is discarded, its dialog closes, and that is told.
pub proof fn lemma_a_given_up_update_is_told(
    dialog: ResolveView,
    key: KeyEvent,
    actions: Seq<Action>,
)
    requires
        dialog.keyed(key).1.told(actions),
        key.code == KeyCode::Esc || key.code == KeyCode::Char('q') || key.code == KeyCode::Enter
            && dialog.on_cancel,
        dialog.prepared is Some,
    ensures
        actions.len() == 3,
        actions[0] is DiscardUpdate,
        *actions[0]->DiscardUpdate_0 == dialog.prepared->0,
        actions[1] == Action::CloseModal,
        actions[2] is Toast,
        actions[2]->Toast_0@ == "update cancelled"@,
{
}

/// A press on a button of an update does what the button does, one beside the dialog gives
/// the update up, one on a file changes the side, and the wheel moves by three files.
pub proof fn lemma_mouse_of_an_update(
    dialog: ResolveView,
    event: MouseEvent,
    yes: KeyEvent,
    no: KeyEvent,
    at: usize,
)
    requires
        yes.code == KeyCode::Char('y'),
        no.code == KeyCode::Esc,
    ensures
        ({
            let x = event.column as int;
            let y = event.row as int;
            let n = dialog.files.len() as int;
            let after = dialog.moused(event);
            &&& event.kind == MouseKind::Down && dialog.apply.has(x, y) ==> after == dialog.keyed(
                yes,
            )
            &&& event.kind == MouseKind::Down && !dialog.apply.has(x, y) && (dialog.cancel.has(x, y)
                || !dialog.rect.has(x, y)) ==> after == dialog.keyed(no)
            &&& event.kind == MouseKind::Down && !dialog.apply.has(x, y) && !dialog.cancel.has(x, y)
                && dialog.rect.has(x, y) && dialog.list.hit(y, n) == Some(at) ==> {
                &&& after.0.list.selected == Some(at)
                &&& dialog.default_take == Take::Local ==> after.0.default_take == Take::Upstream
                &&& dialog.default_take == Take::Upstream ==> after.0.default_take == Take::Local
                &&& after.1 is Nothing
            }
            &&& event.kind == MouseKind::ScrollDown ==> after.1 is Nothing && after.0.list.selected
                == moved(dialog.list.selected, 3, n)
            &&& event.kind == MouseKind::ScrollUp ==> after.1 is Nothing && after.0.list.selected
                == moved(dialog.list.selected, -3, n)
        }),
{
}

/// The buttons of an update can be pressed where they are drawn, and drawing decides nothing.
pub proof fn lemma_an_update_is_pressed_where_it_is_drawn(
    dialog: ResolveView,
    area: Rect,
    theme: Theme,
)
    requires
        dialog.prepared is Some,
    ensures
        ({
            let after = dialog.placed(area);
            let scene = dialog.scene(area, theme);
            let n = scene.len() as int;
            &&& n >= 3
            &&& scene[1] == framed(
                after.rect,
                " update "@ + dialog.prepared->0.skill@ + " "@,
            )
            &&& scene[n - 1]->Text_rect.x == after.apply.x
            &&& scene[n - 1]->Text_rect.y == after.apply.y
            &&& scene[n - 1]->Text_lines[0][0].content == "[ "@ + "Apply"@ + " ]"@
            &&& scene[n - 1]->Text_lines[0][2].content == "[ "@ + "Cancel"@ + " ]"@
            &&& after.prepared == dialog.prepared
            &&& after.default_take == dialog.default_take
            &&& after.files == dialog.files
            &&& after.on_cancel == dialog.on_cancel
        }),
{
    let inner = dialog.rect_in(area).inside();
    let scene = dialog.scene(area, theme);
    let n = scene.len() as int;
    let buttons = crate::dialogs::confirm::buttons_scene(
        inner,
        "Apply"@,
        "Cancel"@,
        dialog.on_cancel,
        theme,
    );
    assert(scene[n - 1] == buttons[0]);
}

/// The dialog of an update is a hundred columns wide and shows each of its files where the
/// screen has the rows; they lie below its three lines.
pub proof fn lemma_how_large_an_update_is(dialog: ResolveView, area: Rect)
    requires
        area.in_range(),
        area.width >= 102,
        area.height > 2,
        dialog.files.len() + 8 <= area.height - 2,
    ensures
        ({
            let rect = dialog.rect_in(area);
            let inner = rect.inside();
            &&& rect.width == 100
            &&& rect.height == dialog.files.len() + 8
            &&& ResolveView::list_in(inner).y == inner.y + 3
            &&& ResolveView::list_in(inner).height == inner.height - 5
        }),
{
}

} // verus!
