//! The first row of the screen: the tabs, and the button of the backup.

use crate::app::state::{App, AppView};
use crate::app::{visible_tabs, AppFocus, Tab};
use crate::geometry::{clamp16, min16, monus, plus16, spec_min, Rect};
use crate::measure::{display_width, width};
use crate::model::Status;
use crate::sync_coordinator::{configured, has_work, needs_sync, SyncView};
use crate::text::{
    cat2, cat3, cat5, decimal, has_prefix, join, joined, numeral, repeat, repeated, starts_with,
    texts,
};
use crate::theme::Theme;
use crate::ui::{
    plain_run, run, shown, DrawView, Line, Scene, Span, SpanView, Style,
};
use crate::widgets::spinner;
use vstd::prelude::*;

verus! {

/// How the header looks.
#[derive(Debug)]
pub struct HeaderLook {
    pub theme: Theme,
    /// Below this width only the tab that is shown is named.
    pub narrow_width: u16,
    /// Below this width the tabs have no numbers.
    pub compact_width: u16,
    /// Where the library is, as it is shown.
    pub root: String,
    /// The library belongs to a project.
    pub local: bool,
}

// ---- the button of the backup ------------------------------------------------

/// What there is to do, counted.
pub open spec fn work_counts(status: Status) -> Seq<Seq<char>> {
    let changes = if status.changes@.len() > 0 {
        seq!["● "@ + numeral(status.changes@.len() as int)]
    } else {
        Seq::empty()
    };
    let ahead = if status.ahead > 0 {
        changes.push("↑ "@ + numeral(status.ahead as int))
    } else {
        changes
    };
    if status.behind > 0 {
        ahead.push("↓ "@ + numeral(status.behind as int))
    } else {
        ahead
    }
}

/// What there is to do, as a sign.
pub open spec fn work_sign(status: Status) -> Seq<char> {
    if status.changes@.len() > 0 {
        "●"@
    } else if status.ahead > 0 && status.behind > 0 {
        "↑↓"@
    } else if status.ahead > 0 {
        "↑"@
    } else {
        "↓"@
    }
}

/// How the backup stands: a sign, a text, and how they look.
pub open spec fn backup_state(sync: SyncView, frame: usize, theme: Theme) -> (Seq<char>, Seq<char>, Style) {
    if sync.syncing() {
        (spinner(frame)@, "Syncing…"@, theme.accent())
    } else if sync.probe is Some {
        (spinner(frame)@, "Checking…"@, theme.dim())
    } else if sync.error is Some {
        ("×"@, "× Check failed"@, theme.err())
    } else {
        match sync.status {
            Some(status) => if !configured(status) {
                ("○"@, "○ Set up backup"@, theme.warn())
            } else if has_work(status) {
                (work_sign(status), joined(work_counts(status), " · "@), theme.warn())
            } else if status.remote_checked {
                ("✓"@, "✓ Backed up"@, theme.ok())
            } else {
                ("○"@, "○ Backup ready"@, theme.dim())
            },
            None => ("○"@, "○ Backup"@, theme.dim()),
        }
    }
}

/// The label of the button of the backup; where there is room, with a text.
pub open spec fn button_label(sign: Seq<char>, text: Seq<char>, expanded: bool) -> Seq<char> {
    if !expanded {
        "["@ + sign + "]"@
    } else if has_prefix(text, sign) {
        "["@ + text + "]"@
    } else {
        "["@ + (sign + " "@ + text) + "]"@
    }
}

fn counts(status: &Status) -> (r: Vec<String>)
    ensures
        texts(r@) == work_counts(*status),
{
    let mut parts: Vec<String> = Vec::new();
    assert(texts(parts@) =~= Seq::empty());
    if status.changes.len() > 0 {
        let text = cat2("● ", decimal(status.changes.len()).as_str());
        assert(texts(parts@.push(text)) =~= seq![text@]);
        parts.push(text);
    }
    if status.ahead > 0 {
        let text = cat2("↑ ", decimal(status.ahead).as_str());
        assert(texts(parts@.push(text)) =~= texts(parts@).push(text@));
        parts.push(text);
    }
    if status.behind > 0 {
        let text = cat2("↓ ", decimal(status.behind).as_str());
        assert(texts(parts@.push(text)) =~= texts(parts@).push(text@));
        parts.push(text);
    }
    parts
}

fn status_state(status: &Status, theme: &Theme) -> (r: (&'static str, String, Style))
    ensures
        (r.0@, r.1@, r.2) == if !configured(*status) {
            ("○"@, "○ Set up backup"@, theme.warn())
        } else if has_work(*status) {
            (work_sign(*status), joined(work_counts(*status), " · "@), theme.warn())
        } else if status.remote_checked {
            ("✓"@, "✓ Backed up"@, theme.ok())
        } else {
            ("○"@, "○ Backup ready"@, theme.dim())
        },
{
    if status.settings.url.is_none() || status.settings.branch.is_none() {
        return ("○", "○ Set up backup".to_owned(), theme.warn());
    }
    if needs_sync(status) {
        let sign = if status.changes.len() > 0 {
            "●"
        } else if status.ahead > 0 && status.behind > 0 {
            "↑↓"
        } else if status.ahead > 0 {
            "↑"
        } else {
            "↓"
        };
        let parts = counts(status);
        return (sign, join(&parts, " · "), theme.warn());
    }
    if status.remote_checked {
        ("✓", "✓ Backed up".to_owned(), theme.ok())
    } else {
        ("○", "○ Backup ready".to_owned(), theme.dim())
    }
}

impl App {
    fn backup(&self, theme: &Theme) -> (r: (&'static str, String, Style))
        ensures
            (r.0@, r.1@, r.2) == backup_state(self@.sync, self@.spinner, *theme),
    {
        if self.sync.syncing() {
            return (spinner(self.spinner), "Syncing…".to_owned(), theme.accent());
        }
        if self.sync.probing() {
            return (spinner(self.spinner), "Checking…".to_owned(), theme.dim());
        }
        if self.sync.error.is_some() {
            return ("×", "× Check failed".to_owned(), theme.err());
        }
        match &self.sync.status {
            Some(status) => status_state(status, theme),
            None => ("○", "○ Backup".to_owned(), theme.dim()),
        }
    }

    /// The label of the button of the backup, and how it looks.
    pub fn sync_button_label(&self, expanded: bool, theme: &Theme) -> (r: (String, Style))
        ensures
            ({
                let (sign, text, style) = backup_state(self@.sync, self@.spinner, *theme);
                r.0@ == button_label(sign, text, expanded) && r.1 == style.bolder()
            }),
    {
        let (sign, text, style) = self.backup(theme);
        let label = if !expanded {
            cat3("[", sign, "]")
        } else if starts_with(text.as_str(), sign) {
            cat3("[", text.as_str(), "]")
        } else {
            cat3("[", cat3(sign, " ", text.as_str()).as_str(), "]")
        };
        (label, style.bolder())
    }
}

// ---- the tabs ----------------------------------------------------------------

/// How a tab is named in the header.
pub open spec fn tab_label(tabs: Seq<Tab>, i: int, compact: bool) -> Seq<char> {
    if compact {
        " "@ + tabs[i].title()@ + " "@
    } else {
        " "@ + numeral(i + 1) + " "@ + tabs[i].title()@ + " "@
    }
}

pub open spec fn label_width(label: Seq<char>) -> int {
    spec_min(display_width(label) as int, 65535)
}

/// Where the `k`th tab begins.
pub open spec fn tab_start(tabs: Seq<Tab>, compact: bool, x: int, k: int) -> int
    decreases k,
{
    if k <= 0 {
        x
    } else {
        plus16(
            tab_start(tabs, compact, x, k - 1),
            plus16(label_width(tab_label(tabs, k - 1, compact)), 1),
        )
    }
}

/// Where the tabs are.
pub open spec fn tab_places(tabs: Seq<Tab>, compact: bool, x: int, y: int, k: int) -> Seq<(Rect, Tab)> {
    Seq::new(
        k as nat,
        |i: int|
            (
                Rect::at(
                    tab_start(tabs, compact, x, i),
                    y,
                    label_width(tab_label(tabs, i, compact)),
                    1,
                ),
                tabs[i],
            ),
    )
}

pub open spec fn tab_style(tab: Tab, current: Tab, focus: AppFocus, theme: Theme) -> Style {
    if tab != current {
        theme.dim()
    } else if focus == AppFocus::Tabs {
        theme.selected().bolder()
    } else {
        theme.bold()
    }
}

/// The first tabs, as they are drawn.
pub open spec fn tab_runs(app: AppView, tabs: Seq<Tab>, compact: bool, theme: Theme, k: int) -> Seq<SpanView>
    decreases k,
{
    if k <= 0 {
        Seq::empty()
    } else {
        tab_runs(app, tabs, compact, theme, k - 1).push(
            run(
                tab_label(tabs, k - 1, compact),
                tab_style(tabs[k - 1], app.tab, app.focus, theme),
            ),
        ).push(plain_run(" "@))
    }
}

/// What is said on the right: that work is going on, or where the library is.
pub open spec fn header_note(app: AppView, look: HeaderLook) -> Seq<char> {
    if app.tasks_running > 0 && !app.sync.syncing() {
        spinner(app.spinner)@ + " working  "@
    } else if look.local {
        "local: "@ + look.root@ + "  "@
    } else {
        look.root@ + "  "@
    }
}

/// The header, laid out.
pub ghost struct HeaderPlan {
    pub button: Rect,
    pub left: Rect,
    pub rects: Seq<(Rect, Tab)>,
    pub line: Seq<SpanView>,
}

impl AppView {
    pub open spec fn button_text(self, area: Rect, theme: Theme) -> Seq<char> {
        let (sign, text, style) = backup_state(self.sync, self.spinner, theme);
        button_label(sign, text, area.width >= 72)
    }

    pub open spec fn button_style(self, theme: Theme) -> Style {
        let (sign, text, style) = backup_state(self.sync, self.spinner, theme);
        style.bolder()
    }

    pub open spec fn button_columns(self, area: Rect, theme: Theme) -> int {
        spec_min(label_width(self.button_text(area, theme)), area.width as int)
    }

    pub open spec fn button_rect(self, area: Rect, theme: Theme) -> Rect {
        let columns = self.button_columns(area, theme);
        if columns > 0 {
            Rect::at(monus(area.end_x(), columns), area.y as int, columns, 1)
        } else {
            Rect::zero()
        }
    }

    pub open spec fn header_left(self, area: Rect, theme: Theme) -> Rect {
        Rect::at(
            area.x as int,
            area.y as int,
            monus(area.width as int, self.button_columns(area, theme)),
            area.height as int,
        )
    }

    /// The header where there is room for one tab only.
    pub open spec fn narrow_header(self, area: Rect, left: Rect, theme: Theme) -> (
        Seq<(Rect, Tab)>,
        Seq<SpanView>,
    ) {
        let title = " "@ + self.tab.title()@ + " "@;
        (
            seq![
                (
                    Rect::at(
                        area.x as int,
                        area.y as int,
                        spec_min(label_width(title), left.width as int),
                        1,
                    ),
                    self.tab,
                ),
            ],
            seq![
                run(title, theme.selected()),
                run("  Tab → next · Shift+Tab ←"@, theme.placeholder()),
            ],
        )
    }

    /// Where the tabs begin.
    pub open spec fn tabs_start(area: Rect, compact: bool) -> int {
        if compact {
            area.x as int
        } else {
            plus16(area.x as int, label_width(" skills "@))
        }
    }

    /// The columns that the tabs and what belongs to them take.
    pub open spec fn header_used(self, area: Rect, compact: bool) -> int {
        let tabs = visible_tabs(self.tags_enabled);
        plus16(
            tab_start(
                tabs,
                compact,
                AppView::tabs_start(area, compact),
                tabs.len() as int,
            ),
            label_width(" Tab ↔ "@),
        ) - area.x
    }

    /// The line of the tabs.
    pub open spec fn header_line(self, area: Rect, left: Rect, compact: bool, look: HeaderLook) -> Seq<
        SpanView,
    > {
        let theme = look.theme;
        let tabs = visible_tabs(self.tags_enabled);
        let head = if compact {
            Seq::empty()
        } else {
            seq![run(" skills "@, theme.bold().fg(theme.accent))]
        };
        let base = (head + tab_runs(self, tabs, compact, theme, tabs.len() as int)).push(
            run(" Tab ↔ "@, theme.placeholder()),
        );
        let note = header_note(self, look);
        let used = self.header_used(area, compact);
        if used + display_width(note) < left.width {
            base.push(
                plain_run(repeated(' ', left.width - used - display_width(note))),
            ).push(run(note, theme.dim()))
        } else {
            base
        }
    }

    /// The header, laid out.
    pub open spec fn header_plan(self, area: Rect, look: HeaderLook) -> HeaderPlan {
        let theme = look.theme;
        let left = self.header_left(area, theme);
        let button = self.button_rect(area, theme);
        if left.width < look.narrow_width {
            let (rects, line) = self.narrow_header(area, left, theme);
            HeaderPlan { button, left, rects, line }
        } else {
            let compact = left.width < look.compact_width;
            let tabs = visible_tabs(self.tags_enabled);
            HeaderPlan {
                button,
                left,
                rects: tab_places(
                    tabs,
                    compact,
                    AppView::tabs_start(area, compact),
                    area.y as int,
                    tabs.len() as int,
                ),
                line: self.header_line(area, left, compact, look),
            }
        }
    }

    pub open spec fn header_scene(self, area: Rect, look: HeaderLook) -> Seq<DrawView> {
        let plan = self.header_plan(area, look);
        seq![
            shown(plan.left, seq![plan.line], Style::plain()),
            shown(
                plan.button,
                seq![seq![plain_run(self.button_text(area, look.theme))]],
                self.button_style(look.theme),
            ),
        ]
    }
}

impl App {
    fn header_tabs(&self, start: u16, y: u16, compact: bool, theme: &Theme) -> (r: (
        Vec<(Rect, Tab)>,
        Line,
        u16,
    ))
        ensures
            ({
                let tabs = visible_tabs(self@.tags_enabled);
                let n = tabs.len() as int;
                &&& r.0@ == tab_places(tabs, compact, start as int, y as int, n)
                &&& r.1@ == tab_runs(self@, tabs, compact, *theme, n)
                &&& r.2 == tab_start(tabs, compact, start as int, n)
            }),
    {
        let tabs = Tab::visible(self.tags_enabled);
        let ghost all = visible_tabs(self@.tags_enabled);
        let mut rects: Vec<(Rect, Tab)> = Vec::new();
        let mut line = Line::new();
        let mut x: u16 = start;
        let mut i: usize = 0;
        assert(rects@ =~= tab_places(all, compact, start as int, y as int, 0));
        assert(line@ =~= Seq::empty());
        while i < tabs.len()
            invariant
                i <= tabs.len(),
                tabs@ == all,
                all == visible_tabs(self@.tags_enabled),
                rects@ == tab_places(all, compact, start as int, y as int, i as int),
                line@ == tab_runs(self@, all, compact, *theme, i as int),
                x == tab_start(all, compact, start as int, i as int),
            decreases tabs.len() - i,
        {
            let tab = tabs[i];
            let label = if compact {
                cat3(" ", tab.title(), " ")
            } else {
                cat5(" ", decimal(i + 1).as_str(), " ", tab.title(), " ")
            };
            let style = if tab != self.tab {
                theme.dim()
            } else if self.focus == AppFocus::Tabs {
                theme.selected().bolder()
            } else {
                theme.bold()
            };
            let w: u16 = clamp16(width(label.as_str()));
            rects.push((Rect::new(x, y, w, 1), tab));
            line.push(Span::of(label, style));
            line.push(Span::raw(" "));
            x = x.saturating_add(w.saturating_add(1));
            i = i + 1;
            assert(rects@ =~= tab_places(all, compact, start as int, y as int, i as int));
        }
        (rects, line, x)
    }

    fn note_text(&self, look: &HeaderLook) -> (r: String)
        ensures
            r@ == header_note(self@, *look),
    {
        if self.tasks_running > 0 && !self.sync.syncing() {
            cat2(spinner(self.spinner), " working  ")
        } else if look.local {
            cat3("local: ", look.root.as_str(), "  ")
        } else {
            cat2(look.root.as_str(), "  ")
        }
    }

    fn wide_header(&self, area: Rect, left: Rect, compact: bool, look: &HeaderLook) -> (r: (
        Vec<(Rect, Tab)>,
        Line,
    ))
        ensures
            ({
                let tabs = visible_tabs(self@.tags_enabled);
                &&& r.0@ == tab_places(
                    tabs,
                    compact,
                    AppView::tabs_start(area, compact),
                    area.y as int,
                    tabs.len() as int,
                )
                &&& r.1@ == self@.header_line(area, left, compact, *look)
            }),
    {
        let theme = &look.theme;
        let start: u16 = if compact {
            area.x
        } else {
            area.x.saturating_add(clamp16(width(" skills ")))
        };
        let (rects, tabs, end) = self.header_tabs(start, area.y, compact, theme);
        let ghost runs = tabs@;
        let mut line = Line::new();
        if !compact {
            line.push(Span::styled(" skills ", theme.bold().fg(theme.accent)));
        }
        let ghost head = line@;
        line.extend(tabs);
        line.push(Span::styled(" Tab ↔ ", theme.placeholder()));
        let after: u16 = end.saturating_add(clamp16(width(" Tab ↔ ")));
        proof {
            let all = visible_tabs(self@.tags_enabled);
            lemma_tabs_grow(all, compact, start as int, all.len() as int);
        }
        let used: usize = (after - area.x) as usize;
        let note = self.note_text(look);
        let note_width = width(note.as_str());
        let room: usize = left.width as usize;
        if used < room && note_width < room - used {
            let pad = room - used - note_width;
            line.push(Span::of(repeat(' ', pad), Style::plain()));
            line.push(Span::of(note, theme.dim()));
        }
        assert(line@ =~= self@.header_line(area, left, compact, *look));
        (rects, line)
    }

    fn lay_out_header(&self, area: Rect, left: Rect, look: &HeaderLook) -> (r: (Vec<(Rect, Tab)>, Line))
        requires
            left == self@.header_left(area, look.theme),
        ensures
            r.0@ == self@.header_plan(area, *look).rects,
            r.1@ == self@.header_plan(area, *look).line,
    {
        let theme = &look.theme;
        if left.width < look.narrow_width {
            let title = cat3(" ", self.tab.title(), " ");
            let mut rects: Vec<(Rect, Tab)> = Vec::new();
            rects.push(
                (
                    Rect::new(
                        area.x,
                        area.y,
                        min16(clamp16(width(title.as_str())), left.width),
                        1,
                    ),
                    self.tab,
                ),
            );
            let mut line = Line::new();
            line.push(Span::of(title, theme.selected()));
            line.push(Span::styled("  Tab → next · Shift+Tab ←", theme.placeholder()));
            assert(rects@ =~= self@.narrow_header(area, left, *theme).0);
            assert(line@ =~= self@.narrow_header(area, left, *theme).1);
            return (rects, line);
        }
        self.wide_header(area, left, left.width < look.compact_width, look)
    }

    /// Draws the header, and notes where its parts are.
    pub fn draw_header(&mut self, area: Rect, look: &HeaderLook) -> (r: Scene)
        requires
            old(self).valid(),
        ensures
            r@ == old(self)@.header_scene(area, *look),
            final(self)@ == (AppView {
                tab_rects: old(self)@.header_plan(area, *look).rects,
                sync_button: old(self)@.header_plan(area, *look).button,
                ..old(self)@
            }),
            final(self).modal == old(self).modal,
            final(self).valid(),
    {
        reveal(App::valid);
        let theme = &look.theme;
        let (label, style) = self.sync_button_label(area.width >= 72, theme);
        let columns: u16 = min16(clamp16(width(label.as_str())), area.width);
        let button = if columns > 0 {
            Rect::new(area.right().saturating_sub(columns), area.y, columns, 1)
        } else {
            Rect::zero()
        };
        let left = Rect::new(
            area.x,
            area.y,
            area.width.saturating_sub(columns),
            area.height,
        );
        let (rects, line) = self.lay_out_header(area, left, look);
        let mut scene = Scene::new();
        scene.line(left, line, Style::plain());
        scene.note(button, label.as_str(), style);
        self.tab_rects = rects;
        self.sync_button = button;
        scene
    }

    /// The cell of the tab that is shown, where the tabs have the focus.
    pub fn tab_cursor(&self) -> (r: Option<(u16, u16)>)
        ensures
            r == if self@.focus == AppFocus::Tabs {
                place_of(self@.tab_rects, self@.tab, 0)
            } else {
                None
            },
    {
        if self.focus != AppFocus::Tabs {
            return None;
        }
        let mut i: usize = 0;
        while i < self.tab_rects.len()
            invariant
                i <= self.tab_rects.len(),
                self.focus == AppFocus::Tabs,
                place_of(self.tab_rects@, self.tab, 0) == place_of(
                    self.tab_rects@,
                    self.tab,
                    i as int,
                ),
            decreases self.tab_rects.len() - i,
        {
            if self.tab_rects[i].1 == self.tab {
                return Some((self.tab_rects[i].0.x, self.tab_rects[i].0.y));
            }
            i = i + 1;
        }
        None
    }
}

/// The first cell of a tab.
pub open spec fn place_of(rects: Seq<(Rect, Tab)>, tab: Tab, at: int) -> Option<(u16, u16)>
    decreases rects.len() - at,
{
    if at < 0 || at >= rects.len() {
        None
    } else if rects[at].1 == tab {
        Some((rects[at].0.x, rects[at].0.y))
    } else {
        place_of(rects, tab, at + 1)
    }
}

proof fn lemma_tabs_grow(tabs: Seq<Tab>, compact: bool, x: int, k: int)
    requires
        0 <= x <= 65535,
        k >= 0,
    ensures
        x <= tab_start(tabs, compact, x, k) <= 65535,
    decreases k,
{
    if k > 0 {
        lemma_tabs_grow(tabs, compact, x, k - 1);
    }
}

// ---- laws --------------------------------------------------------------------

/// Every tab that is shown can be pressed, or the one that is current where there is no
/// room for more.
pub proof fn lemma_tabs_can_be_pressed(app: AppView, area: Rect, look: HeaderLook)
    ensures
        ({
            let plan = app.header_plan(area, look);
            let left = app.header_left(area, look.theme);
            if left.width < look.narrow_width {
                plan.rects.len() == 1 && plan.rects[0].1 == app.tab
            } else {
                plan.rects.len() == visible_tabs(app.tags_enabled).len() && forall|i: int|
                    0 <= i < plan.rects.len() ==> #[trigger] plan.rects[i].1 == visible_tabs(
                        app.tags_enabled,
                    )[i]
            }
        }),
{
}

/// The button of the backup stays within its row, at its right end.
pub proof fn lemma_button_is_at_the_end(app: AppView, area: Rect, theme: Theme)
    requires
        area.in_range(),
        app.button_columns(area, theme) > 0,
    ensures
        app.button_rect(area, theme).end_x() == area.end_x(),
        app.button_rect(area, theme).x >= area.x,
{
}

/// What the button of the backup says: what runs first, then what failed, then what is
/// missing, then what there is to exchange, counted, and only then that all is well.
pub proof fn lemma_what_the_backup_says(sync: SyncView, frame: usize, theme: Theme)
    requires
        !sync.syncing(),
        sync.probe is None,
    ensures
        sync.error is Some ==> backup_state(sync, frame, theme) == (
            "×"@,
            "× Check failed"@,
            theme.err(),
        ),
        sync.error is None && sync.status is None ==> backup_state(sync, frame, theme) == (
            "○"@,
            "○ Backup"@,
            theme.dim(),
        ),
        sync.error is None && sync.status is Some && (sync.status->0.settings.url is None
            || sync.status->0.settings.branch is None) ==> backup_state(sync, frame, theme) == (
            "○"@,
            "○ Set up backup"@,
            theme.warn(),
        ),
        sync.error is None && sync.status is Some && sync.status->0.settings.url is Some
            && sync.status->0.settings.branch is Some ==> {
            let status = sync.status->0;
            let said = backup_state(sync, frame, theme);
            let quiet = status.changes@.len() == 0 && status.ahead == 0 && status.behind == 0;
            &&& quiet && status.remote_checked ==> said == ("✓"@, "✓ Backed up"@, theme.ok())
            &&& quiet && !status.remote_checked ==> said == (
                "○"@,
                "○ Backup ready"@,
                theme.dim(),
            )
            &&& !quiet ==> said.2 == theme.warn()
            &&& status.changes@.len() > 0 ==> said.0 == "●"@
            &&& status.changes@.len() == 0 && status.ahead > 0 && status.behind > 0 ==> said.0
                == "↑↓"@
            &&& status.changes@.len() == 0 && status.ahead > 0 && status.behind == 0 ==> said.0
                == "↑"@
            &&& status.changes@.len() == 0 && status.ahead == 0 && status.behind > 0 ==> said.0
                == "↓"@
        },
{
}

/// What there is to exchange is counted: changes, then what is ahead, then what is behind.
pub proof fn lemma_what_is_exchanged_is_counted(sync: SyncView, frame: usize, theme: Theme)
    requires
        !sync.syncing(),
        sync.probe is None,
        sync.error is None,
        sync.status is Some,
        sync.status->0.settings.url is Some,
        sync.status->0.settings.branch is Some,
    ensures
        ({
            let status = sync.status->0;
            let said = backup_state(sync, frame, theme).1;
            let c = status.changes@.len() as int;
            let a = status.ahead as int;
            let b = status.behind as int;
            &&& c > 0 && a == 0 && b == 0 ==> said == "● "@ + numeral(c)
            &&& c == 0 && a > 0 && b == 0 ==> said == "↑ "@ + numeral(a)
            &&& c == 0 && a == 0 && b > 0 ==> said == "↓ "@ + numeral(b)
            &&& c > 0 && a > 0 && b == 0 ==> said == ("● "@ + numeral(c)) + " · "@ + ("↑ "@
                + numeral(a))
            &&& c > 0 && a == 0 && b > 0 ==> said == ("● "@ + numeral(c)) + " · "@ + ("↓ "@
                + numeral(b))
            &&& c == 0 && a > 0 && b > 0 ==> said == ("↑ "@ + numeral(a)) + " · "@ + ("↓ "@
                + numeral(b))
            &&& c > 0 && a > 0 && b > 0 ==> said == (("● "@ + numeral(c)) + " · "@ + ("↑ "@
                + numeral(a))) + " · "@ + ("↓ "@ + numeral(b))
        }),
{
    reveal_with_fuel(joined, 3);
    let status = sync.status->0;
    let parts = work_counts(status);
    if parts.len() == 2 {
        assert(parts.drop_last() =~= seq![parts[0]]);
    }
    if parts.len() == 3 {
        assert(parts.drop_last().drop_last() =~= seq![parts[0]]);
        assert(parts.drop_last().last() == parts[1]);
    }
}

/// While something runs the button turns, and says what it is.
pub proof fn lemma_the_button_turns(sync: SyncView, frame: usize, theme: Theme)
    ensures
        sync.syncing() ==> backup_state(sync, frame, theme) == (
            spinner(frame)@,
            "Syncing…"@,
            theme.accent(),
        ),
        !sync.syncing() && sync.probe is Some ==> backup_state(sync, frame, theme) == (
            spinner(frame)@,
            "Checking…"@,
            theme.dim(),
        ),
{
}

/// The button shows the sign where there is little room, and the sign with its text where
/// there is more; a text that begins with the sign does not show it twice.
pub proof fn lemma_what_the_button_shows(sign: Seq<char>, text: Seq<char>)
    ensures
        button_label(sign, text, false) == "["@ + sign + "]"@,
        has_prefix(text, sign) ==> button_label(sign, text, true) == "["@ + text + "]"@,
        !has_prefix(text, sign) ==> button_label(sign, text, true) == "["@ + (sign + " "@ + text)
            + "]"@,
{
}

/// Each tab is called by its title, with its number before it where there is room.
pub proof fn lemma_tabs_are_named(tabs: Seq<Tab>, i: int)
    requires
        0 <= i < tabs.len(),
    ensures
        tab_label(tabs, i, true) == " "@ + tabs[i].title()@ + " "@,
        tab_label(tabs, i, false) == " "@ + numeral(i + 1) + " "@ + tabs[i].title()@ + " "@,
{
}

/// Only the tab that is shown stands out, most where the tabs have the keys.
pub proof fn lemma_the_shown_tab_stands_out(tab: Tab, current: Tab, theme: Theme)
    ensures
        tab != current ==> tab_style(tab, current, AppFocus::Tabs, theme) == theme.dim()
            && tab_style(tab, current, AppFocus::Page, theme) == theme.dim(),
        tab == current ==> tab_style(tab, current, AppFocus::Tabs, theme)
            == theme.selected().bolder() && tab_style(tab, current, AppFocus::Page, theme)
            == theme.bold(),
{
}

/// The header says that work is running, or where the library is.
pub proof fn lemma_what_the_header_notes(app: AppView, look: HeaderLook)
    ensures
        app.tasks_running > 0 && !app.sync.syncing() ==> header_note(app, look) == spinner(
            app.spinner,
        )@ + " working  "@,
        (app.tasks_running == 0 || app.sync.syncing()) && look.local ==> header_note(app, look)
            == "local: "@ + look.root@ + "  "@,
        (app.tasks_running == 0 || app.sync.syncing()) && !look.local ==> header_note(app, look)
            == look.root@ + "  "@,
{
}

/// The tabs stand behind the name of the program where there is room for it, and at the left
/// edge where there is none.
pub proof fn lemma_where_the_tabs_begin(area: Rect)
    requires
        area.x + label_width(" skills "@) <= 65535,
    ensures
        AppView::tabs_start(area, true) == area.x,
        AppView::tabs_start(area, false) - AppView::tabs_start(area, true) == label_width(
            " skills "@,
        ),
{
}

} // verus!
