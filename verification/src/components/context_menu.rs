//! The menu of what can be done with an item. The view that owns the item runs the command.

use crate::geometry::{clamp16, max16, min16, monus, plus16, spec_max, spec_min, Rect};
use crate::keymap::{KeyCode, KeyEvent, KeyModifiers, MouseEvent, MouseKind};
use crate::measure::{display_width, fit, fitted, width};
use crate::text::{cat2, cat3, repeat, repeated};
use crate::theme::Theme;
use crate::ui::{framed, plain_run, shown, DrawView, Scene, Style};
use vstd::prelude::*;

verus! {

#[derive(Debug, Clone, Copy, PartialEq, Eq, Structural)]
pub enum Command {
    Open,
    Tags,
    Presets,
    Deploy,
    Note,
    Rename,
    Source,
    Check,
    Update,
    Accept,
    Remove,
    Relink,
    Adopt,
}

/// What a menu is about.
#[derive(Debug)]
pub enum Target {
    Skill(String),
    Batch { all: Vec<String>, visible: Vec<String> },
    Entry { key: String, scope: String, path: String, state: String },
}

#[derive(Debug)]
pub struct Item {
    pub command: Command,
    pub label: String,
    pub shortcut: KeyCode,
    /// Why the command is not available.
    pub disabled: Option<String>,
    pub group: u8,
    pub danger: bool,
}

impl Item {
    pub fn new(
        command: Command,
        label: &str,
        shortcut: KeyCode,
        enabled: bool,
        reason: &str,
        group: u8,
    ) -> (r: Item)
        ensures
            r.command == command,
            r.label@ == label@,
            r.shortcut == shortcut,
            r.disabled is Some == !enabled,
            !enabled ==> r.disabled->0@ == reason@,
            r.group == group,
            r.danger == (command == Command::Remove),
    {
        Item {
            command,
            label: label.to_owned(),
            shortcut,
            disabled: if enabled {
                None
            } else {
                Some(reason.to_owned())
            },
            group,
            danger: command == Command::Remove,
        }
    }
}

#[derive(Debug)]
pub struct Request {
    pub title: String,
    pub detail: String,
    pub target: Target,
    pub items: Vec<Item>,
}

impl Request {
    /// The command is in the menu and available.
    pub open spec fn offers(self, command: Command) -> bool {
        exists|i: int|
            0 <= i < self.items@.len() && (#[trigger] self.items@[i]).command == command
                && self.items@[i].disabled is None
    }

    pub fn allows(&self, command: Command) -> (r: bool)
        ensures
            r == self.offers(command),
    {
        let mut i: usize = 0;
        while i < self.items.len()
            invariant
                i <= self.items.len(),
                forall|k: int|
                    0 <= k < i ==> !((#[trigger] self.items@[k]).command == command
                        && self.items@[k].disabled is None),
            decreases self.items.len() - i,
        {
            if self.items[i].command == command && self.items[i].disabled.is_none() {
                return true;
            }
            i = i + 1;
        }
        false
    }

    /// Some command is not available.
    pub open spec fn has_disabled(self) -> bool {
        exists|i: int| 0 <= i < self.items@.len() && (#[trigger] self.items@[i]).disabled is Some
    }

    fn any_disabled(&self) -> (r: bool)
        ensures
            r == self.has_disabled(),
    {
        let mut i: usize = 0;
        while i < self.items.len()
            invariant
                i <= self.items.len(),
                forall|k: int| 0 <= k < i ==> (#[trigger] self.items@[k]).disabled is None,
            decreases self.items.len() - i,
        {
            if self.items[i].disabled.is_some() {
                return true;
            }
            i = i + 1;
        }
        false
    }
}

#[derive(Debug, Clone, Copy, PartialEq, Eq, Structural)]
pub enum MenuEvent {
    Stay,
    Close,
    Execute(Command),
}

#[derive(Debug)]
pub struct ContextMenu {
    pub request: Request,
    pub anchor: (u16, u16),
    pub selected: usize,
    pub offset: usize,
    pub area: Rect,
    pub hits: Vec<(Rect, usize)>,
}

pub ghost struct MenuView {
    pub request: Request,
    pub anchor: (u16, u16),
    pub selected: usize,
    pub offset: usize,
    pub area: Rect,
    pub hits: Seq<(Rect, usize)>,
}

impl View for ContextMenu {
    type V = MenuView;

    open spec fn view(&self) -> MenuView {
        MenuView {
            request: self.request,
            anchor: self.anchor,
            selected: self.selected,
            offset: self.offset,
            area: self.area,
            hits: self.hits@,
        }
    }
}

/// What the mouse can do, below the commands.
pub open spec fn mouse_footer() -> Seq<char> {
    "Left click to run · right click outside to close"@
}

/// The first of the items, from `at` on, that a key stands for.
pub open spec fn shortcut_from(items: Seq<Item>, code: KeyCode, at: int) -> Option<usize>
    decreases items.len() - at,
{
    if at < 0 || at >= items.len() {
        None
    } else if items[at].shortcut == code {
        Some(at as usize)
    } else {
        shortcut_from(items, code, at + 1)
    }
}

/// The first of the hits, from `at` on, that holds a cell.
pub open spec fn hit_from(hits: Seq<(Rect, usize)>, x: int, y: int, at: int) -> Option<usize>
    decreases hits.len() - at,
{
    if at < 0 || at >= hits.len() {
        None
    } else if hits[at].0.has(x, y) {
        Some(hits[at].1)
    } else {
        hit_from(hits, x, y, at + 1)
    }
}

/// The lines of the first `n` items: an item, or nothing between two groups.
pub open spec fn item_lines(items: Seq<Item>, n: int) -> Seq<Option<usize>>
    decreases n,
{
    if n <= 0 {
        Seq::empty()
    } else {
        let head = item_lines(items, n - 1);
        let line = Some((n - 1) as usize);
        if n > 1 && items[n - 2].group != items[n - 1].group {
            head.push(None).push(line)
        } else {
            head.push(line)
        }
    }
}

/// The columns that an item wants.
pub open spec fn item_columns(item: Item) -> int {
    spec_max(
        display_width(item.label@) + 4int,
        match item.disabled {
            Some(reason) => display_width(reason@) + 4int,
            None => 0,
        },
    )
}

/// The columns that the first `n` items want, and the title and the detail.
pub open spec fn menu_columns(request: Request, n: int) -> int
    decreases n,
{
    if n <= 0 {
        spec_max(display_width(request.title@) + 4int, display_width(request.detail@) + 4int)
    } else {
        spec_max(menu_columns(request, n - 1), item_columns(request.items@[n - 1]))
    }
}

/// The columns that the reasons below the first `n` items want.
pub open spec fn footer_columns(items: Seq<Item>, n: int) -> int
    decreases n,
{
    if n <= 0 {
        display_width(mouse_footer()) as int
    } else {
        spec_max(
            footer_columns(items, n - 1),
            match items[n - 1].disabled {
                Some(reason) => display_width(reason@) as int,
                None => 0,
            },
        )
    }
}

/// The columns of a menu, between 36 and 72.
pub open spec fn wanted_columns(request: Request) -> int {
    let n = request.items@.len() as int;
    let footer = if request.has_disabled() {
        footer_columns(request.items@, n) + 2
    } else {
        0
    };
    spec_min(72, spec_max(36, spec_max(menu_columns(request, n), footer)))
}

/// The line of the selected item, or the first one.
pub open spec fn line_of_item(lines: Seq<Option<usize>>, selected: usize, at: int) -> int
    decreases lines.len() - at,
{
    if at < 0 || at >= lines.len() {
        0
    } else if lines[at] == Some(selected) {
        at
    } else {
        line_of_item(lines, selected, at + 1)
    }
}

/// `1` or `0`.
pub open spec fn one_if(b: bool) -> int {
    if b {
        1
    } else {
        0
    }
}

/// A rectangle without its first and last column, of at least two.
pub open spec fn without_sides(rect: Rect) -> Rect {
    if rect.width < 2 {
        Rect::zero()
    } else {
        Rect { x: plus16(rect.x as int, 1) as u16, width: (rect.width - 2) as u16, ..rect }
    }
}

impl MenuView {
    pub open spec fn moved(self, delta: int) -> MenuView {
        MenuView {
            selected: spec_max(
                0,
                spec_min(self.selected + delta, monus(self.request.items@.len() as int, 1)),
            ) as usize,
            ..self
        }
    }

    /// What running the selected item does.
    pub open spec fn activation(self) -> MenuEvent {
        if self.selected < self.request.items@.len()
            && self.request.items@[self.selected as int].disabled is None {
            MenuEvent::Execute(self.request.items@[self.selected as int].command)
        } else {
            MenuEvent::Stay
        }
    }

    /// The item that a key stands for.
    pub open spec fn shortcut(self, key: KeyEvent) -> Option<usize> {
        if key.code is Char && (key.modifiers == KeyModifiers::none() || key.modifiers
            == KeyModifiers::shift()) {
            shortcut_from(self.request.items@, key.code, 0)
        } else {
            None
        }
    }

    pub open spec fn keyed(self, key: KeyEvent) -> MenuView {
        match key.code {
            KeyCode::Esc => self,
            KeyCode::Up => self.moved(-1),
            KeyCode::Down => self.moved(1),
            KeyCode::Enter => self,
            _ => match self.shortcut(key) {
                Some(index) => MenuView { selected: index, ..self },
                None => self,
            },
        }
    }

    pub open spec fn key_event(self, key: KeyEvent) -> MenuEvent {
        match key.code {
            KeyCode::Esc => MenuEvent::Close,
            KeyCode::Up => MenuEvent::Stay,
            KeyCode::Down => MenuEvent::Stay,
            KeyCode::Enter => self.activation(),
            _ => if self.shortcut(key) is Some {
                self.keyed(key).activation()
            } else {
                MenuEvent::Stay
            },
        }
    }

    pub open spec fn presses(event: MouseEvent) -> bool {
        event.kind == MouseKind::Down || event.kind == MouseKind::RightDown || event.kind
            == MouseKind::MiddleDown
    }

    /// The item under the mouse.
    pub open spec fn under(self, event: MouseEvent) -> Option<usize> {
        hit_from(self.hits, event.column as int, event.row as int, 0)
    }

    pub open spec fn closes(self, event: MouseEvent) -> bool {
        Self::presses(event) && !self.area.has(event.column as int, event.row as int)
    }

    pub open spec fn moused(self, event: MouseEvent) -> MenuView {
        if self.closes(event) {
            self
        } else {
            match event.kind {
                MouseKind::Moved => match self.under(event) {
                    Some(index) => MenuView { selected: index, ..self },
                    None => self,
                },
                MouseKind::Down => match self.under(event) {
                    Some(index) => MenuView { selected: index, ..self },
                    None => self,
                },
                MouseKind::ScrollUp => self.moved(-1),
                MouseKind::ScrollDown => self.moved(1),
                _ => self,
            }
        }
    }

    pub open spec fn mouse_event(self, event: MouseEvent) -> MenuEvent {
        if self.closes(event) {
            MenuEvent::Close
        } else if event.kind == MouseKind::Down && self.under(event) is Some {
            self.moused(event).activation()
        } else {
            MenuEvent::Stay
        }
    }

    // ---- layout --------------------------------------------------------------

    pub open spec fn lines(self) -> Seq<Option<usize>> {
        item_lines(self.request.items@, self.request.items@.len() as int)
    }

    pub open spec fn has_detail(self) -> bool {
        self.request.detail@.len() > 0
    }

    /// Where the menu goes: at its anchor, moved into the bounds.
    #[verifier::opaque]
    pub open spec fn area_in(self, bounds: Rect) -> Rect {
        let w = spec_min(wanted_columns(self.request), bounds.width as int);
        let h = spec_min(
            spec_min(
                self.lines().len() + 2 + one_if(self.has_detail()) + 2 * one_if(
                    self.request.has_disabled(),
                ),
                65535,
            ),
            bounds.height as int,
        );
        Rect::at(
            spec_max(
                spec_min(self.anchor.0 as int, monus(bounds.end_x(), w)),
                bounds.x as int,
            ),
            spec_max(
                spec_min(self.anchor.1 as int, monus(bounds.end_y(), h)),
                bounds.y as int,
            ),
            w,
            h,
        )
    }

    /// The menu has room for anything.
    pub open spec fn open_in(self, bounds: Rect) -> bool {
        let inner = self.area_in(bounds).inside();
        inner.width > 0 && inner.height > 0
    }

    pub open spec fn shows_detail(self, inner: Rect) -> bool {
        self.has_detail() && inner.height >= 3
    }

    pub open spec fn shows_footer(self, inner: Rect) -> bool {
        self.request.has_disabled() && inner.height >= 2
    }

    pub open spec fn has_gap(self, inner: Rect) -> bool {
        self.shows_footer(inner) && inner.height > one_if(self.shows_detail(inner)) + 2
    }

    /// How many lines of the menu are on the screen.
    #[verifier::opaque]
    pub open spec fn row_count(self, inner: Rect) -> int {
        monus(
            inner.height as int,
            one_if(self.shows_detail(inner)) + one_if(self.shows_footer(inner)) + one_if(
                self.has_gap(inner),
            ),
        )
    }

    /// The first line on the screen, so that the selected one is among them.
    #[verifier::opaque]
    pub open spec fn offset_for(self, rows: int) -> int {
        let line = line_of_item(self.lines(), self.selected, 0);
        let up = if line < self.offset {
            line
        } else {
            self.offset as int
        };
        if rows > 0 && line >= up + rows {
            line + 1 - rows
        } else {
            up
        }
    }

    /// The rectangle of the `k`th line on the screen.
    pub open spec fn row_rect(self, inner: Rect, k: int) -> Rect {
        Rect::at(
            inner.x as int,
            inner.y + one_if(self.shows_detail(inner)) + k,
            inner.width as int,
            1,
        )
    }

    /// How many lines are drawn.
    pub open spec fn drawn(self, inner: Rect) -> int {
        let rows = self.row_count(inner);
        spec_min(rows, monus(self.lines().len() as int, self.offset_for(rows)))
    }

    /// The items among the first `k` lines on the screen.
    pub open spec fn hits_in(self, inner: Rect, offset: int, k: int) -> Seq<(Rect, usize)>
        decreases k,
    {
        if k <= 0 {
            Seq::empty()
        } else {
            match self.lines()[offset + k - 1] {
                Some(index) => self.hits_in(inner, offset, k - 1).push(
                    (self.row_rect(inner, k - 1), index),
                ),
                None => self.hits_in(inner, offset, k - 1),
            }
        }
    }

    /// The menu once it has been drawn.
    pub open spec fn placed(self, bounds: Rect) -> MenuView {
        let area = self.area_in(bounds);
        let inner = area.inside();
        if !self.open_in(bounds) {
            MenuView { area, hits: Seq::empty(), ..self }
        } else {
            let offset = self.offset_for(self.row_count(inner));
            MenuView {
                area,
                offset: offset as usize,
                hits: self.hits_in(inner, offset, self.drawn(inner)),
                ..self
            }
        }
    }

    pub open spec fn item_style(self, index: int, theme: Theme) -> Style {
        let item = self.request.items@[index];
        if index == self.selected {
            if item.disabled is Some {
                theme.selected().dimmer()
            } else {
                theme.selected()
            }
        } else if item.disabled is Some {
            theme.placeholder()
        } else if item.danger {
            theme.err()
        } else {
            Style::plain()
        }
    }

    pub open spec fn item_text(self, index: int, columns: int) -> Seq<char> {
        let marker = if index == self.selected {
            "›"@
        } else {
            " "@
        };
        fitted(
            marker + " "@ + fitted(self.request.items@[index].label@, monus(columns, 2)),
            columns,
        )
    }

    /// What the `k`th line on the screen looks like.
    pub open spec fn row_draw(self, inner: Rect, offset: int, k: int, theme: Theme) -> DrawView {
        let rect = self.row_rect(inner, k);
        match self.lines()[offset + k] {
            None => shown(
                without_sides(rect),
                seq![seq![plain_run(repeated('─', monus(inner.width as int, 2)))]],
                Style::colored(theme.border).dimmer(),
            ),
            Some(index) => shown(
                rect,
                seq![seq![plain_run(self.item_text(index as int, inner.width as int))]],
                self.item_style(index as int, theme),
            ),
        }
    }

    pub open spec fn rows_drawn(self, inner: Rect, offset: int, k: int, theme: Theme) -> Seq<DrawView>
        decreases k,
    {
        if k <= 0 {
            Seq::empty()
        } else {
            self.rows_drawn(inner, offset, k - 1, theme).push(
                self.row_draw(inner, offset, k - 1, theme),
            )
        }
    }

    /// Why the selected item is not available, or what the mouse can do; with a sign that
    /// there is more than is shown.
    pub open spec fn footer_text(self, offset: int, rows: int) -> Seq<char> {
        let reason = if self.selected < self.request.items@.len()
            && self.request.items@[self.selected as int].disabled is Some {
            (self.request.items@[self.selected as int].disabled->0)@
        } else {
            mouse_footer()
        };
        if offset > 0 || offset + rows < self.lines().len() {
            "↕ "@ + reason
        } else {
            reason
        }
    }

    /// The line above the items.
    pub open spec fn detail_drawn(self, inner: Rect, theme: Theme) -> Seq<DrawView> {
        if self.shows_detail(inner) {
            seq![
                shown(
                    Rect::at(inner.x as int, inner.y as int, inner.width as int, 1),
                    seq![seq![plain_run(fitted(self.request.detail@, inner.width as int))]],
                    theme.dim(),
                ),
            ]
        } else {
            Seq::empty()
        }
    }

    /// The line below the items.
    pub open spec fn footer_drawn(self, inner: Rect, theme: Theme) -> Seq<DrawView> {
        let rows = self.row_count(inner);
        if self.shows_footer(inner) {
            seq![
                shown(
                    Rect::at(inner.x as int, inner.end_y() - 1, inner.width as int, 1),
                    seq![
                        seq![
                            plain_run(
                                fitted(
                                    self.footer_text(self.offset_for(rows), rows),
                                    inner.width as int,
                                ),
                            ),
                        ],
                    ],
                    theme.placeholder(),
                ),
            ]
        } else {
            Seq::empty()
        }
    }

    /// Everything inside of the border.
    pub open spec fn inside_drawn(self, inner: Rect, theme: Theme) -> Seq<DrawView> {
        self.detail_drawn(inner, theme) + self.rows_drawn(
            inner,
            self.offset_for(self.row_count(inner)),
            self.drawn(inner),
            theme,
        ) + self.footer_drawn(inner, theme)
    }

    pub open spec fn scene(self, bounds: Rect, theme: Theme) -> Seq<DrawView> {
        let area = self.area_in(bounds);
        let title = fitted(self.request.title@, monus(area.width as int, 4));
        let frame = seq![DrawView::Clear(area), framed(area, title)];
        if !self.open_in(bounds) {
            frame
        } else {
            frame + self.inside_drawn(area.inside(), theme)
        }
    }

    /// There are few enough items for their lines to be counted.
    pub open spec fn valid(self) -> bool {
        self.request.items@.len() <= 0x3fff_ffff
    }
}

proof fn lemma_item_lines_bounds(items: Seq<Item>, n: int)
    requires
        0 <= n <= items.len(),
    ensures
        n <= item_lines(items, n).len() <= 2 * n,
        forall|i: int|
            0 <= i < item_lines(items, n).len() ==> match #[trigger] item_lines(items, n)[i] {
                Some(index) => index < n,
                None => true,
            },
    decreases n,
{
    if n > 0 {
        lemma_item_lines_bounds(items, n - 1);
    }
}

proof fn lemma_line_of_item(lines: Seq<Option<usize>>, selected: usize, at: int)
    requires
        0 <= at,
    ensures
        0 <= line_of_item(lines, selected, at),
        lines.len() > 0 ==> line_of_item(lines, selected, at) < lines.len(),
        lines.len() == 0 ==> line_of_item(lines, selected, at) == 0,
    decreases lines.len() - at,
{
    if at < lines.len() && lines[at] != Some(selected) {
        lemma_line_of_item(lines, selected, at + 1);
    }
}

proof fn lemma_same_area(a: MenuView, b: MenuView, bounds: Rect)
    requires
        a.request == b.request,
        a.anchor == b.anchor,
    ensures
        a.area_in(bounds) == b.area_in(bounds),
{
    reveal(MenuView::area_in);
}

proof fn lemma_same_offset(a: MenuView, b: MenuView, rows: int)
    requires
        a.request == b.request,
        a.selected == b.selected,
        a.offset == b.offset,
    ensures
        a.offset_for(rows) == b.offset_for(rows),
{
    reveal(MenuView::offset_for);
}

/// How a menu is laid out depends on its request, its selection and its offset alone.
proof fn lemma_same_layout(a: MenuView, b: MenuView, inner: Rect, theme: Theme)
    requires
        a.request == b.request,
        a.selected == b.selected,
        a.offset_for(a.row_count(inner)) == b.offset_for(a.row_count(inner)),
    ensures
        a.row_count(inner) == b.row_count(inner),
        a.shows_detail(inner) == b.shows_detail(inner),
        a.drawn(inner) == b.drawn(inner),
        a.detail_drawn(inner, theme) == b.detail_drawn(inner, theme),
        a.footer_drawn(inner, theme) == b.footer_drawn(inner, theme),
{
    reveal(MenuView::row_count);
}

/// What is drawn depends on the request and the selection alone.
proof fn lemma_same_drawing(
    a: MenuView,
    b: MenuView,
    inner: Rect,
    offset: int,
    k: int,
    theme: Theme,
)
    requires
        a.request == b.request,
        a.selected == b.selected,
    ensures
        a.rows_drawn(inner, offset, k, theme) == b.rows_drawn(inner, offset, k, theme),
        a.hits_in(inner, offset, k) == b.hits_in(inner, offset, k),
    decreases k,
{
    if k > 0 {
        lemma_same_drawing(a, b, inner, offset, k - 1, theme);
    }
}

impl ContextMenu {
    /// A menu that opens at a cell.
    pub fn new(request: Request, x: u16, y: u16) -> (r: ContextMenu)
        ensures
            r@ == (MenuView {
                request,
                anchor: (x, y),
                selected: 0,
                offset: 0,
                area: Rect::zero(),
                hits: Seq::empty(),
            }),
    {
        let r = ContextMenu {
            request,
            anchor: (x, y),
            selected: 0,
            offset: 0,
            area: Rect::zero(),
            hits: Vec::new(),
        };
        assert(r@.hits =~= Seq::empty());
        r
    }

    /// A menu that was asked for by a key: it opens in the corner of the screen.
    pub fn keyboard(request: Request) -> (r: ContextMenu)
        ensures
            r@ == (MenuView {
                request,
                anchor: (0, 0),
                selected: 0,
                offset: 0,
                area: Rect::zero(),
                hits: Seq::empty(),
            }),
    {
        ContextMenu::new(request, 0, 0)
    }

    fn activate(&self) -> (r: MenuEvent)
        ensures
            r == self@.activation(),
    {
        if self.selected < self.request.items.len()
            && self.request.items[self.selected].disabled.is_none() {
            MenuEvent::Execute(self.request.items[self.selected].command)
        } else {
            MenuEvent::Stay
        }
    }

    fn up(&mut self)
        ensures
            final(self)@ == old(self)@.moved(-1),
    {
        let last: usize = self.request.items.len().saturating_sub(1);
        let next: usize = self.selected.saturating_sub(1);
        self.selected = if next <= last {
            next
        } else {
            last
        };
    }

    fn down(&mut self)
        ensures
            final(self)@ == old(self)@.moved(1),
    {
        let last: usize = self.request.items.len().saturating_sub(1);
        self.selected = if self.selected < last {
            self.selected + 1
        } else {
            last
        };
    }

    fn find_shortcut(&self, code: KeyCode) -> (r: Option<usize>)
        ensures
            r == shortcut_from(self.request.items@, code, 0),
    {
        let mut i: usize = 0;
        while i < self.request.items.len()
            invariant
                i <= self.request.items.len(),
                shortcut_from(self.request.items@, code, 0) == shortcut_from(
                    self.request.items@,
                    code,
                    i as int,
                ),
            decreases self.request.items.len() - i,
        {
            if self.request.items[i].shortcut == code {
                return Some(i);
            }
            i = i + 1;
        }
        None
    }

    fn find_hit(&self, x: u16, y: u16) -> (r: Option<usize>)
        ensures
            r == hit_from(self.hits@, x as int, y as int, 0),
    {
        let mut i: usize = 0;
        while i < self.hits.len()
            invariant
                i <= self.hits.len(),
                hit_from(self.hits@, x as int, y as int, 0) == hit_from(
                    self.hits@,
                    x as int,
                    y as int,
                    i as int,
                ),
            decreases self.hits.len() - i,
        {
            if self.hits[i].0.contains(x, y) {
                return Some(self.hits[i].1);
            }
            i = i + 1;
        }
        None
    }

    pub fn key(&mut self, key: KeyEvent) -> (r: MenuEvent)
        ensures
            final(self)@ == old(self)@.keyed(key),
            r == old(self)@.key_event(key),
    {
        match key.code {
            KeyCode::Esc => MenuEvent::Close,
            KeyCode::Up => {
                self.up();
                MenuEvent::Stay
            },
            KeyCode::Down => {
                self.down();
                MenuEvent::Stay
            },
            KeyCode::Enter => self.activate(),
            KeyCode::Char(_) => {
                if key.modifiers == KeyModifiers::none() || key.modifiers == KeyModifiers::shift() {
                    if let Some(index) = self.find_shortcut(key.code) {
                        self.selected = index;
                        return self.activate();
                    }
                }
                MenuEvent::Stay
            },
            _ => MenuEvent::Stay,
        }
    }

    pub fn mouse(&mut self, event: MouseEvent) -> (r: MenuEvent)
        ensures
            final(self)@ == old(self)@.moused(event),
            r == old(self)@.mouse_event(event),
    {
        let pressed = matches!(event.kind, MouseKind::Down | MouseKind::RightDown | MouseKind::MiddleDown);
        if pressed && !self.area.contains(event.column, event.row) {
            return MenuEvent::Close;
        }
        match event.kind {
            MouseKind::Moved => {
                if let Some(index) = self.find_hit(event.column, event.row) {
                    self.selected = index;
                }
            },
            MouseKind::Down => {
                if let Some(index) = self.find_hit(event.column, event.row) {
                    self.selected = index;
                    return self.activate();
                }
            },
            MouseKind::ScrollUp => self.up(),
            MouseKind::ScrollDown => self.down(),
            _ => {},
        }
        MenuEvent::Stay
    }

    fn wanted(&self) -> (r: u16)
        ensures
            r == wanted_columns(self.request),
    {
        let title = width(self.request.title.as_str()).saturating_add(4);
        let detail = width(self.request.detail.as_str()).saturating_add(4);
        let mut most: usize = if title >= detail {
            title
        } else {
            detail
        };
        let mut footer: usize = width("Left click to run · right click outside to close");
        let mut i: usize = 0;
        let ghost cap = usize::MAX as int;
        while i < self.request.items.len()
            invariant
                i <= self.request.items.len(),
                cap == usize::MAX,
                most == spec_min(menu_columns(self.request, i as int), cap),
                footer == footer_columns(self.request.items@, i as int),
            decreases self.request.items.len() - i,
        {
            let label = width(self.request.items[i].label.as_str()).saturating_add(4);
            if label > most {
                most = label;
            }
            if let Some(reason) = &self.request.items[i].disabled {
                let w = width(reason.as_str());
                if w.saturating_add(4) > most {
                    most = w.saturating_add(4);
                }
                if w > footer {
                    footer = w;
                }
            }
            i = i + 1;
        }
        if self.request.any_disabled() && footer.saturating_add(2) > most {
            most = footer.saturating_add(2);
        }
        if most < 36 {
            36
        } else if most > 72 {
            72
        } else {
            most as u16
        }
    }

    fn list_lines(&self) -> (r: Vec<Option<usize>>)
        ensures
            r@ == self@.lines(),
    {
        let mut lines: Vec<Option<usize>> = Vec::new();
        let mut i: usize = 0;
        while i < self.request.items.len()
            invariant
                i <= self.request.items.len(),
                lines@ == item_lines(self.request.items@, i as int),
            decreases self.request.items.len() - i,
        {
            if i > 0 && self.request.items[i - 1].group != self.request.items[i].group {
                lines.push(None);
            }
            lines.push(Some(i));
            i = i + 1;
        }
        lines
    }

    fn selected_line(&self, lines: &Vec<Option<usize>>) -> (r: usize)
        ensures
            r == line_of_item(lines@, self.selected, 0),
    {
        let mut i: usize = 0;
        while i < lines.len()
            invariant
                i <= lines.len(),
                line_of_item(lines@, self.selected, 0) == line_of_item(
                    lines@,
                    self.selected,
                    i as int,
                ),
            decreases lines.len() - i,
        {
            if let Some(index) = lines[i] {
                if index == self.selected {
                    return i;
                }
            }
            i = i + 1;
        }
        0
    }

    fn draw_item(&self, scene: &mut Scene, rect: Rect, index: usize, columns: u16, theme: &Theme)
        requires
            index < self.request.items@.len(),
        ensures
            final(scene)@ == old(scene)@.push(
                shown(
                    rect,
                    seq![seq![plain_run(self@.item_text(index as int, columns as int))]],
                    self@.item_style(index as int, *theme),
                ),
            ),
    {
        let item = &self.request.items[index];
        let marker = if index == self.selected {
            "›"
        } else {
            " "
        };
        let label = fit(item.label.as_str(), columns.saturating_sub(2) as usize);
        let text = fit(cat3(marker, " ", label.as_str()).as_str(), columns as usize);
        let style = if index == self.selected {
            if item.disabled.is_some() {
                theme.selected().dimmer()
            } else {
                theme.selected()
            }
        } else if item.disabled.is_some() {
            theme.placeholder()
        } else if item.danger {
            theme.err()
        } else {
            Style::plain()
        };
        scene.note(rect, text.as_str(), style);
    }

    /// Puts the menu at its anchor, inside of `bounds`.
    fn place(&mut self, bounds: Rect, line_count: usize, has_detail: bool, has_footer: bool)
        requires
            old(self)@.valid(),
            bounds.in_range(),
            line_count == old(self)@.lines().len(),
            has_detail == old(self)@.has_detail(),
            has_footer == old(self)@.request.has_disabled(),
            line_count <= 0x7fff_fffe,
        ensures
            final(self)@ == (MenuView { area: old(self)@.area_in(bounds), ..old(self)@ }),
            final(self)@.area.in_range(),
    {
        reveal(MenuView::area_in);
        let w = min16(self.wanted(), bounds.width);
        let mut rows_wanted: usize = line_count + 2;
        if has_detail {
            rows_wanted = rows_wanted + 1;
        }
        if has_footer {
            rows_wanted = rows_wanted + 2;
        }
        let h = min16(clamp16(rows_wanted), bounds.height);
        self.area = Rect::new(
            max16(min16(self.anchor.0, bounds.right().saturating_sub(w)), bounds.x),
            max16(min16(self.anchor.1, bounds.bottom().saturating_sub(h)), bounds.y),
            w,
            h,
        );
    }

    /// Scrolls so that the selected line is among the rows on the screen.
    fn scroll(&mut self, lines: &Vec<Option<usize>>, rows: usize)
        requires
            lines@ == old(self)@.lines(),
            old(self)@.valid(),
        ensures
            final(self)@ == (MenuView {
                offset: old(self)@.offset_for(rows as int) as usize,
                ..old(self)@
            }),
            0 <= old(self)@.offset_for(rows as int) <= lines@.len(),
            final(self)@.offset_for(rows as int) == old(self)@.offset_for(rows as int),
    {
        proof {
            reveal(MenuView::offset_for);
            lemma_item_lines_bounds(self.request.items@, self.request.items@.len() as int);
            lemma_line_of_item(lines@, self.selected, 0);
        }
        let selected_line = self.selected_line(lines);
        if selected_line < self.offset {
            self.offset = selected_line;
        }
        if rows > 0 && selected_line - self.offset >= rows {
            self.offset = selected_line + 1 - rows;
        }
    }

    /// Draws the lines that are on the screen and notes where the items are.
    fn draw_rows(
        &mut self,
        scene: &mut Scene,
        inner: Rect,
        lines: &Vec<Option<usize>>,
        count: usize,
        theme: &Theme,
    )
        requires
            old(self)@.valid(),
            old(self)@.hits.len() == 0,
            lines@ == old(self)@.lines(),
            inner.in_range(),
            old(self)@.offset + count <= lines@.len(),
            count + one_if(old(self)@.shows_detail(inner)) <= inner.height,
        ensures
            final(self)@ == (MenuView {
                hits: old(self)@.hits_in(inner, old(self)@.offset as int, count as int),
                ..old(self)@
            }),
            final(scene)@ == old(scene)@ + old(self)@.rows_drawn(
                inner,
                old(self)@.offset as int,
                count as int,
                *theme,
            ),
    {
        let ghost before = self@;
        let ghost head = scene@;
        let offset = self.offset;
        let show_detail = !self.request.detail.as_str().is_empty() && inner.height >= 3;
        let top: u16 = if show_detail {
            1
        } else {
            0
        };
        proof {
            lemma_item_lines_bounds(self.request.items@, self.request.items@.len() as int);
        }
        let mut k: usize = 0;
        assert(self.hits@ =~= before.hits_in(inner, offset as int, 0));
        assert(head + before.rows_drawn(inner, offset as int, 0, *theme) =~= head);
        while k < count
            invariant
                k <= count,
                offset + count <= lines.len(),
                offset == before.offset,
                count + top <= inner.height,
                top == one_if(before.shows_detail(inner)),
                inner.in_range(),
                lines@ == before.lines(),
                forall|i: int|
                    0 <= i < lines@.len() ==> match #[trigger] lines@[i] {
                        Some(index) => index < before.request.items@.len(),
                        None => true,
                    },
                self@ == (MenuView {
                    hits: before.hits_in(inner, offset as int, k as int),
                    ..before
                }),
                scene@ == head + before.rows_drawn(inner, offset as int, k as int, *theme),
            decreases count - k,
        {
            let rect = Rect::new(inner.x, inner.y + top + k as u16, inner.width, 1);
            let ghost done = before.rows_drawn(inner, offset as int, k as int, *theme);
            assert(rect == before.row_rect(inner, k as int));
            assert(lines@[offset + k] == before.lines()[offset + k]);
            match lines[offset + k] {
                None => {
                    let dashes = repeat('─', inner.width.saturating_sub(2) as usize);
                    let at = if rect.width < 2 {
                        Rect::zero()
                    } else {
                        Rect { x: rect.x.saturating_add(1), width: rect.width - 2, ..rect }
                    };
                    scene.note(at, dashes.as_str(), Style::colored(theme.border).dimmer());
                },
                Some(index) => {
                    self.draw_item(scene, rect, index, inner.width, theme);
                    self.hits.push((rect, index));
                },
            }
            k = k + 1;
            assert(scene@ =~= head + done.push(
                before.row_draw(inner, offset as int, k - 1, *theme),
            ));
        }
    }

    fn draw_detail(&self, scene: &mut Scene, inner: Rect, theme: &Theme)
        ensures
            final(scene)@ == old(scene)@ + self@.detail_drawn(inner, *theme),
    {
        if !self.request.detail.as_str().is_empty() && inner.height >= 3 {
            let detail = fit(self.request.detail.as_str(), inner.width as usize);
            scene.note(
                Rect::new(inner.x, inner.y, inner.width, 1),
                detail.as_str(),
                theme.dim(),
            );
        }
        assert(scene@ =~= old(scene)@ + self@.detail_drawn(inner, *theme));
    }

    /// How many lines of the menu fit between what is above and below them.
    fn rows_in(&self, inner: Rect) -> (r: usize)
        ensures
            r == self@.row_count(inner),
            r + one_if(self@.shows_detail(inner)) <= inner.height || r == 0,
    {
        reveal(MenuView::row_count);
        let footer = self.request.any_disabled() && inner.height >= 2;
        let top: u16 = if !self.request.detail.as_str().is_empty() && inner.height >= 3 {
            1
        } else {
            0
        };
        let below: u16 = if footer && inner.height > top + 2 {
            2
        } else if footer {
            1
        } else {
            0
        };
        inner.height.saturating_sub(top + below) as usize
    }

    fn draw_footer(
        &self,
        scene: &mut Scene,
        inner: Rect,
        line_count: usize,
        rows: usize,
        theme: &Theme,
    )
        requires
            line_count == self@.lines().len(),
            rows == self@.row_count(inner),
            self@.offset == self@.offset_for(rows as int),
            inner.in_range(),
        ensures
            final(scene)@ == old(scene)@ + self@.footer_drawn(inner, *theme),
    {
        if self.request.any_disabled() && inner.height >= 2 {
            let reason = if self.selected < self.request.items.len() {
                match &self.request.items[self.selected].disabled {
                    Some(reason) => reason.as_str(),
                    None => "Left click to run · right click outside to close",
                }
            } else {
                "Left click to run · right click outside to close"
            };
            let message = if self.offset > 0 || rows < line_count {
                cat2("↕ ", reason)
            } else {
                reason.to_owned()
            };
            assert(message@ == self@.footer_text(self.offset as int, rows as int));
            scene.note(
                Rect::new(inner.x, inner.bottom() - 1, inner.width, 1),
                fit(message.as_str(), inner.width as usize).as_str(),
                theme.placeholder(),
            );
        }
        assert(scene@ =~= old(scene)@ + self@.footer_drawn(inner, *theme));
    }

    /// Draws what is inside of the border.
    fn draw_inside(&mut self, scene: &mut Scene, inner: Rect, lines: &Vec<Option<usize>>, theme: &Theme)
        requires
            old(self)@.valid(),
            old(self)@.hits.len() == 0,
            lines@ == old(self)@.lines(),
            inner.in_range(),
        ensures
            final(self)@ == (MenuView {
                offset: old(self)@.offset_for(old(self)@.row_count(inner)) as usize,
                hits: old(self)@.hits_in(
                    inner,
                    old(self)@.offset_for(old(self)@.row_count(inner)),
                    old(self)@.drawn(inner),
                ),
                ..old(self)@
            }),
            final(scene)@ == old(scene)@ + old(self)@.inside_drawn(inner, *theme),
    {
        let ghost before = self@;
        let ghost start = scene@;
        let rows = self.rows_in(inner);
        self.draw_detail(scene, inner, theme);
        let ghost detail = before.detail_drawn(inner, *theme);
        self.scroll(lines, rows);
        let count: usize = if lines.len() <= self.offset {
            0
        } else if lines.len() - self.offset < rows {
            lines.len() - self.offset
        } else {
            rows
        };
        let ghost scrolled = self@;
        proof {
            lemma_same_layout(before, scrolled, inner, *theme);
            lemma_same_drawing(before, scrolled, inner, self.offset as int, count as int, *theme);
        }
        assert(count == before.drawn(inner));
        self.draw_rows(scene, inner, lines, count, theme);
        proof {
            lemma_same_offset(scrolled, self@, rows as int);
            lemma_same_layout(scrolled, self@, inner, *theme);
        }
        self.draw_footer(scene, inner, lines.len(), rows, theme);
        let ghost body = before.rows_drawn(
            inner,
            before.offset_for(rows as int),
            count as int,
            *theme,
        );
        let ghost footer = before.footer_drawn(inner, *theme);
        assert(scene@ == start + detail + body + footer);
        assert(start + detail + body + footer =~= start + (detail + body + footer));
    }

    /// Lays the menu out inside of `bounds`.
    pub fn draw(&mut self, bounds: Rect, theme: &Theme) -> (r: Scene)
        requires
            old(self)@.valid(),
            bounds.in_range(),
        ensures
            final(self)@ == old(self)@.placed(bounds),
            r@ == old(self)@.scene(bounds, *theme),
    {
        let ghost before = self@;
        self.hits = Vec::new();
        assert(self.hits@ =~= Seq::empty());
        let has_footer = self.request.any_disabled();
        let has_detail = !self.request.detail.as_str().is_empty();
        let lines = self.list_lines();
        proof {
            lemma_item_lines_bounds(self.request.items@, self.request.items@.len() as int);
            lemma_same_area(before, self@, bounds);
        }
        self.place(bounds, lines.len(), has_detail, has_footer);
        let mut scene = Scene::new();
        scene.clear(self.area);
        let title = fit(self.request.title.as_str(), self.area.width.saturating_sub(4) as usize);
        scene.frame(self.area, title.as_str());
        let inner = self.area.inner();
        if inner.width == 0 || inner.height == 0 {
            return scene;
        }
        proof {
            let rows = before.row_count(inner);
            lemma_same_offset(before, self@, rows);
            lemma_same_layout(before, self@, inner, *theme);
            lemma_same_drawing(
                before,
                self@,
                inner,
                before.offset_for(rows),
                before.drawn(inner),
                *theme,
            );
        }
        self.draw_inside(&mut scene, inner, &lines, theme);
        scene
    }

    /// Where a command can be pressed.
    pub fn hit_rect_for(&self, command: Command) -> (r: Option<Rect>)
        ensures
            r is Some ==> exists|i: int|
                0 <= i < self@.hits.len() && (#[trigger] self@.hits[i]).0 == r->0
                    && self@.hits[i].1 < self@.request.items@.len()
                    && self@.request.items@[self@.hits[i].1 as int].command == command,
            r is None ==> forall|i: int|
                0 <= i < self@.hits.len() && (#[trigger] self@.hits[i]).1
                    < self@.request.items@.len() ==> self@.request.items@[self@.hits[i].1 as int].command
                    != command,
    {
        let mut i: usize = 0;
        while i < self.hits.len()
            invariant
                i <= self.hits.len(),
                forall|k: int|
                    0 <= k < i && (#[trigger] self.hits@[k]).1 < self.request.items@.len()
                        ==> self.request.items@[self.hits@[k].1 as int].command != command,
            decreases self.hits.len() - i,
        {
            let (rect, index) = self.hits[i];
            if index < self.request.items.len() && self.request.items[index].command == command {
                assert(self@.hits[i as int].0 == rect);
                return Some(rect);
            }
            i = i + 1;
        }
        None
    }

    pub fn menu_area(&self) -> (r: Rect)
        ensures
            r == self@.area,
    {
        self.area
    }
}

/// The menu never leaves the screen.
pub proof fn lemma_menu_stays_in_bounds(menu: MenuView, bounds: Rect)
    requires
        bounds.in_range(),
    ensures
        menu.area_in(bounds).within(bounds),
        menu.area_in(bounds).in_range(),
{
    reveal(MenuView::area_in);
}

/// The selection stays among the items, whatever is pressed.
pub proof fn lemma_menu_selection_in_range(menu: MenuView, key: KeyEvent)
    requires
        menu.valid(),
        menu.selected < menu.request.items@.len(),
    ensures
        menu.keyed(key).selected < menu.request.items@.len(),
{
    lemma_shortcut_in_range(menu.request.items@, key.code, 0);
}

proof fn lemma_shortcut_in_range(items: Seq<Item>, code: KeyCode, at: int)
    requires
        0 <= at,
        items.len() <= usize::MAX,
    ensures
        match shortcut_from(items, code, at) {
            Some(index) => index < items.len() && items[index as int].shortcut == code,
            None => true,
        },
    decreases items.len() - at,
{
    if at < items.len() && items[at].shortcut != code {
        lemma_shortcut_in_range(items, code, at + 1);
    }
}

/// An item that is not available never runs.
pub proof fn lemma_disabled_never_runs(menu: MenuView, key: KeyEvent, event: MouseEvent)
    ensures
        menu.key_event(key) matches MenuEvent::Execute(command) ==> menu.request.offers(command),
        menu.mouse_event(event) matches MenuEvent::Execute(command) ==> menu.request.offers(command),
{
}

proof fn lemma_item_has_a_line(items: Seq<Item>, n: int, index: usize)
    requires
        0 <= index < n <= items.len(),
        items.len() <= usize::MAX,
    ensures
        exists|i: int| 0 <= i < item_lines(items, n).len() && #[trigger] item_lines(items, n)[i]
            == Some(index),
    decreases n,
{
    let all = item_lines(items, n);
    if index == n - 1 {
        assert(all[all.len() - 1] == Some(index));
    } else {
        lemma_item_has_a_line(items, n - 1, index);
        let head = item_lines(items, n - 1);
        let i = choose|i: int| 0 <= i < head.len() && #[trigger] head[i] == Some(index);
        assert(all[i] == Some(index));
    }
}

proof fn lemma_line_found(lines: Seq<Option<usize>>, selected: usize, at: int, i: int)
    requires
        0 <= at <= i < lines.len(),
        lines[i] == Some(selected),
    ensures
        lines[line_of_item(lines, selected, at)] == Some(selected),
    decreases lines.len() - at,
{
    if lines[at] != Some(selected) {
        lemma_line_found(lines, selected, at + 1, i);
    }
}

proof fn lemma_hits_hold(menu: MenuView, inner: Rect, offset: int, k: int, j: int)
    requires
        0 <= j < k,
        menu.lines()[offset + j] is Some,
    ensures
        exists|i: int|
            0 <= i < menu.hits_in(inner, offset, k).len() && (#[trigger] menu.hits_in(
                inner,
                offset,
                k,
            )[i]).1 == menu.lines()[offset + j]->0,
    decreases k,
{
    let all = menu.hits_in(inner, offset, k);
    if j == k - 1 {
        assert(all[all.len() - 1].1 == menu.lines()[offset + j]->0);
    } else {
        lemma_hits_hold(menu, inner, offset, k - 1, j);
        let head = menu.hits_in(inner, offset, k - 1);
        let i = choose|i: int|
            0 <= i < head.len() && (#[trigger] head[i]).1 == menu.lines()[offset + j]->0;
        assert(all[i] == head[i]);
    }
}

/// Where any line fits, the selected item can be seen and pressed.
pub proof fn lemma_selected_item_is_visible(menu: MenuView, bounds: Rect)
    requires
        menu.valid(),
        menu.open_in(bounds),
        menu.selected < menu.request.items@.len(),
        menu.row_count(menu.area_in(bounds).inside()) > 0,
    ensures
        exists|i: int|
            0 <= i < menu.placed(bounds).hits.len() && (#[trigger] menu.placed(bounds).hits[i]).1
                == menu.selected,
{
    reveal(MenuView::offset_for);
    let inner = menu.area_in(bounds).inside();
    let rows = menu.row_count(inner);
    let lines = menu.lines();
    let items = menu.request.items@;
    lemma_item_lines_bounds(items, items.len() as int);
    lemma_item_has_a_line(items, items.len() as int, menu.selected);
    let i = choose|i: int| 0 <= i < lines.len() && #[trigger] lines[i] == Some(menu.selected);
    lemma_line_found(lines, menu.selected, 0, i);
    lemma_line_of_item(lines, menu.selected, 0);
    let line = line_of_item(lines, menu.selected, 0);
    let offset = menu.offset_for(rows);
    assert(offset <= line < offset + rows);
    lemma_hits_hold(menu, inner, offset, menu.drawn(inner), line - offset);
    let hits = menu.hits_in(inner, offset, menu.drawn(inner));
    let at = choose|at: int| 0 <= at < hits.len() && (#[trigger] hits[at]).1 == menu.selected;
    assert(menu.placed(bounds).hits[at].1 == menu.selected);
}

proof fn lemma_first_shortcut(items: Seq<Item>, code: KeyCode, at: int)
    requires
        0 <= at <= items.len() <= usize::MAX,
    ensures
        shortcut_from(items, code, at) matches Some(i) ==> at <= i < items.len()
            && items[i as int].shortcut == code && forall|k: int|
            at <= k < i ==> (#[trigger] items[k]).shortcut != code,
        shortcut_from(items, code, at) is None ==> forall|k: int|
            at <= k < items.len() ==> (#[trigger] items[k]).shortcut != code,
    decreases items.len() - at,
{
    if at < items.len() && items[at].shortcut != code {
        lemma_first_shortcut(items, code, at + 1);
    }
}

/// A letter runs the first item that shows it, where that is available, and selects it; a
/// letter that no item shows does nothing. Held with Control it does nothing either.
pub proof fn lemma_a_shown_key_runs_its_item(menu: MenuView, key: KeyEvent, i: int)
    requires
        menu.request.items@.len() <= usize::MAX,
        key.code is Char,
    ensures
        ({
            let items = menu.request.items@;
            let first = 0 <= i < items.len() && items[i].shortcut == key.code && forall|k: int|
                0 <= k < i ==> (#[trigger] items[k]).shortcut != key.code;
            let plain = key.modifiers == KeyModifiers::none() || key.modifiers
                == KeyModifiers::shift();
            &&& plain && first && items[i].disabled is None ==> menu.key_event(key)
                == MenuEvent::Execute(items[i].command) && menu.keyed(key).selected == i
            &&& plain && first && items[i].disabled is Some ==> menu.key_event(key)
                == MenuEvent::Stay && menu.keyed(key).selected == i
            &&& plain && (forall|k: int|
                0 <= k < items.len() ==> (#[trigger] items[k]).shortcut != key.code)
                ==> menu.key_event(key) == MenuEvent::Stay && menu.keyed(key) == menu
            &&& key.modifiers.control ==> menu.key_event(key) == MenuEvent::Stay && menu.keyed(key)
                == menu
        }),
{
    lemma_first_shortcut(menu.request.items@, key.code, 0);
}

/// Enter runs the selected item where it is available, Esc closes the menu, and the arrows
/// move by one item.
pub proof fn lemma_keys_of_the_menu(menu: MenuView, key: KeyEvent)
    requires
        menu.selected < menu.request.items@.len() <= usize::MAX,
    ensures
        ({
            let item = menu.request.items@[menu.selected as int];
            let n = menu.request.items@.len();
            &&& key.code == KeyCode::Enter && item.disabled is None ==> menu.key_event(key)
                == MenuEvent::Execute(item.command)
            &&& key.code == KeyCode::Enter && item.disabled is Some ==> menu.key_event(key)
                == MenuEvent::Stay
            &&& key.code == KeyCode::Esc ==> menu.key_event(key) == MenuEvent::Close
            &&& key.code == KeyCode::Down ==> menu.key_event(key) == MenuEvent::Stay && menu.keyed(
                key,
            ).selected == if menu.selected + 1 < n {
                menu.selected + 1
            } else {
                menu.selected as int
            }
            &&& key.code == KeyCode::Up ==> menu.key_event(key) == MenuEvent::Stay && menu.keyed(
                key,
            ).selected == if menu.selected > 0 {
                menu.selected - 1
            } else {
                0
            }
            &&& menu.keyed(key).request == menu.request
        }),
{
}

/// A press on an item runs it, the pointer over it only selects it, and a press beside the
/// menu closes it with nothing run.
pub proof fn lemma_mouse_of_the_menu(menu: MenuView, event: MouseEvent, i: int)
    requires
        0 <= i < menu.hits.len(),
        menu.hits[i].0.has(event.column as int, event.row as int),
        forall|k: int|
            0 <= k < i ==> !(#[trigger] menu.hits[k]).0.has(event.column as int, event.row as int),
        menu.hits[i].1 < menu.request.items@.len(),
    ensures
        ({
            let item = menu.request.items@[menu.hits[i].1 as int];
            let inside = menu.area.has(event.column as int, event.row as int);
            &&& inside && event.kind == MouseKind::Down && item.disabled is None ==> menu.mouse_event(
                event,
            ) == MenuEvent::Execute(item.command)
            &&& inside && event.kind == MouseKind::Down && item.disabled is Some ==> menu.mouse_event(
                event,
            ) == MenuEvent::Stay
            &&& event.kind == MouseKind::Moved ==> menu.mouse_event(event) == MenuEvent::Stay
                && menu.moused(event).selected == menu.hits[i].1
            &&& !inside && (event.kind == MouseKind::Down || event.kind == MouseKind::RightDown
                || event.kind == MouseKind::MiddleDown) ==> menu.mouse_event(event)
                == MenuEvent::Close && menu.moused(event) == menu
            &&& inside && event.kind == MouseKind::RightDown ==> menu.mouse_event(event)
                == MenuEvent::Stay
        }),
{
    lemma_first_hit(menu.hits, event.column as int, event.row as int, 0, i);
}

proof fn lemma_first_hit(hits: Seq<(Rect, usize)>, x: int, y: int, at: int, i: int)
    requires
        0 <= at <= i < hits.len(),
        hits[i].0.has(x, y),
        forall|k: int| at <= k < i ==> !(#[trigger] hits[k]).0.has(x, y),
    ensures
        hit_from(hits, x, y, at) == Some(hits[i].1),
    decreases i - at,
{
    if at < i {
        lemma_first_hit(hits, x, y, at + 1, i);
    }
}

/// Below the items stands why the selected one is not available, or what the mouse does.
pub proof fn lemma_the_menu_says_why_not(menu: MenuView, offset: int, rows: int)
    requires
        menu.selected < menu.request.items@.len(),
        menu.lines().len() <= rows,
        offset == 0,
    ensures
        menu.request.items@[menu.selected as int].disabled matches Some(reason) ==> menu.footer_text(
            offset,
            rows,
        ) == reason@,
        menu.request.items@[menu.selected as int].disabled is None ==> menu.footer_text(offset, rows)
            == "Left click to run · right click outside to close"@,
{
}

/// The selected item of a menu has a mark before it, and no other; the detail stands above
/// where there is one and room for it.
pub proof fn lemma_the_menu_marks_the_selected_item(
    menu: MenuView,
    index: int,
    columns: int,
    inner: Rect,
    theme: Theme,
)
    ensures
        index == menu.selected ==> menu.item_text(index, columns) == fitted(
            "›"@ + " "@ + fitted(menu.request.items@[index].label@, monus(columns, 2)),
            columns,
        ),
        index != menu.selected ==> menu.item_text(index, columns) == fitted(
            " "@ + " "@ + fitted(menu.request.items@[index].label@, monus(columns, 2)),
            columns,
        ),
        menu.request.detail@.len() > 0 && inner.height >= 3 ==> menu.detail_drawn(inner, theme)
            == seq![
            shown(
                Rect::at(inner.x as int, inner.y as int, inner.width as int, 1),
                seq![
                    seq![plain_run(fitted(menu.request.detail@, inner.width as int))],
                ],
                theme.dim(),
            ),
        ],
        menu.request.detail@.len() == 0 || inner.height < 3 ==> menu.detail_drawn(
            inner,
            theme,
        ).len() == 0,
{
}

/// The menu is framed with its title, and filled where there is room inside.
pub proof fn lemma_the_menu_is_framed(menu: MenuView, bounds: Rect, theme: Theme)
    ensures
        ({
            let area = menu.area_in(bounds);
            let scene = menu.scene(bounds, theme);
            &&& scene.len() >= 2
            &&& scene[1] == framed(area, fitted(menu.request.title@, monus(area.width as int, 4)))
            &&& area.inside().width == 0 || area.inside().height == 0 ==> scene.len() == 2
            &&& area.inside().width > 0 && area.inside().height > 0 ==> scene.skip(2)
                == menu.inside_drawn(area.inside(), theme)
        }),
{
    let area = menu.area_in(bounds);
    if menu.open_in(bounds) {
        assert(menu.scene(bounds, theme).skip(2) =~= menu.inside_drawn(area.inside(), theme));
    }
}

/// The selected item is on the screen once the menu is drawn; a menu that shows it already
/// does not move, and one that does not moves no further than it has to.
pub proof fn lemma_the_selected_item_is_in_sight(menu: MenuView, rows: int)
    requires
        rows > 0,
    ensures
        ({
            let line = line_of_item(menu.lines(), menu.selected, 0);
            let first = menu.offset_for(rows);
            &&& first <= line < first + rows
            &&& menu.offset <= line < menu.offset + rows ==> first == menu.offset
            &&& line < menu.offset ==> first == line
            &&& line >= menu.offset + rows ==> first + rows == line + 1
        }),
{
    reveal(MenuView::offset_for);
}

/// A line is drawn between the two sides of the menu, one column from each.
pub proof fn lemma_a_line_keeps_off_the_sides(rect: Rect)
    requires
        rect.in_range(),
        rect.width >= 2,
    ensures
        without_sides(rect).x == rect.x + 1,
        without_sides(rect).x + without_sides(rect).width == rect.x + rect.width - 1,
        without_sides(rect).y == rect.y,
        without_sides(rect).height == rect.height,
{
}

} // verus!
