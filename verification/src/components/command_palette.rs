//! The palette of commands that work everywhere: type to filter, choose, run.

use crate::geometry::Rect;
use crate::keymap::{KeyCode, KeyEvent, MouseEvent, MouseKind};
use crate::measure::{fit, fitted, lower, to_lowercase};
use crate::text::{cat5, contains, has_part, split_words, texts, trim, trimmed, words};
use crate::theme::Theme;
use crate::ui::{framed, listed, plain_run, shown, Draw, DrawView, Line, Lines, Scene, SpanView, Style};
use crate::widgets::{
    centered, clamped, empty_input, first_of, is_multiline, middle_of, moved, paste_refused, Input,
    InputView, ListNav,
};
use vstd::prelude::*;

verus! {

#[derive(Debug, Clone, Copy, PartialEq, Eq, Structural)]
pub enum Command {
    Rescan,
    Install,
    Repositories,
    Repair,
    RootSync,
    ToggleTags,
    Undo,
    Redo,
    Help,
}

#[derive(Debug, Clone, Copy, PartialEq, Eq, Structural)]
pub enum Event {
    Stay,
    Close,
    Execute(Command),
}

/// A command as the palette lists it.
#[derive(Debug, Clone, Copy)]
pub struct Entry {
    pub command: Command,
    pub label: &'static str,
    pub detail: &'static str,
    pub keywords: &'static str,
}

/// How many commands there are.
pub const ENTRY_COUNT: usize = 9;

/// The command at a place of the full list.
pub open spec fn entry_at(index: int) -> Entry {
    if index == 0 {
        Entry {
            command: Command::Rescan,
            label: "Rescan workspace",
            detail: "Refresh skills and deployment state",
            keywords: "refresh reload scan",
        }
    } else if index == 1 {
        Entry {
            command: Command::Install,
            label: "Install skill",
            detail: "Use a repository, archive URL or local path",
            keywords: "add repository repo local",
        }
    } else if index == 2 {
        Entry {
            command: Command::Repositories,
            label: "Browse repositories",
            detail: "Open installed repository sources",
            keywords: "source repos",
        }
    } else if index == 3 {
        Entry {
            command: Command::Repair,
            label: "Repair health issues",
            detail: "Preview root repairs before applying",
            keywords: "health fix missing broken",
        }
    } else if index == 4 {
        Entry {
            command: Command::RootSync,
            label: "Root backup and sync",
            detail: "Configure or run Git synchronization",
            keywords: "git remote push pull backup",
        }
    } else if index == 5 {
        Entry {
            command: Command::ToggleTags,
            label: "Show or hide tags",
            detail: "Change tag visibility throughout the interface",
            keywords: "settings classification",
        }
    } else if index == 6 {
        Entry {
            command: Command::Undo,
            label: "Undo last change",
            detail: "Preview the previous session change",
            keywords: "history back",
        }
    } else if index == 7 {
        Entry {
            command: Command::Redo,
            label: "Redo last change",
            detail: "Preview the next session change",
            keywords: "history forward",
        }
    } else {
        Entry {
            command: Command::Help,
            label: "Open keyboard help",
            detail: "Show navigation and interaction reference",
            keywords: "shortcuts keys",
        }
    }
}

pub fn entry(index: usize) -> (r: Entry)
    ensures
        r == entry_at(index as int),
{
    match index {
        0 => Entry {
            command: Command::Rescan,
            label: "Rescan workspace",
            detail: "Refresh skills and deployment state",
            keywords: "refresh reload scan",
        },
        1 => Entry {
            command: Command::Install,
            label: "Install skill",
            detail: "Use a repository, archive URL or local path",
            keywords: "add repository repo local",
        },
        2 => Entry {
            command: Command::Repositories,
            label: "Browse repositories",
            detail: "Open installed repository sources",
            keywords: "source repos",
        },
        3 => Entry {
            command: Command::Repair,
            label: "Repair health issues",
            detail: "Preview root repairs before applying",
            keywords: "health fix missing broken",
        },
        4 => Entry {
            command: Command::RootSync,
            label: "Root backup and sync",
            detail: "Configure or run Git synchronization",
            keywords: "git remote push pull backup",
        },
        5 => Entry {
            command: Command::ToggleTags,
            label: "Show or hide tags",
            detail: "Change tag visibility throughout the interface",
            keywords: "settings classification",
        },
        6 => Entry {
            command: Command::Undo,
            label: "Undo last change",
            detail: "Preview the previous session change",
            keywords: "history back",
        },
        7 => Entry {
            command: Command::Redo,
            label: "Redo last change",
            detail: "Preview the next session change",
            keywords: "history forward",
        },
        _ => Entry {
            command: Command::Help,
            label: "Open keyboard help",
            detail: "Show navigation and interaction reference",
            keywords: "shortcuts keys",
        },
    }
}

/// The words that are looked for.
pub open spec fn terms_of(query: Seq<char>) -> Seq<Seq<char>> {
    words(lower(trimmed(query)))
}

/// What a command is found by.
pub open spec fn haystack(entry: Entry) -> Seq<char> {
    lower(entry.label@ + " "@ + entry.detail@ + " "@ + entry.keywords@)
}

/// Every term stands in the text.
pub open spec fn holds_all(text: Seq<char>, terms: Seq<Seq<char>>) -> bool {
    forall|i: int| 0 <= i < terms.len() ==> has_part(text, #[trigger] terms[i])
}

/// The commands among the first `n` that hold every term, in order.
pub open spec fn matching(terms: Seq<Seq<char>>, n: int) -> Seq<usize>
    decreases n,
{
    if n <= 0 {
        Seq::empty()
    } else if holds_all(haystack(entry_at(n - 1)), terms) {
        matching(terms, n - 1).push((n - 1) as usize)
    } else {
        matching(terms, n - 1)
    }
}

fn contains_all(text: &str, terms: &Vec<String>) -> (r: bool)
    ensures
        r == holds_all(text@, texts(terms@)),
{
    let mut i: usize = 0;
    while i < terms.len()
        invariant
            i <= terms.len(),
            forall|k: int| 0 <= k < i ==> has_part(text@, #[trigger] texts(terms@)[k]),
        decreases terms.len() - i,
    {
        if !contains(text, terms[i].as_str()) {
            assert(!has_part(text@, texts(terms@)[i as int]));
            return false;
        }
        i = i + 1;
    }
    true
}

/// The commands that a query finds.
pub fn filter(query: &str) -> (r: Vec<usize>)
    ensures
        r@ == matching(terms_of(query@), ENTRY_COUNT as int),
{
    let terms = split_words(to_lowercase(trim(query).as_str()).as_str());
    let mut out: Vec<usize> = Vec::new();
    let mut i: usize = 0;
    while i < ENTRY_COUNT
        invariant
            i <= ENTRY_COUNT,
            texts(terms@) == terms_of(query@),
            out@ == matching(terms_of(query@), i as int),
        decreases ENTRY_COUNT - i,
    {
        let e = entry(i);
        let text = to_lowercase(cat5(e.label, " ", e.detail, " ", e.keywords).as_str());
        if contains_all(text.as_str(), &terms) {
            out.push(i);
        }
        i = i + 1;
    }
    out
}

#[derive(Debug)]
pub struct CommandPalette {
    pub input: Input,
    pub shown: Vec<usize>,
    pub list: ListNav,
    pub rect: Rect,
    pub input_rect: Rect,
}

pub ghost struct PaletteView {
    pub input: InputView,
    pub shown: Seq<usize>,
    pub list: ListNav,
    pub rect: Rect,
    pub input_rect: Rect,
}

impl View for CommandPalette {
    type V = PaletteView;

    open spec fn view(&self) -> PaletteView {
        PaletteView {
            input: self.input@,
            shown: self.shown@,
            list: self.list,
            rect: self.rect,
            input_rect: self.input_rect,
        }
    }
}

impl PaletteView {
    pub open spec fn valid(self) -> bool {
        &&& self.input.valid()
        &&& forall|i: int| 0 <= i < self.shown.len() ==> #[trigger] self.shown[i] < ENTRY_COUNT
    }

    /// A palette that shows every command, the first one selected.
    pub open spec fn fresh() -> PaletteView {
        PaletteView {
            input: empty_input(),
            shown: Seq::new(ENTRY_COUNT as nat, |i: int| i as usize),
            list: ListNav { selected: Some(0), ..ListNav::empty() },
            rect: Rect::zero(),
            input_rect: Rect::zero(),
        }
    }

    /// What a paste of one line does.
    pub open spec fn pasted(self, text: Seq<char>) -> PaletteView {
        let next = PaletteView { input: self.input.with_pasted(text), ..self };
        if text.len() > 0 {
            next.refiltered()
        } else {
            next
        }
    }

    /// The command of the selected row.
    pub open spec fn chosen(self) -> Option<Command> {
        match self.list.selected {
            Some(at) => if at < self.shown.len() && self.shown[at as int] < ENTRY_COUNT {
                Some(entry_at(self.shown[at as int] as int).command)
            } else {
                None
            },
            None => None,
        }
    }

    pub open spec fn execution(self) -> Event {
        match self.chosen() {
            Some(command) => Event::Execute(command),
            None => Event::Stay,
        }
    }

    /// The rows that the text finds, the first of them selected.
    pub open spec fn refiltered(self) -> PaletteView {
        let found = matching(terms_of(self.input.text), ENTRY_COUNT as int);
        PaletteView {
            shown: found,
            list: ListNav { selected: first_of(found.len() as int), ..self.list },
            ..self
        }
    }

    pub open spec fn moved(self, delta: int) -> PaletteView {
        PaletteView {
            list: ListNav {
                selected: moved(self.list.selected, delta, self.shown.len() as int),
                ..self.list
            },
            ..self
        }
    }

    pub open spec fn keyed(self, key: KeyEvent) -> PaletteView {
        match key.code {
            KeyCode::Esc => self,
            KeyCode::Enter => self,
            KeyCode::Down => self.moved(1),
            KeyCode::Up => self.moved(-1),
            KeyCode::PageDown => self.moved(8),
            KeyCode::PageUp => self.moved(-8),
            _ => {
                let next = PaletteView { input: self.input.keyed(key), ..self };
                if self.input.edits(key) {
                    next.refiltered()
                } else {
                    next
                }
            },
        }
    }

    pub open spec fn key_event(self, key: KeyEvent) -> Event {
        match key.code {
            KeyCode::Esc => Event::Close,
            KeyCode::Enter => self.execution(),
            _ => Event::Stay,
        }
    }

    /// The row of the list under the mouse.
    pub open spec fn row_under(self, event: MouseEvent) -> Option<usize> {
        self.list.hit(event.row as int, self.shown.len() as int)
    }

    pub open spec fn moused(self, event: MouseEvent) -> PaletteView {
        let (x, y) = (event.column as int, event.row as int);
        match event.kind {
            MouseKind::Down => if !self.rect.has(x, y) {
                self
            } else if self.input_rect.has(x, y) {
                PaletteView { input: self.input.clicked(x), ..self }
            } else if self.list.rows.has(x, y) {
                match self.row_under(event) {
                    Some(at) => PaletteView {
                        list: ListNav { selected: Some(at), ..self.list },
                        ..self
                    },
                    None => self,
                }
            } else {
                self
            },
            MouseKind::ScrollDown => self.moved(3),
            MouseKind::ScrollUp => self.moved(-3),
            _ => self,
        }
    }

    pub open spec fn mouse_event(self, event: MouseEvent) -> Event {
        let (x, y) = (event.column as int, event.row as int);
        if event.kind != MouseKind::Down {
            Event::Stay
        } else if !self.rect.has(x, y) {
            Event::Close
        } else if self.input_rect.has(x, y) {
            Event::Stay
        } else if self.list.rows.has(x, y) && self.row_under(event) is Some && event.repeated {
            self.moused(event).execution()
        } else {
            Event::Stay
        }
    }

    /// Whether the area leaves room for the rows.
    pub open spec fn roomy(area: Rect) -> bool {
        let inner = middle_of(area, 72, 15).inside();
        inner.width >= 20 && inner.height >= 4
    }

    /// Where everything is once it has been drawn.
    pub open spec fn placed(self, area: Rect) -> PaletteView {
        let rect = middle_of(area, 72, 15);
        let inner = rect.inside();
        if !Self::roomy(area) {
            PaletteView {
                rect,
                input_rect: Rect::zero(),
                list: ListNav { rows: Rect::zero(), ..self.list },
                ..self
            }
        } else {
            let field = Rect::at(inner.x + 1, inner.y as int, inner.width - 2, 1);
            PaletteView {
                rect,
                input_rect: field,
                input: InputView { field, ..self.input },
                list: ListNav {
                    rows: Rect::at(inner.x + 1, inner.y + 2, inner.width - 2, inner.height - 4),
                    item_height: 1,
                    selected: clamped(self.list.selected, self.shown.len() as int),
                    ..self.list
                }.drawn(self.shown.len() as int),
                ..self
            }
        }
    }

    /// The labels of the rows, cut to the width of the list.
    pub open spec fn rows(self, width: int) -> Seq<Seq<SpanView>> {
        Seq::new(
            self.shown.len(),
            |i: int| seq![plain_run(fitted(entry_at(self.shown[i] as int).label@, width))],
        )
    }

    /// What the selected command does.
    pub open spec fn detail(self) -> Seq<char> {
        match self.list.selected {
            Some(at) => if at < self.shown.len() {
                entry_at(self.shown[at as int] as int).detail@
            } else {
                ""@
            },
            None => ""@,
        }
    }

    pub open spec fn scene(self, area: Rect, theme: Theme) -> Seq<DrawView> {
        let rect = middle_of(area, 72, 15);
        let inner = rect.inside();
        let after = self.placed(area);
        let frame = seq![DrawView::Clear(rect), framed(rect, " Commands · type to filter "@)];
        let line = |down: int|
            Rect::at(inner.x + 1, inner.end_y() - down, inner.width - 2, 1);
        if !Self::roomy(area) {
            frame.push(
                shown(inner, seq![seq![plain_run("Enlarge terminal · Esc close"@)]], Style::plain()),
            )
        } else {
            frame.push(
                DrawView::Field {
                    rect: after.input_rect,
                    value: self.input.text,
                    cursor: self.input.cursor as usize,
                    focused: true,
                    placeholder: "Search commands…"@,
                },
            ).push(
                listed(after.list, self.rows(after.list.rows.width as int), theme.selected()),
            ).push(
                shown(
                    line(2),
                    seq![seq![plain_run(fitted(after.detail(), inner.width - 2))]],
                    theme.description(),
                ),
            ).push(
                shown(
                    line(1),
                    seq![
                        seq![
                            plain_run(
                                if self.shown.len() == 0 {
                                    "No matching commands"@
                                } else {
                                    "Enter runs · Esc closes"@
                                },
                            ),
                        ],
                    ],
                    theme.dim(),
                ),
            )
        }
    }
}

proof fn lemma_matching_in_range(terms: Seq<Seq<char>>, n: int)
    requires
        0 <= n <= ENTRY_COUNT,
    ensures
        matching(terms, n).len() <= n,
        forall|i: int| 0 <= i < matching(terms, n).len() ==> #[trigger] matching(terms, n)[i] < n,
    decreases n,
{
    if n > 0 {
        lemma_matching_in_range(terms, n - 1);
    }
}

/// The palette shows a command exactly where it holds every term.
pub proof fn lemma_shown_exactly_the_matches(terms: Seq<Seq<char>>, n: int, index: usize)
    requires
        0 <= index < n <= ENTRY_COUNT,
    ensures
        matching(terms, n).contains(index) <==> holds_all(haystack(entry_at(index as int)), terms),
    decreases n,
{
    let all = matching(terms, n);
    lemma_matching_in_range(terms, n - 1);
    if index < n - 1 {
        lemma_shown_exactly_the_matches(terms, n - 1, index);
        let head = matching(terms, n - 1);
        if head.contains(index) {
            let k = choose|k: int| 0 <= k < head.len() && head[k] == index;
            assert(all[k] == index);
        }
        if all.contains(index) {
            let k = choose|k: int| 0 <= k < all.len() && all[k] == index;
            assert(head[k] == index);
        }
    } else if holds_all(haystack(entry_at(index as int)), terms) {
        assert(all.last() == index);
    } else if all.contains(index) {
        let k = choose|k: int| 0 <= k < all.len() && all[k] == index;
        assert(matching(terms, n - 1)[k] < n - 1);
    }
}

impl CommandPalette {
    /// A palette that shows every command, the first one selected.
    pub fn new() -> (r: CommandPalette)
        ensures
            r@ == PaletteView::fresh(),
            r@.valid(),
    {
        let mut all: Vec<usize> = Vec::new();
        let mut i: usize = 0;
        while i < ENTRY_COUNT
            invariant
                i <= ENTRY_COUNT,
                all@ == Seq::new(i as nat, |k: int| k as usize),
            decreases ENTRY_COUNT - i,
        {
            all.push(i);
            i = i + 1;
            assert(all@ =~= Seq::new(i as nat, |k: int| k as usize));
        }
        CommandPalette {
            input: Input::empty(),
            shown: all,
            list: ListNav { selected: Some(0), ..ListNav::empty() },
            rect: Rect::zero(),
            input_rect: Rect::zero(),
        }
    }

    #[verifier::allow_in_spec]
    pub fn hints(&self) -> [(&'static str, &'static str); 4]
        returns
            [
                ("type", "filter commands"),
                ("↑↓", "choose"),
                ("Enter", "run"),
                ("Esc", "close"),
            ],
    {
        [("type", "filter commands"), ("↑↓", "choose"), ("Enter", "run"), ("Esc", "close")]
    }

    fn refilter(&mut self)
        requires
            old(self)@.input.valid(),
        ensures
            final(self)@ == old(self)@.refiltered(),
            final(self)@.valid(),
    {
        let query = self.input.value();
        self.shown = filter(query.as_str());
        self.list.first(self.shown.len());
        proof {
            lemma_matching_in_range(terms_of(query@), ENTRY_COUNT as int);
        }
    }

    /// The command of the selected row.
    pub fn selected(&self) -> (r: Option<Command>)
        ensures
            r == self@.chosen(),
    {
        match self.list.selected {
            Some(at) => if at < self.shown.len() && self.shown[at] < ENTRY_COUNT {
                Some(entry(self.shown[at]).command)
            } else {
                None
            },
            None => None,
        }
    }

    fn run(&self) -> (r: Event)
        ensures
            r == self@.execution(),
    {
        match self.selected() {
            Some(command) => Event::Execute(command),
            None => Event::Stay,
        }
    }

    pub fn paste(&mut self, text: &str) -> (r: Result<(), &'static str>)
        requires
            old(self)@.valid(),
        ensures
            final(self)@.valid(),
            r is Err == is_multiline(text@),
            r is Err ==> r->Err_0@ == paste_refused() && final(self)@ == old(self)@,
            r is Ok ==> final(self)@ == old(self)@.pasted(text@),
    {
        match self.input.paste(text) {
            Ok(changed) => {
                if changed {
                    self.refilter();
                }
                Ok(())
            },
            Err(error) => Err(error),
        }
    }

    pub fn key(&mut self, key: KeyEvent) -> (r: Event)
        requires
            old(self)@.valid(),
        ensures
            final(self)@ == old(self)@.keyed(key),
            final(self)@.valid(),
            r == old(self)@.key_event(key),
    {
        match key.code {
            KeyCode::Esc => Event::Close,
            KeyCode::Enter => self.run(),
            KeyCode::Down => {
                self.list.move_by(1, self.shown.len());
                Event::Stay
            },
            KeyCode::Up => {
                self.list.move_by(-1, self.shown.len());
                Event::Stay
            },
            KeyCode::PageDown => {
                self.list.move_by(8, self.shown.len());
                Event::Stay
            },
            KeyCode::PageUp => {
                self.list.move_by(-8, self.shown.len());
                Event::Stay
            },
            _ => {
                if self.input.handle_key(key) {
                    self.refilter();
                }
                Event::Stay
            },
        }
    }

    pub fn mouse(&mut self, event: MouseEvent) -> (r: Event)
        requires
            old(self)@.valid(),
        ensures
            final(self)@ == old(self)@.moused(event),
            final(self)@.valid(),
            r == old(self)@.mouse_event(event),
    {
        match event.kind {
            MouseKind::Down => {
                if !self.rect.contains(event.column, event.row) {
                    return Event::Close;
                }
                if self.input_rect.contains(event.column, event.row) {
                    self.input.click(event.column);
                    return Event::Stay;
                }
                if self.list.rows.contains(event.column, event.row) {
                    if let Some((_, double)) = self.list.click(
                        event.row,
                        self.shown.len(),
                        event.repeated,
                    ) {
                        if double {
                            return self.run();
                        }
                    }
                }
                Event::Stay
            },
            MouseKind::ScrollDown => {
                self.list.move_by(3, self.shown.len());
                Event::Stay
            },
            MouseKind::ScrollUp => {
                self.list.move_by(-3, self.shown.len());
                Event::Stay
            },
            _ => Event::Stay,
        }
    }

    fn row_labels(&self, width: usize) -> (r: Lines)
        ensures
            r@ == self@.rows(width as int),
    {
        let mut out = Lines::new();
        let mut i: usize = 0;
        assert(out@ =~= self@.rows(width as int).take(0));
        while i < self.shown.len()
            invariant
                i <= self.shown.len(),
                out@ == self@.rows(width as int).take(i as int),
            decreases self.shown.len() - i,
        {
            out.push(Line::raw(fit(entry(self.shown[i]).label, width).as_str()));
            i = i + 1;
            assert(out@ =~= self@.rows(width as int).take(i as int));
        }
        assert(out@ =~= self@.rows(width as int));
        out
    }

    /// Lays the palette out in the middle of the screen.
    pub fn draw(&mut self, area: Rect, theme: &Theme) -> (r: Scene)
        requires
            old(self)@.valid(),
            area.in_range(),
        ensures
            final(self)@ == old(self)@.placed(area),
            final(self)@.valid(),
            r@ == old(self)@.scene(area, *theme),
    {
        self.input_rect = Rect::zero();
        self.list.rows = Rect::zero();
        self.rect = centered(area, 72, 15);
        let mut scene = Scene::new();
        scene.clear(self.rect);
        scene.frame(self.rect, " Commands · type to filter ");
        let inner = self.rect.inner();
        if inner.width < 20 || inner.height < 4 {
            scene.note(inner, "Enlarge terminal · Esc close", Style::plain());
            return scene;
        }
        self.input_rect = Rect::new(inner.x + 1, inner.y, inner.width - 2, 1);
        self.input.place(self.input_rect);
        scene.push(
            Draw::Field {
                rect: self.input_rect,
                value: self.input.value(),
                cursor: self.input.cursor,
                focused: true,
                placeholder: "Search commands…".to_owned(),
            },
        );
        self.list.rows = Rect::new(inner.x + 1, inner.y + 2, inner.width - 2, inner.height - 4);
        self.list.item_height = 1;
        self.list.clamp(self.shown.len());
        let rows = self.row_labels(self.list.rows.width as usize);
        self.list.show(self.shown.len());
        scene.list(self.list, rows, theme.selected());
        let detail = match self.list.selected {
            Some(at) => if at < self.shown.len() {
                entry(self.shown[at]).detail
            } else {
                ""
            },
            None => "",
        };
        scene.note(
            Rect::new(inner.x + 1, inner.bottom() - 2, inner.width - 2, 1),
            fit(detail, (inner.width - 2) as usize).as_str(),
            theme.description(),
        );
        let remark = if self.shown.len() == 0 {
            "No matching commands"
        } else {
            "Enter runs · Esc closes"
        };
        scene.note(
            Rect::new(inner.x + 1, inner.bottom() - 1, inner.width - 2, 1),
            remark,
            theme.dim(),
        );
        scene
    }
}

/// The palette stays on the screen, wherever the screen is.
pub proof fn lemma_palette_on_screen(palette: PaletteView, area: Rect)
    requires
        area.in_range(),
        area.width > 0,
        area.height > 0,
    ensures
        palette.placed(area).rect.within(area),
{
}

/// Enter runs the command whose row is selected, Esc runs nothing.
pub proof fn lemma_enter_runs_the_selected_row(palette: PaletteView, key: KeyEvent, at: usize)
    requires
        palette.valid(),
        palette.list.selected == Some(at),
        at < palette.shown.len(),
    ensures
        key.code == KeyCode::Enter ==> palette.key_event(key) == Event::Execute(
            entry_at(palette.shown[at as int] as int).command,
        ),
        key.code == KeyCode::Esc ==> palette.key_event(key) == Event::Close,
        key.code != KeyCode::Enter && key.code != KeyCode::Esc ==> palette.key_event(key)
            == Event::Stay,
        key.code == KeyCode::Enter || key.code == KeyCode::Esc ==> palette.keyed(key) == palette,
{
    assert(palette.shown[at as int] < ENTRY_COUNT);
}

/// Every command is in the list once, under the name of what it does.
pub proof fn lemma_rows_run_what_they_say(i: int, j: int)
    requires
        0 <= i < ENTRY_COUNT,
        0 <= j < ENTRY_COUNT,
    ensures
        i != j ==> entry_at(i).command != entry_at(j).command,
        entry_at(i).command == Command::Rescan ==> entry_at(i).label == "Rescan workspace",
        entry_at(i).command == Command::Install ==> entry_at(i).label == "Install skill",
        entry_at(i).command == Command::Repositories ==> entry_at(i).label
            == "Browse repositories",
        entry_at(i).command == Command::Repair ==> entry_at(i).label == "Repair health issues",
        entry_at(i).command == Command::RootSync ==> entry_at(i).label == "Root backup and sync",
        entry_at(i).command == Command::ToggleTags ==> entry_at(i).label == "Show or hide tags",
        entry_at(i).command == Command::Undo ==> entry_at(i).label == "Undo last change",
        entry_at(i).command == Command::Redo ==> entry_at(i).label == "Redo last change",
        entry_at(i).command == Command::Help ==> entry_at(i).label == "Open keyboard help",
{
}

/// A row is pressed twice to run it and once to select it; a press beside the palette closes
/// it.
pub proof fn lemma_mouse_of_the_palette(palette: PaletteView, event: MouseEvent, at: usize)
    requires
        palette.valid(),
        event.kind == MouseKind::Down,
        palette.rect.has(event.column as int, event.row as int),
        !palette.input_rect.has(event.column as int, event.row as int),
        palette.list.rows.has(event.column as int, event.row as int),
        palette.list.hit(event.row as int, palette.shown.len() as int) == Some(at),
        at < palette.shown.len(),
    ensures
        palette.moused(event).list.selected == Some(at),
        event.repeated ==> palette.mouse_event(event) == Event::Execute(
            entry_at(palette.shown[at as int] as int).command,
        ),
        !event.repeated ==> palette.mouse_event(event) == Event::Stay,
{
    assert(palette.shown[at as int] < ENTRY_COUNT);
}

/// Typing shows the commands whose name, description or further words hold every word that
/// was typed, in any order and in any case, and selects the first of them.
pub proof fn lemma_typing_finds_commands(palette: PaletteView, key: KeyEvent, i: usize)
    requires
        key.code is Char,
        !key.modifiers.commands(),
        i < ENTRY_COUNT,
    ensures
        ({
            let after = palette.keyed(key);
            let terms = words(lower(trimmed(palette.input.typed(key.code->Char_0).text)));
            let text = lower(
                entry_at(i as int).label@ + " "@ + entry_at(i as int).detail@ + " "@ + entry_at(
                    i as int,
                ).keywords@,
            );
            &&& after.shown.contains(i) <==> forall|k: int|
                0 <= k < terms.len() ==> has_part(text, #[trigger] terms[k])
            &&& after.shown.len() > 0 ==> after.list.selected == Some(0usize)
            &&& after.shown.len() == 0 ==> after.list.selected is None
        }),
{
    let terms = words(lower(trimmed(palette.input.typed(key.code->Char_0).text)));
    lemma_shown_exactly_the_matches(terms, ENTRY_COUNT as int, i);
}

/// Every command is explained, and found by other words than its own too.
pub proof fn lemma_commands_are_explained(i: int)
    requires
        0 <= i < 9,
    ensures
        ({
            let entry = entry_at(i);
            &&& entry.command == Command::Rescan ==> entry.detail@
                == "Refresh skills and deployment state"@ && entry.keywords@
                == "refresh reload scan"@
            &&& entry.command == Command::Install ==> entry.detail@
                == "Use a repository, archive URL or local path"@ && entry.keywords@
                == "add repository repo local"@
            &&& entry.command == Command::Repositories ==> entry.detail@
                == "Open installed repository sources"@ && entry.keywords@ == "source repos"@
            &&& entry.command == Command::Repair ==> entry.detail@
                == "Preview root repairs before applying"@ && entry.keywords@
                == "health fix missing broken"@
            &&& entry.command == Command::RootSync ==> entry.detail@
                == "Configure or run Git synchronization"@ && entry.keywords@
                == "git remote push pull backup"@
            &&& entry.command == Command::ToggleTags ==> entry.detail@
                == "Change tag visibility throughout the interface"@ && entry.keywords@
                == "settings classification"@
            &&& entry.command == Command::Undo ==> entry.detail@
                == "Preview the previous session change"@ && entry.keywords@ == "history back"@
            &&& entry.command == Command::Redo ==> entry.detail@
                == "Preview the next session change"@ && entry.keywords@ == "history forward"@
            &&& entry.command == Command::Help ==> entry.detail@
                == "Show navigation and interaction reference"@ && entry.keywords@
                == "shortcuts keys"@
        }),
{
}

/// A paste is typed into the search of the palette, which finds commands by it.
pub proof fn lemma_a_paste_is_searched_for(palette: PaletteView, text: Seq<char>)
    ensures
        palette.pasted(text).input == palette.input.with_pasted(text),
        text.len() > 0 ==> palette.pasted(text) == (PaletteView {
            input: palette.input.with_pasted(text),
            ..palette
        }).refiltered(),
{
}

/// The palette is drawn with its search, the commands that were found, what the selected one
/// does, and how it is left; what can be pressed is where it is drawn.
pub proof fn lemma_the_palette_is_drawn(palette: PaletteView, area: Rect, theme: Theme)
    requires
        PaletteView::roomy(area),
    ensures
        ({
            let after = palette.placed(area);
            let scene = palette.scene(area, theme);
            &&& scene.len() == 6
            &&& scene[1] == framed(after.rect, " Commands · type to filter "@)
            &&& scene[2] is Field
            &&& scene[2]->Field_rect == after.input_rect
            &&& scene[2]->Field_value == palette.input.text
            &&& scene[3] is List
            &&& scene[3]->List_rect == after.list.rows
            &&& scene[3]->List_rows == palette.rows(after.list.rows.width as int)
            &&& palette.shown.len() == 0 ==> scene[5]->Text_lines == seq![
                seq![plain_run("No matching commands"@)],
            ]
            &&& palette.shown.len() > 0 ==> scene[5]->Text_lines == seq![
                seq![plain_run("Enter runs · Esc closes"@)],
            ]
            &&& after.input.text == palette.input.text
            &&& after.shown == palette.shown
        }),
{
}

} // verus!
