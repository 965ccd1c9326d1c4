//! What is put on the screen, as data: styled text and the pieces of a drawing.

use crate::geometry::Rect;
use crate::measure::{display_width, width};
use crate::widgets::ListNav;
use vstd::prelude::*;

verus! {

#[derive(Debug, Clone, Copy, PartialEq, Eq, Structural)]
pub enum Color {
    Reset,
    Red,
    Green,
    Yellow,
    Blue,
    Magenta,
    Cyan,
    Gray,
    DarkGray,
    Rgb(u8, u8, u8),
}

#[derive(Debug, Clone, Copy, PartialEq, Eq, Structural)]
pub struct Style {
    pub fg: Option<Color>,
    pub bg: Option<Color>,
    pub bold: bool,
    pub dim: bool,
    pub italic: bool,
    pub underlined: bool,
}

impl Style {
    /// Text as the terminal shows it by itself.
    #[verifier::allow_in_spec]
    pub fn plain() -> Style
        returns
            (Style { fg: None, bg: None, bold: false, dim: false, italic: false, underlined: false }),
    {
        Style { fg: None, bg: None, bold: false, dim: false, italic: false, underlined: false }
    }

    #[verifier::allow_in_spec]
    pub fn colored(color: Color) -> Style
        returns
            (Style { fg: Some(color), ..Style::plain() }),
    {
        Style { fg: Some(color), ..Style::plain() }
    }

    #[verifier::allow_in_spec]
    pub fn fg(self, color: Color) -> Style
        returns
            (Style { fg: Some(color), ..self }),
    {
        Style { fg: Some(color), ..self }
    }

    #[verifier::allow_in_spec]
    pub fn bolder(self) -> Style
        returns
            (Style { bold: true, ..self }),
    {
        Style { bold: true, ..self }
    }

    #[verifier::allow_in_spec]
    pub fn dimmer(self) -> Style
        returns
            (Style { dim: true, ..self }),
    {
        Style { dim: true, ..self }
    }

    #[verifier::allow_in_spec]
    pub fn slanted(self) -> Style
        returns
            (Style { italic: true, ..self }),
    {
        Style { italic: true, ..self }
    }
}

/// A run of text in one style.
#[derive(Debug)]
pub struct Span {
    pub content: String,
    pub style: Style,
}

#[verifier::ext_equal]
pub ghost struct SpanView {
    pub content: Seq<char>,
    pub style: Style,
}

impl View for Span {
    type V = SpanView;

    open spec fn view(&self) -> SpanView {
        SpanView { content: self.content@, style: self.style }
    }
}

/// A run of text in one style, for contracts.
pub open spec fn run(content: Seq<char>, style: Style) -> SpanView {
    SpanView { content, style }
}

/// A run of text in no style of its own, for contracts.
pub open spec fn plain_run(content: Seq<char>) -> SpanView {
    SpanView { content, style: Style::plain() }
}

impl Span {
    pub fn styled(content: &str, style: Style) -> (r: Span)
        ensures
            r@ == run(content@, style),
    {
        Span { content: content.to_owned(), style }
    }

    pub fn raw(content: &str) -> (r: Span)
        ensures
            r@ == plain_run(content@),
    {
        Span { content: content.to_owned(), style: Style::plain() }
    }

    pub fn of(content: String, style: Style) -> (r: Span)
        ensures
            r@ == run(content@, style),
    {
        Span { content, style }
    }
}

impl Clone for Span {
    fn clone(&self) -> (r: Span)
        ensures
            r == *self,
    {
        Span { content: self.content.clone(), style: self.style }
    }
}

/// A line of styled text.
#[derive(Debug)]
pub struct Line {
    pub spans: Vec<Span>,
}

pub open spec fn spans_view(spans: Seq<Span>) -> Seq<SpanView> {
    spans.map_values(|s: Span| s@)
}

impl View for Line {
    type V = Seq<SpanView>;

    open spec fn view(&self) -> Seq<SpanView> {
        spans_view(self.spans@)
    }
}

/// The columns of a line, its runs measured one by one.
pub open spec fn line_width(line: Seq<SpanView>) -> int
    decreases line.len(),
{
    if line.len() == 0 {
        0
    } else {
        line_width(line.drop_last()) + display_width(line.last().content)
    }
}

/// The characters of a line.
pub open spec fn line_text(line: Seq<SpanView>) -> Seq<char>
    decreases line.len(),
{
    if line.len() == 0 {
        Seq::empty()
    } else {
        line_text(line.drop_last()) + line.last().content
    }
}

impl Line {
    pub fn new() -> (r: Line)
        ensures
            r@ == Seq::<SpanView>::empty(),
    {
        let r = Line { spans: Vec::new() };
        assert(r@ =~= Seq::<SpanView>::empty());
        r
    }

    pub fn push(&mut self, span: Span)
        ensures
            final(self)@ == old(self)@.push(span@),
    {
        self.spans.push(span);
        assert(self@ =~= old(self)@.push(span@));
    }

    /// A line of one run.
    pub fn one(span: Span) -> (r: Line)
        ensures
            r@ == seq![span@],
    {
        let mut r = Line::new();
        r.push(span);
        r
    }

    pub fn raw(content: &str) -> (r: Line)
        ensures
            r@ == seq![plain_run(content@)],
    {
        Line::one(Span::raw(content))
    }

    pub fn styled(content: &str, style: Style) -> (r: Line)
        ensures
            r@ == seq![run(content@, style)],
    {
        Line::one(Span::styled(content, style))
    }

    /// Appends all runs of another line.
    pub fn extend(&mut self, other: Line)
        ensures
            final(self)@ == old(self)@ + other@,
    {
        let mut rest = other.spans;
        let ghost added = rest@;
        self.spans.append(&mut rest);
        assert(self@ =~= old(self)@ + spans_view(added));
    }

    /// The characters of the line.
    pub fn text(&self) -> (r: String)
        ensures
            r@ == line_text(self@),
    {
        let mut out = String::new();
        let mut i: usize = 0;
        assert(self@.take(0) =~= Seq::empty());
        while i < self.spans.len()
            invariant
                i <= self.spans.len(),
                out@ == line_text(self@.take(i as int)),
            decreases self.spans.len() - i,
        {
            out.append(self.spans[i].content.as_str());
            i = i + 1;
            assert(self@.take(i as int).drop_last() =~= self@.take(i - 1));
            assert(self@.take(i as int).last() == self.spans@[i - 1]@);
        }
        assert(self@.take(self@.len() as int) =~= self@);
        out
    }
}

impl Clone for Line {
    fn clone(&self) -> (r: Line)
        ensures
            r@ == self@,
    {
        let mut out = Line::new();
        let mut i: usize = 0;
        while i < self.spans.len()
            invariant
                i <= self.spans.len(),
                out@ == self@.take(i as int),
            decreases self.spans.len() - i,
        {
            out.push(self.spans[i].clone());
            i = i + 1;
            assert(out@ =~= self@.take(i as int));
        }
        assert(out@ =~= self@);
        out
    }
}

/// Lines of styled text.
#[derive(Debug)]
pub struct Lines {
    pub items: Vec<Line>,
}

pub open spec fn lines_view(lines: Seq<Line>) -> Seq<Seq<SpanView>> {
    lines.map_values(|l: Line| l@)
}

impl View for Lines {
    type V = Seq<Seq<SpanView>>;

    open spec fn view(&self) -> Seq<Seq<SpanView>> {
        lines_view(self.items@)
    }
}

impl Lines {
    pub fn new() -> (r: Lines)
        ensures
            r@ == Seq::<Seq<SpanView>>::empty(),
    {
        let r = Lines { items: Vec::new() };
        assert(r@ =~= Seq::<Seq<SpanView>>::empty());
        r
    }

    pub fn push(&mut self, line: Line)
        ensures
            final(self)@ == old(self)@.push(line@),
    {
        self.items.push(line);
        assert(self@ =~= old(self)@.push(line@));
    }

    pub fn one(line: Line) -> (r: Lines)
        ensures
            r@ == seq![line@],
    {
        let mut r = Lines::new();
        r.push(line);
        r
    }

    pub fn len(&self) -> (r: usize)
        ensures
            r == self@.len(),
    {
        self.items.len()
    }
}

/// What becomes of a line that is longer than its rectangle is wide.
#[derive(Debug, Clone, Copy, PartialEq, Eq, Structural)]
pub enum Wrap {
    /// It is cut off.
    Cut,
    /// It goes on in the next row; blanks at its begin stay.
    Words,
    /// It goes on in the next row; blanks at its begin are dropped.
    Trimmed,
}

/// How the cells of a rectangle are filled.
#[derive(Debug)]
pub enum Draw {
    /// What stood there is wiped out.
    Clear(Rect),
    /// A rounded border with a title.
    Frame { rect: Rect, title: Line, focused: bool },
    /// Lines of text; the first `scroll` of them are above the rectangle.
    Text { rect: Rect, lines: Lines, style: Style, wrap: Wrap, scroll: u16 },
    /// The rows of a list, from the `offset`-th on, of which one is highlighted.
    List {
        rect: Rect,
        rows: Lines,
        selected: Option<usize>,
        offset: usize,
        highlight: Style,
        symbol: String,
    },
    /// A text field with its cursor where it has the focus.
    Field { rect: Rect, value: String, cursor: usize, focused: bool, placeholder: String },
}

pub ghost enum DrawView {
    Clear(Rect),
    Frame { rect: Rect, title: Seq<SpanView>, focused: bool },
    Text { rect: Rect, lines: Seq<Seq<SpanView>>, style: Style, wrap: Wrap, scroll: u16 },
    List {
        rect: Rect,
        rows: Seq<Seq<SpanView>>,
        selected: Option<usize>,
        offset: usize,
        highlight: Style,
        symbol: Seq<char>,
    },
    Field { rect: Rect, value: Seq<char>, cursor: usize, focused: bool, placeholder: Seq<char> },
}

impl View for Draw {
    type V = DrawView;

    open spec fn view(&self) -> DrawView {
        match *self {
            Draw::Clear(rect) => DrawView::Clear(rect),
            Draw::Frame { rect, title, focused } => DrawView::Frame {
                rect,
                title: title@,
                focused,
            },
            Draw::Text { rect, lines, style, wrap, scroll } => DrawView::Text {
                rect,
                lines: lines@,
                style,
                wrap,
                scroll,
            },
            Draw::List { rect, rows, selected, offset, highlight, symbol } => DrawView::List {
                rect,
                rows: rows@,
                selected,
                offset,
                highlight,
                symbol: symbol@,
            },
            Draw::Field { rect, value, cursor, focused, placeholder } => DrawView::Field {
                rect,
                value: value@,
                cursor,
                focused,
                placeholder: placeholder@,
            },
        }
    }
}

/// A border with a title of one plain run, for contracts.
pub open spec fn framed(rect: Rect, title: Seq<char>) -> DrawView {
    DrawView::Frame { rect, title: seq![plain_run(title)], focused: true }
}

/// Text that is neither wrapped nor scrolled, for contracts.
pub open spec fn shown(rect: Rect, lines: Seq<Seq<SpanView>>, style: Style) -> DrawView {
    DrawView::Text { rect, lines, style, wrap: Wrap::Cut, scroll: 0 }
}

/// Text that is wrapped, for contracts.
pub open spec fn flowing(
    rect: Rect,
    lines: Seq<Seq<SpanView>>,
    style: Style,
    wrap: Wrap,
    scroll: u16,
) -> DrawView {
    DrawView::Text { rect, lines, style, wrap, scroll }
}

/// The rows of a list, for contracts.
pub open spec fn listed(list: ListNav, rows: Seq<Seq<SpanView>>, highlight: Style) -> DrawView {
    marked_list(list, rows, highlight, Seq::empty())
}

/// The rows of a list with a mark in front of the selected one, for contracts.
pub open spec fn marked_list(
    list: ListNav,
    rows: Seq<Seq<SpanView>>,
    highlight: Style,
    symbol: Seq<char>,
) -> DrawView {
    DrawView::List {
        rect: list.rows,
        rows,
        selected: list.selected,
        offset: list.offset,
        highlight,
        symbol,
    }
}

/// A drawing, piece by piece from the back to the front.
#[derive(Debug)]
pub struct Scene {
    pub items: Vec<Draw>,
}

impl View for Scene {
    type V = Seq<DrawView>;

    open spec fn view(&self) -> Seq<DrawView> {
        self.items@.map_values(|d: Draw| d@)
    }
}

impl Scene {
    pub fn new() -> (r: Scene)
        ensures
            r@ == Seq::<DrawView>::empty(),
    {
        let r = Scene { items: Vec::new() };
        assert(r@ =~= Seq::<DrawView>::empty());
        r
    }

    pub fn push(&mut self, item: Draw)
        ensures
            final(self)@ == old(self)@.push(item@),
    {
        self.items.push(item);
        assert(self@ =~= old(self)@.push(item@));
    }

    pub fn clear(&mut self, rect: Rect)
        ensures
            final(self)@ == old(self)@.push(DrawView::Clear(rect)),
    {
        self.push(Draw::Clear(rect));
    }

    /// A border in the colour of what has the focus.
    pub fn frame(&mut self, rect: Rect, title: &str)
        ensures
            final(self)@ == old(self)@.push(framed(rect, title@)),
    {
        self.push(Draw::Frame { rect, title: Line::raw(title), focused: true });
    }

    pub fn lines(&mut self, rect: Rect, lines: Lines, style: Style)
        ensures
            final(self)@ == old(self)@.push(shown(rect, lines@, style)),
    {
        self.push(Draw::Text { rect, lines, style, wrap: Wrap::Cut, scroll: 0 });
    }

    pub fn line(&mut self, rect: Rect, line: Line, style: Style)
        ensures
            final(self)@ == old(self)@.push(shown(rect, seq![line@], style)),
    {
        self.lines(rect, Lines::one(line), style);
    }

    /// One line of text in one style.
    pub fn note(&mut self, rect: Rect, text: &str, style: Style)
        ensures
            final(self)@ == old(self)@.push(shown(rect, seq![seq![plain_run(text@)]], style)),
    {
        self.line(rect, Line::raw(text), style);
    }

    /// Text that is wrapped.
    pub fn flow(&mut self, rect: Rect, lines: Lines, style: Style, wrap: Wrap, scroll: u16)
        ensures
            final(self)@ == old(self)@.push(flowing(rect, lines@, style, wrap, scroll)),
    {
        self.push(Draw::Text { rect, lines, style, wrap, scroll });
    }

    /// One line of text that is wrapped, without blanks at the begin of a row.
    pub fn flow_note(&mut self, rect: Rect, text: &str, style: Style)
        ensures
            final(self)@ == old(self)@.push(
                flowing(rect, seq![seq![plain_run(text@)]], style, Wrap::Trimmed, 0),
            ),
    {
        self.flow(rect, Lines::one(Line::raw(text)), style, Wrap::Trimmed, 0);
    }

    /// The rows of a list.
    pub fn list(&mut self, list: ListNav, rows: Lines, highlight: Style)
        ensures
            final(self)@ == old(self)@.push(listed(list, rows@, highlight)),
    {
        let symbol = String::new();
        assert(symbol@ =~= Seq::empty());
        self.push(
            Draw::List {
                rect: list.rows,
                rows,
                selected: list.selected,
                offset: list.offset,
                highlight,
                symbol,
            },
        );
    }

    /// The rows of a list, with a mark in front of the selected one.
    pub fn marked_list(&mut self, list: ListNav, rows: Lines, highlight: Style, symbol: &str)
        ensures
            final(self)@ == old(self)@.push(marked_list(list, rows@, highlight, symbol@)),
    {
        self.push(
            Draw::List {
                rect: list.rows,
                rows,
                selected: list.selected,
                offset: list.offset,
                highlight,
                symbol: symbol.to_owned(),
            },
        );
    }

    /// All pieces of another drawing, in front.
    pub fn extend(&mut self, other: Scene)
        ensures
            final(self)@ == old(self)@ + other@,
    {
        let mut rest = other.items;
        let ghost added = rest@;
        self.items.append(&mut rest);
        assert(self@ =~= old(self)@ + added.map_values(|d: Draw| d@));
    }
}

/// What the runs of some lines say.
pub open spec fn contents(lines: Seq<Seq<SpanView>>) -> Seq<Seq<Seq<char>>> {
    lines.map_values(|l: Seq<SpanView>| l.map_values(|s: SpanView| s.content))
}

/// How many rows some lines take where they are wrapped at words.
pub uninterp spec fn wrapped_rows(lines: Seq<Seq<Seq<char>>>, width: u16) -> nat;

/// `Paragraph::line_count` of ratatui, for a paragraph that wraps without trimming: the
/// number of rows that the lines take at a width. Stated besides its name: it is zero
/// where there is no width. It adds up to three widths of parts of a line in sixteen bits,
/// so that it is asked only for widths of which four still fit.
#[verifier::external_body]
pub(crate) fn count_wrapped(lines: &Lines, width: u16) -> (r: usize)
    requires
        width <= 0x3fff,
    ensures
        r == wrapped_rows(contents(lines@), width),
        width == 0 ==> r == 0,
{
    let runs = |l: &Line| l.spans.iter().map(|s| ratatui::text::Span::raw(s.content.clone())).collect::<Vec<_>>();
    let text: Vec<_> = lines.items.iter().map(|l| ratatui::text::Line::from(runs(l))).collect();
    ratatui::widgets::Paragraph::new(text).wrap(ratatui::widgets::Wrap { trim: false }).line_count(width)
}

/// The label of a button, blank on both sides and bracketed.
pub open spec fn button_text(label: Seq<char>) -> Seq<char> {
    "[ "@ + label + " ]"@
}

/// A button as one run: the one with the focus stands out.
pub open spec fn button_run(label: Seq<char>, active: bool, selected: Style, idle: Style) -> SpanView {
    run(
        button_text(label),
        if active {
            selected
        } else {
            idle
        },
    )
}

pub fn button(label: &str, active: bool, selected: Style, idle: Style) -> (r: Span)
    ensures
        r@ == button_run(label@, active, selected, idle),
{
    let style = if active {
        selected
    } else {
        idle
    };
    Span::of(crate::text::cat3("[ ", label, " ]"), style)
}

} // verus!
