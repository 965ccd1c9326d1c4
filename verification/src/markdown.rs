//! Markdown as styled text. Tables that are too wide are laid out again, so that text wraps
//! inside of their cells instead of splitting their borders.

use crate::geometry::{monus, spec_max, spec_min};
use crate::measure::{display_width, graphemes, is_narrow, width};
use crate::text::{
    chars_of, clone_optional, repeat, repeated, said, same_optional, same_text, texts,
};
use vstd::prelude::*;

verus! {

// ---- styled text -------------------------------------------------------------

/// A style as the Markdown renderer gives it: colours by their names, modifiers as bits.
#[derive(Debug)]
pub struct TextStyle {
    pub fg: Option<String>,
    pub bg: Option<String>,
    pub underline: Option<String>,
    pub added: u16,
    pub removed: u16,
}

pub ghost struct TextStyleView {
    pub fg: Option<Seq<char>>,
    pub bg: Option<Seq<char>>,
    pub underline: Option<Seq<char>>,
    pub added: u16,
    pub removed: u16,
}

impl View for TextStyle {
    type V = TextStyleView;

    open spec fn view(&self) -> TextStyleView {
        TextStyleView {
            fg: said(self.fg),
            bg: said(self.bg),
            underline: said(self.underline),
            added: self.added,
            removed: self.removed,
        }
    }
}

/// No style.
pub open spec fn no_style() -> TextStyleView {
    TextStyleView { fg: None, bg: None, underline: None, added: 0, removed: 0 }
}

impl TextStyle {
    pub fn plain() -> (r: TextStyle)
        ensures
            r@ == no_style(),
    {
        TextStyle { fg: None, bg: None, underline: None, added: 0, removed: 0 }
    }

    fn same(&self, other: &TextStyle) -> (r: bool)
        ensures
            r == (self@ == other@),
    {
        same_optional(&self.fg, &other.fg) && same_optional(&self.bg, &other.bg) && same_optional(
            &self.underline,
            &other.underline,
        ) && self.added == other.added && self.removed == other.removed
    }
}

impl Clone for TextStyle {
    fn clone(&self) -> (r: TextStyle)
        ensures
            r == *self,
    {
        TextStyle {
            fg: clone_optional(&self.fg),
            bg: clone_optional(&self.bg),
            underline: clone_optional(&self.underline),
            added: self.added,
            removed: self.removed,
        }
    }
}

#[derive(Debug)]
pub struct TextSpan {
    pub content: String,
    pub style: TextStyle,
}

#[verifier::ext_equal]
pub ghost struct TextSpanView {
    pub content: Seq<char>,
    pub style: TextStyleView,
}

impl View for TextSpan {
    type V = TextSpanView;

    open spec fn view(&self) -> TextSpanView {
        TextSpanView { content: self.content@, style: self.style@ }
    }
}

impl Clone for TextSpan {
    fn clone(&self) -> (r: TextSpan)
        ensures
            r == *self,
    {
        TextSpan { content: self.content.clone(), style: self.style.clone() }
    }
}

pub open spec fn span_views(spans: Seq<TextSpan>) -> Seq<TextSpanView> {
    spans.map_values(|s: TextSpan| s@)
}

#[derive(Debug)]
pub struct TextLine {
    pub spans: Vec<TextSpan>,
    pub style: TextStyle,
    /// How the line is aligned, by name.
    pub alignment: Option<String>,
}

#[verifier::ext_equal]
pub ghost struct TextLineView {
    pub spans: Seq<TextSpanView>,
    pub style: TextStyleView,
    pub alignment: Option<Seq<char>>,
}

impl View for TextLine {
    type V = TextLineView;

    open spec fn view(&self) -> TextLineView {
        TextLineView {
            spans: span_views(self.spans@),
            style: self.style@,
            alignment: crate::text::said(self.alignment),
        }
    }
}

pub open spec fn line_views(lines: Seq<TextLine>) -> Seq<TextLineView> {
    lines.map_values(|l: TextLine| l@)
}

/// A line of these runs, with no style or alignment of its own.
pub open spec fn line_of(spans: Seq<TextSpanView>) -> TextLineView {
    TextLineView { spans, style: no_style(), alignment: None }
}

/// Copies a part of the runs.
fn clone_spans(spans: &Vec<TextSpan>, from: usize, to: usize) -> (r: Vec<TextSpan>)
    requires
        from <= to <= spans.len(),
    ensures
        span_views(r@) == span_views(spans@).subrange(from as int, to as int),
        r@ == spans@.subrange(from as int, to as int),
{
    let mut out: Vec<TextSpan> = Vec::new();
    let mut i: usize = from;
    while i < to
        invariant
            from <= i <= to <= spans.len(),
            out@ == spans@.subrange(from as int, i as int),
        decreases to - i,
    {
        out.push(spans[i].clone());
        i = i + 1;
        assert(out@ =~= spans@.subrange(from as int, i as int));
    }
    assert(span_views(out@) =~= span_views(spans@).subrange(from as int, to as int));
    out
}

impl Clone for TextLine {
    fn clone(&self) -> (r: TextLine)
        ensures
            r@ == self@,
    {
        let spans = clone_spans(&self.spans, 0, self.spans.len());
        assert(span_views(spans@) =~= span_views(self.spans@));
        TextLine { spans, style: self.style.clone(), alignment: crate::text::clone_optional(&self.alignment) }
    }
}

/// The columns of the runs, measured one by one, as far as a `usize` counts.
pub open spec fn runs_width(spans: Seq<TextSpanView>) -> int
    decreases spans.len(),
{
    if spans.len() == 0 {
        0
    } else {
        spec_min(runs_width(spans.drop_last()) + display_width(spans.last().content), usize::MAX as int)
    }
}

fn measure_runs(spans: &Vec<TextSpan>) -> (r: usize)
    ensures
        r == runs_width(span_views(spans@)),
{
    let ghost all = span_views(spans@);
    let mut sum: usize = 0;
    let mut i: usize = 0;
    assert(all.take(0) =~= Seq::empty());
    while i < spans.len()
        invariant
            i <= spans.len(),
            all == span_views(spans@),
            sum == runs_width(all.take(i as int)),
        decreases spans.len() - i,
    {
        sum = sum.saturating_add(width(spans[i].content.as_str()));
        i = i + 1;
        assert(all.take(i as int).drop_last() =~= all.take(i - 1));
        assert(all.take(i as int).last() == spans@[i - 1]@);
    }
    assert(all.take(all.len() as int) =~= all);
    sum
}

// ---- rendering ---------------------------------------------------------------

/// What a Markdown text looks like, line by line.
pub uninterp spec fn markdown_lines(body: Seq<char>) -> Seq<TextLineView>;

/// `tui_markdown::from_str`: a Markdown text as styled lines. The colours become their
/// names and the modifiers their bits.
#[verifier::external_body]
pub(crate) fn from_markdown(body: &str) -> (r: Vec<TextLine>)
    ensures
        line_views(r@) == markdown_lines(body@),
{
    let plain = |s: ratatui::style::Style| TextStyle {
        fg: s.fg.map(|c| c.to_string()),
        bg: s.bg.map(|c| c.to_string()),
        underline: s.underline_color.map(|c| c.to_string()),
        added: s.add_modifier.bits(),
        removed: s.sub_modifier.bits(),
    };
    tui_markdown::from_str(body).lines.into_iter().map(|l| TextLine {
        spans: l.spans.into_iter().map(|s| TextSpan { content: s.content.to_string(), style: plain(s.style) }).collect(),
        style: plain(l.style),
        alignment: l.alignment.map(|a| a.to_string()),
    }).collect()
}

/// Renders a Markdown text for `width` columns.
pub fn render(body: &str, width: usize) -> (r: Vec<TextLine>)
    ensures
        line_views(r@) == with_tables_laid_out(markdown_lines(body@), 0, width as int),
{
    wrap_tables(&from_markdown(body), width)
}

/// The lines from `at` on, with every table that is wider than `width` laid out again.
pub open spec fn with_tables_laid_out(lines: Seq<TextLineView>, at: int, width: int) -> Seq<
    TextLineView,
>
    decreases lines.len() - at,
{
    if at < 0 || at >= lines.len() {
        Seq::empty()
    } else {
        match table_from(lines, at) {
            Some((end, rows)) => if at <= end < lines.len() {
                (if runs_width(lines[at].spans) > width {
                    laid_out(rows, width, lines[at].spans[0].style)
                } else {
                    lines.subrange(at, end + 1)
                }) + with_tables_laid_out(lines, end + 1, width)
            } else {
                Seq::empty()
            },
            None => seq![lines[at]] + with_tables_laid_out(lines, at + 1, width),
        }
    }
}

pub fn wrap_tables(lines: &Vec<TextLine>, width: usize) -> (r: Vec<TextLine>)
    ensures
        line_views(r@) == with_tables_laid_out(line_views(lines@), 0, width as int),
{
    let ghost all = line_views(lines@);
    let mut out: Vec<TextLine> = Vec::new();
    let mut i: usize = 0;
    assert(line_views(out@) + with_tables_laid_out(all, 0, width as int) =~= with_tables_laid_out(
        all,
        0,
        width as int,
    ));
    while i < lines.len()
        invariant
            i <= lines.len(),
            all == line_views(lines@),
            line_views(out@) + with_tables_laid_out(all, i as int, width as int)
                == with_tables_laid_out(all, 0, width as int),
        decreases lines.len() - i,
    {
        let ghost before = line_views(out@);
        match table_at(lines, i) {
            Some((end, rows)) => {
                let first = &lines[i];
                let mut added: Vec<TextLine> = Vec::new();
                if measure_runs(&first.spans) > width {
                    added = layout(&rows, width, &first.spans[0].style);
                } else {
                    let mut k: usize = i;
                    while k <= end
                        invariant
                            i <= k <= end + 1,
                            end < lines.len(),
                            all == line_views(lines@),
                            line_views(added@) == all.subrange(i as int, k as int),
                        decreases end + 1 - k,
                    {
                        let line = lines[k].clone();
                        assert(line@ == all[k as int]);
                        assert(line_views(added@.push(line)) =~= line_views(added@).push(line@));
                        added.push(line);
                        assert(line_views(added@) =~= all.subrange(i as int, k + 1));
                        k = k + 1;
                    }
                }
                let ghost block = line_views(added@);
                let ghost rest = with_tables_laid_out(all, end + 1, width as int);
                assert(before + (block + rest) =~= before + block + rest);
                assert(line_views(out@ + added@) =~= before + block);
                out.append(&mut added);
                i = end + 1;
            },
            None => {
                let ghost rest = with_tables_laid_out(all, i + 1, width as int);
                assert(before + (seq![all[i as int]] + rest) =~= before.push(all[i as int]) + rest);
                let line = lines[i].clone();
                assert(line_views(out@.push(line)) =~= before.push(all[i as int]));
                out.push(line);
                i = i + 1;
            },
        }
    }
    assert(with_tables_laid_out(all, lines@.len() as int, width as int) =~= Seq::empty());
    assert(line_views(out@) + Seq::<TextLineView>::empty() =~= line_views(out@));
    out
}

// ---- finding tables ----------------------------------------------------------

/// A line of a box: one run, from `left` to `right`, of dashes and `middle`.
pub open spec fn is_border(line: TextLineView, left: char, middle: char, right: char) -> bool {
    &&& line.spans.len() == 1
    &&& {
        let s = line.spans[0].content;
        &&& s.len() > 0
        &&& s[0] == left
        &&& s.last() == right
        &&& forall|i: int| 1 <= i < s.len() - 1 ==> #[trigger] s[i] == '─' || s[i] == middle
    }
}

fn border(line: &TextLine, left: char, middle: char, right: char) -> (r: bool)
    ensures
        r == is_border(line@, left, middle, right),
{
    if line.spans.len() != 1 {
        return false;
    }
    let s = chars_of(line.spans[0].content.as_str());
    assert(line@.spans[0].content == s@);
    if s.len() == 0 || s[0] != left || s[s.len() - 1] != right {
        return false;
    }
    let mut i: usize = 1;
    while i < s.len() - 1
        invariant
            1 <= i,
            s.len() > 0,
            i <= s.len(),
            s@ == line@.spans[0].content,
            line@.spans.len() == 1,
            forall|k: int| 1 <= k < i && k < s@.len() - 1 ==> #[trigger] s@[k] == '─' || s@[k]
                == middle,
        decreases s.len() - i,
    {
        if s[i] != '─' && s[i] != middle {
            assert(s@[i as int] != '─' && s@[i as int] != middle);
            return false;
        }
        i = i + 1;
    }
    true
}

/// Only blanks, or nothing.
pub open spec fn is_blank(s: Seq<char>) -> bool {
    forall|i: int| 0 <= i < s.len() ==> #[trigger] s[i] == ' '
}

fn blank(text: &str) -> (r: bool)
    ensures
        r == is_blank(text@),
{
    let s = chars_of(text);
    let mut i: usize = 0;
    while i < s.len()
        invariant
            i <= s.len(),
            s@ == text@,
            forall|k: int| 0 <= k < i ==> #[trigger] s@[k] == ' ',
        decreases s.len() - i,
    {
        if s[i] != ' ' {
            assert(text@[i as int] != ' ');
            return false;
        }
        i = i + 1;
    }
    true
}

/// A run that is a border between cells.
pub open spec fn is_bar(span: TextSpanView) -> bool {
    span.content == "│"@
}

/// Where the cell that starts at `begin` ends: at the first border behind it that follows
/// a blank run.
pub open spec fn cell_end(spans: Seq<TextSpanView>, begin: int, at: int) -> Option<int>
    decreases spans.len() - at,
{
    if at >= spans.len() {
        None
    } else if is_bar(spans[at]) && at > begin && is_blank(spans[at - 1].content) {
        Some(at)
    } else {
        cell_end(spans, begin, at + 1)
    }
}

/// The cells from `at` on: blank padding, runs, blank padding, a border, and so on.
pub open spec fn cells_from(spans: Seq<TextSpanView>, at: int) -> Option<Seq<Seq<TextSpanView>>>
    decreases spans.len() - at,
{
    if at >= spans.len() {
        Some(Seq::empty())
    } else if !is_blank(spans[at].content) {
        None
    } else {
        match cell_end(spans, at + 1, at + 1) {
            None => None,
            Some(end) => if !(at < end < spans.len()) {
                None
            } else {
                match cells_from(spans, end + 1) {
                    None => None,
                    Some(rest) => Some(seq![spans.subrange(at + 1, end - 1)] + rest),
                }
            },
        }
    }
}

/// The cells of a table row, if the line is one.
pub open spec fn row_cells(line: TextLineView) -> Option<Seq<Seq<TextSpanView>>> {
    let spans = line.spans;
    if spans.len() > 0 && is_bar(spans[0]) && is_bar(spans.last()) {
        cells_from(spans, 1)
    } else {
        None
    }
}

pub type Cell = Vec<TextSpan>;

pub open spec fn cell_views(row: Seq<Cell>) -> Seq<Seq<TextSpanView>> {
    row.map_values(|c: Cell| span_views(c@))
}

proof fn lemma_cell_end(spans: Seq<TextSpanView>, begin: int, at: int)
    requires
        begin <= at,
    ensures
        match cell_end(spans, begin, at) {
            Some(end) => at <= end < spans.len() && begin < end,
            None => true,
        },
    decreases spans.len() - at,
{
    if at < spans.len() && !(is_bar(spans[at]) && at > begin && is_blank(spans[at - 1].content)) {
        lemma_cell_end(spans, begin, at + 1);
    }
}

fn cells(line: &TextLine) -> (r: Option<Vec<Cell>>)
    ensures
        match r {
            Some(row) => row_cells(line@) == Some(cell_views(row@)),
            None => row_cells(line@) is None,
        },
{
    let spans = &line.spans;
    let ghost all = line@.spans;
    if spans.len() == 0 {
        return None;
    }
    assert(all[0] == spans@[0]@);
    assert(all.last() == spans@.last()@);
    if !same_text(spans[0].content.as_str(), "│") || !same_text(
        spans[spans.len() - 1].content.as_str(),
        "│",
    ) {
        return None;
    }
    let mut row: Vec<Cell> = Vec::new();
    let mut i: usize = 1;
    assert(row_cells(line@) == cells_from(all, 1));
    while i < spans.len()
        invariant
            1 <= i <= spans.len(),
            all == span_views(spans@),
            row_cells(line@) == match cells_from(all, i as int) {
                Some(rest) => Some(cell_views(row@) + rest),
                None => None,
            },
        decreases spans.len() - i,
    {
        assert(all[i as int] == spans@[i as int]@);
        if !blank(spans[i].content.as_str()) {
            return None;
        }
        let begin: usize = i + 1;
        let mut j: usize = begin;
        let mut found = false;
        while j < spans.len() && !found
            invariant
                begin <= j <= spans.len(),
                all == span_views(spans@),
                cell_end(all, begin as int, begin as int) == if found {
                    Some(j as int)
                } else {
                    cell_end(all, begin as int, j as int)
                },
                found ==> begin < j < spans.len(),
            decreases
                if found {
                    0
                } else {
                    spans.len() - j + 1
                },
        {
            assert(all[j as int] == spans@[j as int]@);
            if j > begin {
                assert(all[j - 1] == spans@[j - 1]@);
            }
            if same_text(spans[j].content.as_str(), "│") && j > begin && blank(
                spans[j - 1].content.as_str(),
            ) {
                found = true;
            } else {
                j = j + 1;
            }
        }
        if !found {
            return None;
        }
        let cell = clone_spans(spans, begin, j - 1);
        proof {
            let head = cell_views(row@);
            assert(cell_views(row@.push(cell)) =~= head.push(span_views(cell@)));
            if cells_from(all, j + 1) is Some {
                let rest = cells_from(all, j + 1)->0;
                assert(head + (seq![span_views(cell@)] + rest) =~= head.push(span_views(cell@))
                    + rest);
            }
        }
        row.push(cell);
        i = j + 1;
    }
    assert(cell_views(row@) + Seq::<Seq<TextSpanView>>::empty() =~= cell_views(row@));
    Some(row)
}

/// The rows of `count` cells from `at` on, up to the closing border.
pub open spec fn rows_from(lines: Seq<TextLineView>, at: int, count: int) -> Option<
    (int, Seq<Seq<Seq<TextSpanView>>>),
>
    decreases lines.len() - at,
{
    if at >= lines.len() {
        None
    } else if is_border(lines[at], '└', '┴', '┘') {
        Some((at, Seq::empty()))
    } else {
        match row_cells(lines[at]) {
            None => None,
            Some(row) => if row.len() != count {
                None
            } else {
                match rows_from(lines, at + 1, count) {
                    None => None,
                    Some((end, rest)) => Some((end, seq![row] + rest)),
                }
            },
        }
    }
}

/// The table that starts at `at`, if one does: where it ends, and its rows. The first row
/// is the header.
pub open spec fn table_from(lines: Seq<TextLineView>, at: int) -> Option<
    (int, Seq<Seq<Seq<TextSpanView>>>),
> {
    if at < 0 || at >= lines.len() || !is_border(lines[at], '┌', '┬', '┐') || at + 1 >= lines.len() {
        None
    } else {
        match row_cells(lines[at + 1]) {
            None => None,
            Some(header) => if at + 2 >= lines.len() || !is_border(lines[at + 2], '├', '┼', '┤') {
                None
            } else {
                match rows_from(lines, at + 3, header.len() as int) {
                    None => None,
                    Some((end, rest)) => Some((end, seq![header] + rest)),
                }
            },
        }
    }
}

pub type Row = Vec<Cell>;

pub open spec fn row_views(rows: Seq<Row>) -> Seq<Seq<Seq<TextSpanView>>> {
    rows.map_values(|r: Row| cell_views(r@))
}

/// All rows have as many cells as the first one.
pub open spec fn rectangular(rows: Seq<Seq<Seq<TextSpanView>>>) -> bool {
    rows.len() > 0 && forall|i: int| 0 <= i < rows.len() ==> (#[trigger] rows[i]).len() == rows[0].len()
}

/// tui-markdown emits the borders of a table as runs of their own. Checking the whole
/// structure keeps box drawing characters inside of code, or of a cell, from being taken
/// for a table.
fn table_at(lines: &Vec<TextLine>, start: usize) -> (r: Option<(usize, Vec<Row>)>)
    requires
        start < lines.len(),
    ensures
        match r {
            Some((end, rows)) => {
                &&& table_from(line_views(lines@), start as int) == Some(
                    (end as int, row_views(rows@)),
                )
                &&& start < end < lines@.len()
                &&& rectangular(row_views(rows@))
                &&& lines@[start as int].spans@.len() == 1
            },
            None => table_from(line_views(lines@), start as int) is None,
        },
{
    let ghost all = line_views(lines@);
    assert(all[start as int] == lines@[start as int]@);
    if !border(&lines[start], '┌', '┬', '┐') || lines.len() - start <= 1 {
        return None;
    }
    assert(all[start + 1] == lines@[start + 1]@);
    let header = match cells(&lines[start + 1]) {
        Some(header) => header,
        None => {
            return None;
        },
    };
    if lines.len() - start <= 2 {
        return None;
    }
    assert(all[start + 2] == lines@[start + 2]@);
    if !border(&lines[start + 2], '├', '┼', '┤') {
        return None;
    }
    let count = header.len();
    let ghost first = cell_views(header@);
    let mut rows: Vec<Row> = Vec::new();
    rows.push(header);
    assert(row_views(rows@) =~= seq![first]);
    let mut index: usize = start + 3;
    proof {
        if rows_from(all, start + 3, count as int) is Some {
            let rest = (rows_from(all, start + 3, count as int)->0).1;
            assert(seq![first] + rest =~= row_views(rows@) + rest);
        }
    }
    while index < lines.len()
        invariant
            start + 3 <= index <= lines.len(),
            all == line_views(lines@),
            count == first.len(),
            rows@.len() > 0,
            row_views(rows@)[0] == first,
            rectangular(row_views(rows@)),
            table_from(all, start as int) == match rows_from(all, index as int, count as int) {
                Some((end, rest)) => Some((end, row_views(rows@) + rest)),
                None => None,
            },
            lines@[start as int].spans@.len() == 1,
        decreases lines.len() - index,
    {
        assert(all[index as int] == lines@[index as int]@);
        if border(&lines[index], '└', '┴', '┘') {
            assert(row_views(rows@) + Seq::<Seq<Seq<TextSpanView>>>::empty() =~= row_views(rows@));
            return Some((index, rows));
        }
        let row = match cells(&lines[index]) {
            Some(row) => row,
            None => {
                return None;
            },
        };
        assert(cell_views(row@).len() == row@.len());
        if row.len() != count {
            return None;
        }
        proof {
            let head = row_views(rows@);
            assert(row_views(rows@.push(row)) =~= head.push(cell_views(row@)));
            if rows_from(all, index + 1, count as int) is Some {
                let rest = (rows_from(all, index + 1, count as int)->0).1;
                assert(head + (seq![cell_views(row@)] + rest) =~= head.push(cell_views(row@))
                    + rest);
            }
        }
        rows.push(row);
        index = index + 1;
    }
    None
}

// ---- wrapping ----------------------------------------------------------------

/// A control character.
pub open spec fn is_control(c: char) -> bool {
    c <= '\u{1f}' || '\u{7f}' <= c <= '\u{9f}'
}

pub open spec fn has_control(s: Seq<char>) -> bool {
    exists|i: int| 0 <= i < s.len() && is_control(#[trigger] s[i])
}

pub(crate) fn holds_control(text: &str) -> (r: bool)
    ensures
        r == has_control(text@),
{
    let s = chars_of(text);
    let mut i: usize = 0;
    while i < s.len()
        invariant
            i <= s.len(),
            s@ == text@,
            forall|k: int| 0 <= k < i ==> !is_control(#[trigger] s@[k]),
        decreases s.len() - i,
    {
        if s[i] <= '\u{1f}' || ('\u{7f}' <= s[i] && s[i] <= '\u{9f}') {
            assert(is_control(text@[i as int]));
            return true;
        }
        i = i + 1;
    }
    false
}

/// The clusters of a text that can be drawn, in this style, from the `at`th on.
pub open spec fn drawn(parts: Seq<Seq<char>>, style: TextStyleView) -> Seq<TextSpanView>
    decreases parts.len(),
{
    if parts.len() == 0 {
        Seq::empty()
    } else if has_control(parts.last()) {
        drawn(parts.drop_last(), style)
    } else {
        drawn(parts.drop_last(), style).push(TextSpanView { content: parts.last(), style })
    }
}

/// The glyphs of some runs, each with the style of its run.
pub open spec fn glyphs(spans: Seq<TextSpanView>) -> Seq<TextSpanView>
    decreases spans.len(),
{
    if spans.len() == 0 {
        Seq::empty()
    } else {
        glyphs(spans.drop_last()) + drawn(
            crate::measure::clusters(spans.last().content),
            spans.last().style,
        )
    }
}

/// The drawable clusters of a text, in order.
pub fn drawable(text: &str) -> (r: Vec<String>)
    ensures
        texts(r@) == drawable_clusters(crate::measure::clusters(text@)),
{
    let parts = graphemes(text);
    let ghost all = texts(parts@);
    let mut out: Vec<String> = Vec::new();
    let mut i: usize = 0;
    assert(all.take(0) =~= Seq::empty());
    assert(texts(out@) =~= Seq::empty());
    while i < parts.len()
        invariant
            i <= parts.len(),
            all == texts(parts@),
            texts(out@) == drawable_clusters(all.take(i as int)),
        decreases parts.len() - i,
    {
        assert(all.take(i + 1).drop_last() =~= all.take(i as int));
        assert(all.take(i + 1).last() == parts@[i as int]@);
        if !holds_control(parts[i].as_str()) {
            let part = parts[i].clone();
            assert(texts(out@.push(part)) =~= texts(out@).push(part@));
            out.push(part);
        }
        i = i + 1;
    }
    assert(all.take(all.len() as int) =~= all);
    out
}

/// The clusters that hold no control character.
pub open spec fn drawable_clusters(parts: Seq<Seq<char>>) -> Seq<Seq<char>>
    decreases parts.len(),
{
    if parts.len() == 0 {
        Seq::empty()
    } else if has_control(parts.last()) {
        drawable_clusters(parts.drop_last())
    } else {
        drawable_clusters(parts.drop_last()).push(parts.last())
    }
}

proof fn lemma_drawn(parts: Seq<Seq<char>>, style: TextStyleView)
    ensures
        drawn(parts, style) == drawable_clusters(parts).map_values(
            |c: Seq<char>| TextSpanView { content: c, style },
        ),
    decreases parts.len(),
{
    if parts.len() > 0 {
        lemma_drawn(parts.drop_last(), style);
    }
    assert(drawn(parts, style) =~= drawable_clusters(parts).map_values(
        |c: Seq<char>| TextSpanView { content: c, style },
    ));
}

fn glyphs_of(spans: &Vec<TextSpan>) -> (r: Vec<TextSpan>)
    ensures
        span_views(r@) == glyphs(span_views(spans@)),
{
    let ghost all = span_views(spans@);
    let mut out: Vec<TextSpan> = Vec::new();
    let mut i: usize = 0;
    assert(all.take(0) =~= Seq::empty());
    assert(span_views(out@) =~= Seq::empty());
    while i < spans.len()
        invariant
            i <= spans.len(),
            all == span_views(spans@),
            span_views(out@) == glyphs(all.take(i as int)),
        decreases spans.len() - i,
    {
        let span = &spans[i];
        let parts = drawable(span.content.as_str());
        let ghost before = span_views(out@);
        let ghost style = span.style@;
        let ghost added = texts(parts@).map_values(
            |c: Seq<char>| TextSpanView { content: c, style },
        );
        let mut k: usize = 0;
        assert(added.take(0) =~= Seq::empty());
        while k < parts.len()
            invariant
                k <= parts.len(),
                style == span.style@,
                added == texts(parts@).map_values(
                    |c: Seq<char>| TextSpanView { content: c, style },
                ),
                span_views(out@) == before + added.take(k as int),
            decreases parts.len() - k,
        {
            let glyph = TextSpan { content: parts[k].clone(), style: span.style.clone() };
            assert(glyph@ == added[k as int]);
            assert(span_views(out@.push(glyph)) =~= span_views(out@).push(glyph@));
            out.push(glyph);
            assert(span_views(out@) =~= before + added.take(k + 1));
            k = k + 1;
        }
        proof {
            assert(added.take(added.len() as int) =~= added);
            assert(all.take(i + 1).drop_last() =~= all.take(i as int));
            assert(all.take(i + 1).last() == spans@[i as int]@);
            lemma_drawn(crate::measure::clusters(span.content@), style);
        }
        i = i + 1;
    }
    assert(all.take(all.len() as int) =~= all);
    out
}

/// A glyph joins the run in front of it where that has the same style.
pub open spec fn joined_to(line: Seq<TextSpanView>, glyph: TextSpanView) -> Seq<TextSpanView> {
    if line.len() > 0 && line.last().style == glyph.style {
        line.update(
            line.len() - 1,
            TextSpanView { content: line.last().content + glyph.content, style: glyph.style },
        )
    } else {
        line.push(glyph)
    }
}

/// Glyphs as runs.
pub open spec fn as_runs(group: Seq<TextSpanView>) -> Seq<TextSpanView>
    decreases group.len(),
{
    if group.len() == 0 {
        Seq::empty()
    } else {
        joined_to(as_runs(group.drop_last()), group.last())
    }
}

/// The columns of glyphs, one by one.
pub open spec fn glyphs_width(group: Seq<TextSpanView>) -> int
    decreases group.len(),
{
    if group.len() == 0 {
        0
    } else {
        glyphs_width(group.drop_last()) + display_width(group.last().content)
    }
}

/// The glyphs line by line: those of `line`, which is being filled, and all of `rest`. A
/// glyph that does not fit behind others starts a line.
pub open spec fn in_lines(line: Seq<TextSpanView>, rest: Seq<TextSpanView>, width: int) -> Seq<
    Seq<TextSpanView>,
>
    decreases rest.len(),
{
    if rest.len() == 0 {
        seq![line]
    } else {
        let used = glyphs_width(line);
        if used > 0 && used + display_width(rest[0].content) > width {
            seq![line] + in_lines(seq![rest[0]], rest.skip(1), width)
        } else {
            in_lines(line.push(rest[0]), rest.skip(1), width)
        }
    }
}

/// A cell wrapped to `width` columns.
pub open spec fn wrapped(spans: Seq<TextSpanView>, width: int) -> Seq<Seq<TextSpanView>> {
    in_lines(Seq::empty(), glyphs(spans), width).map_values(|g: Seq<TextSpanView>| as_runs(g))
}

/// Appends a glyph to the line that is being filled.
fn put(line: &mut Vec<TextSpan>, glyph: &TextSpan)
    ensures
        span_views(final(line)@) == joined_to(span_views(old(line)@), glyph@),
{
    let n = line.len();
    if n > 0 && line[n - 1].style.same(&glyph.style) {
        let ghost before = span_views(line@);
        let last = line.pop();
        match last {
            Some(span) => {
                let mut grown = span;
                grown.content.append(glyph.content.as_str());
                line.push(grown);
            },
            None => {},
        }
        assert(span_views(line@) =~= joined_to(before, glyph@));
    } else {
        let ghost before = span_views(line@);
        line.push(glyph.clone());
        assert(span_views(line@) =~= before.push(glyph@));
    }
}

pub open spec fn line_list(lines: Seq<Vec<TextSpan>>) -> Seq<Seq<TextSpanView>> {
    lines.map_values(|l: Vec<TextSpan>| span_views(l@))
}

/// Wraps a cell at cluster boundaries.
fn wrap(spans: &Vec<TextSpan>, width_limit: usize) -> (r: Vec<Vec<TextSpan>>)
    ensures
        line_list(r@) == wrapped(span_views(spans@), width_limit as int),
        r@.len() > 0,
{
    let parts = glyphs_of(spans);
    let ghost all = span_views(parts@);
    let ghost to_runs = |g: Seq<TextSpanView>| as_runs(g);
    let ghost goal = wrapped(span_views(spans@), width_limit as int);
    let mut out: Vec<Vec<TextSpan>> = Vec::new();
    let mut line: Vec<TextSpan> = Vec::new();
    let ghost mut group: Seq<TextSpanView> = Seq::empty();
    let mut used: usize = 0;
    let mut i: usize = 0;
    proof {
        assert(all.skip(0) =~= all);
        assert(line_list(out@) =~= Seq::empty());
        assert(span_views(line@) =~= as_runs(group));
        assert(Seq::<Seq<TextSpanView>>::empty() + goal =~= goal);
    }
    while i < parts.len()
        invariant
            i <= parts.len(),
            all == span_views(parts@),
            to_runs == (|g: Seq<TextSpanView>| as_runs(g)),
            span_views(line@) == as_runs(group),
            used == glyphs_width(group),
            line_list(out@) + in_lines(group, all.skip(i as int), width_limit as int).map_values(
                to_runs,
            ) == goal,
        decreases parts.len() - i,
    {
        let glyph = &parts[i];
        let w = width(glyph.content.as_str());
        let ghost rest = all.skip(i as int);
        assert(rest[0] == glyph@);
        assert(rest.skip(1) =~= all.skip(i + 1));
        if used > 0 && (used > width_limit || w > width_limit - used) {
            proof {
                let more = in_lines(seq![glyph@], rest.skip(1), width_limit as int);
                assert((seq![group] + more).map_values(to_runs) =~= seq![as_runs(group)]
                    + more.map_values(to_runs));
                assert(line_list(out@.push(line)) =~= line_list(out@).push(as_runs(group)));
                assert(line_list(out@) + (seq![as_runs(group)] + more.map_values(to_runs))
                    =~= line_list(out@).push(as_runs(group)) + more.map_values(to_runs));
            }
            out.push(line);
            line = Vec::new();
            used = 0;
            proof {
                group = Seq::empty();
                assert(span_views(line@) =~= as_runs(group));
            }
        }
        put(&mut line, glyph);
        used = used + w;
        proof {
            assert(group.push(glyph@).drop_last() =~= group);
            assert(group.push(glyph@).last() == glyph@);
            assert(glyphs_width(group.push(glyph@)) == glyphs_width(group) + w);
            assert(as_runs(group.push(glyph@)) == joined_to(as_runs(group), glyph@));
            if group.len() == 0 {
                assert(group.push(glyph@) =~= seq![glyph@]);
            }
            group = group.push(glyph@);
        }
        i = i + 1;
    }
    proof {
        assert(all.skip(all.len() as int) =~= Seq::empty());
        assert(in_lines(group, Seq::empty(), width_limit as int) =~= seq![group]);
        assert(seq![group].map_values(to_runs) =~= seq![as_runs(group)]);
        assert(line_list(out@.push(line)) =~= line_list(out@) + seq![as_runs(group)]);
    }
    out.push(line);
    out
}

// ---- laying out a table ------------------------------------------------------

pub open spec fn sum_of(widths: Seq<usize>) -> int
    decreases widths.len(),
{
    if widths.len() == 0 {
        0
    } else {
        sum_of(widths.drop_last()) + widths.last()
    }
}

/// The last of the widest columns among the first `n`.
pub open spec fn widest(widths: Seq<usize>, n: int) -> int
    decreases n,
{
    if n <= 1 {
        0
    } else if widths[n - 1] >= widths[widest(widths, n - 1)] {
        n - 1
    } else {
        widest(widths, n - 1)
    }
}

/// The widths after the widest column gave one up, again and again until the sum fits.
pub open spec fn shrunk(widths: Seq<usize>, budget: int) -> Seq<usize>
    decreases sum_of(widths) - budget,
{
    let at = widest(widths, widths.len() as int);
    let next = widths.update(at, (widths[at] - 1) as usize);
    if sum_of(widths) <= budget || widths.len() == 0 || sum_of(next) != sum_of(widths) - 1 {
        widths
    } else {
        shrunk(next, budget)
    }
}

/// What a column needs: its widest cell, and two columns at least.
pub open spec fn column_need(rows: Seq<Seq<Seq<TextSpanView>>>, column: int) -> usize
    decreases rows.len(),
{
    if rows.len() == 0 {
        2
    } else {
        spec_max(
            column_need(rows.drop_last(), column) as int,
            runs_width(rows.last()[column]),
        ) as usize
    }
}

pub open spec fn needs(rows: Seq<Seq<Seq<TextSpanView>>>) -> Seq<usize> {
    Seq::new(rows[0].len(), |column: int| column_need(rows, column))
}

/// What is between the corners of a horizontal border.
pub open spec fn rule_body(widths: Seq<usize>, middle: char) -> Seq<char>
    decreases widths.len(),
{
    if widths.len() == 0 {
        Seq::empty()
    } else if widths.len() == 1 {
        repeated('─', widths[0] + 2)
    } else {
        rule_body(widths.drop_last(), middle).push(middle) + repeated('─', widths.last() + 2)
    }
}

pub open spec fn rule_text(widths: Seq<usize>, left: char, middle: char, right: char) -> Seq<char> {
    (seq![left] + rule_body(widths, middle)).push(right)
}

pub open spec fn rule_line(
    widths: Seq<usize>,
    left: char,
    middle: char,
    right: char,
    style: TextStyleView,
) -> TextLineView {
    line_of(seq![TextSpanView { content: rule_text(widths, left, middle, right), style }])
}

fn rule(widths: &Vec<usize>, left: char, middle: char, right: char, style: &TextStyle) -> (r:
    TextLine)
    requires
        forall|i: int| 0 <= i < widths@.len() ==> #[trigger] widths@[i] + 2 <= usize::MAX,
    ensures
        r@ == rule_line(widths@, left, middle, right, style@),
{
    let mut text = String::new();
    text.push(left);
    assert(text@ =~= seq![left]);
    let mut i: usize = 0;
    assert(widths@.take(0) =~= Seq::empty());
    assert(text@ =~= seq![left] + rule_body(widths@.take(0), middle));
    while i < widths.len()
        invariant
            i <= widths.len(),
            forall|k: int| 0 <= k < widths@.len() ==> #[trigger] widths@[k] + 2 <= usize::MAX,
            text@ == seq![left] + rule_body(widths@.take(i as int), middle),
        decreases widths.len() - i,
    {
        let ghost before = rule_body(widths@.take(i as int), middle);
        assert(widths@.take(i + 1).drop_last() =~= widths@.take(i as int));
        assert(widths@.take(i + 1).last() == widths@[i as int]);
        if i > 0 {
            text.push(middle);
        }
        let dashes = repeat('─', widths[i] + 2);
        text.append(dashes.as_str());
        if i > 0 {
            assert(text@ =~= seq![left] + (before.push(middle) + dashes@));
        } else {
            assert(widths@.take(1)[0] == widths@[0]);
            assert(text@ =~= seq![left] + dashes@);
        }
        i = i + 1;
    }
    assert(widths@.take(widths@.len() as int) =~= widths@);
    text.push(right);
    let mut spans: Vec<TextSpan> = Vec::new();
    spans.push(TextSpan { content: text, style: style.clone() });
    let r = TextLine { spans, style: TextStyle::plain(), alignment: None };
    assert(r@.spans =~= rule_line(widths@, left, middle, right, style@).spans);
    r
}

pub open spec fn bar_run(style: TextStyleView) -> TextSpanView {
    TextSpanView { content: "│"@, style }
}

pub open spec fn blanks(n: int) -> TextSpanView {
    TextSpanView { content: repeated(' ', n), style: no_style() }
}

/// The `y`th line of a wrapped cell, or nothing below its last one.
pub open spec fn cell_line(cell: Seq<Seq<TextSpanView>>, y: int) -> Seq<TextSpanView> {
    if y < cell.len() {
        cell[y]
    } else {
        Seq::empty()
    }
}

/// One cell of a line of a row, from the blank in front of it to the border behind it.
pub open spec fn cell_runs(
    cell: Seq<Seq<TextSpanView>>,
    w: int,
    y: int,
    style: TextStyleView,
) -> Seq<TextSpanView> {
    (seq![blanks(1)] + cell_line(cell, y)).push(
        blanks(monus(w, runs_width(cell_line(cell, y))) + 1),
    ).push(bar_run(style))
}

/// The first `n` cells of a line of a row.
pub open spec fn row_runs(
    cells: Seq<Seq<Seq<TextSpanView>>>,
    widths: Seq<usize>,
    n: int,
    y: int,
    style: TextStyleView,
) -> Seq<TextSpanView>
    decreases n,
{
    if n <= 0 {
        seq![bar_run(style)]
    } else {
        row_runs(cells, widths, n - 1, y, style) + cell_runs(
            cells[n - 1],
            widths[n - 1] as int,
            y,
            style,
        )
    }
}

/// The cells of a row, each wrapped to its column.
pub open spec fn wrapped_row(row: Seq<Seq<TextSpanView>>, widths: Seq<usize>) -> Seq<
    Seq<Seq<TextSpanView>>,
> {
    Seq::new(row.len(), |i: int| wrapped(row[i], widths[i] as int))
}

/// How many lines the tallest of the first `n` cells has.
pub open spec fn tallest(cells: Seq<Seq<Seq<TextSpanView>>>, n: int) -> int
    decreases n,
{
    if n <= 0 {
        0
    } else {
        spec_max(tallest(cells, n - 1), cells[n - 1].len() as int)
    }
}

/// A row of the table, line by line.
pub open spec fn row_lines(
    row: Seq<Seq<TextSpanView>>,
    widths: Seq<usize>,
    style: TextStyleView,
) -> Seq<TextLineView> {
    let cells = wrapped_row(row, widths);
    Seq::new(
        tallest(cells, cells.len() as int) as nat,
        |y: int| line_of(row_runs(cells, widths, cells.len() as int, y, style)),
    )
}

/// The first `n` rows of the table and the border below the header.
pub open spec fn body_lines(
    rows: Seq<Seq<Seq<TextSpanView>>>,
    widths: Seq<usize>,
    n: int,
    style: TextStyleView,
) -> Seq<TextLineView>
    decreases n,
{
    if n <= 0 {
        Seq::empty()
    } else {
        body_lines(rows, widths, n - 1, style) + row_lines(rows[n - 1], widths, style) + if n == 1 {
            seq![rule_line(widths, '├', '┼', '┤', style)]
        } else {
            Seq::empty()
        }
    }
}

/// The cells of the first `n` of them, one below the other.
pub open spec fn stacked_cells(row: Seq<Seq<TextSpanView>>, n: int, width: int) -> Seq<TextLineView>
    decreases n,
{
    if n <= 0 {
        Seq::empty()
    } else {
        stacked_cells(row, n - 1, width) + wrapped(row[n - 1], width).map_values(
            |l: Seq<TextSpanView>| line_of(l),
        )
    }
}

/// The first `n` rows, cell by cell, with an empty line below each.
pub open spec fn stacked(rows: Seq<Seq<Seq<TextSpanView>>>, n: int, width: int) -> Seq<TextLineView>
    decreases n,
{
    if n <= 0 {
        Seq::empty()
    } else {
        (stacked(rows, n - 1, width) + stacked_cells(rows[n - 1], rows[n - 1].len() as int, width)).push(
            line_of(Seq::empty()),
        )
    }
}

/// The widths that the columns of the table get.
pub open spec fn column_widths(rows: Seq<Seq<Seq<TextSpanView>>>, width: int) -> Seq<usize> {
    shrunk(needs(rows), width - (rows[0].len() * 3 + 1))
}

/// A table for `width` columns. Where not even two columns are left to each cell, the
/// cells stand one below the other.
pub open spec fn laid_out(
    rows: Seq<Seq<Seq<TextSpanView>>>,
    width: int,
    style: TextStyleView,
) -> Seq<TextLineView> {
    let n = rows[0].len();
    if width == 0 || n == 0 {
        Seq::empty()
    } else if width < n * 5 + 1 {
        stacked(rows, rows.len() as int, width)
    } else {
        let widths = column_widths(rows, width);
        (seq![rule_line(widths, '┌', '┬', '┐', style)] + body_lines(
            rows,
            widths,
            rows.len() as int,
            style,
        )).push(rule_line(widths, '└', '┴', '┘', style))
    }
}

proof fn lemma_sum_update(widths: Seq<usize>, at: int, w: usize)
    requires
        0 <= at < widths.len(),
    ensures
        sum_of(widths.update(at, w)) == sum_of(widths) - widths[at] + w,
    decreases widths.len(),
{
    let next = widths.update(at, w);
    if at == widths.len() - 1 {
        assert(next.drop_last() =~= widths.drop_last());
    } else {
        assert(next.drop_last() =~= widths.drop_last().update(at, w));
        lemma_sum_update(widths.drop_last(), at, w);
    }
}

proof fn lemma_sum_bounds(widths: Seq<usize>, i: int)
    requires
        0 <= i < widths.len(),
    ensures
        widths[i] <= sum_of(widths),
        0 <= sum_of(widths),
    decreases widths.len(),
{
    lemma_sum_nonneg(widths.drop_last());
    if i < widths.len() - 1 {
        lemma_sum_bounds(widths.drop_last(), i);
    }
}

proof fn lemma_sum_nonneg(widths: Seq<usize>)
    ensures
        0 <= sum_of(widths) <= widths.len() * usize::MAX,
    decreases widths.len(),
{
    if widths.len() > 0 {
        lemma_sum_nonneg(widths.drop_last());
        assert((widths.len() - 1) * usize::MAX + usize::MAX == widths.len() * usize::MAX)
            by (nonlinear_arith);
    }
}

proof fn lemma_widest(widths: Seq<usize>, n: int)
    requires
        1 <= n <= widths.len(),
    ensures
        0 <= widest(widths, n) < n,
        forall|i: int| 0 <= i < n ==> #[trigger] widths[i] <= widths[widest(widths, n)],
    decreases n,
{
    if n > 1 {
        lemma_widest(widths, n - 1);
    }
}

proof fn lemma_sum_at_most(widths: Seq<usize>, most: int)
    requires
        forall|i: int| 0 <= i < widths.len() ==> #[trigger] widths[i] <= most,
        0 <= most,
    ensures
        sum_of(widths) <= widths.len() * most,
    decreases widths.len(),
{
    if widths.len() > 0 {
        assert forall|i: int| 0 <= i < widths.drop_last().len() implies #[trigger] widths.drop_last()[i]
            <= most by {
            assert(widths.drop_last()[i] == widths[i]);
        }
        lemma_sum_at_most(widths.drop_last(), most);
        assert((widths.len() - 1) * most + most == widths.len() * most) by (nonlinear_arith);
    }
}

/// The columns of a table share the room that the borders leave, and none gets less than
/// two columns.
pub proof fn lemma_shrunk_fits(widths: Seq<usize>, budget: int)
    requires
        budget >= 2 * widths.len(),
        forall|i: int| 0 <= i < widths.len() ==> #[trigger] widths[i] >= 2,
    ensures
        shrunk(widths, budget).len() == widths.len(),
        sum_of(shrunk(widths, budget)) <= budget,
        sum_of(widths) >= budget ==> sum_of(shrunk(widths, budget)) == budget,
        forall|i: int|
            0 <= i < widths.len() ==> #[trigger] shrunk(widths, budget)[i] >= 2 && shrunk(
                widths,
                budget,
            )[i] <= widths[i],
    decreases sum_of(widths) - budget,
{
    if sum_of(widths) > budget {
        let n = widths.len() as int;
        if n == 0 {
            assert(sum_of(widths) == 0);
        } else {
            lemma_widest(widths, n);
            let at = widest(widths, n);
            if widths[at] <= 2 {
                lemma_sum_at_most(widths, 2);
                assert(false);
            }
            let next = widths.update(at, (widths[at] - 1) as usize);
            lemma_sum_update(widths, at, (widths[at] - 1) as usize);
            lemma_shrunk_fits(next, budget);
            assert forall|i: int| 0 <= i < widths.len() implies #[trigger] shrunk(widths, budget)[i]
                >= 2 && shrunk(widths, budget)[i] <= widths[i] by {
                assert(shrunk(widths, budget)[i] == shrunk(next, budget)[i]);
                assert(shrunk(next, budget)[i] <= next[i]);
            }
        }
    }
}

/// What a column needs.
fn need_of(rows: &Vec<Row>, column: usize) -> (r: usize)
    requires
        rectangular(row_views(rows@)),
        column < row_views(rows@)[0].len(),
    ensures
        r == column_need(row_views(rows@), column as int),
        r >= 2,
{
    let ghost all = row_views(rows@);
    let mut need: usize = 2;
    let mut i: usize = 0;
    assert(all.take(0) =~= Seq::empty());
    while i < rows.len()
        invariant
            i <= rows.len(),
            all == row_views(rows@),
            rectangular(all),
            column < all[0].len(),
            need >= 2,
            need == column_need(all.take(i as int), column as int),
        decreases rows.len() - i,
    {
        assert(all[i as int] == cell_views(rows@[i as int]@));
        let w = measure_runs(&rows[i][column]);
        assert(all[i as int][column as int] == span_views(rows@[i as int]@[column as int]@));
        assert(all.take(i + 1).drop_last() =~= all.take(i as int));
        assert(all.take(i + 1).last() == all[i as int]);
        if w > need {
            need = w;
        }
        i = i + 1;
    }
    assert(all.take(all.len() as int) =~= all);
    need
}

fn sum_widths(widths: &Vec<usize>) -> (r: u128)
    ensures
        r == sum_of(widths@),
{
    let mut sum: u128 = 0;
    let mut i: usize = 0;
    assert(widths@.take(0) =~= Seq::empty());
    while i < widths.len()
        invariant
            i <= widths.len(),
            sum == sum_of(widths@.take(i as int)),
        decreases widths.len() - i,
    {
        proof {
            assert(widths@.take(i + 1).drop_last() =~= widths@.take(i as int));
            lemma_sum_nonneg(widths@.take(i as int));
            assert(i * usize::MAX + usize::MAX <= u128::MAX) by (nonlinear_arith)
                requires
                    0 <= i < usize::MAX,
                    usize::MAX <= 0xffff_ffff_ffff_ffff,
            ;
        }
        sum = sum + widths[i] as u128;
        i = i + 1;
    }
    assert(widths@.take(widths@.len() as int) =~= widths@);
    sum
}

fn widest_column(widths: &Vec<usize>) -> (r: usize)
    requires
        widths.len() > 0,
    ensures
        r == widest(widths@, widths@.len() as int),
        r < widths.len(),
{
    let mut at: usize = 0;
    let mut i: usize = 1;
    while i < widths.len()
        invariant
            1 <= i <= widths.len(),
            at < i,
            at == widest(widths@, i as int),
        decreases widths.len() - i,
    {
        if widths[i] >= widths[at] {
            at = i;
        }
        i = i + 1;
    }
    at
}

/// The widths of the columns for `width` columns in all.
fn share(rows: &Vec<Row>, width: usize) -> (r: Vec<usize>)
    requires
        rectangular(row_views(rows@)),
        row_views(rows@)[0].len() > 0,
        width >= row_views(rows@)[0].len() * 5 + 1,
    ensures
        r@ == column_widths(row_views(rows@), width as int),
        r@.len() == row_views(rows@)[0].len(),
        sum_of(r@) <= width - (row_views(rows@)[0].len() * 3 + 1),
{
    let ghost all = row_views(rows@);
    assert(all[0] == cell_views(rows@[0]@));
    let n = rows[0].len();
    let mut widths: Vec<usize> = Vec::new();
    let mut i: usize = 0;
    while i < n
        invariant
            i <= n,
            all == row_views(rows@),
            rectangular(all),
            n == all[0].len(),
            widths@ == needs(all).take(i as int),
            forall|k: int| 0 <= k < i ==> #[trigger] widths@[k] >= 2,
        decreases n - i,
    {
        widths.push(need_of(rows, i));
        i = i + 1;
        assert(widths@ =~= needs(all).take(i as int));
    }
    assert(widths@ =~= needs(all));
    let budget: usize = width - (n * 3 + 1);
    proof {
        lemma_shrunk_fits(widths@, budget as int);
    }
    let ghost start = widths@;
    let mut sum = sum_widths(&widths);
    while sum > budget as u128
        invariant
            n > 0,
            budget >= 2 * n,
            widths@.len() == n,
            sum == sum_of(widths@),
            forall|k: int| 0 <= k < n ==> #[trigger] widths@[k] >= 2,
            shrunk(widths@, budget as int) == shrunk(start, budget as int),
        decreases sum,
    {
        let at = widest_column(&widths);
        proof {
            lemma_widest(widths@, n as int);
            if widths@[at as int] <= 2 {
                lemma_sum_at_most(widths@, 2);
            }
            lemma_sum_update(widths@, at as int, (widths@[at as int] - 1) as usize);
        }
        let less: usize = widths[at] - 1;
        widths.set(at, less);
        sum = sum - 1;
    }
    widths
}

/// A table laid out for `width` columns.
fn layout(rows: &Vec<Row>, width: usize, style: &TextStyle) -> (r: Vec<TextLine>)
    requires
        rectangular(row_views(rows@)),
    ensures
        line_views(r@) == laid_out(row_views(rows@), width as int, style@),
{
    let ghost all = row_views(rows@);
    assert(all[0] == cell_views(rows@[0]@));
    let n = rows[0].len();
    let mut out: Vec<TextLine> = Vec::new();
    assert(line_views(out@) =~= Seq::empty());
    if width == 0 || n == 0 {
        return out;
    }
    if n > (width - 1) / 5 {
        return stack(rows, width);
    }
    let widths = share(rows, width);
    let ghost columns = widths@;
    proof {
        assert forall|i: int| 0 <= i < columns.len() implies #[trigger] columns[i] + 2 <= usize::MAX by {
            lemma_sum_bounds(columns, i);
        }
    }
    let top = rule(&widths, '┌', '┬', '┐', style);
    out.push(top);
    assert(line_views(out@) =~= seq![top@] + body_lines(all, columns, 0, style@));
    let mut i: usize = 0;
    while i < rows.len()
        invariant
            i <= rows.len(),
            all == row_views(rows@),
            rectangular(all),
            columns == widths@,
            columns.len() == all[0].len(),
            forall|k: int| 0 <= k < columns.len() ==> #[trigger] columns[k] + 2 <= usize::MAX,
            top@ == rule_line(columns, '┌', '┬', '┐', style@),
            line_views(out@) == seq![top@] + body_lines(all, columns, i as int, style@),
        decreases rows.len() - i,
    {
        let ghost before = body_lines(all, columns, i as int, style@);
        assert(all[i as int] == cell_views(rows@[i as int]@));
        let mut lines = lay_row(&rows[i], &widths, style);
        let ghost added = line_views(lines@);
        assert(line_views(out@ + lines@) =~= line_views(out@) + added);
        out.append(&mut lines);
        if i == 0 {
            let middle = rule(&widths, '├', '┼', '┤', style);
            assert(line_views(out@.push(middle)) =~= line_views(out@).push(middle@));
            out.push(middle);
            assert(line_views(out@) =~= seq![top@] + (before + added + seq![middle@]));
        } else {
            assert(line_views(out@) =~= seq![top@] + (before + added + Seq::<TextLineView>::empty()));
        }
        i = i + 1;
    }
    let bottom = rule(&widths, '└', '┴', '┘', style);
    assert(line_views(out@.push(bottom)) =~= line_views(out@).push(bottom@));
    out.push(bottom);
    out
}

/// The cells of a table one below the other.
fn stack(rows: &Vec<Row>, width: usize) -> (r: Vec<TextLine>)
    ensures
        line_views(r@) == stacked(row_views(rows@), rows@.len() as int, width as int),
{
    let ghost all = row_views(rows@);
    let mut out: Vec<TextLine> = Vec::new();
    let mut i: usize = 0;
    assert(line_views(out@) =~= Seq::empty());
    while i < rows.len()
        invariant
            i <= rows.len(),
            all == row_views(rows@),
            line_views(out@) == stacked(all, i as int, width as int),
        decreases rows.len() - i,
    {
        let row = &rows[i];
        let ghost cells = all[i as int];
        assert(cells == cell_views(row@));
        let ghost before = line_views(out@);
        let mut k: usize = 0;
        assert(before + stacked_cells(cells, 0, width as int) =~= before);
        while k < row.len()
            invariant
                k <= row.len(),
                cells == cell_views(row@),
                line_views(out@) == before + stacked_cells(cells, k as int, width as int),
            decreases row.len() - k,
        {
            assert(cells[k as int] == span_views(row@[k as int]@));
            let wrapped_cell = wrap(&row[k], width);
            let mut lines = as_lines(wrapped_cell);
            let ghost added = line_views(lines@);
            assert(line_views(out@ + lines@) =~= line_views(out@) + added);
            out.append(&mut lines);
            k = k + 1;
            assert(before + (stacked_cells(cells, k - 1, width as int) + added) =~= before
                + stacked_cells(cells, k - 1, width as int) + added);
        }
        let empty = TextLine { spans: Vec::new(), style: TextStyle::plain(), alignment: None };
        assert(empty@.spans =~= Seq::empty());
        assert(line_views(out@.push(empty)) =~= line_views(out@).push(line_of(Seq::empty())));
        out.push(empty);
        i = i + 1;
    }
    out
}

/// Wrapped lines as lines of their own.
fn as_lines(lines: Vec<Vec<TextSpan>>) -> (r: Vec<TextLine>)
    ensures
        line_views(r@) == line_list(lines@).map_values(|l: Seq<TextSpanView>| line_of(l)),
{
    let ghost goal = line_list(lines@).map_values(|l: Seq<TextSpanView>| line_of(l));
    let mut out: Vec<TextLine> = Vec::new();
    let mut i: usize = 0;
    while i < lines.len()
        invariant
            i <= lines.len(),
            goal == line_list(lines@).map_values(|l: Seq<TextSpanView>| line_of(l)),
            line_views(out@) == goal.take(i as int),
        decreases lines.len() - i,
    {
        let spans = clone_spans(&lines[i], 0, lines[i].len());
        assert(span_views(spans@) =~= span_views(lines@[i as int]@));
        let line = TextLine { spans, style: TextStyle::plain(), alignment: None };
        assert(line@ == goal[i as int]);
        assert(line_views(out@.push(line)) =~= line_views(out@).push(line@));
        out.push(line);
        i = i + 1;
        assert(line_views(out@) =~= goal.take(i as int));
    }
    assert(goal.take(goal.len() as int) =~= goal);
    out
}

pub open spec fn block_list(cells: Seq<Vec<Vec<TextSpan>>>) -> Seq<Seq<Seq<TextSpanView>>> {
    cells.map_values(|c: Vec<Vec<TextSpan>>| line_list(c@))
}

/// The lines of one row of a table.
fn lay_row(row: &Row, widths: &Vec<usize>, style: &TextStyle) -> (r: Vec<TextLine>)
    requires
        row.len() == widths.len(),
        forall|i: int| 0 <= i < widths@.len() ==> #[trigger] widths@[i] + 2 <= usize::MAX,
    ensures
        line_views(r@) == row_lines(cell_views(row@), widths@, style@),
{
    let ghost views = cell_views(row@);
    let ghost goal = wrapped_row(views, widths@);
    let mut cells: Vec<Vec<Vec<TextSpan>>> = Vec::new();
    let mut height: usize = 0;
    let mut i: usize = 0;
    assert(block_list(cells@) =~= goal.take(0));
    while i < row.len()
        invariant
            i <= row.len(),
            row.len() == widths.len(),
            views == cell_views(row@),
            goal == wrapped_row(views, widths@),
            cells@.len() == i,
            block_list(cells@) == goal.take(i as int),
            height == tallest(goal, i as int),
        decreases row.len() - i,
    {
        assert(views[i as int] == span_views(row@[i as int]@));
        let cell = wrap(&row[i], widths[i]);
        assert(line_list(cell@) == goal[i as int]);
        if cell.len() > height {
            height = cell.len();
        }
        assert(block_list(cells@.push(cell)) =~= block_list(cells@).push(line_list(cell@)));
        cells.push(cell);
        i = i + 1;
        assert(block_list(cells@) =~= goal.take(i as int));
    }
    assert(goal.take(goal.len() as int) =~= goal);
    let mut out: Vec<TextLine> = Vec::new();
    let ghost lines = row_lines(views, widths@, style@);
    let mut y: usize = 0;
    assert(line_views(out@) =~= lines.take(0));
    while y < height
        invariant
            y <= height,
            row.len() == widths.len(),
            cells.len() == row.len(),
            views == cell_views(row@),
            goal == wrapped_row(views, widths@),
            block_list(cells@) == goal,
            height == tallest(goal, goal.len() as int),
            goal.len() == row@.len(),
            lines == row_lines(views, widths@, style@),
            line_views(out@) == lines.take(y as int),
            forall|i: int| 0 <= i < widths@.len() ==> #[trigger] widths@[i] + 2 <= usize::MAX,
        decreases height - y,
    {
        let line = lay_line(&cells, widths, y, style);
        assert(line@ == lines[y as int]);
        assert(line_views(out@.push(line)) =~= line_views(out@).push(line@));
        out.push(line);
        y = y + 1;
        assert(line_views(out@) =~= lines.take(y as int));
    }
    assert(lines.take(lines.len() as int) =~= lines);
    out
}

fn put_span(spans: &mut Vec<TextSpan>, span: TextSpan)
    ensures
        span_views(final(spans)@) == span_views(old(spans)@).push(span@),
{
    spans.push(span);
    assert(span_views(spans@) =~= span_views(old(spans)@).push(span@));
}

fn bar(style: &TextStyle) -> (r: TextSpan)
    ensures
        r@ == bar_run(style@),
{
    TextSpan { content: "│".to_owned(), style: style.clone() }
}

fn blank_run(n: usize) -> (r: TextSpan)
    ensures
        r@ == blanks(n as int),
{
    TextSpan { content: repeat(' ', n), style: TextStyle::plain() }
}

/// The `y`th line of a row.
fn lay_line(cells: &Vec<Vec<Vec<TextSpan>>>, widths: &Vec<usize>, y: usize, style: &TextStyle) -> (r:
    TextLine)
    requires
        cells.len() == widths.len(),
        forall|i: int| 0 <= i < widths@.len() ==> #[trigger] widths@[i] + 2 <= usize::MAX,
    ensures
        r@ == line_of(
            row_runs(block_list(cells@), widths@, cells@.len() as int, y as int, style@),
        ),
{
    let ghost blocks = block_list(cells@);
    let mut spans: Vec<TextSpan> = Vec::new();
    assert(span_views(spans@) =~= Seq::empty());
    put_span(&mut spans, bar(style));
    assert(span_views(spans@) =~= row_runs(blocks, widths@, 0, y as int, style@));
    let mut k: usize = 0;
    while k < cells.len()
        invariant
            k <= cells.len(),
            cells.len() == widths.len(),
            blocks == block_list(cells@),
            forall|i: int| 0 <= i < widths@.len() ==> #[trigger] widths@[i] + 2 <= usize::MAX,
            span_views(spans@) == row_runs(blocks, widths@, k as int, y as int, style@),
        decreases cells.len() - k,
    {
        let ghost before = span_views(spans@);
        let cell = &cells[k];
        assert(blocks[k as int] == line_list(cell@));
        put_span(&mut spans, blank_run(1));
        let mut used: usize = 0;
        let ghost shown = cell_line(blocks[k as int], y as int);
        if y < cell.len() {
            assert(shown == span_views(cell@[y as int]@));
            used = measure_runs(&cell[y]);
            let mut copy = clone_spans(&cell[y], 0, cell[y].len());
            assert(span_views(copy@) =~= shown);
            assert(span_views(spans@ + copy@) =~= span_views(spans@) + shown);
            spans.append(&mut copy);
        }
        assert(used == runs_width(shown));
        assert(span_views(spans@) =~= before + (seq![blanks(1)] + shown));
        assert(widths@[k as int] + 2 <= usize::MAX);
        let room: usize = if widths[k] >= used {
            widths[k] - used + 1
        } else {
            1
        };
        put_span(&mut spans, blank_run(room));
        put_span(&mut spans, bar(style));
        assert(span_views(spans@) =~= before + cell_runs(
            blocks[k as int],
            widths@[k as int] as int,
            y as int,
            style@,
        ));
        k = k + 1;
    }
    TextLine { spans, style: TextStyle::plain(), alignment: None }
}

// ---- what holds of every rendering --------------------------------------------

/// The texts of some runs, one after the other.
pub open spec fn runs_text(spans: Seq<TextSpanView>) -> Seq<char>
    decreases spans.len(),
{
    if spans.len() == 0 {
        Seq::empty()
    } else {
        runs_text(spans.drop_last()) + spans.last().content
    }
}

/// Groups of glyphs, one after the other.
pub open spec fn all_of(groups: Seq<Seq<TextSpanView>>) -> Seq<TextSpanView>
    decreases groups.len(),
{
    if groups.len() == 0 {
        Seq::empty()
    } else {
        groups[0] + all_of(groups.skip(1))
    }
}

/// Text without a table that is too wide stays as it is.
pub proof fn lemma_fitting_text_is_unchanged(lines: Seq<TextLineView>, at: int, width: int)
    requires
        0 <= at <= lines.len(),
        forall|i: int|
            0 <= i < lines.len() && #[trigger] table_from(lines, i) is Some ==> runs_width(
                lines[i].spans,
            ) <= width,
    ensures
        with_tables_laid_out(lines, at, width) == lines.skip(at),
    decreases lines.len() - at,
{
    if at < lines.len() {
        match table_from(lines, at) {
            Some((end, rows)) => {
                lemma_table_ends_behind(lines, at);
                lemma_fitting_text_is_unchanged(lines, end + 1, width);
                assert(lines.subrange(at, end + 1) + lines.skip(end + 1) =~= lines.skip(at));
            },
            None => {
                lemma_fitting_text_is_unchanged(lines, at + 1, width);
                assert(seq![lines[at]] + lines.skip(at + 1) =~= lines.skip(at));
            },
        }
    } else {
        assert(lines.skip(at) =~= Seq::empty());
    }
}

proof fn lemma_rows_end_behind(lines: Seq<TextLineView>, at: int, count: int)
    ensures
        match rows_from(lines, at, count) {
            Some((end, rows)) => at <= end < lines.len() && forall|i: int|
                0 <= i < rows.len() ==> (#[trigger] rows[i]).len() == count,
            None => true,
        },
    decreases lines.len() - at,
{
    if at < lines.len() && !is_border(lines[at], '└', '┴', '┘') && row_cells(lines[at]) is Some {
        lemma_rows_end_behind(lines, at + 1, count);
        if rows_from(lines, at, count) is Some {
            let (end, rows) = rows_from(lines, at, count)->0;
            let rest = (rows_from(lines, at + 1, count)->0).1;
            assert forall|i: int| 0 <= i < rows.len() implies (#[trigger] rows[i]).len()
                == count by {
                if i > 0 {
                    assert(rows[i] == rest[i - 1]);
                }
            }
        }
    }
}

proof fn lemma_table_ends_behind(lines: Seq<TextLineView>, at: int)
    requires
        table_from(lines, at) is Some,
    ensures
        at < (table_from(lines, at)->0).0 < lines.len(),
        rectangular((table_from(lines, at)->0).1),
{
    let header = row_cells(lines[at + 1])->0;
    lemma_rows_end_behind(lines, at + 3, header.len() as int);
    let (end, rows) = table_from(lines, at)->0;
    let rest = (rows_from(lines, at + 3, header.len() as int)->0).1;
    assert forall|i: int| 0 <= i < rows.len() implies (#[trigger] rows[i]).len()
        == rows[0].len() by {
        if i > 0 {
            assert(rows[i] == rest[i - 1]);
        }
    }
}

/// Wrapping loses no glyph and changes none: the lines together are what was wrapped.
pub proof fn lemma_wrapping_keeps_every_glyph(
    line: Seq<TextSpanView>,
    rest: Seq<TextSpanView>,
    width: int,
)
    ensures
        all_of(in_lines(line, rest, width)) == line + rest,
    decreases rest.len(),
{
    if rest.len() == 0 {
        let lines = seq![line];
        assert(lines.skip(1) =~= Seq::empty());
        assert(all_of(lines.skip(1)) =~= Seq::empty());
        assert(line + Seq::<TextSpanView>::empty() =~= line + rest);
    } else if glyphs_width(line) > 0 && glyphs_width(line) + display_width(rest[0].content) > width {
        let more = in_lines(seq![rest[0]], rest.skip(1), width);
        lemma_wrapping_keeps_every_glyph(seq![rest[0]], rest.skip(1), width);
        assert((seq![line] + more).skip(1) =~= more);
        assert(line + (seq![rest[0]] + rest.skip(1)) =~= line + rest);
    } else {
        lemma_wrapping_keeps_every_glyph(line.push(rest[0]), rest.skip(1), width);
        assert(line.push(rest[0]) + rest.skip(1) =~= line + rest);
    }
}

/// A line that fits, or one whose last glyph alone is too wide.
pub open spec fn is_filled(line: Seq<TextSpanView>, width: int) -> bool {
    glyphs_width(line) <= width || line.len() > 0 && glyphs_width(line.drop_last()) == 0
}

/// No wrapped line is wider than asked for, except where a single glyph is.
pub proof fn lemma_wrapped_lines_fit(line: Seq<TextSpanView>, rest: Seq<TextSpanView>, width: int)
    requires
        is_filled(line, width),
    ensures
        forall|i: int|
            0 <= i < in_lines(line, rest, width).len() ==> is_filled(
                #[trigger] in_lines(line, rest, width)[i],
                width,
            ),
    decreases rest.len(),
{
    if rest.len() > 0 {
        lemma_glyphs_width(line);
        if glyphs_width(line) > 0 && glyphs_width(line) + display_width(rest[0].content) > width {
            let next = seq![rest[0]];
            assert(next.drop_last() =~= Seq::empty());
            lemma_wrapped_lines_fit(next, rest.skip(1), width);
            let more = in_lines(next, rest.skip(1), width);
            let all = in_lines(line, rest, width);
            assert forall|i: int| 0 <= i < all.len() implies is_filled(#[trigger] all[i], width) by {
                if i > 0 {
                    assert(all[i] == more[i - 1]);
                }
            }
        } else {
            let next = line.push(rest[0]);
            assert(next.drop_last() =~= line);
            assert(glyphs_width(next) == glyphs_width(line) + display_width(rest[0].content));
            lemma_wrapped_lines_fit(next, rest.skip(1), width);
            assert(in_lines(line, rest, width) == in_lines(next, rest.skip(1), width));
        }
    } else {
        let all = in_lines(line, rest, width);
        assert(all == seq![line]);
        assert forall|i: int| 0 <= i < all.len() implies is_filled(#[trigger] all[i], width) by {}
    }
}

proof fn lemma_glyphs_width(line: Seq<TextSpanView>)
    ensures
        0 <= glyphs_width(line),
    decreases line.len(),
{
    if line.len() > 0 {
        lemma_glyphs_width(line.drop_last());
    }
}

/// Joining glyphs of one style into runs keeps the text.
pub proof fn lemma_runs_keep_the_text(group: Seq<TextSpanView>)
    ensures
        runs_text(as_runs(group)) == runs_text(group),
    decreases group.len(),
{
    if group.len() > 0 {
        let line = as_runs(group.drop_last());
        let glyph = group.last();
        lemma_runs_keep_the_text(group.drop_last());
        let next = joined_to(line, glyph);
        if line.len() > 0 && line.last().style == glyph.style {
            assert(next.drop_last() =~= line.drop_last());
            assert(runs_text(next) =~= runs_text(line) + glyph.content);
        } else {
            assert(next.drop_last() =~= line);
        }
    }
}

/// Texts of printable ASCII and box drawing characters are as wide as they are long.
pub open spec fn narrow_texts_measure_their_length() -> bool {
    forall|t: Seq<char>|
        (forall|i: int| 0 <= i < t.len() ==> is_narrow(#[trigger] t[i])) ==> #[trigger] display_width(
            t,
        ) == t.len()
}

proof fn lemma_rule_is_narrow(widths: Seq<usize>, middle: char)
    requires
        is_narrow(middle),
    ensures
        forall|i: int| 0 <= i < rule_body(widths, middle).len() ==> is_narrow(
            #[trigger] rule_body(widths, middle)[i],
        ),
        widths.len() > 0 ==> rule_body(widths, middle).len() == sum_of(widths) + 3 * widths.len() - 1,
    decreases widths.len(),
{
    assert(is_narrow('─'));
    if widths.len() == 1 {
        assert(sum_of(widths.drop_last()) == 0);
    } else if widths.len() > 1 {
        lemma_rule_is_narrow(widths.drop_last(), middle);
        let head = rule_body(widths.drop_last(), middle);
        let all = rule_body(widths, middle);
        assert forall|i: int| 0 <= i < all.len() implies is_narrow(#[trigger] all[i]) by {
            if i < head.len() {
                assert(all[i] == head[i]);
            }
        }
    }
}

/// The horizontal borders of a table are as wide as its columns and borders together.
pub proof fn lemma_rule_width(
    widths: Seq<usize>,
    left: char,
    middle: char,
    right: char,
)
    requires
        narrow_texts_measure_their_length(),
        widths.len() > 0,
        is_narrow(left),
        is_narrow(middle),
        is_narrow(right),
    ensures
        display_width(rule_text(widths, left, middle, right)) == sum_of(widths) + 3 * widths.len()
            + 1,
{
    lemma_rule_is_narrow(widths, middle);
    let body = rule_body(widths, middle);
    let all = rule_text(widths, left, middle, right);
    assert forall|i: int| 0 <= i < all.len() implies is_narrow(#[trigger] all[i]) by {
        if 0 < i <= body.len() {
            assert(all[i] == body[i - 1]);
        }
    }
}

/// The columns of some runs, without a limit.
pub open spec fn runs_total(spans: Seq<TextSpanView>) -> int
    decreases spans.len(),
{
    if spans.len() == 0 {
        0
    } else {
        runs_total(spans.drop_last()) + display_width(spans.last().content)
    }
}

proof fn lemma_runs_total_add(a: Seq<TextSpanView>, b: Seq<TextSpanView>)
    ensures
        runs_total(a + b) == runs_total(a) + runs_total(b),
    decreases b.len(),
{
    if b.len() == 0 {
        assert(a + b =~= a);
    } else {
        assert((a + b).drop_last() =~= a + b.drop_last());
        lemma_runs_total_add(a, b.drop_last());
    }
}

proof fn lemma_runs_width_is_total(spans: Seq<TextSpanView>)
    requires
        runs_width(spans) < usize::MAX,
    ensures
        runs_total(spans) == runs_width(spans),
    decreases spans.len(),
{
    if spans.len() > 0 {
        lemma_runs_width_is_total(spans.drop_last());
    }
}

/// Every line of a row is as wide as the borders, where the lines of its cells fit their
/// columns.
pub proof fn lemma_row_width(
    cells: Seq<Seq<Seq<TextSpanView>>>,
    widths: Seq<usize>,
    n: int,
    y: int,
    style: TextStyleView,
)
    requires
        narrow_texts_measure_their_length(),
        0 <= n <= cells.len(),
        cells.len() == widths.len(),
        0 <= y,
        forall|i: int|
            0 <= i < cells.len() ==> runs_width(cell_line(#[trigger] cells[i], y)) <= widths[i]
                && widths[i] < usize::MAX,
    ensures
        runs_total(row_runs(cells, widths, n, y, style)) == sum_of(widths.take(n)) + 3 * n + 1,
    decreases n,
{
    let bar = bar_run(style);
    reveal_strlit("│");
    assert(is_narrow("│"@[0]));
    assert(display_width("│"@) == 1);
    if n == 0 {
        let line = seq![bar];
        assert(line.drop_last() =~= Seq::empty());
        assert(runs_total(line.drop_last()) == 0);
        assert(widths.take(0) =~= Seq::empty());
    } else {
        lemma_row_width(cells, widths, n - 1, y, style);
        let line = cell_line(cells[n - 1], y);
        let w = widths[n - 1] as int;
        let room = monus(w, runs_width(line)) + 1;
        lemma_runs_width_is_total(line);
        assert(display_width(repeated(' ', 1)) == 1);
        assert(display_width(repeated(' ', room)) == room);
        let one = seq![blanks(1)];
        assert(one.drop_last() =~= Seq::empty());
        assert(runs_total(one.drop_last()) == 0);
        assert(runs_total(one) == 1);
        lemma_runs_total_add(one, line);
        let two = (one + line).push(blanks(room));
        assert(two.drop_last() =~= one + line);
        let three = two.push(bar);
        assert(three.drop_last() =~= two);
        assert(two.last() == blanks(room));
        assert(runs_total(two) == runs_total(one + line) + room);
        assert(three.last() == bar);
        assert(runs_total(three) == runs_total(two) + 1);
        assert(runs_total(three) == 1 + runs_width(line) + room + 1);
        lemma_runs_total_add(row_runs(cells, widths, n - 1, y, style), three);
        assert(widths.take(n).drop_last() =~= widths.take(n - 1));
    }
}

/// A table that is laid out in columns is as wide as asked for, at most.
pub proof fn lemma_table_fits(rows: Seq<Seq<Seq<TextSpanView>>>, width: int)
    requires
        rectangular(rows),
        rows[0].len() > 0,
        rows[0].len() * 5 + 1 <= width <= usize::MAX,
    ensures
        column_widths(rows, width).len() == rows[0].len(),
        sum_of(column_widths(rows, width)) + 3 * rows[0].len() + 1 <= width,
{
    assert forall|i: int| 0 <= i < needs(rows).len() implies #[trigger] needs(rows)[i] >= 2 by {
        lemma_need(rows, i);
    }
    lemma_shrunk_fits(needs(rows), width - (rows[0].len() * 3 + 1));
}

proof fn lemma_runs_width_bounds(spans: Seq<TextSpanView>)
    ensures
        0 <= runs_width(spans) <= usize::MAX,
    decreases spans.len(),
{
    if spans.len() > 0 {
        lemma_runs_width_bounds(spans.drop_last());
    }
}

proof fn lemma_need(rows: Seq<Seq<Seq<TextSpanView>>>, column: int)
    ensures
        column_need(rows, column) >= 2,
    decreases rows.len(),
{
    if rows.len() > 0 {
        lemma_need(rows.drop_last(), column);
        lemma_runs_width_bounds(rows.last()[column]);
    }
}

/// The glyphs of a cell are drawn as wide as they are measured one by one, wherever it is
/// broken, and none of them is wider than `most`.
pub open spec fn adds_up(spans: Seq<TextSpanView>, most: int) -> bool {
    &&& forall|a: int, b: int|
        0 <= a <= b <= glyphs(spans).len() ==> runs_total(
            as_runs(#[trigger] glyphs(spans).subrange(a, b)),
        ) <= glyphs_width(glyphs(spans).subrange(a, b))
    &&& forall|i: int|
        0 <= i < glyphs(spans).len() ==> display_width((#[trigger] glyphs(spans)[i]).content)
            <= most
}

/// Every line that is wrapped is a stretch of the glyphs.
proof fn lemma_lines_are_stretches(
    all: Seq<TextSpanView>,
    from: int,
    line: Seq<TextSpanView>,
    rest: Seq<TextSpanView>,
    width: int,
    i: int,
) -> (r: (int, int))
    requires
        0 <= from,
        from + line.len() + rest.len() == all.len(),
        line == all.subrange(from, from + line.len()),
        rest == all.skip(from + line.len()),
        0 <= i < in_lines(line, rest, width).len(),
    ensures
        0 <= r.0 <= r.1 <= all.len(),
        in_lines(line, rest, width)[i] == all.subrange(r.0, r.1),
    decreases rest.len(),
{
    if rest.len() == 0 {
        (from, from + line.len())
    } else {
        assert(rest[0] == all[from + line.len()]);
        if glyphs_width(line) > 0 && glyphs_width(line) + display_width(rest[0].content) > width {
            if i == 0 {
                (from, from + line.len())
            } else {
                let next = from + line.len();
                assert(seq![rest[0]] =~= all.subrange(next, next + 1));
                assert(rest.skip(1) =~= all.skip(next + 1));
                lemma_lines_are_stretches(all, next, seq![rest[0]], rest.skip(1), width, i - 1)
            }
        } else {
            assert(line.push(rest[0]) =~= all.subrange(from, from + line.len() + 1));
            assert(rest.skip(1) =~= all.skip(from + line.len() + 1));
            lemma_lines_are_stretches(all, from, line.push(rest[0]), rest.skip(1), width, i)
        }
    }
}

/// Every line of a wrapped cell fits its column.
proof fn lemma_wrapped_cell_fits(spans: Seq<TextSpanView>, most: int, width: int, i: int)
    requires
        adds_up(spans, most),
        0 <= width,
        most <= width,
        0 <= i < wrapped(spans, width).len(),
    ensures
        runs_total(wrapped(spans, width)[i]) <= width,
{
    let all = glyphs(spans);
    let none = Seq::<TextSpanView>::empty();
    assert(all.skip(0) =~= all);
    assert(all.subrange(0, 0) =~= none);
    assert(glyphs_width(none) == 0);
    let (a, b) = lemma_lines_are_stretches(all, 0, none, all, width, i);
    let line = in_lines(none, all, width)[i];
    lemma_wrapped_lines_fit(none, all, width);
    assert(is_filled(line, width));
    if glyphs_width(line) > width {
        assert(line.last() == all[b - 1]);
    }
    assert(wrapped(spans, width)[i] == as_runs(line));
}

/// No line of a table is wider than it was asked to be, where the glyphs of its cells are
/// drawn as wide as they are measured and none of them needs more than two columns, or than
/// there are.
pub proof fn lemma_every_table_line_fits(
    rows: Seq<Seq<Seq<TextSpanView>>>,
    width: int,
    style: TextStyleView,
    i: int,
)
    requires
        narrow_texts_measure_their_length(),
        rectangular(rows),
        0 <= width <= usize::MAX,
        forall|r: int, c: int|
            0 <= r < rows.len() && 0 <= c < rows[0].len() ==> adds_up(
                #[trigger] rows[r][c],
                spec_min(2, width),
            ),
        0 <= i < laid_out(rows, width, style).len(),
    ensures
        runs_total(laid_out(rows, width, style)[i].spans) <= width,
{
    let n = rows[0].len();
    let lines = laid_out(rows, width, style);
    if width == 0 || n == 0 {
    } else if width < n * 5 + 1 {
        lemma_stacked_fits(rows, rows.len() as int, width, i);
    } else {
        let widths = column_widths(rows, width);
        lemma_table_fits(rows, width);
        lemma_columns_are_wide(rows, width);
        let body = body_lines(rows, widths, rows.len() as int, style);
        if i == 0 {
            lemma_rule_fits(widths, '┌', '┬', '┐', style);
        } else if i == lines.len() - 1 {
            lemma_rule_fits(widths, '└', '┴', '┘', style);
        } else {
            assert(lines[i] == body[i - 1]);
            lemma_body_fits(rows, widths, rows.len() as int, style, i - 1);
        }
    }
}

proof fn lemma_columns_are_wide(rows: Seq<Seq<Seq<TextSpanView>>>, width: int)
    requires
        rectangular(rows),
        rows[0].len() > 0,
        rows[0].len() * 5 + 1 <= width <= usize::MAX,
    ensures
        forall|i: int| 0 <= i < rows[0].len() ==> 2 <= #[trigger] column_widths(rows, width)[i]
            < usize::MAX,
{
    assert forall|i: int| 0 <= i < needs(rows).len() implies #[trigger] needs(rows)[i] >= 2 by {
        lemma_need(rows, i);
    }
    lemma_shrunk_fits(needs(rows), width - (rows[0].len() * 3 + 1));
    lemma_table_fits(rows, width);
    assert forall|i: int| 0 <= i < rows[0].len() implies 2 <= #[trigger] column_widths(
        rows,
        width,
    )[i] < usize::MAX by {
        assert(shrunk(needs(rows), width - (rows[0].len() * 3 + 1))[i] >= 2);
        lemma_sum_bounds(column_widths(rows, width), i);
    }
}

proof fn lemma_rule_fits(
    widths: Seq<usize>,
    left: char,
    middle: char,
    right: char,
    style: TextStyleView,
)
    requires
        narrow_texts_measure_their_length(),
        widths.len() > 0,
        is_narrow(left),
        is_narrow(middle),
        is_narrow(right),
    ensures
        runs_total(rule_line(widths, left, middle, right, style).spans) == sum_of(widths) + 3
            * widths.len() + 1,
{
    lemma_rule_width(widths, left, middle, right);
    let line = rule_line(widths, left, middle, right, style).spans;
    assert(line.drop_last() =~= Seq::empty());
    assert(runs_total(line.drop_last()) == 0);
}

proof fn lemma_runs_width_at_most(spans: Seq<TextSpanView>)
    ensures
        runs_width(spans) <= runs_total(spans),
    decreases spans.len(),
{
    if spans.len() > 0 {
        lemma_runs_width_at_most(spans.drop_last());
    }
}

proof fn lemma_row_fits(
    row: Seq<Seq<TextSpanView>>,
    widths: Seq<usize>,
    style: TextStyleView,
    y: int,
)
    requires
        narrow_texts_measure_their_length(),
        row.len() == widths.len(),
        forall|c: int| 0 <= c < row.len() ==> adds_up(#[trigger] row[c], 2),
        forall|c: int| 0 <= c < widths.len() ==> 2 <= #[trigger] widths[c] < usize::MAX,
        0 <= y < row_lines(row, widths, style).len(),
    ensures
        runs_total(row_lines(row, widths, style)[y].spans) == sum_of(widths) + 3 * widths.len()
            + 1,
{
    let cells = wrapped_row(row, widths);
    assert forall|c: int| 0 <= c < cells.len() implies runs_width(
        cell_line(#[trigger] cells[c], y),
    ) <= widths[c] && widths[c] < usize::MAX by {
        assert(adds_up(row[c], 2));
        assert(2 <= widths[c]);
        if y < cells[c].len() {
            lemma_wrapped_cell_fits(row[c], 2, widths[c] as int, y);
            lemma_runs_width_at_most(cells[c][y]);
        }
    }
    lemma_row_width(cells, widths, cells.len() as int, y, style);
    assert(widths.take(widths.len() as int) =~= widths);
}

proof fn lemma_body_fits(
    rows: Seq<Seq<Seq<TextSpanView>>>,
    widths: Seq<usize>,
    n: int,
    style: TextStyleView,
    i: int,
)
    requires
        narrow_texts_measure_their_length(),
        rectangular(rows),
        0 <= n <= rows.len(),
        widths.len() == rows[0].len(),
        widths.len() > 0,
        forall|r: int, c: int|
            0 <= r < rows.len() && 0 <= c < rows[0].len() ==> adds_up(#[trigger] rows[r][c], 2),
        forall|c: int| 0 <= c < widths.len() ==> 2 <= #[trigger] widths[c] < usize::MAX,
        0 <= i < body_lines(rows, widths, n, style).len(),
    ensures
        runs_total(body_lines(rows, widths, n, style)[i].spans) == sum_of(widths) + 3
            * widths.len() + 1,
    decreases n,
{
    if n > 0 {
        let before = body_lines(rows, widths, n - 1, style);
        let row = row_lines(rows[n - 1], widths, style);
        let all = body_lines(rows, widths, n, style);
        if i < before.len() {
            assert(all[i] == before[i]);
            lemma_body_fits(rows, widths, n - 1, style, i);
        } else if i < before.len() + row.len() {
            assert(all[i] == row[i - before.len()]);
            assert(rows[n - 1].len() == rows[0].len());
            lemma_row_fits(rows[n - 1], widths, style, i - before.len());
        } else {
            assert(all[i] == rule_line(widths, '├', '┼', '┤', style));
            lemma_rule_fits(widths, '├', '┼', '┤', style);
        }
    }
}

proof fn lemma_stacked_cells_fit(row: Seq<Seq<TextSpanView>>, n: int, width: int, i: int)
    requires
        0 <= n <= row.len(),
        0 < width,
        forall|c: int| 0 <= c < row.len() ==> adds_up(#[trigger] row[c], spec_min(2, width)),
        0 <= i < stacked_cells(row, n, width).len(),
    ensures
        runs_total(stacked_cells(row, n, width)[i].spans) <= width,
    decreases n,
{
    if n > 0 {
        let before = stacked_cells(row, n - 1, width);
        if i < before.len() {
            assert(stacked_cells(row, n, width)[i] == before[i]);
            lemma_stacked_cells_fit(row, n - 1, width, i);
        } else {
            let cell = wrapped(row[n - 1], width);
            assert(stacked_cells(row, n, width)[i].spans == cell[i - before.len()]);
            assert(adds_up(row[n - 1], spec_min(2, width)));
            lemma_wrapped_cell_fits(row[n - 1], spec_min(2, width), width, i - before.len());
        }
    }
}

proof fn lemma_stacked_fits(rows: Seq<Seq<Seq<TextSpanView>>>, n: int, width: int, i: int)
    requires
        rectangular(rows),
        0 <= n <= rows.len(),
        0 < width,
        forall|r: int, c: int|
            0 <= r < rows.len() && 0 <= c < rows[0].len() ==> adds_up(
                #[trigger] rows[r][c],
                spec_min(2, width),
            ),
        0 <= i < stacked(rows, n, width).len(),
    ensures
        runs_total(stacked(rows, n, width)[i].spans) <= width,
    decreases n,
{
    if n > 0 {
        let before = stacked(rows, n - 1, width);
        let row = rows[n - 1];
        assert(row.len() == rows[0].len());
        let cells = stacked_cells(row, row.len() as int, width);
        let all = stacked(rows, n, width);
        if i < before.len() {
            assert(all[i] == before[i]);
            lemma_stacked_fits(rows, n - 1, width, i);
        } else if i < before.len() + cells.len() {
            assert(all[i] == cells[i - before.len()]);
            lemma_stacked_cells_fit(row, row.len() as int, width, i - before.len());
        } else {
            assert(all[i] == line_of(Seq::empty()));
        }
    }
}

/// The column that gives way is the widest, and of several the last.
pub proof fn lemma_the_widest_column_gives_way(widths: Seq<usize>, n: int, i: int)
    requires
        0 <= i < n <= widths.len(),
    ensures
        0 <= widest(widths, n) < n,
        widths[i] <= widths[widest(widths, n)],
        i > widest(widths, n) ==> widths[i] < widths[widest(widths, n)],
    decreases n,
{
    if n > 1 {
        if i < n - 1 {
            lemma_the_widest_column_gives_way(widths, n - 1, i);
        } else {
            lemma_the_widest_column_gives_way(widths, n - 1, 0);
        }
        if widths[n - 1] >= widths[widest(widths, n - 1)] && i < n - 1 {
            lemma_the_widest_column_gives_way(widths, n - 1, i);
        }
    }
}

/// A column needs the width of its widest cell, and two columns at least; no more.
pub proof fn lemma_what_a_column_needs(rows: Seq<Seq<Seq<TextSpanView>>>, column: int, i: int)
    requires
        0 <= i < rows.len(),
        forall|k: int|
            0 <= k < rows.len() ==> 0 <= runs_width(#[trigger] rows[k][column]) <= usize::MAX,
    ensures
        column_need(rows, column) >= 2,
        column_need(rows, column) >= runs_width(rows[i][column]),
        column_need(rows, column) > 2 ==> exists|k: int|
            0 <= k < rows.len() && column_need(rows, column) == runs_width(
                #[trigger] rows[k][column],
            ),
    decreases rows.len(),
{
    let front = rows.drop_last();
    let last = rows.len() - 1;
    assert(rows[last] == rows.last());
    assert(0 <= runs_width(rows[last][column]) <= usize::MAX);
    if front.len() > 0 {
        assert forall|k: int| 0 <= k < front.len() implies 0 <= runs_width(
            #[trigger] front[k][column],
        ) <= usize::MAX by {
            assert(front[k] == rows[k]);
            assert(0 <= runs_width(rows[k][column]) <= usize::MAX);
        }
        if i < front.len() {
            lemma_what_a_column_needs(front, column, i);
        } else {
            lemma_what_a_column_needs(front, column, 0);
        }
        if column_need(rows, column) > 2 && column_need(front, column) >= runs_width(
            rows[last][column],
        ) {
            let k = choose|k: int|
                0 <= k < front.len() && column_need(front, column) == runs_width(
                    #[trigger] front[k][column],
                );
            assert(front[k] == rows[k]);
            assert(column_need(rows, column) == runs_width(rows[k][column]));
        } else if column_need(rows, column) > 2 {
            assert(column_need(rows, column) == runs_width(rows[last][column]));
        }
    } else {
        assert(column_need(front, column) == 2);
        if column_need(rows, column) > 2 {
            assert(column_need(rows, column) == runs_width(rows[last][column]));
        }
    }
}

/// What can be drawn is drawn, in its order and its style; what holds a control character
/// is left out.
pub proof fn lemma_what_is_drawn(parts: Seq<Seq<char>>, style: TextStyleView)
    ensures
        drawable_clusters(parts) == parts.filter(|p: Seq<char>| !has_control(p)),
        drawn(parts, style) == parts.filter(|p: Seq<char>| !has_control(p)).map_values(
            |p: Seq<char>| TextSpanView { content: p, style },
        ),
    decreases parts.len(),
{
    reveal(Seq::filter);
    let seen = |p: Seq<char>| !has_control(p);
    let shown = |p: Seq<char>| TextSpanView { content: p, style };
    if parts.len() == 0 {
        assert(parts.filter(seen).map_values(shown) =~= Seq::<TextSpanView>::empty());
    } else {
        lemma_what_is_drawn(parts.drop_last(), style);
        let rest = parts.drop_last().filter(seen);
        if seen(parts.last()) {
            assert(rest.push(parts.last()).map_values(shown) =~= rest.map_values(shown).push(
                shown(parts.last()),
            ));
        }
    }
}

/// Control characters are those of seven and eight bits that draw nothing.
pub proof fn lemma_what_cannot_be_drawn(c: char)
    ensures
        is_control(c) <==> c <= '\u{1f}' || '\u{7f}' <= c <= '\u{9f}',
        ' ' <= c <= '~' ==> !is_control(c),
        c == '\t' || c == '\n' ==> is_control(c),
{
}

/// A line is filled before another is begun: the glyph that begins a line would not have
/// fitted behind the line before.
pub proof fn lemma_lines_are_filled(
    line: Seq<TextSpanView>,
    rest: Seq<TextSpanView>,
    width: int,
    i: int,
)
    requires
        0 < i < in_lines(line, rest, width).len(),
    ensures
        in_lines(line, rest, width)[i].len() > 0,
        glyphs_width(in_lines(line, rest, width)[i - 1]) > 0,
        glyphs_width(in_lines(line, rest, width)[i - 1]) + display_width(
            in_lines(line, rest, width)[i][0].content,
        ) > width,
    decreases rest.len(),
{
    if rest.len() > 0 {
        let used = glyphs_width(line);
        if used > 0 && used + display_width(rest[0].content) > width {
            let more = in_lines(seq![rest[0]], rest.skip(1), width);
            lemma_the_first_line_begins(seq![rest[0]], rest.skip(1), width);
            if i == 1 {
                assert(in_lines(line, rest, width)[1] == more[0]);
            } else {
                lemma_lines_are_filled(seq![rest[0]], rest.skip(1), width, i - 1);
                assert(in_lines(line, rest, width)[i] == more[i - 1]);
                assert(in_lines(line, rest, width)[i - 1] == more[i - 2]);
            }
        } else {
            lemma_lines_are_filled(line.push(rest[0]), rest.skip(1), width, i);
        }
    }
}

proof fn lemma_the_first_line_begins(
    line: Seq<TextSpanView>,
    rest: Seq<TextSpanView>,
    width: int,
)
    requires
        line.len() > 0,
    ensures
        in_lines(line, rest, width).len() > 0,
        in_lines(line, rest, width)[0].len() > 0,
        in_lines(line, rest, width)[0][0] == line[0],
    decreases rest.len(),
{
    if rest.len() > 0 {
        if !(glyphs_width(line) > 0 && glyphs_width(line) + display_width(rest[0].content)
            > width) {
            lemma_the_first_line_begins(line.push(rest[0]), rest.skip(1), width);
        }
    }
}

/// A row is as high as its highest cell, and no higher.
pub proof fn lemma_a_row_is_as_high_as_its_cells(cells: Seq<Seq<Seq<TextSpanView>>>, n: int, i: int)
    requires
        0 <= i < n <= cells.len(),
    ensures
        tallest(cells, n) >= cells[i].len(),
        exists|k: int| 0 <= k < n && tallest(cells, n) == (#[trigger] cells[k]).len(),
    decreases n,
{
    if n > 1 {
        if i < n - 1 {
            lemma_a_row_is_as_high_as_its_cells(cells, n - 1, i);
        } else {
            lemma_a_row_is_as_high_as_its_cells(cells, n - 1, 0);
        }
        let k = choose|k: int| 0 <= k < n - 1 && tallest(cells, n - 1) == (#[trigger] cells[k]).len();
        if cells[n - 1].len() > tallest(cells, n - 1) {
            assert(tallest(cells, n) == cells[n - 1].len());
        } else {
            assert(tallest(cells, n) == cells[k].len());
        }
    } else {
        assert(tallest(cells, 0) == 0);
        assert(tallest(cells, 1) == cells[0].len());
    }
}

/// A table that is laid out is a box: a border above, one below its header, one at its end,
/// and every line of every row between them.
pub proof fn lemma_a_table_is_a_box(
    rows: Seq<Seq<Seq<TextSpanView>>>,
    width: int,
    style: TextStyleView,
)
    requires
        rows.len() > 0,
        rows[0].len() > 0,
        width >= rows[0].len() * 5 + 1,
    ensures
        ({
            let widths = column_widths(rows, width);
            let lines = laid_out(rows, width, style);
            let head = row_lines(rows[0], widths, style);
            &&& lines.len() >= 3
            &&& lines[0] == rule_line(widths, '┌', '┬', '┐', style)
            &&& lines.last() == rule_line(widths, '└', '┴', '┘', style)
            &&& lines.subrange(1, 1 + head.len() as int) == head
            &&& lines[1 + head.len() as int] == rule_line(widths, '├', '┼', '┤', style)
        }),
{
    let widths = column_widths(rows, width);
    let n = rows.len() as int;
    lemma_the_body_begins_with_the_header(rows, widths, n, style);
    let body = body_lines(rows, widths, n, style);
    let head = row_lines(rows[0], widths, style);
    let lines = laid_out(rows, width, style);
    assert(lines.subrange(1, 1 + head.len() as int) =~= body.take(head.len() as int));
    assert(lines[1 + head.len() as int] == body[head.len() as int]);
}

proof fn lemma_the_body_begins_with_the_header(
    rows: Seq<Seq<Seq<TextSpanView>>>,
    widths: Seq<usize>,
    n: int,
    style: TextStyleView,
)
    requires
        0 < n <= rows.len(),
    ensures
        ({
            let body = body_lines(rows, widths, n, style);
            let head = row_lines(rows[0], widths, style);
            &&& body.len() > head.len()
            &&& body.take(head.len() as int) == head
            &&& body[head.len() as int] == rule_line(widths, '├', '┼', '┤', style)
        }),
    decreases n,
{
    let body = body_lines(rows, widths, n, style);
    let head = row_lines(rows[0], widths, style);
    if n == 1 {
        assert(body_lines(rows, widths, 0, style).len() == 0);
        assert(body =~= head + seq![rule_line(widths, '├', '┼', '┤', style)]);
        assert(body.take(head.len() as int) =~= head);
    } else {
        lemma_the_body_begins_with_the_header(rows, widths, n - 1, style);
        let front = body_lines(rows, widths, n - 1, style);
        assert(body.take(head.len() as int) =~= front.take(head.len() as int));
        assert(body[head.len() as int] == front[head.len() as int]);
    }
}

/// Every further row of a table follows, below all rows before it, with all of its lines.
pub proof fn lemma_rows_follow_each_other(
    rows: Seq<Seq<Seq<TextSpanView>>>,
    widths: Seq<usize>,
    n: int,
    style: TextStyleView,
)
    requires
        1 < n <= rows.len(),
    ensures
        body_lines(rows, widths, n, style) == body_lines(rows, widths, n - 1, style) + row_lines(
            rows[n - 1],
            widths,
            style,
        ),
{
    let front = body_lines(rows, widths, n - 1, style) + row_lines(rows[n - 1], widths, style);
    assert(front + Seq::<TextLineView>::empty() =~= front);
}

/// Where there is no room for columns, the cells stand one below the other, each wrapped to
/// the whole width, and an empty line below each row.
pub proof fn lemma_cells_are_stacked(
    rows: Seq<Seq<Seq<TextSpanView>>>,
    width: int,
    style: TextStyleView,
)
    requires
        rows.len() > 0,
        0 < width < rows[0].len() * 5 + 1,
        rows[0].len() > 0,
    ensures
        laid_out(rows, width, style) == stacked(rows, rows.len() as int, width),
        stacked(rows, rows.len() as int, width).len() > 0,
        stacked(rows, rows.len() as int, width).last().spans.len() == 0,
{
}

/// Only a table that is too wide is laid out again; everything else stays where it is.
pub proof fn lemma_only_wide_tables_are_laid_out(lines: Seq<TextLineView>, at: int, width: int)
    requires
        0 <= at < lines.len(),
    ensures
        table_from(lines, at) is None ==> with_tables_laid_out(lines, at, width) == seq![lines[at]]
            + with_tables_laid_out(lines, at + 1, width),
        table_from(lines, at) is Some && at <= table_from(lines, at)->Some_0.0 < lines.len() ==> {
            let end = table_from(lines, at)->Some_0.0;
            let rows = table_from(lines, at)->Some_0.1;
            &&& runs_width(lines[at].spans) > width ==> with_tables_laid_out(lines, at, width)
                == laid_out(rows, width, lines[at].spans[0].style) + with_tables_laid_out(
                lines,
                end + 1,
                width,
            )
            &&& runs_width(lines[at].spans) <= width ==> with_tables_laid_out(lines, at, width)
                == lines.subrange(at, end + 1) + with_tables_laid_out(lines, end + 1, width)
        },
{
}

} // verus!
