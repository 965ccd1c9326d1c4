//! The help, and messages that are read and closed.

use crate::app::{nothing, only, Action, Hint};
use crate::geometry::{clamp16, min16, monus, plus16, spec_max, spec_min, Rect};
use crate::keymap::{KeyCode, KeyEvent, MouseEvent, MouseKind};
use crate::measure::{lower, to_lowercase};
use crate::modal::Modal;
use crate::text::{
    cat3, cat7, chars_of, contains, cut, decimal, ends_with, first_word, has_part, has_prefix,
    has_suffix, numeral, parse_number, parsed, pieces, repeat, repeated, same_text, slice_of,
    split, split_once, starts_with, strip_prefix, texts, trim, trim_start, trimmed,
    without_leading_white, word,
};
use crate::theme::Theme;
use crate::ui::{
    contents, count_wrapped, flowing, framed, plain_run, run, wrapped_rows, DrawView, Line, Lines,
    Scene, Span, SpanView, Style, Wrap,
};
use crate::widgets::{centered, middle_of};
use vstd::prelude::*;

verus! {

/// What the keys do.
pub const HELP: &'static str = "Startup
  Startup scanning is read-only. Broken deployment links remain unchanged until you explicitly
  analyze, review, and apply a repair in Health.
Global
  :                 search commands outside text inputs: install, repair, backup, settings
  a                 open Actions for the selected item
  ?                 help (outside text inputs)
  Ctrl-R            rescan      Ctrl-C  quit
  Ctrl-Z  Ctrl-Y    undo and redo the last change
  1-6               select a tab outside text inputs; focus stays on the tab strip
  Tab / Shift-Tab   select next / previous tab (close editing dialogs first)
  Enter / Down      enter the selected tab from the tab strip
  Esc / q           return one level inside the current tab; at the tab strip, quit
                    close overlay, end search input, cancel multi-select, clear filter, parent
                    q remains ordinary text while editing
  /                 search the focused panel
  Direct shortcuts  remain available for frequent actions; menus are the discoverable path

Library
  type              fuzzy search over name, tags, description, note
  tag:x preset:y    filters; also agent:codex  status:modified  source:repository  untagged
  Enter             accept a suggestion / open results / preview
  arrows            navigate panels and lists (Esc goes back)
  a                 Actions: tags, presets, deploy, notes, source, updates, remove
  m                 enter multi-select (status marker also starts selection)
  Space  Ctrl-A     toggle skill / select current results in multi-select
  t  d  p           selected skills: tags / deploy / add to preset
  Esc               cancel multi-select; Preset actions include selections outside the filter
  u  U              check upstream / update from upstream (Git or archive sources)
Tags / Presets
  a                 Actions for the selected group or skill
  c                 create a group
  /                 filter names on the left or skills on the right
  arrows            navigate lists and move between panels
  m                 multi-select skills in the current panel
  Ctrl-A            select current skill results; earlier selections are retained
  a                 selected skills: tags / deploy / preset operations
  Tag composition   read-only coverage of the Preset's fixed members
  Enter / click     toggle or create a tag immediately; Esc closes the picker
  Tab               complete an existing tag in the picker
  Backspace         empty tag input: select last token; press again to remove
  Esc / q           clear results filter, skills → group list → tab strip
Staged selection dialogs
  Enter / Space     toggle the current list item; activate the focused button
  Tab / Shift-Tab   list → Apply → Cancel; reverse with Shift
  Down at last item focus Apply; Up from buttons returns to the list
  Left / Right      switch Apply / Cancel when a button has focus
  o                 preview a skill in the member selector
  Esc / q           cancel without applying; search input and preview return first
Agents
  /                 filter skills
  arrows            agents → scopes → deployment groups → search → filter badges → skills
  Esc / q           clear skill filter, then groups → scope → agent → tab strip
  Enter / click     toggle group deployment: partial/empty installs all, full uninstalls all; 0/0 ignored
  +N presets/tags    expand hidden deployment groups; Esc closes without changes
  Skill badges      Left/Right selects; Enter/Space toggles a filter, preserving text and other fields
  Bold + underline  currently applied group filter in the skills panel
  a                 Actions for the selected skill
  v                 change skill layout
  [ / ]             previous / next agent
Mouse
  click             focus panes, select rows, press buttons, switch tabs
  double-click      open preview (or tag / preset / health item)
  right-click       open Actions for that item
  wheel             scroll lists and preview
";

// ---- lines -------------------------------------------------------------------

/// The lines of a text; a line break at its end begins no further line.
pub open spec fn lines_of(text: Seq<char>) -> Seq<Seq<char>> {
    let all = pieces(text, "\n"@);
    if all.len() > 0 && all.last().len() == 0 {
        all.drop_last()
    } else {
        all
    }
}

pub fn split_lines(text: &str) -> (r: Vec<String>)
    ensures
        texts(r@) == lines_of(text@),
{
    proof {
        reveal_strlit("\n");
    }
    let mut all = split(text, "\n");
    let n = all.len();
    assert(texts(all@).last() == all@[n - 1]@);
    if chars_of(all[n - 1].as_str()).len() == 0 {
        let ghost before = all@;
        let _ = all.pop();
        assert(texts(all@) =~= texts(before).drop_last());
    }
    all
}

/// The bytes of a character in UTF-8.
pub open spec fn bytes_of(c: char) -> int {
    if (c as u32) < 0x80 {
        1
    } else if (c as u32) < 0x800 {
        2
    } else if (c as u32) < 0x10000 {
        3
    } else {
        4
    }
}

/// The bytes of a text in UTF-8.
pub open spec fn byte_len(s: Seq<char>) -> int
    decreases s.len(),
{
    if s.len() == 0 {
        0
    } else {
        byte_len(s.drop_last()) + bytes_of(s.last())
    }
}

/// After how many characters, from the `k`th on, `n` bytes are over.
pub open spec fn boundary_from(s: Seq<char>, n: int, k: int) -> Option<int>
    decreases s.len() - k + 1,
{
    if k < 0 || k > s.len() {
        None
    } else if byte_len(s.take(k)) == n {
        Some(k)
    } else {
        boundary_from(s, n, k + 1)
    }
}

fn count_bytes(chars: &Vec<char>, limit: usize) -> (r: (bool, Option<usize>))
    ensures
        r.0 == (byte_len(chars@) > limit),
        match r.1 {
            Some(k) => boundary_from(chars@, limit as int, 0) == Some(k as int) && k
                <= chars@.len(),
            None => boundary_from(chars@, limit as int, 0) is None,
        },
{
    let mut total: u128 = 0;
    let mut found: Option<usize> = None;
    let mut i: usize = 0;
    assert(chars@.take(0) =~= Seq::empty());
    if limit == 0 {
        found = Some(0);
    }
    while i < chars.len()
        invariant
            i <= chars.len(),
            total == byte_len(chars@.take(i as int)),
            total <= i * 4,
            match found {
                Some(k) => boundary_from(chars@, limit as int, 0) == Some(k as int) && k
                    <= chars@.len(),
                None => boundary_from(chars@, limit as int, 0) == boundary_from(
                    chars@,
                    limit as int,
                    i + 1,
                ),
            },
        decreases chars.len() - i,
    {
        assert(chars@.take(i + 1).drop_last() =~= chars@.take(i as int));
        let code: u32 = chars[i] as u32;
        let more: u128 = if code < 0x80 {
            1
        } else if code < 0x800 {
            2
        } else if code < 0x10000 {
            3
        } else {
            4
        };
        total = total + more;
        i = i + 1;
        if found.is_none() && total == limit as u128 {
            found = Some(i);
        }
    }
    assert(chars@.take(i as int) =~= chars@);
    (total > limit as u128, found)
}

/// A line of the help: a heading, or a key and what it does.
pub open spec fn help_view(line: Seq<char>, theme: Theme) -> Seq<SpanView> {
    if has_prefix(line, "  "@) {
        if byte_len(line) > 18 {
            match boundary_from(line, 18, 0) {
                Some(k) => seq![run(line.take(k), theme.key_hint()), plain_run(line.skip(k))],
                None => seq![plain_run(line)],
            }
        } else {
            seq![plain_run(line)]
        }
    } else if line.len() == 0 {
        seq![plain_run(line)]
    } else {
        seq![run(line, theme.bold().fg(theme.accent))]
    }
}

/// A line of the help. The key takes eighteen bytes; a line that cannot be cut there stays
/// whole.
pub fn help_line(line: &str, theme: &Theme) -> (r: Line)
    ensures
        r@ == help_view(line@, *theme),
{
    let chars = chars_of(line);
    if starts_with(line, "  ") {
        let (long, at) = count_bytes(&chars, 18);
        if long {
            match at {
                Some(k) => {
                    let mut out = Line::new();
                    assert(chars@.subrange(0, k as int) =~= line@.take(k as int));
                    assert(chars@.subrange(k as int, chars@.len() as int) =~= line@.skip(k as int));
                    out.push(Span::of(slice_of(&chars, 0, k), theme.key_hint()));
                    out.push(Span::of(slice_of(&chars, k, chars.len()), Style::plain()));
                    return out;
                },
                None => {},
            }
        }
        return Line::raw(line);
    }
    if chars.len() == 0 {
        return Line::raw(line);
    }
    Line::styled(line, theme.bold().fg(theme.accent))
}

/// A line of the help is shown: those on tags only where there are tags.
pub open spec fn help_shown(line: Seq<char>, tags_enabled: bool) -> bool {
    tags_enabled || (!has_part(lower(line), "tag"@) && !has_prefix(line, "  t "@))
}

pub open spec fn help_views(lines: Seq<Seq<char>>, tags_enabled: bool, theme: Theme) -> Seq<
    Seq<SpanView>,
>
    decreases lines.len(),
{
    if lines.len() == 0 {
        Seq::empty()
    } else if help_shown(lines.last(), tags_enabled) {
        help_views(lines.drop_last(), tags_enabled, theme).push(help_view(lines.last(), theme))
    } else {
        help_views(lines.drop_last(), tags_enabled, theme)
    }
}

fn help_lines(lines: &Vec<String>, tags_enabled: bool, theme: &Theme) -> (r: Lines)
    ensures
        r@ == help_views(texts(lines@), tags_enabled, *theme),
{
    let ghost all = texts(lines@);
    let mut out = Lines::new();
    let mut i: usize = 0;
    assert(all.take(0) =~= Seq::empty());
    while i < lines.len()
        invariant
            i <= lines.len(),
            all == texts(lines@),
            out@ == help_views(all.take(i as int), tags_enabled, *theme),
        decreases lines.len() - i,
    {
        assert(all.take(i + 1).drop_last() =~= all.take(i as int));
        assert(all.take(i + 1).last() == lines@[i as int]@);
        let line = lines[i].as_str();
        if tags_enabled || (!contains(to_lowercase(line).as_str(), "tag") && !starts_with(
            line,
            "  t ",
        )) {
            out.push(help_line(line, theme));
        }
        i = i + 1;
    }
    assert(all.take(i as int) =~= all);
    out
}

// ---- the results of a repair -------------------------------------------------

/// The style of one count: a count of nothing does not stand out.
pub open spec fn count_style(part: Seq<char>, theme: Theme) -> Style {
    let count = match first_word(part) {
        Some(word) => match parsed(word) {
            Some(n) => n as int,
            None => 0,
        },
        None => 0,
    };
    if count == 0 {
        theme.description()
    } else if has_suffix(part, " repaired"@) {
        theme.ok()
    } else if has_suffix(part, " failed"@) {
        theme.err()
    } else {
        theme.description()
    }
}

fn style_of_count(part: &str, theme: &Theme) -> (r: Style)
    ensures
        r == count_style(part@, *theme),
{
    let count: usize = match word(part) {
        Some(word) => match parse_number(word.as_str()) {
            Some(n) => n,
            None => 0,
        },
        None => 0,
    };
    if count == 0 {
        theme.description()
    } else if ends_with(part, " repaired") {
        theme.ok()
    } else if ends_with(part, " failed") {
        theme.err()
    } else {
        theme.description()
    }
}

/// The first counts of a summary, with dots between them.
pub open spec fn count_views(parts: Seq<Seq<char>>, theme: Theme) -> Seq<SpanView>
    decreases parts.len(),
{
    if parts.len() == 0 {
        Seq::empty()
    } else {
        let before = count_views(parts.drop_last(), theme);
        let dotted = if parts.len() > 1 {
            before.push(run(" · "@, theme.dim()))
        } else {
            before
        };
        dotted.push(run(parts.last(), count_style(parts.last(), theme).bolder()))
    }
}

fn count_spans(parts: &Vec<String>, theme: &Theme) -> (r: Line)
    ensures
        r@ == count_views(texts(parts@), *theme),
{
    let ghost all = texts(parts@);
    let mut out = Line::new();
    let mut i: usize = 0;
    assert(all.take(0) =~= Seq::empty());
    while i < parts.len()
        invariant
            i <= parts.len(),
            all == texts(parts@),
            out@ == count_views(all.take(i as int), *theme),
        decreases parts.len() - i,
    {
        assert(all.take(i + 1).drop_last() =~= all.take(i as int));
        assert(all.take(i + 1).last() == parts@[i as int]@);
        if i > 0 {
            out.push(Span::styled(" · ", theme.dim()));
        }
        let part = parts[i].as_str();
        out.push(Span::styled(part, style_of_count(part, theme).bolder()));
        i = i + 1;
    }
    assert(all.take(i as int) =~= all);
    out
}

/// A line that sums a repair up.
pub open spec fn is_summary(line: Seq<char>) -> bool {
    has_part(line, " repaired · "@) && has_part(line, " unchanged · "@) && has_suffix(
        line,
        " failed"@,
    )
}

/// What is said of an item, behind a dot.
pub open spec fn detail_style(failed: bool, theme: Theme) -> Style {
    if failed {
        theme.err()
    } else {
        theme.description()
    }
}

/// What was repaired: where it leads to, and what is said of it.
pub open spec fn item_views(rest: Seq<char>, failed: bool, theme: Theme) -> Seq<SpanView> {
    match cut(rest, " → "@) {
        Some((source, target)) => match cut(target, " · "@) {
            Some((place, detail)) => seq![
                plain_run(source),
                run(" → "@, theme.accent()),
                run(place, theme.source()),
                run(" · "@, theme.dim()),
                run(detail, detail_style(failed, theme)),
            ],
            None => seq![
                plain_run(source),
                run(" → "@, theme.accent()),
                run(target, theme.source()),
            ],
        },
        None => match cut(rest, " · "@) {
            Some((source, detail)) => seq![
                plain_run(source),
                run(" · "@, theme.dim()),
                run(detail, detail_style(failed, theme)),
            ],
            None => seq![plain_run(rest)],
        },
    }
}

/// The style of a status, and the blanks behind it; nothing where it is none.
pub open spec fn status_of(status: Seq<char>, theme: Theme) -> Option<(Style, int)> {
    if status == "REPAIRED"@ {
        Some((theme.ok().bolder(), 2))
    } else if status == "FAILED"@ {
        Some((theme.err().bolder(), 4))
    } else if status == "UNCHANGED"@ {
        Some((theme.description().bolder(), 1))
    } else {
        None
    }
}

/// A line of the results of a repair.
pub open spec fn result_view(line: Seq<char>, theme: Theme) -> Seq<SpanView> {
    if is_summary(line) {
        count_views(pieces(line, " · "@), theme)
    } else if has_suffix(line, " faults remain after a fresh scan"@) {
        seq![
            run(
                line,
                if has_prefix(line, "0 "@) {
                    theme.ok()
                } else {
                    theme.err()
                },
            ),
        ]
    } else if line == "Metadata backup"@ {
        seq![run(line, theme.description())]
    } else if has_prefix(line, "  "@) {
        seq![plain_run("  "@), run(line.skip("  "@.len() as int), theme.source())]
    } else {
        match cut(line, " "@) {
            None => seq![plain_run(line)],
            Some((status, rest)) => match status_of(status, theme) {
                None => seq![plain_run(line)],
                Some((style, blanks)) => seq![
                    run(status, style),
                    plain_run(repeated(' ', blanks)),
                ] + item_views(
                    without_leading_white(rest),
                    status == "FAILED"@,
                    theme,
                ),
            },
        }
    }
}

fn item_line(rest: &str, failed: bool, theme: &Theme) -> (r: Line)
    ensures
        r@ == item_views(rest@, failed, *theme),
{
    let style = if failed {
        theme.err()
    } else {
        theme.description()
    };
    let mut out = Line::new();
    match split_once(rest, " → ") {
        Some((source, target)) => {
            out.push(Span::raw(source.as_str()));
            out.push(Span::styled(" → ", theme.accent()));
            match split_once(target.as_str(), " · ") {
                Some((place, detail)) => {
                    out.push(Span::of(place, theme.source()));
                    out.push(Span::styled(" · ", theme.dim()));
                    out.push(Span::of(detail, style));
                },
                None => out.push(Span::of(target, theme.source())),
            }
        },
        None => match split_once(rest, " · ") {
            Some((source, detail)) => {
                out.push(Span::raw(source.as_str()));
                out.push(Span::styled(" · ", theme.dim()));
                out.push(Span::of(detail, style));
            },
            None => out.push(Span::raw(rest)),
        },
    }
    out
}

/// A line of the results of a repair: statuses, arrows and targets stand out.
pub fn repair_result_line(line: &str, theme: &Theme) -> (r: Line)
    ensures
        r@ == result_view(line@, *theme),
{
    if contains(line, " repaired · ") && contains(line, " unchanged · ") && ends_with(
        line,
        " failed",
    ) {
        proof {
            reveal_strlit(" · ");
        }
        return count_spans(&split(line, " · "), theme);
    }
    if ends_with(line, " faults remain after a fresh scan") {
        let style = if starts_with(line, "0 ") {
            theme.ok()
        } else {
            theme.err()
        };
        return Line::styled(line, style);
    }
    if same_text(line, "Metadata backup") {
        return Line::styled(line, theme.description());
    }
    match strip_prefix(line, "  ") {
        Some(path) => {
            let mut out = Line::new();
            out.push(Span::raw("  "));
            out.push(Span::of(path, theme.source()));
            return out;
        },
        None => {},
    }
    match split_once(line, " ") {
        None => Line::raw(line),
        Some((status, rest)) => {
            let (style, blanks): (Style, usize) = if same_text(status.as_str(), "REPAIRED") {
                (theme.ok().bolder(), 2)
            } else if same_text(status.as_str(), "FAILED") {
                (theme.err().bolder(), 4)
            } else if same_text(status.as_str(), "UNCHANGED") {
                (theme.description().bolder(), 1)
            } else {
                return Line::raw(line);
            };
            let failed = same_text(status.as_str(), "FAILED");
            let rest = trim_start(rest.as_str());
            let mut out = Line::new();
            out.push(Span::of(status, style));
            out.push(Span::raw(repeat(' ', blanks).as_str()));
            out.extend(item_line(rest.as_str(), failed, theme));
            out
        },
    }
}

// ---- scrolling ---------------------------------------------------------------

/// What a key does to a text that is read: how far it is scrolled, or nothing where the key
/// is not for that.
pub open spec fn scrolled(scroll: u16, code: KeyCode) -> u16 {
    match code {
        KeyCode::Down => plus16(scroll as int, 1) as u16,
        KeyCode::Char('j') => plus16(scroll as int, 1) as u16,
        KeyCode::Up => monus(scroll as int, 1) as u16,
        KeyCode::Char('k') => monus(scroll as int, 1) as u16,
        KeyCode::PageDown => plus16(scroll as int, 10) as u16,
        KeyCode::PageUp => monus(scroll as int, 10) as u16,
        KeyCode::Home => 0,
        _ => scroll,
    }
}

/// What the wheel does.
pub open spec fn wheeled(scroll: u16, kind: MouseKind) -> u16 {
    match kind {
        MouseKind::ScrollUp => monus(scroll as int, 3) as u16,
        MouseKind::ScrollDown => ((scroll + 3) % 65536) as u16,
        _ => scroll,
    }
}

pub fn scroll_by_key(scroll: u16, code: KeyCode) -> (r: u16)
    ensures
        r == scrolled(scroll, code),
{
    match code {
        KeyCode::Down => scroll.saturating_add(1),
        KeyCode::Up => scroll.saturating_sub(1),
        KeyCode::PageDown => scroll.saturating_add(10),
        KeyCode::PageUp => scroll.saturating_sub(10),
        KeyCode::Home => 0,
        KeyCode::Char(c) => if c == 'j' {
            scroll.saturating_add(1)
        } else if c == 'k' {
            scroll.saturating_sub(1)
        } else {
            scroll
        },
        _ => scroll,
    }
}

pub fn scroll_by_wheel(scroll: u16, kind: MouseKind) -> (r: u16)
    ensures
        r == wheeled(scroll, kind),
{
    match kind {
        MouseKind::ScrollUp => scroll.saturating_sub(3),
        MouseKind::ScrollDown => if scroll <= 65532 {
            scroll + 3
        } else {
            scroll - 65533
        },
        _ => scroll,
    }
}

/// A key closes a text that is read.
pub open spec fn closes(code: KeyCode) -> bool {
    code == KeyCode::Esc || code == KeyCode::Char('q')
}

/// The actions of a dialog that stays open, or closes.
pub open spec fn answered(close: bool, actions: Seq<Action>) -> bool {
    if close {
        actions == seq![Action::CloseModal]
    } else {
        actions.len() == 0
    }
}

// ---- the help ----------------------------------------------------------------

/// The help, scrolled by some rows.
#[derive(Debug, Clone, Copy, PartialEq, Eq, Structural)]
pub struct Help {
    pub scroll: u16,
}

impl Help {
    pub open spec fn rows(tags_enabled: bool, theme: Theme) -> Seq<Seq<SpanView>> {
        help_views(lines_of(HELP@), tags_enabled, theme)
    }

    /// The rows that the help takes in an area.
    pub open spec fn total(area: Rect, tags_enabled: bool, theme: Theme) -> int {
        spec_min(
            wrapped_rows(
                contents(Help::rows(tags_enabled, theme)),
                monus(spec_min(78, monus(area.width as int, 2)), 2) as u16,
            ) as int,
            65535,
        )
    }

    pub open spec fn rect_in(area: Rect, total: int) -> Rect {
        middle_of(area, 78, plus16(total, 2))
    }

    /// The help once it is drawn: never scrolled beyond its end.
    pub open spec fn placed(self, area: Rect, tags_enabled: bool, theme: Theme) -> Help {
        let total = Help::total(area, tags_enabled, theme);
        let visible = monus(Help::rect_in(area, total).height as int, 2);
        Help { scroll: spec_min(self.scroll as int, monus(total, visible)) as u16 }
    }

    /// The drawing of the help.
    pub open spec fn scene(self, area: Rect, tags_enabled: bool, theme: Theme) -> Seq<DrawView> {
        let total = Help::total(area, tags_enabled, theme);
        let rect = Help::rect_in(area, total);
        let visible = monus(rect.height as int, 2);
        let at = self.placed(area, tags_enabled, theme).scroll;
        seq![
            DrawView::Clear(rect),
            framed(
                rect,
                " help · "@ + numeral(spec_min(plus16(at as int, 1), total)) + "–"@ + numeral(
                    spec_min(plus16(at as int, visible), total),
                ) + "/"@ + numeral(total) + " "@,
            ),
            flowing(
                rect.inside(),
                Help::rows(tags_enabled, theme),
                Style::plain(),
                Wrap::Words,
                at,
            ),
        ]
    }

    pub fn key(&mut self, key: KeyEvent) -> (r: Vec<Action>)
        ensures
            *final(self) == (Help { scroll: scrolled(old(self).scroll, key.code) }),
            answered(closes(key.code), r@),
    {
        self.scroll = scroll_by_key(self.scroll, key.code);
        if key.code == KeyCode::Esc || key.code == KeyCode::Char('q') {
            only(Action::CloseModal)
        } else {
            nothing()
        }
    }

    pub fn mouse(&mut self, event: MouseEvent) -> (r: Vec<Action>)
        ensures
            *final(self) == (Help { scroll: wheeled(old(self).scroll, event.kind) }),
            answered(event.kind == MouseKind::Down, r@),
    {
        self.scroll = scroll_by_wheel(self.scroll, event.kind);
        if event.kind == MouseKind::Down {
            only(Action::CloseModal)
        } else {
            nothing()
        }
    }

    pub fn draw(&mut self, area: Rect, tags_enabled: bool, theme: &Theme) -> (r: Scene)
        requires
            area.in_range(),
        ensures
            *final(self) == old(self).placed(area, tags_enabled, *theme),
            r@ == old(self).scene(area, tags_enabled, *theme),
    {
        let lines = help_lines(&split_lines(HELP), tags_enabled, theme);
        let wide: u16 = min16(78, area.width.saturating_sub(2)).saturating_sub(2);
        let total: u16 = clamp16(count_wrapped(&lines, wide));
        let rect = centered(area, 78, total.saturating_add(2));
        let visible: u16 = rect.height.saturating_sub(2);
        self.scroll = min16(self.scroll, total.saturating_sub(visible));
        let first: u16 = min16(self.scroll.saturating_add(1), total);
        let last: u16 = min16(self.scroll.saturating_add(visible), total);
        let title = cat7(
            " help · ",
            decimal(first as usize).as_str(),
            "–",
            decimal(last as usize).as_str(),
            "/",
            decimal(total as usize).as_str(),
            " ",
        );
        let mut scene = Scene::new();
        scene.clear(rect);
        scene.frame(rect, title.as_str());
        scene.flow(rect.inner(), lines, Style::plain(), Wrap::Words, self.scroll);
        scene
    }
}

// ---- messages ----------------------------------------------------------------

/// A message. Closing it may lead back to where it came from.
#[derive(Debug)]
pub struct Message {
    pub title: String,
    pub lines: Vec<String>,
    pub scroll: u16,
    pub return_to: Option<Box<Modal>>,
}

pub ghost struct MessageView {
    pub title: Seq<char>,
    pub lines: Seq<Seq<char>>,
    pub scroll: u16,
    pub return_to: Option<Box<Modal>>,
}

impl View for Message {
    type V = MessageView;

    open spec fn view(&self) -> MessageView {
        MessageView {
            title: self.title@,
            lines: texts(self.lines@),
            scroll: self.scroll,
            return_to: self.return_to,
        }
    }
}

/// The lines of a message as they are drawn.
pub open spec fn message_views(lines: Seq<Seq<char>>, repaired: bool, theme: Theme) -> Seq<
    Seq<SpanView>,
> {
    lines.map_values(
        |line: Seq<char>|
            if repaired {
                result_view(line, theme)
            } else {
                seq![plain_run(line)]
            },
    )
}

fn message_lines(lines: &Vec<String>, repaired: bool, theme: &Theme) -> (r: Lines)
    ensures
        r@ == message_views(texts(lines@), repaired, *theme),
{
    let ghost all = message_views(texts(lines@), repaired, *theme);
    let mut out = Lines::new();
    let mut i: usize = 0;
    while i < lines.len()
        invariant
            i <= lines.len(),
            all == message_views(texts(lines@), repaired, *theme),
            out@ == all.take(i as int),
        decreases lines.len() - i,
    {
        let line = if repaired {
            repair_result_line(lines[i].as_str(), theme)
        } else {
            Line::raw(lines[i].as_str())
        };
        assert(line@ == all[i as int]);
        out.push(line);
        i = i + 1;
        assert(out@ =~= all.take(i as int));
    }
    assert(out@ =~= all);
    out
}

impl MessageView {
    /// The message tells the results of a repair.
    pub open spec fn is_repair(self) -> bool {
        trimmed(self.title) == "Repair results"@
    }

    /// Enter closes the results of a repair, where nothing is held with it.
    pub open spec fn closes(self, key: KeyEvent) -> bool {
        closes(key.code) || (self.is_repair() && self.return_to is None && key.is_plain(
            KeyCode::Enter,
        ))
    }

    pub open spec fn keyed(self, key: KeyEvent) -> MessageView {
        MessageView { scroll: scrolled(self.scroll, key.code), ..self }
    }

    pub open spec fn moused(self, event: MouseEvent) -> MessageView {
        MessageView { scroll: wheeled(self.scroll, event.kind), ..self }
    }

    pub open spec fn hint_list(self) -> Seq<Hint> {
        if self.return_to is Some {
            seq![("↑↓", "scroll"), ("PgUp/PgDn", "page"), ("Esc", "back to selection")]
        } else if self.is_repair() {
            seq![("↑↓", "scroll"), ("PgUp/PgDn", "page"), ("Enter/Esc", "close")]
        } else {
            seq![("↑↓", "scroll"), ("PgUp/PgDn", "page"), ("Esc", "close")]
        }
    }

    /// What is said below the message.
    pub open spec fn ending(self) -> Seq<char> {
        if self.return_to is Some {
            "Esc returns to your selection; fix the error and apply again."@
        } else if self.is_repair() {
            "↑↓ scroll · PgUp/PgDn page · Enter/Esc close"@
        } else {
            "↑↓ scroll · PgUp/PgDn page · Esc close"@
        }
    }

    pub open spec fn rows(self, theme: Theme) -> Seq<Seq<SpanView>> {
        message_views(self.lines, self.is_repair(), theme).push(seq![plain_run(""@)]).push(
            seq![run(self.ending(), theme.dim())],
        )
    }

    pub open spec fn wanted_width(self, area: Rect) -> int {
        if self.is_repair() {
            spec_min(monus(area.width as int, 8), 112)
        } else {
            84
        }
    }

    /// The rows that the message takes in an area.
    pub open spec fn total(self, area: Rect, theme: Theme) -> int {
        let wide = monus(spec_min(self.wanted_width(area), monus(area.width as int, 2)), 2);
        spec_min(
            wrapped_rows(contents(self.rows(theme)), spec_max(wide, 1) as u16) as int,
            65535,
        )
    }

    pub open spec fn rect_in(self, area: Rect, total: int) -> Rect {
        let height = if self.is_repair() {
            spec_min(spec_max(plus16(total, 2), 16), monus(area.height as int, 4))
        } else {
            spec_min(plus16(total, 2), monus(area.height as int, 2))
        };
        middle_of(area, self.wanted_width(area), height)
    }

    pub open spec fn placed(self, area: Rect, theme: Theme) -> MessageView {
        let total = self.total(area, theme);
        let visible = monus(self.rect_in(area, total).height as int, 2);
        MessageView {
            scroll: spec_min(self.scroll as int, monus(total, visible)) as u16,
            ..self
        }
    }

    pub open spec fn scene(self, area: Rect, theme: Theme) -> Seq<DrawView> {
        let rect = self.rect_in(area, self.total(area, theme));
        seq![
            DrawView::Clear(rect),
            framed(rect, " "@ + trimmed(self.title) + " "@),
            flowing(
                rect.inside(),
                self.rows(theme),
                Style::plain(),
                Wrap::Words,
                self.placed(area, theme).scroll,
            ),
        ]
    }
}

impl Message {
    pub fn new(title: &str, lines: Vec<String>) -> (r: Message)
        ensures
            r@ == (MessageView { title: title@, lines: texts(lines@), scroll: 0, return_to: None }),
            r.lines == lines,
    {
        Message { title: title.to_owned(), lines, scroll: 0, return_to: None }
    }

    fn is_repair(&self) -> (r: bool)
        ensures
            r == self@.is_repair(),
    {
        same_text(trim(self.title.as_str()).as_str(), "Repair results")
    }

    pub fn hints(&self) -> (r: Vec<Hint>)
        ensures
            r@ == self@.hint_list(),
    {
        if self.return_to.is_some() {
            vec![("↑↓", "scroll"), ("PgUp/PgDn", "page"), ("Esc", "back to selection")]
        } else if self.is_repair() {
            vec![("↑↓", "scroll"), ("PgUp/PgDn", "page"), ("Enter/Esc", "close")]
        } else {
            vec![("↑↓", "scroll"), ("PgUp/PgDn", "page"), ("Esc", "close")]
        }
    }

    pub fn key(&mut self, key: KeyEvent) -> (r: Vec<Action>)
        ensures
            final(self)@ == old(self)@.keyed(key),
            answered(old(self)@.closes(key), r@),
    {
        let repaired = self.is_repair() && self.return_to.is_none();
        self.scroll = scroll_by_key(self.scroll, key.code);
        if key.code == KeyCode::Esc || key.code == KeyCode::Char('q') || (repaired && key.code
            == KeyCode::Enter && crate::keymap::plain(key)) {
            only(Action::CloseModal)
        } else {
            nothing()
        }
    }

    pub fn mouse(&mut self, event: MouseEvent) -> (r: Vec<Action>)
        ensures
            final(self)@ == old(self)@.moused(event),
            answered(event.kind == MouseKind::Down, r@),
    {
        self.scroll = scroll_by_wheel(self.scroll, event.kind);
        if event.kind == MouseKind::Down {
            only(Action::CloseModal)
        } else {
            nothing()
        }
    }

    fn rows(&self, theme: &Theme) -> (r: Lines)
        ensures
            r@ == self@.rows(*theme),
    {
        let repaired = self.is_repair();
        let mut lines = message_lines(&self.lines, repaired, theme);
        let ending = if self.return_to.is_some() {
            "Esc returns to your selection; fix the error and apply again."
        } else if repaired {
            "↑↓ scroll · PgUp/PgDn page · Enter/Esc close"
        } else {
            "↑↓ scroll · PgUp/PgDn page · Esc close"
        };
        lines.push(Line::raw(""));
        lines.push(Line::styled(ending, theme.dim()));
        lines
    }

    #[verifier::rlimit(50)]
    pub fn draw(&mut self, area: Rect, theme: &Theme) -> (r: Scene)
        requires
            area.in_range(),
        ensures
            final(self)@ == old(self)@.placed(area, *theme),
            r@ == old(self)@.scene(area, *theme),
    {
        let repaired = self.is_repair();
        let lines = self.rows(theme);
        let wanted: u16 = if repaired {
            min16(area.width.saturating_sub(8), 112)
        } else {
            84
        };
        let wide: u16 = min16(wanted, area.width.saturating_sub(2)).saturating_sub(2);
        let total: u16 = clamp16(
            count_wrapped(
                &lines,
                if wide < 1 {
                    1
                } else {
                    wide
                },
            ),
        );
        let full: u16 = total.saturating_add(2);
        let height: u16 = if repaired {
            min16(
                if full < 16 {
                    16
                } else {
                    full
                },
                area.height.saturating_sub(4),
            )
        } else {
            min16(full, area.height.saturating_sub(2))
        };
        let rect = centered(area, wanted, height);
        let visible: u16 = rect.height.saturating_sub(2);
        self.scroll = min16(self.scroll, total.saturating_sub(visible));
        let title = cat3(" ", trim(self.title.as_str()).as_str(), " ");
        let mut scene = Scene::new();
        scene.clear(rect);
        scene.frame(rect, title.as_str());
        scene.flow(rect.inner(), lines, Style::plain(), Wrap::Words, self.scroll);
        scene
    }
}

// ---- laws --------------------------------------------------------------------

/// Only the results of a repair close with Enter; every message closes with Esc.
pub proof fn lemma_enter_closes_only_repairs(message: MessageView, key: KeyEvent)
    ensures
        key.code == KeyCode::Enter && message.closes(key) ==> message.is_repair()
            && message.return_to is None && !key.modifiers.commands(),
        key.code == KeyCode::Esc ==> message.closes(key),
{
}

/// What is drawn is never scrolled beyond its end, and drawing it again changes nothing.
pub proof fn lemma_drawing_settles_the_scroll(
    message: MessageView,
    help: Help,
    area: Rect,
    tags_enabled: bool,
    theme: Theme,
)
    ensures
        message.placed(area, theme).placed(area, theme) == message.placed(area, theme),
        help.placed(area, tags_enabled, theme).placed(area, tags_enabled, theme) == help.placed(
            area,
            tags_enabled,
            theme,
        ),
        message.placed(area, theme).scroll <= message.scroll,
        help.placed(area, tags_enabled, theme).scroll <= help.scroll,
{
}

/// The help shows every line of its text, in order, but where tags are hidden those that
/// speak of tags.
pub proof fn lemma_the_help_shows_every_line(
    lines: Seq<Seq<char>>,
    tags_enabled: bool,
    theme: Theme,
)
    ensures
        help_views(lines, tags_enabled, theme) == lines.filter(
            |line: Seq<char>|
                tags_enabled || !(has_part(lower(line), "tag"@) || has_prefix(line, "  t "@)),
        ).map_values(|line: Seq<char>| help_view(line, theme)),
        tags_enabled ==> help_views(lines, tags_enabled, theme).len() == lines.len(),
    decreases lines.len(),
{
    reveal(Seq::filter);
    let kept = |line: Seq<char>|
        tags_enabled || !(has_part(lower(line), "tag"@) || has_prefix(line, "  t "@));
    let drawn = |line: Seq<char>| help_view(line, theme);
    if lines.len() == 0 {
        assert(lines.filter(kept).map_values(drawn) =~= Seq::<Seq<SpanView>>::empty());
    } else {
        lemma_the_help_shows_every_line(lines.drop_last(), tags_enabled, theme);
        let rest = lines.drop_last().filter(kept);
        if kept(lines.last()) {
            assert(rest.push(lines.last()).map_values(drawn) =~= rest.map_values(drawn).push(
                drawn(lines.last()),
            ));
        }
    }
}

/// A line of the help is drawn with all of its text: a heading in one piece, the keys apart
/// from what they do.
pub proof fn lemma_a_help_line_keeps_its_text(line: Seq<char>, theme: Theme)
    ensures
        ({
            let spans = help_view(line, theme);
            &&& spans.len() == 1 || spans.len() == 2
            &&& spans.len() == 1 ==> spans[0].content == line
            &&& spans.len() == 2 ==> spans[0].content + spans[1].content == line
                && spans[0].style == theme.key_hint() && has_prefix(line, "  "@)
            &&& line.len() > 0 && !has_prefix(line, "  "@) ==> spans[0].style == theme.bold().fg(
                theme.accent,
            )
        }),
{
    match boundary_from(line, 18, 0) {
        Some(k) => {
            lemma_boundary_is_inside(line, 18, 0);
            assert(line.take(k) + line.skip(k) =~= line);
        },
        None => {},
    }
}

proof fn lemma_boundary_is_inside(s: Seq<char>, n: int, k: int)
    requires
        0 <= k <= s.len() + 1,
    ensures
        boundary_from(s, n, k) is Some ==> 0 <= boundary_from(s, n, k)->0 <= s.len(),
    decreases s.len() + 1 - k,
{
    if k <= s.len() {
        lemma_boundary_is_inside(s, n, k + 1);
    }
}

/// What was repaired, what failed and what stayed is told apart by its color.
pub proof fn lemma_results_are_told_apart(status: Seq<char>, theme: Theme)
    ensures
        status == "REPAIRED"@ ==> status_of(status, theme) is Some && status_of(status, theme)->Some_0.0
            == theme.ok().bolder(),
        status == "FAILED"@ ==> status_of(status, theme) is Some && status_of(status, theme)->Some_0.0
            == theme.err().bolder(),
        status == "UNCHANGED"@ ==> status_of(status, theme) is Some && status_of(
            status,
            theme,
        )->Some_0.0 == theme.description().bolder(),
        status_of(status, theme) is None <==> status != "REPAIRED"@ && status != "FAILED"@ && status
            != "UNCHANGED"@,
{
    reveal_strlit("REPAIRED");
    reveal_strlit("FAILED");
    reveal_strlit("UNCHANGED");
    assert("REPAIRED"@.len() == 8);
    assert("FAILED"@.len() == 6);
    assert("UNCHANGED"@.len() == 9);
}

/// The details of a result that failed are drawn as an error, and of no other.
pub proof fn lemma_failures_are_drawn_as_errors(rest: Seq<char>, failed: bool, theme: Theme)
    requires
        cut(rest, " → "@) is None,
        cut(rest, " · "@) is Some,
    ensures
        ({
            let spans = item_views(rest, failed, theme);
            &&& spans.len() == 3
            &&& spans[0].content == cut(rest, " · "@)->Some_0.0
            &&& spans[1].content == " · "@
            &&& spans[2].content == cut(rest, " · "@)->Some_0.1
            &&& failed ==> spans[2].style == theme.err()
            &&& !failed ==> spans[2].style == theme.description()
        }),
{
}

/// A result with a source and a place shows both, with the arrow between them.
pub proof fn lemma_a_result_shows_where(rest: Seq<char>, failed: bool, theme: Theme)
    requires
        cut(rest, " → "@) is Some,
    ensures
        ({
            let spans = item_views(rest, failed, theme);
            let target = cut(rest, " → "@)->Some_0.1;
            &&& spans.len() >= 3
            &&& spans[0].content == cut(rest, " → "@)->Some_0.0
            &&& spans[1].content == " → "@
            &&& cut(target, " · "@) is None ==> spans.len() == 3 && spans[2].content == target
            &&& cut(target, " · "@) is Some ==> {
                &&& spans.len() == 5
                &&& spans[2].content == cut(target, " · "@)->Some_0.0
                &&& spans[3].content == " · "@
                &&& spans[4].content == cut(target, " · "@)->Some_0.1
                &&& failed ==> spans[4].style == theme.err()
                &&& !failed ==> spans[4].style == theme.description()
            }
        }),
{
}

/// Of the counts of a repair the failures stand out as errors and the repairs as successes,
/// where there are any.
pub proof fn lemma_counts_stand_out(part: Seq<char>, theme: Theme, count: usize)
    requires
        first_word(part) is Some,
        parsed(first_word(part)->0) == Some(count),
    ensures
        count == 0 ==> count_style(part, theme) == theme.description(),
        count > 0 && has_suffix(part, " repaired"@) ==> count_style(part, theme) == theme.ok(),
        count > 0 && has_suffix(part, " failed"@) && !has_suffix(part, " repaired"@)
            ==> count_style(part, theme) == theme.err(),
{
}

/// No faults left is good, any left are not.
pub proof fn lemma_remaining_faults_are_drawn(line: Seq<char>, theme: Theme)
    requires
        !is_summary(line),
        has_suffix(line, " faults remain after a fresh scan"@),
    ensures
        result_view(line, theme).len() == 1,
        result_view(line, theme)[0].content == line,
        has_prefix(line, "0 "@) ==> result_view(line, theme)[0].style == theme.ok(),
        !has_prefix(line, "0 "@) ==> result_view(line, theme)[0].style == theme.err(),
{
}

/// Every line of a message is drawn, in order, and below them how it is left.
pub proof fn lemma_a_message_shows_every_line(message: MessageView, theme: Theme, i: int)
    requires
        0 <= i < message.lines.len(),
    ensures
        ({
            let rows = message.rows(theme);
            &&& rows.len() == message.lines.len() + 2
            &&& trimmed(message.title) != "Repair results"@ ==> rows[i].len() == 1
                && rows[i][0].content == message.lines[i]
            &&& rows.last().len() == 1
            &&& message.return_to is Some ==> rows.last()[0].content
                == "Esc returns to your selection; fix the error and apply again."@
            &&& message.return_to is None && trimmed(message.title) != "Repair results"@
                ==> rows.last()[0].content == "↑↓ scroll · PgUp/PgDn page · Esc close"@
        }),
{
}

/// A character takes as many bytes as it takes in UTF-8.
pub proof fn lemma_how_many_bytes_a_character_takes(c: char)
    ensures
        (c as u32) < 0x80 ==> bytes_of(c) == 1,
        0x80 <= (c as u32) < 0x800 ==> bytes_of(c) == 2,
        0x800 <= (c as u32) < 0x10000 ==> bytes_of(c) == 3,
        0x10000 <= (c as u32) ==> bytes_of(c) == 4,
{
}

/// The help is 78 columns wide and a message 84, as high as their rows where the screen has
/// them; the results of a repair take at least 16.
pub proof fn lemma_how_large_a_text_is(message: MessageView, area: Rect, total: int)
    requires
        area.in_range(),
        area.width >= 120,
        area.height >= 24,
        0 <= total <= area.height - 6,
    ensures
        Help::rect_in(area, total).width == 78,
        Help::rect_in(area, total).height == total + 2,
        trimmed(message.title) != "Repair results"@ ==> message.rect_in(area, total).width == 84
            && message.rect_in(area, total).height == total + 2,
        trimmed(message.title) == "Repair results"@ ==> message.rect_in(area, total).width == 112
            && message.rect_in(area, total).height == (if total + 2 >= 16 {
            total + 2
        } else {
            16
        }),
{
}

} // verus!
