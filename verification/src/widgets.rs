//! The state of lists and text fields.

use crate::geometry::{monus, spec_max, spec_min, Rect};
use crate::keymap::{KeyCode, KeyEvent, KeyModifiers};
use crate::measure::{clusters, count_fitting, fitting, graphemes, together};
use crate::text::{chars_of, string_of};
use vstd::prelude::*;

verus! {

/// The frames of the sign that something is going on.
pub const SPINNER_FRAMES: usize = 10;

/// One frame of the sign that something is going on.
#[verifier::allow_in_spec]
pub fn spinner(frame: usize) -> &'static str
    returns
        (match frame {
            0 => "⠋",
            1 => "⠙",
            2 => "⠹",
            3 => "⠸",
            4 => "⠼",
            5 => "⠴",
            6 => "⠦",
            7 => "⠧",
            8 => "⠇",
            _ => "⠏",
        }),
{
    match frame {
        0 => "⠋",
        1 => "⠙",
        2 => "⠹",
        3 => "⠸",
        4 => "⠼",
        5 => "⠴",
        6 => "⠦",
        7 => "⠧",
        8 => "⠇",
        _ => "⠏",
    }
}

/// A rectangle in the middle of `area`, no larger than fits with a margin of one cell.
pub open spec fn middle_of(area: Rect, width: int, height: int) -> Rect {
    let w = spec_max(spec_min(width, monus(area.width as int, 2)), 1);
    let h = spec_max(spec_min(height, monus(area.height as int, 2)), 1);
    Rect::at(
        area.x + monus(area.width as int, w) / 2,
        area.y + monus(area.height as int, h) / 2,
        w,
        h,
    )
}

/// The middle of a screen area. The area lies in the range of coordinates.
pub fn centered(area: Rect, width: u16, height: u16) -> (r: Rect)
    requires
        area.in_range(),
    ensures
        r == middle_of(area, width as int, height as int),
        r.in_range(),
{
    let limit_w: u16 = area.width.saturating_sub(2);
    let limit_h: u16 = area.height.saturating_sub(2);
    let mut w: u16 = if width <= limit_w {
        width
    } else {
        limit_w
    };
    if w < 1 {
        w = 1;
    }
    let mut h: u16 = if height <= limit_h {
        height
    } else {
        limit_h
    };
    if h < 1 {
        h = 1;
    }
    Rect::new(
        area.x + area.width.saturating_sub(w) / 2,
        area.y + area.height.saturating_sub(h) / 2,
        w,
        h,
    )
}

/// What is centred in an area that is not empty lies in it.
pub proof fn lemma_middle_within(area: Rect, width: int, height: int)
    requires
        area.in_range(),
        area.width > 0,
        area.height > 0,
        0 <= width,
        0 <= height,
    ensures
        middle_of(area, width, height).within(area),
{
}

// ---- lists -------------------------------------------------------------------

/// Which row of a list is selected, and where its rows are on the screen.
#[derive(Debug, Clone, Copy, PartialEq, Eq, Structural)]
pub struct ListNav {
    pub selected: Option<usize>,
    /// The first row that is on the screen.
    pub offset: usize,
    pub rows: Rect,
    /// The height of a row.
    pub item_height: u16,
}

/// `at` moved by `delta` among `len` rows.
pub open spec fn moved(at: Option<usize>, delta: int, len: int) -> Option<usize> {
    if len == 0 {
        None
    } else {
        let from = match at {
            Some(i) => i as int,
            None => 0,
        };
        Some(spec_max(0, spec_min(from + delta, len - 1)) as usize)
    }
}

/// `at` among `len` rows: the first where none was selected, the last where it is beyond.
pub open spec fn clamped(at: Option<usize>, len: int) -> Option<usize> {
    if len == 0 {
        None
    } else {
        match at {
            Some(i) => Some(spec_min(i as int, len - 1) as usize),
            None => Some(0),
        }
    }
}

/// The first of `len` rows.
pub open spec fn first_of(len: int) -> Option<usize> {
    if len > 0 {
        Some(0)
    } else {
        None
    }
}

/// The first of `len` rows that is shown where there is room for `room` of them: as before,
/// but for what it takes to show the selected row.
pub open spec fn first_shown(selected: Option<usize>, offset: int, len: int, room: int) -> int {
    let before = spec_min(offset, len - 1);
    match selected {
        Some(at) => if at < before {
            at as int
        } else if at >= before + room {
            at + 1 - room
        } else {
            before
        },
        None => before,
    }
}

impl ListNav {
    /// The list once `len` rows of one line each were drawn into its rectangle. Nothing
    /// beyond the rows stays selected, and the window follows the selection.
    pub open spec fn drawn(self, len: int) -> ListNav {
        if self.rows.width == 0 || self.rows.height == 0 {
            self
        } else if len == 0 {
            ListNav { selected: None, offset: 0, ..self }
        } else {
            let selected = match self.selected {
                Some(at) => Some(spec_min(at as int, len - 1) as usize),
                None => None,
            };
            ListNav {
                selected,
                offset: first_shown(
                    selected,
                    self.offset as int,
                    len,
                    self.rows.height as int,
                ) as usize,
                ..self
            }
        }
    }

    /// Moves the window of the list to what is drawn now.
    pub fn show(&mut self, len: usize)
        ensures
            *final(self) == old(self).drawn(len as int),
    {
        if self.rows.width == 0 || self.rows.height == 0 {
            return;
        }
        if len == 0 {
            self.selected = None;
            self.offset = 0;
            return;
        }
        let room: usize = self.rows.height as usize;
        let before: usize = if self.offset < len {
            self.offset
        } else {
            len - 1
        };
        match self.selected {
            Some(at) => {
                let at: usize = if at < len {
                    at
                } else {
                    len - 1
                };
                self.selected = Some(at);
                self.offset = if at < before {
                    at
                } else if at - before >= room {
                    at + 1 - room
                } else {
                    before
                };
            },
            None => {
                self.offset = before;
            },
        }
    }

    #[verifier::allow_in_spec]
    pub fn empty() -> ListNav
        returns
            (ListNav { selected: None, offset: 0, rows: Rect::zero(), item_height: 1 }),
    {
        ListNav { selected: None, offset: 0, rows: Rect::zero(), item_height: 1 }
    }

    #[verifier::allow_in_spec]
    pub fn selected(&self) -> Option<usize>
        returns
            self.selected,
    {
        self.selected
    }

    pub fn select(&mut self, at: Option<usize>)
        ensures
            *final(self) == (ListNav { selected: at, ..*old(self) }),
    {
        self.selected = at;
    }

    pub fn first(&mut self, len: usize)
        ensures
            *final(self) == (ListNav { selected: first_of(len as int), ..*old(self) }),
    {
        self.selected = if len > 0 {
            Some(0)
        } else {
            None
        };
    }

    pub fn last(&mut self, len: usize)
        ensures
            *final(self) == (ListNav {
                selected: if len > 0 {
                    Some((len - 1) as usize)
                } else {
                    None
                },
                ..*old(self)
            }),
    {
        self.selected = if len > 0 {
            Some(len - 1)
        } else {
            None
        };
    }

    pub fn clamp(&mut self, len: usize)
        ensures
            *final(self) == (ListNav { selected: clamped(old(self).selected, len as int), ..*old(self) }),
    {
        self.selected = if len == 0 {
            None
        } else {
            match self.selected {
                Some(i) => if i < len {
                    Some(i)
                } else {
                    Some(len - 1)
                },
                None => Some(0),
            }
        };
    }

    pub fn move_by(&mut self, delta: i32, len: usize)
        ensures
            *final(self) == (ListNav {
                selected: moved(old(self).selected, delta as int, len as int),
                ..*old(self)
            }),
    {
        if len == 0 {
            self.selected = None;
            return;
        }
        let from: usize = match self.selected {
            Some(i) => i,
            None => 0,
        };
        let to: usize = if delta >= 0 {
            let step: usize = delta as usize;
            if from > len - 1 || step > len - 1 - from {
                len - 1
            } else {
                from + step
            }
        } else {
            let step: usize = (-(delta as i64)) as usize;
            let back: usize = if step >= from {
                0
            } else {
                from - step
            };
            if back > len - 1 {
                len - 1
            } else {
                back
            }
        };
        self.selected = Some(to);
    }

    /// The row of the list at a row of the screen.
    pub open spec fn hit(self, row: int, len: int) -> Option<usize> {
        if self.item_height > 0 && self.rows.y <= row < self.rows.end_y() {
            let at = self.offset + (row - self.rows.y) / (self.item_height as int);
            if at < len {
                Some(at as usize)
            } else {
                None
            }
        } else {
            None
        }
    }

    pub fn row_at(&self, row: u16, len: usize) -> (r: Option<usize>)
        ensures
            r == self.hit(row as int, len as int),
            r is Some ==> r->0 < len,
    {
        if self.item_height == 0 || row < self.rows.y || row >= self.rows.bottom() {
            return None;
        }
        let down: usize = ((row - self.rows.y) / self.item_height) as usize;
        proof {
            assert((row - self.rows.y) as u16 / self.item_height == (row - self.rows.y) / (
            self.item_height as int));
        }
        if self.offset < len && down < len - self.offset {
            Some(self.offset + down)
        } else {
            None
        }
    }

    /// Selects the row at a row of the screen. Says which it is, and whether the press
    /// completes a double click.
    pub fn click(&mut self, row: u16, len: usize, repeated: bool) -> (r: Option<(usize, bool)>)
        ensures
            match old(self).hit(row as int, len as int) {
                Some(at) => r == Some((at, repeated)) && at < len && *final(self) == (ListNav {
                    selected: Some(at),
                    ..*old(self)
                }),
                None => r is None && *final(self) == *old(self),
            },
    {
        match self.row_at(row, len) {
            Some(at) => {
                self.selected = Some(at);
                Some((at, repeated))
            },
            None => None,
        }
    }
}

/// The selection stays among the rows, wherever it moves.
pub proof fn lemma_selection_in_range(at: Option<usize>, delta: int, len: int)
    requires
        0 <= len <= usize::MAX,
    ensures
        len > 0 ==> moved(at, delta, len) is Some && moved(at, delta, len)->0 < len,
        len > 0 ==> clamped(at, len) is Some && clamped(at, len)->0 < len,
        len == 0 ==> moved(at, delta, len) is None && clamped(at, len) is None,
{
}

/// The selected row is among those that are shown, and drawing the same list again moves
/// nothing.
pub proof fn lemma_selected_row_is_shown(list: ListNav, len: int)
    requires
        0 < len <= usize::MAX,
        list.rows.width > 0,
        list.rows.height > 0,
    ensures
        list.drawn(len).offset < len,
        list.drawn(len).selected is Some == list.selected is Some,
        list.selected is Some ==> list.drawn(len).offset <= list.drawn(len).selected->0
            < list.drawn(len).offset + list.rows.height,
        list.drawn(len).drawn(len) == list.drawn(len),
{
}

/// A press on a row that is shown acts on that row: the `down`-th row of the rectangle is the
/// `down`-th behind the first that is shown.
pub proof fn lemma_a_press_hits_what_is_shown(list: ListNav, len: int, down: int)
    requires
        0 < len <= usize::MAX,
        list.rows.width > 0,
        list.rows.in_range(),
        list.item_height == 1,
        0 <= down < list.rows.height,
    ensures
        list.drawn(len).offset + down < len ==> list.drawn(len).hit(list.rows.y + down, len)
            == Some((list.drawn(len).offset + down) as usize),
        list.drawn(len).offset + down >= len ==> list.drawn(len).hit(list.rows.y + down, len)
            is None,
{
}

// ---- text fields -------------------------------------------------------------

/// A line of text that is being edited.
#[derive(Debug)]
pub struct Input {
    pub text: Vec<char>,
    /// In front of which character the next one goes.
    pub cursor: usize,
    /// Where the field is on the screen.
    pub field: Rect,
}

#[verifier::ext_equal]
pub ghost struct InputView {
    pub text: Seq<char>,
    pub cursor: int,
    pub field: Rect,
}

impl View for Input {
    type V = InputView;

    open spec fn view(&self) -> InputView {
        InputView { text: self.text@, cursor: self.cursor as int, field: self.field }
    }
}

/// An empty field.
pub open spec fn empty_input() -> InputView {
    InputView { text: Seq::empty(), cursor: 0, field: Rect::zero() }
}

/// A field with a text in it and the cursor behind it.
pub open spec fn input_with(text: Seq<char>) -> InputView {
    InputView { text, cursor: text.len() as int, field: Rect::zero() }
}

/// Characters that a line of text cannot hold.
pub open spec fn breaks_line(c: char) -> bool {
    c == '\n' || c == '\r'
}

pub open spec fn is_multiline(text: Seq<char>) -> bool {
    exists|i: int| 0 <= i < text.len() && breaks_line(#[trigger] text[i])
}

impl InputView {
    pub open spec fn valid(self) -> bool {
        0 <= self.cursor <= self.text.len()
    }

    pub open spec fn typed(self, c: char) -> InputView {
        InputView { text: self.text.insert(self.cursor, c), cursor: self.cursor + 1, ..self }
    }

    /// The text after `pasted` went in at the cursor.
    pub open spec fn with_pasted(self, pasted: Seq<char>) -> InputView {
        InputView {
            text: self.text.take(self.cursor) + pasted + self.text.skip(self.cursor),
            cursor: self.cursor + pasted.len(),
            ..self
        }
    }

    /// What a key makes of the field.
    pub open spec fn keyed(self, key: KeyEvent) -> InputView {
        let plain = !key.modifiers.commands();
        match key.code {
            KeyCode::Char(c) => if plain {
                self.typed(c)
            } else if key.is_control('u') {
                InputView { text: Seq::empty(), cursor: 0, ..self }
            } else {
                self
            },
            KeyCode::Backspace => if plain && self.cursor > 0 {
                InputView {
                    text: self.text.remove(self.cursor - 1),
                    cursor: self.cursor - 1,
                    ..self
                }
            } else {
                self
            },
            KeyCode::Delete => if plain && self.cursor < self.text.len() {
                InputView { text: self.text.remove(self.cursor), ..self }
            } else {
                self
            },
            KeyCode::Left => if plain && self.cursor > 0 {
                InputView { cursor: self.cursor - 1, ..self }
            } else {
                self
            },
            KeyCode::Right => if plain && self.cursor < self.text.len() {
                InputView { cursor: self.cursor + 1, ..self }
            } else {
                self
            },
            KeyCode::Home => if plain {
                InputView { cursor: 0, ..self }
            } else {
                self
            },
            KeyCode::End => if plain {
                InputView { cursor: self.text.len() as int, ..self }
            } else {
                self
            },
            _ => self,
        }
    }

    /// Whether a key edits the text; one that moves the cursor does not.
    pub open spec fn edits(self, key: KeyEvent) -> bool {
        let plain = !key.modifiers.commands();
        match key.code {
            KeyCode::Char(c) => plain || key.is_control('u'),
            KeyCode::Backspace => plain && self.cursor > 0,
            KeyCode::Delete => plain && self.cursor < self.text.len(),
            _ => false,
        }
    }

    /// The field after a press at a column of the screen: the cursor goes behind the
    /// clusters left of it.
    pub open spec fn clicked(self, column: int) -> InputView {
        let parts = clusters(self.text);
        InputView {
            cursor: spec_min(
                self.text.len() as int,
                together(parts.take(fitting(parts, monus(column, self.field.x as int)))).len() as int,
            ),
            ..self
        }
    }
}

impl Input {
    pub fn empty() -> (r: Input)
        ensures
            r@ == empty_input(),
            r@.valid(),
    {
        let r = Input { text: Vec::new(), cursor: 0, field: Rect::zero() };
        assert(r@.text =~= Seq::empty());
        r
    }

    pub fn with_value(value: &str) -> (r: Input)
        ensures
            r@ == input_with(value@),
            r@.valid(),
    {
        let text = chars_of(value);
        let cursor = text.len();
        Input { text, cursor, field: Rect::zero() }
    }

    pub fn value(&self) -> (r: String)
        ensures
            r@ == self@.text,
    {
        string_of(&self.text)
    }

    pub fn is_empty(&self) -> (r: bool)
        ensures
            r == (self@.text.len() == 0),
    {
        self.text.len() == 0
    }

    /// Takes a key. Whether the text was edited.
    pub fn handle_key(&mut self, key: KeyEvent) -> (r: bool)
        requires
            old(self)@.valid(),
        ensures
            final(self)@ == old(self)@.keyed(key),
            final(self)@.valid(),
            r == old(self)@.edits(key),
    {
        let plain = crate::keymap::plain(key);
        match key.code {
            KeyCode::Char(c) => {
                if plain {
                    self.text.insert(self.cursor, c);
                    let room = self.text.len();
                    assert(self.cursor < room);
                    self.cursor = self.cursor + 1;
                    return true;
                }
                if crate::keymap::control(key, 'u') {
                    self.text.clear();
                    self.cursor = 0;
                    return true;
                }
                false
            },
            KeyCode::Backspace => {
                if plain && self.cursor > 0 {
                    let _ = self.text.remove(self.cursor - 1);
                    self.cursor = self.cursor - 1;
                    return true;
                }
                false
            },
            KeyCode::Delete => {
                if plain && self.cursor < self.text.len() {
                    let _ = self.text.remove(self.cursor);
                    return true;
                }
                false
            },
            KeyCode::Left => {
                if plain && self.cursor > 0 {
                    self.cursor = self.cursor - 1;
                }
                false
            },
            KeyCode::Right => {
                if plain && self.cursor < self.text.len() {
                    self.cursor = self.cursor + 1;
                }
                false
            },
            KeyCode::Home => {
                if plain {
                    self.cursor = 0;
                }
                false
            },
            KeyCode::End => {
                if plain {
                    self.cursor = self.text.len();
                }
                false
            },
            _ => false,
        }
    }

    /// Puts a text in at the cursor. One of several lines is refused: it must not be
    /// able to submit anything.
    pub fn paste(&mut self, pasted: &str) -> (r: Result<bool, &'static str>)
        requires
            old(self)@.valid(),
        ensures
            final(self)@.valid(),
            r is Err == is_multiline(pasted@),
            r is Err ==> final(self)@ == old(self)@ && r->Err_0@ == paste_refused(),
            r is Ok ==> final(self)@ == old(self)@.with_pasted(pasted@) && r->Ok_0 == (pasted@.len()
                > 0),
    {
        let added = chars_of(pasted);
        let mut i: usize = 0;
        while i < added.len()
            invariant
                i <= added.len(),
                added@ == pasted@,
                forall|k: int| 0 <= k < i ==> !breaks_line(#[trigger] pasted@[k]),
                self@ == old(self)@,
                self@.valid(),
            decreases added.len() - i,
        {
            if added[i] == '\n' || added[i] == '\r' {
                assert(breaks_line(pasted@[i as int]));
                return Err("Paste a single line");
            }
            i = i + 1;
        }
        let at = self.cursor;
        let mut text: Vec<char> = Vec::new();
        let mut k: usize = 0;
        while k < at
            invariant
                k <= at <= self.text.len(),
                text@ == self.text@.take(k as int),
            decreases at - k,
        {
            text.push(self.text[k]);
            k = k + 1;
            assert(text@ =~= self.text@.take(k as int));
        }
        let mut j: usize = 0;
        while j < added.len()
            invariant
                j <= added.len(),
                at <= self.text.len(),
                text@ == self.text@.take(at as int) + added@.take(j as int),
            decreases added.len() - j,
        {
            text.push(added[j]);
            j = j + 1;
            assert(text@ =~= self.text@.take(at as int) + added@.take(j as int));
        }
        assert(added@.take(added@.len() as int) =~= added@);
        k = at;
        while k < self.text.len()
            invariant
                at <= k <= self.text.len(),
                text@ == self.text@.take(at as int) + added@ + self.text@.subrange(
                    at as int,
                    k as int,
                ),
            decreases self.text.len() - k,
        {
            text.push(self.text[k]);
            k = k + 1;
            assert(text@ =~= self.text@.take(at as int) + added@ + self.text@.subrange(
                at as int,
                k as int,
            ));
        }
        assert(self.text@.subrange(at as int, self.text@.len() as int) =~= self.text@.skip(
            at as int,
        ));
        let room = text.len();
        assert(at + added.len() <= room);
        self.text = text;
        self.cursor = at + added.len();
        Ok(added.len() > 0)
    }

    /// Puts the cursor where the mouse pressed.
    pub fn click(&mut self, column: u16)
        requires
            old(self)@.valid(),
        ensures
            final(self)@ == old(self)@.clicked(column as int),
            final(self)@.valid(),
    {
        let value = self.value();
        let parts = graphemes(value.as_str());
        let left: usize = column.saturating_sub(self.field.x) as usize;
        let n = count_fitting(&parts, left);
        let before = chars_of(crate::measure::together_first(&parts, n).as_str());
        self.cursor = if before.len() <= self.text.len() {
            before.len()
        } else {
            self.text.len()
        };
    }

    pub fn place(&mut self, field: Rect)
        ensures
            final(self)@ == (InputView { field, ..old(self)@ }),
    {
        self.field = field;
    }
}

/// Why a text of several lines was not taken.
pub open spec fn paste_refused() -> Seq<char> {
    "Paste a single line"@
}

impl Clone for Input {
    fn clone(&self) -> (r: Input)
        ensures
            r@ == self@,
    {
        let mut text: Vec<char> = Vec::new();
        let mut i: usize = 0;
        while i < self.text.len()
            invariant
                i <= self.text.len(),
                text@ == self.text@.take(i as int),
            decreases self.text.len() - i,
        {
            text.push(self.text[i]);
            i = i + 1;
            assert(text@ =~= self.text@.take(i as int));
        }
        assert(text@ =~= self.text@);
        Input { text, cursor: self.cursor, field: self.field }
    }
}

/// No key and no paste takes the cursor out of the text.
pub proof fn lemma_cursor_stays_in_text(input: InputView, key: KeyEvent, pasted: Seq<char>)
    requires
        input.valid(),
    ensures
        input.keyed(key).valid(),
        input.with_pasted(pasted).valid(),
{
}

/// A key that does not edit keeps the text.
pub proof fn lemma_moving_keeps_the_text(input: InputView, key: KeyEvent)
    requires
        input.valid(),
        !input.edits(key),
    ensures
        input.keyed(key).text == input.text,
{
}

/// Deleting backwards takes back what was typed.
pub proof fn lemma_backspace_undoes_typing(input: InputView, c: char)
    requires
        input.valid(),
    ensures
        input.typed(c).keyed(
            KeyEvent { code: KeyCode::Backspace, modifiers: KeyModifiers::none() },
        ) == input,
{
    let after = input.typed(c).keyed(
        KeyEvent { code: KeyCode::Backspace, modifiers: KeyModifiers::none() },
    );
    assert(after.text =~= input.text);
}

/// Typing puts a letter in front of the cursor and nothing else changes: what was left and
/// right of the cursor stays, and the cursor goes behind the letter.
pub proof fn lemma_typing_goes_to_the_cursor(input: InputView, key: KeyEvent, c: char)
    requires
        input.valid(),
        key.code == KeyCode::Char(c),
        !key.modifiers.commands(),
    ensures
        input.keyed(key).text == input.text.take(input.cursor) + seq![c] + input.text.skip(
            input.cursor,
        ),
        input.keyed(key).cursor == input.cursor + 1,
        input.edits(key),
{
    assert(input.keyed(key).text =~= input.text.take(input.cursor) + seq![c] + input.text.skip(
        input.cursor,
    ));
}

/// A paste goes to the cursor as one piece, and typing it letter by letter does the same.
pub proof fn lemma_a_paste_is_typed(input: InputView, pasted: Seq<char>)
    requires
        input.valid(),
    ensures
        input.with_pasted(pasted).text == input.text.take(input.cursor) + pasted + input.text.skip(
            input.cursor,
        ),
        input.with_pasted(pasted).cursor == input.cursor + pasted.len(),
        pasted.len() > 0 ==> input.with_pasted(pasted) == input.with_pasted(
            pasted.drop_last(),
        ).typed(pasted.last()),
{
    if pasted.len() > 0 {
        let before = input.with_pasted(pasted.drop_last());
        assert(input.with_pasted(pasted).text =~= before.typed(pasted.last()).text);
    }
}

/// One key takes away the letter left of the cursor, another the one right of it; at the ends
/// they do nothing. Control and 'u' take away everything.
pub proof fn lemma_letters_are_taken_away(input: InputView, key: KeyEvent)
    requires
        input.valid(),
    ensures
        key.code == KeyCode::Backspace && !key.modifiers.commands() && input.cursor > 0 ==> {
            &&& input.keyed(key).text == input.text.take(input.cursor - 1) + input.text.skip(
                input.cursor,
            )
            &&& input.keyed(key).cursor == input.cursor - 1
        },
        key.code == KeyCode::Backspace && input.cursor == 0 ==> input.keyed(key) == input,
        key.code == KeyCode::Delete && !key.modifiers.commands() && input.cursor < input.text.len()
            ==> {
            &&& input.keyed(key).text == input.text.take(input.cursor) + input.text.skip(
                input.cursor + 1,
            )
            &&& input.keyed(key).cursor == input.cursor
        },
        key.code == KeyCode::Delete && input.cursor == input.text.len() ==> input.keyed(key)
            == input,
        key.code == KeyCode::Char('u') && key.modifiers == KeyModifiers::control()
            ==> input.keyed(key).text.len() == 0 && input.keyed(key).cursor == 0,
        key.code is Char && key.modifiers.commands() && key.code != KeyCode::Char('u')
            ==> input.keyed(key) == input,
{
    if key.code == KeyCode::Backspace && !key.modifiers.commands() && input.cursor > 0 {
        assert(input.keyed(key).text =~= input.text.take(input.cursor - 1) + input.text.skip(
            input.cursor,
        ));
    }
    if key.code == KeyCode::Delete && !key.modifiers.commands() && input.cursor
        < input.text.len() {
        assert(input.keyed(key).text =~= input.text.take(input.cursor) + input.text.skip(
            input.cursor + 1,
        ));
    }
}

/// The arrows move the cursor by one letter and stay in the text; two keys lead to its ends.
pub proof fn lemma_the_cursor_moves(input: InputView, key: KeyEvent)
    requires
        input.valid(),
        !key.modifiers.commands(),
    ensures
        key.code == KeyCode::Left ==> input.keyed(key).cursor == if input.cursor > 0 {
            input.cursor - 1
        } else {
            0
        },
        key.code == KeyCode::Right ==> input.keyed(key).cursor == if input.cursor
            < input.text.len() {
            input.cursor + 1
        } else {
            input.text.len() as int
        },
        key.code == KeyCode::Home ==> input.keyed(key).cursor == 0,
        key.code == KeyCode::End ==> input.keyed(key).cursor == input.text.len(),
        key.code == KeyCode::Left || key.code == KeyCode::Right || key.code == KeyCode::Home
            || key.code == KeyCode::End ==> input.keyed(key).text == input.text && !input.edits(
            key,
        ),
{
}

/// A text of one line has no line break in it.
pub proof fn lemma_lines_are_told_apart(text: Seq<char>, i: int)
    ensures
        0 <= i < text.len() && (text[i] == '\n' || text[i] == '\r') ==> is_multiline(text),
        (forall|k: int|
            0 <= k < text.len() ==> #[trigger] text[k] != '\n' && text[k] != '\r') ==> !is_multiline(
            text,
        ),
{
    if 0 <= i < text.len() && (text[i] == '\n' || text[i] == '\r') {
        assert(breaks_line(text[i]));
    }
}

/// A selection moves by as many rows as it is told to and stops at the first and at the last.
pub proof fn lemma_a_selection_moves(at: usize, delta: int, len: int)
    requires
        at < len <= usize::MAX,
    ensures
        0 <= at + delta < len ==> moved(Some(at), delta, len) == Some((at + delta) as usize),
        at + delta < 0 ==> moved(Some(at), delta, len) == Some(0usize),
        at + delta >= len ==> moved(Some(at), delta, len) == Some((len - 1) as usize),
        clamped(Some(at), len) == Some(at),
        clamped(None, len) == Some(0usize),
        first_of(len) == Some(0usize),
        first_of(0) is None,
{
}

/// What is put in the middle is as large as asked for where there is room for that and a
/// border of one cell, and leaves as much on the one side as on the other.
pub proof fn lemma_the_middle_is_the_middle(area: Rect, width: int, height: int)
    requires
        area.in_range(),
        0 < width,
        0 < height,
        area.width > 2,
        area.height > 2,
    ensures
        ({
            let rect = middle_of(area, width, height);
            let left = rect.x - area.x;
            let right = area.x + area.width - (rect.x + rect.width);
            let above = rect.y - area.y;
            let below = area.y + area.height - (rect.y + rect.height);
            &&& width <= area.width - 2 ==> rect.width == width
            &&& width > area.width - 2 ==> rect.width == area.width - 2
            &&& height <= area.height - 2 ==> rect.height == height
            &&& height > area.height - 2 ==> rect.height == area.height - 2
            &&& 0 <= right - left <= 1
            &&& 0 <= below - above <= 1
        }),
{
}

} // verus!
