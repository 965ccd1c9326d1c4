//! The buttons below a staged selection, and the focus that moves between them and the list.

use crate::geometry::{monus, spec_min, Rect};
use crate::keymap::KeyCode;
use crate::measure::{display_width, fit, fitted, width};
use crate::theme::Theme;
use crate::ui::{button, button_text, plain_run, run, shown, DrawView, Line, Scene, Style};
use vstd::prelude::*;

verus! {

#[derive(Debug, Clone, Copy, PartialEq, Eq, Structural)]
pub enum ChoiceFocus {
    List,
    Apply,
    Cancel,
}

#[derive(Debug, Clone, Copy, PartialEq, Eq, Structural)]
pub enum ChoiceEvent {
    Apply,
    Cancel,
    Moved,
}

impl ChoiceFocus {
    /// What a key makes of the focus, and what it does; nothing where the key belongs to
    /// the list. `at_end` says that the last row is selected.
    pub open spec fn pressed(self, key: KeyCode, at_end: bool) -> Option<(ChoiceFocus, ChoiceEvent)> {
        match (self, key) {
            (ChoiceFocus::List, KeyCode::Tab) => Some((ChoiceFocus::Apply, ChoiceEvent::Moved)),
            (ChoiceFocus::Apply, KeyCode::Tab) => Some((ChoiceFocus::Cancel, ChoiceEvent::Moved)),
            (ChoiceFocus::Cancel, KeyCode::Tab) => Some((ChoiceFocus::List, ChoiceEvent::Moved)),
            (ChoiceFocus::List, KeyCode::BackTab) => Some((ChoiceFocus::Cancel, ChoiceEvent::Moved)),
            (ChoiceFocus::Apply, KeyCode::BackTab) => Some((ChoiceFocus::List, ChoiceEvent::Moved)),
            (ChoiceFocus::Cancel, KeyCode::BackTab) => Some((ChoiceFocus::Apply, ChoiceEvent::Moved)),
            (ChoiceFocus::List, KeyCode::Down) => if at_end {
                Some((ChoiceFocus::Apply, ChoiceEvent::Moved))
            } else {
                None
            },
            (ChoiceFocus::List, _) => None,
            (_, KeyCode::Up) => Some((ChoiceFocus::List, ChoiceEvent::Moved)),
            (ChoiceFocus::Apply, KeyCode::Left) => Some((ChoiceFocus::Cancel, ChoiceEvent::Moved)),
            (ChoiceFocus::Apply, KeyCode::Right) => Some((ChoiceFocus::Cancel, ChoiceEvent::Moved)),
            (ChoiceFocus::Cancel, KeyCode::Left) => Some((ChoiceFocus::Apply, ChoiceEvent::Moved)),
            (ChoiceFocus::Cancel, KeyCode::Right) => Some((ChoiceFocus::Apply, ChoiceEvent::Moved)),
            (ChoiceFocus::Apply, KeyCode::Enter) => Some((self, ChoiceEvent::Apply)),
            (ChoiceFocus::Apply, KeyCode::Char(' ')) => Some((self, ChoiceEvent::Apply)),
            (ChoiceFocus::Cancel, KeyCode::Enter) => Some((self, ChoiceEvent::Cancel)),
            (ChoiceFocus::Cancel, KeyCode::Char(' ')) => Some((self, ChoiceEvent::Cancel)),
            _ => None,
        }
    }

    pub fn key(&mut self, key: KeyCode, at_end: bool) -> (r: Option<ChoiceEvent>)
        ensures
            match old(self).pressed(key, at_end) {
                Some((focus, event)) => *final(self) == focus && r == Some(event),
                None => *final(self) == *old(self) && r is None,
            },
    {
        let next: Option<(ChoiceFocus, ChoiceEvent)> = match *self {
            ChoiceFocus::List => match key {
                KeyCode::Tab => Some((ChoiceFocus::Apply, ChoiceEvent::Moved)),
                KeyCode::BackTab => Some((ChoiceFocus::Cancel, ChoiceEvent::Moved)),
                KeyCode::Down => if at_end {
                    Some((ChoiceFocus::Apply, ChoiceEvent::Moved))
                } else {
                    None
                },
                _ => None,
            },
            ChoiceFocus::Apply => match key {
                KeyCode::Tab | KeyCode::Left | KeyCode::Right => Some(
                    (ChoiceFocus::Cancel, ChoiceEvent::Moved),
                ),
                KeyCode::BackTab | KeyCode::Up => Some((ChoiceFocus::List, ChoiceEvent::Moved)),
                KeyCode::Enter => Some((ChoiceFocus::Apply, ChoiceEvent::Apply)),
                KeyCode::Char(c) => if c == ' ' {
                    Some((ChoiceFocus::Apply, ChoiceEvent::Apply))
                } else {
                    None
                },
                _ => None,
            },
            ChoiceFocus::Cancel => match key {
                KeyCode::Tab | KeyCode::Up => Some((ChoiceFocus::List, ChoiceEvent::Moved)),
                KeyCode::BackTab | KeyCode::Left | KeyCode::Right => Some(
                    (ChoiceFocus::Apply, ChoiceEvent::Moved),
                ),
                KeyCode::Enter => Some((ChoiceFocus::Cancel, ChoiceEvent::Cancel)),
                KeyCode::Char(c) => if c == ' ' {
                    Some((ChoiceFocus::Cancel, ChoiceEvent::Cancel))
                } else {
                    None
                },
                _ => None,
            },
        };
        match next {
            Some((focus, event)) => {
                *self = focus;
                Some(event)
            },
            None => None,
        }
    }
}

/// Tab goes round the list and the buttons, and Shift-Tab goes back the same way.
pub proof fn lemma_tab_goes_round(focus: ChoiceFocus, at_end: bool)
    ensures
        ({
            let next = (focus.pressed(KeyCode::Tab, at_end)->0).0;
            next.pressed(KeyCode::BackTab, at_end) == Some((focus, ChoiceEvent::Moved))
        }),
        ({
            let one = (focus.pressed(KeyCode::Tab, at_end)->0).0;
            let two = (one.pressed(KeyCode::Tab, at_end)->0).0;
            let three = (two.pressed(KeyCode::Tab, at_end)->0).0;
            three == focus && one != focus && two != focus
        }),
{
}

/// Where the two buttons are: at the right end of the last row, the second one behind the
/// first.
pub open spec fn button_rects(area: Rect, apply: Seq<char>, cancel: Seq<char>) -> [Rect; 2] {
    let second = spec_min(display_width(button_text(cancel)) as int, area.width as int);
    let room = monus(area.width as int, second + 1);
    let first = spec_min(display_width(button_text(apply)) as int, room);
    let y = monus(area.end_y(), 1);
    [
        Rect::at(area.end_x() - second - one_gap(room) - first, y, first, one_row(area)),
        Rect::at(area.end_x() - second, y, second, one_row(area)),
    ]
}

pub open spec fn one_gap(room: int) -> int {
    if room > 0 {
        1
    } else {
        0
    }
}

pub open spec fn one_row(area: Rect) -> int {
    if area.height > 0 {
        1
    } else {
        0
    }
}

/// The line above the buttons, or in front of them where there is one row only.
pub open spec fn summary_rect(area: Rect, apply: Rect) -> Rect {
    if area.height >= 2 {
        Rect::at(area.x as int, area.y as int, area.width as int, 1)
    } else {
        Rect::at(
            area.x as int,
            area.y as int,
            monus(apply.x as int, area.x + 1),
            area.height as int,
        )
    }
}

/// The style of a button: the one with the focus stands out, one that does nothing is dim.
pub open spec fn button_style(active: bool, enabled: bool, theme: Theme) -> Style {
    if active {
        theme.selected()
    } else if enabled {
        theme.accent()
    } else {
        theme.dim()
    }
}

pub open spec fn footer_scene(
    area: Rect,
    focus: ChoiceFocus,
    enabled: bool,
    summary: Seq<char>,
    apply: Seq<char>,
    cancel: Seq<char>,
    theme: Theme,
) -> Seq<DrawView> {
    let rects = button_rects(area, apply, cancel);
    let line = summary_rect(area, rects[0]);
    seq![
        shown(line, seq![seq![plain_run(fitted(summary, line.width as int))]], theme.dim()),
        shown(
            rects[0],
            seq![
                seq![
                    run(
                        button_text(apply),
                        button_style(focus == ChoiceFocus::Apply, enabled, theme),
                    ),
                ],
            ],
            Style::plain(),
        ),
        shown(
            rects[1],
            seq![
                seq![
                    run(
                        button_text(cancel),
                        button_style(focus == ChoiceFocus::Cancel, true, theme),
                    ),
                ],
            ],
            Style::plain(),
        ),
    ]
}

fn style_of(active: bool, enabled: bool, theme: &Theme) -> (r: Style)
    ensures
        r == button_style(active, enabled, *theme),
{
    if active {
        theme.selected()
    } else if enabled {
        theme.accent()
    } else {
        theme.dim()
    }
}

/// Draws the summary and the two buttons; says where the buttons are.
#[verifier::rlimit(50)]
pub fn draw_with_labels(
    scene: &mut Scene,
    area: Rect,
    focus: ChoiceFocus,
    enabled: bool,
    summary: &str,
    apply: &str,
    cancel: &str,
    theme: &Theme,
) -> (r: [Rect; 2])
    requires
        area.in_range(),
    ensures
        r == button_rects(area, apply@, cancel@),
        final(scene)@ == old(scene)@ + footer_scene(
            area,
            focus,
            enabled,
            summary@,
            apply@,
            cancel@,
            *theme,
        ),
{
    let apply_style = style_of(focus == ChoiceFocus::Apply, enabled, theme);
    let cancel_style = style_of(focus == ChoiceFocus::Cancel, true, theme);
    let apply_button = button(apply, true, apply_style, apply_style);
    let cancel_button = button(cancel, true, cancel_style, cancel_style);
    let cancel_width = width(cancel_button.content.as_str());
    let apply_width = width(apply_button.content.as_str());
    let second: u16 = if cancel_width < area.width as usize {
        cancel_width as u16
    } else {
        area.width
    };
    let room: u16 = if area.width > second {
        area.width - second - 1
    } else {
        0
    };
    let first: u16 = if apply_width < room as usize {
        apply_width as u16
    } else {
        room
    };
    let gap: u16 = if room > 0 {
        1
    } else {
        0
    };
    let row: u16 = if area.height > 0 {
        1
    } else {
        0
    };
    let y: u16 = area.bottom().saturating_sub(1);
    let at = Rect::new(area.right() - second - gap - first, y, first, row);
    let behind = Rect::new(area.right() - second, y, second, row);
    let line = if area.height >= 2 {
        Rect::new(area.x, area.y, area.width, 1)
    } else {
        let end: u16 = if area.x < 65535 {
            at.x.saturating_sub(area.x + 1)
        } else {
            0
        };
        Rect::new(area.x, area.y, end, area.height)
    };
    let ghost before = scene@;
    scene.note(line, fit(summary, line.width as usize).as_str(), theme.dim());
    scene.line(at, Line::one(apply_button), Style::plain());
    scene.line(behind, Line::one(cancel_button), Style::plain());
    proof {
        let rects = button_rects(area, apply@, cancel@);
        assert(at == rects[0]);
        assert(behind == rects[1]);
        assert(line == summary_rect(area, at));
        assert(scene@ =~= before + footer_scene(
            area,
            focus,
            enabled,
            summary@,
            apply@,
            cancel@,
            *theme,
        ));
    }
    [at, behind]
}

/// The buttons lie in the footer and do not overlap.
pub proof fn lemma_buttons_apart(area: Rect, apply: Seq<char>, cancel: Seq<char>)
    requires
        area.in_range(),
    ensures
        button_rects(area, apply, cancel)[0].within(area),
        button_rects(area, apply, cancel)[1].within(area),
        forall|x: int, y: int|
            !(button_rects(area, apply, cancel)[0].has(x, y) && button_rects(
                area,
                apply,
                cancel,
            )[1].has(x, y)),
{
}

/// Enter and the blank do what the button with the focus says, and nothing while the list has
/// it; no other key does anything but move the focus.
pub proof fn lemma_buttons_do_what_they_say(focus: ChoiceFocus, key: KeyCode, at_end: bool)
    ensures
        ({
            let pushes = key == KeyCode::Enter || key == KeyCode::Char(' ');
            let done = focus.pressed(key, at_end);
            &&& focus == ChoiceFocus::Apply && pushes ==> done == Some(
                (ChoiceFocus::Apply, ChoiceEvent::Apply),
            )
            &&& focus == ChoiceFocus::Cancel && pushes ==> done == Some(
                (ChoiceFocus::Cancel, ChoiceEvent::Cancel),
            )
            &&& focus == ChoiceFocus::List && pushes ==> done is None
            &&& !pushes && done is Some ==> (done->0).1 == ChoiceEvent::Moved
            &&& focus == ChoiceFocus::List && key == KeyCode::Down ==> (done is Some <==> at_end)
            &&& focus == ChoiceFocus::List && key == KeyCode::Down && at_end ==> (done->0).0
                == ChoiceFocus::Apply
            &&& focus != ChoiceFocus::List && key == KeyCode::Up ==> done == Some(
                (ChoiceFocus::List, ChoiceEvent::Moved),
            )
            &&& focus == ChoiceFocus::Apply && (key == KeyCode::Left || key == KeyCode::Right)
                ==> done == Some((ChoiceFocus::Cancel, ChoiceEvent::Moved))
            &&& focus == ChoiceFocus::Cancel && (key == KeyCode::Left || key == KeyCode::Right)
                ==> done == Some((ChoiceFocus::Apply, ChoiceEvent::Moved))
        }),
{
}

/// The buttons are drawn with their labels where they can be pressed, the one with the focus
/// standing out; one that does nothing is dim.
pub proof fn lemma_buttons_are_drawn(
    area: Rect,
    focus: ChoiceFocus,
    enabled: bool,
    summary: Seq<char>,
    apply: Seq<char>,
    cancel: Seq<char>,
    theme: Theme,
)
    ensures
        ({
            let scene = footer_scene(area, focus, enabled, summary, apply, cancel, theme);
            let rects = button_rects(area, apply, cancel);
            let apply_style = if focus == ChoiceFocus::Apply {
                theme.selected()
            } else if enabled {
                theme.accent()
            } else {
                theme.dim()
            };
            let cancel_style = if focus == ChoiceFocus::Cancel {
                theme.selected()
            } else {
                theme.accent()
            };
            &&& scene.len() == 3
            &&& scene[1] == shown(
                rects[0],
                seq![seq![run("[ "@ + apply + " ]"@, apply_style)]],
                Style::plain(),
            )
            &&& scene[2] == shown(
                rects[1],
                seq![seq![run("[ "@ + cancel + " ]"@, cancel_style)]],
                Style::plain(),
            )
            &&& scene[0] is Text
            &&& scene[0]->Text_lines == seq![
                seq![plain_run(fitted(summary, scene[0]->Text_rect.width as int))],
            ]
        }),
{
}

/// The second button ends where the row ends, and the first one stands before it; where
/// there is room both are as wide as their labels.
pub proof fn lemma_where_the_buttons_are(area: Rect, apply: Seq<char>, cancel: Seq<char>)
    requires
        area.in_range(),
        area.height > 0,
        display_width("[ "@ + apply + " ]"@) + display_width("[ "@ + cancel + " ]"@) + 1
            <= area.width,
    ensures
        ({
            let rects = button_rects(area, apply, cancel);
            &&& rects[1].x + rects[1].width == area.x + area.width
            &&& rects[1].width == display_width("[ "@ + cancel + " ]"@)
            &&& rects[0].width == display_width("[ "@ + apply + " ]"@)
            &&& rects[0].x + rects[0].width <= rects[1].x
            &&& rects[0].y == area.y + area.height - 1
            &&& rects[1].y == area.y + area.height - 1
        }),
{
}

} // verus!
