//! The question before the application quits while work is running.

use crate::geometry::{clamp16, max16, min16, monus, plus16, spec_max, spec_min, Rect};
use crate::measure::{fit, fitted};
use crate::text::{cat3, decimal, numeral, texts};
use crate::theme::Theme;
use crate::ui::{
    button, button_run, framed, plain_run, shown, DrawView, Line, Lines, Scene, SpanView, Style,
};
use vstd::prelude::*;

verus! {

/// Kept apart from the dialogs, so that cancelling it leaves their input as it was.
#[derive(Debug, Clone, Copy, PartialEq, Eq, Structural)]
pub struct QuitPrompt {
    pub force_exit_selected: bool,
    pub sync_in_progress: bool,
    pub area: Rect,
    pub force_exit_button: Rect,
    pub cancel_button: Rect,
}

impl QuitPrompt {
    #[verifier::allow_in_spec]
    pub fn new(sync_in_progress: bool) -> QuitPrompt
        returns
            (QuitPrompt {
                force_exit_selected: false,
                sync_in_progress,
                area: Rect::zero(),
                force_exit_button: Rect::zero(),
                cancel_button: Rect::zero(),
            }),
    {
        QuitPrompt {
            force_exit_selected: false,
            sync_in_progress,
            area: Rect::zero(),
            force_exit_button: Rect::zero(),
            cancel_button: Rect::zero(),
        }
    }

    /// Where the question is: in the middle, high enough for the work that it lists.
    pub open spec fn area_in(self, outer: Rect, tasks: int) -> Rect {
        let w = spec_min(monus(outer.width as int, 2), 86);
        let h = spec_max(
            spec_min(
                monus(outer.height as int, 2),
                if self.sync_in_progress {
                    6
                } else {
                    plus16(spec_min(tasks, 65535), 6)
                },
            ),
            1,
        );
        Rect::at(
            outer.x + monus(outer.width as int, w) / 2,
            outer.y + monus(outer.height as int, h) / 2,
            w,
            h,
        )
    }

    pub open spec fn cancel_in(inner: Rect) -> Rect {
        Rect::at(
            spec_max(monus(inner.end_x(), 12), inner.x as int),
            monus(inner.end_y(), 1),
            spec_min(inner.width as int, 12),
            if inner.height > 0 {
                1
            } else {
                0
            },
        )
    }

    pub open spec fn exit_in(inner: Rect) -> Rect {
        let cancel = QuitPrompt::cancel_in(inner);
        Rect::at(
            spec_max(monus(cancel.x as int, 12), inner.x as int),
            monus(inner.end_y(), 1),
            spec_min(monus(cancel.x as int, inner.x as int), 12),
            if inner.height > 0 {
                1
            } else {
                0
            },
        )
    }

    pub open spec fn placed(self, outer: Rect, tasks: int) -> QuitPrompt {
        let area = self.area_in(outer, tasks);
        QuitPrompt {
            area,
            cancel_button: QuitPrompt::cancel_in(area.inside()),
            force_exit_button: QuitPrompt::exit_in(area.inside()),
            ..self
        }
    }

    pub open spec fn exit_label(self) -> Seq<char> {
        if self.sync_in_progress {
            "Force exit"@
        } else {
            "Quit"@
        }
    }
}

/// The work that is listed: as much as there is room for, and how much more there is in
/// place of the last.
pub open spec fn task_lines(tasks: Seq<Seq<char>>, available: int, width: int) -> Seq<Seq<char>> {
    let n = spec_min(tasks.len() as int, available);
    let listed = Seq::new(n as nat, |i: int| fitted(tasks[i], width));
    if tasks.len() > available && n > 0 {
        listed.update(
            n - 1,
            "… "@ + numeral(tasks.len() - available + 1) + " more tasks running"@,
        )
    } else {
        listed
    }
}

/// The lines of the question.
pub open spec fn question_lines(
    prompt: QuitPrompt,
    tasks: Seq<Seq<char>>,
    inner: Rect,
) -> Seq<Seq<char>> {
    let width = inner.width as int;
    if prompt.sync_in_progress {
        seq![fitted("Root sync is still in progress."@, width)]
    } else if tasks.len() == 0 {
        seq!["Background work has finished. Quit now?"@]
    } else {
        task_lines(tasks, monus(inner.height as int, 3), width).push(
            fitted("Quit now and abandon running work?"@, width),
        )
    }
}

/// Lines of plain text.
pub open spec fn plain_rows(lines: Seq<Seq<char>>) -> Seq<Seq<SpanView>> {
    lines.map_values(|line: Seq<char>| seq![plain_run(line)])
}

impl QuitPrompt {
    pub open spec fn scene(self, outer: Rect, tasks: Seq<Seq<char>>, theme: Theme) -> Seq<DrawView> {
        let area = self.area_in(outer, tasks.len() as int);
        let inner = area.inside();
        seq![
            DrawView::Clear(area),
            framed(area, " quit "@),
            shown(inner, plain_rows(question_lines(self, tasks, inner)), Style::plain()),
            shown(
                QuitPrompt::exit_in(inner),
                seq![
                    seq![
                        button_run(
                            self.exit_label(),
                            self.force_exit_selected,
                            theme.selected(),
                            theme.accent(),
                        ),
                    ],
                ],
                Style::plain(),
            ),
            shown(
                QuitPrompt::cancel_in(inner),
                seq![
                    seq![
                        button_run(
                            "Cancel"@,
                            !self.force_exit_selected,
                            theme.selected(),
                            theme.accent(),
                        ),
                    ],
                ],
                Style::plain(),
            ),
        ]
    }

    fn lines(&self, tasks: &Vec<String>, inner: Rect) -> (r: Lines)
        ensures
            r@ == plain_rows(question_lines(*self, texts(tasks@), inner)),
    {
        let ghost all = question_lines(*self, texts(tasks@), inner);
        let wide: usize = inner.width as usize;
        let mut lines = Lines::new();
        if self.sync_in_progress {
            lines.push(Line::raw(fit("Root sync is still in progress.", wide).as_str()));
            assert(lines@ =~= plain_rows(all));
            return lines;
        }
        let total = tasks.len();
        assert(texts(tasks@).len() == total);
        if total == 0 {
            lines.push(Line::raw("Background work has finished. Quit now?"));
            assert(lines@ =~= plain_rows(all));
            return lines;
        }
        let available: usize = inner.height.saturating_sub(3) as usize;
        let n: usize = if total <= available {
            total
        } else {
            available
        };
        let ghost head = task_lines(texts(tasks@), available as int, wide as int);
        let mut i: usize = 0;
        while i < n
            invariant
                i <= n,
                n <= total,
                n <= available,
                n == spec_min(total as int, available as int),
                total == tasks@.len(),
                head == task_lines(texts(tasks@), available as int, wide as int),
                lines@ == plain_rows(head).take(i as int),
            decreases n - i,
        {
            assert(texts(tasks@)[i as int] == tasks@[i as int]@);
            if total > available && i + 1 == n {
                let more: usize = total - available + 1;
                lines.push(
                    Line::raw(
                        cat3("… ", decimal(more).as_str(), " more tasks running").as_str(),
                    ),
                );
            } else {
                lines.push(Line::raw(fit(tasks[i].as_str(), wide).as_str()));
            }
            i = i + 1;
            assert(lines@ =~= plain_rows(head).take(i as int));
        }
        lines.push(Line::raw(fit("Quit now and abandon running work?", wide).as_str()));
        assert(lines@ =~= plain_rows(all));
        lines
    }

    #[verifier::rlimit(50)]
    pub fn draw(&mut self, outer: Rect, theme: &Theme, tasks: &Vec<String>) -> (r: Scene)
        requires
            outer.in_range(),
        ensures
            *final(self) == old(self).placed(outer, tasks@.len() as int),
            r@ == old(self).scene(outer, texts(tasks@), *theme),
    {
        assert(texts(tasks@).len() == tasks@.len());
        let w: u16 = min16(outer.width.saturating_sub(2), 86);
        let limit: u16 = if self.sync_in_progress {
            6
        } else {
            clamp16(tasks.len()).saturating_add(6)
        };
        let h: u16 = max16(min16(outer.height.saturating_sub(2), limit), 1);
        let area = Rect::new(
            outer.x + outer.width.saturating_sub(w) / 2,
            outer.y + outer.height.saturating_sub(h) / 2,
            w,
            h,
        );
        let inner = area.inner();
        let y: u16 = inner.bottom().saturating_sub(1);
        let tall: u16 = if inner.height > 0 {
            1
        } else {
            0
        };
        let cancel = Rect::new(
            max16(inner.right().saturating_sub(12), inner.x),
            y,
            min16(inner.width, 12),
            tall,
        );
        let exit = Rect::new(
            max16(cancel.x.saturating_sub(12), inner.x),
            y,
            min16(cancel.x.saturating_sub(inner.x), 12),
            tall,
        );
        let mut scene = Scene::new();
        scene.clear(area);
        scene.frame(area, " quit ");
        scene.lines(inner, self.lines(tasks, inner), Style::plain());
        let label = if self.sync_in_progress {
            "Force exit"
        } else {
            "Quit"
        };
        scene.line(
            exit,
            Line::one(
                button(label, self.force_exit_selected, theme.selected(), theme.accent()),
            ),
            Style::plain(),
        );
        scene.line(
            cancel,
            Line::one(
                button("Cancel", !self.force_exit_selected, theme.selected(), theme.accent()),
            ),
            Style::plain(),
        );
        self.area = area;
        self.force_exit_button = exit;
        self.cancel_button = cancel;
        scene
    }
}

// ---- laws --------------------------------------------------------------------

/// The question lists each piece of running work, in order, where there is room for all of
/// it, and counts those that it leaves out where there is not.
pub proof fn lemma_running_work_is_listed(tasks: Seq<Seq<char>>, available: int, width: int, i: int)
    requires
        0 < available,
        0 <= i,
    ensures
        tasks.len() <= available ==> task_lines(tasks, available, width).len() == tasks.len() && (i
            < tasks.len() ==> task_lines(tasks, available, width)[i] == fitted(tasks[i], width)),
        tasks.len() > available ==> {
            let lines = task_lines(tasks, available, width);
            &&& lines.len() == available
            &&& i < available - 1 ==> lines[i] == fitted(tasks[i], width)
            &&& lines.last() == "… "@ + numeral(tasks.len() - (available - 1))
                + " more tasks running"@
        },
{
}

/// What the question says: that a synchronisation runs, that nothing does any more, or what
/// would be abandoned.
pub proof fn lemma_what_the_quit_question_says(
    prompt: QuitPrompt,
    tasks: Seq<Seq<char>>,
    inner: Rect,
)
    ensures
        prompt.sync_in_progress ==> question_lines(prompt, tasks, inner) == seq![
            fitted("Root sync is still in progress."@, inner.width as int),
        ],
        !prompt.sync_in_progress && tasks.len() == 0 ==> question_lines(prompt, tasks, inner)
            == seq!["Background work has finished. Quit now?"@],
        !prompt.sync_in_progress && tasks.len() > 0 ==> question_lines(prompt, tasks, inner).last()
            == fitted("Quit now and abandon running work?"@, inner.width as int),
        prompt.sync_in_progress ==> prompt.exit_label() == "Force exit"@,
        !prompt.sync_in_progress ==> prompt.exit_label() == "Quit"@,
{
}

/// The question begins on the button that goes back, and drawing it selects nothing else.
pub proof fn lemma_the_quit_question_begins_on_cancel(sync_in_progress: bool, outer: Rect, tasks: int)
    ensures
        !QuitPrompt::new(sync_in_progress).force_exit_selected,
        QuitPrompt::new(sync_in_progress).sync_in_progress == sync_in_progress,
        QuitPrompt::new(sync_in_progress).placed(outer, tasks).force_exit_selected
            == QuitPrompt::new(sync_in_progress).force_exit_selected,
        QuitPrompt::new(sync_in_progress).placed(outer, tasks).sync_in_progress
            == sync_in_progress,
{
}

/// The two buttons lie side by side in the last row of the question, the one that quits
/// before the other, and no cell belongs to both.
pub proof fn lemma_the_quit_buttons_are_apart(inner: Rect, x: int, y: int)
    requires
        inner.in_range(),
    ensures
        QuitPrompt::cancel_in(inner).has(x, y) ==> y == inner.y + inner.height - 1 && inner.x <= x
            < inner.x + inner.width,
        QuitPrompt::exit_in(inner).has(x, y) ==> y == inner.y + inner.height - 1 && inner.x <= x
            < inner.x + inner.width,
        !(QuitPrompt::cancel_in(inner).has(x, y) && QuitPrompt::exit_in(inner).has(x, y)),
        QuitPrompt::exit_in(inner).x <= QuitPrompt::cancel_in(inner).x,
{
}

/// The question stands in the middle, at most 86 columns wide: six rows for a
/// synchronisation, and one more for each piece of work otherwise.
pub proof fn lemma_where_the_quit_question_is(prompt: QuitPrompt, outer: Rect, tasks: int)
    requires
        outer.in_range(),
        outer.width >= 88,
        0 <= tasks,
        tasks + 6 <= outer.height - 2,
    ensures
        prompt.area_in(outer, tasks).width == 86,
        prompt.sync_in_progress ==> prompt.area_in(outer, tasks).height == 6,
        !prompt.sync_in_progress ==> prompt.area_in(outer, tasks).height == tasks + 6,
{
}

} // verus!
