//! The last row of the screen: what the keys do.

use crate::app::state::{App, AppView, PageFacts};
use crate::app::{AppFocus, Hint, Tab};
use crate::geometry::{monus, Rect};
use crate::measure::{display_width, fit, fitted, width};
use crate::modal::Modal;
use crate::text::{cat3, contains, has_part, repeat, repeated, same_text};
use crate::theme::Theme;
use crate::ui::{
    plain_run, run, shown, DrawView, Line, Scene, Span, SpanView, Style,
};
use vstd::prelude::*;

verus! {

/// What the pages have to say for the footer.
#[derive(Debug)]
pub struct FooterFacts {
    pub theme: Theme,
    /// What the page that is shown says of itself.
    pub status: String,
    /// What the keys do on the page that is shown.
    pub page: Vec<Hint>,
    /// What they do in a dialog that is kept with the pages.
    pub hosted: Vec<Hint>,
    /// The page offers a menu of what can be done.
    pub has_actions: bool,
}

// ---- which hints -------------------------------------------------------------

impl AppView {
    /// The hints of the part that gets the keys now.
    pub open spec fn hints(self, dialog: Option<Seq<Hint>>, facts: FooterFacts) -> Seq<Hint> {
        if self.quit_prompt is Some {
            seq![("←→", "buttons"), ("Enter", "confirm"), ("Esc/q", "cancel")]
        } else if self.batch_running && self.batch_modal_owned {
            seq![("…", "saving changes")]
        } else if self.modal is Some {
            match dialog {
                Some(hints) => hints,
                None => facts.hosted@,
            }
        } else if self.command_palette is Some {
            seq![
                ("type", "filter commands"),
                ("↑↓", "choose"),
                ("Enter", "run"),
                ("Esc", "close"),
            ]
        } else if self.focus == AppFocus::Tabs {
            seq![
                ("←→/Tab", "tabs"),
                ("Enter/↓", "enter"),
                (":", "commands"),
                ("Esc/q", "quit"),
            ]
        } else {
            facts.page@
        }
    }

    /// The hints that hold everywhere are shown.
    pub open spec fn globals_shown(self, page: PageFacts) -> bool {
        self.modal is None && self.quit_prompt is None && self.context_menu is None
            && self.command_palette is None && !self.typing(page) && (self.focus == AppFocus::Tabs
            || !page.overlay_open)
    }

    /// The page offers a menu of what can be done, and a key opens it.
    pub open spec fn offers_actions(self, page: PageFacts, facts: FooterFacts) -> bool {
        self.focus == AppFocus::Page && !self.typing(page) && facts.has_actions
    }

    pub open spec fn footer_status(self, facts: FooterFacts) -> Seq<char> {
        if self.modal is Some || self.quit_prompt is Some {
            ""@
        } else if self.tab == Tab::Search || self.tab == Tab::Tags || self.tab == Tab::Presets {
            facts.status@
        } else {
            ""@
        }
    }
}

pub open spec fn dialog_hints(modal: Option<Modal>) -> Option<Seq<Hint>> {
    match modal {
        Some(modal) => modal.hint_list(),
        None => None,
    }
}

/// The hints that hold everywhere.
pub open spec fn global_hints(actions: bool) -> Seq<Hint> {
    if actions {
        seq![("a", "actions"), (":", "commands"), ("?", "help")]
    } else {
        seq![(":", "commands"), ("?", "help")]
    }
}

// ---- which of them fit -------------------------------------------------------

/// The columns of a hint.
pub open spec fn hint_width(hint: Hint) -> int {
    (display_width(hint.0@) + display_width(hint.1@) + 3) as int
}

pub open spec fn same_hint(a: Hint, b: Hint) -> bool {
    a.0@ == b.0@ && a.1@ == b.1@
}

pub open spec fn is_escape(hint: Hint) -> bool {
    has_part(hint.0@, "Esc"@)
}

pub open spec fn holds_hint(list: Seq<Hint>, hint: Hint) -> bool {
    exists|i: int| 0 <= i < list.len() && same_hint(#[trigger] list[i], hint)
}

/// The first hint, from `at` on, that leads out.
pub open spec fn escape_from(hints: Seq<Hint>, at: int) -> Option<Hint>
    decreases hints.len() - at,
{
    if at < 0 || at >= hints.len() {
        None
    } else if is_escape(hints[at]) {
        Some(hints[at])
    } else {
        escape_from(hints, at + 1)
    }
}

/// How the hints are chosen.
pub ghost struct HintRules {
    pub tags_enabled: bool,
    /// The hints that hold everywhere, where they are shown.
    pub globals: Seq<Hint>,
}

impl HintRules {
    /// The hint is left out, or comes later.
    pub open spec fn skips(self, hint: Hint) -> bool {
        (!self.tags_enabled && hint.0@ == "t"@) || is_escape(hint) || holds_hint(self.globals, hint)
    }

    /// The hints, from `at` on, that fit into what is left of `room` after `used` columns,
    /// up to the first that does not.
    pub open spec fn chosen(self, hints: Seq<Hint>, at: int, used: int, room: int) -> Seq<Hint>
        decreases hints.len() - at,
    {
        if at < 0 || at >= hints.len() {
            Seq::empty()
        } else if self.skips(hints[at]) {
            self.chosen(hints, at + 1, used, room)
        } else if used + hint_width(hints[at]) > room {
            Seq::empty()
        } else {
            seq![hints[at]] + self.chosen(hints, at + 1, used + hint_width(hints[at]), room)
        }
    }
}

pub open spec fn total_width(hints: Seq<Hint>) -> int
    decreases hints.len(),
{
    if hints.len() == 0 {
        0
    } else {
        total_width(hints.drop_last()) + hint_width(hints.last())
    }
}

/// The hints from `at` on that fit, up to the first that does not.
pub open spec fn fitting_hints(hints: Seq<Hint>, at: int, used: int, room: int) -> Seq<Hint>
    decreases hints.len() - at,
{
    if at < 0 || at >= hints.len() || used + hint_width(hints[at]) > room {
        Seq::empty()
    } else {
        seq![hints[at]] + fitting_hints(hints, at + 1, used + hint_width(hints[at]), room)
    }
}

/// The hints that are shown. What leads out, and what holds everywhere, comes last; there is
/// room kept for it.
pub open spec fn shown_hints(
    hints: Seq<Hint>,
    tags_enabled: bool,
    globals: Seq<Hint>,
    budget: int,
) -> Seq<Hint> {
    let rules = HintRules { tags_enabled, globals };
    let escape = escape_from(hints, 0);
    let reserve = total_width(globals) + match escape {
        Some(hint) => hint_width(hint),
        None => 0,
    };
    let plain = rules.chosen(hints, 0, 0, budget - reserve);
    let with_escape = match escape {
        Some(hint) => if total_width(plain) + hint_width(hint) <= budget {
            plain.push(hint)
        } else {
            plain
        },
        None => plain,
    };
    with_escape + fitting_hints(globals, 0, total_width(with_escape), budget)
}

/// The hints as they are drawn.
pub open spec fn hint_runs(hints: Seq<Hint>, theme: Theme) -> Seq<SpanView>
    decreases hints.len(),
{
    if hints.len() == 0 {
        Seq::empty()
    } else {
        hint_runs(hints.drop_last(), theme).push(run(hints.last().0@, theme.key_hint())).push(
            run(" "@ + hints.last().1@ + "  "@, theme.placeholder()),
        )
    }
}

impl AppView {
    /// The hints that hold everywhere, where they are shown.
    pub open spec fn globals(self, page: PageFacts, facts: FooterFacts) -> Seq<Hint> {
        if self.globals_shown(page) {
            global_hints(self.offers_actions(page, facts))
        } else {
            Seq::empty()
        }
    }

    pub open spec fn footer_line(
        self,
        width: int,
        hints: Seq<Hint>,
        page: PageFacts,
        facts: FooterFacts,
    ) -> Seq<SpanView> {
        let status = fitted(self.footer_status(facts), width / 3);
        let budget = monus(width, display_width(status) as int);
        let shown = shown_hints(hints, self.tags_enabled, self.globals(page, facts), budget);
        seq![
            run(status, facts.theme.skill_count()),
            plain_run(repeated(' ', monus(budget, total_width(shown)))),
        ] + hint_runs(shown, facts.theme)
    }

    pub open spec fn footer_scene(
        self,
        area: Rect,
        dialog: Option<Seq<Hint>>,
        page: PageFacts,
        facts: FooterFacts,
    ) -> Seq<DrawView> {
        if self.context_menu is Some {
            seq![
                shown(
                    area,
                    seq![seq![plain_run(repeated(' ', area.width as int))]],
                    Style::plain(),
                ),
            ]
        } else {
            seq![
                shown(
                    area,
                    seq![
                        self.footer_line(
                            area.width as int,
                            self.hints(dialog, facts),
                            page,
                            facts,
                        ),
                    ],
                    Style::plain(),
                ),
            ]
        }
    }
}

// ---- drawing -----------------------------------------------------------------

fn columns(hint: &Hint) -> (r: u128)
    ensures
        r == hint_width(*hint),
        r <= 0x2_0000_0000_0000_0001,
{
    (width(hint.0) as u128) + (width(hint.1) as u128) + 3
}

fn copy_hints(hints: &Vec<Hint>) -> (r: Vec<Hint>)
    ensures
        r@ == hints@,
{
    let mut out: Vec<Hint> = Vec::new();
    let mut i: usize = 0;
    while i < hints.len()
        invariant
            i <= hints.len(),
            out@ == hints@.take(i as int),
        decreases hints.len() - i,
    {
        out.push(hints[i]);
        i = i + 1;
        assert(out@ =~= hints@.take(i as int));
    }
    assert(out@ =~= hints@);
    out
}

fn find_escape(hints: &Vec<Hint>) -> (r: Option<Hint>)
    ensures
        r == escape_from(hints@, 0),
{
    let mut i: usize = 0;
    while i < hints.len()
        invariant
            i <= hints.len(),
            escape_from(hints@, 0) == escape_from(hints@, i as int),
        decreases hints.len() - i,
    {
        if contains(hints[i].0, "Esc") {
            return Some(hints[i]);
        }
        i = i + 1;
    }
    None
}

fn has_hint(list: &Vec<Hint>, hint: &Hint) -> (r: bool)
    ensures
        r == holds_hint(list@, *hint),
{
    let mut i: usize = 0;
    while i < list.len()
        invariant
            i <= list.len(),
            forall|k: int| 0 <= k < i ==> !same_hint(#[trigger] list@[k], *hint),
        decreases list.len() - i,
    {
        if same_text(list[i].0, hint.0) && same_text(list[i].1, hint.1) {
            assert(same_hint(list@[i as int], *hint));
            return true;
        }
        i = i + 1;
    }
    false
}

proof fn lemma_total_width(hints: Seq<Hint>, hint: Hint)
    ensures
        total_width(hints.push(hint)) == total_width(hints) + hint_width(hint),
        total_width(hints) >= 0,
    decreases hints.len(),
{
    assert(hints.push(hint).drop_last() =~= hints);
    if hints.len() > 0 {
        lemma_total_width(hints.drop_last(), hints.last());
        assert(hints.drop_last().push(hints.last()) =~= hints);
    }
}

fn choose_hints(hints: &Vec<Hint>, tags_enabled: bool, globals: &Vec<Hint>, room: i128) -> (r: (
    Vec<Hint>,
    u128,
))
    requires
        room <= 0x1_0000_0000_0000_0000,
    ensures
        r.0@ == (HintRules { tags_enabled, globals: globals@ }).chosen(hints@, 0, 0, room as int),
        r.1 == total_width(r.0@),
        r.1 <= 0x1_0000_0000_0000_0000,
{
    let ghost rules = HintRules { tags_enabled, globals: globals@ };
    let mut out: Vec<Hint> = Vec::new();
    let mut used: u128 = 0;
    let mut i: usize = 0;
    assert(out@ + rules.chosen(hints@, 0, 0, room as int) =~= rules.chosen(
        hints@,
        0,
        0,
        room as int,
    ));
    while i < hints.len()
        invariant
            i <= hints.len(),
            room <= 0x1_0000_0000_0000_0000,
            rules == (HintRules { tags_enabled, globals: globals@ }),
            used == total_width(out@),
            used <= 0x1_0000_0000_0000_0000,
            out@ + rules.chosen(hints@, i as int, used as int, room as int) == rules.chosen(
                hints@,
                0,
                0,
                room as int,
            ),
        decreases hints.len() - i,
    {
        let hint = hints[i];
        let skipped = (!tags_enabled && same_text(hint.0, "t")) || contains(hint.0, "Esc")
            || has_hint(globals, &hint);
        if !skipped {
            let wide: u128 = columns(&hint);
            let next: u128 = used + wide;
            if room < 0 || next > room as u128 {
                assert(rules.chosen(hints@, i as int, used as int, room as int) =~= Seq::empty());
                assert(out@ =~= out@ + Seq::<Hint>::empty());
                return (out, used);
            }
            proof {
                lemma_total_width(out@, hint);
                let rest = rules.chosen(hints@, i + 1, next as int, room as int);
                assert(out@ + (seq![hint] + rest) =~= out@.push(hint) + rest);
            }
            out.push(hint);
            used = next;
        }
        i = i + 1;
    }
    assert(out@ + Seq::<Hint>::empty() =~= out@);
    (out, used)
}

fn append_globals(out: &mut Vec<Hint>, globals: &Vec<Hint>, used: u128, budget: u128) -> (r: u128)
    requires
        used == total_width(old(out)@),
        used <= 0x2_0000_0000_0000_0000,
        budget <= 0x1_0000_0000_0000_0000,
    ensures
        final(out)@ == old(out)@ + fitting_hints(globals@, 0, used as int, budget as int),
        r == total_width(final(out)@),
{
    let ghost before = out@;
    let mut total: u128 = used;
    let mut i: usize = 0;
    while i < globals.len()
        invariant
            i <= globals.len(),
            budget <= 0x1_0000_0000_0000_0000,
            total <= 0x2_0000_0000_0000_0000,
            total == total_width(out@),
            before == old(out)@,
            out@ + fitting_hints(globals@, i as int, total as int, budget as int) == before
                + fitting_hints(globals@, 0, used as int, budget as int),
        decreases globals.len() - i,
    {
        let hint = globals[i];
        let next: u128 = total + columns(&hint);
        if next > budget {
            assert(out@ + Seq::<Hint>::empty() =~= out@);
            return total;
        }
        proof {
            lemma_total_width(out@, hint);
            let rest = fitting_hints(globals@, i + 1, next as int, budget as int);
            assert(out@ + (seq![hint] + rest) =~= out@.push(hint) + rest);
        }
        out.push(hint);
        total = next;
        i = i + 1;
    }
    assert(out@ + Seq::<Hint>::empty() =~= out@);
    total
}

fn sum_of(hints: &Vec<Hint>) -> (r: u128)
    requires
        hints@.len() <= 3,
    ensures
        r == total_width(hints@),
        r <= 0x6_0000_0000_0000_0003,
{
    let mut total: u128 = 0;
    let mut i: usize = 0;
    assert(hints@.take(0) =~= Seq::empty());
    while i < hints.len()
        invariant
            i <= hints.len() <= 3,
            total == total_width(hints@.take(i as int)),
            total <= i * 0x2_0000_0000_0000_0001,
        decreases hints.len() - i,
    {
        assert(hints@.take(i + 1) =~= hints@.take(i as int).push(hints@[i as int]));
        proof {
            lemma_total_width(hints@.take(i as int), hints@[i as int]);
        }
        total = total + columns(&hints[i]);
        i = i + 1;
    }
    assert(hints@.take(i as int) =~= hints@);
    total
}

fn show_hints(hints: &Vec<Hint>, tags_enabled: bool, globals: &Vec<Hint>, budget: usize) -> (r: (
    Vec<Hint>,
    u128,
))
    requires
        globals@.len() <= 3,
    ensures
        r.0@ == shown_hints(hints@, tags_enabled, globals@, budget as int),
        r.1 == total_width(r.0@),
{
    let escape = find_escape(hints);
    let kept: u128 = sum_of(globals) + match &escape {
        Some(hint) => columns(hint),
        None => 0,
    };
    let room: i128 = (budget as i128) - (kept as i128);
    let (chosen, width_of_chosen) = choose_hints(hints, tags_enabled, globals, room);
    let mut out = chosen;
    let mut used: u128 = width_of_chosen;
    match escape {
        Some(hint) => {
            let next: u128 = used + columns(&hint);
            if next <= budget as u128 {
                proof {
                    lemma_total_width(out@, hint);
                }
                out.push(hint);
                used = next;
            }
        },
        None => {},
    }
    let total = append_globals(&mut out, globals, used, budget as u128);
    (out, total)
}

fn draw_hints(line: &mut Line, hints: &Vec<Hint>, theme: &Theme)
    ensures
        final(line)@ == old(line)@ + hint_runs(hints@, *theme),
{
    let ghost before = line@;
    let mut i: usize = 0;
    assert(hints@.take(0) =~= Seq::empty());
    assert(line@ =~= before + hint_runs(hints@.take(0), *theme));
    while i < hints.len()
        invariant
            i <= hints.len(),
            line@ == before + hint_runs(hints@.take(i as int), *theme),
        decreases hints.len() - i,
    {
        let ghost prior = line@;
        line.push(Span::styled(hints[i].0, theme.key_hint()));
        line.push(Span::of(cat3(" ", hints[i].1, "  "), theme.placeholder()));
        assert(hints@.take(i + 1).drop_last() =~= hints@.take(i as int));
        assert(line@ =~= before + hint_runs(hints@.take(i + 1), *theme));
        i = i + 1;
    }
    assert(hints@.take(i as int) =~= hints@);
}

impl App {
    /// The hints of the part that gets the keys now.
    pub fn footer_hints(&self, facts: &FooterFacts) -> (r: Vec<Hint>)
        ensures
            r@ == self@.hints(dialog_hints(self.modal), *facts),
    {
        if self.quit_prompt.is_some() {
            return vec![("←→", "buttons"), ("Enter", "confirm"), ("Esc/q", "cancel")];
        }
        if self.batch_running && self.batch_modal_owned {
            return vec![("…", "saving changes")];
        }
        match &self.modal {
            Some(modal) => {
                return match modal.hints() {
                    Some(hints) => hints,
                    None => copy_hints(&facts.hosted),
                };
            },
            None => {},
        }
        if self.command_palette.is_some() {
            return vec![
                ("type", "filter commands"),
                ("↑↓", "choose"),
                ("Enter", "run"),
                ("Esc", "close"),
            ];
        }
        if self.focus == AppFocus::Tabs {
            return vec![
                ("←→/Tab", "tabs"),
                ("Enter/↓", "enter"),
                (":", "commands"),
                ("Esc/q", "quit"),
            ];
        }
        copy_hints(&facts.page)
    }

    fn global_list(&self, page: PageFacts, facts: &FooterFacts) -> (r: Vec<Hint>)
        ensures
            r@ == self@.globals(page, *facts),
            r@.len() <= 3,
    {
        let typing = self.focus == AppFocus::Page && page.page_input;
        let visible = self.modal.is_none() && self.quit_prompt.is_none()
            && self.context_menu.is_none() && self.command_palette.is_none() && !typing && (
        self.focus == AppFocus::Tabs || !page.overlay_open);
        if !visible {
            return Vec::new();
        }
        if self.focus == AppFocus::Page && facts.has_actions {
            vec![("a", "actions"), (":", "commands"), ("?", "help")]
        } else {
            vec![(":", "commands"), ("?", "help")]
        }
    }

    fn footer_line(&self, wide: u16, page: PageFacts, facts: &FooterFacts) -> (r: Line)
        ensures
            r@ == self@.footer_line(
                wide as int,
                self@.hints(dialog_hints(self.modal), *facts),
                page,
                *facts,
            ),
    {
        let text = if self.modal.is_some() || self.quit_prompt.is_some() {
            ""
        } else if self.tab == Tab::Search || self.tab == Tab::Tags || self.tab == Tab::Presets {
            facts.status.as_str()
        } else {
            ""
        };
        let status = fit(text, (wide / 3) as usize);
        let taken = width(status.as_str());
        let budget: usize = (wide as usize).saturating_sub(taken);
        let hints = self.footer_hints(facts);
        let globals = self.global_list(page, facts);
        let (shown, used) = show_hints(&hints, self.tags_enabled, &globals, budget);
        let pad: usize = if used < budget as u128 {
            budget - used as usize
        } else {
            0
        };
        let mut line = Line::new();
        line.push(Span::of(status, facts.theme.skill_count()));
        line.push(Span::of(repeat(' ', pad), Style::plain()));
        assert(line@ =~= seq![
            run(status@, facts.theme.skill_count()),
            plain_run(repeated(' ', pad as int)),
        ]);
        proof {
            if shown@.len() > 0 {
                lemma_total_width(shown@.drop_last(), shown@.last());
                assert(shown@.drop_last().push(shown@.last()) =~= shown@);
            }
        }
        draw_hints(&mut line, &shown, &facts.theme);
        line
    }

    pub fn draw_footer(&self, area: Rect, page: PageFacts, facts: &FooterFacts) -> (r: Scene)
        ensures
            r@ == self@.footer_scene(area, dialog_hints(self.modal), page, *facts),
    {
        let mut scene = Scene::new();
        if self.context_menu.is_some() {
            scene.note(area, repeat(' ', area.width as usize).as_str(), Style::plain());
        } else {
            scene.line(area, self.footer_line(area.width, page, facts), Style::plain());
        }
        scene
    }
}

// ---- laws --------------------------------------------------------------------

/// While a dialog or the question before quitting has the keys, no hint of a page is shown.
pub proof fn lemma_page_hints_yield_to_dialogs(app: AppView, hints: Seq<Hint>, page: PageFacts, facts: FooterFacts)
    requires
        app.modal is Some,
        app.quit_prompt is None,
        !(app.batch_running && app.batch_modal_owned),
    ensures
        app.hints(Some(hints), facts) == hints,
        app.globals(page, facts).len() == 0,
        app.footer_status(facts) == ""@,
{
}

/// The question before quitting shows its own keys, whatever is behind it.
pub proof fn lemma_quit_prompt_has_its_own_hints(app: AppView, dialog: Option<Seq<Hint>>, facts: FooterFacts, other: FooterFacts)
    requires
        app.quit_prompt is Some,
    ensures
        app.hints(dialog, facts) == app.hints(None, other),
{
}

/// What the hints take never exceeds the room that there is.
pub proof fn lemma_hints_stay_in_their_room(rules: HintRules, hints: Seq<Hint>, at: int, used: int, room: int)
    requires
        0 <= at <= hints.len(),
        used <= room,
    ensures
        used + total_width(rules.chosen(hints, at, used, room)) <= room,
    decreases hints.len() - at,
{
    if at < hints.len() {
        if rules.skips(hints[at]) {
            lemma_hints_stay_in_their_room(rules, hints, at + 1, used, room);
        } else if used + hint_width(hints[at]) <= room {
            let next = used + hint_width(hints[at]);
            lemma_hints_stay_in_their_room(rules, hints, at + 1, next, room);
            lemma_first_width(hints[at], rules.chosen(hints, at + 1, next, room));
        }
    }
}

proof fn lemma_first_width(hint: Hint, rest: Seq<Hint>)
    ensures
        total_width(seq![hint] + rest) == hint_width(hint) + total_width(rest),
    decreases rest.len(),
{
    if rest.len() == 0 {
        assert(seq![hint] + rest =~= seq![hint]);
        assert(seq![hint].drop_last() =~= Seq::<Hint>::empty());
        assert(total_width(Seq::<Hint>::empty()) == 0);
        assert(total_width(seq![hint]) == hint_width(hint));
    } else {
        lemma_first_width(hint, rest.drop_last());
        assert((seq![hint] + rest).drop_last() =~= seq![hint] + rest.drop_last());
    }
}

/// The footer hints at the keys of whatever gets them: the question before quitting, a
/// dialog, the palette, the tabs, the page, in this order.
pub proof fn lemma_hints_are_of_what_gets_the_keys(
    app: AppView,
    dialog: Option<Seq<Hint>>,
    facts: FooterFacts,
)
    ensures
        app.quit_prompt is Some ==> app.hints(dialog, facts) == seq![
            ("←→", "buttons"),
            ("Enter", "confirm"),
            ("Esc/q", "cancel"),
        ],
        app.quit_prompt is None && app.batch_running && app.batch_modal_owned ==> app.hints(
            dialog,
            facts,
        ) == seq![("…", "saving changes")],
        app.quit_prompt is None && !(app.batch_running && app.batch_modal_owned) ==> {
            &&& app.modal is Some && dialog is Some ==> app.hints(dialog, facts) == dialog->0
            &&& app.modal is Some && dialog is None ==> app.hints(dialog, facts) == facts.hosted@
            &&& app.modal is None && app.command_palette is Some ==> app.hints(dialog, facts)
                == seq![
                ("type", "filter commands"),
                ("↑↓", "choose"),
                ("Enter", "run"),
                ("Esc", "close"),
            ]
            &&& app.modal is None && app.command_palette is None && app.focus == AppFocus::Tabs
                ==> app.hints(dialog, facts) == seq![
                ("←→/Tab", "tabs"),
                ("Enter/↓", "enter"),
                (":", "commands"),
                ("Esc/q", "quit"),
            ]
            &&& app.modal is None && app.command_palette is None && app.focus == AppFocus::Page
                ==> app.hints(dialog, facts) == facts.page@
        },
{
}

/// Commands and help are hinted at while nothing is shown over the page and nothing is
/// typed; the actions only where the page has some and the keys.
pub proof fn lemma_when_commands_are_hinted_at(app: AppView, page: PageFacts, facts: FooterFacts)
    ensures
        ({
            let typing = app.focus == AppFocus::Page && page.page_input;
            let bare = app.modal is None && app.quit_prompt is None && app.context_menu is None
                && app.command_palette is None && !typing && (app.focus == AppFocus::Tabs
                || !page.overlay_open);
            &&& !bare ==> app.globals(page, facts).len() == 0
            &&& bare && app.focus == AppFocus::Page && facts.has_actions ==> app.globals(
                page,
                facts,
            ) == seq![("a", "actions"), (":", "commands"), ("?", "help")]
            &&& bare && !(app.focus == AppFocus::Page && facts.has_actions) ==> app.globals(
                page,
                facts,
            ) == seq![(":", "commands"), ("?", "help")]
        }),
{
}

/// What a page says of itself is shown for the library, tags and presets, while no dialog
/// or question is shown.
pub proof fn lemma_when_the_status_is_shown(app: AppView, facts: FooterFacts)
    ensures
        app.modal is None && app.quit_prompt is None && (app.tab == Tab::Search || app.tab
            == Tab::Tags || app.tab == Tab::Presets) ==> app.footer_status(facts) == facts.status@,
        app.modal is Some || app.quit_prompt is Some || app.tab == Tab::Agents || app.tab
            == Tab::Health || app.tab == Tab::Repos ==> app.footer_status(facts) == ""@,
{
}

/// Every hint of a page that fits is shown where there is room for all of them, in order,
/// but those that are said anyway, the way out, and the key of hidden tags.
pub proof fn lemma_hints_are_shown_where_they_fit(
    rules: HintRules,
    hints: Seq<Hint>,
    at: int,
    used: int,
    room: int,
)
    requires
        0 <= at <= hints.len(),
        used + total_width(hints.skip(at)) <= room,
    ensures
        rules.chosen(hints, at, used, room) == hints.skip(at).filter(
            |hint: Hint|
                !((!rules.tags_enabled && hint.0@ == "t"@) || has_part(hint.0@, "Esc"@) || exists|
                    i: int,
                |
                    0 <= i < rules.globals.len() && (#[trigger] rules.globals[i]).0@ == hint.0@
                        && rules.globals[i].1@ == hint.1@),
        ),
    decreases hints.len() - at,
{
    let kept = |hint: Hint|
        !((!rules.tags_enabled && hint.0@ == "t"@) || has_part(hint.0@, "Esc"@) || exists|i: int|
            0 <= i < rules.globals.len() && (#[trigger] rules.globals[i]).0@ == hint.0@
                && rules.globals[i].1@ == hint.1@);
    if at < hints.len() {
        let hint = hints[at];
        let rest = hints.skip(at + 1);
        assert(hints.skip(at) =~= seq![hint] + rest);
        lemma_widths_are_summed(seq![hint], rest);
        lemma_width_of_one(hint);
        lemma_width_is_positive(rest);
        Seq::filter_distributes_over_add(seq![hint], rest, kept);
        assert(seq![hint].filter(kept) =~= if kept(hint) {
            seq![hint]
        } else {
            Seq::empty()
        }) by {
            reveal_with_fuel(Seq::filter, 2);
            assert(seq![hint].drop_last() =~= Seq::<Hint>::empty());
        }
        if holds_hint(rules.globals, hint) {
            let i = choose|i: int|
                0 <= i < rules.globals.len() && same_hint(#[trigger] rules.globals[i], hint);
            assert(rules.globals[i].0@ == hint.0@);
        }
        if exists|i: int|
            0 <= i < rules.globals.len() && (#[trigger] rules.globals[i]).0@ == hint.0@
                && rules.globals[i].1@ == hint.1@ {
            let i = choose|i: int|
                0 <= i < rules.globals.len() && (#[trigger] rules.globals[i]).0@ == hint.0@
                    && rules.globals[i].1@ == hint.1@;
            assert(same_hint(rules.globals[i], hint));
        }
        assert(rules.skips(hint) == !kept(hint));
        if rules.skips(hint) {
            lemma_hints_are_shown_where_they_fit(rules, hints, at + 1, used, room);
            assert(Seq::<Hint>::empty() + rest.filter(kept) =~= rest.filter(kept));
        } else {
            lemma_hints_are_shown_where_they_fit(
                rules,
                hints,
                at + 1,
                used + hint_width(hint),
                room,
            );
        }
    } else {
        reveal(Seq::filter);
        assert(hints.skip(at) =~= Seq::<Hint>::empty());
    }
}

proof fn lemma_width_of_one(hint: Hint)
    ensures
        total_width(seq![hint]) == hint_width(hint),
{
    reveal_with_fuel(total_width, 2);
    assert(seq![hint].drop_last() =~= Seq::<Hint>::empty());
}

proof fn lemma_width_is_positive(hints: Seq<Hint>)
    ensures
        total_width(hints) >= 0,
    decreases hints.len(),
{
    if hints.len() > 0 {
        lemma_width_is_positive(hints.drop_last());
    }
}

proof fn lemma_widths_are_summed(a: Seq<Hint>, b: Seq<Hint>)
    ensures
        total_width(a + b) == total_width(a) + total_width(b),
    decreases b.len(),
{
    if b.len() == 0 {
        assert(a + b =~= a);
    } else {
        assert((a + b).drop_last() =~= a + b.drop_last());
        lemma_widths_are_summed(a, b.drop_last());
    }
}

/// The way out that is hinted at is the first that the hints name.
pub proof fn lemma_the_way_out_is_kept(hints: Seq<Hint>, at: int, i: int)
    requires
        0 <= at <= i < hints.len(),
        has_part(hints[i].0@, "Esc"@),
        forall|j: int| at <= j < i ==> !has_part((#[trigger] hints[j]).0@, "Esc"@),
    ensures
        escape_from(hints, at) == Some(hints[i]),
    decreases i - at,
{
    if at < i {
        assert(!has_part(hints[at].0@, "Esc"@));
        lemma_the_way_out_is_kept(hints, at + 1, i);
    }
}

/// The way out is shown wherever it fits behind the commands: what a page hints at leaves
/// it room.
pub proof fn lemma_the_way_out_has_room(
    hints: Seq<Hint>,
    tags_enabled: bool,
    globals: Seq<Hint>,
    budget: int,
    i: int,
)
    requires
        0 <= i < hints.len(),
        has_part(hints[i].0@, "Esc"@),
        forall|j: int| 0 <= j < i ==> !has_part((#[trigger] hints[j]).0@, "Esc"@),
        total_width(globals) + hint_width(hints[i]) <= budget,
    ensures
        shown_hints(hints, tags_enabled, globals, budget).contains(hints[i]),
{
    lemma_the_way_out_is_kept(hints, 0, i);
    lemma_width_is_positive(globals);
    let rules = HintRules { tags_enabled, globals };
    let reserve = total_width(globals) + hint_width(hints[i]);
    lemma_hints_stay_in_their_room(rules, hints, 0, 0, budget - reserve);
    let plain = rules.chosen(hints, 0, 0, budget - reserve);
    let all = shown_hints(hints, tags_enabled, globals, budget);
    assert(all[plain.len() as int] == hints[i]);
}

/// Each hint is drawn with its key and what that does.
pub proof fn lemma_hints_are_drawn(hints: Seq<Hint>, theme: Theme, i: int)
    requires
        0 <= i < hints.len(),
    ensures
        hint_runs(hints, theme).len() == 2 * hints.len(),
        hint_runs(hints, theme)[2 * i].content == hints[i].0@,
        hint_runs(hints, theme)[2 * i + 1].content == " "@ + hints[i].1@ + "  "@,
    decreases hints.len(),
{
    if hints.len() > 1 {
        if i < hints.len() - 1 {
            lemma_hints_are_drawn(hints.drop_last(), theme, i);
        } else {
            lemma_hints_are_drawn(hints.drop_last(), theme, 0);
        }
    } else {
        assert(hints.drop_last() =~= Seq::<Hint>::empty());
        assert(hint_runs(hints.drop_last(), theme).len() == 0);
    }
}

} // verus!
