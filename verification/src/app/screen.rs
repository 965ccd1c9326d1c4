//! The screen: which part is drawn where, and in which order.

use crate::app::footer::{dialog_hints, FooterFacts};
use crate::app::header::HeaderLook;
use crate::app::state::{App, AppView, PageFacts};
use crate::geometry::Rect;
use crate::modal::{Modal, Surroundings};
use crate::model::Snapshot;
use crate::text::{cat3, clone_all, decimal, numeral, texts};
use crate::theme::Theme;
use crate::ui::{Color, DrawView, Scene, Style};
use ratatui::layout::{Constraint, Direction, Layout};
use vstd::prelude::*;

verus! {

/// The rows of the screen: the header, the page and the footer.
#[derive(Debug, Clone, Copy, PartialEq, Eq, Structural)]
pub struct ScreenRows {
    pub header: Rect,
    pub body: Rect,
    pub footer: Rect,
}

/// The rows of the header.
pub const HEADER_ROWS: u16 = 1;

/// The rows that the page has at least.
pub const LEAST_PAGE_ROWS: u16 = 3;

/// The rows of the footer.
pub const FOOTER_ROWS: u16 = 1;

impl ScreenRows {
    /// The rows lie one below the other and fill the area.
    pub open spec fn fills(self, area: Rect) -> bool {
        &&& self.header.x == area.x && self.header.width == area.width
        &&& self.body.x == area.x && self.body.width == area.width
        &&& self.footer.x == area.x && self.footer.width == area.width
        &&& self.header.y == area.y
        &&& self.body.y == self.header.y + self.header.height
        &&& self.footer.y == self.body.y + self.body.height
        &&& self.footer.y + self.footer.height == area.y + area.height
    }

    /// The area is divided: `head` rows at the top, `foot` rows at the bottom, and the rest,
    /// which is `least` rows at least, in between. Where there are too few rows, those in
    /// between come first, and what is left is shared by the top and the bottom.
    pub open spec fn shares(self, area: Rect, head: int, least: int, foot: int) -> bool {
        &&& self.fills(area)
        &&& area.height >= head + least + foot ==> self.header.height == head
            && self.footer.height == foot
        &&& least <= area.height < head + least + foot ==> self.body.height == least
            && self.header.height <= head && self.footer.height <= foot
        &&& area.height < least ==> self.body.height == area.height
    }

    /// The screen is divided into these rows: one for the header, one for the footer, and
    /// the rest for the page.
    pub open spec fn divides(self, area: Rect) -> bool {
        self.shares(area, HEADER_ROWS as int, LEAST_PAGE_ROWS as int, FOOTER_ROWS as int)
    }
}

/// `Layout::split` of ratatui, vertically, into `head` rows, at least `least` rows, and `foot`
/// rows. The parts are as wide as the area, follow each other and fill it. Where there is room
/// for all of them, the first and the last get what they ask for and the one in between the
/// rest. Where there is not, the solver behind the layout gives the one in between its rows
/// first; how the first and the last share what is left then rests on the order in which the
/// solver walks its hash maps, which each process seeds anew, and is not said here.
#[verifier::external_body]
fn split_rows(area: Rect, head: u16, least: u16, foot: u16) -> (r: ScreenRows)
    requires
        area.in_range(),
        head + least + foot <= 0x7fff,
    ensures
        r.shares(area, head as int, least as int, foot as int),
{
    let rows = [Constraint::Length(head), Constraint::Min(least), Constraint::Length(foot)];
    let parts = Layout::default()
        .direction(Direction::Vertical)
        .constraints(rows)
        .split(ratatui::layout::Rect::new(area.x, area.y, area.width, area.height));
    let part = |i: usize| Rect {
        x: parts[i].x,
        y: parts[i].y,
        width: parts[i].width,
        height: parts[i].height,
    };
    ScreenRows { header: part(0), body: part(1), footer: part(2) }
}

impl AppView {
    /// Menus go where a dialog is drawn.
    pub open spec fn cleared_for_drawing(self) -> AppView {
        if self.modal is Some || self.quit_prompt is Some {
            self.without_menus()
        } else {
            self
        }
    }

    /// The application once its frame is drawn in these rows.
    pub open spec fn framed(self, rows: ScreenRows, look: HeaderLook) -> AppView {
        let cleared = self.cleared_for_drawing();
        let plan = cleared.header_plan(rows.header, look);
        AppView {
            tab_rects: plan.rects,
            sync_button: plan.button,
            body: rows.body,
            ..cleared
        }
    }
}

impl App {
    /// The header and the footer are drawn in these rows.
    pub open spec fn frame_drawn(
        self,
        rows: ScreenRows,
        page: PageFacts,
        look: HeaderLook,
        facts: FooterFacts,
        header: Seq<DrawView>,
        footer: Seq<DrawView>,
        after: App,
    ) -> bool {
        &&& after@ == self@.framed(rows, look)
        &&& after.modal == self.modal
        &&& header == self@.cleared_for_drawing().header_scene(rows.header, look)
        &&& footer == self@.framed(rows, look).footer_scene(
            rows.footer,
            dialog_hints(self.modal),
            page,
            facts,
        )
    }

    fn clear_for_drawing(&mut self)
        requires
            old(self).valid(),
        ensures
            final(self)@ == old(self)@.cleared_for_drawing(),
            final(self).modal == old(self).modal,
            final(self).valid(),
    {
        if self.modal.is_some() || self.quit_prompt.is_some() {
            reveal(App::valid);
            self.context_menu = None;
            self.command_palette = None;
        }
    }

    fn note_body(&mut self, body: Rect)
        requires
            old(self).valid(),
        ensures
            final(self)@ == (AppView { body, ..old(self)@ }),
            final(self).modal == old(self).modal,
            final(self).valid(),
    {
        reveal(App::valid);
        self.body = body;
    }

    /// Draws the header and the footer in rows that were laid out; the page is drawn
    /// between them.
    pub fn draw_rows(
        &mut self,
        rows: ScreenRows,
        page: PageFacts,
        look: &HeaderLook,
        facts: &FooterFacts,
    ) -> (r: (Scene, Scene))
        requires
            old(self).valid(),
        ensures
            old(self).frame_drawn(rows, page, *look, *facts, r.0@, r.1@, *final(self)),
            final(self).valid(),
    {
        self.clear_for_drawing();
        let top = self.draw_header(rows.header, look);
        self.note_body(rows.body);
        let bottom = self.draw_footer(rows.footer, page, facts);
        (top, bottom)
    }

    /// Lays the screen out, and draws the header and the footer.
    pub fn draw_frame(
        &mut self,
        area: Rect,
        page: PageFacts,
        look: &HeaderLook,
        facts: &FooterFacts,
    ) -> (r: (Scene, Scene))
        requires
            old(self).valid(),
            area.in_range(),
        ensures
            exists|rows: ScreenRows| #[trigger]
                rows.divides(area) && old(self).frame_drawn(
                    rows,
                    page,
                    *look,
                    *facts,
                    r.0@,
                    r.1@,
                    *final(self),
                ),
            final(self).valid(),
    {
        let rows = split_rows(area, HEADER_ROWS, LEAST_PAGE_ROWS, FOOTER_ROWS);
        assert(rows.divides(area));
        self.draw_rows(rows, page, look, facts)
    }

    fn draw_dialog(&mut self, area: Rect, around: &Surroundings) -> (r: Scene)
        requires
            old(self).valid(),
            area.in_range(),
        ensures
            dialog_drawn(
                old(self).modal,
                old(self).snap,
                area,
                *around,
                final(self).modal,
                r@,
            ),
            final(self)@ == (AppView { modal: final(self)@.modal, ..old(self)@ }),
            final(self).valid(),
    {
        reveal(App::valid);
        match &mut self.modal {
            Some(modal) => {
                modal.freshen(&self.snap);
                let ghost fresh = *modal;
                let scene = modal.draw(area, around);
                assert(old(self).modal->0.freshened(self.snap, fresh));
                scene
            },
            None => Scene::new(),
        }
    }

    /// Draws what is shown over the page: the dialog, then the menu, then the palette.
    #[verifier::rlimit(50)]
    pub fn draw_over(&mut self, area: Rect, around: &Surroundings) -> (r: Scene)
        requires
            old(self).valid(),
            area.in_range(),
        ensures
            exists|dialog: Seq<DrawView>|
                #[trigger] dialog_drawn(
                    old(self).modal,
                    old(self).snap,
                    area,
                    *around,
                    final(self).modal,
                    dialog,
                ) && r@ == dialog + over_menu(old(self)@, area, around.look.theme) + over_palette(
                    old(self)@,
                    area,
                    around.look.theme,
                ),
            final(self)@ == (AppView {
                modal: final(self)@.modal,
                context_menu: match old(self)@.context_menu {
                    Some(menu) => Some(menu.placed(area)),
                    None => None,
                },
                command_palette: match old(self)@.command_palette {
                    Some(palette) => Some(palette.placed(area)),
                    None => None,
                },
                ..old(self)@
            }),
            final(self).valid(),
    {
        let mut scene = self.draw_dialog(area, around);
        let ghost dialog = scene@;
        reveal(App::valid);
        match &mut self.context_menu {
            Some(menu) => scene.extend(menu.draw(area, &around.look.theme)),
            None => {},
        }
        assert(scene@ =~= dialog + over_menu(old(self)@, area, around.look.theme));
        match &mut self.command_palette {
            Some(palette) => scene.extend(palette.draw(area, &around.look.theme)),
            None => {},
        }
        assert(scene@ =~= dialog + over_menu(old(self)@, area, around.look.theme) + over_palette(
            old(self)@,
            area,
            around.look.theme,
        ));
        scene
    }

    /// Draws the question before quitting, over everything. `named` is the work that has a
    /// notice.
    pub fn draw_quit(&mut self, area: Rect, theme: &Theme, named: &Vec<String>) -> (r: Scene)
        requires
            old(self).valid(),
            area.in_range(),
        ensures
            ({
                let tasks = running_tasks(texts(named@), old(self)@.tasks_running as int);
                match old(self)@.quit_prompt {
                    Some(prompt) => {
                        &&& r@ == prompt.scene(area, tasks, *theme)
                        &&& final(self)@ == (AppView {
                            quit_prompt: Some(prompt.placed(area, tasks.len() as int)),
                            ..old(self)@
                        })
                    },
                    None => r@.len() == 0 && final(self)@ == old(self)@,
                }
            }),
            final(self).valid(),
    {
        let mut tasks = clone_all(named);
        assert(texts(tasks@) =~= texts(named@));
        assert(texts(named@).len() == named@.len());
        let unnamed = self.tasks_running.saturating_sub(tasks.len());
        if unnamed > 0 {
            let text = cat3("Scan skills: ", decimal(unnamed).as_str(), " running");
            assert(texts(tasks@.push(text)) =~= texts(tasks@).push(text@));
            tasks.push(text);
        }
        assert(texts(tasks@).len() == tasks@.len());
        match self.quit_prompt {
            Some(prompt) => {
                let mut next = prompt;
                let scene = next.draw(area, theme, &tasks);
                reveal(App::valid);
                self.quit_prompt = Some(next);
                scene
            },
            None => Scene::new(),
        }
    }
}

/// How a cell of the page looks while the tabs have the keys.
pub open spec fn stepped_back(style: Style, theme: Theme) -> Style {
    Style {
        fg: if style.fg == Some(theme.border_focus) {
            Some(theme.border)
        } else {
            style.fg
        },
        bg: if style.bg == Some(theme.selection_bg) {
            Some(Color::Reset)
        } else {
            style.bg
        },
        bold: false,
        dim: true,
        ..style
    }
}

pub fn step_back(style: Style, theme: &Theme) -> (r: Style)
    ensures
        r == stepped_back(style, *theme),
{
    let mut next = style;
    match style.fg {
        Some(color) => {
            if color == theme.border_focus {
                next.fg = Some(theme.border);
            }
        },
        None => {},
    }
    match style.bg {
        Some(color) => {
            if color == theme.selection_bg {
                next.bg = Some(Color::Reset);
            }
        },
        None => {},
    }
    next.bold = false;
    next.dim = true;
    next
}

/// The work that is running: what has a notice, and how much has none.
pub open spec fn running_tasks(named: Seq<Seq<char>>, running: int) -> Seq<Seq<char>> {
    if running > named.len() {
        named.push("Scan skills: "@ + numeral(running - named.len()) + " running"@)
    } else {
        named
    }
}

/// A dialog is drawn with the library as it is now.
pub open spec fn dialog_drawn(
    before: Option<Modal>,
    snap: Snapshot,
    area: Rect,
    around: Surroundings,
    after: Option<Modal>,
    scene: Seq<DrawView>,
) -> bool {
    match before {
        Some(modal) => after is Some && exists|fresh: Modal|
            {
                &&& #[trigger] modal.freshened(snap, fresh)
                &&& fresh.is_placed(area, around, after->0)
                &&& scene == fresh.scene(area, around)
            },
        None => after is None && scene.len() == 0,
    }
}

pub open spec fn over_menu(app: AppView, area: Rect, theme: Theme) -> Seq<DrawView> {
    match app.context_menu {
        Some(menu) => menu.scene(area, theme),
        None => Seq::empty(),
    }
}

pub open spec fn over_palette(app: AppView, area: Rect, theme: Theme) -> Seq<DrawView> {
    match app.command_palette {
        Some(palette) => palette.scene(area, theme),
        None => Seq::empty(),
    }
}

// ---- laws --------------------------------------------------------------------

/// While the tabs have the keys a page is drawn dim: nothing of it is bold, its frames and
/// its selection do not stand out, and everything else keeps its colors.
pub proof fn lemma_a_page_steps_back(style: Style, theme: Theme)
    ensures
        ({
            let after = stepped_back(style, theme);
            &&& after.dim
            &&& !after.bold
            &&& style.fg == Some(theme.border_focus) ==> after.fg == Some(theme.border)
            &&& style.fg != Some(theme.border_focus) ==> after.fg == style.fg
            &&& style.bg == Some(theme.selection_bg) ==> after.bg == Some(Color::Reset)
            &&& style.bg != Some(theme.selection_bg) ==> after.bg == style.bg
        }),
{
}

/// All work that runs is counted: what has a notice by its notice, the rest together.
pub proof fn lemma_all_running_work_is_counted(named: Seq<Seq<char>>, running: int)
    ensures
        running <= named.len() ==> running_tasks(named, running) == named,
        running > named.len() ==> {
            let all = running_tasks(named, running);
            &&& all.len() == named.len() + 1
            &&& all.take(named.len() as int) == named
            &&& all.last() == "Scan skills: "@ + numeral(running - named.len()) + " running"@
        },
{
    let all = running_tasks(named, running);
    assert(all.take(named.len() as int) =~= named);
}

/// Drawing changes nothing but where things are, and takes menus away that a dialog or the
/// question before quitting would cover.
pub proof fn lemma_drawing_the_frame_changes_nothing(app: AppView, rows: ScreenRows, look: HeaderLook)
    ensures
        ({
            let after = app.framed(rows, look);
            &&& after.modal == app.modal
            &&& after.tab == app.tab
            &&& after.focus == app.focus
            &&& after.effects == app.effects
            &&& after.todo == app.todo
            &&& after.body == rows.body
            &&& app.modal is Some || app.quit_prompt is Some ==> after.context_menu is None
                && after.command_palette is None
            &&& app.modal is None && app.quit_prompt is None ==> after.context_menu
                == app.context_menu && after.command_palette == app.command_palette
        }),
{
}

/// The screen is shared out: with five rows or more, one for the header, one for the footer
/// and the rest for the page.
pub proof fn lemma_the_screen_is_shared_out(rows: ScreenRows, area: Rect)
    requires
        rows.divides(area),
    ensures
        area.height >= 5 ==> rows.header.height == 1 && rows.footer.height == 1
            && rows.body.height == area.height - 2,
        3 <= area.height < 5 ==> rows.body.height == 3,
        area.height < 3 ==> rows.body.height == area.height,
        rows.header.height + rows.body.height + rows.footer.height == area.height,
{
}

} // verus!
