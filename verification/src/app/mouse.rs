//! Which part of the application gets a move of the mouse, and what follows from it.

use crate::app::effects::all_sound;
use crate::app::keys::{PageCall, Surfaces, Turn};
use crate::app::state::{owns_batch, App, AppView, PageFacts};
use crate::app::{nothing, Action, AppFocus, Tab};
use crate::components::command_palette::Event as PaletteEvent;
use crate::components::context_menu::{ContextMenu, MenuEvent, MenuView, Request};
use crate::geometry::Rect;
use crate::keymap::{MouseEvent, MouseKind};
use crate::modal::{Facts, Modal};
use crate::model::Icons;
use vstd::prelude::*;

verus! {

/// Who gets a move of the mouse.
#[derive(Debug, Clone, Copy, PartialEq, Eq, Structural)]
pub enum MouseRoute {
    /// The question before quitting.
    Prompt,
    /// The button of the backup.
    Backup,
    Menu,
    Palette,
    Ignored,
    Dialog,
    Page,
    /// The menu of what is under the pointer.
    ContextMenu,
    Tab(Tab),
    /// The page, which gets the focus.
    FocusPage,
}

impl MouseRoute {
    /// The mouse acts on what is shown in front of the page.
    pub open spec fn is_front(self) -> bool {
        self is Prompt || self is Menu || self is Palette || self is Dialog
    }
}

/// The first tab, from `at` on, under a cell.
pub open spec fn tab_under(rects: Seq<(Rect, Tab)>, x: int, y: int, at: int) -> Option<Tab>
    decreases rects.len() - at,
{
    if at < 0 || at >= rects.len() {
        None
    } else if rects[at].0.has(x, y) {
        Some(rects[at].1)
    } else {
        tab_under(rects, x, y, at + 1)
    }
}

/// A button went down.
pub open spec fn presses(kind: MouseKind) -> bool {
    kind == MouseKind::Down || kind == MouseKind::RightDown || kind == MouseKind::MiddleDown
}

impl AppView {
    /// Who gets a move of the mouse: what is shown on top first.
    pub open spec fn mouse_route(self, event: MouseEvent, facts: PageFacts) -> MouseRoute {
        let x = event.column as int;
        let y = event.row as int;
        if self.quit_prompt is Some {
            MouseRoute::Prompt
        } else if event.kind == MouseKind::Down && self.modal is None && self.context_menu is None
            && self.command_palette is None && self.sync_button.has(x, y) {
            MouseRoute::Backup
        } else if self.context_menu is Some {
            MouseRoute::Menu
        } else if self.command_palette is Some {
            MouseRoute::Palette
        } else if self.batch_running && owns_batch(self.modal) {
            MouseRoute::Ignored
        } else if self.modal is Some {
            MouseRoute::Dialog
        } else if self.tab == Tab::Agents && facts.group_popup {
            MouseRoute::Page
        } else if event.kind == MouseKind::RightDown {
            MouseRoute::ContextMenu
        } else if event.kind == MouseKind::Down && tab_under(self.tab_rects, x, y, 0) is Some {
            MouseRoute::Tab(tab_under(self.tab_rects, x, y, 0)->0)
        } else if !self.body.has(x, y) {
            MouseRoute::Ignored
        } else if presses(event.kind) {
            MouseRoute::FocusPage
        } else if self.focus == AppFocus::Tabs {
            MouseRoute::Ignored
        } else {
            MouseRoute::Page
        }
    }

    /// The question before quitting takes a press.
    pub open spec fn prompt_moused(self, event: MouseEvent) -> AppView {
        let prompt = self.quit_prompt->0;
        let x = event.column as int;
        let y = event.row as int;
        if event.kind != MouseKind::Down {
            self
        } else if prompt.force_exit_button.has(x, y) {
            AppView { quit: true, quit_prompt: None, ..self }
        } else if prompt.cancel_button.has(x, y) || !prompt.area.has(x, y) {
            AppView { quit_prompt: None, ..self }
        } else {
            self
        }
    }
}

impl App {
    /// What a move of the mouse that went this way did.
    pub open spec fn mouse_routed(
        self,
        route: MouseRoute,
        event: MouseEvent,
        around: Surfaces,
        after: App,
        turn: Turn,
    ) -> bool {
        let before = self@;
        match route {
            MouseRoute::Prompt => after@ == before.prompt_moused(event) && turn.is_nothing(),
            MouseRoute::Backup => after@ == AppView {
                waiting: Some(crate::app::effects::Waiting::SyncSettings),
                ..before
            } && turn.is_nothing(),
            MouseRoute::Menu => {
                let menu = before.context_menu->0;
                after@ == before.menu_did(menu.moused(event), menu.mouse_event(event))
                    && turn.is_nothing()
            },
            MouseRoute::Palette => {
                let palette = before.command_palette->0;
                let (next, reply) = before.palette_did(
                    palette.moused(event),
                    palette.mouse_event(event),
                );
                after@ == next && turn is Acts && reply.told(before.snap, around.icons, turn.acts())
            },
            MouseRoute::Ignored => after@ == before && turn.is_nothing(),
            MouseRoute::Dialog => {
                &&& self.modal is Some
                &&& after.modal is Some
                &&& turn is Acts
                &&& self.modal->0.takes_mouse(
                    event,
                    before.snap,
                    around.dialog,
                    after.modal->0,
                    turn.acts(),
                )
                &&& after@ == AppView { modal: after@.modal, ..before }
            },
            MouseRoute::Page => after@ == before && turn == Turn::Page(PageCall::Mouse),
            MouseRoute::ContextMenu => {
                &&& turn.is_nothing()
                &&& match around.menu {
                    Some(request) => after@ == AppView {
                        focus: AppFocus::Page,
                        context_menu: Some(
                            MenuView {
                                request,
                                anchor: (event.column, event.row),
                                selected: 0,
                                offset: 0,
                                area: Rect::zero(),
                                hits: Seq::empty(),
                            },
                        ),
                        ..before
                    },
                    None => after@ == before,
                }
            },
            MouseRoute::Tab(tab) => after@ == AppView {
                focus: AppFocus::Page,
                ..before.switched(tab)
            } && turn.is_nothing(),
            MouseRoute::FocusPage => after@ == AppView { focus: AppFocus::Page, ..before } && turn
                == Turn::Page(PageCall::Mouse),
        }
    }

    fn find_tab(&self, x: u16, y: u16) -> (r: Option<Tab>)
        ensures
            r == tab_under(self.tab_rects@, x as int, y as int, 0),
    {
        let mut i: usize = 0;
        while i < self.tab_rects.len()
            invariant
                i <= self.tab_rects.len(),
                tab_under(self.tab_rects@, x as int, y as int, 0) == tab_under(
                    self.tab_rects@,
                    x as int,
                    y as int,
                    i as int,
                ),
            decreases self.tab_rects.len() - i,
        {
            if self.tab_rects[i].0.contains(x, y) {
                return Some(self.tab_rects[i].1);
            }
            i = i + 1;
        }
        None
    }

    /// Who gets a move of the mouse: what is shown on top first.
    pub fn route_mouse(&self, event: MouseEvent, facts: PageFacts) -> (r: MouseRoute)
        ensures
            r == self@.mouse_route(event, facts),
    {
        let (x, y): (u16, u16) = (event.column, event.row);
        if self.quit_prompt.is_some() {
            return MouseRoute::Prompt;
        }
        if event.kind == MouseKind::Down && self.modal.is_none() && self.context_menu.is_none()
            && self.command_palette.is_none() && self.sync_button.contains(x, y) {
            return MouseRoute::Backup;
        }
        if self.context_menu.is_some() {
            return MouseRoute::Menu;
        }
        if self.command_palette.is_some() {
            return MouseRoute::Palette;
        }
        if self.batch_running && matches!(
            self.modal,
            Some(Modal::Batch(_)) | Some(Modal::PresetSkills(_))
        ) {
            return MouseRoute::Ignored;
        }
        if self.modal.is_some() {
            return MouseRoute::Dialog;
        }
        if self.tab == Tab::Agents && facts.group_popup {
            return MouseRoute::Page;
        }
        if event.kind == MouseKind::RightDown {
            return MouseRoute::ContextMenu;
        }
        if event.kind == MouseKind::Down {
            match self.find_tab(x, y) {
                Some(tab) => {
                    return MouseRoute::Tab(tab);
                },
                None => {},
            }
        }
        if !self.body.contains(x, y) {
            return MouseRoute::Ignored;
        }
        if event.kind == MouseKind::Down || event.kind == MouseKind::MiddleDown {
            return MouseRoute::FocusPage;
        }
        if self.focus == AppFocus::Tabs {
            return MouseRoute::Ignored;
        }
        MouseRoute::Page
    }

    fn prompt_mouse(&mut self, event: MouseEvent)
        requires
            old(self).valid(),
            old(self)@.quit_prompt is Some,
        ensures
            final(self)@ == old(self)@.prompt_moused(event),
            final(self).valid(),
    {
        reveal(App::valid);
        match self.quit_prompt {
            Some(prompt) => {
                let (x, y): (u16, u16) = (event.column, event.row);
                if event.kind == MouseKind::Down {
                    if prompt.force_exit_button.contains(x, y) {
                        self.quit = true;
                        self.quit_prompt = None;
                    } else if prompt.cancel_button.contains(x, y) || !prompt.area.contains(x, y) {
                        self.quit_prompt = None;
                    }
                }
            },
            None => {},
        }
    }

    fn menu_mouse(&mut self, event: MouseEvent)
        requires
            old(self).valid(),
            old(self)@.context_menu is Some,
        ensures
            final(self)@ == old(self)@.menu_did(
                old(self)@.context_menu->0.moused(event),
                old(self)@.context_menu->0.mouse_event(event),
            ),
            final(self).valid(),
    {
        reveal(App::valid);
        let did = match &mut self.context_menu {
            Some(menu) => menu.mouse(event),
            None => MenuEvent::Stay,
        };
        self.context_event(did);
    }

    fn palette_mouse(&mut self, event: MouseEvent, icons: Icons) -> (r: Vec<Action>)
        requires
            old(self).valid(),
            old(self)@.command_palette is Some,
        ensures
            final(self)@ == old(self)@.palette_did(
                old(self)@.command_palette->0.moused(event),
                old(self)@.command_palette->0.mouse_event(event),
            ).0,
            old(self)@.palette_did(
                old(self)@.command_palette->0.moused(event),
                old(self)@.command_palette->0.mouse_event(event),
            ).1.told(old(self)@.snap, icons, r@),
            all_sound(r@),
            final(self).valid(),
    {
        reveal(App::valid);
        let did = match &mut self.command_palette {
            Some(palette) => palette.mouse(event),
            None => PaletteEvent::Stay,
        };
        self.palette_event(did, icons)
    }

    fn dialog_mouse(&mut self, event: MouseEvent, dialog: &Facts) -> (r: Vec<Action>)
        requires
            old(self).valid(),
            old(self).modal is Some,
        ensures
            final(self).modal is Some,
            old(self).modal->0.takes_mouse(
                event,
                old(self)@.snap,
                *dialog,
                final(self).modal->0,
                r@,
            ),
            final(self)@ == (AppView { modal: final(self)@.modal, ..old(self)@ }),
            all_sound(r@),
            final(self).valid(),
    {
        reveal(App::valid);
        let ghost before = self.modal->0;
        let r = match &mut self.modal {
            Some(modal) => modal.handle_mouse(event, &self.snap, dialog),
            None => nothing(),
        };
        proof {
            crate::modal::lemma_mouse_asks_soundly(
                before,
                event,
                self.snap,
                *dialog,
                self.modal->0,
                r@,
            );
        }
        r
    }

    fn open_menu(&mut self, event: MouseEvent, menu: Option<Request>)
        requires
            old(self).valid(),
            menu is Some ==> menu->0.items@.len() <= 0x3fff_ffff,
        ensures
            final(self)@ == match menu {
                Some(request) => AppView {
                    focus: AppFocus::Page,
                    context_menu: Some(
                        MenuView {
                            request,
                            anchor: (event.column, event.row),
                            selected: 0,
                            offset: 0,
                            area: Rect::zero(),
                            hits: Seq::empty(),
                        },
                    ),
                    ..old(self)@
                },
                None => old(self)@,
            },
            final(self).valid(),
    {
        reveal(App::valid);
        match menu {
            Some(request) => {
                self.focus = AppFocus::Page;
                self.context_menu = Some(ContextMenu::new(request, event.column, event.row));
            },
            None => {},
        }
    }

    /// The mouse acts on what is shown in front of the page.
    fn front_mouse(&mut self, route: MouseRoute, event: MouseEvent, around: &Surfaces) -> (r: Turn)
        requires
            old(self).valid(),
            route.is_front(),
            route is Prompt ==> old(self)@.quit_prompt is Some,
            route is Menu ==> old(self)@.context_menu is Some,
            route is Palette ==> old(self)@.command_palette is Some,
            route is Dialog ==> old(self).modal is Some,
        ensures
            old(self).mouse_routed(route, event, *around, *final(self), r),
            all_sound(r.acts()),
            final(self).valid(),
    {
        match route {
            MouseRoute::Prompt => {
                self.prompt_mouse(event);
                Turn::Acts(nothing())
            },
            MouseRoute::Menu => {
                self.menu_mouse(event);
                Turn::Acts(nothing())
            },
            MouseRoute::Palette => Turn::Acts(self.palette_mouse(event, around.icons)),
            MouseRoute::Dialog => Turn::Acts(self.dialog_mouse(event, &around.dialog)),
            _ => Turn::Acts(nothing()),
        }
    }

    /// The mouse was moved, or one of its buttons used.
    pub fn on_mouse(&mut self, event: MouseEvent, facts: PageFacts, around: Surfaces) -> (r: Turn)
        requires
            old(self).valid(),
            around.valid(),
        ensures
            old(self).mouse_routed(
                old(self)@.mouse_route(event, facts),
                event,
                around,
                *final(self),
                r,
            ),
            all_sound(r.acts()),
            final(self).valid(),
    {
        let route = self.route_mouse(event, facts);
        match route {
            MouseRoute::Prompt | MouseRoute::Menu | MouseRoute::Palette | MouseRoute::Dialog => {
                self.front_mouse(route, event, &around)
            },
            MouseRoute::Backup => Turn::Acts(self.open_sync()),
            MouseRoute::Ignored => Turn::Acts(nothing()),
            MouseRoute::Page => Turn::Page(PageCall::Mouse),
            MouseRoute::ContextMenu => {
                self.open_menu(event, around.menu);
                Turn::Acts(nothing())
            },
            MouseRoute::Tab(tab) => {
                self.switch_tab(tab);
                self.take_focus(AppFocus::Page);
                Turn::Acts(nothing())
            },
            MouseRoute::FocusPage => {
                self.take_focus(AppFocus::Page);
                Turn::Page(PageCall::Mouse)
            },
        }
    }
}

// ---- laws --------------------------------------------------------------------

/// A press on a tab shows its page with the focus on it.
pub proof fn lemma_mouse_tab_keeps_the_page_active(app: AppView, event: MouseEvent, facts: PageFacts)
    requires
        app.mouse_route(event, facts) is Tab,
    ensures
        ({
            let tab = app.mouse_route(event, facts)->Tab_0;
            let after = AppView { focus: AppFocus::Page, ..app.switched(tab) };
            after.tab == app.shown_tab(tab) && after.focus == AppFocus::Page
        }),
{
    reveal(AppView::switched);
}

/// While something is shown over the page, the mouse reaches neither page nor tabs.
pub proof fn lemma_overlays_keep_the_mouse_from_pages(app: AppView, event: MouseEvent, facts: PageFacts)
    requires
        app.modal is Some || app.context_menu is Some || app.command_palette is Some
            || app.quit_prompt is Some,
    ensures
        app.mouse_route(event, facts) !is Page,
        app.mouse_route(event, facts) !is FocusPage,
        app.mouse_route(event, facts) !is Tab,
        app.mouse_route(event, facts) !is Backup,
{
}

/// The tab under the pointer is the first one whose cells hold it.
pub proof fn lemma_the_first_tab_is_pressed(rects: Seq<(Rect, Tab)>, x: int, y: int, at: int, i: int)
    requires
        0 <= at <= i < rects.len(),
        rects[i].0.has(x, y),
        forall|j: int| at <= j < i ==> !(#[trigger] rects[j]).0.has(x, y),
    ensures
        tab_under(rects, x, y, at) == Some(rects[i].1),
    decreases i - at,
{
    if at < i {
        assert(!rects[at].0.has(x, y));
        lemma_the_first_tab_is_pressed(rects, x, y, at + 1, i);
    }
}

/// Where no tab holds the pointer, no tab is pressed.
pub proof fn lemma_no_tab_is_pressed(rects: Seq<(Rect, Tab)>, x: int, y: int, at: int)
    requires
        0 <= at <= rects.len(),
        forall|j: int| at <= j < rects.len() ==> !(#[trigger] rects[j]).0.has(x, y),
    ensures
        tab_under(rects, x, y, at) is None,
    decreases rects.len() - at,
{
    if at < rects.len() {
        assert(!rects[at].0.has(x, y));
        lemma_no_tab_is_pressed(rects, x, y, at + 1);
    }
}

/// While nothing is shown over the page a press on a tab shows that tab, a press on the
/// button of the backup opens its dialog, and a press on the page gives it the focus.
pub proof fn lemma_what_a_press_does(
    before: App,
    event: MouseEvent,
    facts: PageFacts,
    around: Surfaces,
    after: App,
    turn: Turn,
    i: int,
)
    requires
        before@.quit_prompt is None,
        before@.context_menu is None,
        before@.command_palette is None,
        before@.modal is None,
        !(before@.tab == Tab::Agents && facts.group_popup),
        event.kind == MouseKind::Down,
        before.mouse_routed(before@.mouse_route(event, facts), event, around, after, turn),
    ensures
        ({
            let x = event.column as int;
            let y = event.row as int;
            let rects = before@.tab_rects;
            let on_button = before@.sync_button.has(x, y);
            let on_tab = 0 <= i < rects.len() && rects[i].0.has(x, y) && forall|j: int|
                0 <= j < i ==> !(#[trigger] rects[j]).0.has(x, y);
            let off_tabs = forall|j: int|
                0 <= j < rects.len() ==> !(#[trigger] rects[j]).0.has(x, y);
            &&& on_button ==> after@ == (AppView {
                waiting: Some(crate::app::effects::Waiting::SyncSettings),
                ..before@
            }) && turn.is_nothing()
            &&& !on_button && on_tab ==> {
                &&& after@.tab == before@.shown_tab(rects[i].1)
                &&& after@.focus == AppFocus::Page
                &&& turn.is_nothing()
            }
            &&& !on_button && off_tabs && before@.body.has(x, y) ==> {
                &&& after@ == (AppView { focus: AppFocus::Page, ..before@ })
                &&& turn == Turn::Page(PageCall::Mouse)
            }
            &&& !on_button && off_tabs && !before@.body.has(x, y) ==> after@ == before@
                && turn.is_nothing()
        }),
{
    reveal(AppView::switched);
    let x = event.column as int;
    let y = event.row as int;
    let rects = before@.tab_rects;
    if 0 <= i < rects.len() && rects[i].0.has(x, y) && (forall|j: int|
        0 <= j < i ==> !(#[trigger] rects[j]).0.has(x, y)) {
        lemma_the_first_tab_is_pressed(rects, x, y, 0, i);
    }
    if forall|j: int| 0 <= j < rects.len() ==> !(#[trigger] rects[j]).0.has(x, y) {
        lemma_no_tab_is_pressed(rects, x, y, 0);
    }
}

/// The right button opens the menu of what is under the pointer, there, with nothing else
/// selected; where there is nothing, nothing happens.
pub proof fn lemma_the_right_button_opens_the_menu(
    before: App,
    event: MouseEvent,
    facts: PageFacts,
    around: Surfaces,
    after: App,
    turn: Turn,
)
    requires
        before@.quit_prompt is None,
        before@.context_menu is None,
        before@.command_palette is None,
        before@.modal is None,
        !(before@.tab == Tab::Agents && facts.group_popup),
        event.kind == MouseKind::RightDown,
        before.mouse_routed(before@.mouse_route(event, facts), event, around, after, turn),
    ensures
        turn.is_nothing(),
        around.menu is None ==> after@ == before@,
        around.menu is Some ==> {
            &&& after@.context_menu is Some
            &&& after@.context_menu->0.request == around.menu->0
            &&& after@.context_menu->0.anchor == (event.column, event.row)
            &&& after@.context_menu->0.selected == 0
            &&& after@.focus == AppFocus::Page
            &&& after@.tab == before@.tab
        },
{
}

/// The question before quitting: its button quits, the other and a press beside it go back.
pub proof fn lemma_mouse_of_the_quit_question(
    before: App,
    event: MouseEvent,
    facts: PageFacts,
    around: Surfaces,
    after: App,
    turn: Turn,
)
    requires
        before@.quit_prompt is Some,
        before.mouse_routed(before@.mouse_route(event, facts), event, around, after, turn),
    ensures
        ({
            let prompt = before@.quit_prompt->0;
            let x = event.column as int;
            let y = event.row as int;
            let pressed = event.kind == MouseKind::Down;
            &&& turn.is_nothing()
            &&& pressed && prompt.force_exit_button.has(x, y) ==> after@.quit && after@.quit_prompt
                is None
            &&& pressed && !prompt.force_exit_button.has(x, y) && (prompt.cancel_button.has(x, y)
                || !prompt.area.has(x, y)) ==> after@.quit == before@.quit && after@.quit_prompt
                is None
            &&& !pressed || (prompt.area.has(x, y) && !prompt.force_exit_button.has(x, y)
                && !prompt.cancel_button.has(x, y)) ==> after@ == before@
        }),
{
}

/// The wheel and moves over the page go to it, but not while the tabs have the focus, nor
/// beside it.
pub proof fn lemma_the_wheel_goes_to_the_page(
    before: App,
    event: MouseEvent,
    facts: PageFacts,
    around: Surfaces,
    after: App,
    turn: Turn,
)
    requires
        before@.quit_prompt is None,
        before@.context_menu is None,
        before@.command_palette is None,
        before@.modal is None,
        !(before@.tab == Tab::Agents && facts.group_popup),
        event.kind == MouseKind::ScrollDown || event.kind == MouseKind::ScrollUp,
        before.mouse_routed(before@.mouse_route(event, facts), event, around, after, turn),
    ensures
        after@ == before@,
        before@.focus == AppFocus::Page && before@.body.has(
            event.column as int,
            event.row as int,
        ) ==> turn == Turn::Page(PageCall::Mouse),
        before@.focus == AppFocus::Tabs || !before@.body.has(
            event.column as int,
            event.row as int,
        ) ==> turn.is_nothing(),
{
}

} // verus!
