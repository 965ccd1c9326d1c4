//! Which part of the application gets a key or a paste, and what follows from it.

use crate::app::effects::{all_sound, Effect, Waiting};
use crate::app::quit::QuitPrompt;
use crate::app::state::{owns_batch, App, AppView, PageFacts};
use crate::app::{
    both, complain, complains, is_toast, nothing, only, visible_tabs, Action, AppFocus, Step, Tab,
};
use crate::components::command_palette::{
    Command, CommandPalette, Event as PaletteEvent, PaletteView,
};
use crate::components::context_menu::{ContextMenu, MenuEvent, MenuView, Request};
use crate::dialogs::browser::lists_repositories;
use crate::dialogs::message::Help;
use crate::dialogs::prompt::{asked, KindView};
use crate::geometry::Rect;
use crate::keymap::{control, plain, KeyCode, KeyEvent};
use crate::modal::{Facts, Modal, ModalView, TAGS_NOTE};
use crate::model::{Icons, Snapshot, Write};
use crate::text::cat2;
use crate::widgets::{empty_input, is_multiline, paste_refused};
use vstd::prelude::*;

verus! {

/// A page is asked to do something with an event.
#[derive(Debug, Clone, Copy, PartialEq, Eq, Structural)]
pub enum PageCall {
    Key,
    /// A key with a command modifier.
    Control,
    /// The matrix of the agents first; what it does not take goes on.
    Matrix,
    Paste,
    Mouse,
}

/// What an event comes to: actions, or a call of the page that is shown.
#[derive(Debug)]
pub enum Turn {
    Acts(Vec<Action>),
    Page(PageCall),
}

impl Turn {
    /// The actions, where it comes to actions.
    pub open spec fn acts(self) -> Seq<Action> {
        match self {
            Turn::Acts(actions) => actions@,
            Turn::Page(_) => Seq::empty(),
        }
    }

    /// The call of a page, where it comes to one.
    pub open spec fn call(self) -> Option<PageCall> {
        match self {
            Turn::Acts(_) => None,
            Turn::Page(call) => Some(call),
        }
    }

    pub open spec fn is_acts(self, actions: Seq<Action>) -> bool {
        self is Acts && self.acts() == actions
    }

    pub open spec fn is_nothing(self) -> bool {
        self is Acts && self.acts().len() == 0
    }
}

fn still() -> (r: Turn)
    ensures
        r.is_nothing(),
{
    Turn::Acts(nothing())
}

// ---- commands ----------------------------------------------------------------

/// What a command asks for.
pub ghost enum CommandReply {
    Nothing,
    Busy,
    Rescan,
    Install,
    Repositories,
    Repair,
    ToggleTags(bool),
    Help,
}

pub open spec fn opens(actions: Seq<Action>) -> Option<Modal> {
    if actions.len() == 1 {
        match actions[0] {
            Action::OpenModal(modal) => Some(*modal),
            _ => None,
        }
    } else {
        None
    }
}

impl CommandReply {
    #[verifier::opaque]
    pub open spec fn told(self, snap: Snapshot, icons: Icons, actions: Seq<Action>) -> bool {
        match self {
            CommandReply::Nothing => actions.len() == 0,
            CommandReply::Busy => actions.len() == 1 && is_toast(
                actions[0],
                "An operation is still running; retry when it finishes"@,
            ),
            CommandReply::Rescan => actions.len() == 2 && actions[0] == Action::Rescan && is_toast(
                actions[1],
                "rescanning"@,
            ),
            CommandReply::Install => opens(actions) matches Some(modal) && modal@
                == ModalView::Input(
                asked(
                    " install a skill "@,
                    empty_input(),
                    KindView::Install,
                    "owner/repo[/path] · Git or archive URL · local path\nEnter install · Esc cancel"@,
                ),
            ),
            CommandReply::Repositories => opens(actions) matches Some(Modal::Picker(b))
                && lists_repositories(b@, snap, icons),
            CommandReply::Repair => opens(actions) == Some(Modal::HealthRepair(0)),
            CommandReply::ToggleTags(enabled) => opens(actions) matches Some(modal) && modal.write()
                == Some(Write::SetTagsEnabled(enabled)) && modal.questions(
                "Settings · Tags"@,
                seq![
                    if enabled {
                        "Tags: false → true"@
                    } else {
                        "Tags: true → false"@
                    },
                    TAGS_NOTE@,
                ],
                None,
            ),
            CommandReply::Help => opens(actions) == Some(Modal::Help(Help { scroll: 0 })),
        }
    }
}

impl AppView {
    /// A step of the history is planned, unless a batch is running.
    pub open spec fn stepping(self, step: Step) -> (AppView, CommandReply) {
        if self.batch_running {
            (self, CommandReply::Busy)
        } else {
            (AppView { waiting: Some(Waiting::Plan(step)), ..self }, CommandReply::Nothing)
        }
    }

    /// What a command does.
    pub open spec fn commanded(self, command: Command) -> (AppView, CommandReply) {
        match command {
            Command::Rescan => (self, CommandReply::Rescan),
            Command::Install => (self, CommandReply::Install),
            Command::Repositories => (self, CommandReply::Repositories),
            Command::Repair => (self, CommandReply::Repair),
            Command::RootSync => (
                AppView { waiting: Some(Waiting::SyncSettings), ..self },
                CommandReply::Nothing,
            ),
            Command::ToggleTags => (self, CommandReply::ToggleTags(!self.tags_enabled)),
            Command::Undo => self.stepping(Step::Undo),
            Command::Redo => self.stepping(Step::Redo),
            Command::Help => (self, CommandReply::Help),
        }
    }
}

impl App {
    fn open(modal: Modal) -> (r: Vec<Action>)
        requires
            modal.valid(),
        ensures
            opens(r@) == Some(modal),
            all_sound(r@),
    {
        only(Action::OpenModal(Box::new(modal)))
    }

    /// Takes one step back or forward in the history.
    pub(crate) fn step(&mut self, direction: Step) -> (r: Vec<Action>)
        requires
            old(self).valid(),
        ensures
            final(self)@ == old(self)@.stepping(direction).0,
            forall|snap: Snapshot, icons: Icons|
                #[trigger] old(self)@.stepping(direction).1.told(snap, icons, r@),
            all_sound(r@),
            final(self).valid(),
    {
        reveal(CommandReply::told);
        if self.batch_running {
            return only(
                Action::Toast(
                    "An operation is still running; retry when it finishes".to_owned(),
                ),
            );
        }
        self.wait(Waiting::Plan(direction));
        nothing()
    }

    /// Opens the dialog of the backup once its settings are read.
    pub fn open_sync(&mut self) -> (r: Vec<Action>)
        requires
            old(self).valid(),
        ensures
            final(self)@ == (AppView {
                waiting: Some(Waiting::SyncSettings),
                ..old(self)@
            }),
            r@.len() == 0,
            final(self).valid(),
    {
        self.wait(Waiting::SyncSettings);
        nothing()
    }

    pub(crate) fn run_command(&mut self, command: Command, icons: Icons) -> (r: Vec<Action>)
        requires
            old(self).valid(),
        ensures
            final(self)@ == old(self)@.commanded(command).0,
            old(self)@.commanded(command).1.told(old(self)@.snap, icons, r@),
            all_sound(r@),
            final(self).valid(),
    {
        reveal(CommandReply::told);
        match command {
            Command::Rescan => both(Action::Rescan, Action::Toast("rescanning".to_owned())),
            Command::Install => App::open(Modal::install()),
            Command::Repositories => App::open(Modal::repositories(&self.snap, icons)),
            Command::Repair => App::open(Modal::HealthRepair(0)),
            Command::RootSync => self.open_sync(),
            Command::ToggleTags => App::open(Modal::toggle_tags(!self.tags_enabled)),
            Command::Undo => {
                let r = self.step(Step::Undo);
                assert(old(self)@.stepping(Step::Undo).1.told(old(self)@.snap, icons, r@));
                r
            },
            Command::Redo => {
                let r = self.step(Step::Redo);
                assert(old(self)@.stepping(Step::Redo).1.told(old(self)@.snap, icons, r@));
                r
            },
            Command::Help => App::open(Modal::help()),
        }
    }
}

// ---- the menu and the palette ------------------------------------------------

impl AppView {
    /// The menu took an event.
    pub open spec fn menu_did(self, menu: MenuView, event: MenuEvent) -> AppView {
        match event {
            MenuEvent::Stay => AppView { context_menu: Some(menu), ..self },
            MenuEvent::Close => AppView { context_menu: None, ..self },
            MenuEvent::Execute(command) => AppView { context_menu: None, ..self }.does(
                Effect::MenuCommand(Box::new(menu.request), command),
            ),
        }
    }

    /// The palette took an event.
    pub open spec fn palette_did(self, palette: PaletteView, event: PaletteEvent) -> (
        AppView,
        CommandReply,
    ) {
        match event {
            PaletteEvent::Stay => (
                AppView { command_palette: Some(palette), ..self },
                CommandReply::Nothing,
            ),
            PaletteEvent::Close => (
                AppView { command_palette: None, ..self },
                CommandReply::Nothing,
            ),
            PaletteEvent::Execute(command) => AppView { command_palette: None, ..self }.commanded(
                command,
            ),
        }
    }
}

impl App {
    pub(crate) fn context_event(&mut self, event: MenuEvent)
        requires
            old(self).valid(),
            old(self)@.context_menu is Some,
        ensures
            final(self)@ == old(self)@.menu_did(old(self)@.context_menu->0, event),
            final(self).valid(),
    {
        reveal(App::valid);
        match event {
            MenuEvent::Stay => {},
            MenuEvent::Close => {
                self.context_menu = None;
            },
            MenuEvent::Execute(command) => {
                match self.context_menu.take() {
                    Some(menu) => self.emit(
                        Effect::MenuCommand(Box::new(menu.request), command),
                    ),
                    None => {},
                }
            },
        }
    }

    pub(crate) fn palette_event(&mut self, event: PaletteEvent, icons: Icons) -> (r: Vec<Action>)
        requires
            old(self).valid(),
            old(self)@.command_palette is Some,
        ensures
            final(self)@ == old(self)@.palette_did(old(self)@.command_palette->0, event).0,
            old(self)@.palette_did(old(self)@.command_palette->0, event).1.told(
                old(self)@.snap,
                icons,
                r@,
            ),
            all_sound(r@),
            final(self).valid(),
    {
        reveal(App::valid);
        reveal(CommandReply::told);
        match event {
            PaletteEvent::Stay => nothing(),
            PaletteEvent::Close => {
                self.command_palette = None;
                nothing()
            },
            PaletteEvent::Execute(command) => {
                self.command_palette = None;
                self.run_command(command, icons)
            },
        }
    }
}

// ---- tabs --------------------------------------------------------------------

/// Where a tab is among those that are shown; the first one for one that is not.
pub open spec fn tab_index(tags_enabled: bool, tab: Tab) -> int {
    match tab {
        Tab::Search => 0,
        Tab::Tags => if tags_enabled {
            1
        } else {
            0
        },
        Tab::Presets => if tags_enabled {
            2
        } else {
            1
        },
        Tab::Agents => if tags_enabled {
            3
        } else {
            2
        },
        Tab::Repos => if tags_enabled {
            4
        } else {
            3
        },
        Tab::Health => if tags_enabled {
            5
        } else {
            4
        },
    }
}

/// The tab after this one; the first follows the last.
pub open spec fn next_tab(tags_enabled: bool, tab: Tab) -> Tab {
    let tabs = visible_tabs(tags_enabled);
    let at = tab_index(tags_enabled, tab) + 1;
    if at < tabs.len() {
        tabs[at]
    } else {
        tabs[0]
    }
}

/// The tab before this one; the last precedes the first.
pub open spec fn previous_tab(tags_enabled: bool, tab: Tab) -> Tab {
    let tabs = visible_tabs(tags_enabled);
    let at = tab_index(tags_enabled, tab) - 1;
    if at >= 0 {
        tabs[at]
    } else {
        tabs.last()
    }
}

/// The number that a digit from one on stands for, counted from zero.
pub open spec fn digit_index(c: char) -> Option<int> {
    if '1' <= c <= '6' {
        Some(c as int - '1' as int)
    } else {
        None
    }
}

/// The tab with a number.
pub open spec fn numbered_tab(tags_enabled: bool, at: int) -> Option<Tab> {
    let tabs = visible_tabs(tags_enabled);
    if at < tabs.len() {
        Some(tabs[at])
    } else {
        None
    }
}

fn index_of(tags_enabled: bool, tab: Tab) -> (r: usize)
    ensures
        r == tab_index(tags_enabled, tab),
        r < visible_tabs(tags_enabled).len(),
{
    let shift: usize = if tags_enabled {
        1
    } else {
        0
    };
    match tab {
        Tab::Search => 0,
        Tab::Tags => shift,
        Tab::Presets => 1 + shift,
        Tab::Agents => 2 + shift,
        Tab::Repos => 3 + shift,
        Tab::Health => 4 + shift,
    }
}

pub fn tab_after(tags_enabled: bool, tab: Tab) -> (r: Tab)
    ensures
        r == next_tab(tags_enabled, tab),
{
    let tabs = Tab::visible(tags_enabled);
    let at = index_of(tags_enabled, tab) + 1;
    if at < tabs.len() {
        tabs[at]
    } else {
        tabs[0]
    }
}

pub fn tab_before(tags_enabled: bool, tab: Tab) -> (r: Tab)
    ensures
        r == previous_tab(tags_enabled, tab),
{
    let tabs = Tab::visible(tags_enabled);
    let at = index_of(tags_enabled, tab);
    if at >= 1 {
        tabs[at - 1]
    } else {
        tabs[tabs.len() - 1]
    }
}

fn digit_of(c: char) -> (r: Option<usize>)
    ensures
        match r {
            Some(n) => digit_index(c) == Some(n as int),
            None => digit_index(c) is None,
        },
{
    match c {
        '1' => Some(0),
        '2' => Some(1),
        '3' => Some(2),
        '4' => Some(3),
        '5' => Some(4),
        '6' => Some(5),
        _ => None,
    }
}

fn numbered(tags_enabled: bool, at: usize) -> (r: Option<Tab>)
    ensures
        r == numbered_tab(tags_enabled, at as int),
{
    let tabs = Tab::visible(tags_enabled);
    if at < tabs.len() {
        Some(tabs[at])
    } else {
        None
    }
}

// ---- keys --------------------------------------------------------------------

/// Who gets a key.
#[derive(Debug, Clone, Copy, PartialEq, Eq, Structural)]
pub enum KeyRoute {
    /// The question before quitting.
    Prompt,
    Quit,
    Menu,
    Palette,
    Ignored,
    Dialog,
    Page(PageCall),
    Run(Command),
    OpenPalette,
    /// The menu of what can be done on the page.
    Actions,
    /// From the tabs into the page; `from_above` goes to its topmost part.
    Enter { from_above: bool },
    Switch(Tab),
}

impl KeyRoute {
    /// The key goes to what is shown in front of the page.
    pub open spec fn is_front(self) -> bool {
        self is Prompt || self is Menu || self is Palette || self is Dialog
    }
}

pub open spec fn switches_to(tab: Option<Tab>) -> KeyRoute {
    match tab {
        Some(tab) => KeyRoute::Switch(tab),
        None => KeyRoute::Ignored,
    }
}

fn switching_to(tab: Option<Tab>) -> (r: KeyRoute)
    ensures
        r == switches_to(tab),
{
    match tab {
        Some(tab) => KeyRoute::Switch(tab),
        None => KeyRoute::Ignored,
    }
}

pub open spec fn is_tab_key(code: KeyCode) -> bool {
    code == KeyCode::Tab || code == KeyCode::BackTab
}

impl AppView {
    /// A text field of the page has the keyboard.
    pub open spec fn typing(self, facts: PageFacts) -> bool {
        self.focus == AppFocus::Page && facts.page_input
    }

    /// What a key with Control alone does everywhere.
    pub open spec fn shortcut(self, key: KeyEvent) -> Option<Command> {
        if key.is_control('r') {
            Some(Command::Rescan)
        } else if key.is_control('o') {
            Some(Command::ToggleTags)
        } else if key.is_control('g') {
            Some(Command::Help)
        } else if key.is_control('z') {
            Some(Command::Undo)
        } else if key.is_control('y') {
            Some(Command::Redo)
        } else {
            None
        }
    }

    /// Who gets a key while the tabs have the focus.
    pub open spec fn strip_route(self, key: KeyEvent) -> KeyRoute {
        match key.code {
            KeyCode::Esc => KeyRoute::Quit,
            KeyCode::Enter => KeyRoute::Enter { from_above: false },
            KeyCode::Down => KeyRoute::Enter { from_above: true },
            KeyCode::Left => KeyRoute::Switch(previous_tab(self.tags_enabled, self.tab)),
            KeyCode::BackTab => KeyRoute::Switch(previous_tab(self.tags_enabled, self.tab)),
            KeyCode::Right => KeyRoute::Switch(next_tab(self.tags_enabled, self.tab)),
            KeyCode::Tab => KeyRoute::Switch(next_tab(self.tags_enabled, self.tab)),
            KeyCode::Char(c) => if c == 'q' {
                KeyRoute::Quit
            } else if digit_index(c) is Some {
                switches_to(numbered_tab(self.tags_enabled, digit_index(c)->0))
            } else if c == '?' {
                KeyRoute::Run(Command::Help)
            } else {
                KeyRoute::Ignored
            },
            _ => KeyRoute::Ignored,
        }
    }

    /// Who gets a plain key on a page that nothing else has taken.
    pub open spec fn late_route(self, key: KeyEvent, facts: PageFacts) -> KeyRoute {
        if self.tab == Tab::Agents && (facts.agents_editing || key.code == KeyCode::Char('/')) {
            KeyRoute::Page(PageCall::Key)
        } else {
            match key.code {
                KeyCode::Char(c) => if c == 'R' {
                    KeyRoute::Run(Command::Repositories)
                } else if c == '?' {
                    KeyRoute::Run(Command::Help)
                } else if digit_index(c) is Some {
                    switches_to(numbered_tab(self.tags_enabled, digit_index(c)->0))
                } else {
                    KeyRoute::Page(PageCall::Key)
                },
                _ => KeyRoute::Page(PageCall::Key),
            }
        }
    }

    /// Who gets a plain key while nothing is shown over the page.
    pub open spec fn plain_route(self, key: KeyEvent, facts: PageFacts) -> KeyRoute {
        if key.code == KeyCode::Char(':') {
            KeyRoute::OpenPalette
        } else if key.code == KeyCode::Char('a') {
            if self.focus == AppFocus::Page {
                KeyRoute::Actions
            } else {
                KeyRoute::Ignored
            }
        } else if self.focus == AppFocus::Tabs {
            self.strip_route(key)
        } else if self.tab == Tab::Agents && facts.group_popup {
            KeyRoute::Page(PageCall::Key)
        } else if is_tab_key(key.code) {
            if self.tab == Tab::Tags && facts.tags_dialog {
                KeyRoute::Ignored
            } else if key.code == KeyCode::Tab {
                KeyRoute::Switch(next_tab(self.tags_enabled, self.tab))
            } else {
                KeyRoute::Switch(previous_tab(self.tags_enabled, self.tab))
            }
        } else if self.tab == Tab::Agents {
            KeyRoute::Page(PageCall::Matrix)
        } else {
            self.late_route(key, facts)
        }
    }

    /// Who gets a key: what is shown on top first.
    pub open spec fn key_route(self, key: KeyEvent, facts: PageFacts) -> KeyRoute {
        if self.quit_prompt is Some {
            KeyRoute::Prompt
        } else if key.is_control('c') {
            KeyRoute::Quit
        } else if self.context_menu is Some {
            KeyRoute::Menu
        } else if self.command_palette is Some {
            KeyRoute::Palette
        } else if self.batch_running && owns_batch(self.modal) {
            KeyRoute::Ignored
        } else if self.modal is Some {
            KeyRoute::Dialog
        } else if self.focus == AppFocus::Page && facts.overlay_open {
            KeyRoute::Page(PageCall::Key)
        } else if self.shortcut(key) is Some {
            KeyRoute::Run(self.shortcut(key)->0)
        } else if self.typing(facts) && !is_tab_key(key.code) {
            KeyRoute::Page(PageCall::Key)
        } else if key.modifiers.commands() {
            if self.focus == AppFocus::Tabs {
                KeyRoute::Ignored
            } else {
                KeyRoute::Page(PageCall::Control)
            }
        } else {
            self.plain_route(key, facts)
        }
    }

    /// The question before quitting takes a key.
    pub open spec fn prompt_keyed(self, key: KeyEvent) -> AppView {
        let prompt = self.quit_prompt->0;
        if key.code == KeyCode::Esc || key.code == KeyCode::Char('q') {
            AppView { quit_prompt: None, ..self }
        } else if key.code == KeyCode::Left || key.code == KeyCode::Right {
            AppView {
                quit_prompt: Some(
                    QuitPrompt { force_exit_selected: !prompt.force_exit_selected, ..prompt },
                ),
                ..self
            }
        } else if key.code == KeyCode::Enter {
            AppView { quit: prompt.force_exit_selected, quit_prompt: None, ..self }
        } else {
            self
        }
    }

    /// From the tabs into the page.
    pub open spec fn entered(self, from_above: bool) -> AppView {
        if from_above && self.tab != Tab::Agents {
            self.on_page().does(Effect::FocusFromAbove(self.tab))
        } else {
            self.on_page()
        }
    }
}

/// The menu of what can be done on the page, as it is opened by a key.
pub open spec fn is_actions_menu(menu: MenuView, request: Request) -> bool {
    &&& menu.request.title@ == "Actions · "@ + request.title@
    &&& menu.request.detail == request.detail
    &&& menu.request.target == request.target
    &&& menu.request.items == request.items
    &&& menu.anchor == (0u16, 0u16)
    &&& menu.selected == 0
    &&& menu.offset == 0
    &&& menu.area == Rect::zero()
    &&& menu.hits.len() == 0
}

/// What is known outside of the application when a key comes: what the dialog needs to
/// know, what the page offers to do, and how sources are marked.
#[derive(Debug)]
pub struct Surfaces {
    pub dialog: Facts,
    pub menu: Option<Request>,
    pub icons: Icons,
}

impl Surfaces {
    pub open spec fn valid(self) -> bool {
        self.menu is Some ==> self.menu->0.items@.len() <= 0x3fff_ffff
    }
}

impl App {
    /// What a key that went this way did.
    pub open spec fn routed(
        self,
        route: KeyRoute,
        key: KeyEvent,
        around: Surfaces,
        after: App,
        turn: Turn,
    ) -> bool {
        let before = self@;
        match route {
            KeyRoute::Prompt => after@ == before.prompt_keyed(key) && turn.is_nothing(),
            KeyRoute::Quit => after@ == before && turn.is_acts(seq![Action::Quit]),
            KeyRoute::Menu => {
                let menu = before.context_menu->0;
                after@ == before.menu_did(menu.keyed(key), menu.key_event(key))
                    && turn.is_nothing()
            },
            KeyRoute::Palette => {
                let palette = before.command_palette->0;
                let (next, reply) = before.palette_did(palette.keyed(key), palette.key_event(key));
                after@ == next && turn is Acts && reply.told(before.snap, around.icons, turn.acts())
            },
            KeyRoute::Ignored => after@ == before && turn.is_nothing(),
            KeyRoute::Dialog => {
                &&& self.modal is Some
                &&& after.modal is Some
                &&& turn is Acts
                &&& self.modal->0.takes_key(
                    key,
                    before.snap,
                    around.dialog,
                    after.modal->0,
                    turn.acts(),
                )
                &&& after@ == AppView { modal: after@.modal, ..before }
            },
            KeyRoute::Page(call) => after@ == before && turn == Turn::Page(call),
            KeyRoute::Run(command) => {
                let (next, reply) = before.commanded(command);
                after@ == next && turn is Acts && reply.told(before.snap, around.icons, turn.acts())
            },
            KeyRoute::OpenPalette => {
                &&& after@ == AppView { command_palette: after@.command_palette, ..before }
                &&& after@.command_palette == Some(PaletteView::fresh())
                &&& turn.is_nothing()
            },
            KeyRoute::Actions => {
                &&& turn.is_nothing()
                &&& after@ == AppView { context_menu: after@.context_menu, ..before }
                &&& match around.menu {
                    Some(request) => after@.context_menu matches Some(menu) && is_actions_menu(
                        menu,
                        request,
                    ),
                    None => after@.context_menu == before.context_menu,
                }
            },
            KeyRoute::Enter { from_above } => after@ == before.entered(from_above)
                && turn.is_nothing(),
            KeyRoute::Switch(tab) => after@ == before && turn.is_acts(
                seq![Action::SwitchTab(tab)],
            ),
        }
    }

    fn strip(&self, key: KeyEvent) -> (r: KeyRoute)
        ensures
            r == self@.strip_route(key),
    {
        match key.code {
            KeyCode::Esc => KeyRoute::Quit,
            KeyCode::Enter => KeyRoute::Enter { from_above: false },
            KeyCode::Down => KeyRoute::Enter { from_above: true },
            KeyCode::Left | KeyCode::BackTab => KeyRoute::Switch(
                tab_before(self.tags_enabled, self.tab),
            ),
            KeyCode::Right | KeyCode::Tab => KeyRoute::Switch(
                tab_after(self.tags_enabled, self.tab),
            ),
            KeyCode::Char(c) => {
                if c == 'q' {
                    return KeyRoute::Quit;
                }
                if c == '?' {
                    return KeyRoute::Run(Command::Help);
                }
                match digit_of(c) {
                    Some(at) => switching_to(numbered(self.tags_enabled, at)),
                    None => KeyRoute::Ignored,
                }
            },
            _ => KeyRoute::Ignored,
        }
    }

    fn late(&self, key: KeyEvent, facts: PageFacts) -> (r: KeyRoute)
        ensures
            r == self@.late_route(key, facts),
    {
        if self.tab == Tab::Agents && (facts.agents_editing || key.code == KeyCode::Char('/')) {
            return KeyRoute::Page(PageCall::Key);
        }
        match key.code {
            KeyCode::Char(c) => {
                if c == 'R' {
                    return KeyRoute::Run(Command::Repositories);
                }
                if c == '?' {
                    return KeyRoute::Run(Command::Help);
                }
                match digit_of(c) {
                    Some(at) => switching_to(numbered(self.tags_enabled, at)),
                    None => KeyRoute::Page(PageCall::Key),
                }
            },
            _ => KeyRoute::Page(PageCall::Key),
        }
    }

    fn plain_key(&self, key: KeyEvent, facts: PageFacts) -> (r: KeyRoute)
        ensures
            r == self@.plain_route(key, facts),
    {
        if key.code == KeyCode::Char(':') {
            return KeyRoute::OpenPalette;
        }
        if key.code == KeyCode::Char('a') {
            return if self.focus == AppFocus::Page {
                KeyRoute::Actions
            } else {
                KeyRoute::Ignored
            };
        }
        if self.focus == AppFocus::Tabs {
            return self.strip(key);
        }
        if self.tab == Tab::Agents && facts.group_popup {
            return KeyRoute::Page(PageCall::Key);
        }
        if key.code == KeyCode::Tab || key.code == KeyCode::BackTab {
            if self.tab == Tab::Tags && facts.tags_dialog {
                return KeyRoute::Ignored;
            }
            return if key.code == KeyCode::Tab {
                KeyRoute::Switch(tab_after(self.tags_enabled, self.tab))
            } else {
                KeyRoute::Switch(tab_before(self.tags_enabled, self.tab))
            };
        }
        if self.tab == Tab::Agents {
            return KeyRoute::Page(PageCall::Matrix);
        }
        self.late(key, facts)
    }

    /// Who gets a key: what is shown on top first.
    pub fn route_key(&self, key: KeyEvent, facts: PageFacts) -> (r: KeyRoute)
        ensures
            r == self@.key_route(key, facts),
    {
        if self.quit_prompt.is_some() {
            return KeyRoute::Prompt;
        }
        if control(key, 'c') {
            return KeyRoute::Quit;
        }
        if self.context_menu.is_some() {
            return KeyRoute::Menu;
        }
        if self.command_palette.is_some() {
            return KeyRoute::Palette;
        }
        if self.batch_running && matches!(
            self.modal,
            Some(Modal::Batch(_)) | Some(Modal::PresetSkills(_))
        ) {
            return KeyRoute::Ignored;
        }
        if self.modal.is_some() {
            return KeyRoute::Dialog;
        }
        if self.focus == AppFocus::Page && facts.overlay_open {
            return KeyRoute::Page(PageCall::Key);
        }
        if control(key, 'r') {
            return KeyRoute::Run(Command::Rescan);
        }
        if control(key, 'o') {
            return KeyRoute::Run(Command::ToggleTags);
        }
        if control(key, 'g') {
            return KeyRoute::Run(Command::Help);
        }
        if control(key, 'z') {
            return KeyRoute::Run(Command::Undo);
        }
        if control(key, 'y') {
            return KeyRoute::Run(Command::Redo);
        }
        if self.focus == AppFocus::Page && facts.page_input && !(key.code == KeyCode::Tab
            || key.code == KeyCode::BackTab) {
            return KeyRoute::Page(PageCall::Key);
        }
        if !plain(key) {
            return if self.focus == AppFocus::Tabs {
                KeyRoute::Ignored
            } else {
                KeyRoute::Page(PageCall::Control)
            };
        }
        self.plain_key(key, facts)
    }

    fn prompt_key(&mut self, key: KeyEvent)
        requires
            old(self).valid(),
            old(self)@.quit_prompt is Some,
        ensures
            final(self)@ == old(self)@.prompt_keyed(key),
            final(self).valid(),
    {
        reveal(App::valid);
        match self.quit_prompt {
            Some(prompt) => match key.code {
                KeyCode::Esc | KeyCode::Char('q') => {
                    self.quit_prompt = None;
                },
                KeyCode::Left | KeyCode::Right => {
                    let mut next = prompt;
                    next.force_exit_selected = !prompt.force_exit_selected;
                    self.quit_prompt = Some(next);
                },
                KeyCode::Enter => {
                    self.quit = prompt.force_exit_selected;
                    self.quit_prompt = None;
                },
                _ => {},
            },
            None => {},
        }
    }

    fn dialog_key(&mut self, key: KeyEvent, dialog: &Facts) -> (r: Vec<Action>)
        requires
            old(self).valid(),
            old(self).modal is Some,
        ensures
            final(self).modal is Some,
            old(self).modal->0.takes_key(
                key,
                old(self)@.snap,
                *dialog,
                final(self).modal->0,
                r@,
            ),
            final(self)@ == (AppView { modal: final(self)@.modal, ..old(self)@ }),
            all_sound(r@),
            final(self).valid(),
    {
        reveal(App::valid);
        let ghost before = self.modal->0;
        let r = match &mut self.modal {
            Some(modal) => modal.handle_key(key, &self.snap, dialog),
            None => nothing(),
        };
        proof {
            crate::modal::lemma_keys_ask_soundly(
                before,
                key,
                self.snap,
                *dialog,
                self.modal->0,
                r@,
            );
        }
        r
    }

    fn open_actions(&mut self, menu: Option<Request>)
        requires
            old(self).valid(),
            menu is Some ==> menu->0.items@.len() <= 0x3fff_ffff,
        ensures
            final(self)@ == (AppView { context_menu: final(self)@.context_menu, ..old(self)@ }),
            match menu {
                Some(request) => final(self)@.context_menu matches Some(m) && is_actions_menu(
                    m,
                    request,
                ),
                None => final(self)@.context_menu == old(self)@.context_menu,
            },
            final(self).valid(),
    {
        reveal(App::valid);
        match menu {
            Some(request) => {
                let titled = Request {
                    title: cat2("Actions · ", request.title.as_str()),
                    detail: request.detail,
                    target: request.target,
                    items: request.items,
                };
                self.context_menu = Some(ContextMenu::keyboard(titled));
            },
            None => {},
        }
    }

    fn menu_key(&mut self, key: KeyEvent)
        requires
            old(self).valid(),
            old(self)@.context_menu is Some,
        ensures
            final(self)@ == old(self)@.menu_did(
                old(self)@.context_menu->0.keyed(key),
                old(self)@.context_menu->0.key_event(key),
            ),
            final(self).valid(),
    {
        reveal(App::valid);
        let event = match &mut self.context_menu {
            Some(menu) => menu.key(key),
            None => MenuEvent::Stay,
        };
        self.context_event(event);
    }

    fn palette_key(&mut self, key: KeyEvent, icons: Icons) -> (r: Vec<Action>)
        requires
            old(self).valid(),
            old(self)@.command_palette is Some,
        ensures
            final(self)@ == old(self)@.palette_did(
                old(self)@.command_palette->0.keyed(key),
                old(self)@.command_palette->0.key_event(key),
            ).0,
            old(self)@.palette_did(
                old(self)@.command_palette->0.keyed(key),
                old(self)@.command_palette->0.key_event(key),
            ).1.told(old(self)@.snap, icons, r@),
            all_sound(r@),
            final(self).valid(),
    {
        reveal(App::valid);
        let event = match &mut self.command_palette {
            Some(palette) => palette.key(key),
            None => PaletteEvent::Stay,
        };
        self.palette_event(event, icons)
    }

    /// A key goes to what is shown in front of the page.
    fn front_key(&mut self, route: KeyRoute, key: KeyEvent, around: &Surfaces) -> (r: Turn)
        requires
            old(self).valid(),
            route.is_front(),
            route is Prompt ==> old(self)@.quit_prompt is Some,
            route is Menu ==> old(self)@.context_menu is Some,
            route is Palette ==> old(self)@.command_palette is Some,
            route is Dialog ==> old(self).modal is Some,
        ensures
            old(self).routed(route, key, *around, *final(self), r),
            all_sound(r.acts()),
            final(self).valid(),
    {
        match route {
            KeyRoute::Prompt => {
                self.prompt_key(key);
                still()
            },
            KeyRoute::Menu => {
                self.menu_key(key);
                still()
            },
            KeyRoute::Palette => Turn::Acts(self.palette_key(key, around.icons)),
            KeyRoute::Dialog => Turn::Acts(self.dialog_key(key, &around.dialog)),
            _ => still(),
        }
    }

    /// A key goes where it was routed to.
    #[verifier::rlimit(50)]
    fn take_key(&mut self, route: KeyRoute, key: KeyEvent, around: Surfaces) -> (r: Turn)
        requires
            old(self).valid(),
            around.valid(),
            route is Prompt ==> old(self)@.quit_prompt is Some,
            route is Menu ==> old(self)@.context_menu is Some,
            route is Palette ==> old(self)@.command_palette is Some,
            route is Dialog ==> old(self).modal is Some,
        ensures
            old(self).routed(route, key, around, *final(self), r),
            all_sound(r.acts()),
            final(self).valid(),
    {
        reveal(App::valid);
        reveal(AppView::on_page);
        match route {
            KeyRoute::Prompt | KeyRoute::Menu | KeyRoute::Palette | KeyRoute::Dialog => {
                self.front_key(route, key, &around)
            },
            KeyRoute::Quit => Turn::Acts(only(Action::Quit)),
            KeyRoute::Ignored => still(),
            KeyRoute::Page(call) => Turn::Page(call),
            KeyRoute::Run(command) => Turn::Acts(self.run_command(command, around.icons)),
            KeyRoute::OpenPalette => {
                self.command_palette = Some(CommandPalette::new());
                still()
            },
            KeyRoute::Actions => {
                self.open_actions(around.menu);
                still()
            },
            KeyRoute::Enter { from_above } => {
                self.enter_page();
                if from_above && self.tab != Tab::Agents {
                    self.emit(Effect::FocusFromAbove(self.tab));
                }
                still()
            },
            KeyRoute::Switch(tab) => Turn::Acts(only(Action::SwitchTab(tab))),
        }
    }

    /// A key was pressed.
    pub fn on_key(&mut self, key: KeyEvent, facts: PageFacts, around: Surfaces) -> (r: Turn)
        requires
            old(self).valid(),
            around.valid(),
        ensures
            old(self).routed(old(self)@.key_route(key, facts), key, around, *final(self), r),
            all_sound(r.acts()),
            final(self).valid(),
    {
        let route = self.route_key(key, facts);
        self.take_key(route, key, around)
    }

    /// The matrix of the agents did not take a key.
    pub fn after_matrix(&mut self, key: KeyEvent, facts: PageFacts, around: Surfaces) -> (r: Turn)
        requires
            old(self).valid(),
            around.valid(),
        ensures
            old(self).routed(old(self)@.late_route(key, facts), key, around, *final(self), r),
            all_sound(r.acts()),
            final(self).valid(),
    {
        let route = self.late(key, facts);
        self.take_key(route, key, around)
    }
}

// ---- pastes ------------------------------------------------------------------

/// Who gets a paste.
#[derive(Debug, Clone, Copy, PartialEq, Eq, Structural)]
pub enum PasteRoute {
    Ignored,
    Palette,
    Dialog,
    Page,
}

impl AppView {
    pub open spec fn paste_route(self) -> PasteRoute {
        if self.context_menu is Some {
            PasteRoute::Ignored
        } else if self.command_palette is Some {
            PasteRoute::Palette
        } else if self.focus == AppFocus::Tabs && self.modal is None {
            PasteRoute::Ignored
        } else if self.quit_prompt is Some || (self.batch_running && owns_batch(self.modal)) {
            PasteRoute::Ignored
        } else if self.modal is Some {
            PasteRoute::Dialog
        } else {
            PasteRoute::Page
        }
    }
}

impl App {
    /// What a paste did.
    pub open spec fn pasted(self, text: Seq<char>, after: App, turn: Turn) -> bool {
        let before = self@;
        match before.paste_route() {
            PasteRoute::Ignored => after@ == before && turn.is_nothing(),
            PasteRoute::Palette => {
                let palette = before.command_palette->0;
                &&& turn is Acts
                &&& if is_multiline(text) {
                    after@ == before && complains(turn.acts(), paste_refused())
                } else {
                    after@ == AppView {
                        command_palette: Some(palette.pasted(text)),
                        ..before
                    } && turn.is_nothing()
                }
            },
            PasteRoute::Dialog => {
                &&& self.modal is Some
                &&& after.modal is Some
                &&& turn is Acts
                &&& self.modal->0.takes_paste(text, after.modal->0, turn.acts())
                &&& after@ == AppView { modal: after@.modal, ..before }
            },
            PasteRoute::Page => after@ == before && turn == Turn::Page(PageCall::Paste),
        }
    }

    /// A text was pasted.
    pub fn on_paste(&mut self, text: &str) -> (r: Turn)
        requires
            old(self).valid(),
        ensures
            old(self).pasted(text@, *final(self), r),
            all_sound(r.acts()),
            final(self).valid(),
    {
        reveal(App::valid);
        if self.context_menu.is_some() {
            return still();
        }
        match &mut self.command_palette {
            Some(palette) => {
                return match palette.paste(text) {
                    Ok(_) => still(),
                    Err(error) => Turn::Acts(complain(error)),
                };
            },
            None => {},
        }
        if self.focus == AppFocus::Tabs && self.modal.is_none() {
            return still();
        }
        if self.quit_prompt.is_some() || (self.batch_running && matches!(
            self.modal,
            Some(Modal::Batch(_)) | Some(Modal::PresetSkills(_))
        )) {
            return still();
        }
        let ghost before = self.modal;
        match &mut self.modal {
            Some(modal) => {
                let actions = modal.paste(text);
                proof {
                    crate::modal::lemma_pastes_ask_soundly(before->0, text@, *modal, actions@);
                }
                Turn::Acts(actions)
            },
            None => Turn::Page(PageCall::Paste),
        }
    }
}

// ---- laws --------------------------------------------------------------------

/// Going to the next tab and back leads to where one was, and so the other way round.
pub proof fn lemma_tabs_go_round(tags_enabled: bool, tab: Tab)
    requires
        visible_tabs(tags_enabled).contains(tab),
    ensures
        previous_tab(tags_enabled, next_tab(tags_enabled, tab)) == tab,
        next_tab(tags_enabled, previous_tab(tags_enabled, tab)) == tab,
        visible_tabs(tags_enabled).contains(next_tab(tags_enabled, tab)),
{
    let tabs = visible_tabs(tags_enabled);
    let at = tab_index(tags_enabled, tab) + 1;
    if at < tabs.len() {
        assert(tabs[at] == next_tab(tags_enabled, tab));
    } else {
        assert(tabs[0] == next_tab(tags_enabled, tab));
    }
    if !tags_enabled {
        crate::app::lemma_only_tags_are_hidden(tab);
    }
}

/// The question before quitting takes every key: none reaches a dialog or a page behind it.
pub proof fn lemma_quit_prompt_is_in_front(app: AppView, key: KeyEvent, facts: PageFacts)
    requires
        app.quit_prompt is Some,
    ensures
        app.key_route(key, facts) == KeyRoute::Prompt,
        app.prompt_keyed(key).modal == app.modal,
        app.prompt_keyed(key).tab == app.tab,
{
}

/// While something is shown over the page, no plain key reaches the page.
pub proof fn lemma_overlays_keep_keys_from_pages(app: AppView, key: KeyEvent, facts: PageFacts)
    requires
        app.modal is Some || app.context_menu is Some || app.command_palette is Some,
    ensures
        app.key_route(key, facts) !is Page,
        app.key_route(key, facts) !is Switch,
        app.paste_route() != PasteRoute::Page,
{
}

/// A dialog that waits for its batch takes neither keys nor pastes; only Control and `c`
/// still quits.
pub proof fn lemma_a_busy_dialog_is_left_alone(app: AppView, key: KeyEvent, facts: PageFacts)
    requires
        app.batch_running,
        owns_batch(app.modal),
        app.quit_prompt is None,
        app.context_menu is None,
        app.command_palette is None,
        !key.is_control('c'),
    ensures
        app.key_route(key, facts) == KeyRoute::Ignored,
        app.paste_route() == PasteRoute::Ignored,
{
}

/// While a text field of the page has the keyboard, what is typed goes into it: digits,
/// slashes and letters of commands too.
pub proof fn lemma_typing_stays_in_the_field(app: AppView, c: char, key: KeyEvent, facts: PageFacts)
    requires
        app.typing(facts),
        app.quit_prompt is None,
        app.context_menu is None,
        app.command_palette is None,
        app.modal is None,
        key.is_character(c),
    ensures
        app.key_route(key, facts) == KeyRoute::Page(PageCall::Key),
{
}

/// Keys with a command modifier never do what the plain key does on the tabs.
pub proof fn lemma_modified_keys_do_not_fall_through(app: AppView, key: KeyEvent, facts: PageFacts)
    requires
        app.focus == AppFocus::Tabs,
        key.modifiers.commands(),
        app.modal is None,
        app.context_menu is None,
        app.command_palette is None,
        app.quit_prompt is None,
    ensures
        app.key_route(key, facts) == KeyRoute::Ignored || app.key_route(key, facts)
            == KeyRoute::Quit && key.is_control('c') || app.key_route(key, facts) is Run,
{
}

impl AppView {
    /// Nothing is shown over the page.
    pub open spec fn is_bare(self, facts: PageFacts) -> bool {
        &&& self.quit_prompt is None
        &&& self.context_menu is None
        &&& self.command_palette is None
        &&& self.modal is None
        &&& !(self.focus == AppFocus::Page && facts.overlay_open)
    }
}

/// While nothing is shown over the page, Control with a letter does what the letter stands
/// for, also in a text field: `r` reads the library again, `o` asks about tags, `g` shows the
/// help, and `z` and `y` go back and forward in the history.
pub proof fn lemma_what_control_does_everywhere(
    before: App,
    key: KeyEvent,
    facts: PageFacts,
    around: Surfaces,
    after: App,
    turn: Turn,
)
    requires
        before@.is_bare(facts),
        before.routed(before@.key_route(key, facts), key, around, after, turn),
        key.modifiers.control,
        !key.modifiers.alt,
        !key.modifiers.super_key,
        !key.modifiers.shift,
        !key.modifiers.hyper,
        !key.modifiers.meta,
    ensures
        key.code == KeyCode::Char('r') ==> {
            &&& after@ == before@
            &&& turn.acts().len() == 2
            &&& turn.acts()[0] == Action::Rescan
            &&& is_toast(turn.acts()[1], "rescanning"@)
        },
        key.code == KeyCode::Char('o') ==> {
            &&& after@ == before@
            &&& opens(turn.acts()) is Some
            &&& opens(turn.acts())->0.write() == Some(
                Write::SetTagsEnabled(!before@.tags_enabled),
            )
        },
        key.code == KeyCode::Char('g') ==> after@ == before@ && opens(turn.acts()) == Some(
            Modal::Help(Help { scroll: 0 }),
        ),
        key.code == KeyCode::Char('z') && !before@.batch_running ==> after@.waiting == Some(
            Waiting::Plan(Step::Undo),
        ) && turn.acts().len() == 0,
        key.code == KeyCode::Char('y') && !before@.batch_running ==> after@.waiting == Some(
            Waiting::Plan(Step::Redo),
        ) && turn.acts().len() == 0,
        (key.code == KeyCode::Char('z') || key.code == KeyCode::Char('y'))
            && before@.batch_running ==> {
            &&& after@ == before@
            &&& turn.acts().len() == 1
            &&& is_toast(
                turn.acts()[0],
                "An operation is still running; retry when it finishes"@,
            )
        },
{
    reveal(CommandReply::told);
}

/// Control with `c` quits whatever is shown, except over the question that quitting asks.
pub proof fn lemma_control_c_quits(
    before: App,
    key: KeyEvent,
    facts: PageFacts,
    around: Surfaces,
    after: App,
    turn: Turn,
)
    requires
        before@.quit_prompt is None,
        before.routed(before@.key_route(key, facts), key, around, after, turn),
        key.code == KeyCode::Char('c'),
        key.modifiers.control,
        !key.modifiers.alt,
        !key.modifiers.super_key,
        !key.modifiers.shift,
        !key.modifiers.hyper,
        !key.modifiers.meta,
    ensures
        turn.acts() == seq![Action::Quit],
        after@ == before@,
{
}

/// Each command of the palette does what it is called after.
pub proof fn lemma_what_commands_do(before: AppView, command: Command, icons: Icons, actions: Seq<Action>)
    requires
        before.commanded(command).1.told(before.snap, icons, actions),
    ensures
        command == Command::Rescan ==> actions.len() == 2 && actions[0] == Action::Rescan
            && is_toast(actions[1], "rescanning"@),
        command == Command::Install ==> {
            &&& opens(actions) is Some
            &&& opens(actions)->0@ is Input
            &&& opens(actions)->0@->Input_0.kind is Install
            &&& opens(actions)->0@->Input_0.input.text.len() == 0
        },
        command == Command::Repositories ==> opens(actions) is Some && opens(actions)->0 is Picker,
        command == Command::Repair ==> opens(actions) == Some(Modal::HealthRepair(0)),
        command == Command::RootSync ==> before.commanded(command).0.waiting == Some(
            Waiting::SyncSettings,
        ) && actions.len() == 0,
        command == Command::ToggleTags ==> {
            &&& opens(actions) is Some
            &&& opens(actions)->0.write() == Some(Write::SetTagsEnabled(!before.tags_enabled))
            &&& opens(actions)->0.questions(
                "Settings · Tags"@,
                seq![
                    if before.tags_enabled {
                        "Tags: true → false"@
                    } else {
                        "Tags: false → true"@
                    },
                    TAGS_NOTE@,
                ],
                None,
            )
        },
        command == Command::Undo && !before.batch_running ==> before.commanded(command).0.waiting
            == Some(Waiting::Plan(Step::Undo)),
        command == Command::Redo && !before.batch_running ==> before.commanded(command).0.waiting
            == Some(Waiting::Plan(Step::Redo)),
        command == Command::Help ==> opens(actions) == Some(Modal::Help(Help { scroll: 0 })),
        !(command == Command::RootSync || command == Command::Undo || command == Command::Redo)
            ==> before.commanded(command).0 == before,
{
    reveal(CommandReply::told);
}

/// The tabs are gone through in the order in which they are shown, around the end: a step
/// forward and a step back undo each other, and every tab is reached.
pub proof fn lemma_tabs_follow_in_their_order(tags_enabled: bool, i: int)
    requires
        0 <= i < visible_tabs(tags_enabled).len(),
    ensures
        ({
            let tabs = visible_tabs(tags_enabled);
            let n = tabs.len() as int;
            &&& next_tab(tags_enabled, tabs[i]) == tabs[if i + 1 < n {
                i + 1
            } else {
                0
            }]
            &&& previous_tab(tags_enabled, tabs[i]) == tabs[if i > 0 {
                i - 1
            } else {
                n - 1
            }]
            &&& previous_tab(tags_enabled, next_tab(tags_enabled, tabs[i])) == tabs[i]
            &&& next_tab(tags_enabled, previous_tab(tags_enabled, tabs[i])) == tabs[i]
        }),
{
    let tabs = visible_tabs(tags_enabled);
    assert(tab_index(tags_enabled, tabs[i]) == i);
}

/// A digit shows the tab with that number, counted from one, and does nothing where there
/// are fewer tabs, on the tabs themselves and on a page that does not take it.
pub proof fn lemma_digits_show_their_tab(
    before: App,
    key: KeyEvent,
    facts: PageFacts,
    around: Surfaces,
    after: App,
    turn: Turn,
    n: int,
)
    requires
        before@.is_bare(facts),
        before.routed(before@.key_route(key, facts), key, around, after, turn),
        !key.modifiers.control,
        !key.modifiers.alt,
        !key.modifiers.super_key,
        before@.focus == AppFocus::Tabs || (!facts.page_input && before@.tab != Tab::Agents),
        n == 1 && key.code == KeyCode::Char('1') || n == 2 && key.code == KeyCode::Char('2') || n
            == 3 && key.code == KeyCode::Char('3') || n == 4 && key.code == KeyCode::Char('4') || n
            == 5 && key.code == KeyCode::Char('5') || n == 6 && key.code == KeyCode::Char('6'),
    ensures
        after@ == before@,
        n <= visible_tabs(before@.tags_enabled).len() ==> turn.acts() == seq![
            Action::SwitchTab(visible_tabs(before@.tags_enabled)[n - 1]),
        ],
        n > visible_tabs(before@.tags_enabled).len() ==> turn.is_nothing(),
{
}

/// On the tabs the arrows and the tabulator go to the neighbours, Escape and `q` quit, and
/// Enter and the arrow down lead into the page.
pub proof fn lemma_keys_of_the_tabs(
    before: App,
    key: KeyEvent,
    facts: PageFacts,
    around: Surfaces,
    after: App,
    turn: Turn,
)
    requires
        before@.is_bare(facts),
        before@.focus == AppFocus::Tabs,
        before.routed(before@.key_route(key, facts), key, around, after, turn),
        !key.modifiers.control,
        !key.modifiers.alt,
        !key.modifiers.super_key,
    ensures
        key.code == KeyCode::Left || key.code == KeyCode::BackTab ==> turn.acts() == seq![
            Action::SwitchTab(previous_tab(before@.tags_enabled, before@.tab)),
        ],
        key.code == KeyCode::Right || key.code == KeyCode::Tab ==> turn.acts() == seq![
            Action::SwitchTab(next_tab(before@.tags_enabled, before@.tab)),
        ],
        key.code == KeyCode::Esc || key.code == KeyCode::Char('q') ==> turn.acts() == seq![
            Action::Quit,
        ],
        key.code == KeyCode::Char('?') ==> opens(turn.acts()) == Some(
            Modal::Help(Help { scroll: 0 }),
        ),
        key.code == KeyCode::Enter || key.code == KeyCode::Down ==> after@.focus == AppFocus::Page
            && turn.is_nothing(),
        key.code == KeyCode::Down && before@.tab != Tab::Agents ==> after@.effects.last()
            == crate::app::effects::EffectView::Does(Effect::FocusFromAbove(before@.tab)),
        key.code == KeyCode::Enter ==> after@.effects.last()
            == crate::app::effects::EffectView::Does(Effect::FocusRoot(before@.tab)),
        key.code == KeyCode::Char(':') ==> after@.command_palette == Some(PaletteView::fresh())
            && turn.is_nothing(),
        key.code == KeyCode::Char('a') ==> after@ == before@ && turn.is_nothing(),
{
    reveal(CommandReply::told);
    reveal(AppView::on_page);
}

/// On a page that is not being typed in, the tabulator goes to the neighbouring tabs, the
/// colon opens the palette, `a` the menu of what can be done, `R` the repositories and the
/// question mark the help; what none of these is, the page gets.
pub proof fn lemma_keys_of_a_page(
    before: App,
    key: KeyEvent,
    facts: PageFacts,
    around: Surfaces,
    after: App,
    turn: Turn,
)
    requires
        before@.is_bare(facts),
        before@.focus == AppFocus::Page,
        !facts.page_input,
        before@.tab != Tab::Agents,
        before.routed(before@.key_route(key, facts), key, around, after, turn),
        !key.modifiers.control,
        !key.modifiers.alt,
        !key.modifiers.super_key,
    ensures
        key.code == KeyCode::Tab && !(before@.tab == Tab::Tags && facts.tags_dialog)
            ==> turn.acts() == seq![
            Action::SwitchTab(next_tab(before@.tags_enabled, before@.tab)),
        ],
        key.code == KeyCode::BackTab && !(before@.tab == Tab::Tags && facts.tags_dialog)
            ==> turn.acts() == seq![
            Action::SwitchTab(previous_tab(before@.tags_enabled, before@.tab)),
        ],
        key.code == KeyCode::Char(':') ==> after@.command_palette == Some(PaletteView::fresh())
            && turn.is_nothing(),
        key.code == KeyCode::Char('a') && around.menu is Some ==> {
            &&& after@.context_menu is Some
            &&& after@.context_menu->0.request.items == around.menu->0.items
            &&& after@.context_menu->0.request.target == around.menu->0.target
            &&& after@.context_menu->0.selected == 0
        },
        key.code == KeyCode::Char('a') && around.menu is None ==> after@ == before@,
        key.code == KeyCode::Char('R') ==> opens(turn.acts()) is Some && opens(turn.acts())->0
            is Picker,
        key.code == KeyCode::Char('?') ==> opens(turn.acts()) == Some(
            Modal::Help(Help { scroll: 0 }),
        ),
        key.code == KeyCode::Enter || key.code == KeyCode::Esc || key.code == KeyCode::Up
            || key.code == KeyCode::Down || key.code == KeyCode::Left || key.code == KeyCode::Right
            || key.code == KeyCode::Char(' ') || key.code == KeyCode::Char('q') ==> turn
            == Turn::Page(PageCall::Key) && after@ == before@,
{
    reveal(CommandReply::told);
}

/// A text field of the page gets every key but the tabulator and the shortcuts with Control.
pub proof fn lemma_typing_stays_in_the_page(
    before: App,
    key: KeyEvent,
    facts: PageFacts,
    around: Surfaces,
    after: App,
    turn: Turn,
)
    requires
        before@.is_bare(facts),
        before@.focus == AppFocus::Page,
        facts.page_input,
        before.routed(before@.key_route(key, facts), key, around, after, turn),
        key.code != KeyCode::Tab,
        key.code != KeyCode::BackTab,
        !key.modifiers.control,
    ensures
        turn == Turn::Page(PageCall::Key),
        after@ == before@,
{
}

/// What lies on top gets a key: the question before quitting, the menu, the palette, the
/// dialog. Nothing under it learns of the key, and a dialog whose batch is running gets none.
pub proof fn lemma_what_lies_on_top_gets_the_key(
    before: App,
    key: KeyEvent,
    facts: PageFacts,
    around: Surfaces,
    after: App,
    turn: Turn,
)
    requires
        before.routed(before@.key_route(key, facts), key, around, after, turn),
        !key.modifiers.control,
    ensures
        before@.quit_prompt is Some ==> after@ == (AppView {
            quit: after@.quit,
            quit_prompt: after@.quit_prompt,
            ..before@
        }) && turn.is_nothing(),
        before@.quit_prompt is None && before@.context_menu is Some ==> after@ == (AppView {
            context_menu: after@.context_menu,
            effects: after@.effects,
            ..before@
        }) && turn.is_nothing(),
        before@.quit_prompt is None && before@.context_menu is None && before@.command_palette
            is None && before@.modal is Some ==> after@ == (AppView {
            modal: after@.modal,
            ..before@
        }),
        before@.quit_prompt is None && before@.context_menu is None && before@.command_palette
            is None && before@.batch_running && (before@.modal matches Some(ModalView::Batch(_))
            || before@.modal matches Some(ModalView::PresetSkills(_))) ==> after@ == before@
            && turn.is_nothing(),
{
}

/// The question before quitting: Enter does what is selected, the arrows select the other,
/// and Escape and `q` go back to the application.
pub proof fn lemma_keys_of_the_quit_question(
    before: App,
    key: KeyEvent,
    facts: PageFacts,
    around: Surfaces,
    after: App,
    turn: Turn,
)
    requires
        before@.quit_prompt is Some,
        before.routed(before@.key_route(key, facts), key, around, after, turn),
    ensures
        turn.is_nothing(),
        key.code == KeyCode::Enter ==> after@.quit == before@.quit_prompt->0.force_exit_selected
            && after@.quit_prompt is None,
        key.code == KeyCode::Esc || key.code == KeyCode::Char('q') ==> after@.quit == before@.quit
            && after@.quit_prompt is None,
        key.code == KeyCode::Left || key.code == KeyCode::Right ==> {
            &&& after@.quit == before@.quit
            &&& after@.quit_prompt is Some
            &&& after@.quit_prompt->0.force_exit_selected
                == !before@.quit_prompt->0.force_exit_selected
            &&& after@.quit_prompt->0.sync_in_progress == before@.quit_prompt->0.sync_in_progress
        },
        key.code == KeyCode::Up || key.code == KeyCode::Down || key.code == KeyCode::Tab
            || key.code == KeyCode::Char(' ') || key.code == KeyCode::Char('y') ==> after@
            == before@,
{
}

/// A paste goes to what lies on top and has a text field, to the page where nothing lies
/// over it, and nowhere while a menu or a question is shown or the tabs have the focus.
pub proof fn lemma_where_a_paste_goes(before: App, text: Seq<char>, after: App, turn: Turn)
    requires
        before.pasted(text, after, turn),
    ensures
        before@.context_menu is Some ==> after@ == before@ && turn.is_nothing(),
        before@.context_menu is None && before@.command_palette is Some && is_multiline(text)
            ==> after@ == before@ && complains(turn.acts(), paste_refused()),
        before@.context_menu is None && before@.command_palette is Some && !is_multiline(text)
            ==> after@.command_palette is Some && after@.command_palette->0
            == before@.command_palette->0.pasted(text),
        before@.context_menu is None && before@.command_palette is None && before@.modal is None
            && before@.focus == AppFocus::Tabs ==> after@ == before@ && turn.is_nothing(),
        before@.context_menu is None && before@.command_palette is None && before@.modal is None
            && before@.focus == AppFocus::Page && before@.quit_prompt is None ==> turn
            == Turn::Page(PageCall::Paste) && after@ == before@,
        before@.context_menu is None && before@.command_palette is None && before@.quit_prompt
            is Some ==> after@ == before@ && turn.is_nothing(),
{
}

/// What is run from the menu goes to the page with what the menu was opened for, and the
/// menu closes.
pub proof fn lemma_the_menu_runs_its_command(app: AppView, menu: MenuView, event: MenuEvent)
    requires
        event is Execute,
    ensures
        app.menu_did(menu, event).context_menu is None,
        app.menu_did(menu, event).effects == app.effects.push(
            crate::app::effects::EffectView::Does(
                Effect::MenuCommand(Box::new(menu.request), event->Execute_0),
            ),
        ),
        app.menu_did(menu, event).modal == app.modal,
{
}

} // verus!
