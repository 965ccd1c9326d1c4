//! The state of the application, and the steps that everything else is made of.

use crate::app::effects::{
    all_sound, dialog_view, effect_views, work_views, Effect, EffectView, Waiting, Work, WorkView,
};
use crate::app::quit::QuitPrompt;
use crate::app::{Action, AppFocus, External, ExternalView, Level, Tab};
use crate::batch::BatchView;
use crate::components::command_palette::{CommandPalette, PaletteView};
use crate::components::context_menu::{ContextMenu, MenuView};
use crate::event::{BatchWork, Task};
use crate::geometry::Rect;
use crate::modal::{Modal, ModalView};
use crate::model::{MutationScope, Snapshot};
use crate::sync_coordinator::{
    following, ProbeReason, SyncCoordinator, SyncView, PROBE_INTERVAL,
};
use crate::sync_picker::SyncPickerView;
use crate::widgets::SPINNER_FRAMES;
use vstd::prelude::*;

verus! {

/// What the application has to know of its pages and of the clock to decide.
#[derive(Debug, Clone, Copy, PartialEq, Eq, Structural)]
pub struct PageFacts {
    /// Milliseconds.
    pub now: u64,
    /// How long the library is left alone before it is looked at again.
    pub poll_interval: u64,
    /// The page that is shown has something open over itself.
    pub overlay_open: bool,
    /// A text field of the page that is shown has the keyboard.
    pub page_input: bool,
    /// A text field of the tags has the keyboard.
    pub tags_input: bool,
    /// The tags have a dialog of their own open.
    pub tags_dialog: bool,
    /// The agents have their groups open.
    pub group_popup: bool,
    /// The agents have a text field open.
    pub agents_editing: bool,
    /// The dialog that is shown edits the library.
    pub edits_library: bool,
}

impl PageFacts {
    /// The clock has not run out.
    pub open spec fn timely(self) -> bool {
        self.now + 900_000 <= u64::MAX
    }
}

#[derive(Debug)]
pub struct App {
    pub snap: Snapshot,
    pub tags_enabled: bool,
    pub tab: Tab,
    pub focus: AppFocus,
    /// The agents have not been read since the library was.
    pub agents_dirty: bool,
    pub modal: Option<Modal>,
    pub context_menu: Option<ContextMenu>,
    pub command_palette: Option<CommandPalette>,
    /// What finished work wants to show, while something else is shown.
    pub pending_task_ui: Vec<Action>,
    /// The event that is being handled had to leave something to that.
    pub queued: bool,
    pub batch_running: bool,
    pub batch_modal_owned: bool,
    pub tasks_running: usize,
    pub sync: SyncCoordinator,
    pub next_task_id: u64,
    pub spinner: usize,
    pub last_root_poll: u64,
    pub root_stamp: Option<String>,
    pub external: Option<External>,
    pub quit: bool,
    pub quit_prompt: Option<QuitPrompt>,
    pub tab_rects: Vec<(Rect, Tab)>,
    pub sync_button: Rect,
    pub body: Rect,
    /// What is to be done outside, in this order.
    pub effects: Vec<Effect>,
    /// What is to be done here, in this order.
    pub todo: Vec<Work>,
    pub waiting: Option<Waiting>,
}

pub ghost struct AppView {
    pub snap: Snapshot,
    pub tags_enabled: bool,
    pub tab: Tab,
    pub focus: AppFocus,
    pub agents_dirty: bool,
    pub modal: Option<ModalView>,
    pub context_menu: Option<MenuView>,
    pub command_palette: Option<PaletteView>,
    pub pending: Seq<Action>,
    pub queued: bool,
    pub batch_running: bool,
    pub batch_modal_owned: bool,
    pub tasks_running: usize,
    pub sync: SyncView,
    pub next_task_id: u64,
    pub spinner: usize,
    pub last_root_poll: u64,
    pub root_stamp: Option<Seq<char>>,
    pub external: Option<ExternalView>,
    pub quit: bool,
    pub quit_prompt: Option<QuitPrompt>,
    pub tab_rects: Seq<(Rect, Tab)>,
    pub sync_button: Rect,
    pub body: Rect,
    pub effects: Seq<EffectView>,
    pub todo: Seq<WorkView>,
    pub waiting: Option<Waiting>,
}

pub open spec fn menu_view(menu: Option<ContextMenu>) -> Option<MenuView> {
    match menu {
        Some(menu) => Some(menu@),
        None => None,
    }
}

pub open spec fn external_view(external: Option<External>) -> Option<ExternalView> {
    match external {
        Some(external) => Some(external@),
        None => None,
    }
}

pub open spec fn palette_view(palette: Option<CommandPalette>) -> Option<PaletteView> {
    match palette {
        Some(palette) => Some(palette@),
        None => None,
    }
}

impl View for App {
    type V = AppView;

    open spec fn view(&self) -> AppView {
        AppView {
            snap: self.snap,
            tags_enabled: self.tags_enabled,
            tab: self.tab,
            focus: self.focus,
            agents_dirty: self.agents_dirty,
            modal: dialog_view(self.modal),
            context_menu: menu_view(self.context_menu),
            command_palette: palette_view(self.command_palette),
            pending: self.pending_task_ui@,
            queued: self.queued,
            batch_running: self.batch_running,
            batch_modal_owned: self.batch_modal_owned,
            tasks_running: self.tasks_running,
            sync: self.sync@,
            next_task_id: self.next_task_id,
            spinner: self.spinner,
            last_root_poll: self.last_root_poll,
            root_stamp: crate::text::said(self.root_stamp),
            external: external_view(self.external),
            quit: self.quit,
            quit_prompt: self.quit_prompt,
            tab_rects: self.tab_rects@,
            sync_button: self.sync_button,
            body: self.body,
            effects: effect_views(self.effects@),
            todo: work_views(self.todo@),
            waiting: self.waiting,
        }
    }
}

impl App {
    /// A write of a text that was entered is answered to what comes next.
    pub open spec fn awaits_in_order(&self) -> bool {
        self.waiting matches Some(Waiting::Write { submitted, .. }) && submitted
            ==> self.todo@.len() > 0 && self.todo@[0] is Submit
    }

    /// Every dialog that is shown, or waits to be, can be shown, and every answer that is
    /// waited for belongs to what comes next.
    #[verifier::opaque]
    pub open spec fn valid(&self) -> bool {
        &&& self.modal is Some ==> self.modal->0.valid()
        &&& self.context_menu is Some ==> self.context_menu->0@.valid()
        &&& self.command_palette is Some ==> self.command_palette->0@.valid()
        &&& self.sync@.valid()
        &&& self.spinner < SPINNER_FRAMES
        &&& all_sound(self.pending_task_ui@)
        &&& forall|i: int| 0 <= i < self.todo@.len() ==> (#[trigger] self.todo@[i]).sound()
        &&& self.awaits_in_order()
    }
}

// ---- what the steps do -------------------------------------------------------

/// The dialog of the backup shows that it is being looked at.
pub open spec fn checking(modal: Option<ModalView>) -> Option<ModalView> {
    match modal {
        Some(ModalView::Sync(picker)) => Some(
            ModalView::Sync(SyncPickerView { checking: true, ..picker }),
        ),
        _ => modal,
    }
}

/// A dialog for several skills shows whether they are being changed.
pub open spec fn busied(modal: Option<ModalView>, busy: bool) -> Option<ModalView> {
    match modal {
        Some(ModalView::Batch(batch)) => Some(ModalView::Batch(BatchView { busy, ..batch })),
        _ => modal,
    }
}

/// The dialog waits for a batch that it started.
pub open spec fn owns_batch(modal: Option<ModalView>) -> bool {
    modal is Some && (modal->0 is Batch || modal->0 is PresetSkills)
}

pub open spec fn one_more(n: usize) -> usize {
    if n == usize::MAX {
        n
    } else {
        (n + 1) as usize
    }
}

pub open spec fn one_less(n: usize) -> usize {
    if n == 0 {
        n
    } else {
        (n - 1) as usize
    }
}

impl AppView {
    pub open spec fn with(self, effect: EffectView) -> AppView {
        AppView { effects: self.effects.push(effect), ..self }
    }

    pub open spec fn does(self, effect: Effect) -> AppView {
        self.with(EffectView::Does(effect))
    }

    pub open spec fn told(self, text: Seq<char>, level: Level) -> AppView {
        self.with(EffectView::Tell(text, level))
    }

    /// Finished work may not show anything now.
    pub open spec fn blocked(self, facts: PageFacts) -> bool {
        self.quit_prompt is Some || self.modal is Some || self.context_menu is Some
            || self.command_palette is Some || (self.tab == Tab::Tags && facts.tags_input)
    }

    pub open spec fn edits_library(self, facts: PageFacts) -> bool {
        (self.modal is Some && facts.edits_library) || (self.tab == Tab::Tags && facts.tags_input)
    }

    pub open spec fn without_menus(self) -> AppView {
        AppView { context_menu: None, command_palette: None, ..self }
    }

    /// The backup is looked at, unless it is already.
    #[verifier::opaque]
    pub open spec fn observing(self, remote: bool, reason: ProbeReason, now: u64) -> AppView {
        if !self.sync.can_probe() {
            self
        } else {
            AppView {
                sync: self.sync.request_probe(remote, reason, now as int),
                modal: checking(self.modal),
                ..self
            }.does(Effect::Observe { id: following(self.sync.next_probe_id), remote })
        }
    }

    /// Why work cannot start now.
    pub open spec fn refusal(self, task: Task) -> Option<Seq<char>> {
        if self.sync.switching() && task.changes_library() {
            Some("Root sync is updating the Library; retry when it finishes"@)
        } else if task.concerns_root() && self.tasks_running > 0 {
            Some("Wait for the current operation before changing root backup"@)
        } else {
            None
        }
    }

    /// What the work needs for itself is claimed.
    pub open spec fn claimed(self, task: Task) -> AppView {
        AppView {
            sync: if task matches Task::Sync(request) && !request.dry_run && !self.sync.syncing() {
                self.sync.start_manual_sync()
            } else {
                self.sync
            },
            batch_running: self.batch_running || (task.concerns_root() && !task.syncs_root())
                || task is RepairApply,
            ..self
        }
    }

    /// The work runs.
    pub open spec fn running(self, task: Task) -> AppView {
        let id = following(self.next_task_id);
        let next = AppView {
            tasks_running: one_more(self.tasks_running),
            next_task_id: id,
            ..self.claimed(task)
        };
        let named = match task.title() {
            Some(title) => next.with(EffectView::StartNotice(id, title)),
            None => next,
        };
        named.with(Effect::Run(id, task)@)
    }

    #[verifier::opaque]
    pub open spec fn spawned(self, task: Task) -> AppView {
        match self.refusal(task) {
            Some(why) => self.told(why, Level::Info),
            None => self.running(task),
        }
    }

    /// The settings and the library are read again.
    #[verifier::opaque]
    pub open spec fn rescanned(self) -> AppView {
        self.does(Effect::Reload).spawned(Task::Scan)
    }

    /// The library was changed: its backup is to follow.
    #[verifier::opaque]
    pub open spec fn library_changed(self, now: u64) -> AppView {
        AppView { sync: self.sync.library_changed(), ..self }.observing(
            false,
            ProbeReason::Mutation,
            now,
        ).rescanned()
    }

    /// A change went through. One of agents only does not concern the backup.
    #[verifier::opaque]
    pub open spec fn mutated(self, scope: MutationScope, now: u64) -> AppView {
        match scope {
            MutationScope::Library => self.library_changed(now),
            MutationScope::Deployment => self.rescanned(),
        }
    }

    /// The settings, or the library, were read.
    #[verifier::opaque]
    pub open spec fn snapshotted(self, tags_enabled: bool) -> AppView {
        let tab = if !tags_enabled && self.tab == Tab::Tags {
            Tab::Search
        } else {
            self.tab
        };
        let base = AppView { tags_enabled, tab, agents_dirty: tab != Tab::Agents, ..self };
        let first = base.without_menus().does(Effect::RefreshPage(Tab::Search)).does(
            Effect::RefreshPage(Tab::Tags),
        ).does(Effect::RefreshPage(Tab::Presets));
        let second = if tab == Tab::Agents {
            first.does(Effect::RefreshPage(Tab::Agents))
        } else {
            first
        };
        let third = second.does(Effect::RefreshPage(Tab::Health)).does(
            Effect::RefreshPage(Tab::Repos),
        );
        if self.modal is Some {
            third.does(Effect::RefreshModal)
        } else {
            third
        }
    }

    /// The tab that is shown for one that is asked for.
    pub open spec fn shown_tab(self, tab: Tab) -> Tab {
        if tab == Tab::Tags && !self.tags_enabled {
            Tab::Search
        } else {
            tab
        }
    }

    /// Another tab is shown. Its page is told only where the tab changes.
    #[verifier::opaque]
    pub open spec fn switched(self, tab: Tab) -> AppView {
        let closed = self.without_menus();
        let shown = self.shown_tab(tab);
        if shown == self.tab {
            closed
        } else {
            let left = AppView { tab: shown, ..closed }.does(Effect::ResetLibrary);
            let read = if shown == Tab::Agents && self.agents_dirty {
                AppView { agents_dirty: false, ..left }.does(Effect::RefreshPage(Tab::Agents))
            } else {
                left
            };
            read.does(Effect::EnterPage(shown))
        }
    }

    #[verifier::opaque]
    pub open spec fn on_page(self) -> AppView {
        AppView { focus: AppFocus::Page, ..self }.does(Effect::FocusRoot(self.tab))
    }

    /// A batch runs, unless one does already.
    #[verifier::opaque]
    pub open spec fn batch_started(self, work: BatchWork, title: Seq<char>) -> AppView {
        if self.batch_running {
            self
        } else {
            let id = following(self.next_task_id);
            AppView {
                batch_running: true,
                batch_modal_owned: owns_batch(self.modal),
                next_task_id: id,
                tasks_running: one_more(self.tasks_running),
                modal: busied(self.modal, true),
                ..self
            }.with(EffectView::StartNotice(id, title)).does(Effect::RunBatch(id, work))
        }
    }

    /// Nothing stands in the way of an automatic synchronisation.
    pub open spec fn idle(self, facts: PageFacts) -> bool {
        self.tasks_running == 0 && !self.batch_running && !self.edits_library(facts)
            && self.external is None
    }

    /// An automatic synchronisation starts where one is due and nothing stands in its way.
    #[verifier::opaque]
    pub open spec fn synced_if_ready(self, facts: PageFacts) -> AppView {
        if self.sync.can_auto_sync(self.idle(facts)) {
            let id = following(self.next_task_id);
            AppView {
                sync: self.sync.take_auto_sync(true),
                tasks_running: 1,
                next_task_id: id,
                ..self
            }.with(EffectView::StartNotice(id, "Root sync"@)).with(
                EffectView::AutoSync(id, self.sync.status->0.changes@),
            )
        } else {
            self
        }
    }

    /// The actions are carried out next, before anything else.
    pub open spec fn first(self, actions: Seq<Action>, scope: MutationScope) -> AppView {
        AppView {
            todo: actions.map_values(
                |action: Action| WorkView::Act { action, scope, background: false },
            ) + self.todo,
            ..self
        }
    }
}

// ---- the steps ---------------------------------------------------------------

impl App {
    pub(crate) fn emit(&mut self, effect: Effect)
        requires
            old(self).valid(),
        ensures
            final(self)@ == old(self)@.with(effect@),
            final(self).valid(),
    {
        reveal(App::valid);
        assert(effect_views(self.effects@.push(effect)) =~= effect_views(self.effects@).push(
            effect@,
        ));
        self.effects.push(effect);
    }

    pub(crate) fn wait(&mut self, waiting: Waiting)
        requires
            old(self).valid(),
            waiting matches Waiting::Write { submitted, .. } ==> !submitted,
        ensures
            final(self)@ == (AppView { waiting: Some(waiting), ..old(self)@ }),
            final(self).valid(),
    {
        reveal(App::valid);
        self.waiting = Some(waiting);
    }

    pub(crate) fn take_focus(&mut self, focus: AppFocus)
        requires
            old(self).valid(),
        ensures
            final(self)@ == (AppView { focus, ..old(self)@ }),
            final(self).valid(),
    {
        reveal(App::valid);
        self.focus = focus;
    }

    /// A notice.
    pub fn toast(&mut self, text: String, level: Level)
        requires
            old(self).valid(),
        ensures
            final(self)@ == old(self)@.told(text@, level),
            final(self).valid(),
    {
        self.emit(Effect::Tell(text, level));
    }

    pub(crate) fn tell(&mut self, text: &str, level: Level)
        requires
            old(self).valid(),
        ensures
            final(self)@ == old(self)@.told(text@, level),
            final(self).valid(),
    {
        self.emit(Effect::Tell(text.to_owned(), level));
    }

    pub fn should_quit(&self) -> (r: bool)
        ensures
            r == self@.quit,
    {
        self.quit
    }

    pub fn take_external(&mut self) -> (r: Option<External>)
        requires
            old(self).valid(),
        ensures
            external_view(r) == old(self)@.external,
            final(self)@ == (AppView { external: None, ..old(self)@ }),
            final(self).valid(),
    {
        reveal(App::valid);
        self.external.take()
    }

    /// Whether finished work may not show anything now.
    pub fn task_ui_blocked(&self, facts: PageFacts) -> (r: bool)
        ensures
            r == self@.blocked(facts),
    {
        self.quit_prompt.is_some() || self.modal.is_some() || self.context_menu.is_some()
            || self.command_palette.is_some() || (self.tab == Tab::Tags && facts.tags_input)
    }

    pub fn library_edit_active(&self, facts: PageFacts) -> (r: bool)
        ensures
            r == self@.edits_library(facts),
    {
        (self.modal.is_some() && facts.edits_library) || (self.tab == Tab::Tags
            && facts.tags_input)
    }

    pub(crate) fn close_menus(&mut self)
        requires
            old(self).valid(),
        ensures
            final(self)@ == old(self)@.without_menus(),
            final(self).valid(),
    {
        reveal(App::valid);
        self.context_menu = None;
        self.command_palette = None;
    }

    /// Looks at the backup, unless that is being done.
    pub fn refresh_sync_status(&mut self, remote: bool, reason: ProbeReason, now: u64)
        requires
            old(self).valid(),
            now + PROBE_INTERVAL <= u64::MAX,
        ensures
            final(self)@ == old(self)@.observing(remote, reason, now),
            final(self).valid(),
    {
        reveal(AppView::observing);
        reveal(App::valid);
        match self.sync.request_probe(remote, reason, now) {
            Some(request) => {
                match &mut self.modal {
                    Some(Modal::Sync(picker)) => picker.set_checking(true),
                    _ => {},
                }
                self.emit(Effect::Observe { id: request.id, remote });
            },
            None => {},
        }
    }

    fn claim(&mut self, task: &Task)
        requires
            old(self).valid(),
        ensures
            final(self)@ == old(self)@.claimed(*task),
            final(self).valid(),
    {
        reveal(App::valid);
        match task {
            Task::Sync(request) => {
                if !request.dry_run && !self.sync.syncing() {
                    self.sync.start_manual_sync();
                }
            },
            Task::SyncConfigure { .. } | Task::SyncDisable | Task::RepairApply(_) => {
                self.batch_running = true;
            },
            _ => {},
        }
    }

    /// Starts work beside the interface, or says why it cannot start now.
    pub fn spawn(&mut self, task: Task)
        requires
            old(self).valid(),
        ensures
            final(self)@ == old(self)@.spawned(task),
            final(self).valid(),
    {
        reveal(AppView::spawned);
        reveal(App::valid);
        if self.sync.switching() && task.writes_library() {
            self.tell("Root sync is updating the Library; retry when it finishes", Level::Info);
            return;
        }
        if task.is_root_operation() && self.tasks_running > 0 {
            self.tell(
                "Wait for the current operation before changing root backup",
                Level::Info,
            );
            return;
        }
        self.claim(&task);
        self.tasks_running = self.tasks_running.saturating_add(1);
        self.next_task_id = self.next_task_id.wrapping_add(1);
        let id = self.next_task_id;
        match task.label() {
            Some(label) => self.emit(Effect::StartNotice(id, label)),
            None => {},
        }
        self.emit(Effect::Run(id, task));
    }

    /// Reads the settings and the library again.
    pub fn rescan(&mut self)
        requires
            old(self).valid(),
        ensures
            final(self)@ == old(self)@.rescanned(),
            final(self).valid(),
    {
        reveal(AppView::rescanned);
        self.emit(Effect::Reload);
        self.spawn(Task::Scan);
    }

    pub(crate) fn library_changed(&mut self, now: u64)
        requires
            old(self).valid(),
            now + PROBE_INTERVAL <= u64::MAX,
        ensures
            final(self)@ == old(self)@.library_changed(now),
            final(self).valid(),
    {
        reveal(AppView::library_changed);
        reveal(App::valid);
        self.sync.library_changed();
        self.refresh_sync_status(false, ProbeReason::Mutation, now);
        self.rescan();
    }

    pub(crate) fn mutation_finished(&mut self, scope: MutationScope, now: u64)
        requires
            old(self).valid(),
            now + PROBE_INTERVAL <= u64::MAX,
        ensures
            final(self)@ == old(self)@.mutated(scope, now),
            final(self).valid(),
    {
        reveal(AppView::mutated);
        match scope {
            MutationScope::Library => self.library_changed(now),
            MutationScope::Deployment => self.rescan(),
        }
    }

    /// The settings, or the library, were read: every page follows.
    #[verifier::rlimit(50)]
    pub fn on_snapshot(&mut self, tags_enabled: bool)
        requires
            old(self).valid(),
        ensures
            final(self)@ == old(self)@.snapshotted(tags_enabled),
            final(self).valid(),
    {
        reveal(AppView::snapshotted);
        reveal(App::valid);
        self.tags_enabled = tags_enabled;
        if !tags_enabled && self.tab == Tab::Tags {
            self.tab = Tab::Search;
        }
        self.agents_dirty = self.tab != Tab::Agents;
        self.close_menus();
        self.emit(Effect::RefreshPage(Tab::Search));
        self.emit(Effect::RefreshPage(Tab::Tags));
        self.emit(Effect::RefreshPage(Tab::Presets));
        if self.tab == Tab::Agents {
            self.emit(Effect::RefreshPage(Tab::Agents));
        }
        self.emit(Effect::RefreshPage(Tab::Health));
        self.emit(Effect::RefreshPage(Tab::Repos));
        if self.modal.is_some() {
            self.emit(Effect::RefreshModal);
        }
    }

    /// The settings were read again: they are used, or why they cannot be is told and the
    /// last ones stay.
    pub fn reloaded(&mut self, result: Result<bool, String>)
        requires
            old(self).valid(),
        ensures
            final(self)@ == match result {
                Ok(tags_enabled) => old(self)@.snapshotted(tags_enabled),
                Err(error) => old(self)@.told(error@, Level::Error),
            },
            final(self).valid(),
    {
        match result {
            Ok(tags_enabled) => self.on_snapshot(tags_enabled),
            Err(error) => self.toast(error, Level::Error),
        }
    }

    pub(crate) fn switch_tab(&mut self, tab: Tab)
        requires
            old(self).valid(),
        ensures
            final(self)@ == old(self)@.switched(tab),
            final(self).valid(),
    {
        reveal(AppView::switched);
        reveal(App::valid);
        self.close_menus();
        let shown = if tab == Tab::Tags && !self.tags_enabled {
            Tab::Search
        } else {
            tab
        };
        if shown == self.tab {
            return;
        }
        self.tab = shown;
        self.emit(Effect::ResetLibrary);
        if shown == Tab::Agents && self.agents_dirty {
            self.agents_dirty = false;
            self.emit(Effect::RefreshPage(Tab::Agents));
        }
        self.emit(Effect::EnterPage(shown));
    }

    pub(crate) fn enter_page(&mut self)
        requires
            old(self).valid(),
        ensures
            final(self)@ == old(self)@.on_page(),
            final(self).valid(),
    {
        reveal(AppView::on_page);
        reveal(App::valid);
        self.focus = AppFocus::Page;
        self.emit(Effect::FocusRoot(self.tab));
    }

    pub(crate) fn spawn_batch(&mut self, work: BatchWork, title: String)
        requires
            old(self).valid(),
        ensures
            final(self)@ == old(self)@.batch_started(work, title@),
            final(self).valid(),
    {
        reveal(AppView::batch_started);
        reveal(App::valid);
        if self.batch_running {
            return;
        }
        self.batch_running = true;
        self.batch_modal_owned = matches!(
            self.modal,
            Some(Modal::Batch(_)) | Some(Modal::PresetSkills(_))
        );
        self.next_task_id = self.next_task_id.wrapping_add(1);
        let id = self.next_task_id;
        self.tasks_running = self.tasks_running.saturating_add(1);
        match &mut self.modal {
            Some(Modal::Batch(batch)) => batch.set_busy(true),
            _ => {},
        }
        self.emit(Effect::StartNotice(id, title));
        self.emit(Effect::RunBatch(id, work));
    }

    /// The batch with this number could not be started.
    pub fn batch_not_started(&mut self, id: u64, error: &str)
        requires
            old(self).valid(),
        ensures
            final(self)@ == (AppView {
                batch_running: false,
                tasks_running: one_less(old(self)@.tasks_running),
                modal: busied(old(self)@.modal, false),
                ..old(self)@
            }).does(Effect::FinishNotice(id)).told("Cannot start batch: "@ + error@, Level::Error),
            final(self).valid(),
    {
        reveal(App::valid);
        self.batch_running = false;
        self.tasks_running = self.tasks_running.saturating_sub(1);
        match &mut self.modal {
            Some(Modal::Batch(batch)) => batch.set_busy(false),
            _ => {},
        }
        self.emit(Effect::FinishNotice(id));
        self.toast(crate::text::cat2("Cannot start batch: ", error), Level::Error);
    }

    /// Starts an automatic synchronisation where one is due and nothing stands in its way.
    pub fn sync_if_ready(&mut self, facts: PageFacts)
        requires
            old(self).valid(),
        ensures
            final(self)@ == old(self)@.synced_if_ready(facts),
            final(self).valid(),
    {
        reveal(AppView::synced_if_ready);
        reveal(AppView::spawned);
        reveal(App::valid);
        let safe = self.tasks_running == 0 && !self.batch_running && !self.library_edit_active(
            facts,
        ) && self.external.is_none();
        match self.sync.take_auto_sync(safe) {
            Some(request) => {
                let ghost before = self@;
                let changes = request.expected_changes;
                self.spawn(Task::AutoSync(changes));
                assert(self@.effects =~= before.effects.push(
                    EffectView::StartNotice(following(before.next_task_id), "Root sync"@),
                ).push(EffectView::AutoSync(following(before.next_task_id), changes@)));
            },
            None => {},
        }
    }
}

} // verus!
