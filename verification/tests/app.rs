use skills_tui::app::effects::{Effect, Waiting};
use skills_tui::app::events::Migration;
use skills_tui::app::footer::FooterFacts;
use skills_tui::app::header::HeaderLook;
use skills_tui::app::keys::{tab_after, tab_before, KeyRoute, PageCall, Surfaces, Turn};
use skills_tui::app::screen::step_back;
use skills_tui::app::sound::are_sound;
use skills_tui::app::state::{App, PageFacts};
use skills_tui::app::tasks::{auto_sync_failure_action, check_actions};
use skills_tui::app::turns::{NameCheck, StepPlan};
use skills_tui::app::{Action, AppFocus, Hint, Level, Step, Tab};
use skills_tui::batch::Look;
use skills_tui::components::command_palette::CommandPalette;
use skills_tui::components::context_menu::{Command, ContextMenu, Item, Request, Target};
use skills_tui::dialogs::message::Message;
use skills_tui::dialogs::prompt::{InputKind, PromptChecks, RefKind};
use skills_tui::event::{InventoryState, Msg, Task, TaskOutput, WriteFailure};
use skills_tui::geometry::Rect;
use skills_tui::keymap::{KeyCode, KeyEvent, KeyModifiers, MouseEvent, MouseKind};
use skills_tui::modal::{Facts, Modal, Surroundings};
use skills_tui::model::{
    AutoSyncDisposition, Icons, LinkAction, Mode, PlannedLink, Report, Settings, SkillRecord,
    SkillStatus, Snapshot, Status, Write,
};
use skills_tui::repository_picker::{
    Candidate, Checks, FetchedRepository, InstallSelection, Repository, SourceKind, SourceName,
};
use skills_tui::sync_coordinator::ProbeReason;
use skills_tui::sync_picker;
use skills_tui::theme::Theme;
use skills_tui::ui::{Color, Draw, Lines, Scene, Style};

fn key(code: KeyCode) -> KeyEvent {
    KeyEvent::new(code, KeyModifiers::none())
}

fn control(c: char) -> KeyEvent {
    KeyEvent::new(KeyCode::Char(c), KeyModifiers::control())
}

fn left_press(rect: Rect) -> MouseEvent {
    MouseEvent { kind: MouseKind::Down, column: rect.x, row: rect.y, repeated: false }
}

fn say(lines: &Lines) -> String {
    lines.items.iter().map(|line| line.text() + "\n").collect()
}

fn written(scene: &Scene) -> String {
    scene
        .items
        .iter()
        .map(|item| match item {
            Draw::Clear(_) => String::new(),
            Draw::Frame { title, .. } => title.text(),
            Draw::Text { lines, .. } => say(lines),
            Draw::List { rows, .. } => say(rows),
            Draw::Field { value, placeholder, .. } => format!("{value}{placeholder}"),
        })
        .collect()
}

fn library() -> Snapshot {
    Snapshot {
        root: "/tmp/skills".into(),
        skills: vec![],
        agents: vec![],
        repositories: vec![],
        presets: vec![],
        tags: vec![],
    }
}

fn facts() -> PageFacts {
    PageFacts {
        now: 1_000,
        poll_interval: 2_000,
        overlay_open: false,
        page_input: false,
        tags_input: false,
        tags_dialog: false,
        group_popup: false,
        agents_editing: false,
        edits_library: false,
    }
}

fn name_checks(app: &App) -> PromptChecks {
    let typed = match &app.modal {
        Some(Modal::Input(prompt)) => prompt.input.value(),
        _ => String::new(),
    };
    let invalid = typed.contains('/');
    PromptChecks {
        name_error: if invalid { Some("invalid name".into()) } else { None },
        key_ok: !invalid,
        id_ok: !invalid,
        reference: Ok(RefKind::Remote),
    }
}

fn surfaces(app: &App) -> Surfaces {
    Surfaces {
        dialog: Facts {
            prompt: name_checks(app),
            repository: Checks {
                alias_ok: true,
                name_ok: true,
                source_name: Ok(SourceName { name: None, display_name: "tools".into() }),
                local_name: String::new(),
            },
            right_cap: String::new(),
            wheel: 3,
        },
        menu: None,
        icons: Icons::Text,
    }
}

/// Writes to the presets; everything else works.
fn save(presets: &mut Vec<String>, write: &Write) -> Result<String, String> {
    match write {
        Write::CreatePreset { name } => {
            if presets.contains(name) || name.contains('/') {
                return Err(format!("preset {name} exists"));
            }
            presets.push(name.clone());
            Ok(format!("created {name}"))
        }
        Write::RenamePreset { old, new } => {
            if presets.contains(new) {
                return Err(format!("preset {new} exists"));
            }
            presets.retain(|name| name != old);
            presets.push(new.clone());
            Ok(format!("renamed {new}"))
        }
        _ => Ok("saved".into()),
    }
}

/// An application together with what stands around it.
struct Host {
    app: App,
    facts: PageFacts,
    presets: Vec<String>,
    effects: Vec<Effect>,
    called: Vec<PageCall>,
    writes: usize,
}

impl Host {
    fn new() -> Host {
        Host {
            app: App::new(library(), true, Some("stamp".into()), None, 0),
            facts: facts(),
            presets: vec![],
            effects: vec![],
            called: vec![],
            writes: 0,
        }
    }

    /// Does what is to be done until nothing is left.
    fn settle(&mut self) {
        loop {
            while self.app.advance(self.facts) {}
            let now = self.facts.now;
            match &self.app.waiting {
                Some(Waiting::Write { write, .. }) | Some(Waiting::Note(write)) => {
                    self.writes += 1;
                    let answer = match save(&mut self.presets, write) {
                        Ok(text) => Ok((text, None)),
                        Err(text) => Err(WriteFailure { text, conflict: None }),
                    };
                    self.app.written(answer, now);
                }
                Some(Waiting::Names { .. }) => self.app.names_checked(NameCheck::Clear),
                Some(Waiting::Links { .. }) => self.app.linked(Ok(("linked".into(), None))),
                Some(Waiting::RunLinks { .. }) => {
                    self.app.links_run(Ok(()), "linked".into(), None)
                }
                Some(Waiting::Plan(_)) => self.app.planned(None, StepPlan::NoEntry),
                Some(Waiting::SyncSettings) => self.app.sync_settings_read(Ok(nowhere()), now),
                None => {
                    let effects: Vec<Effect> = self.app.effects.drain(..).collect();
                    if effects.is_empty() {
                        break;
                    }
                    for effect in effects {
                        if matches!(effect, Effect::Reload) {
                            self.app.reloaded(Ok(true));
                        }
                        self.effects.push(effect);
                    }
                }
            }
        }
    }

    fn send(&mut self, msg: Msg) {
        let around = surfaces(&self.app);
        if let Some(call) = self.app.handle(msg, self.facts, around) {
            self.called.push(call);
            self.app.queue(vec![], false);
        }
        self.settle();
    }

    fn press(&mut self, code: KeyCode) {
        self.send(Msg::Key(key(code)));
    }

    fn apply(&mut self, action: Action) {
        self.app.queue(vec![action], false);
        self.settle();
    }

    fn keyed(&mut self, event: KeyEvent) -> Turn {
        let around = surfaces(&self.app);
        self.app.on_key(event, self.facts, around)
    }

    fn acts(&mut self, event: KeyEvent) -> Vec<Action> {
        match self.keyed(event) {
            Turn::Acts(actions) => actions,
            Turn::Page(call) => panic!("{event:?} went to the page: {call:?}"),
        }
    }

    fn told(&self) -> String {
        format!("{:?}", self.effects)
    }
}

fn nowhere() -> Settings {
    Settings { url: None, branch: None, enabled: false }
}

// ---- dialogs -----------------------------------------------------------------

#[test]
fn confirmation_ignores_modified_keys_and_help_pages_without_closing() {
    let snap = library();
    let host = Host::new();
    let around = surfaces(&host.app).dialog;
    for mut modal in [
        Modal::confirm("test".into(), vec![]),
        Modal::confirm_write("test".into(), vec![], Write::SetTagsEnabled(true)),
    ] {
        for modifiers in [KeyModifiers::control(), KeyModifiers::alt()] {
            for code in [KeyCode::Char('y'), KeyCode::Char('n'), KeyCode::Enter] {
                assert!(modal
                    .handle_key(KeyEvent::new(code, modifiers), &snap, &around)
                    .is_empty());
            }
        }
        if matches!(modal, Modal::ConfirmWrite(_)) {
            assert!(!modal
                .handle_key(key(KeyCode::Char('y')), &snap, &around)
                .is_empty());
        }
    }
    let mut help = Modal::help();
    assert!(help.handle_key(key(KeyCode::PageDown), &snap, &around).is_empty());
    assert!(matches!(&help, Modal::Help(help) if help.scroll == 10));
    assert!(help.handle_key(key(KeyCode::PageUp), &snap, &around).is_empty());
    assert!(matches!(&help, Modal::Help(help) if help.scroll == 0));
}

#[test]
fn background_poll_refreshes_external_moves_and_deletions_and_waits_for_dialogs() {
    let mut host = Host::new();
    host.facts.now = 3_000;
    host.app.modal = Some(Modal::help());
    host.send(Msg::Tick);
    assert_eq!(host.app.tasks_running, 0);
    host.app.modal = None;
    host.send(Msg::Tick);
    assert_eq!(host.app.tasks_running, 1);
    let poll = host.app.next_task_id - 1;
    host.send(Msg::Task(poll, Box::new(TaskOutput::RootStamp(Ok("moved".into())))));
    assert_eq!(host.app.tasks_running, 1, "a changed root is scanned");
    let scan = host.app.next_task_id - 1;
    let mut after = library();
    after.tags = vec!["keep".into()];
    host.send(Msg::Task(
        scan,
        Box::new(TaskOutput::Scan(Ok(Box::new(after)), Some("moved".into()))),
    ));
    assert_eq!(host.app.tasks_running, 0);
    assert_eq!(host.app.snap.tags, ["keep"]);
    host.facts.now = 6_000;
    host.send(Msg::Tick);
    let id = host.app.next_task_id;
    host.send(Msg::Task(id - 1, Box::new(TaskOutput::RootStamp(Ok("moved".into())))));
    assert_eq!(
        host.app.next_task_id, id,
        "unchanged roots must not launch a scan"
    );
}

fn background(title: &str) -> Action {
    Action::BackgroundWrite {
        title: title.into(),
        write: Write::SetTagsEnabled(true),
        keys: vec![],
    }
}

fn batch_over(id: u64) -> Msg {
    Msg::Task(
        id,
        Box::new(TaskOutput::Batch(skills_tui::event::metadata_outcome(
            skills_tui::model::MutationScope::Library,
            vec![],
            Ok(("done".into(), None)),
        ))),
    )
}

#[test]
fn background_write_keeps_navigation_responsive_and_preserves_new_dialog() {
    let mut host = Host::new();
    host.apply(background("Slow operation"));
    assert!(host.app.batch_running);
    let id = host.app.next_task_id - 1;
    host.press(KeyCode::Tab);
    assert_eq!(host.app.tab, Tab::Tags);
    host.apply(Action::Write(Write::SetTagsEnabled(true)));
    assert_eq!(host.writes, 0, "overlapping writes must be blocked");
    host.app.modal = Some(Modal::help());
    host.send(batch_over(id));
    assert!(
        host.app.modal.is_some(),
        "worker completion must not close a newer dialog"
    );
    assert!(!host.app.batch_running);
}

fn draw_quit(host: &mut Host, named: &[&str]) -> String {
    let named: Vec<String> = named.iter().map(|name| name.to_string()).collect();
    written(&host.app.draw_quit(Rect::new(0, 0, 100, 24), &Theme::default(), &named))
}

#[test]
fn quitting_running_work_requires_explicit_confirmation_and_preserves_input() {
    let mut host = Host::new();
    host.app.tasks_running = 1;
    for tab in Tab::visible(true) {
        host.apply(Action::SwitchTab(tab));
        host.app.focus = AppFocus::Tabs;
        host.press(KeyCode::Esc);
        assert!(
            host.app.quit_prompt.is_some(),
            "tab strip uses the running-work quit guard"
        );
        host.press(KeyCode::Esc);
        assert!(!host.app.quit);
    }
    host.app.modal = Some(Modal::set_source("printer", None));
    host.send(Msg::Paste("https://example.com/team/tools".into()));
    host.app.batch_running = true;
    host.send(Msg::Key(control('c')));
    assert!(host.app.quit_prompt.is_some());
    assert!(!host.app.quit);
    let rendered = draw_quit(&mut host, &["12/30 complete · querying printer…"]);
    assert!(rendered.contains("12/30 complete"));
    assert!(rendered.contains("Quit now and abandon running work?"));
    host.send(Msg::Paste("unexpected paste".into()));
    host.press(KeyCode::Enter);
    assert!(!host.app.quit);
    assert!(host.app.quit_prompt.is_none());
    let Some(Modal::Input(prompt)) = &host.app.modal else {
        panic!("lost editing dialog")
    };
    assert_eq!(prompt.input.value(), "https://example.com/team/tools");
    host.send(Msg::Key(control('c')));
    host.app.tasks_running = 0;
    let rendered = draw_quit(&mut host, &[]);
    assert!(rendered.contains("Background work has finished"));
    host.press(KeyCode::Left);
    host.press(KeyCode::Enter);
    assert!(host.app.quit);
}

#[test]
fn work_without_a_notice_is_counted() {
    let mut host = Host::new();
    host.app.tasks_running = 3;
    host.apply(Action::Quit);
    assert!(draw_quit(&mut host, &["Check upstream"]).contains("Scan skills: 2 running"));
    assert!(!draw_quit(&mut host, &["a", "b", "c"]).contains("Scan skills"));
}

fn synced() -> TaskOutput {
    TaskOutput::Sync(
        sync_picker::Request { mode: Mode::Sync, dry_run: false },
        Ok(Report { committed: false, pulled: false, pushed: false, status: vec![] }),
        Ok(nowhere()),
    )
}

#[test]
fn root_sync_keeps_navigation_live_and_dismisses_its_exit_prompt_when_done() {
    let mut host = Host::new();
    host.app.sync.start_manual_sync();
    host.app.batch_running = true;
    host.app.tasks_running = 1;

    host.press(KeyCode::Tab);
    assert_eq!(host.app.tab, Tab::Tags, "sync must not swallow navigation");

    host.apply(Action::Quit);
    let rendered = draw_quit(&mut host, &[]);
    assert!(rendered.contains("Root sync is still in progress."));
    assert!(rendered.contains("Force exit"));
    assert!(!host.app.quit);

    host.press(KeyCode::Enter);
    assert!(!host.app.quit, "Cancel must be selected by default");
    assert!(host.app.quit_prompt.is_none());

    host.apply(Action::Quit);
    host.press(KeyCode::Left);
    host.press(KeyCode::Enter);
    assert!(host.app.quit, "Force exit must leave immediately");
    host.app.quit = false;
    host.apply(Action::Quit);

    host.send(Msg::Task(1, Box::new(synced())));
    assert!(host.app.quit_prompt.is_none());
    assert!(host.app.quit, "a completed sync must finish the pending exit");
}

#[test]
fn source_paste_never_submits_or_dispatches_shortcuts() {
    let mut host = Host::new();
    host.app.modal = Some(Modal::set_source("sample", None));
    host.send(Msg::Paste(
        "https://example.com/team/tools\nset -g junk 1\nmore junk".into(),
    ));
    let Some(Modal::Input(prompt)) = &host.app.modal else {
        panic!("paste changed the dialog");
    };
    assert!(matches!(&prompt.kind, InputKind::SetSource { skill } if skill == "sample"));
    assert!(prompt.input.is_empty());
    assert_eq!(host.writes, 0);
    host.send(Msg::Paste("https://example.com/team/tools".into()));
    let Some(Modal::Input(prompt)) = &host.app.modal else {
        panic!("paste submitted the dialog");
    };
    assert_eq!(prompt.input.value(), "https://example.com/team/tools");
    assert_eq!(host.writes, 0);
    host.press(KeyCode::Esc);
    host.press(KeyCode::Enter);
    host.send(Msg::Paste("sqx123\n".into()));
    assert!(host.app.modal.is_none());
    assert!(!host.app.quit);
    assert_eq!(host.app.tab, Tab::Search);
    assert_eq!(host.writes, 0);
}

#[test]
fn batch_worker_keeps_ticks_live_and_rejects_duplicate_submission() {
    let mut host = Host::new();
    host.apply(Action::BatchMeta(Write::SetTagsEnabled(true), vec![]));
    assert!(host.app.batch_running);
    let running = host.app.next_task_id - 1;
    let tick = host.app.spinner;
    host.send(Msg::Tick);
    assert_ne!(tick, host.app.spinner);
    let id = host.app.next_task_id;
    host.apply(Action::BatchMeta(Write::SetTagsEnabled(false), vec![]));
    assert_eq!(id, host.app.next_task_id);
    host.press(KeyCode::Char('q'));
    assert!(!host.app.quit);
    host.send(batch_over(running));
    assert!(!host.app.batch_running);
    assert!(host.app.modal.is_none());
}

fn fetched(alias: &str) -> FetchedRepository {
    let choice = |name: &str| Candidate {
        path: name.into(),
        name: Some(name.into()),
        local_name: name.into(),
        invalid: None,
        installed: false,
        missing: false,
    };
    FetchedRepository {
        repository: Repository {
            kind: SourceKind::Git,
            alias: alias.into(),
            url: format!("https://example.com/sample/{alias}"),
            branch: "main".into(),
            name: None,
            display_name: format!("sample/{alias}"),
        },
        revision: "0000000000000000000000000000000000000001".into(),
        workdir: format!("/tmp/downloads/{alias}"),
        choices: vec![choice("printer"), choice("reader")],
    }
}

#[test]
fn background_dialogs_wait_for_editing_and_keep_arrival_order() {
    let mut host = Host::new();
    host.app.modal = Some(Modal::new_preset());
    host.press(KeyCode::Char('a'));
    host.press(KeyCode::Char('/'));
    host.press(KeyCode::Left);
    for reference in ["first", "second"] {
        host.send(Msg::Task(
            0,
            Box::new(TaskOutput::RepositoryFetched(
                reference.into(),
                Ok(fetched(reference)),
            )),
        ));
    }
    assert_eq!(host.app.pending_task_ui.len(), 2);
    host.press(KeyCode::Enter); // Invalid preset name: keep editing.
    assert!(matches!(&host.app.modal, Some(Modal::Input(_))));
    assert_eq!(host.app.pending_task_ui.len(), 2);
    host.press(KeyCode::Char('b'));
    let Some(Modal::Input(prompt)) = &host.app.modal else {
        panic!("lost input")
    };
    assert_eq!(prompt.input.value(), "ab/");
    host.press(KeyCode::Delete);
    host.press(KeyCode::Enter); // Save; only the first task may appear.
    assert_eq!(host.presets, ["ab"]);
    let Some(Modal::Repository(picker)) = &host.app.modal else {
        panic!("expected first result")
    };
    assert_eq!(picker.selection.fetched.repository.alias, "first");
    host.press(KeyCode::Enter); // Leave candidate search input.
    host.press(KeyCode::Esc);
    let Some(Modal::Repository(picker)) = &host.app.modal else {
        panic!("expected second result")
    };
    assert_eq!(picker.selection.fetched.repository.alias, "second");
    assert!(host.told().contains("DiscardFetched(\"/tmp/downloads/first\")"));
    assert!(!host.told().contains("DiscardFetched(\"/tmp/downloads/second\")"));
    host.press(KeyCode::Enter); // Leave candidate search input.
    host.press(KeyCode::Esc);
    assert!(host.app.modal.is_none());
    assert!(host.app.pending_task_ui.is_empty());
}

#[test]
fn failed_inputs_keep_their_text_and_cursor_until_a_successful_retry() {
    let mut host = Host::new();
    host.presets = vec!["reading".into()];
    let value = |host: &Host| match &host.app.modal {
        Some(Modal::Input(prompt)) => prompt.input.value(),
        _ => panic!("input must remain open"),
    };
    host.app.modal = Some(Modal::rename_preset("reading"));
    host.press(KeyCode::End);
    host.press(KeyCode::Char('/'));
    host.press(KeyCode::Left);
    host.press(KeyCode::Enter);
    assert_eq!(value(&host), "reading/");
    host.press(KeyCode::Char('s'));
    assert_eq!(value(&host), "readings/"); // Cursor stayed before the slash.
    host.press(KeyCode::Delete);
    host.press(KeyCode::Enter);
    assert!(host.app.modal.is_none());
    assert!(host.presets.contains(&"readings".into()));

    host.app.modal = Some(Modal::new_preset());
    for c in "readings".chars() {
        host.press(KeyCode::Char(c));
    }
    host.press(KeyCode::Enter); // The write rejects the duplicate.
    assert_eq!(value(&host), "readings");
    host.press(KeyCode::Char('2'));
    host.press(KeyCode::Enter);
    assert!(host.app.modal.is_none());
    assert!(host.presets.contains(&"readings2".into()));

    // A metadata write can fail after validation, too.
    host.app.modal = Some(Modal::rename_preset("readings2"));
    host.press(KeyCode::Backspace);
    host.press(KeyCode::Enter); // Existing destination.
    assert_eq!(value(&host), "readings");
    host.press(KeyCode::Char('3'));
    host.press(KeyCode::Enter);
    assert!(host.app.modal.is_none());
    assert!(host.presets.contains(&"readings3".into()));
    host.app.modal = Some(Modal::new_preset());
    host.press(KeyCode::Esc);
    assert!(host.app.modal.is_none());
}

// ---- keys --------------------------------------------------------------------

#[test]
fn matrix_receives_keys_before_global_shortcuts() {
    let mut host = Host::new();
    host.app.tab = Tab::Agents;
    host.app.focus = AppFocus::Page;
    host.facts.overlay_open = true;
    for code in [
        KeyCode::Tab,
        KeyCode::BackTab,
        KeyCode::Char(':'),
        KeyCode::Char('a'),
        KeyCode::Char('/'),
        KeyCode::Char('1'),
        KeyCode::Esc,
    ] {
        assert!(matches!(host.keyed(key(code)), Turn::Page(_)), "{code:?}");
        assert!(host.app.command_palette.is_none());
        assert!(host.app.context_menu.is_none());
        assert_eq!(host.app.tab, Tab::Agents);
    }
    host.facts.overlay_open = false;
    assert!(matches!(
        host.app.route_key(key(KeyCode::Tab), host.facts),
        KeyRoute::Switch(Tab::Repos)
    ));
    assert!(matches!(
        host.acts(key(KeyCode::Tab)).as_slice(),
        [Action::SwitchTab(Tab::Repos)]
    ));
    assert!(matches!(
        host.acts(key(KeyCode::BackTab)).as_slice(),
        [Action::SwitchTab(Tab::Presets)]
    ));
}

#[test]
fn tab_changes_pages_from_inputs_and_returning_clears_temporary_library_scope() {
    let mut host = Host::new();
    host.app.focus = AppFocus::Page;
    host.facts.page_input = true;
    assert!(matches!(
        host.acts(key(KeyCode::Tab)).as_slice(),
        [Action::SwitchTab(Tab::Tags)]
    ));
    host.apply(Action::SelectSkills {
        keys: vec!["alpha".into()],
        title: "Temporary selection".into(),
        checked: None,
    });
    host.effects.clear();
    host.apply(Action::SwitchTab(Tab::Tags));
    host.apply(Action::SwitchTab(Tab::Search));
    assert!(host.effects.iter().any(|e| matches!(e, Effect::ResetLibrary)));
    host.apply(Action::SwitchTab(Tab::Tags));
    host.app.focus = AppFocus::Page;
    for c in "tag123/".chars() {
        assert!(matches!(host.keyed(key(KeyCode::Char(c))), Turn::Page(PageCall::Key)));
    }
    assert_eq!(host.app.tab, Tab::Tags);
    assert!(matches!(
        host.acts(key(KeyCode::Tab)).as_slice(),
        [Action::SwitchTab(Tab::Presets)]
    ));
    host.app.modal = Some(Modal::new_preset());
    assert!(host.acts(key(KeyCode::Tab)).is_empty());
    assert!(host.app.modal.is_some());
}

#[test]
fn global_shortcuts_do_not_conflict_with_page_or_text_input_keys() {
    let mut host = Host::new();
    for focus in [AppFocus::Tabs, AppFocus::Page] {
        host.app.focus = focus;
        for c in ['g', 'o'] {
            let actions = host.acts(control(c));
            assert!(matches!(actions.as_slice(), [Action::OpenModal(_)]), "{c}");
        }
        for c in ['p', 'b'] {
            match host.keyed(control(c)) {
                Turn::Acts(actions) => assert!(actions.is_empty()),
                Turn::Page(call) => assert_eq!(
                    call,
                    PageCall::Control,
                    "Ctrl-{c} must not leak into page shortcuts"
                ),
            }
        }
        assert!(matches!(
            host.acts(control('r')).as_slice(),
            [Action::Rescan, Action::Toast(_)]
        ));
        assert_eq!(host.app.focus, focus);
    }
    host.app.focus = AppFocus::Page;
    assert!(matches!(
        host.keyed(key(KeyCode::Char('g'))),
        Turn::Page(PageCall::Key)
    ));
    host.app.modal = Some(Modal::help());
    assert!(host.acts(control('p')).is_empty());
}

fn menu_request() -> Request {
    Request {
        title: "test".into(),
        detail: "single".into(),
        target: Target::Skill("test".into()),
        items: vec![Item::new(Command::Open, "View", KeyCode::Enter, true, "", 0)],
    }
}

#[test]
fn actions_and_command_palette_are_keyboard_discoverable() {
    let mut host = Host::new();
    host.app.focus = AppFocus::Page;
    let mut around = surfaces(&host.app);
    around.menu = Some(menu_request());
    assert!(matches!(
        host.app.on_key(key(KeyCode::Char('a')), host.facts, around),
        Turn::Acts(actions) if actions.is_empty()
    ));
    assert!(host.app.context_menu.is_some());
    host.acts(key(KeyCode::Esc));
    assert!(host.app.context_menu.is_none());

    assert!(host
        .acts(KeyEvent::new(KeyCode::Char(':'), KeyModifiers::shift()))
        .is_empty());
    assert!(host.app.command_palette.is_some());
    for character in "backup".chars() {
        host.acts(key(KeyCode::Char(character)));
    }
    let opened = host.app.next_task_id;
    host.press(KeyCode::Enter);
    assert!(host.app.command_palette.is_none());
    assert!(matches!(&host.app.modal, Some(Modal::Sync(_))));
    assert!(host
        .effects
        .iter()
        .any(|e| matches!(e, Effect::Observe { remote: true, .. })));
    assert_eq!(host.app.next_task_id, opened);
}

#[test]
fn palette_blocks_background_dialogs_and_clears_on_transitions() {
    let mut host = Host::new();
    host.app.focus = AppFocus::Page;
    host.acts(key(KeyCode::Char(':')));
    assert!(host.app.task_ui_blocked(host.facts));
    host.app
        .pending_task_ui
        .push(Action::OpenModal(Box::new(Modal::help())));
    host.press(KeyCode::Char('x'));
    assert!(host.app.modal.is_none());
    host.press(KeyCode::Esc);
    assert!(matches!(&host.app.modal, Some(Modal::Help(_))));
    host.app.modal = None;
    host.acts(key(KeyCode::Char(':')));
    host.send(Msg::Resize);
    assert!(host.app.command_palette.is_none());
    host.acts(key(KeyCode::Char(':')));
    host.apply(Action::SwitchTab(Tab::Tags));
    assert!(host.app.command_palette.is_none());
}

#[test]
fn actions_key_remains_text_while_search_is_editing() {
    let mut host = Host::new();
    host.app.focus = AppFocus::Page;
    host.facts.page_input = true;
    let mut around = surfaces(&host.app);
    around.menu = Some(menu_request());
    assert!(matches!(
        host.app.on_key(key(KeyCode::Char('a')), host.facts, around),
        Turn::Page(PageCall::Key)
    ));
    assert!(host.app.context_menu.is_none());
}

#[test]
fn tabs_go_round() {
    let mut tab = Tab::Search;
    for expected in [
        Tab::Tags,
        Tab::Presets,
        Tab::Agents,
        Tab::Repos,
        Tab::Health,
        Tab::Search,
    ] {
        let next = tab_after(true, tab);
        assert_eq!(next, expected);
        assert_eq!(tab_before(true, next), tab);
        tab = next;
    }
    assert_eq!(tab_after(false, Tab::Search), Tab::Presets);
    assert_eq!(Tab::visible(false).len(), 5);
    assert_eq!(Tab::Search.title(), "Library");
}

// ---- mouse -------------------------------------------------------------------

fn look() -> HeaderLook {
    HeaderLook {
        theme: Theme::default(),
        narrow_width: 58,
        compact_width: 86,
        root: "/tmp/skills".into(),
        local: false,
    }
}

fn footer_facts(page: Vec<Hint>) -> FooterFacts {
    FooterFacts {
        theme: Theme::default(),
        status: "1/1 local".into(),
        page,
        hosted: vec![],
        has_actions: true,
    }
}

fn draw(host: &mut Host, width: u16, height: u16) -> (String, String) {
    let (header, footer) = host.app.draw_frame(
        Rect::new(0, 0, width, height),
        host.facts,
        &look(),
        &footer_facts(vec![("Enter", "open"), ("t", "tags"), ("Esc", "back")]),
    );
    (written(&header), written(&footer))
}

#[test]
fn mouse_tab_selection_keeps_the_page_active() {
    let mut host = Host::new();
    for tab in [Tab::Agents, Tab::Agents, Tab::Search] {
        host.app.focus = AppFocus::Tabs;
        draw(&mut host, 120, 30);
        let rect = host.app.tab_rects.iter().find(|(_, t)| *t == tab).unwrap().0;
        host.send(Msg::Mouse(left_press(rect)));
        assert_eq!(host.app.tab, tab);
        assert_eq!(host.app.focus, AppFocus::Page);
    }
}

#[test]
fn context_menu_blocks_page_input_and_closes_for_modal_resize_snapshot() {
    let mut host = Host::new();
    let make = || ContextMenu::new(menu_request(), 5, 5);
    host.app.context_menu = Some(make());
    assert!(host.acts(key(KeyCode::Char('4'))).is_empty());
    assert_eq!(host.app.tab, Tab::Search);
    draw(&mut host, 100, 30);
    let surroundings = surroundings();
    host.app.draw_over(Rect::new(0, 0, 100, 30), &surroundings);
    let point = host
        .app
        .tab_rects
        .iter()
        .find(|(_, t)| *t == Tab::Agents)
        .unwrap()
        .0;
    host.send(Msg::Mouse(left_press(point)));
    assert!(host.app.context_menu.is_none());
    assert_eq!(host.app.tab, Tab::Search);
    host.app.context_menu = Some(make());
    host.send(Msg::Resize);
    assert!(host.app.context_menu.is_none());
    host.app.context_menu = Some(make());
    host.apply(Action::OpenModal(Box::new(Modal::help())));
    assert!(host.app.context_menu.is_none());
    assert!(matches!(
        host.acts(control('c')).as_slice(),
        [Action::Quit]
    ));
}

fn surroundings() -> Surroundings {
    Surroundings {
        root: "/tmp/skills".into(),
        tags_enabled: true,
        plan: Ok(vec![]),
        name: String::new(),
        local_name: String::new(),
        picker_title: String::new(),
        look: Look {
            theme: Theme::default(),
            left_cap: String::new(),
            right_cap: String::new(),
            tags: vec![],
        },
    }
}

// ---- header and footer -------------------------------------------------------

#[test]
fn header_keeps_current_page_and_navigation_visible_at_small_widths() {
    let mut host = Host::new();
    for width in [40, 60, 70, 80, 120] {
        for tab in Tab::visible(true) {
            host.app.tab = tab;
            let text = written(&host.app.draw_header(Rect::new(0, 0, width, 1), &look()));
            assert!(text.contains(tab.title()), "{width}: {text}");
            assert!(text.contains("Tab") || width >= 60, "{width}: {text}");
            assert!(host
                .app
                .tab_rects
                .iter()
                .all(|(rect, _)| rect.right() <= width));
        }
    }
}

fn status(changes: usize, ahead: usize, behind: usize, remote_checked: bool) -> Status {
    Status {
        settings: Settings {
            url: Some("/tmp/remote.git".into()),
            branch: Some("main".into()),
            enabled: true,
        },
        changes: (0..changes).map(|i| format!("?? file-{i}")).collect(),
        ahead,
        behind,
        remote_checked,
        local_revision: Some("local".into()),
        remote_revision: Some("remote".into()),
    }
}

fn header(host: &mut Host, width: u16) -> String {
    written(&host.app.draw_header(Rect::new(0, 0, width, 1), &look()))
}

#[test]
fn header_backup_button_is_compact_clickable_and_uses_cached_status() {
    let mut host = Host::new();
    host.app.sync.set_status(status(3, 2, 1, true));
    let wide = header(&mut host, 120);
    assert!(wide.contains("● 3 · ↑ 2 · ↓ 1"), "{wide}");
    assert!(host.app.sync_button.right() <= 120);

    let narrow = header(&mut host, 40);
    assert!(narrow.trim_end().ends_with("[●]"), "{narrow}");
    assert!(host.app.sync_button.right() <= 40);

    let button = host.app.sync_button;
    host.send(Msg::Mouse(left_press(button)));
    assert!(matches!(&host.app.modal, Some(Modal::Sync(_))));
    assert!(host
        .effects
        .iter()
        .any(|e| matches!(e, Effect::Observe { remote: true, .. })));
}

#[test]
fn header_backup_states_and_stale_status_results_are_stable() {
    let mut host = Host::new();
    host.app.sync.set_status(status(0, 0, 0, true));
    assert!(header(&mut host, 100).contains("✓ Backed up"));

    host.app.sync.set_error(Some("offline".into()));
    assert!(header(&mut host, 100).contains("× Check failed"));
    host.app.sync.set_error(None);
    host.app.sync.set_probing(true);
    assert!(header(&mut host, 100).contains("Checking…"));
    host.app.sync.set_syncing(true);
    assert!(header(&mut host, 100).contains("Syncing…"));

    host.app.sync.set_syncing(false);
    host.app.sync.set_probing(false);
    let current = host
        .app
        .sync
        .request_probe(true, ProbeReason::Manual, 0)
        .unwrap()
        .id;
    host.send(Msg::SyncStatus(
        current.wrapping_sub(1),
        Ok(status(9, 9, 9, true)),
    ));
    assert_eq!(host.app.sync.status.as_ref().unwrap().changes.len(), 0);
    assert_eq!(host.app.tasks_running, 0);
}

#[test]
fn the_backup_dialog_keeps_what_is_known_while_it_looks_again() {
    let mut host = Host::new();
    host.app.sync.set_status(status(2, 0, 0, true));
    header(&mut host, 120);
    let button = host.app.sync_button;
    host.send(Msg::Mouse(left_press(button)));
    match &host.app.modal {
        Some(Modal::Sync(picker)) => {
            assert_eq!(picker.status.as_ref().unwrap().changes.len(), 2);
            assert!(picker.checking && picker.error.is_none());
        }
        other => panic!("{other:?}"),
    }
    let id = host.app.sync.probe.as_ref().unwrap().id;
    host.send(Msg::SyncStatus(id, Err("offline".into())));
    match &host.app.modal {
        Some(Modal::Sync(picker)) => {
            assert_eq!(picker.status.as_ref().unwrap().changes.len(), 2);
            assert!(!picker.checking);
            assert_eq!(picker.error.as_deref(), Some("offline"));
        }
        other => panic!("{other:?}"),
    }
}

fn footer(host: &mut Host, page: Vec<Hint>, width: u16) -> String {
    let scene = host
        .app
        .draw_footer(Rect::new(0, 0, width, 1), host.facts, &footer_facts(page));
    written(&scene)
}

fn exact(host: &mut Host, what: &str, hints: &[Hint]) {
    let shown = host.app.footer_hints(&footer_facts(vec![("Space", "page")]));
    let mut expected: Vec<Hint> = hints.to_vec();
    let mut shown = shown;
    expected.sort();
    shown.sort();
    assert_eq!(shown, expected, "{what}");
    let footer = footer(host, vec![("Space", "page")], 160);
    assert!(!footer.contains("Space page"), "{what}: {footer}");
    for (key, text) in hints {
        assert!(footer.contains(&format!("{key} {text}")), "{what}: {footer}");
    }
}

#[test]
fn footer_switches_to_modal_and_quit_popup_controls_without_page_hints() {
    let mut host = Host::new();
    host.app.focus = AppFocus::Page;

    host.app.modal = Some(Modal::help());
    exact(
        &mut host,
        "help modal",
        &[("↑↓", "scroll"), ("PgUp/PgDn", "page"), ("Esc", "close")],
    );

    host.app.modal = Some(Modal::message("status", vec!["line".into()]));
    exact(
        &mut host,
        "message modal",
        &[("↑↓", "scroll"), ("PgUp/PgDn", "page"), ("Esc", "close")],
    );

    host.app.modal = Some(Modal::Message(Box::new(Message {
        title: "status".into(),
        lines: vec!["line".into()],
        scroll: 0,
        return_to: Some(Box::new(Modal::help())),
    })));
    exact(
        &mut host,
        "message modal returning to selection",
        &[
            ("↑↓", "scroll"),
            ("PgUp/PgDn", "page"),
            ("Esc", "back to selection"),
        ],
    );

    host.app.modal = Some(Modal::new_preset());
    exact(
        &mut host,
        "input save modal",
        &[("Enter", "save"), ("Esc", "cancel")],
    );
    host.app.modal = Some(Modal::install());
    exact(
        &mut host,
        "input install modal",
        &[("Enter", "discover"), ("Esc", "cancel")],
    );

    let link = PlannedLink {
        action: LinkAction::Link {
            agent: "sample-agent".into(),
            skill: "sample".into(),
            path: "/tmp/skills/agent/sample".into(),
            target: "/tmp/skills/sample".into(),
        },
        summary: "link sample".into(),
    };
    host.app.modal = Some(Modal::confirm("confirm".into(), vec![link]));
    exact(
        &mut host,
        "confirm apply focused",
        &[("Enter/y", "apply"), ("Esc/n", "cancel"), ("←→", "buttons")],
    );
    host.press(KeyCode::Right);
    exact(
        &mut host,
        "confirm cancel focused",
        &[("Enter/Esc/n", "cancel"), ("y", "apply"), ("←→", "buttons")],
    );

    host.app.modal = Some(Modal::confirm_write(
        "write".into(),
        vec!["write".into()],
        Write::SetTagsEnabled(true),
    ));
    exact(
        &mut host,
        "destructive write cancel focused",
        &[("Enter/Esc/n", "cancel"), ("y", "apply"), ("←→", "buttons")],
    );
    host.press(KeyCode::Left);
    exact(
        &mut host,
        "destructive write apply focused",
        &[("Enter/y", "apply"), ("Esc/n", "cancel"), ("←→", "buttons")],
    );

    host.app.modal = Some(Modal::repositories(&library(), Icons::Text));
    exact(
        &mut host,
        "repository picker input",
        &[
            ("type", "filter"),
            ("↓", "list"),
            ("Enter", "browse"),
            ("Esc", "close"),
        ],
    );

    host.press(KeyCode::Down);
    exact(
        &mut host,
        "repository picker list",
        &[
            ("Enter", "browse"),
            ("u", "check repo"),
            ("U", "update repo"),
            ("↑↓", "move"),
            ("/", "filter"),
            ("Esc", "close"),
        ],
    );
    host.press(KeyCode::Char('/'));
    exact(
        &mut host,
        "repository picker input after list",
        &[
            ("type", "filter"),
            ("↓", "list"),
            ("Enter", "browse"),
            ("Esc", "close"),
        ],
    );

    host.app.modal = Some(Modal::batch_deploy(vec!["sample".into()], "/tmp/project"));
    exact(
        &mut host,
        "deployment target modal",
        &[
            ("Tab/Shift+Tab", "list / buttons"),
            ("Enter/Space", "select / activate"),
            ("↑↓", "move"),
            ("p", "project path"),
            ("Esc", "cancel"),
        ],
    );
    host.app.modal = Some(Modal::batch_tags(vec!["sample".into()], &library()));
    exact(
        &mut host,
        "batch tag modal",
        &[
            ("Enter", "add / create"),
            ("↑↓", "choose"),
            ("Tab", "complete"),
            ("Backspace", "select last · again removes"),
            ("Esc", "done"),
        ],
    );

    host.app.batch_running = true;
    host.app.batch_modal_owned = true;
    exact(&mut host, "busy batch modal", &[("…", "saving changes")]);
    host.app.batch_running = false;
    host.app.batch_modal_owned = false;

    host.app.modal = None;
    host.app.tasks_running = 1;
    host.apply(Action::Quit);
    exact(
        &mut host,
        "quit confirmation popup",
        &[("←→", "buttons"), ("Enter", "confirm"), ("Esc/q", "cancel")],
    );
}

#[test]
fn footer_hides_tag_action_and_remains_safe_in_narrow_layouts() {
    let mut host = Host::new();
    host.app.tags_enabled = false;
    host.app.focus = AppFocus::Page;
    let page = || vec![("m", "multi"), ("t", "tags"), ("Esc", "back")];
    let text = footer(&mut host, page(), 120);
    assert!(!text.contains("t tags"), "hidden tags action: {text:?}");
    assert!(text.contains("m multi"));
    host.app.tags_enabled = true;
    assert!(footer(&mut host, page(), 120).contains("t tags"));
    for width in 0..60u16 {
        let line = footer(&mut host, page(), width);
        let columns = line.trim_end_matches('\n').chars().count();
        assert_eq!(columns, width as usize, "narrow footer {line:?}");
    }
}

#[test]
fn the_footer_keeps_the_way_out_and_the_global_hints_last() {
    let mut host = Host::new();
    host.app.focus = AppFocus::Page;
    let text = footer(&mut host, vec![("Esc", "back"), ("Enter", "open"), ("?", "help")], 120);
    let text = text.trim_end();
    assert!(text.starts_with("1/1 local"));
    assert!(
        text.ends_with("Enter open  Esc back  a actions  : commands  ? help"),
        "{text:?}"
    );
    host.facts.page_input = true;
    let typing = footer(&mut host, vec![("Esc", "back")], 120);
    assert!(!typing.contains("commands") && typing.contains("Esc back"));
    host.app.context_menu = Some(ContextMenu::new(menu_request(), 0, 0));
    assert!(footer(&mut host, vec![("Esc", "back")], 20).trim().is_empty());
    host.app.context_menu = None;
    host.app.command_palette = Some(CommandPalette::new());
    assert_eq!(
        host.app.footer_hints(&footer_facts(vec![])),
        CommandPalette::new().hints()
    );
}

#[test]
fn the_screen_has_a_row_above_and_below_the_page() {
    let mut host = Host::new();
    let (header, footer) = draw(&mut host, 120, 30);
    assert!(header.contains("Library"));
    assert!(footer.contains("commands"));
    assert_eq!(host.app.body, Rect::new(0, 1, 120, 28));
    host.app.focus = AppFocus::Tabs;
    assert!(host.app.tab_cursor().is_some());
    host.app.command_palette = Some(CommandPalette::new());
    host.app.modal = Some(Modal::help());
    draw(&mut host, 120, 30);
    assert!(host.app.command_palette.is_none());
}

#[test]
fn the_page_comes_first_on_a_low_screen() {
    let mut host = Host::new();
    for height in 1..=3 {
        draw(&mut host, 80, height);
        assert_eq!(host.app.body, Rect::new(0, 0, 80, height));
    }
    draw(&mut host, 80, 4);
    assert_eq!(host.app.body.height, 3);
    assert!(host.app.body.y <= 1);
    draw(&mut host, 80, 5);
    assert_eq!(host.app.body, Rect::new(0, 1, 80, 3));
}

#[test]
fn the_page_steps_back_behind_the_tabs() {
    let theme = Theme::default();
    let style = Style {
        fg: Some(theme.border_focus),
        bg: Some(theme.selection_bg),
        bold: true,
        ..Style::plain()
    };
    let back = step_back(style, &theme);
    assert_eq!(back.fg, Some(theme.border));
    assert_eq!(back.bg, Some(Color::Reset));
    assert!(!back.bold && back.dim);
}

// ---- synchronisation ---------------------------------------------------------

#[test]
fn automatic_sync_failures_use_concise_policy_messages() {
    let Action::Error(transient) = auto_sync_failure_action(
        AutoSyncDisposition::Transient,
        false,
        "git push origin failed: /tmp/private",
    ) else {
        panic!("transient failures must be errors");
    };
    assert!(transient.contains("next status check"));
    assert!(transient.contains("local changes retained"));
    assert!(!transient.contains("backup retained"));
    assert!(!transient.contains("git push"));
    assert!(!transient.contains("/tmp/"));

    let Action::Error(conflict) = auto_sync_failure_action(
        AutoSyncDisposition::Fatal,
        true,
        "internal merge command failed",
    ) else {
        panic!("conflicts must be errors");
    };
    assert!(conflict.contains("conflict"));
    assert!(conflict.contains("Resolve with Git"));
    assert!(!conflict.contains("internal merge command"));

    let Action::Error(fatal) = auto_sync_failure_action(
        AutoSyncDisposition::Fatal,
        false,
        "root is on feature; expected main",
    ) else {
        panic!("fatal failures must be errors");
    };
    assert!(fatal.contains("root is on feature; expected main"));
    assert!(!fatal.contains("backup retained"));

    assert!(matches!(
        auto_sync_failure_action(AutoSyncDisposition::WorkingTreeChanged, false, "ignored"),
        Action::Toast(message) if message.contains("automatic sync paused")
    ));
}

#[test]
fn startup_rescan_and_deployment_mutations_do_not_schedule_root_sync() {
    let mut host = Host::new();
    assert!(!host.app.sync.pending());

    host.app.rescan();
    host.settle();
    assert!(!host.app.sync.pending());

    host.apply(Action::deployment(Action::Write(Write::SetTagsEnabled(true))));
    assert_eq!(host.writes, 1);
    assert!(!host.app.sync.pending());
}

#[test]
fn successful_library_mutation_schedules_root_sync() {
    let mut host = Host::new();
    host.apply(Action::Write(Write::SetTagsEnabled(true)));
    assert!(host.app.sync.pending());
}

#[test]
fn a_failed_write_schedules_nothing() {
    let mut host = Host::new();
    host.presets = vec!["taken".into()];
    host.apply(Action::Write(Write::CreatePreset { name: "taken".into() }));
    assert!(!host.app.sync.pending());
    assert!(host.told().contains("preset taken exists"));
}

#[test]
fn metadata_write_schedules_one_root_backup_and_blocks_overlapping_writes() {
    let mut host = Host::new();
    host.app.sync.start_manual_sync();
    host.apply(Action::Write(Write::SetTagsEnabled(true)));
    assert_eq!(host.writes, 0, "must not write during checkout");
    assert!(
        matches!(
            host.acts(key(KeyCode::Tab)).as_slice(),
            [Action::SwitchTab(_)]
        ),
        "root sync must not swallow navigation shortcuts"
    );
    host.app.sync.finish_manual_sync(false);
    host.apply(Action::Write(Write::SetTagsEnabled(true)));
    assert_eq!(host.writes, 1);
    assert!(host.app.sync.pending());
}

// ---- the application ---------------------------------------------------------

#[test]
fn a_start_tells_of_a_migration() {
    let mut app = App::new(
        library(),
        true,
        None,
        Some(Migration { count: 2, backup: "/tmp/backup".into() }),
        0,
    );
    let told = format!("{:?} {:?}", app.effects, app.modal);
    assert!(told.contains("/tmp/backup"), "{told}");
    assert!(!app.should_quit());
    assert!(app.take_external().is_none());
    app.toast("hello".into(), Level::Info);
    assert!(app
        .effects
        .iter()
        .any(|e| matches!(e, Effect::Tell(text, Level::Info) if text == "hello")));
}

#[test]
fn quitting_is_immediate_when_nothing_runs() {
    let mut host = Host::new();
    host.apply(Action::Quit);
    assert!(host.app.should_quit());
}

#[test]
fn tags_that_are_hidden_cannot_be_opened() {
    let mut host = Host::new();
    host.app.tags_enabled = false;
    host.apply(Action::SwitchTab(Tab::Tags));
    assert_ne!(host.app.tab, Tab::Tags);
}

#[test]
fn notes_are_edited_outside() {
    let mut host = Host::new();
    host.app.finish_external(Err("no editor".into()));
    host.settle();
    assert!(host.told().contains("no editor"));
    host.app.finish_external(Ok(("alpha".into(), None)));
    host.settle();
    assert_eq!(host.writes, 0, "an unchanged note is not written");
    host.app.finish_external(Ok(("alpha".into(), Some("new note".into()))));
    host.settle();
    assert_eq!(host.writes, 1);
}

#[test]
fn nothing_to_undo_is_told() {
    let mut host = Host::new();
    host.send(Msg::Key(control('z')));
    assert!(host.app.modal.is_none());
    assert!(host.told().contains("undo"), "{}", host.told());
}

#[test]
fn checks_of_both_pages_are_told_once() {
    let some = || vec![Action::Toast("done".into())];
    assert!(check_actions(vec![], some()).is_empty());
    assert_eq!(check_actions(some(), some()).len(), 1);
    assert_eq!(check_actions(some(), vec![Action::Rescan]).len(), 2);
}

#[test]
fn installed_skills_are_reported() {
    let mut host = Host::new();
    host.app.tasks_running = 1;
    host.send(Msg::Task(
        1,
        Box::new(TaskOutput::Installed("owner/repo".into(), Ok("installed reader".into()))),
    ));
    assert!(host.told().contains("reader") || format!("{:?}", host.app.modal).contains("reader"));
    host.apply(Action::Spawn(Task::Check(vec!["alpha".into()])));
    assert!(host.effects.iter().any(|e| matches!(e, Effect::Run(_, Task::Check(_)))));
}

#[test]
fn refreshed_repositories_are_counted() {
    let refreshed = |current| TaskOutput::RepositoryRefreshed {
        alias: "tools".into(),
        result: Ok(vec![
            InventoryState::Available,
            InventoryState::Update,
            InventoryState::PossibleMove,
            InventoryState::Settled,
        ]),
        current,
    };
    let mut host = Host::new();
    host.send(Msg::Task(0, Box::new(refreshed(false))));
    assert!(!host.told().contains("refreshed tools"));
    host.send(Msg::Task(0, Box::new(refreshed(true))));
    assert!(host.told().contains("refreshed tools: 2 available · 1 updates"));
}

fn tagged_library() -> Snapshot {
    let mut snap = library();
    snap.tags = vec!["meta-skill".into()];
    snap.skills = vec![SkillRecord {
        key: "alpha".into(),
        name: Some("alpha".into()),
        description: None,
        status: SkillStatus::Local,
        tags: vec!["meta-skill".into()],
        presets: vec![],
        note: None,
        source: None,
        source_name: None,
        has_meta: false,
        deployed: vec![],
    }];
    snap
}

#[test]
fn tag_completion_reaches_modal_and_keeps_close_hint_in_small_windows() {
    let mut host = Host::new();
    host.app.snap = tagged_library();
    host.app.modal = Some(Modal::batch_tags(vec!["alpha".into()], &host.app.snap));
    for c in "met".chars() {
        assert!(host.acts(key(KeyCode::Char(c))).is_empty());
    }
    assert!(host.acts(key(KeyCode::Tab)).is_empty());
    for width in [40, 80] {
        let (_, footer) = draw(&mut host, width, 24);
        let mut around = surroundings();
        around.name = "alpha".into();
        let scene = host.app.draw_over(Rect::new(0, 0, width, 24), &around);
        let field = scene.items.iter().any(
            |item| matches!(item, Draw::Field { value, .. } if value == "meta-skill"),
        );
        assert!(field, "{}", written(&scene));
        assert!(written(&scene).contains("Tags · alpha"));
        assert!(footer.contains("Enter remove"), "{footer}");
        assert!(footer.contains("Esc done"));
        assert!(!footer.contains("add / create"));
    }
}

#[test]
fn unchanged_editor_buffer_does_not_create_metadata_or_start_a_scan() {
    let mut host = Host::new();
    let running = host.app.tasks_running;
    host.app.finish_external(Ok(("printer".into(), None)));
    host.settle();
    assert_eq!(host.writes, 0);
    assert_eq!(host.app.tasks_running, running);
    assert!(host.told().contains("note unchanged on printer"));
    assert!(!host.told().contains("note saved"));
}

#[test]
fn successful_repository_install_offers_deploy_without_opening_targets() {
    let mut host = Host::new();
    let mut package = fetched("demo");
    package.repository.url = "https://example.test/demo.git".into();
    package.choices.truncate(1);
    package.choices[0].path = "sample".into();
    let selection = InstallSelection {
        fetched: package,
        paths: vec!["sample".into()],
        names: vec![],
    };
    let actions = host.app.on_task(
        TaskOutput::RepositoryInstalled(Box::new(selection), Ok(vec!["sample".into()])),
        host.facts,
    );
    assert!(actions.iter().any(|action| matches!(action, Action::LibraryChanged)));
    assert!(actions.iter().any(|action| matches!(action, Action::Search { .. })));
    assert!(actions.iter().any(|action| matches!(
        action,
        Action::OpenModal(modal) if matches!(modal.as_ref(), Modal::InstallComplete { .. })
    )));
    assert!(!actions.iter().any(|action| matches!(
        action,
        Action::OpenModal(modal) if matches!(modal.as_ref(), Modal::DeployTargets(_))
    )));
}

#[test]
fn mouse_context_menu_stays_bounded_when_the_terminal_is_small() {
    let mut host = Host::new();
    host.app.focus = AppFocus::Page;
    let mut request = menu_request();
    for label in ["Tags", "Presets", "Deploy", "Note", "Rename", "Source", "Check", "Update"] {
        request.items.push(Item::new(Command::Tags, label, KeyCode::Other, true, "", 1));
    }
    host.app.context_menu = Some(ContextMenu::new(request, 78, 11));
    let around = surroundings();
    let screen = Rect::new(0, 0, 80, 12);
    host.app.draw_over(screen, &around);
    let area = host.app.context_menu.as_ref().unwrap().menu_area();
    assert!(area.right() <= 80 && area.bottom() <= 12);
    for _ in 0..20 {
        host.send(Msg::Mouse(MouseEvent {
            kind: MouseKind::ScrollDown,
            column: area.x,
            row: area.y,
            repeated: false,
        }));
    }
    host.app.draw_over(screen, &around);
    let area = host.app.context_menu.as_ref().unwrap().menu_area();
    assert!(area.right() <= 80 && area.bottom() <= 12);
}

#[test]
fn context_menu_owns_popup_footer_and_hides_global_page_shortcuts() {
    let mut host = Host::new();
    host.app.focus = AppFocus::Page;
    let mut request = menu_request();
    request.items.push(Item::new(
        Command::Update,
        "Update",
        KeyCode::Char('U'),
        false,
        "The skill has no source to update from",
        1,
    ));
    host.app.context_menu = Some(ContextMenu::new(request, 5, 5));
    let (_, global_footer) = draw(&mut host, 140, 35);
    assert_eq!(
        global_footer.trim(),
        "",
        "context menu must clear the global page footer"
    );
    assert!(!global_footer.contains("Ctrl-G") && !global_footer.contains("preview"));

    let around = surroundings();
    let screen = Rect::new(0, 0, 140, 35);
    host.app.draw_over(screen, &around);
    let over = |host: &mut Host, command: Command| {
        let rect = host
            .app
            .context_menu
            .as_ref()
            .unwrap()
            .hit_rect_for(command)
            .unwrap();
        host.send(Msg::Mouse(MouseEvent {
            kind: MouseKind::Moved,
            column: rect.x,
            row: rect.y,
            repeated: false,
        }));
        let (_, footer) = draw(host, 140, 35);
        footer + &written(&host.app.draw_over(screen, &around))
    };
    let disabled_footer = over(&mut host, Command::Update);
    assert!(
        disabled_footer.contains("The skill has no source to update from"),
        "disabled item must explain why it cannot run"
    );
    assert!(!disabled_footer.contains("↑↓ select"));

    let enabled_footer = over(&mut host, Command::Open);
    assert!(enabled_footer.contains("Left click to run"));
    assert!(!enabled_footer.contains("The skill has no source to update from"));
    assert!(!enabled_footer.contains("Ctrl-G help"));
}

/// A confirmed undo, up to its write.
fn undoing() -> Host {
    let mut host = Host::new();
    host.app.modal = Some(Modal::undo_write("rename alpha", 7, Step::Undo));
    let around = surfaces(&host.app);
    assert!(host.app.handle(Msg::Key(key(KeyCode::Char('y'))), host.facts, around).is_none());
    while host.app.advance(host.facts) {}
    host
}

fn committed(host: &Host) -> bool {
    host.effects.iter().any(|effect| matches!(effect, Effect::Commit(_)))
}

#[test]
fn the_history_moves_only_once_a_confirmed_undo_went_through() {
    let mut host = undoing();
    assert!(matches!(
        host.app.waiting,
        Some(Waiting::Write { write: Write::TakeBack(7), step: Some(Step::Undo), .. })
    ));
    host.settle();
    assert!(matches!(
        host.effects.iter().rfind(|effect| matches!(effect, Effect::Commit(_))),
        Some(Effect::Commit(Step::Undo))
    ));
    assert!(host.app.modal.is_none());
}

#[test]
fn a_failed_undo_leaves_the_history_where_it_was() {
    let mut host = undoing();
    host.app.written(
        Err(WriteFailure { text: "disk full".into(), conflict: None }),
        host.facts.now,
    );
    host.settle();
    assert!(!committed(&host), "{}", host.told());
    assert!(host
        .effects
        .iter()
        .any(|effect| matches!(effect, Effect::Tell(text, Level::Error) if text == "disk full")));

    let mut host = undoing();
    host.app.written(
        Err(WriteFailure { text: "names".into(), conflict: Some(3) }),
        host.facts.now,
    );
    host.settle();
    assert!(!committed(&host));
    assert!(matches!(host.app.modal, Some(Modal::DeploymentChoices(3))));
}

#[test]
fn a_refused_undo_leaves_the_history_where_it_was() {
    let mut host = Host::new();
    host.apply(background("Slow operation"));
    host.effects.clear();
    host.app.modal = Some(Modal::undo_write("rename alpha", 7, Step::Redo));
    host.press(KeyCode::Char('y'));
    assert_eq!(host.writes, 0);
    assert!(!committed(&host));
    assert!(host.told().contains("An operation is still running"));
}

#[test]
fn several_skills_are_discovered_where_their_reference_can_be_read() {
    for (unreadable, error) in [(None, ""), (Some("no host".to_string()), "discover x: no host")] {
        let mut host = Host::new();
        host.apply(Action::Spawn(Task::Install {
            reference: "x".into(),
            subpath: None,
        }));
        let id = host.app.next_task_id - 1;
        host.effects.clear();
        let failed = skills_tui::event::InstallFailure {
            several_skills: true,
            unreadable: unreadable.clone(),
            text: "several".into(),
        };
        host.send(Msg::Task(id, Box::new(TaskOutput::Installed("x".into(), Err(failed)))));
        let told = host.told();
        assert_eq!(told.contains("DiscoverRepository"), unreadable.is_none(), "{told}");
        assert!(told.contains(error), "{told}");
    }
}

#[test]
fn unsound_dialogs_are_recognised() {
    let mut modal = Modal::new_preset();
    assert!(modal.is_valid());
    if let Modal::Input(prompt) = &mut modal {
        prompt.input.cursor = 9;
    }
    assert!(!modal.is_valid());
    let opens = Action::OpenModal(Box::new(modal));
    assert!(!opens.is_sound());
    assert!(!Action::SubmitInput(vec![Action::Quit, opens]).is_sound());
    assert!(are_sound(&vec![Action::Quit, Action::OpenModal(Box::new(Modal::help()))]));
}
