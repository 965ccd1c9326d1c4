use skills_tui::app::Action;
use skills_tui::components::choice_footer::ChoiceFocus;
use skills_tui::event::Task;
use skills_tui::geometry::Rect;
use skills_tui::keymap::{KeyCode, KeyEvent, KeyModifiers, MouseEvent, MouseKind};
use skills_tui::model::{Mode, Report, Settings, Status};
use skills_tui::sync_picker::{self, Request, SyncPicker, SyncStep};
use skills_tui::theme::Theme;
use skills_tui::ui::{Draw, Lines, Scene};
use skills_tui::widgets::Input;

fn key(code: KeyCode) -> KeyEvent {
    KeyEvent::new(code, KeyModifiers::none())
}

fn say(lines: &Lines) -> String {
    lines.items.iter().map(|line| line.text() + "\n").collect()
}

fn written(scene: &Scene) -> String {
    scene
        .items
        .iter()
        .map(|item| match item {
            Draw::Clear(_) => String::new(),
            Draw::Frame { title, .. } => title.text(),
            Draw::Text { lines, .. } => say(lines),
            Draw::List { rows, .. } => say(rows),
            Draw::Field { value, placeholder, .. } => format!("{value}{placeholder}"),
        })
        .collect()
}

fn render(picker: &mut SyncPicker, width: u16, height: u16) -> String {
    written(&picker.draw(Rect::new(0, 0, width, height), &Theme::default()))
}

fn nowhere() -> Settings {
    Settings { url: None, branch: None, enabled: false }
}

fn configured() -> Settings {
    Settings {
        url: Some("/tmp/remote.git".into()),
        branch: Some("main".into()),
        enabled: true,
    }
}

fn nothing_done() -> Report {
    Report { committed: false, pulled: false, pushed: false, status: vec![] }
}

fn dry(mode: Mode) -> Request {
    Request { mode, dry_run: true }
}

#[test]
fn unconfigured_overview_offers_setup_and_keyboard_back() {
    let mut picker = SyncPicker::new(nowhere());
    assert_eq!(picker.actions().len(), 1);
    let screen = render(&mut picker, 100, 28);
    assert!(screen.contains("Backup is not configured"));
    assert!(screen.contains("Set up backup"));
    assert!(!screen.contains("Sync now"));
    for shortcut in ['s', 'p', 'P', 'd'] {
        assert!(picker.key(key(KeyCode::Char(shortcut))).is_empty());
        assert!(matches!(picker.step, SyncStep::Overview));
    }

    assert!(picker.key(key(KeyCode::Enter)).is_empty());
    assert!(matches!(picker.step, SyncStep::Configure { .. }));
    assert!(picker.key(key(KeyCode::Esc)).is_empty());
    assert!(matches!(picker.step, SyncStep::Overview));
    assert!(matches!(
        picker.key(key(KeyCode::Esc)).as_slice(),
        [Action::CloseModal]
    ));
}

#[test]
fn configured_overview_navigates_all_actions_and_keeps_shortcuts() {
    let mut picker = SyncPicker::new(nowhere());
    picker.settings = configured();
    picker.list.first(picker.actions().len());

    let screen = render(&mut picker, 100, 28);
    for label in [
        "Sync now",
        "Push local changes only",
        "Pull remote changes only",
        "Configure backup",
        "Turn off automatic sync",
    ] {
        assert!(screen.contains(label), "{label}");
    }
    picker.key(key(KeyCode::Down));
    assert!(matches!(
        picker.key(key(KeyCode::Enter)).as_slice(),
        [
            Action::CloseModal,
            Action::Spawn(Task::Sync(Request {
                mode: Mode::Push,
                dry_run: true
            }))
        ]
    ));

    for (shortcut, mode) in [('s', Mode::Sync), ('p', Mode::Push), ('P', Mode::Pull)] {
        let mut picker = SyncPicker::new(nowhere());
        picker.settings.url = Some("/tmp/remote.git".into());
        picker.settings.branch = Some("main".into());
        assert!(matches!(
            picker.key(key(KeyCode::Char(shortcut))).as_slice(),
            [
                Action::CloseModal,
                Action::Spawn(Task::Sync(Request {
                    mode: actual,
                    dry_run: true
                }))
            ] if *actual == mode
        ));
    }
}

#[test]
fn preview_requires_explicit_run_sync_confirmation() {
    let mut picker = SyncPicker::preview(nowhere(), dry(Mode::Sync), nothing_done());
    assert!(picker.key(key(KeyCode::Enter)).is_empty());
    assert_eq!(picker.focus, ChoiceFocus::Apply);
    assert!(matches!(
        picker.key(key(KeyCode::Enter)).as_slice(),
        [
            Action::CloseModal,
            Action::Spawn(Task::Sync(Request { dry_run: false, .. }))
        ]
    ));
    let mut picker = SyncPicker::preview(nowhere(), dry(Mode::Sync), nothing_done());
    assert!(matches!(
        picker.key(key(KeyCode::Char('y'))).as_slice(),
        [
            Action::CloseModal,
            Action::Spawn(Task::Sync(Request { dry_run: false, .. }))
        ]
    ));
    for (width, height) in [(80, 24), (48, 12)] {
        assert!(render(&mut picker, width, height).contains("Root backup"));
    }
}

#[test]
fn configure_and_disable_submit_background_tasks_without_writing() {
    let mut picker = SyncPicker::new(nowhere());
    picker.configure();
    let SyncStep::Configure { url, second, .. } = &mut picker.step else {
        panic!("configure step expected");
    };
    *url = Input::with_value("/tmp/remote.git");
    *second = true;
    picker.focus = ChoiceFocus::Apply;
    assert!(matches!(
        picker.key(key(KeyCode::Enter)).as_slice(),
        [
            Action::CloseModal,
            Action::Spawn(Task::SyncConfigure { url, branch })
        ] if url == "/tmp/remote.git" && branch == "main"
    ));

    picker.configure();
    assert!(render(&mut picker, 60, 14).contains("Enlarge terminal"));

    picker.step = SyncStep::Disable;
    picker.focus = ChoiceFocus::Apply;
    assert!(matches!(
        picker.key(key(KeyCode::Enter)).as_slice(),
        [Action::CloseModal, Action::Spawn(Task::SyncDisable)]
    ));
}

#[test]
fn mouse_selects_and_double_clicks_an_overview_action() {
    let mut picker = SyncPicker::new(nowhere());
    picker.settings.url = Some("/tmp/remote.git".into());
    picker.settings.branch = Some("main".into());
    render(&mut picker, 100, 28);
    let row = picker.list.rows.y + 2;
    let column = picker.list.rows.x;
    let click = MouseEvent { kind: MouseKind::Down, column, row, repeated: false };
    assert!(picker.mouse(click).is_empty());
    assert_eq!(picker.list.selected(), Some(2));
    assert!(matches!(
        picker.mouse(MouseEvent { repeated: true, ..click }).as_slice(),
        [
            Action::CloseModal,
            Action::Spawn(Task::Sync(Request {
                mode: Mode::Pull,
                dry_run: true
            }))
        ]
    ));
}

#[test]
fn what_was_observed_is_kept() {
    let mut picker = SyncPicker::new(configured());
    assert!(picker.configured());
    picker.set_checking(true);
    assert!(picker.checking && picker.status.is_none());
    let status = || Status {
        settings: configured(),
        changes: vec!["M calendar/SKILL.md".into()],
        ahead: 2,
        behind: 1,
        remote_checked: true,
        local_revision: Some("0123456789".into()),
        remote_revision: None,
    };
    picker.set_status(status(), None);
    assert!(!picker.checking && picker.error.is_none());
    picker.set_checking(true);
    picker.set_error("no route to host".into());
    assert!(matches!(&picker.status, Some(status) if status.ahead == 2));
    assert_eq!(picker.error.as_deref(), Some("no route to host"));
    assert!(picker.checking);

    let known = SyncPicker::with_status(configured(), Some(status()), true, Some("old".into()));
    assert!(known.checking);
    assert!(matches!(&known.status, Some(status) if status.behind == 1));
    assert_eq!(known.error.as_deref(), Some("old"));
}

#[test]
fn unreadable_settings_open_an_error() {
    let modal = sync_picker::open(Err("bad config".into()));
    let skills_tui::modal::Modal::Message(message) = modal else {
        panic!("an error is told");
    };
    assert!(message.lines.iter().any(|line| line.contains("bad config")));
    assert!(matches!(
        sync_picker::open(Ok(nowhere())),
        skills_tui::modal::Modal::Sync(_)
    ));
}
