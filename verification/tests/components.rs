use skills_tui::components::choice_footer::{ChoiceEvent, ChoiceFocus};
use skills_tui::components::command_palette::{self, Command as PaletteCommand, CommandPalette};
use skills_tui::components::context_menu::{Command, ContextMenu, Item, MenuEvent, Request, Target};
use skills_tui::geometry::Rect;
use skills_tui::keymap::{KeyCode, KeyEvent, KeyModifiers, MouseEvent, MouseKind};
use skills_tui::theme::Theme;
use skills_tui::ui::{Draw, Lines, Scene};

fn key(code: KeyCode) -> KeyEvent {
    KeyEvent::new(code, KeyModifiers::none())
}

fn say(lines: &Lines) -> String {
    lines.items.iter().map(|line| line.text() + "\n").collect()
}

/// Everything that a scene writes.
fn written(scene: &Scene) -> String {
    scene
        .items
        .iter()
        .map(|item| match item {
            Draw::Clear(_) => String::new(),
            Draw::Frame { title, .. } => title.text(),
            Draw::Text { lines, .. } => say(lines),
            Draw::List { rows, .. } => say(rows),
            Draw::Field { value, placeholder, .. } => format!("{value}{placeholder}"),
        })
        .collect()
}

fn menu() -> ContextMenu {
    ContextMenu::new(
        Request {
            title: "Selected skill".into(),
            detail: "Single skill".into(),
            target: Target::Skill("alpha".into()),
            items: vec![
                Item::new(Command::Open, "View", KeyCode::Enter, true, "", 0),
                Item::new(Command::Check, "Check", KeyCode::Char('u'), true, "", 1),
                Item::new(Command::Update, "Update", KeyCode::Char('U'), true, "", 1),
                Item::new(
                    Command::Remove,
                    "Delete",
                    KeyCode::Char('x'),
                    false,
                    "Unavailable now",
                    2,
                ),
            ],
        },
        79,
        23,
    )
}

fn draw(menu: &mut ContextMenu, w: u16, h: u16) -> String {
    written(&menu.draw(Rect::new(0, 0, w, h), &Theme::default()))
}

fn mouse(kind: MouseKind, column: u16, row: u16) -> MouseEvent {
    MouseEvent { kind, column, row, repeated: false }
}

#[test]
fn context_menu_clamps_and_scrolls_on_small_screens() {
    let mut m = menu();
    for (w, h) in [(80, 24), (18, 5), (1, 1), (4, 3)] {
        draw(&mut m, w, h);
        assert!(m.area.right() <= w && m.area.bottom() <= h);
    }
    m.selected = 3;
    draw(&mut m, 30, 5);
    assert!(m.offset > 0);
    assert!(m.hits.iter().any(|(_, i)| *i == 3));
}

#[test]
fn context_menu_enter_shortcuts_and_disabled_reasons() {
    let mut m = menu();
    assert!(matches!(
        m.key(KeyEvent::new(KeyCode::Char('u'), KeyModifiers::none())),
        MenuEvent::Execute(Command::Check)
    ));
    assert!(matches!(
        m.key(KeyEvent::new(KeyCode::Char('U'), KeyModifiers::shift())),
        MenuEvent::Execute(Command::Update)
    ));
    assert!(matches!(
        m.key(KeyEvent::new(KeyCode::Enter, KeyModifiers::none())),
        MenuEvent::Execute(Command::Update)
    ));
    assert!(matches!(
        m.key(KeyEvent::new(KeyCode::Char('u'), KeyModifiers::control())),
        MenuEvent::Stay
    ));
    let rendered = draw(&mut m, 80, 24);
    assert!(rendered.contains("Left click to run"));
    assert!(!rendered.contains("↑↓ choose"));
    assert!(!rendered.contains("shortcut run"));
    assert!(matches!(
        m.key(KeyEvent::new(KeyCode::Char('x'), KeyModifiers::none())),
        MenuEvent::Stay
    ));
    assert!(draw(&mut m, 80, 24).contains("Unavailable now"));
    for _ in 0..10 {
        m.key(KeyEvent::new(KeyCode::Down, KeyModifiers::none()));
    }
    assert_eq!(m.selected, 3);
    for _ in 0..10 {
        m.key(KeyEvent::new(KeyCode::Up, KeyModifiers::none()));
    }
    assert_eq!(m.selected, 0);
}

#[test]
fn context_menu_outside_click_consumed_inside_right_click_ignored() {
    let mut m = menu();
    draw(&mut m, 80, 24);
    let mut event = mouse(MouseKind::RightDown, 0, 0);
    assert!(matches!(m.mouse(event), MenuEvent::Close));
    event.column = m.hits[1].0.x;
    event.row = m.hits[1].0.y;
    assert!(matches!(m.mouse(event), MenuEvent::Stay));
    event.kind = MouseKind::Moved;
    m.mouse(event);
    assert_eq!(m.selected, 1);
    event.kind = MouseKind::Down;
    assert!(matches!(m.mouse(event), MenuEvent::Execute(Command::Check)));
}

#[test]
fn context_menu_mouse_focus_updates_footer_message() {
    let mut m = menu();
    draw(&mut m, 80, 24);
    let rect = m.hits.iter().find(|(_, i)| *i == 3).unwrap().0;
    assert!(matches!(
        m.mouse(mouse(MouseKind::Moved, rect.x, rect.y)),
        MenuEvent::Stay
    ));
    assert_eq!(m.selected, 3);
    assert!(draw(&mut m, 80, 24).contains("Unavailable now"));
}

#[test]
fn context_menu_without_disabled_items_has_no_footer_row() {
    let mut m = menu();
    m.request.items.pop();
    let rendered = draw(&mut m, 80, 24);
    assert!(!rendered.contains("Left click to run"));
    assert!(!rendered.contains("Unavailable now"));
}

#[test]
fn context_menu_finds_the_row_of_a_command() {
    let mut m = menu();
    draw(&mut m, 80, 24);
    assert!(m.request.allows(Command::Check));
    assert!(!m.request.allows(Command::Remove));
    assert!(!m.request.allows(Command::Adopt));
    let rect = m.hit_rect_for(Command::Check).unwrap();
    assert!(m.menu_area().contains(rect.x, rect.y));
    assert_eq!(m.hit_rect_for(Command::Adopt), None);
    assert!(matches!(
        m.mouse(mouse(MouseKind::Down, rect.x, rect.y)),
        MenuEvent::Execute(Command::Check)
    ));
}

#[test]
fn empty_results_paste_and_small_terminal_geometry() {
    let theme = Theme::default();
    let mut palette = CommandPalette::new();
    palette.paste("no-such-command").unwrap();
    assert_eq!(palette.key(key(KeyCode::Enter)), command_palette::Event::Stay);
    palette.key(KeyEvent::new(KeyCode::Char('u'), KeyModifiers::control()));
    palette.paste("BACKUP").unwrap();
    assert_eq!(palette.selected(), Some(PaletteCommand::RootSync));
    for (w, h) in [(120, 35), (40, 12), (8, 4), (1, 1)] {
        palette.draw(Rect::new(0, 0, w, h), &theme);
        assert!(palette.rect.right() <= w && palette.rect.bottom() <= h);
        if w < 20 {
            assert_eq!(palette.list.rows, Rect::zero());
        }
    }
    assert_eq!(palette.key(key(KeyCode::Esc)), command_palette::Event::Close);
}

#[test]
fn filters_and_runs_a_command() {
    let mut palette = CommandPalette::new();
    for ch in "backup".chars() {
        assert_eq!(
            palette.key(KeyEvent::new(KeyCode::Char(ch), KeyModifiers::none())),
            command_palette::Event::Stay
        );
    }
    assert_eq!(palette.shown.len(), 1);
    assert_eq!(
        palette.key(KeyEvent::new(KeyCode::Enter, KeyModifiers::none())),
        command_palette::Event::Execute(PaletteCommand::RootSync)
    );
}

#[test]
fn the_palette_finds_commands_whatever_their_case() {
    assert_eq!(command_palette::filter("BACKUP"), command_palette::filter("backup"));
    assert_eq!(command_palette::filter("").len(), 9);
    assert!(command_palette::filter("no-such-command").is_empty());
    for index in 0..9 {
        assert!(command_palette::filter(command_palette::entry(index).label).contains(&index));
    }
    let mut palette = CommandPalette::new();
    assert!(palette.paste("two\nlines").is_err());
    assert_eq!(palette.hints()[3], ("Esc", "close"));
}

#[test]
fn the_palette_runs_what_is_pressed() {
    let mut palette = CommandPalette::new();
    palette.draw(Rect::new(0, 0, 120, 35), &Theme::default());
    let rows = palette.list.rows;
    let second = mouse(MouseKind::Down, rows.x + 1, rows.y + 1);
    assert_eq!(palette.mouse(second), command_palette::Event::Stay);
    assert_eq!(palette.list.selected, Some(1));
    assert_eq!(
        palette.mouse(MouseEvent { repeated: true, ..second }),
        command_palette::Event::Execute(command_palette::entry(1).command)
    );
    assert_eq!(palette.mouse(mouse(MouseKind::Down, 0, 0)), command_palette::Event::Close);
}

#[test]
fn choices_are_applied_or_cancelled_from_the_footer() {
    let mut focus = ChoiceFocus::List;
    assert_eq!(focus.key(KeyCode::Down, false), None);
    assert_eq!(focus, ChoiceFocus::List);
    assert_eq!(focus.key(KeyCode::Down, true), Some(ChoiceEvent::Moved));
    assert_eq!(focus, ChoiceFocus::Apply);
    assert_eq!(focus.key(KeyCode::Enter, true), Some(ChoiceEvent::Apply));
    assert_eq!(focus.key(KeyCode::Right, true), Some(ChoiceEvent::Moved));
    assert_eq!(focus, ChoiceFocus::Cancel);
    assert_eq!(focus.key(KeyCode::Enter, true), Some(ChoiceEvent::Cancel));
}
