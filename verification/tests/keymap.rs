use skills_tui::keymap::{character, control, plain, KeyCode, KeyEvent, KeyModifiers};

#[test]
fn distinguishes_text_commands_from_modified_keys() {
    assert!(character(
        KeyEvent::new(KeyCode::Char('a'), KeyModifiers::none()),
        'a'
    ));
    assert!(character(
        KeyEvent::new(KeyCode::Char('A'), KeyModifiers::shift()),
        'A'
    ));
    assert!(!character(
        KeyEvent::new(KeyCode::Char('a'), KeyModifiers::control()),
        'a'
    ));
    assert!(control(
        KeyEvent::new(KeyCode::Char('a'), KeyModifiers::control()),
        'a'
    ));
    assert!(!control(
        KeyEvent::new(KeyCode::Char('a'), KeyModifiers::alt()),
        'a'
    ));
}

#[test]
fn command_modifiers_are_not_plain() {
    assert!(plain(KeyEvent::new(KeyCode::Enter, KeyModifiers::none())));
    assert!(plain(KeyEvent::new(KeyCode::Enter, KeyModifiers::shift())));
    for modifiers in [
        KeyModifiers::control(),
        KeyModifiers::alt(),
        KeyModifiers::super_key(),
    ] {
        assert!(!plain(KeyEvent::new(KeyCode::Enter, modifiers)));
    }
}
