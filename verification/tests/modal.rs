use skills_tui::app::{Action, Step};
use skills_tui::batch::Look;
use skills_tui::dialogs::browser::{
    refilter, repository_keys, repository_query, source_query_token, Browser, PickItem,
};
use skills_tui::dialogs::confirm::ConfirmWrite;
use skills_tui::dialogs::message::{repair_result_line, Message, HELP};
use skills_tui::dialogs::prompt::{PromptChecks, RefKind};
use skills_tui::dialogs::resolve::Resolve;
use skills_tui::geometry::Rect;
use skills_tui::keymap::{KeyCode, KeyEvent, KeyModifiers, MouseEvent, MouseKind};
use skills_tui::modal::{Facts, Modal, Surroundings};
use skills_tui::model::{
    ChangedFile, FileChange, LinkAction, PlannedLink, Prepared, RepositoryRecord, SkillRecord,
    SkillStatus, Snapshot, Source, Take, Write,
};
use skills_tui::repository_picker::{Checks, SourceName};
use skills_tui::theme::Theme;
use skills_tui::ui::{Draw, Lines, Scene};

fn key(code: KeyCode) -> KeyEvent {
    KeyEvent::new(code, KeyModifiers::none())
}

fn mouse(kind: MouseKind, column: u16, row: u16) -> MouseEvent {
    MouseEvent { kind, column, row, repeated: false }
}

fn say(lines: &Lines) -> String {
    lines.items.iter().map(|line| line.text() + "\n").collect()
}

fn written(scene: &Scene) -> String {
    scene
        .items
        .iter()
        .map(|item| match item {
            Draw::Clear(_) => String::new(),
            Draw::Frame { title, .. } => title.text(),
            Draw::Text { lines, .. } => say(lines),
            Draw::List { rows, .. } => say(rows),
            Draw::Field { value, placeholder, .. } => format!("{value}{placeholder}"),
        })
        .collect()
}

fn library() -> Snapshot {
    Snapshot {
        root: "/tmp/skills".into(),
        skills: vec![],
        agents: vec![],
        repositories: vec![],
        presets: vec![],
        tags: vec![],
    }
}

fn facts() -> Facts {
    Facts {
        prompt: PromptChecks {
            name_error: None,
            key_ok: true,
            id_ok: true,
            reference: Ok(RefKind::Remote),
        },
        repository: Checks {
            alias_ok: true,
            name_ok: true,
            source_name: Ok(SourceName { name: None, display_name: String::new() }),
            local_name: String::new(),
        },
        right_cap: String::new(),
        wheel: 3,
    }
}

fn around() -> Surroundings {
    Surroundings {
        root: "/tmp/skills".into(),
        tags_enabled: true,
        plan: Ok(vec![]),
        name: String::new(),
        local_name: String::new(),
        picker_title: String::new(),
        look: Look {
            theme: Theme::default(),
            left_cap: String::new(),
            right_cap: String::new(),
            tags: vec![],
        },
    }
}

fn draw(modal: &mut Modal, width: u16, height: u16) -> String {
    written(&modal.draw(Rect::new(0, 0, width, height), &around()))
}

#[test]
fn startup_help_describes_read_only_explicit_repair() {
    assert!(HELP.contains("Startup scanning is read-only"));
    assert!(HELP.contains("analyze, review, and apply a repair"));
    assert!(!HELP.contains("repaired automatically"));
    assert!(!HELP.contains("are removed after"));
}

#[test]
fn repair_results_close_with_enter_or_escape_without_changing_other_messages() {
    let snap = library();
    let facts = facts();
    let mut modal = Modal::message("Repair results", vec!["1 repaired".into()]);
    assert!(modal.hints().unwrap().contains(&("Enter/Esc", "close")));
    for width in [60, 140] {
        let text = draw(&mut modal, width, 42);
        assert!(text.contains("Enter/Esc close"));
        assert!(!text.contains("page · Esc close"));
    }
    let mut narrow = Modal::message(
        "Repair results",
        vec![
            "1 repaired · 0 unchanged · 0 failed".into(),
            format!(
                "REPAIRED  shared/{} → Library/repos/example/{}",
                "long-skill-name-".repeat(4),
                "long-skill-name-".repeat(4)
            ),
        ],
    );
    let text = draw(&mut narrow, 60, 16);
    assert!(text.contains("Repair results"));
    assert!(text.contains("Enter/Esc close"));
    for code in [
        KeyCode::Down,
        KeyCode::PageDown,
        KeyCode::PageUp,
        KeyCode::Home,
    ] {
        assert!(modal.handle_key(key(code), &snap, &facts).is_empty());
    }
    for modifiers in [
        KeyModifiers::control(),
        KeyModifiers::alt(),
        KeyModifiers::super_key(),
    ] {
        assert!(modal
            .handle_key(KeyEvent::new(KeyCode::Enter, modifiers), &snap, &facts)
            .is_empty());
    }
    assert!(matches!(
        modal
            .handle_key(KeyEvent::new(KeyCode::Enter, KeyModifiers::shift()), &snap, &facts)
            .as_slice(),
        [Action::CloseModal]
    ));
    for code in [KeyCode::Enter, KeyCode::Esc] {
        assert!(matches!(
            modal.handle_key(key(code), &snap, &facts).as_slice(),
            [Action::CloseModal]
        ));
    }
    for mut other in [
        Modal::help(),
        Modal::message("Other results", vec![]),
        Modal::Message(Box::new(Message {
            title: "Repair results".into(),
            lines: vec![],
            scroll: 0,
            return_to: Some(Box::new(Modal::help())),
        })),
    ] {
        assert!(!other.hints().unwrap().contains(&("Enter/Esc", "close")));
        assert!(other.handle_key(key(KeyCode::Enter), &snap, &facts).is_empty());
        let closed = other.handle_key(key(KeyCode::Esc), &snap, &facts);
        assert!(matches!(closed.as_slice(), [Action::CloseModal]), "{closed:?}");
    }
}

#[test]
fn repair_result_lines_style_status_arrows_and_targets() {
    let theme = Theme::default();
    let repaired = repair_result_line(
        "REPAIRED  shared/lark-doc → Library/repos/larksuite--cli/lark-doc",
        &theme,
    );
    assert_eq!(repaired.spans[0].content, "REPAIRED");
    assert_eq!(repaired.spans[0].style.fg, Some(theme.ok));
    assert_eq!(repaired.spans[3].content, " → ");
    assert_eq!(repaired.spans[3].style.fg, Some(theme.accent));
    assert_eq!(
        repaired.spans[4].content,
        "Library/repos/larksuite--cli/lark-doc"
    );
    assert_eq!(repaired.spans[4].style.fg, Some(theme.source));

    let failed = repair_result_line(
        "FAILED    shared/foo → Library/bar · destination changed",
        &theme,
    );
    assert_eq!(failed.spans[0].style.fg, Some(theme.err));
    assert_eq!(failed.spans.last().unwrap().style.fg, Some(theme.err));

    let summary = repair_result_line("76 repaired · 2 unchanged · 1 failed", &theme);
    assert_eq!(summary.spans[0].style.fg, Some(theme.ok));
    assert_eq!(summary.spans[2].style, theme.description().bolder());
    assert_eq!(summary.spans[4].style.fg, Some(theme.err));
    let clean = repair_result_line("76 repaired · 0 unchanged · 0 failed", &theme);
    assert_eq!(clean.spans[2].style, theme.description().bolder());
    assert_eq!(clean.spans[4].style, theme.description().bolder());
}

#[test]
fn install_hint_wraps_without_losing_cancel_instruction() {
    for width in [40, 60, 80] {
        let mut modal = Modal::install();
        let text = draw(&mut modal, width, 24);
        assert!(text.contains("Enter install · Esc cancel"), "{width}: {text}");
        assert!(text.contains("owner/repo[/path]"));
        assert!(!text.contains("Esc c…"));
    }
}

fn browser() -> Modal {
    Modal::Picker(Box::new(Browser::new(
        "repositories".into(),
        ["alpha", "beta", "gamma"]
            .into_iter()
            .map(|name| PickItem {
                id: name.into(),
                label: name.into(),
                sub: "sample repo".into(),
            })
            .collect(),
    )))
}

fn state(modal: &Modal) -> (bool, Option<usize>) {
    let Modal::Picker(picker) = modal else {
        panic!("picker")
    };
    (picker.input_focus, picker.list.selected())
}

#[test]
fn repository_browser_moves_focus_without_skipping_and_mouse_focus_matches_keys() {
    let snap = library();
    let facts = facts();
    let mut modal = browser();
    modal.handle_key(key(KeyCode::Down), &snap, &facts);
    assert_eq!(
        state(&modal),
        (false, Some(0)),
        "first down only enters results"
    );
    modal.handle_key(key(KeyCode::Down), &snap, &facts);
    assert_eq!(state(&modal), (false, Some(1)));
    modal.handle_key(key(KeyCode::Up), &snap, &facts);
    modal.handle_key(key(KeyCode::Up), &snap, &facts);
    assert_eq!(
        state(&modal),
        (true, Some(0)),
        "up from first row restores filter"
    );
    modal.handle_key(key(KeyCode::Down), &snap, &facts);
    assert_eq!(state(&modal), (false, Some(0)));
    let actions = modal.handle_key(key(KeyCode::Enter), &snap, &facts);
    assert!(actions
        .iter()
        .any(|a| matches!(a, Action::Search { query, .. } if query == "repo:alpha")));
    modal.handle_key(key(KeyCode::Char('/')), &snap, &facts);
    draw(&mut modal, 80, 24);
    let Modal::Picker(picker) = &modal else {
        panic!("picker")
    };
    let input_at = picker.input_rect;
    let rows_at = picker.list.rows;
    modal.handle_mouse(mouse(MouseKind::ScrollDown, 0, 0), &snap, &facts);
    assert_eq!(
        state(&modal),
        (true, Some(0)),
        "wheel outside the list does not move results"
    );
    modal.handle_mouse(mouse(MouseKind::ScrollDown, rows_at.x, rows_at.y), &snap, &facts);
    assert!(
        !state(&modal).0,
        "wheel over results transfers keyboard focus"
    );
    modal.handle_mouse(mouse(MouseKind::Down, input_at.x, input_at.y), &snap, &facts);
    assert!(state(&modal).0);
    modal.handle_key(key(KeyCode::Char('a')), &snap, &facts);
    assert_eq!(
        state(&modal),
        (true, Some(0)),
        "editing filter selects its first result"
    );
}

#[test]
fn repositories_are_searched_by_their_names() {
    let items: Vec<PickItem> = ["Alpha", "beta"]
        .into_iter()
        .map(|name| PickItem { id: name.into(), label: name.into(), sub: String::new() })
        .collect();
    assert_eq!(refilter("", &items), [0, 1]);
    assert_eq!(refilter("ALP", &items), [0]);
    assert!(refilter("zz", &items).is_empty());
    assert_eq!(source_query_token("tools"), "repo:tools");
    assert_eq!(source_query_token("my tools"), "repo:\"my tools\"");
    let mut snap = library();
    snap.repositories.push(RepositoryRecord {
        alias: "tools".into(),
        display_name: "my tools".into(),
        source: Source::Archive { url: "https://example.org/tools.zip".into() },
    });
    assert_eq!(repository_query("tools", &snap), "repo:\"my tools\"");
    assert_eq!(repository_query("other", &snap), "repo:other");
    let skills: Vec<SkillRecord> = ["repos/tools/a", "repos/other/b", "c"]
        .into_iter()
        .map(|key| SkillRecord {
            key: key.into(),
            name: None,
            description: None,
            status: SkillStatus::Repository,
            tags: vec![],
            presets: vec![],
            note: None,
            source: None,
            source_name: None,
            has_meta: false,
            deployed: vec![],
        })
        .collect();
    assert_eq!(repository_keys(&skills, "tools"), ["repos/tools/a"]);
}

fn answer(modal: &mut Modal, code: KeyCode, facts: &Facts) -> Vec<Action> {
    modal.handle_key(key(code), &library(), facts)
}

fn type_into(modal: &mut Modal, text: &str) {
    for c in text.chars() {
        answer(modal, KeyCode::Char(c), &facts());
    }
}

fn submitted(actions: Vec<Action>) -> Vec<Action> {
    let mut actions = actions;
    match actions.pop() {
        Some(Action::SubmitInput(inner)) => inner,
        Some(other) => {
            actions.push(other);
            actions
        }
        None => actions,
    }
}

#[test]
fn fields_ask_for_what_they_say() {
    let mut modal = Modal::new_preset();
    type_into(&mut modal, "reading");
    let actions = submitted(answer(&mut modal, KeyCode::Enter, &facts()));
    assert!(format!("{actions:?}").contains("CreatePreset { name: \"reading\" }"), "{actions:?}");

    let mut modal = Modal::rename_tag("old");
    type_into(&mut modal, "-er");
    let actions = submitted(answer(&mut modal, KeyCode::Enter, &facts()));
    assert!(
        format!("{actions:?}").contains("RenameTag { old: \"old\", new: \"old-er\" }"),
        "{actions:?}"
    );

    let mut modal = Modal::install();
    type_into(&mut modal, "owner/repo");
    let actions = submitted(answer(&mut modal, KeyCode::Enter, &facts()));
    assert!(format!("{actions:?}").contains("owner/repo"), "{actions:?}");

    let mut refusing = facts();
    refusing.prompt.reference = Err("not a reference".into());
    let mut modal = Modal::install();
    type_into(&mut modal, "??");
    let actions = answer(&mut modal, KeyCode::Enter, &refusing);
    assert!(format!("{actions:?}").contains("not a reference"), "{actions:?}");
}

#[test]
fn questions_are_answered_once() {
    let write = Write::DeleteTag { tag: "dev".into() };
    let mut dialog = ConfirmWrite::new("Delete".into(), vec!["dev".into()], write);
    assert!(dialog.write.is_some());
    let first = dialog.key(key(KeyCode::Char('y')));
    assert!(format!("{first:?}").contains("DeleteTag"));
    assert!(dialog.write.is_none());
    let second = dialog.key(key(KeyCode::Char('y')));
    assert!(!format!("{second:?}").contains("DeleteTag"));

    let mut modal = Modal::delete_tag("dev");
    assert!(matches!(
        answer(&mut modal, KeyCode::Esc, &facts()).as_slice(),
        [Action::CloseModal]
    ));
    for modifiers in [KeyModifiers::control(), KeyModifiers::alt()] {
        let mut modal = Modal::delete_tag("dev");
        assert!(modal
            .handle_key(KeyEvent::new(KeyCode::Char('y'), modifiers), &library(), &facts())
            .is_empty());
    }
}

#[test]
fn links_are_listed_before_they_are_changed() {
    let planned = || PlannedLink {
        action: LinkAction::Unlink {
            agent: "test".into(),
            skill: "alpha".into(),
            path: "/tmp/alpha".into(),
        },
        summary: "- unlink alpha".into(),
    };
    let mut modal = Modal::confirm_then("Undo".into(), vec![planned()], Some(Step::Undo));
    assert!(draw(&mut modal, 80, 24).contains("unlink alpha"));
    let actions = answer(&mut modal, KeyCode::Enter, &facts());
    assert!(
        actions.iter().any(|a| matches!(
            a,
            Action::RunLinks { actions, step: Some(Step::Undo) } if actions.len() == 1
        )),
        "{actions:?}"
    );
}

fn prepared() -> Prepared {
    Prepared {
        skill: "alpha".into(),
        from_revision: Some("0123456789".into()),
        to_revision: "abcdef0123".into(),
        needs_resolution: true,
        files: vec![
            ChangedFile { name: "SKILL.md".into(), change: FileChange::BothChanged },
            ChangedFile { name: "notes.md".into(), change: FileChange::Unchanged },
        ],
        has_baseline: true,
        new_skills: vec![],
        workdir: "/tmp/update".into(),
    }
}

#[test]
fn an_update_is_taken_from_one_side() {
    let mut dialog = Resolve::new(prepared());
    assert_eq!(dialog.files.len(), 1);
    let before = dialog.default_take;
    dialog.key(key(KeyCode::Char(' ')));
    assert_ne!(dialog.files[0].take, before);
    let mut dialog = Resolve::new(prepared());
    let scene = written(&dialog.draw(Rect::new(0, 0, 100, 30), &Theme::default()));
    assert!(scene.contains("SKILL.md"));
    assert!(!scene.contains("notes.md"));
    let actions = dialog.key(key(KeyCode::Esc));
    assert!(
        actions.iter().any(|a| matches!(a, Action::DiscardUpdate(p) if p.workdir == "/tmp/update")),
        "{actions:?}"
    );
    assert_eq!(skills_tui::dialogs::resolve::flip(Take::Local), Take::Upstream);
}

#[test]
fn help_scrolls_and_hides_tags() {
    let mut modal = Modal::help();
    assert!(answer(&mut modal, KeyCode::PageDown, &facts()).is_empty());
    let Modal::Help(help) = &modal else {
        panic!("help")
    };
    assert!(help.scroll > 0);
    assert!(answer(&mut modal, KeyCode::Home, &facts()).is_empty());
    assert!(draw(&mut modal, 100, 40).contains("Startup scanning is read-only"));
}

#[test]
fn questions_and_fields_begin_with_what_they_are_about() {
    for (mut modal, title, value) in [
        (Modal::new_tag(), " create tag ", ""),
        (Modal::preset_description("base", Some("daily")), " description of base ", "daily"),
        (Modal::tag_description("dev", None), " description of dev ", ""),
        (Modal::rename_source("tools", "Tools"), " source name ", "Tools"),
    ] {
        let Modal::Input(prompt) = &modal else {
            panic!("a text is asked for: {modal:?}");
        };
        assert_eq!(prompt.input.value(), value);
        assert!(draw(&mut modal, 80, 24).contains(title.trim()));
    }
    for (mut modal, said) in [
        (Modal::delete_preset("base"), "Delete preset \"base\"?"),
        (Modal::discard_invalid("odd", "missing SKILL.md"), "Delete the directory \"odd\"?"),
    ] {
        assert!(matches!(&modal, Modal::ConfirmWrite(question) if question.on_cancel));
        assert!(draw(&mut modal, 80, 24).contains(said));
    }
}

#[test]
fn a_press_in_a_scrolled_picker_opens_the_entry_that_is_shown() {
    let items: Vec<PickItem> = (0..40)
        .map(|n| PickItem {
            id: format!("key{n:02}"),
            label: format!("entry{n:02}"),
            sub: String::new(),
        })
        .collect();
    let mut browser = Browser::new(" entries ".into(), items);
    browser.input_focus = false;
    browser.list.select(Some(35));
    browser.draw(Rect::new(0, 0, 80, 20), &Theme::default());
    let rows = browser.list.rows;
    assert_eq!(browser.list.offset, 36 - rows.height as usize);
    assert_eq!(browser.list.row_at(rows.y, 40), Some(browser.list.offset));
    browser.list.select(Some(2));
    browser.draw(Rect::new(0, 0, 80, 20), &Theme::default());
    assert_eq!(browser.list.offset, 2);
}
