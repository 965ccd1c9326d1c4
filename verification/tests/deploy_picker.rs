use skills_tui::app::Action;
use skills_tui::components::choice_footer::ChoiceFocus;
use skills_tui::deploy_picker::{Candidates, DeployPicker, Target};
use skills_tui::geometry::Rect;
use skills_tui::keymap::{KeyCode, KeyEvent, KeyModifiers, MouseEvent, MouseKind};
use skills_tui::model::Write;
use skills_tui::paths::{path_before, same_path, split_path};
use skills_tui::theme::Theme;
use skills_tui::ui::{Draw, Lines, Scene};

fn key(code: KeyCode) -> KeyEvent {
    KeyEvent::new(code, KeyModifiers::none())
}

fn say(lines: &Lines) -> String {
    lines.items.iter().map(|line| line.text() + "\n").collect()
}

fn written(scene: &Scene) -> String {
    scene
        .items
        .iter()
        .map(|item| match item {
            Draw::Clear(_) => String::new(),
            Draw::Frame { title, .. } => title.text(),
            Draw::Text { lines, .. } => say(lines),
            Draw::List { rows, .. } => say(rows),
            Draw::Field { value, placeholder, .. } => format!("{value}{placeholder}"),
        })
        .collect()
}

fn target(product: &str, path: &str, location: &str) -> Target {
    Target {
        key: format!("{product}-{location}"),
        path: path.into(),
        shown_path: path.into(),
        product: product.to_lowercase(),
        product_name: product.into(),
        display_name: format!("{product} {location}"),
        location: location.into(),
        read_only: false,
        deployed: vec![],
    }
}

const ROOT: &str = "/tmp/project/.agents/skills";

fn candidates() -> Candidates {
    Candidates {
        project: "/tmp/project".into(),
        global: vec![
            target("Cursor", "/tmp/home/.cursor/skills", "Global"),
            target("Zed", "/tmp/home/.zed/skills", "Global"),
        ],
        local: vec![
            target("Cursor", "/tmp/project/.cursor/skills", "Local"),
            target("Zed", "/tmp/project/.zed/skills", "Local"),
        ],
        products: None,
    }
}

fn loaded() -> DeployPicker {
    let mut picker = DeployPicker::new(vec!["sample".into()], "/tmp/project");
    picker.load(Ok(candidates()));
    picker
}

#[test]
fn picker_stages_shared_agent_choices_and_supports_mouse_cancel() {
    let mut picker = loaded();
    assert_eq!(picker.pending_count(), 0);
    picker.key(key(KeyCode::Tab));
    assert_eq!(picker.focus, ChoiceFocus::Apply);
    assert!(picker.key(key(KeyCode::Enter)).is_empty());
    picker.key(key(KeyCode::Tab));
    assert_eq!(picker.focus, ChoiceFocus::Cancel);
    picker.key(key(KeyCode::Up));
    let last = picker.rows.len() - 1;
    picker.list.select(Some(last));
    picker.key(key(KeyCode::Down));
    assert_eq!(picker.focus, ChoiceFocus::Apply);
    picker.key(key(KeyCode::Up));
    assert_eq!(picker.list.selected(), Some(last));
    picker.key(key(KeyCode::Enter));
    assert_eq!(picker.focus, ChoiceFocus::List);
    assert!(picker.pending_count() > 0);
    picker.key(key(KeyCode::Enter));
    assert_eq!(picker.pending_count(), 0);
    let cursor = picker
        .rows
        .iter()
        .position(|row| row.display_name.starts_with("Cursor"))
        .unwrap();
    picker.list.select(Some(cursor));
    picker.toggle();
    assert_eq!(picker.rows[cursor].desired, Some(true));
    assert!(picker.rows.iter().all(|row| row.path != ROOT));
    for (w, h) in [(100, 30), (80, 24), (50, 16), (40, 12)] {
        let text = written(&picker.draw(Rect::new(0, 0, w, h), ROOT, &Theme::default()));
        if h >= 16 {
            if w >= 80 {
                assert!(text.contains("Global & Local"));
            }
            assert!(!text.contains("{pwd}"));
            if h >= 24 {
                assert!(text.contains("Local"));
            }
            assert!(text.contains("Target:"));
            let path: Vec<&str> = picker.rows[cursor].path.rsplit('/').collect();
            let suffix = format!("{}/{}", path[1], path[0]);
            assert!(
                text.contains(&suffix),
                "target directory tail must remain visible"
            );
        } else {
            assert!(text.contains("Apply") && text.contains("Cancel"));
        }
    }
    picker.draw(Rect::new(0, 0, 100, 30), ROOT, &Theme::default());
    let cancel = picker.cancel;
    assert!(matches!(
        picker
            .mouse(MouseEvent {
                kind: MouseKind::Down,
                column: cancel.x,
                row: cancel.y,
                repeated: false,
            })
            .as_slice(),
        [Action::CloseModal]
    ));
}

#[test]
fn staged_targets_are_written_together() {
    let mut picker = loaded();
    picker.list.select(Some(0));
    picker.toggle();
    picker.focus = ChoiceFocus::Apply;
    let actions = picker.key(key(KeyCode::Enter));
    let [Action::CloseModal, Action::Deployment(work)] = actions.as_slice() else {
        panic!("a deployment expected: {actions:?}");
    };
    let Action::BatchMeta(Write::Deploy { keys, changes }, _) = &**work else {
        panic!("one write expected: {work:?}");
    };
    assert_eq!(keys, &["sample"]);
    assert_eq!(changes.len(), 1);
    assert!(changes[0].on);
}

#[test]
fn read_only_targets_are_not_offered() {
    let mut picker = DeployPicker::new(vec!["sample".into()], "/tmp/project");
    let mut some = candidates();
    some.global[0].read_only = true;
    let all = loaded().rows.len();
    picker.load(Ok(some));
    assert!(picker.rows.len() < all);
}

#[test]
fn a_directory_that_cannot_be_read_is_told() {
    let mut picker = DeployPicker::new(vec!["sample".into()], "/tmp/project");
    picker.load(Err("no such directory".into()));
    assert!(picker.rows.is_empty());
    assert_eq!(picker.error.as_deref(), Some("no such directory"));
    let text = written(&picker.draw(Rect::new(0, 0, 100, 30), ROOT, &Theme::default()));
    assert!(text.contains("no such directory"));
}

#[test]
fn directories_are_the_same_where_their_parts_are() {
    let mut same = candidates();
    same.global = vec![
        target("Cursor", "/x/skills", "Global"),
        target("Zed", "/x/./skills//", "Global"),
        target("Other", "/x/Skills", "Global"),
    ];
    same.local = vec![];
    let mut picker = DeployPicker::new(vec!["sample".into()], "/tmp/project");
    picker.load(Ok(same));
    picker.list.select(Some(0));
    picker.toggle();
    let wanted: Vec<bool> = picker.rows.iter().map(|row| row.desired == Some(true)).collect();
    assert_eq!(wanted, [true, false, true]);
    assert_eq!(picker.pending_count(), 1);
    assert!(same_path("/x/skills", "/x/skills/"));
    assert!(!same_path("./x", "x"));
    assert!(!same_path("/x", "x"));
    assert!(path_before("/b", "a"));
    assert!(path_before("/a/b", "/a-b"));
    assert!(path_before("../a", "-"));
    assert_eq!(split_path(""), Vec::<String>::new());
}

#[test]
fn a_press_in_a_scrolled_list_acts_on_the_row_that_is_shown() {
    let mut many = candidates();
    many.global = (0..30)
        .map(|n| target(&format!("P{n:02}"), &format!("/x/{n:02}"), "Global"))
        .collect();
    many.local = vec![];
    let mut picker = DeployPicker::new(vec!["sample".into()], "/tmp/project");
    picker.load(Ok(many));
    picker.list.select(Some(25));
    let scene = picker.draw(Rect::new(0, 0, 80, 24), ROOT, &Theme::default());
    let rows = picker.list.rows;
    assert_eq!(picker.list.offset, 26 - rows.height as usize);
    assert!(scene
        .items
        .iter()
        .any(|item| matches!(item, Draw::List { offset, .. } if *offset == picker.list.offset)));
    let row = rows.y + 1;
    let at = picker.list.offset + 1;
    picker.mouse(MouseEvent { kind: MouseKind::Down, column: rows.x, row, repeated: false });
    assert_eq!(picker.rows[at].desired, Some(true));
    assert_eq!(picker.list.selected(), Some(at));
}
