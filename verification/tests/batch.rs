use skills_tui::app::Action;
use skills_tui::batch::{
    add_members, check_present, check_tag_edit, chosen_presets, edit_members, presets_to_put_back,
    tag_changes, trim_plan, Batch, BatchFocus, Look,
};
use skills_tui::geometry::Rect;
use skills_tui::keymap::{KeyCode, KeyEvent, KeyModifiers, MouseEvent, MouseKind};
use skills_tui::model::{
    AgentDirMode, AgentEntry, AgentRecord, EntryState, LinkAction, PlannedLink, PresetRecord,
    SkillRecord, SkillStatus, Snapshot, Write,
};
use skills_tui::theme::Theme;
use skills_tui::ui::{Draw, Lines, Scene};
use skills_tui::widgets::Input;

fn key(code: KeyCode) -> KeyEvent {
    KeyEvent::new(code, KeyModifiers::none())
}

fn say(lines: &Lines) -> String {
    lines.items.iter().map(|line| line.text() + "\n").collect()
}

fn written(scene: &Scene) -> String {
    scene
        .items
        .iter()
        .map(|item| match item {
            Draw::Clear(_) => String::new(),
            Draw::Frame { title, .. } => title.text(),
            Draw::Text { lines, .. } => say(lines),
            Draw::List { rows, .. } => say(rows),
            Draw::Field { value, placeholder, .. } => format!("{value}{placeholder}"),
        })
        .collect()
}

fn skill(name: &str, tags: &[&str]) -> SkillRecord {
    SkillRecord {
        key: name.into(),
        name: Some(name.into()),
        description: Some("test".into()),
        status: SkillStatus::Local,
        tags: tags.iter().map(|tag| tag.to_string()).collect(),
        presets: vec![],
        note: None,
        source: None,
        source_name: None,
        has_meta: false,
        deployed: vec![],
    }
}

fn library(alpha: &[&str], beta: &[&str]) -> Snapshot {
    let mut tags: Vec<String> = vec![];
    for tag in alpha.iter().chain(beta) {
        if !tags.contains(&tag.to_string()) {
            tags.push(tag.to_string());
        }
    }
    tags.sort();
    Snapshot {
        root: "/tmp/skills".into(),
        skills: vec![skill("alpha", alpha), skill("beta", beta)],
        agents: vec![],
        repositories: vec![],
        presets: vec![],
        tags,
    }
}

fn tagged(snap: &Snapshot, name: &String) -> Vec<String> {
    snap.skills
        .iter()
        .filter(|skill| skill.tags.contains(name))
        .map(|skill| skill.key.clone())
        .collect()
}

/// The library after a tag was put on skills or taken from them, and the skills that are
/// recorded.
fn save(snap: &mut Snapshot, write: &Write) -> Vec<String> {
    let Write::EditTag { name, keys, add } = write else {
        panic!("a tag is edited: {write:?}");
    };
    let found: Vec<String> = snap.skills.iter().map(|skill| skill.key.clone()).collect();
    assert!(check_tag_edit(true, keys, name).is_ok());
    assert!(check_present(keys, &found).is_ok());
    let members = tagged(snap, name);
    let changed = tag_changes(&members, keys, *add);
    let after = edit_members(&members, keys, *add);
    for skill in &mut snap.skills {
        skill.tags.retain(|tag| tag != name);
        if after.contains(&skill.key) {
            skill.tags.push(name.clone());
            skill.tags.sort();
        }
    }
    if *add && !snap.tags.contains(name) {
        snap.tags.push(name.clone());
        snap.tags.sort();
    }
    changed
}

fn tags_of(snap: &Snapshot, key: &str) -> Vec<String> {
    snap.skills.iter().find(|skill| skill.key == key).unwrap().tags.clone()
}

fn look(left: &str, right: &str) -> Look {
    Look {
        theme: Theme::default(),
        left_cap: left.into(),
        right_cap: right.into(),
        tags: vec![],
    }
}

fn draw(batch: &mut Batch, w: u16, h: u16, look: &Look) -> String {
    written(&batch.draw(Rect::new(0, 0, w, h), "alpha", &Ok(vec![]), look))
}

fn written_tag(actions: Vec<Action>) -> Write {
    assert_eq!(actions.len(), 1);
    match actions.into_iter().next().unwrap() {
        Action::WriteMeta(write) => write,
        other => panic!("immediate write: {other:?}"),
    }
}

#[test]
fn tag_picker_saves_each_choice_and_stays_open() {
    let mut snap = library(&[], &["merlin", "meta"]);
    let mut batch = Batch::tags(vec!["alpha".into()], &snap);
    batch.paste("mer");
    assert_eq!(batch.shown.len(), 2); // Existing merlin and Create mer.
    batch.key(key(KeyCode::Tab));
    assert_eq!(batch.input.value(), "merlin");
    let round = look("(", ")");
    let mut screen = String::new();
    for name in ["merlin", "meta", "new-tag"] {
        batch.input = Input::empty();
        batch.paste(name);
        let write = written_tag(batch.key(key(KeyCode::Enter)));
        save(&mut snap, &write);
        assert!(tags_of(&snap, "alpha").contains(&name.to_string()));
        batch.refresh(&snap);
        screen = draw(&mut batch, 90, 25, &round);
    }
    assert!(!screen.contains("Apply"));
    assert!(!screen.contains("pending"));
    assert!(screen.contains(" new-tag "));
    assert!(screen.contains('×'));
    assert!(batch.shown.is_empty());
    assert_eq!(batch.selected_tags, vec!["merlin", "meta", "new-tag"]);
    for (left, right) in [("(", ")"), ("[", "]"), ("", "")] {
        let text = draw(&mut batch, 90, 25, &look(left, right));
        assert!(text.contains(&format!("{left} new-tag × {right}")));
    }
    draw(&mut batch, 90, 25, &round);
    // Only the close glyph removes a token.
    let chip = batch.tag_chips.iter().find(|chip| chip.name == "new-tag").unwrap().rect;
    let press = |column| MouseEvent {
        kind: MouseKind::Down,
        column,
        row: chip.y,
        repeated: false,
    };
    assert!(batch.mouse(press(chip.x), ")").is_empty());
    let write = written_tag(batch.mouse(press(chip.right() - 1 - 2), ")"));
    save(&mut snap, &write);
    assert_eq!(tags_of(&snap, "alpha"), vec!["merlin", "meta"]);
    assert!(matches!(
        batch.key(key(KeyCode::Esc)).as_slice(),
        [Action::CloseModal]
    ));
    assert_eq!(tags_of(&snap, "alpha"), vec!["merlin", "meta"]);
}

#[test]
fn selected_tokens_wrap_and_backspace_removes_only_when_input_is_empty() {
    let mut snap = library(&["long-first-tag", "long-second-tag", "third"], &[]);
    let mut batch = Batch::tags(vec!["alpha".into()], &snap);
    let round = look("(", ")");
    batch.refresh(&snap);
    draw(&mut batch, 32, 20, &round);
    assert_eq!(batch.tag_chips.len(), 3);
    assert!(batch.tag_chips[1].rect.y > batch.tag_chips[0].rect.y);
    assert!(batch
        .tag_chips
        .iter()
        .all(|chip| chip.rect.bottom() <= batch.input_rect.y));
    assert!(batch.shown.is_empty());
    let text = draw(&mut batch, 24, 14, &round);
    assert_eq!(batch.tag_chips.last().unwrap().name, "third");
    assert!(text.contains("more"));
    batch.paste("long-first-tag");
    assert_eq!(batch.rows[batch.shown[0]].id, "long-first-tag");
    batch.input = Input::empty();
    batch.filter();
    batch.paste("x");
    let backspace = key(KeyCode::Backspace);
    assert!(batch.key(backspace).is_empty());
    assert!(batch.input.value().is_empty());
    assert!(batch.key(backspace).is_empty());
    assert!(batch.remove_armed);
    let write = written_tag(batch.key(backspace));
    save(&mut snap, &write);
    assert_eq!(tags_of(&snap, "alpha"), vec!["long-first-tag", "long-second-tag"]);
}

#[test]
fn partial_tags_are_preserved_until_toggled_and_batch_has_one_undo() {
    let mut snap = library(&["existing"], &[]);
    let mut batch = Batch::tags(vec!["alpha".into(), "beta".into()], &snap);
    assert_eq!(batch.rows[0].marker(2), "[−]");
    batch.paste("new");
    let write = written_tag(batch.key(key(KeyCode::Enter)));
    let changes = save(&mut snap, &write);
    assert!(tags_of(&snap, "alpha").contains(&"existing".into()));
    assert_eq!(tags_of(&snap, "beta"), vec!["new"]);
    assert_eq!(changes.len(), 2);
    batch.rows[0].toggle(2);
    assert_eq!(batch.rows[0].marker(2), "[✓]");
    batch.rows[0].toggle(2);
    assert_eq!(batch.rows[0].marker(2), "[ ]");
}

fn preset(name: &str, members: &[&str]) -> PresetRecord {
    PresetRecord {
        name: name.into(),
        members: members.iter().map(|member| member.to_string()).collect(),
    }
}

#[test]
fn adding_to_several_presets_preserves_members_and_groups_history() {
    let mut snap = library(&["dev"], &[]);
    snap.presets = vec![preset("one", &["other", "alpha"]), preset("two", &["other"])];
    let mut batch = Batch::presets(vec!["alpha".into(), "beta".into()], &snap);
    batch.key(key(KeyCode::Enter));
    batch.key(key(KeyCode::Tab));
    assert_eq!(batch.focus, BatchFocus::Apply);
    assert!(batch.key(key(KeyCode::Enter)).is_empty());
    batch.key(key(KeyCode::Tab));
    assert_eq!(batch.focus, BatchFocus::Cancel);
    batch.key(key(KeyCode::Up));
    batch.list.select(Some(1));
    batch.key(key(KeyCode::Down));
    assert_eq!(batch.focus, BatchFocus::Apply);
    batch.key(key(KeyCode::Up));
    assert_eq!(batch.list.selected(), Some(1));
    assert!(batch.key(key(KeyCode::Enter)).is_empty());
    assert_eq!(batch.rows[1].desired, Some(true));
    batch.key(key(KeyCode::BackTab));
    assert_eq!(batch.focus, BatchFocus::Cancel);
    assert!(matches!(
        batch.key(key(KeyCode::Enter)).as_slice(),
        [Action::CloseModal]
    ));
    assert_eq!(batch.rows[0].count, 1);
    assert_eq!(batch.rows[1].count, 0);
    for row in &mut batch.rows {
        row.desired = Some(true);
    }
    let Action::BatchMeta(Write::AddToPresets { names, keys }, _) =
        batch.apply_changes().remove(0)
    else {
        panic!("expected metadata edit")
    };
    assert_eq!(names, ["one", "two"]);
    for preset in &snap.presets {
        let mut members = add_members(&preset.members, &keys);
        members.sort();
        assert_eq!(members, vec!["alpha", "beta", "other"]);
    }
}

fn agent(entries: Vec<AgentEntry>) -> AgentRecord {
    AgentRecord {
        key: "test".into(),
        name: "Test".into(),
        mode: AgentDirMode::Real,
        entries,
    }
}

fn link(skill: &str) -> PlannedLink {
    PlannedLink {
        action: LinkAction::Link {
            agent: "test".into(),
            skill: skill.into(),
            path: format!("/tmp/agent-links/{skill}"),
            target: format!("/tmp/skills/{skill}"),
        },
        summary: format!("link {skill}"),
    }
}

fn skip(reason: &str) -> PlannedLink {
    PlannedLink {
        action: LinkAction::Skip {
            agent: "test".into(),
            skill: "alpha".into(),
            reason: reason.into(),
        },
        summary: "skip alpha".into(),
    }
}

#[test]
fn deployment_plans_omit_satisfied_targets_without_writing() {
    let mut snap = library(&[], &[]);
    snap.agents = vec![agent(vec![])];
    assert!(trim_plan(&vec![skip("not deployed")], &snap).is_empty());
    assert_eq!(trim_plan(&vec![link("alpha")], &snap).len(), 1);

    snap.agents = vec![agent(vec![AgentEntry {
        name: "alpha".into(),
        state: EntryState::Deployed,
    }])];
    assert!(trim_plan(&vec![skip("already deployed")], &snap).is_empty());
    assert!(trim_plan(&vec![skip("linked; already deployed")], &snap).is_empty());
    assert!(trim_plan(&vec![skip("agent directory is read-only: /x")], &snap).is_empty());
    assert_eq!(trim_plan(&vec![skip("agent dir missing or foreign")], &snap).len(), 1);
    snap.agents[0].mode = AgentDirMode::Missing;
    assert!(trim_plan(&vec![skip("agent dir missing or foreign")], &snap).is_empty());
    assert_eq!(trim_plan(&vec![skip("occupied")], &snap).len(), 1);
}

#[test]
fn agents_are_asked_for_what_was_switched() {
    let mut snap = library(&[], &[]);
    snap.agents = vec![agent(vec![])];
    let mut batch = Batch::deploy(vec!["alpha".into()], &snap);
    assert_eq!(batch.rows.len(), 1);
    assert_eq!(batch.pending_count(), 0);
    batch.rows[0].toggle(1);
    assert_eq!(batch.pending_count(), 1);
    let actions = batch.apply_changes();
    let [Action::PlanDeployment { keys, changes }] = actions.as_slice() else {
        panic!("a plan is asked for: {actions:?}");
    };
    assert_eq!(keys, &["alpha"]);
    assert_eq!((changes[0].agent.as_str(), changes[0].on), ("test", true));
    let refused = batch.planned(Err("no plan".into()), &snap);
    assert!(refused.is_empty());
    assert_eq!(batch.error.as_deref(), Some("no plan"));
}

#[test]
fn tags_need_a_name_and_skills() {
    let keys = vec!["alpha".to_string()];
    assert!(check_tag_edit(true, &keys, "dev").is_ok());
    assert!(check_tag_edit(false, &keys, "dev").is_err());
    let members = vec!["other".to_string(), "alpha".to_string()];
    assert_eq!(edit_members(&members, &keys, false), ["other"]);
    assert!(edit_members(&members, &vec!["beta".to_string()], true).contains(&"beta".to_string()));
}

#[test]
fn only_skills_whose_tags_change_are_recorded() {
    let members = vec!["alpha".to_string()];
    let keys = vec!["alpha".to_string(), "beta".to_string()];
    assert_eq!(tag_changes(&members, &keys, true), ["beta"]);
    assert_eq!(tag_changes(&members, &keys, false), ["alpha"]);
    let after = edit_members(&members, &keys, true);
    assert!(tag_changes(&after, &keys, true).is_empty());
    assert_eq!(check_present(&keys, &members), Err("no such skill: beta".to_string()));
}

#[test]
fn presets_that_were_saved_are_put_back_last_first() {
    let names = vec!["one".to_string(), "two".to_string()];
    let loaded = vec![Some(preset("one", &["alpha"])), Some(preset("two", &[]))];
    let chosen = chosen_presets(&names, loaded).unwrap();
    assert_eq!(chosen[0].members, ["alpha"]);
    assert_eq!(chosen[1].name, "two");
    let missing = chosen_presets(&names, vec![Some(preset("one", &[])), None]);
    assert_eq!(missing.unwrap_err(), "No such preset: two");
    assert_eq!(chosen_presets(&vec![], vec![]).unwrap_err(), "No presets selected.");
    assert_eq!(presets_to_put_back(3), [2, 1, 0]);
    assert!(presets_to_put_back(0).is_empty());
}

#[test]
fn a_press_in_a_scrolled_list_acts_on_the_tag_that_is_shown() {
    let names: Vec<String> = (0..20).map(|n| format!("tag{n:02}")).collect();
    let tags: Vec<&str> = names.iter().map(|name| name.as_str()).collect();
    let snap = library(&[], &tags);
    let mut batch = Batch::tags(vec!["alpha".into()], &snap);
    let plain = look("", "");
    for _ in 0..15 {
        batch.key(key(KeyCode::Down));
    }
    draw(&mut batch, 60, 20, &plain);
    let rows = batch.list.rows;
    let selected = batch.list.selected().unwrap();
    assert_eq!(selected, 15);
    assert!(batch.list.offset > 0);
    assert!(batch.list.offset <= selected);
    assert!(selected < batch.list.offset + rows.height as usize);
    let top = batch.list.offset;
    assert_eq!(batch.list.row_at(rows.y, batch.shown.len()), Some(top));
    let press = MouseEvent { kind: MouseKind::Down, column: rows.x, row: rows.y, repeated: false };
    let Write::EditTag { name, add, .. } = written_tag(batch.mouse(press, "")) else {
        panic!("a tag is edited");
    };
    assert_eq!(name, batch.rows[top].id);
    assert!(add);
}
