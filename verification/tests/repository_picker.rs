use skills_tui::app::Action;
use skills_tui::event::Task;
use skills_tui::geometry::Rect;
use skills_tui::keymap::{KeyCode, KeyEvent, KeyModifiers, MouseEvent, MouseKind};
use skills_tui::model::{SkillRecord, SkillStatus, Snapshot, Source};
use skills_tui::repository_picker::{
    alias_of, candidate_record, names_resolved, needs_source_name, path_tokens, related, tree,
    Candidate, Checks, FetchedRepository, InstallSelection, NamedPath, Repository,
    RepositoryFocus, RepositoryPicker, SourceKind, SourceName,
};
use skills_tui::theme::Theme;
use skills_tui::ui::{Draw, Lines, Scene};
use skills_tui::widgets::Input;

fn key(code: KeyCode) -> KeyEvent {
    KeyEvent::new(code, KeyModifiers::none())
}

fn say(lines: &Lines) -> String {
    lines.items.iter().map(|line| line.text() + "\n").collect()
}

fn written(scene: &Scene) -> String {
    scene
        .items
        .iter()
        .map(|item| match item {
            Draw::Clear(_) => String::new(),
            Draw::Frame { title, .. } => title.text(),
            Draw::Text { lines, .. } => say(lines),
            Draw::List { rows, .. } => say(rows),
            Draw::Field { value, placeholder, .. } => format!("{value}{placeholder}"),
        })
        .collect()
}

fn choice(path: &str) -> Candidate {
    Candidate {
        path: path.into(),
        name: Some(path.rsplit('/').next().unwrap().into()),
        local_name: path.rsplit('/').next().unwrap().into(),
        invalid: None,
        installed: false,
        missing: false,
    }
}

fn repository(kind: SourceKind, alias: &str, url: &str, name: Option<&str>, shown: &str) -> Repository {
    Repository {
        kind,
        alias: alias.into(),
        url: url.into(),
        branch: if kind == SourceKind::Git { "main".into() } else { String::new() },
        name: name.map(|name| name.into()),
        display_name: shown.into(),
    }
}

fn fetched(repository: Repository, paths: &[&str]) -> FetchedRepository {
    FetchedRepository {
        repository,
        revision: "test".into(),
        workdir: "/tmp/download".into(),
        choices: paths.iter().map(|path| choice(path)).collect(),
    }
}

/// What the names of the picker are checked to be.
fn checks(picker: &RepositoryPicker) -> Checks {
    let typed = picker.source_name.value();
    let required = needs_source_name(&picker.selection.fetched);
    Checks {
        alias_ok: !picker.alias.value().trim().is_empty(),
        name_ok: true,
        source_name: if typed.trim().is_empty() && required {
            Err("package name is required".into())
        } else {
            Ok(SourceName {
                name: Some(typed.trim().into()),
                display_name: typed.trim().into(),
            })
        },
        local_name: String::new(),
    }
}

/// Searches the candidates: every free word has to stand in the path.
fn search(picker: &mut RepositoryPicker, query: &str) {
    let (rest, prefixes) = path_tokens(query);
    let hits: Vec<String> = picker
        .selection
        .fetched
        .choices
        .iter()
        .filter(|choice| rest.split_whitespace().all(|word| choice.path.contains(word)))
        .map(|choice| choice.path.clone())
        .collect();
    picker.found(&hits, &prefixes);
}

/// Does what the picker asks for, and hands back the rest.
fn drive(picker: &mut RepositoryPicker, actions: Vec<Action>) -> Vec<Action> {
    let mut left = vec![];
    for action in actions {
        match action {
            Action::SearchCandidates(query) => search(picker, &query),
            Action::ResumeRepository(step) => {
                let checked = checks(picker);
                let more = picker.resume(step, &checked);
                left.extend(drive(picker, more));
            }
            Action::ResolveNames(selection) => {
                let mut names = vec![];
                for path in &selection.paths {
                    let set = selection.names.iter().find(|named| named.path == *path);
                    names.push(NamedPath {
                        path: path.clone(),
                        name: set.map_or(path.rsplit('/').next().unwrap().to_string(), |named| {
                            named.name.clone()
                        }),
                    });
                }
                left.extend(names_resolved(selection, Ok(names)));
            }
            Action::SuggestCandidates => {}
            other => left.push(other),
        }
    }
    left
}

fn press(picker: &mut RepositoryPicker, code: KeyCode) -> Vec<Action> {
    let checked = checks(picker);
    let actions = picker.key(key(code), &checked);
    drive(picker, actions)
}

fn click(picker: &mut RepositoryPicker, column: u16, row: u16) -> Vec<Action> {
    let checked = checks(picker);
    let event = MouseEvent { kind: MouseKind::Down, column, row, repeated: false };
    let actions = picker.mouse(event, 3, &checked);
    drive(picker, actions)
}

fn draw(picker: &mut RepositoryPicker, width: u16, height: u16) -> String {
    written(&picker.draw(Rect::new(0, 0, width, height), "", &Theme::default()))
}

fn shown(picker: &RepositoryPicker) -> Vec<&str> {
    picker.shown.iter().map(|path| path.as_str()).collect()
}

#[test]
fn archive_picker_preserves_source_kind_and_excludes_only_matching_installs() {
    let source = repository(
        SourceKind::Archive,
        "sample-tools",
        "https://example.com/sample/tools",
        Some("sample/tools"),
        "sample/tools",
    );
    let mut package = fetched(source, &["bundle/reader", "bundle/writer"]);
    let record = candidate_record(
        &package.choices[0],
        Some("Sample tool".into()),
        Source::Archive { url: package.repository.url.clone() },
        &package.repository.display_name,
    );
    assert!(matches!(record.source, Some(Source::Archive { .. })));
    assert_eq!(record.source_name.as_deref(), Some("sample/tools"));
    package.choices[0].installed = true;
    let mut picker = RepositoryPicker::new(package);
    search(&mut picker, "");
    assert!(picker.selection.paths.is_empty());
    assert_eq!(picker.disabled("bundle/reader").as_deref(), Some("already installed"));
    picker.toggle("bundle/writer");
    assert_eq!(picker.selection.paths, ["bundle/writer"]);
    picker.toggle("bundle/writer");
    assert_eq!(picker.disabled("bundle/writer"), None);
    picker.focus = RepositoryFocus::Search;
    let actions = picker.accept("repo:sample/tools ");
    assert!(matches!(&actions[0], Action::SearchCandidates(query) if query == "repo:sample/tools "));
    assert_eq!(picker.search.value(), "repo:sample/tools ");
    let text = draw(&mut picker, 100, 30);
    assert!(text.contains("reader"));
    assert!(text.contains("writer"));
}

#[test]
fn missing_matching_skill_is_selectable_for_restore() {
    let source = repository(
        SourceKind::Git,
        "sample",
        "https://example.com/sample.git",
        None,
        "sample",
    );
    let mut package = fetched(source, &["skills/reader"]);
    package.choices[0].missing = true;
    let mut picker = RepositoryPicker::new(package);
    search(&mut picker, "");
    assert_eq!(picker.disabled("skills/reader"), None);
    assert!(picker.restores_missing("skills/reader"));
    assert!(picker.toggle("skills/reader").is_empty());
    assert_eq!(picker.selection.paths, ["skills/reader"]);
}

#[test]
fn archive_name_is_required_and_retained_through_browsing_and_install_retry() {
    let source = repository(
        SourceKind::Archive,
        "latest--skills.tar",
        "https://example.com/latest/skills.tar",
        None,
        "",
    );
    let mut picker = RepositoryPicker::new(fetched(source, &["reader"]));
    search(&mut picker, "");
    assert_eq!(picker.focus, RepositoryFocus::SourceName);
    assert!(picker.source_name.value().is_empty());
    picker.focus = RepositoryFocus::List;
    assert!(matches!(
        &press(&mut picker, KeyCode::Enter)[0],
        Action::Error(_)
    ));
    assert_eq!(picker.focus, RepositoryFocus::SourceName);

    assert!(picker.paste("Merlin Tools").is_empty());
    assert!(press(&mut picker, KeyCode::Enter).is_empty());
    assert_eq!(picker.focus, RepositoryFocus::List);
    assert_eq!(
        picker.selection.fetched.repository.name.as_deref(),
        Some("Merlin Tools")
    );
    assert_eq!(
        picker.selection.fetched.repository.alias,
        "latest--skills.tar"
    );

    press(&mut picker, KeyCode::Char('/'));
    picker.search = Input::empty();
    search(&mut picker, "");
    press(&mut picker, KeyCode::Enter);
    assert_eq!(picker.focus, RepositoryFocus::List);
    press(&mut picker, KeyCode::Char('v'));
    assert!(picker.preview.is_some());
    press(&mut picker, KeyCode::Esc);
    picker.preview = None;
    assert_eq!(picker.source_name.value(), "Merlin Tools");

    picker.toggle("reader");
    press(&mut picker, KeyCode::Char('e'));
    picker.local_name = Input::with_value("project-reader");
    press(&mut picker, KeyCode::Enter);
    let selected = press(&mut picker, KeyCode::Enter)
        .into_iter()
        .find_map(|action| match action {
            Action::Spawn(Task::InstallRepository(selection)) => Some(*selection),
            _ => None,
        })
        .unwrap();
    assert_eq!(selected.names[0].path, "reader");
    assert_eq!(selected.names[0].name, "project-reader");
    let mut restored = RepositoryPicker::restore(selected);
    assert_eq!(restored.source_name.value(), "Merlin Tools");
    assert_eq!(
        restored.selection.fetched.repository.alias,
        "latest--skills.tar"
    );
    assert_eq!(restored.selection.names[0].name, "project-reader");

    for (width, height) in [(120, 35), (80, 24), (44, 20), (24, 12)] {
        let text = draw(&mut restored, width, height);
        if width >= 80 {
            assert!(text.contains("Package name (required)"));
            assert!(text.contains("Merlin Tools"));
            assert!(text.contains("Storage folder"));
            assert!(text.contains("Local skill name"));
        } else if width >= 44 {
            assert!(text.contains("Package name *"));
            assert!(text.contains("Merlin Tools"));
        }
        for field in [
            restored.alias_field,
            restored.search_field,
            restored.name_field,
            restored.source_field,
        ] {
            assert!(field.right() <= width && field.bottom() <= height);
        }
    }
}

fn selection(paths: &[&str], chosen: &[&str]) -> InstallSelection {
    InstallSelection {
        fetched: fetched(
            repository(
                SourceKind::Git,
                "sample--tools",
                "https://github.com/sample/tools",
                None,
                "sample/tools",
            ),
            paths,
        ),
        paths: chosen.iter().map(|path| path.to_string()).collect(),
        names: vec![],
    }
}

#[test]
fn source_name_navigation_is_separate_from_storage_and_skill_names() {
    let mut picker = RepositoryPicker::restore(selection(&["reader"], &["reader"]));
    assert_eq!(picker.source_name.value(), "sample/tools");
    assert_eq!(picker.focus, RepositoryFocus::Search);
    press(&mut picker, KeyCode::BackTab);
    assert_eq!(picker.focus, RepositoryFocus::Alias);
    press(&mut picker, KeyCode::BackTab);
    assert_eq!(picker.focus, RepositoryFocus::SourceName);
    picker.source_name = Input::with_value("Custom tools");
    press(&mut picker, KeyCode::Tab);
    assert_eq!(picker.focus, RepositoryFocus::Alias);
    assert_eq!(
        picker.selection.fetched.repository.name.as_deref(),
        Some("Custom tools")
    );
    assert_eq!(picker.selection.fetched.repository.alias, "sample--tools");
    assert!(picker.selection.names.is_empty());

    draw(&mut picker, 80, 24);
    let field = picker.source_field;
    click(&mut picker, field.x, field.y);
    assert_eq!(picker.focus, RepositoryFocus::SourceName);
    picker.source_name = Input::with_value("Changed tools");
    let field = picker.search_field;
    click(&mut picker, field.x, field.y);
    assert_eq!(picker.focus, RepositoryFocus::Search);
    assert_eq!(
        picker.selection.fetched.repository.name.as_deref(),
        Some("Changed tools")
    );
}

#[test]
fn directory_queries_are_root_relative_and_keep_tree_ancestors() {
    let mut picker = RepositoryPicker::restore(selection(
        &[
            "skills/mock-real",
            "skills/group/mock-other",
            "internal/tests/skills/mock-demo",
            "skills-extra/demo",
        ],
        &["internal/tests/skills/mock-demo"],
    ));
    for query in ["skills/", "./skills/", "/skills/"] {
        search(&mut picker, query);
        assert_eq!(
            shown(&picker),
            vec![
                "skills",
                "skills/group",
                "skills/group/mock-other",
                "skills/mock-real"
            ]
        );
    }
    search(&mut picker, "internal/tests/skills/");
    assert!(shown(&picker).contains(&"internal/tests/skills/mock-demo"));
    assert!(!shown(&picker).contains(&"skills"));
    search(&mut picker, "mock-demo");
    assert!(shown(&picker).contains(&"internal"));
    assert!(shown(&picker).contains(&"internal/tests/skills/mock-demo"));
    search(&mut picker, "missing/");
    assert!(picker.shown.is_empty());
    assert_eq!(
        picker.selection.paths,
        vec!["internal/tests/skills/mock-demo"]
    );
}

#[test]
fn tree_selection_disables_only_ancestors_and_descendants_for_keys_and_mouse() {
    let source = repository(
        SourceKind::Git,
        "sample--tools",
        "https://example.com/sample/tools.git",
        None,
        "sample/tools",
    );
    let mut picker = RepositoryPicker::new(fetched(
        source,
        &[
            "tools",
            "tools/reader",
            "tools/reader/formatter",
            "tools/sibling/leaf",
            "other/printer",
        ],
    ));
    search(&mut picker, "");
    assert!(picker.selection.paths.is_empty());
    picker.toggle("tools");
    assert!(!picker.toggle("tools/reader").is_empty());
    picker.toggle("tools");
    picker.toggle("tools/reader");
    picker.toggle("tools/sibling/leaf");
    assert!(picker.selection.paths.contains(&"tools/sibling/leaf".into()));
    assert!(!picker.toggle("tools/reader/formatter").is_empty());
    assert!(!picker.toggle("tools").is_empty());
    draw(&mut picker, 100, 30);
    let index = picker
        .shown
        .iter()
        .position(|p| p == "tools/reader/formatter")
        .unwrap();
    let before = picker.selection.paths.clone();
    let (x, y) = (picker.list.rows.x + 2, picker.list.rows.y + index as u16);
    click(&mut picker, x, y);
    assert_eq!(picker.selection.paths, before);
    picker.focus = RepositoryFocus::Search;
    for c in "reader formatter".chars() {
        press(&mut picker, KeyCode::Char(c));
    }
    assert_eq!(picker.selection.paths, before); // Spaces in search never toggle.
    picker.search = Input::with_value("tools/");
    search(&mut picker, "tools/");
    picker.focus = RepositoryFocus::List;
    let selection = press(&mut picker, KeyCode::Enter)
        .into_iter()
        .find_map(|a| match a {
            Action::Spawn(Task::InstallRepository(s)) => Some(s),
            _ => None,
        })
        .unwrap();
    assert_eq!(selection.paths, vec!["tools/reader", "tools/sibling/leaf"]);
    assert!(!picker.selection.paths.contains(&"other/printer".into()));
    picker.selection.paths = vec!["tools".into(), "other/printer".into()];
    // A tree ancestor retained solely for context is not an installation result.
    assert!(picker.shown.contains(&"tools".into()));
    let actions = press(&mut picker, KeyCode::Enter);
    assert!(matches!(&actions[0], Action::Error(_)));
    assert!(picker.toggle("tools/reader").is_empty());
    assert!(!picker.selection.paths.contains(&"tools".into()));
    let leaf = picker
        .selection
        .fetched
        .choices
        .iter_mut()
        .find(|choice| choice.path == "tools/sibling/leaf")
        .unwrap();
    leaf.invalid = Some("frontmatter has no `name`".into());
    assert!(!picker.toggle("tools/sibling/leaf").is_empty());
    let RepositoryPicker { selection, .. } = picker;
    let defaults = RepositoryPicker::new(selection.fetched);
    assert!(!defaults
        .selection
        .paths
        .contains(&"tools/sibling/leaf".into()));
}

#[test]
fn paths_that_lie_in_each_other_are_related() {
    assert!(related("tools", "tools/reader"));
    assert!(related("tools/reader", "tools"));
    assert!(!related("tools", "tools"));
    assert!(!related("tools", "tools-extra"));
    assert_eq!(
        tree(&vec![choice("a/b/c"), choice("a/d")]),
        ["a", "a/b", "a/b/c", "a/d"]
    );
    assert_eq!(
        path_tokens("./skills/ printer"),
        ("printer".to_string(), vec!["skills/".to_string()])
    );
    assert_eq!(alias_of("repos/tools/reader"), Some("tools".to_string()));
    assert_eq!(alias_of("reader"), None);
}

#[test]
fn invalid_and_filtered_candidates_are_refused() {
    let mut some = selection(&["good", "bad"], &[]);
    some.fetched.choices[1].invalid = Some("no name".into());
    let mut picker = RepositoryPicker::restore(some);
    search(&mut picker, "");
    assert_eq!(picker.disabled("bad").as_deref(), Some("invalid: no name"));
    search(&mut picker, "bad");
    assert_eq!(picker.disabled("good").as_deref(), Some("outside current filter"));
    assert!(picker.toggle("unknown").is_empty());
    let refused = press(&mut picker, KeyCode::Enter);
    assert!(!refused.iter().any(|a| matches!(a, Action::Spawn(_))));
}

#[test]
fn names_are_settled_once_among_installed_skills() {
    let picker = RepositoryPicker::restore(selection(&["a/reader", "b/reader"], &["a/reader"]));
    let skills = ["repos/sample--tools/reader", "repos/other/writer", "plain"]
        .into_iter()
        .map(|key| SkillRecord {
            key: key.into(),
            name: None,
            description: None,
            status: SkillStatus::Repository,
            tags: vec![],
            presets: vec![],
            note: None,
            source: None,
            source_name: None,
            has_meta: false,
            deployed: vec![],
        })
        .collect();
    let snap = Snapshot {
        root: "/tmp/skills".into(),
        skills,
        agents: vec![],
        repositories: vec![],
        presets: vec![],
        tags: vec![],
    };
    assert_eq!(picker.occupied(&snap), ["reader"]);
    let failed = names_resolved(Box::new(selection(&["a"], &["a"])), Err("name taken".into()));
    assert!(matches!(&failed[..], [Action::Error(text)] if text == "name taken"));
}

#[test]
fn a_skill_is_named_as_settled_as_chosen_or_as_it_is() {
    let source = repository(SourceKind::Git, "tools", "https://example.com/tools", None, "tools");
    let mut picker = RepositoryPicker::new(fetched(source, &["a/reader", "b/writer"]));
    search(&mut picker, "");
    picker.toggle("a/reader");
    assert_eq!(picker.paths_with("b/writer"), ["a/reader", "b/writer"]);
    assert_eq!(picker.paths_with("a/reader"), ["a/reader"]);
    let named = |name: &str| NamedPath { path: "a/reader".into(), name: name.into() };
    assert_eq!(picker.resolved_name("a/reader", &None).as_deref(), Some("reader"));
    picker.selection.names = vec![named("chosen")];
    assert_eq!(picker.resolved_name("a/reader", &None).as_deref(), Some("chosen"));
    let settled = Some(vec![named("settled")]);
    assert_eq!(picker.resolved_name("a/reader", &settled).as_deref(), Some("settled"));
    assert_eq!(picker.resolved_name("c/unknown", &None), None);
}
