use skills_tui::components::skill::{
    display_name, repository_badge, status_glyph, status_text, Badges, Kind, SkillDecoration,
    SkillLine, SkillLook, SkillPresentation, SkillRenderState, Standing, Tone,
};
use skills_tui::model::{EntryState, Icons, SkillRecord, SkillStatus, Source};
use skills_tui::theme::Theme;
use skills_tui::ui::{Color, Line, Span, Style};
use unicode_width::UnicodeWidthStr;

fn look(icons: Icons) -> SkillLook {
    SkillLook {
        theme: Theme::default(),
        icons,
        tags_enabled: true,
        marker_width: 4,
        compact_name_width: 24,
    }
}

fn text(line: &SkillLine) -> String {
    line.pieces.iter().map(|piece| piece.span.content.as_str()).collect()
}

fn width(line: &SkillLine) -> usize {
    line.pieces.iter().map(|piece| piece.span.content.width()).sum()
}

fn line_text(line: &Line) -> String {
    line.spans.iter().map(|span| span.content.as_str()).collect()
}

/// The badge of the first group, and how many more there are, in as many columns as fit.
fn badges(kind: Kind, names: &[String], icons: Icons, columns: usize) -> Line {
    let mut line = Line::new();
    let Some(first) = names.first() else {
        return line;
    };
    let more = if names.len() > 1 { format!(" +{}", names.len() - 1) } else { String::new() };
    let (left, right) = match (icons, kind) {
        (Icons::Text, Kind::Tag) => ("(", ")"),
        (Icons::Text, Kind::Preset) => ("/", "/"),
        (Icons::Nerd, Kind::Tag) => ("\u{e0b6}", "\u{e0b4}"),
        (Icons::Nerd, Kind::Preset) => ("\u{e0ba}", "\u{e0bc}"),
    };
    let badge = format!("{left} {first} {right}{more}");
    if badge.width() <= columns {
        let style = Style { bg: Some(Color::Rgb(184, 126, 84)), ..Style::plain() };
        line.push(Span::of(badge, style));
    }
    line
}

fn groups(skill: &SkillPresentation, state: &SkillRenderState, look: &SkillLook, rooms: (usize, usize)) -> Badges {
    Badges {
        tags: badges(
            Kind::Tag,
            &skill.memberships(Kind::Tag, state, look),
            look.icons,
            rooms.0,
        ),
        presets: badges(
            Kind::Preset,
            &skill.memberships(Kind::Preset, state, look),
            look.icons,
            rooms.1,
        ),
    }
}

const ALL: (usize, usize) = (usize::MAX, usize::MAX);

fn card(skill: &SkillPresentation, look: &SkillLook, columns: usize, state: &SkillRenderState) -> Vec<SkillLine> {
    let full = groups(skill, state, look, ALL);
    let rooms = skill.badge_rooms(columns, state, look, &full).unwrap_or(ALL);
    let cut = groups(skill, state, look, rooms);
    skill.card(columns, state, look, &full, &cut)
}

fn list(skill: &SkillPresentation, look: &SkillLook, columns: usize, selected: bool, state: &SkillRenderState) -> Vec<SkillLine> {
    let full = groups(skill, state, look, ALL);
    let rooms = skill
        .badge_rooms(columns.saturating_sub(2), state, look, &full)
        .unwrap_or(ALL);
    let cut = groups(skill, state, look, rooms);
    skill.list(columns, selected, state, look, &full, &cut)
}

fn compact(skill: &SkillPresentation, look: &SkillLook, columns: usize, selected: bool, state: &SkillRenderState) -> Vec<SkillLine> {
    let full = groups(skill, state, look, ALL);
    let rooms = skill.compact_rooms(columns, state, look, &full).unwrap_or(ALL);
    let cut = groups(skill, state, look, rooms);
    skill.compact(columns, selected, state, look, &full, &cut)
}

fn metadata(skill: &SkillPresentation, look: &SkillLook, columns: usize, state: &SkillRenderState) -> Line {
    let full = groups(skill, state, look, ALL);
    let rooms = skill.badge_rooms(columns, state, look, &full).unwrap_or(ALL);
    let cut = groups(skill, state, look, rooms);
    skill.draw_metadata(columns, state, look, &full, &cut)
}

fn hiding(group: Option<(Kind, &str)>) -> SkillRenderState {
    SkillRenderState {
        hidden_group: group.map(|(kind, name)| (kind, name.to_string())),
        ..Default::default()
    }
}

#[test]
fn memberships_pack_right_in_every_density_and_hide_only_the_enclosing_group() {
    let tags: [String; 2] = ["alpha".into(), "beta".into()];
    let presets: [String; 2] = ["alpha".into(), "gamma".into()];
    for (icons, tag, preset, other_tag, other_preset) in [
        (Icons::Text, "( alpha )", "/ alpha /", "( beta )", "/ gamma /"),
        (
            Icons::Nerd,
            "\u{e0b6} alpha \u{e0b4}",
            "\u{e0ba} alpha \u{e0bc}",
            "\u{e0b6} beta \u{e0b4}",
            "\u{e0ba} gamma \u{e0bc}",
        ),
    ] {
        let look = look(icons);
        for (tag_count, preset_count, hidden_group, suffix) in [
            (1, 0, None, tag.to_owned()),
            (0, 1, None, preset.to_owned()),
            (1, 1, None, format!("{tag} {preset}")),
            (2, 2, None, format!("{tag} +1 {preset} +1")),
            (
                2,
                2,
                Some((Kind::Tag, "alpha")),
                format!("{other_tag} {preset} +1"),
            ),
            (
                2,
                2,
                Some((Kind::Preset, "alpha")),
                format!("{tag} +1 {other_preset}"),
            ),
            (1, 1, Some((Kind::Tag, "alpha")), preset.to_owned()),
            (1, 1, Some((Kind::Preset, "alpha")), tag.to_owned()),
        ] {
            let mut skill = SkillPresentation::entry("sample", &None, &None);
            skill.source = "local".into();
            skill.tags = tags[..tag_count].to_vec();
            skill.presets = presets[..preset_count].to_vec();
            let state = hiding(hidden_group);
            for lines in [
                card(&skill, &look, 80, &state),
                list(&skill, &look, 80, false, &state),
                compact(&skill, &look, 80, false, &state),
            ] {
                let metadata = lines.last().unwrap();
                let text = text(metadata);
                assert_eq!(width(metadata), 80, "{text:?}");
                assert!(
                    text.ends_with(&suffix),
                    "expected right-aligned {suffix:?}: {text:?}"
                );
                assert!(text.contains("local "), "{text:?}");
            }
            for columns in 0..100 {
                for lines in [
                    card(&skill, &look, columns, &state),
                    list(&skill, &look, columns, false, &state),
                    compact(&skill, &look, columns, false, &state),
                ] {
                    assert!(
                        lines.iter().all(|line| width(line) <= columns),
                        "columns={columns}: {lines:?}"
                    );
                }
            }
        }
        let mut skill = SkillPresentation::entry("sample", &None, &None);
        skill.source = "local".into();
        skill.tags = tags[..1].to_vec();
        assert_eq!(
            line_text(&metadata(&skill, &look, 80, &hiding(Some((Kind::Tag, "alpha"))))),
            "local"
        );

        skill.source = "󰏗 merlin-skills".into();
        let metadata = line_text(&metadata(&skill, &look, 41, &SkillRenderState::default()));
        assert_eq!(metadata.width(), 41);
        assert!(metadata.starts_with("󰏗 merlin-skills"));
        assert!(metadata.ends_with(tag));
        assert!(!metadata.contains('…'));
    }
}

fn calendar() -> SkillRecord {
    SkillRecord {
        key: "calendar".into(),
        name: Some("calendar".into()),
        description: Some("Calendar details".into()),
        status: SkillStatus::Local,
        tags: vec!["events".into()],
        presets: vec![],
        note: None,
        source: None,
        source_name: None,
        has_meta: false,
        deployed: vec![],
    }
}

fn healthy() -> Standing {
    Standing { label: "local".into(), healthy: true }
}

#[test]
fn all_densities_share_source_tag_and_description_styles() {
    let mut look = look(Icons::Text);
    // Deliberately change the theme to verify that every density reads the
    // supplied settings instead of reproducing a hard-coded style.
    look.theme.source = Color::Rgb(97, 81, 138);
    let skill = SkillPresentation::managed(&calendar(), &healthy(), look.icons);
    let state = SkillRenderState::default();
    for lines in [
        card(&skill, &look, 80, &state),
        list(&skill, &look, 80, true, &state),
        compact(&skill, &look, 80, true, &state),
    ] {
        let spans: Vec<&Span> = lines
            .iter()
            .flat_map(|line| line.pieces.iter().map(|piece| &piece.span))
            .collect();
        assert_eq!(
            spans
                .iter()
                .find(|span| span.content.contains("local"))
                .unwrap()
                .style,
            look.theme.source()
        );
        let tag = spans
            .iter()
            .find(|span| span.content.contains("events"))
            .unwrap();
        assert_eq!(tag.style.bg, Some(Color::Rgb(184, 126, 84)));
        assert!(
            spans
                .iter()
                .find(|span| span.content.contains("calendar"))
                .unwrap()
                .style
                .bold
        );
    }
    for presentation in [
        skill,
        SkillPresentation::entry(
            "calendar",
            &Some("Calendar details".into()),
            &Some(EntryState::AgentOnly),
        ),
    ] {
        let lines = card(&presentation, &look, 80, &state);
        assert_eq!(lines[1].pieces[0].span.style, look.theme.description());
        let lines = compact(
            &presentation,
            &look,
            80,
            false,
            &SkillRenderState {
                excerpt: Some("Calendar details".into()),
                show_match_details: true,
                ..Default::default()
            },
        );
        assert_eq!(
            lines[1].pieces.last().unwrap().span.style,
            look.theme.description()
        );
    }
    look.tags_enabled = false;
    let skill = SkillPresentation::managed(&calendar(), &healthy(), look.icons);
    for lines in [
        card(&skill, &look, 80, &state),
        list(&skill, &look, 80, true, &state),
        compact(&skill, &look, 80, true, &state),
    ] {
        assert!(!lines.iter().any(|line| text(line).contains("events")));
    }
}

#[test]
fn repository_decorations_share_markers_and_preserve_local_priority() {
    let look = look(Icons::Nerd);
    let healthy = SkillPresentation::entry("healthy", &None, &Some(EntryState::Deployed));
    for (decoration, marker, label) in [
        (SkillDecoration::Update, "\u{f0aa}", "Update"),
        (
            SkillDecoration::Attention("Missing upstream".into()),
            "\u{f071}",
            "Missing upstream",
        ),
    ] {
        let state = SkillRenderState {
            decoration: Some(decoration),
            ..Default::default()
        };
        for lines in [
            card(&healthy, &look, 60, &state),
            list(&healthy, &look, 60, false, &state),
            compact(&healthy, &look, 60, false, &state),
        ] {
            assert!(text(&lines[0]).contains(marker));
        }
        assert!(text(&card(&healthy, &look, 60, &state)[0]).contains(label));
    }

    let warning = SkillPresentation::entry(
        "shadow",
        &None,
        &Some(EntryState::Shadow { same_content: false }),
    );
    let state = SkillRenderState {
        decoration: Some(SkillDecoration::Update),
        ..Default::default()
    };
    assert!(text(&card(&warning, &look, 60, &state)[0]).contains('▪'));
    assert!(!text(&card(&warning, &look, 60, &state)[0]).contains('\u{f0aa}'));

    let error = SkillPresentation::entry("broken", &None, &Some(EntryState::Broken));
    assert!(text(&card(&error, &look, 60, &state)[0]).contains('!'));
    assert!(!text(&card(&error, &look, 60, &state)[0]).contains('\u{f0aa}'));

    let checked = SkillRenderState {
        checked: Some(true),
        decoration: Some(SkillDecoration::Update),
        ..Default::default()
    };
    assert!(text(&card(&healthy, &look, 60, &checked)[0]).contains("[✓]"));
}

#[test]
fn selection_and_update_state_preserve_alignment_and_clipping() {
    let mut look = look(Icons::Nerd);
    look.marker_width = 6;
    look.compact_name_width = 31;
    for (status, broken) in [
        (Some(EntryState::AgentOnly), false),
        (Some(EntryState::Deployed), false),
        (Some(EntryState::Broken), true),
        (None, false),
    ] {
        let skill = SkillPresentation::entry(
            "中文 👩‍💻 skill",
            &Some("**Read** these calendar notes and more".into()),
            &status,
        );
        for checked in [None, Some(false), Some(true)] {
            let state = SkillRenderState {
                checked,
                update_available: true,
                excerpt: Some("long excerpt with 中文 👩‍💻".into()),
                context: Some("name·description".into()),
                show_match_details: true,
                ..Default::default()
            };
            for columns in 0..100 {
                for lines in [
                    card(&skill, &look, columns, &state),
                    list(&skill, &look, columns, true, &state),
                    compact(&skill, &look, columns, true, &state),
                ] {
                    assert!(
                        lines.iter().all(|line| width(line) <= columns),
                        "columns={columns}, lines={lines:?}"
                    );
                }
            }
            let card = text(&card(&skill, &look, 80, &state)[0]);
            let compact = text(&compact(&skill, &look, 80, true, &state)[0]);
            assert_eq!(card[..card.find("中文").unwrap()].width(), look.marker_width);
            assert_eq!(
                compact[..compact.find("中文").unwrap()].width(),
                2 + look.marker_width
            );
            if checked.is_some() && broken {
                assert!(card.contains("! broken link"));
            }
        }
    }
}

#[test]
fn skills_are_named_and_told() {
    let mut record = calendar();
    assert_eq!(display_name(&record), "calendar");
    record.key = "repos/tools/agenda".into();
    record.name = Some("  ".into());
    assert_eq!(display_name(&record), "agenda");
    record.name = None;
    assert_eq!(display_name(&record), "agenda");
    assert_eq!(repository_badge(&record, Icons::Text), None);
    record.source_name = Some("tools".into());
    assert_eq!(repository_badge(&record, Icons::Text).as_deref(), Some("installed tools"));
    record.source = Some(Source::Archive { url: "https://example.org/a.zip".into() });
    record.source_name = None;
    assert_eq!(
        repository_badge(&record, Icons::Text).as_deref(),
        Some("installed Unregistered source")
    );
    record.source = Some(Source::Local { path: None });
    assert_eq!(repository_badge(&record, Icons::Text).as_deref(), Some("local"));
    assert_eq!(
        status_text(&SkillStatus::MissingBaseline, "x"),
        "repository · missing baseline"
    );
    assert_eq!(status_text(&SkillStatus::Renamed { to: "b".into() }, "x"), "renamed? → b");
    assert_eq!(status_text(&SkillStatus::Invalid { reason: "r".into() }, "x"), "invalid: r");
    assert_eq!(
        status_text(&SkillStatus::CorruptMeta { error: "e".into() }, "x"),
        "corrupt metadata: e"
    );
    assert_eq!(status_text(&SkillStatus::Modified, "modified"), "modified");
    let theme = Theme::default();
    let glyph = status_glyph(&SkillStatus::Missing, &theme);
    assert_eq!((glyph.content.as_str(), glyph.style), ("✗", theme.err()));
}

#[test]
fn a_missing_deployment_keeps_what_is_wrong() {
    let fine = SkillPresentation::managed(&calendar(), &healthy(), Icons::Text).not_deployed();
    assert_eq!(fine.marker, "◌");
    assert_eq!(fine.warning.as_deref(), Some("not deployed"));
    assert_eq!(fine.tone, Tone::Normal);
    let mut record = calendar();
    record.status = SkillStatus::Missing;
    let standing = Standing { label: "missing".into(), healthy: false };
    let lost = SkillPresentation::managed(&record, &standing, Icons::Text).not_deployed();
    assert_eq!(lost.marker, "✗");
    assert_eq!(lost.warning.as_deref(), Some("missing"));
    let foreign = SkillPresentation::entry(
        "x",
        &None,
        &Some(EntryState::Foreign { target: "/elsewhere".into() }),
    );
    assert_eq!(foreign.description, "links outside the root to /elsewhere");
    assert_eq!(foreign.warning.as_deref(), Some("foreign"));
}
