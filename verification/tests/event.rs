use skills_tui::event::{
    batch_link_step, check_progress, links_refused, metadata_outcome, worker_failed, InputGate, LinkBatch,
    LinkFacts, LinkStep, Task, WriteFailure,
};
use skills_tui::model::{Intent, LinkAction, Mode, MutationScope, PlannedLink};
use skills_tui::sync_picker::Request;
use skills_tui::writes::{capitalize, check_new_tag, written, Written};
use skills_tui::model::Write;

fn link(skill: &str) -> PlannedLink {
    PlannedLink {
        action: LinkAction::Link {
            agent: "test".into(),
            skill: skill.into(),
            path: format!("/tmp/agent/{skill}"),
            target: format!("/tmp/skills/{skill}"),
        },
        summary: format!("link {skill}"),
    }
}

fn facts(path_is_link: bool, leads_to_skill: bool) -> LinkFacts {
    LinkFacts { parent_is_link: false, target_is_dir: true, path_is_link, leads_to_skill }
}

#[test]
fn batch_keeps_foreign_links_and_records_only_successful_targets() {
    let mut batch = LinkBatch::new(
        vec![link("alpha"), link("beta")],
        vec!["alpha".into(), "beta".into()],
    );
    // Nothing is in the way of the first.
    assert!(matches!(
        batch_link_step(&batch.actions[0].action, facts(false, false)),
        LinkStep::Create
    ));
    assert!(batch.progress().is_some());
    batch.finish_link(Ok(1));
    // A foreign link stands where the second goes: making it fails, and it is kept.
    assert!(matches!(
        batch_link_step(&batch.actions[1].action, facts(true, false)),
        LinkStep::Create
    ));
    batch.finish_link(Err("File exists".into()));
    assert!(batch.progress().is_none());
    assert_eq!(batch.completed.len(), 1);
    let intent = Intent::Links {
        added: vec![("alpha".into(), "test".into())],
        removed: vec![],
    };
    let outcome = batch.outcome("linked alpha".into(), Some(intent));
    assert_eq!(outcome.failed, vec!["beta"]);
    let Some(Intent::Links { added, removed }) = outcome.intent else {
        panic!("expected successful link history")
    };
    assert_eq!(added, vec![("alpha".to_string(), "test".to_string())]);
    assert!(removed.is_empty());
    assert_eq!(outcome.errors.len(), 1);
    let unlink = LinkAction::Unlink {
        agent: "test".into(),
        skill: "beta".into(),
        path: "/tmp/agent/beta".into(),
    };
    assert!(matches!(
        batch_link_step(&unlink, facts(true, false)),
        LinkStep::Refuse(_)
    ));
}

#[test]
fn links_are_made_only_between_real_directories() {
    let action = link("alpha").action;
    assert!(matches!(batch_link_step(&action, facts(true, true)), LinkStep::Keep));
    let through_link = LinkFacts { parent_is_link: true, ..facts(false, false) };
    assert!(matches!(batch_link_step(&action, through_link), LinkStep::Refuse(_)));
    let nowhere = LinkFacts { target_is_dir: false, ..facts(false, false) };
    let LinkStep::Refuse(text) = batch_link_step(&action, nowhere) else {
        panic!("refused")
    };
    assert_eq!(text, "Skill directory is no longer available: /tmp/skills/alpha");
    let mkdir = LinkAction::Mkdir { agent: "test".into(), path: "/tmp/agent".into() };
    assert!(matches!(batch_link_step(&mkdir, facts(false, false)), LinkStep::Apply));
    assert!(matches!(batch_link_step(&mkdir, facts(true, false)), LinkStep::Refuse(_)));
}

#[test]
fn a_skipped_link_fails_its_skill() {
    let skipped = PlannedLink {
        action: LinkAction::Skip {
            agent: "test".into(),
            skill: "alpha".into(),
            reason: "occupied".into(),
        },
        summary: "skip alpha".into(),
    };
    let mut batch = LinkBatch::new(vec![skipped], vec!["alpha".into()]);
    batch.finish_link(Ok(1));
    assert_eq!(batch.failed, ["alpha"]);
    assert_eq!(batch.errors, ["skip alpha: occupied"]);
    assert!(batch.completed.is_empty());
}

#[test]
fn writes_tell_what_came_of_them() {
    let done = metadata_outcome(
        MutationScope::Library,
        vec!["alpha".into()],
        Ok(("tagged".into(), Some(Intent::Stored(7)))),
    );
    assert_eq!(done.message, "tagged");
    assert!(done.failed.is_empty());
    assert_eq!(done.changed_scope, Some(MutationScope::Library));
    let failure = || WriteFailure { text: "disk full".into(), conflict: None };
    let failed = metadata_outcome(MutationScope::Library, vec!["alpha".into()], Err(failure()));
    assert_eq!(failed.failed, ["alpha"]);
    assert!(failed.errors.iter().any(|error| error.contains("disk full")));
    let refused = links_refused(
        WriteFailure { text: "busy".into(), conflict: Some(3) },
        vec!["alpha".into()],
    );
    assert_eq!(refused.conflict, Some(3));
    let stopped = worker_failed(vec!["alpha".into()]);
    assert_eq!(stopped.failed, ["alpha"]);
    assert_eq!(stopped.errors.len(), 1);
}

#[test]
fn input_stops_while_another_program_has_the_terminal() {
    let mut gate = InputGate::new();
    assert!(gate.may_read());
    assert!(!gate.parked());
    gate.hold();
    assert!(!gate.may_read());
    assert!(gate.parked());
    gate.release();
    assert!(gate.may_read());
}

#[test]
fn tasks_say_what_they_touch() {
    let sync = Task::Sync(Request { mode: Mode::Push, dry_run: false });
    assert!(sync.is_root_sync());
    assert!(sync.is_root_operation());
    assert!(!Task::Scan.is_root_operation());
    assert!(!Task::Scan.writes_library());
    assert!(Task::Install { reference: "owner/repo".into(), subpath: None }.writes_library());
    assert_eq!(Task::Scan.label(), None);
    assert_eq!(Task::Scan.opening(), None);
    assert!(Task::Prepare("alpha".into()).opening().is_some());
    assert_eq!(check_progress(0, 3, Some("alpha")), "0/3 complete · querying alpha…");
    assert_eq!(check_progress(1, 3, None), "1/3 complete");
    assert!(sync.label().is_some());
}

#[test]
fn writes_are_told_and_recorded() {
    let write = Write::RenameSkill { from: "a".into(), to: "b".into() };
    let (_, intent) = written(&write, Written { text: String::new(), count: 0, intent: None });
    assert!(matches!(
        intent,
        Some(Intent::Rename { from, to }) if from == "a" && to == "b"
    ));
    let known = vec!["dev".to_string()];
    assert_eq!(check_new_tag("fresh", &known), None);
    assert!(check_new_tag("dev", &known).is_some());
    assert_eq!(capitalize("undo"), "Undo");
    assert_eq!(capitalize("éa"), "Éa");
    assert_eq!(capitalize("ßx"), "SSx");
    assert_eq!(capitalize(""), "");
}
