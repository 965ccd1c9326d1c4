use skills_tui::model::{AutoSyncDisposition, Settings, Status};
use skills_tui::sync_coordinator::{
    probe_can_retry, probe_retry_delay, ProbeReason, SyncActivity, SyncCoordinator, PROBE_INTERVAL,
};

const NOW: u64 = 1_000_000;

fn status(enabled: bool, changes: &[&str], local: &str, remote: &str) -> Status {
    Status {
        settings: Settings {
            url: Some("remote".into()),
            branch: Some("main".into()),
            enabled,
        },
        changes: changes.iter().map(|value| (*value).into()).collect(),
        ahead: usize::from(local != remote),
        behind: usize::from(local != remote),
        remote_checked: true,
        local_revision: Some(local.into()),
        remote_revision: Some(remote.into()),
    }
}

fn probe(sync: &mut SyncCoordinator, reason: ProbeReason, status: Status) {
    let id = sync.request_probe(true, reason, NOW).unwrap().id;
    assert!(sync.finish_probe(id, Ok(status), NOW).accepted);
}

#[test]
fn startup_probe_schedules_any_work_that_needs_convergence() {
    for pending in [
        status(true, &["?? changed"], "base", "base"),
        status(true, &[], "local", "remote"),
    ] {
        let mut sync = SyncCoordinator::new(NOW);
        probe(&mut sync, ProbeReason::Startup, pending);
        assert!(sync.pending());
        assert!(sync.take_auto_sync(true).is_some());
    }

    let mut clean = SyncCoordinator::new(NOW);
    probe(
        &mut clean,
        ProbeReason::Startup,
        status(true, &[], "base", "base"),
    );
    assert!(!clean.pending());
}

#[test]
fn observed_external_changes_are_reprobed_and_synced() {
    let mut sync = SyncCoordinator::new(NOW);
    probe(
        &mut sync,
        ProbeReason::Startup,
        status(true, &[], "base", "base"),
    );
    sync.external_changed();
    assert!(sync.pending());
    assert!(sync.take_auto_sync(true).is_none());

    probe(
        &mut sync,
        ProbeReason::ObservedChange,
        status(true, &[" M skill"], "base", "base"),
    );
    assert!(sync.take_auto_sync(true).is_some());
}

#[test]
fn working_tree_change_during_automatic_sync_requeues_latest_input() {
    let mut sync = SyncCoordinator::new(NOW);
    probe(
        &mut sync,
        ProbeReason::Startup,
        status(true, &[" M first"], "base", "base"),
    );
    sync.take_auto_sync(true).unwrap();
    sync.finish_auto_sync(Err(AutoSyncDisposition::WorkingTreeChanged));
    assert!(sync.pending());
    assert!(sync.take_auto_sync(true).is_none());

    probe(
        &mut sync,
        ProbeReason::ObservedChange,
        status(true, &[" M first", "?? second"], "base", "base"),
    );
    assert!(sync.take_auto_sync(true).is_some());
}

#[test]
fn disabled_and_fatal_paused_states_still_accept_probes() {
    let mut sync = SyncCoordinator::new(NOW);
    probe(
        &mut sync,
        ProbeReason::Startup,
        status(false, &[], "local", "remote"),
    );
    assert!(!sync.pending());

    sync.library_changed();
    probe(
        &mut sync,
        ProbeReason::Mutation,
        status(true, &["?? changed"], "local", "remote"),
    );
    sync.take_auto_sync(true).unwrap();
    sync.finish_auto_sync(Err(AutoSyncDisposition::Fatal));
    probe(
        &mut sync,
        ProbeReason::AfterRun,
        status(true, &[], "backup", "remote"),
    );
    assert!(sync.probe.is_none());
    assert!(!sync.pending());
}

#[test]
fn fatal_failure_retries_only_after_the_sync_input_changes() {
    let mut sync = SyncCoordinator::new(NOW);
    probe(
        &mut sync,
        ProbeReason::Startup,
        status(true, &[], "base", "base"),
    );
    sync.library_changed();
    probe(
        &mut sync,
        ProbeReason::Mutation,
        status(true, &[" M skill"], "base", "base"),
    );
    sync.take_auto_sync(true).unwrap();
    sync.finish_auto_sync(Err(AutoSyncDisposition::Fatal));

    let failed = || status(true, &[], "backup", "remote");
    probe(&mut sync, ProbeReason::AfterRun, failed());
    probe(&mut sync, ProbeReason::Periodic, failed());
    assert!(!sync.pending());
    assert!(sync.take_auto_sync(true).is_none());

    probe(
        &mut sync,
        ProbeReason::Periodic,
        status(true, &[], "backup", "remote-2"),
    );
    assert!(sync.take_auto_sync(true).is_some());
}

#[test]
fn transient_failure_waits_for_a_normal_probe() {
    let mut sync = SyncCoordinator::new(NOW);
    probe(
        &mut sync,
        ProbeReason::Startup,
        status(true, &[], "base", "base"),
    );
    sync.library_changed();
    probe(
        &mut sync,
        ProbeReason::Mutation,
        status(true, &["?? changed"], "base", "base"),
    );
    sync.take_auto_sync(true).unwrap();
    sync.finish_auto_sync(Err(AutoSyncDisposition::Transient));

    probe(
        &mut sync,
        ProbeReason::AfterRun,
        status(true, &[], "backup", "base"),
    );
    assert!(sync.take_auto_sync(true).is_none());
    probe(
        &mut sync,
        ProbeReason::Periodic,
        status(true, &[], "backup", "base"),
    );
    assert!(sync.take_auto_sync(true).is_some());
}

#[test]
fn probe_backoff_is_independent_of_execution_state() {
    let mut sync = SyncCoordinator::new(NOW);
    let start = NOW;
    for expected_delay in [60_000, 2 * 60_000, 5 * 60_000, 15 * 60_000] {
        let id = sync
            .request_probe(true, ProbeReason::Periodic, NOW)
            .unwrap()
            .id;
        sync.finish_probe(id, Err("offline".to_string()), NOW);
        let remaining = sync.next_remote_probe.saturating_sub(NOW);
        assert!(remaining <= expected_delay);
        assert!(remaining >= expected_delay.saturating_sub(1_000));
        sync.next_remote_probe = start;
    }

    sync.start_manual_sync();
    assert!(sync.probe_due(NOW));
    sync.finish_manual_sync(false);
}

#[test]
fn mutation_during_automatic_publish_is_retained() {
    let mut sync = SyncCoordinator::new(NOW);
    probe(
        &mut sync,
        ProbeReason::Startup,
        status(true, &[], "base", "base"),
    );
    sync.library_changed();
    probe(
        &mut sync,
        ProbeReason::Mutation,
        status(true, &["?? first"], "base", "base"),
    );
    sync.take_auto_sync(true).unwrap();
    sync.start_publishing();
    sync.library_changed();
    sync.finish_auto_sync(Ok(()));
    assert!(sync.pending());
}

#[test]
fn probe_started_before_mutation_cannot_authorize_sync() {
    let mut sync = SyncCoordinator::new(NOW);
    let id = sync
        .request_probe(true, ProbeReason::Startup, NOW)
        .unwrap()
        .id;
    sync.library_changed();
    let outcome = sync.finish_probe(id, Ok(status(true, &[], "base", "base")), NOW);
    assert!(outcome.needs_validation);
    assert!(sync.take_auto_sync(true).is_none());

    probe(
        &mut sync,
        ProbeReason::Mutation,
        status(true, &["?? changed"], "base", "base"),
    );
    assert!(sync.take_auto_sync(true).is_some());
}

#[test]
fn unchanged_app_event_does_not_clear_fatal_pause() {
    let mut sync = SyncCoordinator::new(NOW);
    probe(
        &mut sync,
        ProbeReason::Startup,
        status(true, &[], "base", "base"),
    );
    sync.library_changed();
    probe(
        &mut sync,
        ProbeReason::Mutation,
        status(true, &[" M skill"], "base", "base"),
    );
    sync.take_auto_sync(true).unwrap();
    sync.finish_auto_sync(Err(AutoSyncDisposition::Fatal));
    let failed = || status(true, &[], "backup", "remote");
    probe(&mut sync, ProbeReason::AfterRun, failed());

    sync.library_changed();
    probe(&mut sync, ProbeReason::Mutation, failed());
    assert!(sync.take_auto_sync(true).is_none());
}

#[test]
fn failed_manual_sync_does_not_replay_an_existing_auto_intent() {
    let mut sync = SyncCoordinator::new(NOW);
    probe(
        &mut sync,
        ProbeReason::Startup,
        status(true, &[], "base", "base"),
    );
    sync.library_changed();
    probe(
        &mut sync,
        ProbeReason::Mutation,
        status(true, &["?? changed"], "base", "base"),
    );
    sync.start_manual_sync();
    sync.finish_manual_sync(false);
    assert!(sync.take_auto_sync(true).is_none());
}

#[test]
fn mutation_during_manual_publish_is_retained() {
    let mut sync = SyncCoordinator::new(NOW);
    probe(
        &mut sync,
        ProbeReason::Startup,
        status(true, &[], "base", "base"),
    );
    sync.start_manual_sync();
    sync.start_publishing();
    sync.library_changed();
    sync.finish_manual_sync(true);
    assert!(sync.pending());

    probe(
        &mut sync,
        ProbeReason::AfterRun,
        status(true, &["?? later"], "manual", "manual"),
    );
    assert!(sync.take_auto_sync(true).is_some());
}

#[test]
fn probes_do_not_overwrite_run_state() {
    let mut sync = SyncCoordinator::new(NOW);
    sync.start_manual_sync();
    assert!(sync
        .request_probe(true, ProbeReason::Periodic, NOW)
        .is_none());
    sync.start_publishing();
    let id = sync
        .request_probe(true, ProbeReason::Periodic, NOW)
        .unwrap()
        .id;
    sync.finish_probe(id, Ok(status(true, &[], "local", "remote")), NOW);
    assert!(sync.syncing());
    sync.finish_manual_sync(true);
    assert!(!sync.syncing());
}

#[test]
fn stale_probe_results_are_ignored() {
    let mut sync = SyncCoordinator::new(NOW);
    let current = sync
        .request_probe(true, ProbeReason::Manual, NOW)
        .unwrap()
        .id;
    assert!(
        !sync
            .finish_probe(
                current.wrapping_sub(1),
                Ok(status(true, &[], "old", "old")),
                NOW
            )
            .accepted
    );
    sync.finish_probe(current, Ok(status(true, &[], "new", "new")), NOW);
    assert_eq!(
        sync.status.as_ref().unwrap().local_revision.as_deref(),
        Some("new")
    );
}

#[test]
fn probe_delays_follow_the_schedule() {
    assert_eq!(probe_retry_delay(1), 60_000);
    assert_eq!(probe_retry_delay(2), 120_000);
    assert_eq!(probe_retry_delay(3), 300_000);
    assert_eq!(probe_retry_delay(4), 900_000);

    let mut sync = SyncCoordinator::new(NOW);
    assert!(sync.probe_due(NOW));
    let id = sync
        .request_probe(true, ProbeReason::Startup, NOW)
        .unwrap()
        .id;
    assert_eq!(sync.next_remote_probe, NOW + PROBE_INTERVAL);
    sync.finish_probe(id, Err("offline".to_string()), NOW);
    assert_eq!(sync.error.as_deref(), Some("offline"));
    assert!(!sync.probe_due(NOW + 59_999));
    assert!(sync.probe_due(NOW + 60_000));

    // A local probe does not move the remote schedule.
    let id = sync
        .request_probe(false, ProbeReason::Mutation, NOW + 10)
        .unwrap()
        .id;
    sync.finish_probe(id, Ok(status(true, &[], "base", "base")), NOW + 20);
    assert_eq!(sync.next_remote_probe, NOW + 60_000);
    assert_eq!(sync.probe_failures, 0);
    assert!(sync.error.is_none());
}

#[test]
fn only_regular_probes_can_retry() {
    for reason in [
        ProbeReason::Periodic,
        ProbeReason::Mutation,
        ProbeReason::ObservedChange,
    ] {
        assert!(probe_can_retry(reason));
    }
    for reason in [
        ProbeReason::Startup,
        ProbeReason::Manual,
        ProbeReason::AfterRun,
        ProbeReason::Configuration,
    ] {
        assert!(!probe_can_retry(reason));
    }
}

#[test]
fn presentation_names_every_activity() {
    let mut sync = SyncCoordinator::new(NOW);
    let shown = sync.presentation();
    assert_eq!(shown.activity, SyncActivity::NotConfigured);
    assert!(!shown.automatic);
    assert!(shown.detail.is_none());

    sync.set_status(status(true, &[], "base", "base"));
    assert_eq!(sync.presentation().activity, SyncActivity::Ready);
    assert!(sync.presentation().automatic);
    sync.set_status(status(false, &[], "local", "remote"));
    assert_eq!(sync.presentation().activity, SyncActivity::Waiting);
    assert!(!sync.presentation().automatic);
    sync.set_probing(true);
    assert_eq!(sync.presentation().activity, SyncActivity::Checking);
    sync.set_syncing(true);
    assert_eq!(sync.presentation().activity, SyncActivity::Syncing);
    sync.set_syncing(false);
    sync.set_probing(false);
    sync.library_changed();
    assert_eq!(sync.presentation().activity, SyncActivity::Waiting);

    probe(
        &mut sync,
        ProbeReason::Mutation,
        status(true, &["?? a"], "base", "base"),
    );
    let request = sync.take_auto_sync(true).unwrap();
    assert_eq!(request.expected_changes, vec!["?? a".to_string()]);
    sync.finish_auto_sync(Err(AutoSyncDisposition::Transient));
    assert_eq!(sync.presentation().activity, SyncActivity::Retrying);
    probe(
        &mut sync,
        ProbeReason::Periodic,
        status(true, &["?? a"], "base", "base"),
    );
    sync.take_auto_sync(true).unwrap();
    sync.finish_auto_sync(Err(AutoSyncDisposition::Fatal));
    assert_eq!(sync.presentation().activity, SyncActivity::Attention);
    sync.set_error(Some("broken".to_string()));
    assert_eq!(sync.presentation().detail.as_deref(), Some("broken"));
    sync.disable();
    assert!(!sync.pending());
}
