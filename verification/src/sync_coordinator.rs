//! When the library's backup is observed, and when it may be synchronised.
//!
//! The coordinator holds what was last observed and decides what may be done
//! next. It does neither the probing nor the synchronising: its owner does,
//! and reports back. Clock readings are milliseconds, passed in by the owner.

use crate::model::{AutoSyncDisposition, Status};
use crate::text::{clone_all, clone_optional, said, same_optional, same_texts, texts};
use vstd::prelude::*;

verus! {

/// Between two remote probes that succeed.
pub const PROBE_INTERVAL: u64 = 60_000;

/// How often the delay after a failed probe grows.
pub const PROBE_RETRY_STEPS: usize = 4;

/// The delay after the given number of failures in a row.
pub open spec fn spec_retry_delay(failures: int) -> int {
    if failures <= 1 {
        60_000
    } else if failures == 2 {
        120_000
    } else if failures == 3 {
        300_000
    } else {
        900_000
    }
}

/// The delay before the next probe, after `failures` failed ones in a row.
pub fn probe_retry_delay(failures: usize) -> (r: u64)
    ensures
        r == spec_retry_delay(failures as int),
        r <= 900_000,
{
    if failures <= 1 {
        60_000
    } else if failures == 2 {
        120_000
    } else if failures == 3 {
        300_000
    } else {
        900_000
    }
}

#[derive(Debug, Clone, Copy, PartialEq, Eq, Structural)]
pub enum ProbeReason {
    Startup,
    Periodic,
    Mutation,
    Manual,
    AfterRun,
    ObservedChange,
    Configuration,
}

#[derive(Debug, Clone, Copy, PartialEq, Eq, Structural)]
pub enum RunState {
    Idle,
    Reconciling { automatic: bool },
    Publishing { automatic: bool },
}

/// What a synchronisation would start from.
#[derive(Debug)]
pub struct Fingerprint {
    pub changes: Vec<String>,
    pub local_revision: Option<String>,
    pub remote_revision: Option<String>,
}

pub ghost struct FingerprintView {
    pub changes: Seq<Seq<char>>,
    pub local_revision: Option<Seq<char>>,
    pub remote_revision: Option<Seq<char>>,
}

/// What a synchronisation of `status` would start from.
pub open spec fn fingerprint_of(status: Status) -> FingerprintView {
    FingerprintView {
        changes: texts(status.changes@),
        local_revision: said(status.local_revision),
        remote_revision: said(status.remote_revision),
    }
}

impl View for Fingerprint {
    type V = FingerprintView;

    open spec fn view(&self) -> FingerprintView {
        FingerprintView {
            changes: texts(self.changes@),
            local_revision: said(self.local_revision),
            remote_revision: said(self.remote_revision),
        }
    }
}

impl Fingerprint {
    pub fn of(status: &Status) -> (r: Fingerprint)
        ensures
            r@ == fingerprint_of(*status),
    {
        Fingerprint {
            changes: clone_all(&status.changes),
            local_revision: clone_optional(&status.local_revision),
            remote_revision: clone_optional(&status.remote_revision),
        }
    }

    /// Whether `status` still has this fingerprint.
    pub fn matches(&self, status: &Status) -> (r: bool)
        ensures
            r == (self@ == fingerprint_of(*status)),
    {
        same_texts(&self.changes, &status.changes) && same_optional(
            &self.local_revision,
            &status.local_revision,
        ) && same_optional(&self.remote_revision, &status.remote_revision)
    }
}

/// Where automatic synchronisation stands.
#[derive(Debug)]
pub enum AutoState {
    Idle,
    NeedsProbe,
    Ready,
    RetryAfterProbe,
    PausedFatal(Option<Fingerprint>),
}

pub ghost enum AutoView {
    Idle,
    NeedsProbe,
    Ready,
    RetryAfterProbe,
    PausedFatal(Option<FingerprintView>),
}

impl View for AutoState {
    type V = AutoView;

    open spec fn view(&self) -> AutoView {
        match *self {
            AutoState::Idle => AutoView::Idle,
            AutoState::NeedsProbe => AutoView::NeedsProbe,
            AutoState::Ready => AutoView::Ready,
            AutoState::RetryAfterProbe => AutoView::RetryAfterProbe,
            AutoState::PausedFatal(None) => AutoView::PausedFatal(None),
            AutoState::PausedFatal(Some(f)) => AutoView::PausedFatal(Some(f@)),
        }
    }
}

#[derive(Debug, Clone, Copy, PartialEq, Eq, Structural)]
pub struct ActiveProbe {
    pub id: u64,
    pub remote: bool,
    pub reason: ProbeReason,
    pub library_generation: u64,
}

#[derive(Debug, Clone, Copy, PartialEq, Eq, Structural)]
pub struct ProbeRequest {
    pub id: u64,
}

#[derive(Debug, Clone, Copy, PartialEq, Eq, Structural)]
pub struct ProbeOutcome {
    pub accepted: bool,
    pub needs_validation: bool,
}

#[derive(Debug)]
pub struct AutoSyncRequest {
    pub expected_changes: Vec<String>,
}

#[derive(Debug, Clone, Copy, PartialEq, Eq, Structural)]
pub enum SyncActivity {
    NotConfigured,
    Ready,
    Waiting,
    Checking,
    Syncing,
    Retrying,
    Attention,
}

#[derive(Debug)]
pub struct SyncPresentation {
    pub activity: SyncActivity,
    pub automatic: bool,
    pub detail: Option<String>,
}

#[derive(Debug)]
pub struct SyncCoordinator {
    pub status: Option<Status>,
    pub error: Option<String>,
    pub probe: Option<ActiveProbe>,
    pub next_probe_id: u64,
    pub next_remote_probe: u64,
    pub probe_failures: usize,
    pub run: RunState,
    pub auto: AutoState,
    pub claimed_generation: Option<u64>,
    pub library_generation: u64,
}

pub ghost struct SyncView {
    pub status: Option<Status>,
    pub error: Option<String>,
    pub probe: Option<ActiveProbe>,
    pub next_probe_id: u64,
    pub next_remote_probe: u64,
    pub probe_failures: usize,
    pub run: RunState,
    pub auto: AutoView,
    pub claimed_generation: Option<u64>,
    pub library_generation: u64,
}

impl View for SyncCoordinator {
    type V = SyncView;

    open spec fn view(&self) -> SyncView {
        SyncView {
            status: self.status,
            error: self.error,
            probe: self.probe,
            next_probe_id: self.next_probe_id,
            next_remote_probe: self.next_remote_probe,
            probe_failures: self.probe_failures,
            run: self.run,
            auto: self.auto@,
            claimed_generation: self.claimed_generation,
            library_generation: self.library_generation,
        }
    }
}

/// The number after `n`, starting again at zero after the largest one.
pub open spec fn following(n: u64) -> u64 {
    if n == u64::MAX {
        0
    } else {
        (n + 1) as u64
    }
}

/// A synchronisation of `status` would have something to do.
pub open spec fn has_work(status: Status) -> bool {
    status.changes@.len() > 0 || status.ahead > 0 || status.behind > 0
}

/// Automatic synchronisation is switched on and knows where to go.
pub open spec fn automatic(status: Status) -> bool {
    status.settings.enabled && configured(status)
}

pub open spec fn configured(status: Status) -> bool {
    status.settings.url is Some && status.settings.branch is Some
}

/// A probe made for this reason may let a failed synchronisation try again.
pub open spec fn retries(reason: ProbeReason) -> bool {
    reason == ProbeReason::Periodic || reason == ProbeReason::Mutation || reason
        == ProbeReason::ObservedChange
}

/// Where automatic synchronisation stands once `status` has been observed.
pub open spec fn observed(auto: AutoView, status: Status, reason: ProbeReason) -> AutoView {
    let found = if has_work(status) {
        AutoView::Ready
    } else {
        AutoView::Idle
    };
    if !automatic(status) {
        AutoView::Idle
    } else {
        match auto {
            AutoView::RetryAfterProbe => if retries(reason) {
                found
            } else {
                auto
            },
            AutoView::PausedFatal(None) => AutoView::PausedFatal(Some(fingerprint_of(status))),
            AutoView::PausedFatal(Some(failed)) => if failed == fingerprint_of(status) {
                auto
            } else {
                found
            },
            _ => found,
        }
    }
}

impl SyncView {
    /// Failures are counted up to the last step of the delay.
    pub open spec fn valid(self) -> bool {
        self.probe_failures <= PROBE_RETRY_STEPS
    }

    pub open spec fn switching(self) -> bool {
        self.run is Reconciling
    }

    pub open spec fn syncing(self) -> bool {
        self.run !is Idle
    }

    /// A probe can start.
    pub open spec fn can_probe(self) -> bool {
        !self.switching() && self.probe is None
    }

    pub open spec fn request_probe(self, remote: bool, reason: ProbeReason, now: int) -> SyncView {
        if !self.can_probe() {
            self
        } else {
            let id = following(self.next_probe_id);
            SyncView {
                next_probe_id: id,
                probe: Some(
                    ActiveProbe { id, remote, reason, library_generation: self.library_generation },
                ),
                error: None,
                next_remote_probe: if remote {
                    (now + PROBE_INTERVAL) as u64
                } else {
                    self.next_remote_probe
                },
                ..self
            }
        }
    }

    /// The running probe is the one with this id.
    pub open spec fn awaits(self, id: u64) -> bool {
        self.probe is Some && self.probe->0.id == id
    }

    /// The library changed since the running probe started.
    pub open spec fn outdated(self) -> bool {
        self.probe is Some && self.probe->0.library_generation != self.library_generation
    }

    pub open spec fn finish_probe(
        self,
        id: u64,
        result: Result<Status, String>,
        now: int,
    ) -> SyncView {
        if !self.awaits(id) {
            self
        } else {
            match result {
                Ok(status) => SyncView {
                    probe: None,
                    probe_failures: 0,
                    next_remote_probe: if self.probe->0.remote {
                        (now + PROBE_INTERVAL) as u64
                    } else {
                        self.next_remote_probe
                    },
                    auto: if self.outdated() {
                        self.auto
                    } else {
                        observed(self.auto, status, self.probe->0.reason)
                    },
                    status: Some(status),
                    error: None,
                    ..self
                },
                Err(error) => {
                    let failures = if self.probe_failures < PROBE_RETRY_STEPS {
                        (self.probe_failures + 1) as usize
                    } else {
                        PROBE_RETRY_STEPS
                    };
                    SyncView {
                        probe: None,
                        probe_failures: failures,
                        next_remote_probe: (now + spec_retry_delay(failures as int)) as u64,
                        error: Some(error),
                        ..self
                    }
                },
            }
        }
    }

    pub open spec fn library_changed(self) -> SyncView {
        SyncView {
            library_generation: following(self.library_generation),
            auto: if self.auto is PausedFatal {
                self.auto
            } else {
                AutoView::NeedsProbe
            },
            ..self
        }
    }

    /// An automatic synchronisation may start.
    pub open spec fn can_auto_sync(self, safe: bool) -> bool {
        safe && self.run is Idle && self.auto is Ready && self.status is Some
            && self.status->0.settings.enabled
    }

    pub open spec fn take_auto_sync(self, safe: bool) -> SyncView {
        if self.can_auto_sync(safe) {
            SyncView {
                auto: AutoView::Idle,
                claimed_generation: Some(self.library_generation),
                run: RunState::Reconciling { automatic: true },
                ..self
            }
        } else {
            self
        }
    }

    pub open spec fn start_manual_sync(self) -> SyncView {
        SyncView {
            claimed_generation: Some(self.library_generation),
            run: RunState::Reconciling { automatic: false },
            ..self
        }
    }

    pub open spec fn start_publishing(self) -> SyncView {
        match self.run {
            RunState::Reconciling { automatic } => SyncView {
                run: RunState::Publishing { automatic },
                ..self
            },
            _ => self,
        }
    }

    /// The library changed since the running synchronisation claimed it.
    pub open spec fn changed_during_run(self) -> bool {
        self.claimed_generation is Some && self.claimed_generation->0 != self.library_generation
    }

    /// What is left to do automatically after a run that went well.
    pub open spec fn left_by_run(self) -> AutoView {
        if self.changed_during_run() {
            AutoView::NeedsProbe
        } else {
            AutoView::Idle
        }
    }

    pub open spec fn finish_manual_sync(self) -> SyncView {
        SyncView {
            run: RunState::Idle,
            claimed_generation: None,
            auto: self.left_by_run(),
            ..self
        }
    }

    pub open spec fn runs_automatically(self) -> bool {
        match self.run {
            RunState::Idle => false,
            RunState::Reconciling { automatic } => automatic,
            RunState::Publishing { automatic } => automatic,
        }
    }

    pub open spec fn finish_auto_sync(self, result: Result<(), AutoSyncDisposition>) -> SyncView {
        if !self.runs_automatically() {
            SyncView { run: RunState::Idle, ..self }
        } else {
            SyncView {
                run: RunState::Idle,
                claimed_generation: None,
                auto: match result {
                    Ok(_) => self.left_by_run(),
                    Err(AutoSyncDisposition::Transient) => AutoView::RetryAfterProbe,
                    Err(AutoSyncDisposition::WorkingTreeChanged) => AutoView::NeedsProbe,
                    Err(AutoSyncDisposition::Fatal) => AutoView::PausedFatal(None),
                },
                ..self
            }
        }
    }

    pub open spec fn disable(self) -> SyncView {
        SyncView { auto: AutoView::Idle, ..self }
    }

    pub open spec fn activity(self) -> SyncActivity {
        if !(self.status is Some && configured(self.status->0)) {
            SyncActivity::NotConfigured
        } else if self.syncing() {
            SyncActivity::Syncing
        } else if self.probe is Some {
            SyncActivity::Checking
        } else {
            match self.auto {
                AutoView::RetryAfterProbe => SyncActivity::Retrying,
                AutoView::PausedFatal(_) => SyncActivity::Attention,
                AutoView::NeedsProbe => SyncActivity::Waiting,
                AutoView::Ready => SyncActivity::Waiting,
                AutoView::Idle => if has_work(self.status->0) {
                    SyncActivity::Waiting
                } else {
                    SyncActivity::Ready
                },
            }
        }
    }

    /// Automatic work waits for a probe or for its turn.
    pub open spec fn pending(self) -> bool {
        self.auto is NeedsProbe || self.auto is Ready
    }
}

impl SyncCoordinator {
    /// A coordinator that has observed nothing yet; its first probe is due.
    pub fn new(now: u64) -> (r: SyncCoordinator)
        ensures
            r@ == (SyncView {
                status: None,
                error: None,
                probe: None,
                next_probe_id: 0,
                next_remote_probe: now,
                probe_failures: 0,
                run: RunState::Idle,
                auto: AutoView::Idle,
                claimed_generation: None,
                library_generation: 0,
            }),
            r@.valid(),
    {
        SyncCoordinator {
            status: None,
            error: None,
            probe: None,
            next_probe_id: 0,
            next_remote_probe: now,
            probe_failures: 0,
            run: RunState::Idle,
            auto: AutoState::Idle,
            claimed_generation: None,
            library_generation: 0,
        }
    }

    pub fn probing(&self) -> (r: bool)
        ensures
            r == (self@.probe is Some),
    {
        self.probe.is_some()
    }

    pub fn syncing(&self) -> (r: bool)
        ensures
            r == self@.syncing(),
    {
        !matches!(self.run, RunState::Idle)
    }

    /// The library on disk is being exchanged.
    pub fn switching(&self) -> (r: bool)
        ensures
            r == self@.switching(),
    {
        matches!(self.run, RunState::Reconciling { .. })
    }

    pub fn presentation(&self) -> (r: SyncPresentation)
        ensures
            r == (SyncPresentation {
                activity: self@.activity(),
                automatic: self@.status is Some && self@.status->0.settings.enabled,
                detail: self@.error,
            }),
    {
        let (is_configured, automatic, work) = match &self.status {
            Some(status) => (
                status.settings.url.is_some() && status.settings.branch.is_some(),
                status.settings.enabled,
                needs_sync(status),
            ),
            None => (false, false, false),
        };
        let activity = if !is_configured {
            SyncActivity::NotConfigured
        } else if self.syncing() {
            SyncActivity::Syncing
        } else if self.probe.is_some() {
            SyncActivity::Checking
        } else {
            match &self.auto {
                AutoState::RetryAfterProbe => SyncActivity::Retrying,
                AutoState::PausedFatal(_) => SyncActivity::Attention,
                AutoState::NeedsProbe => SyncActivity::Waiting,
                AutoState::Ready => SyncActivity::Waiting,
                AutoState::Idle => if work {
                    SyncActivity::Waiting
                } else {
                    SyncActivity::Ready
                },
            }
        };
        SyncPresentation { activity, automatic, detail: clone_optional(&self.error) }
    }

    pub fn pending(&self) -> (r: bool)
        ensures
            r == self@.pending(),
    {
        matches!(self.auto, AutoState::NeedsProbe) || matches!(self.auto, AutoState::Ready)
    }

    pub fn probe_due(&self, now: u64) -> (r: bool)
        ensures
            r == (self@.probe is None && now >= self@.next_remote_probe),
    {
        self.probe.is_none() && now >= self.next_remote_probe
    }

    /// Claims the next probe, unless one is running or the library is being exchanged.
    pub fn request_probe(&mut self, remote: bool, reason: ProbeReason, now: u64) -> (r: Option<
        ProbeRequest,
    >)
        requires
            now + PROBE_INTERVAL <= u64::MAX,
        ensures
            final(self)@ == old(self)@.request_probe(remote, reason, now as int),
            old(self)@.valid() ==> final(self)@.valid(),
            r == if old(self)@.can_probe() {
                Some(ProbeRequest { id: following(old(self)@.next_probe_id) })
            } else {
                None
            },
    {
        if self.switching() || self.probe.is_some() {
            return None;
        }
        self.next_probe_id = self.next_probe_id.wrapping_add(1);
        self.probe = Some(
            ActiveProbe {
                id: self.next_probe_id,
                remote,
                reason,
                library_generation: self.library_generation,
            },
        );
        self.error = None;
        if remote {
            self.next_remote_probe = now + PROBE_INTERVAL;
        }
        Some(ProbeRequest { id: self.next_probe_id })
    }

    /// Takes the result of the probe with this id. The result of any other probe is ignored.
    pub fn finish_probe(&mut self, id: u64, result: Result<Status, String>, now: u64) -> (r:
        ProbeOutcome)
        requires
            old(self)@.valid(),
            now + 900_000 <= u64::MAX,
        ensures
            final(self)@ == old(self)@.finish_probe(id, result, now as int),
            final(self)@.valid(),
            r == (ProbeOutcome {
                accepted: old(self)@.awaits(id),
                needs_validation: old(self)@.awaits(id) && old(self)@.outdated(),
            }),
    {
        let probe = match self.probe {
            Some(probe) => probe,
            None => {
                return ProbeOutcome { accepted: false, needs_validation: false };
            },
        };
        if probe.id != id {
            return ProbeOutcome { accepted: false, needs_validation: false };
        }
        self.probe = None;
        let needs_validation = probe.library_generation != self.library_generation;
        match result {
            Ok(status) => {
                self.probe_failures = 0;
                if probe.remote {
                    self.next_remote_probe = now + PROBE_INTERVAL;
                }
                if !needs_validation {
                    self.update_auto_state(&status, probe.reason);
                }
                self.status = Some(status);
                self.error = None;
            },
            Err(error) => {
                if self.probe_failures < PROBE_RETRY_STEPS {
                    self.probe_failures = self.probe_failures + 1;
                }
                self.next_remote_probe = now + probe_retry_delay(self.probe_failures);
                self.error = Some(error);
            },
        }
        ProbeOutcome { accepted: true, needs_validation }
    }

    fn update_auto_state(&mut self, status: &Status, reason: ProbeReason)
        ensures
            final(self)@ == (SyncView {
                auto: observed(old(self)@.auto, *status, reason),
                ..old(self)@
            }),
    {
        let enabled = status.settings.enabled && status.settings.url.is_some()
            && status.settings.branch.is_some();
        if !enabled {
            self.auto = AutoState::Idle;
            return;
        }
        let keep = match &self.auto {
            AutoState::RetryAfterProbe => !probe_can_retry(reason),
            AutoState::PausedFatal(Some(failed)) => failed.matches(status),
            _ => false,
        };
        if keep {
            return;
        }
        if matches!(self.auto, AutoState::PausedFatal(None)) {
            self.auto = AutoState::PausedFatal(Some(Fingerprint::of(status)));
        } else if needs_sync(status) {
            self.auto = AutoState::Ready;
        } else {
            self.auto = AutoState::Idle;
        }
    }

    /// The library was changed by this program.
    pub fn library_changed(&mut self)
        ensures
            final(self)@ == old(self)@.library_changed(),
    {
        self.library_generation = self.library_generation.wrapping_add(1);
        if !matches!(self.auto, AutoState::PausedFatal(_)) {
            self.auto = AutoState::NeedsProbe;
        }
    }

    /// The library was changed by someone else.
    pub fn external_changed(&mut self)
        ensures
            final(self)@ == old(self)@.library_changed(),
    {
        self.library_changed();
    }

    /// Claims an automatic synchronisation where one may start; `safe` says that nothing
    /// else stands in its way.
    pub fn take_auto_sync(&mut self, safe: bool) -> (r: Option<AutoSyncRequest>)
        ensures
            final(self)@ == old(self)@.take_auto_sync(safe),
            r is Some == old(self)@.can_auto_sync(safe),
            r is Some ==> r->0.expected_changes@ == old(self)@.status->0.changes@,
    {
        if !safe || self.syncing() || !matches!(self.auto, AutoState::Ready) {
            return None;
        }
        let expected_changes = match &self.status {
            Some(status) => {
                if !status.settings.enabled {
                    return None;
                }
                clone_all(&status.changes)
            },
            None => {
                return None;
            },
        };
        self.auto = AutoState::Idle;
        self.claimed_generation = Some(self.library_generation);
        self.run = RunState::Reconciling { automatic: true };
        Some(AutoSyncRequest { expected_changes })
    }

    pub fn start_manual_sync(&mut self)
        ensures
            final(self)@ == old(self)@.start_manual_sync(),
    {
        self.claimed_generation = Some(self.library_generation);
        self.run = RunState::Reconciling { automatic: false };
    }

    pub fn start_publishing(&mut self)
        ensures
            final(self)@ == old(self)@.start_publishing(),
    {
        if let RunState::Reconciling { automatic } = self.run {
            self.run = RunState::Publishing { automatic };
        }
    }

    /// Gives the claimed generation back; whether the library changed since.
    fn release_generation(&mut self) -> (r: bool)
        ensures
            final(self)@ == (SyncView { claimed_generation: None, ..old(self)@ }),
            r == old(self)@.changed_during_run(),
    {
        let changed = match self.claimed_generation {
            Some(generation) => generation != self.library_generation,
            None => false,
        };
        self.claimed_generation = None;
        changed
    }

    /// Ends a synchronisation asked for by hand, whether it went well or not.
    pub fn finish_manual_sync(&mut self, _success: bool)
        ensures
            final(self)@ == old(self)@.finish_manual_sync(),
    {
        self.run = RunState::Idle;
        self.auto = if self.release_generation() {
            AutoState::NeedsProbe
        } else {
            AutoState::Idle
        };
    }

    pub fn finish_auto_sync(&mut self, result: Result<(), AutoSyncDisposition>)
        ensures
            final(self)@ == old(self)@.finish_auto_sync(result),
    {
        let was_automatic = match self.run {
            RunState::Idle => false,
            RunState::Reconciling { automatic } => automatic,
            RunState::Publishing { automatic } => automatic,
        };
        self.run = RunState::Idle;
        if !was_automatic {
            return;
        }
        let changed_during_run = self.release_generation();
        self.auto = match result {
            Ok(_) => if changed_during_run {
                AutoState::NeedsProbe
            } else {
                AutoState::Idle
            },
            Err(AutoSyncDisposition::Transient) => AutoState::RetryAfterProbe,
            Err(AutoSyncDisposition::WorkingTreeChanged) => AutoState::NeedsProbe,
            Err(AutoSyncDisposition::Fatal) => AutoState::PausedFatal(None),
        };
    }

    pub fn disable(&mut self)
        ensures
            final(self)@ == old(self)@.disable(),
    {
        self.auto = AutoState::Idle;
    }

    /// Replaces what was observed, as if no probe was running.
    pub fn set_status(&mut self, status: Status)
        ensures
            final(self)@ == (SyncView { status: Some(status), probe: None, ..old(self)@ }),
    {
        self.status = Some(status);
        self.probe = None;
    }

    pub fn set_error(&mut self, error: Option<String>)
        ensures
            final(self)@ == (SyncView { error, ..old(self)@ }),
    {
        self.error = error;
    }

    /// Shows a probe as running, or none.
    pub fn set_probing(&mut self, probing: bool)
        ensures
            final(self)@ == (SyncView {
                probe: if probing {
                    Some(
                        ActiveProbe {
                            id: old(self)@.next_probe_id,
                            remote: true,
                            reason: ProbeReason::Manual,
                            library_generation: old(self)@.library_generation,
                        },
                    )
                } else {
                    None
                },
                ..old(self)@
            }),
    {
        self.probe = if probing {
            Some(
                ActiveProbe {
                    id: self.next_probe_id,
                    remote: true,
                    reason: ProbeReason::Manual,
                    library_generation: self.library_generation,
                },
            )
        } else {
            None
        };
    }

    /// Shows a synchronisation asked for by hand as running, or none.
    pub fn set_syncing(&mut self, syncing: bool)
        ensures
            final(self)@ == (SyncView {
                run: if syncing {
                    RunState::Reconciling { automatic: false }
                } else {
                    RunState::Idle
                },
                ..old(self)@
            }),
    {
        self.run = if syncing {
            RunState::Reconciling { automatic: false }
        } else {
            RunState::Idle
        };
    }
}

/// Whether a synchronisation of `status` would have something to do.
pub fn needs_sync(status: &Status) -> (r: bool)
    ensures
        r == has_work(*status),
        r == (status.changes@.len() > 0 || status.ahead > 0 || status.behind > 0),
{
    !status.changes.is_empty() || status.ahead > 0 || status.behind > 0
}

/// Whether a probe made for this reason may let a failed synchronisation try again.
pub fn probe_can_retry(reason: ProbeReason) -> (r: bool)
    ensures
        r == retries(reason),
        reason == ProbeReason::Startup || reason == ProbeReason::Manual || reason
            == ProbeReason::AfterRun || reason == ProbeReason::Configuration <==> !r,
{
    matches!(reason, ProbeReason::Periodic | ProbeReason::Mutation | ProbeReason::ObservedChange)
}

/// A result that belongs to another probe than the running one changes nothing.
pub proof fn lemma_stale_probe_is_ignored(
    sync: SyncView,
    id: u64,
    result: Result<Status, String>,
    now: int,
)
    requires
        !sync.awaits(id),
    ensures
        sync.finish_probe(id, result, now) == sync,
{
}

/// A probe that started before the library changed cannot let an automatic
/// synchronisation start, whatever it observed.
pub proof fn lemma_probe_before_change_cannot_authorize(
    sync: SyncView,
    remote: bool,
    reason: ProbeReason,
    result: Result<Status, String>,
    safe: bool,
    asked: int,
    answered: int,
)
    requires
        sync.can_probe(),
    ensures
        ({
            let id = following(sync.next_probe_id);
            let after = sync.request_probe(remote, reason, asked).library_changed().finish_probe(
                id,
                result,
                answered,
            );
            !after.can_auto_sync(safe)
        }),
{
}

/// The change is not forgotten either: unless automatic work is paused for good, it waits
/// for another probe, and that probe decides by what it observes.
pub proof fn lemma_change_is_probed_again(
    sync: SyncView,
    remote: bool,
    reason: ProbeReason,
    status: Status,
    now: int,
)
    requires
        sync.auto !is PausedFatal,
        sync.can_probe(),
        automatic(status),
    ensures
        ({
            let changed = sync.library_changed();
            let id = following(changed.next_probe_id);
            let after = changed.request_probe(remote, reason, now).finish_probe(
                id,
                Ok(status),
                now,
            );
            changed.pending() && (after.auto is Ready == has_work(status))
        }),
{
}

/// After a fatal failure the first observation is kept, and no later one that equals it
/// lets a synchronisation start, whatever it was made for.
pub proof fn lemma_fatal_pause_holds_for_the_same_input(
    sync: SyncView,
    failed: Status,
    seen: Status,
    first: ProbeReason,
    later: ProbeReason,
)
    requires
        sync.auto == AutoView::PausedFatal(None),
        automatic(failed),
        automatic(seen),
        fingerprint_of(failed) == fingerprint_of(seen),
    ensures
        observed(observed(sync.auto, failed, first), seen, later) == AutoView::PausedFatal(
            Some(fingerprint_of(failed)),
        ),
{
}

/// After a fatal failure an observation that differs from the one kept decides anew.
pub proof fn lemma_fatal_pause_ends_with_other_input(
    failed: FingerprintView,
    seen: Status,
    reason: ProbeReason,
)
    requires
        automatic(seen),
        fingerprint_of(seen) != failed,
    ensures
        observed(AutoView::PausedFatal(Some(failed)), seen, reason) == if has_work(seen) {
            AutoView::Ready
        } else {
            AutoView::Idle
        },
{
}

/// A change of the library never lifts a fatal pause.
pub proof fn lemma_change_keeps_fatal_pause(sync: SyncView)
    requires
        sync.auto is PausedFatal,
    ensures
        sync.library_changed().auto == sync.auto,
{
}

/// After a passing failure only the regular probes let a synchronisation start again.
pub proof fn lemma_passing_failure_waits(sync: SyncView, status: Status, reason: ProbeReason)
    requires
        sync.runs_automatically(),
        automatic(status),
        has_work(status),
    ensures
        ({
            let failed = sync.finish_auto_sync(Err(AutoSyncDisposition::Transient));
            observed(failed.auto, status, reason) is Ready <==> retries(reason)
        }),
{
}

/// The delay after failed probes grows and ends with the first success; neither depends on
/// what is being synchronised.
pub proof fn lemma_probe_backoff(sync: SyncView, id: u64, error: String, now: int)
    requires
        sync.valid(),
        sync.awaits(id),
        0 <= now,
        now + 900_000 <= u64::MAX,
    ensures
        ({
            let after = sync.finish_probe(id, Err(error), now);
            &&& after.valid()
            &&& after.probe is None
            &&& after.run == sync.run
            &&& after.auto == sync.auto
            &&& after.next_remote_probe == now + spec_retry_delay(after.probe_failures as int)
            &&& after.probe_failures == if sync.probe_failures == 4 {
                4
            } else {
                sync.probe_failures + 1
            }
            &&& spec_retry_delay(sync.probe_failures as int) <= spec_retry_delay(
                after.probe_failures as int,
            )
        }),
{
}

/// Something that happens to the coordinator.
pub ghost enum SyncEvent {
    Requested { remote: bool, reason: ProbeReason, now: int },
    Probed { id: u64, result: Result<Status, String>, now: int },
    LibraryChanged,
    AutoTaken { safe: bool },
    ManualStarted,
    Publishing,
    ManualFinished,
    AutoFinished { outcome: Result<(), AutoSyncDisposition> },
    Disabled,
}

impl SyncView {
    pub open spec fn after(self, event: SyncEvent) -> SyncView {
        match event {
            SyncEvent::Requested { remote, reason, now } => self.request_probe(remote, reason, now),
            SyncEvent::Probed { id, result, now } => self.finish_probe(id, result, now),
            SyncEvent::LibraryChanged => self.library_changed(),
            SyncEvent::AutoTaken { safe } => self.take_auto_sync(safe),
            SyncEvent::ManualStarted => self.start_manual_sync(),
            SyncEvent::Publishing => self.start_publishing(),
            SyncEvent::ManualFinished => self.finish_manual_sync(),
            SyncEvent::AutoFinished { outcome } => self.finish_auto_sync(outcome),
            SyncEvent::Disabled => self.disable(),
        }
    }

    /// The coordinator after several things happened to it.
    pub open spec fn after_all(self, events: Seq<SyncEvent>) -> SyncView
        decreases events.len(),
    {
        if events.len() == 0 {
            self
        } else {
            self.after_all(events.drop_last()).after(events.last())
        }
    }

    /// How many probes failed in a row at the end, among the results that were waited for.
    pub open spec fn failed_in_a_row(self, events: Seq<SyncEvent>) -> nat
        decreases events.len(),
    {
        if events.len() == 0 {
            0
        } else {
            let before = self.failed_in_a_row(events.drop_last());
            match events.last() {
                SyncEvent::Probed { id, result, .. } => if !self.after_all(
                    events.drop_last(),
                ).awaits(id) {
                    before
                } else if result is Ok {
                    0
                } else {
                    before + 1
                },
                _ => before,
            }
        }
    }
}

/// The coordinator counts the probes that failed in a row, up to four.
proof fn lemma_failures_are_counted(fresh: SyncView, events: Seq<SyncEvent>)
    requires
        fresh.probe_failures == 0,
    ensures
        fresh.after_all(events).probe_failures == if fresh.failed_in_a_row(events) < 4 {
            fresh.failed_in_a_row(events) as int
        } else {
            4
        },
    decreases events.len(),
{
    if events.len() > 0 {
        lemma_failures_are_counted(fresh, events.drop_last());
    }
}

/// The wait after the k-th probe in a row that fails is one minute, then two, then five, and
/// fifteen from the fourth on. It begins with one minute again after a success, and nothing
/// else that happens in between has a part in it, above all no synchronisation.
pub proof fn lemma_probe_waits(
    fresh: SyncView,
    events: Seq<SyncEvent>,
    id: u64,
    error: String,
    now: int,
)
    requires
        fresh.probe_failures == 0,
        fresh.after_all(events).awaits(id),
        0 <= now,
        now + 900_000 <= u64::MAX,
    ensures
        ({
            let failed = events.push(SyncEvent::Probed { id, result: Err(error), now });
            let k = fresh.failed_in_a_row(failed);
            &&& k == fresh.failed_in_a_row(events) + 1
            &&& fresh.after_all(failed).next_remote_probe == now + if k == 1 {
                60_000int
            } else if k == 2 {
                120_000int
            } else if k == 3 {
                300_000int
            } else {
                900_000int
            }
        }),
{
    let failed = events.push(SyncEvent::Probed { id, result: Err(error), now });
    assert(failed.drop_last() =~= events);
    lemma_failures_are_counted(fresh, events);
}

/// A probe that succeeds starts the row of failures again.
pub proof fn lemma_success_ends_the_row(
    fresh: SyncView,
    events: Seq<SyncEvent>,
    id: u64,
    status: Status,
    now: int,
)
    requires
        fresh.after_all(events).awaits(id),
    ensures
        fresh.failed_in_a_row(events.push(SyncEvent::Probed { id, result: Ok(status), now })) == 0,
{
    assert(events.push(SyncEvent::Probed { id, result: Ok(status), now }).drop_last() =~= events);
}

/// How many changes of the library are among these events.
pub open spec fn change_count(events: Seq<SyncEvent>) -> nat
    decreases events.len(),
{
    if events.len() == 0 {
        0
    } else if events.last() is LibraryChanged {
        change_count(events.drop_last()) + 1
    } else {
        change_count(events.drop_last())
    }
}

/// The `n`-th number after `g`, starting again at zero after the largest one.
pub open spec fn later(g: u64, n: nat) -> int {
    (g + n) % 0x1_0000_0000_0000_0000
}

/// Every change of the library counts, and nothing else does.
proof fn lemma_changes_are_counted(sync: SyncView, events: Seq<SyncEvent>)
    ensures
        sync.after_all(events).library_generation == later(
            sync.library_generation,
            change_count(events),
        ),
    decreases events.len(),
{
    if events.len() > 0 {
        lemma_changes_are_counted(sync, events.drop_last());
    }
}

/// A synchronisation neither starts nor ends.
pub open spec fn keeps_running(event: SyncEvent) -> bool {
    event !is ManualStarted && event !is ManualFinished && event !is AutoFinished
}

proof fn lemma_run_goes_on(sync: SyncView, events: Seq<SyncEvent>)
    requires
        sync.syncing(),
        forall|i: int| 0 <= i < events.len() ==> keeps_running(#[trigger] events[i]),
    ensures
        sync.after_all(events).syncing(),
        sync.after_all(events).claimed_generation == sync.claimed_generation,
        sync.after_all(events).runs_automatically() == sync.runs_automatically(),
    decreases events.len(),
{
    if events.len() > 0 {
        assert forall|i: int| 0 <= i < events.drop_last().len() implies keeps_running(
            #[trigger] events.drop_last()[i],
        ) by {
            assert(events.drop_last()[i] == events[i]);
        }
        lemma_run_goes_on(sync, events.drop_last());
        assert(keeps_running(events[events.len() - 1]));
    }
}

/// After a manual synchronisation something is pending exactly where the library changed while
/// it ran, however often it did and whatever else happened, a probe or a result of one: then it
/// waits for a probe. Automatic work that was ready before is gone, so that none starts. It
/// makes no difference whether the synchronisation went well.
pub proof fn lemma_manual_run_keeps_changes(sync: SyncView, events: Seq<SyncEvent>, safe: bool)
    requires
        forall|i: int| 0 <= i < events.len() ==> keeps_running(#[trigger] events[i]),
        change_count(events) <= u64::MAX,
    ensures
        ({
            let after = sync.start_manual_sync().after_all(events).finish_manual_sync();
            &&& !after.syncing()
            &&& after.pending() <==> change_count(events) > 0
            &&& change_count(events) == 0 ==> after.auto == AutoView::Idle
            &&& change_count(events) > 0 ==> after.auto == AutoView::NeedsProbe
            &&& !after.can_auto_sync(safe)
            &&& after.take_auto_sync(safe) == after
        }),
{
    let started = sync.start_manual_sync();
    lemma_run_goes_on(started, events);
    lemma_changes_are_counted(started, events);
}

/// The same holds of an automatic synchronisation that went well.
pub proof fn lemma_automatic_run_keeps_changes(
    sync: SyncView,
    events: Seq<SyncEvent>,
    safe: bool,
)
    requires
        sync.can_auto_sync(safe),
        forall|i: int| 0 <= i < events.len() ==> keeps_running(#[trigger] events[i]),
        change_count(events) <= u64::MAX,
    ensures
        ({
            let after = sync.take_auto_sync(safe).after_all(events).finish_auto_sync(Ok(()));
            &&& !after.syncing()
            &&& after.pending() <==> change_count(events) > 0
            &&& !after.can_auto_sync(safe)
        }),
{
    let started = sync.take_auto_sync(safe);
    lemma_run_goes_on(started, events);
    lemma_changes_are_counted(started, events);
}

/// A change of the library leaves everything as it is but the need for another probe, which
/// a fatal pause does not even feel; and no automatic synchronisation starts before that.
pub proof fn lemma_change_asks_for_a_probe(sync: SyncView, safe: bool)
    ensures
        ({
            let after = sync.library_changed();
            &&& after == (SyncView {
                library_generation: after.library_generation,
                auto: after.auto,
                ..sync
            })
            &&& after.auto == if sync.auto is PausedFatal {
                sync.auto
            } else {
                AutoView::NeedsProbe
            }
            &&& !after.can_auto_sync(safe)
            &&& after.take_auto_sync(safe) == after
        }),
{
}

/// The result of the probe with this number is not among the events.
pub open spec fn not_answered(event: SyncEvent, id: u64) -> bool {
    event matches SyncEvent::Probed { id: other, .. } ==> other != id
}

proof fn lemma_probe_stays(sync: SyncView, events: Seq<SyncEvent>)
    requires
        sync.probe is Some,
        forall|i: int|
            0 <= i < events.len() ==> not_answered(#[trigger] events[i], sync.probe->0.id),
    ensures
        sync.after_all(events).probe == sync.probe,
    decreases events.len(),
{
    if events.len() > 0 {
        assert forall|i: int| 0 <= i < events.drop_last().len() implies not_answered(
            #[trigger] events.drop_last()[i],
            sync.probe->0.id,
        ) by {
            assert(events.drop_last()[i] == events[i]);
        }
        lemma_probe_stays(sync, events.drop_last());
        assert(not_answered(events[events.len() - 1], sync.probe->0.id));
    }
}

/// A probe in whose time the library changed, once or more often, has to be made again when it
/// comes back, and by itself it lets nothing start.
pub proof fn lemma_changes_outdate_the_probe(
    sync: SyncView,
    remote: bool,
    reason: ProbeReason,
    asked: int,
    events: Seq<SyncEvent>,
)
    requires
        sync.can_probe(),
        0 < change_count(events) <= u64::MAX,
        forall|i: int|
            0 <= i < events.len() ==> not_answered(
                #[trigger] events[i],
                following(sync.next_probe_id),
            ),
    ensures
        ({
            let id = following(sync.next_probe_id);
            let after = sync.request_probe(remote, reason, asked).after_all(events);
            after.awaits(id) && after.outdated()
        }),
{
    let asked_for = sync.request_probe(remote, reason, asked);
    lemma_probe_stays(asked_for, events);
    lemma_changes_are_counted(asked_for, events);
}

/// Probes never touch the run in progress.
pub proof fn lemma_probes_keep_the_run(
    sync: SyncView,
    remote: bool,
    reason: ProbeReason,
    id: u64,
    result: Result<Status, String>,
    now: int,
)
    ensures
        sync.request_probe(remote, reason, now).run == sync.run,
        sync.finish_probe(id, result, now).run == sync.run,
        sync.request_probe(remote, reason, now).claimed_generation == sync.claimed_generation,
        sync.finish_probe(id, result, now).claimed_generation == sync.claimed_generation,
{
}

/// A change made while a synchronisation runs is not lost when the run ends well.
pub proof fn lemma_change_during_run_is_retained(sync: SyncView, safe: bool)
    ensures
        sync.start_manual_sync().start_publishing().library_changed().finish_manual_sync().pending(),
        sync.can_auto_sync(safe) ==> sync.take_auto_sync(
            safe,
        ).start_publishing().library_changed().finish_auto_sync(Ok(())).pending(),
{
}

/// A synchronisation asked for by hand leaves no automatic work behind where nothing
/// changed meanwhile.
pub proof fn lemma_manual_run_clears_automatic_work(sync: SyncView, safe: bool)
    ensures
        !sync.start_manual_sync().finish_manual_sync().can_auto_sync(safe),
        !sync.start_manual_sync().start_publishing().finish_manual_sync().can_auto_sync(safe),
{
}

/// No probe starts while the library is being exchanged, and one can once it is published.
pub proof fn lemma_no_probe_while_switching(
    sync: SyncView,
    remote: bool,
    reason: ProbeReason,
    now: int,
)
    requires
        sync.probe is None,
    ensures
        sync.start_manual_sync().request_probe(remote, reason, now) == sync.start_manual_sync(),
        sync.start_manual_sync().start_publishing().can_probe(),
{
}

/// Where synchronisation is not switched on, no observation lets one start.
pub proof fn lemma_disabled_never_starts(
    sync: SyncView,
    id: u64,
    status: Status,
    now: int,
    safe: bool,
)
    requires
        sync.awaits(id),
        !status.settings.enabled,
    ensures
        !sync.finish_probe(id, Ok(status), now).can_auto_sync(safe),
        !sync.disable().can_auto_sync(safe),
{
}

/// A started automatic run claims its turn: none starts a second time.
pub proof fn lemma_auto_sync_starts_once(sync: SyncView, safe: bool)
    ensures
        !sync.take_auto_sync(safe).can_auto_sync(safe),
{
}

// ---- what an observation leads to --------------------------------------------

/// The probe that is waited for found this, and the library is still what it was when the
/// probe started.
pub open spec fn sees(sync: SyncView, id: u64, reason: ProbeReason) -> bool {
    &&& sync.probe is Some
    &&& sync.probe->0.id == id
    &&& sync.probe->0.reason == reason
    &&& sync.probe->0.library_generation == sync.library_generation
}

/// Automatic work starts where there is anything to exchange: changes here that were not
/// committed, commits here that the backup lacks, or commits there that are missing here.
/// Where all of that is settled, nothing starts.
pub proof fn lemma_anything_to_exchange_is_exchanged(
    sync: SyncView,
    id: u64,
    reason: ProbeReason,
    status: Status,
    now: int,
)
    requires
        sees(sync, id, reason),
        sync.run is Idle,
        sync.auto is Idle || sync.auto is NeedsProbe || sync.auto is Ready,
        status.settings.enabled,
        status.settings.url is Some,
        status.settings.branch is Some,
    ensures
        ({
            let after = sync.finish_probe(id, Ok(status), now);
            let settled = status.changes@.len() == 0 && status.ahead == 0 && status.behind == 0;
            &&& settled ==> after.auto is Idle && !after.pending() && after.activity()
                == SyncActivity::Ready
            &&& !settled ==> after.auto is Ready && after.pending() && after.activity()
                == SyncActivity::Waiting
            &&& settled <==> after.take_auto_sync(true) == after
            &&& !settled <==> after.take_auto_sync(true).run == (RunState::Reconciling {
                automatic: true,
            })
        }),
{
}

/// Each of the three is enough by itself, whatever the others are.
pub proof fn lemma_each_side_counts(
    sync: SyncView,
    id: u64,
    reason: ProbeReason,
    status: Status,
    now: int,
)
    requires
        sees(sync, id, reason),
        sync.auto is Idle,
        status.settings.enabled,
        status.settings.url is Some,
        status.settings.branch is Some,
    ensures
        status.changes@.len() > 0 ==> sync.finish_probe(id, Ok(status), now).auto is Ready,
        status.ahead > 0 ==> sync.finish_probe(id, Ok(status), now).auto is Ready,
        status.behind > 0 ==> sync.finish_probe(id, Ok(status), now).auto is Ready,
        has_work(status) == (status.changes@.len() > 0 || status.ahead > 0 || status.behind > 0),
{
}

/// A backup that is switched off, or that lacks a remote or a branch, is never synchronised
/// automatically, whatever was planned before.
pub proof fn lemma_no_automatic_work_without_a_backup(
    sync: SyncView,
    id: u64,
    reason: ProbeReason,
    status: Status,
    now: int,
)
    requires
        sees(sync, id, reason),
        !status.settings.enabled || status.settings.url is None || status.settings.branch is None,
    ensures
        ({
            let after = sync.finish_probe(id, Ok(status), now);
            &&& after.auto is Idle
            &&& after.take_auto_sync(true) == after
            &&& status.settings.url is None || status.settings.branch is None ==> after.activity()
                == SyncActivity::NotConfigured
        }),
{
}

/// What an accepted probe found is what is known then, its failures are forgotten, and it
/// leaves what is running alone. The next look at the remote is a minute after the last.
pub proof fn lemma_an_observation_is_kept(sync: SyncView, id: u64, status: Status, now: int)
    requires
        sync.probe is Some,
        sync.probe->0.id == id,
        0 <= now <= u64::MAX - 60_000,
    ensures
        ({
            let after = sync.finish_probe(id, Ok(status), now);
            &&& after.status == Some(status)
            &&& after.error is None
            &&& after.probe is None
            &&& after.probe_failures == 0
            &&& after.run == sync.run
            &&& after.library_generation == sync.library_generation
            &&& after.claimed_generation == sync.claimed_generation
            &&& sync.probe->0.remote ==> after.next_remote_probe == now + 60_000
            &&& !sync.probe->0.remote ==> after.next_remote_probe == sync.next_remote_probe
        }),
{
}

/// A probe that fails keeps what was known. After one failure the next look waits a minute,
/// after two in a row two minutes, after three five, and after that a quarter of an hour.
pub proof fn lemma_a_failed_look_keeps_what_is_known(
    sync: SyncView,
    id: u64,
    error: String,
    now: int,
)
    requires
        sync.probe is Some,
        sync.probe->0.id == id,
        sync.valid(),
        0 <= now <= u64::MAX - 900_000,
    ensures
        ({
            let after = sync.finish_probe(id, Err(error), now);
            &&& after.status == sync.status
            &&& after.auto == sync.auto
            &&& after.run == sync.run
            &&& after.error == Some(error)
            &&& after.probe is None
            &&& sync.probe_failures == 0 ==> after.next_remote_probe == now + 60_000
            &&& sync.probe_failures == 1 ==> after.next_remote_probe == now + 120_000
            &&& sync.probe_failures == 2 ==> after.next_remote_probe == now + 300_000
            &&& sync.probe_failures >= 3 ==> after.next_remote_probe == now + 900_000
        }),
{
}

/// A probe starts unless one is running already or the library is being exchanged. Starting
/// one keeps what is known and what is planned, and its number is not the last one's.
pub proof fn lemma_a_probe_starts(sync: SyncView, remote: bool, reason: ProbeReason, now: int)
    requires
        0 <= now <= u64::MAX - 60_000,
    ensures
        ({
            let after = sync.request_probe(remote, reason, now);
            &&& sync.probe is Some || sync.run is Reconciling ==> after == sync
            &&& sync.probe is None && sync.run !is Reconciling ==> {
                &&& after.probe is Some
                &&& after.probe->0.id == after.next_probe_id
                &&& after.probe->0.id != sync.next_probe_id
                &&& after.probe->0.remote == remote
                &&& after.probe->0.reason == reason
                &&& after.probe->0.library_generation == sync.library_generation
                &&& after.error is None
                &&& remote ==> after.next_remote_probe == now + 60_000
                &&& !remote ==> after.next_remote_probe == sync.next_remote_probe
            }
            &&& after.status == sync.status
            &&& after.auto == sync.auto
            &&& after.run == sync.run
        }),
{
}

/// An automatic synchronisation starts only where nothing stands in its way, none is
/// running, a probe allowed it and the backup is switched on; then it has claimed the library
/// as it is, and the permission is used up.
pub proof fn lemma_what_an_automatic_start_needs(sync: SyncView, safe: bool)
    ensures
        ({
            let after = sync.take_auto_sync(safe);
            let starts = after.run == (RunState::Reconciling { automatic: true });
            &&& sync.run is Idle ==> (starts <==> safe && sync.auto is Ready && sync.status is Some
                && sync.status->0.settings.enabled)
            &&& sync.run !is Idle || !safe ==> after == sync
            &&& after != sync ==> {
                &&& starts
                &&& after.auto is Idle
                &&& after.claimed_generation == Some(sync.library_generation)
                &&& after.status == sync.status
            }
        }),
{
}

/// How a run that was started automatically goes on: one that went well leaves nothing to do,
/// unless the library changed meanwhile; one that failed for now waits for a probe; one that
/// found other files than it was started for is looked at again; one that cannot work is
/// paused.
pub proof fn lemma_how_a_run_ends(sync: SyncView, result: Result<(), AutoSyncDisposition>)
    requires
        sync.run == (RunState::Reconciling { automatic: true }) || sync.run == (
        RunState::Publishing { automatic: true }),
    ensures
        ({
            let after = sync.finish_auto_sync(result);
            let changed = sync.claimed_generation is Some && sync.claimed_generation->0
                != sync.library_generation;
            &&& after.run is Idle
            &&& after.claimed_generation is None
            &&& after.status == sync.status
            &&& after.probe == sync.probe
            &&& result is Ok && changed ==> after.auto is NeedsProbe
            &&& result is Ok && !changed ==> after.auto is Idle
            &&& result == Err::<(), AutoSyncDisposition>(AutoSyncDisposition::Transient)
                ==> after.auto is RetryAfterProbe
            &&& result == Err::<(), AutoSyncDisposition>(AutoSyncDisposition::WorkingTreeChanged)
                ==> after.auto is NeedsProbe
            &&& result == Err::<(), AutoSyncDisposition>(AutoSyncDisposition::Fatal)
                ==> after.auto == AutoView::PausedFatal(None)
        }),
{
}

/// The end of an automatic run does not touch the plans of one that was asked for by hand.
pub proof fn lemma_other_ends_change_no_plan(
    sync: SyncView,
    result: Result<(), AutoSyncDisposition>,
)
    requires
        sync.run is Idle || sync.run == (RunState::Reconciling { automatic: false }) || sync.run
            == (RunState::Publishing { automatic: false }),
    ensures
        sync.finish_auto_sync(result).auto == sync.auto,
        sync.finish_auto_sync(result).run is Idle,
        sync.finish_auto_sync(result).claimed_generation == sync.claimed_generation,
{
}

/// After a failure for now, work starts again with a regular look, one after a change here,
/// or one after a change that was noticed; any other look keeps waiting.
pub proof fn lemma_when_it_is_tried_again(
    sync: SyncView,
    id: u64,
    reason: ProbeReason,
    status: Status,
    now: int,
)
    requires
        sees(sync, id, reason),
        sync.auto is RetryAfterProbe,
        status.settings.enabled,
        status.settings.url is Some,
        status.settings.branch is Some,
    ensures
        ({
            let after = sync.finish_probe(id, Ok(status), now).auto;
            let settled = status.changes@.len() == 0 && status.ahead == 0 && status.behind == 0;
            match reason {
                ProbeReason::Periodic | ProbeReason::Mutation | ProbeReason::ObservedChange => {
                    &&& settled ==> after is Idle
                    &&& !settled ==> after is Ready
                },
                ProbeReason::Startup
                | ProbeReason::Manual
                | ProbeReason::AfterRun
                | ProbeReason::Configuration => after is RetryAfterProbe,
            }
        }),
{
}

/// A pause lasts as long as the changes and both revisions are what they were at the first
/// look after it; a difference in any of the three ends it, and then what there is to
/// exchange decides.
pub proof fn lemma_what_ends_a_pause(
    sync: SyncView,
    first: Status,
    seen: Status,
    id: u64,
    reason: ProbeReason,
    now: int,
)
    requires
        sees(sync, id, reason),
        sync.auto == observed(AutoView::PausedFatal(None), first, reason),
        first.settings.enabled,
        first.settings.url is Some,
        first.settings.branch is Some,
        seen.settings.enabled,
        seen.settings.url is Some,
        seen.settings.branch is Some,
    ensures
        ({
            let after = sync.finish_probe(id, Ok(seen), now).auto;
            let same = texts(first.changes@) == texts(seen.changes@) && said(first.local_revision)
                == said(seen.local_revision) && said(first.remote_revision) == said(
                seen.remote_revision,
            );
            let settled = seen.changes@.len() == 0 && seen.ahead == 0 && seen.behind == 0;
            &&& sync.auto is PausedFatal
            &&& same ==> after == sync.auto
            &&& !same && settled ==> after is Idle
            &&& !same && !settled ==> after is Ready
        }),
{
}

/// What is shown of a backup that is configured: a run before a look, a look before what is
/// planned, and without a plan whether everything is settled.
pub proof fn lemma_what_is_shown_of_the_backup(sync: SyncView)
    requires
        sync.status is Some,
        sync.status->0.settings.url is Some,
        sync.status->0.settings.branch is Some,
    ensures
        sync.run !is Idle <==> sync.activity() == SyncActivity::Syncing,
        sync.run is Idle && sync.probe is Some <==> sync.activity() == SyncActivity::Checking,
        sync.run is Idle && sync.probe is None && sync.auto is RetryAfterProbe <==> sync.activity()
            == SyncActivity::Retrying,
        sync.run is Idle && sync.probe is None && sync.auto is PausedFatal <==> sync.activity()
            == SyncActivity::Attention,
        sync.run is Idle && sync.probe is None && sync.auto is Idle && sync.status->0.changes@.len()
            == 0 && sync.status->0.ahead == 0 && sync.status->0.behind == 0 <==> sync.activity()
            == SyncActivity::Ready,
        sync.activity() != SyncActivity::NotConfigured,
{
}

/// The library may be changed while results are published, but not while it is exchanged.
/// Publishing follows the exchange only, and stays automatic or by hand as it began.
pub proof fn lemma_the_library_is_free_while_publishing(sync: SyncView)
    ensures
        sync.start_manual_sync().run == (RunState::Reconciling { automatic: false }),
        sync.start_manual_sync().switching(),
        sync.start_manual_sync().syncing(),
        sync.start_manual_sync().claimed_generation == Some(sync.library_generation),
        sync.start_manual_sync().auto == sync.auto,
        !sync.start_publishing().switching(),
        sync.start_publishing().syncing() == sync.syncing(),
        sync.start_publishing().runs_automatically() == sync.runs_automatically(),
        sync.run !is Reconciling ==> sync.start_publishing() == sync,
        sync.start_publishing().auto == sync.auto,
        sync.syncing() <==> sync.run !is Idle,
        sync.switching() <==> sync.run is Reconciling,
        sync.disable().auto is Idle,
        sync.disable().run == sync.run,
{
}

} // verus!
