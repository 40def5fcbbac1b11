//! The record of the running application and the sequence that stops it.
//!
//! The host kills processes, asks whether they live and sleeps; the
//! functions here keep the record and decide what the host does next.

use crate::inspector::{AppInfo, RunningAppInfo};
use vstd::prelude::*;

verus! {

/// How long the death of a killed process is waited for, in milliseconds.
pub const KILL_CONFIRM_TIMEOUT_MS: u64 = 5000;

/// The pause between two looks at a killed process, in milliseconds.
pub const POLL_INTERVAL_MS: u64 = 100;

/// The application that is running.
#[derive(Debug)]
pub struct RunningProcess {
    /// The id of the process that was started.
    pub pid: u32,
    /// When it was started.
    pub launched_at: String,
    /// How it was started.
    pub descriptor: AppInfo,
    /// The address at which it can be reached, once known.
    pub detected_url: Option<String>,
}

/// The record of the one application that may be running.
#[derive(Debug)]
pub struct Supervisor {
    running: Option<RunningProcess>,
}

/// Why a stop request was refused.
#[derive(Debug, Clone, Copy, PartialEq, Eq, Structural)]
pub enum StopError {
    /// No application is running.
    NoRunningApp,
}

impl StopError {
    /// The message shown to the host.
    pub fn message(&self) -> (text: String)
        ensures
            text@ == "No running app to stop"@,
    {
        "No running app to stop".to_owned()
    }
}

impl Supervisor {
    /// The application on record, if any.
    pub closed spec fn running(&self) -> Option<RunningProcess> {
        self.running
    }

    /// A supervisor with no application on record.
    pub fn new() -> (s: Supervisor)
        ensures
            s.running() is None,
    {
        Supervisor { running: None }
    }

    /// The id of the process on record, if any.
    pub fn running_pid(&self) -> (pid: Option<u32>)
        ensures
            pid == match self.running() {
                Some(p) => Some(p.pid),
                None => None::<u32>,
            },
    {
        match &self.running {
            Some(p) => Some(p.pid),
            None => None,
        }
    }

    /// Puts a started application on record, in place of any that was
    /// there, and gives what the host is told of it.
    pub fn record_launch(
        &mut self,
        pid: u32,
        launched_at: String,
        descriptor: AppInfo,
        url: Option<String>,
    ) -> (info: RunningAppInfo)
        ensures
            final(self).running() matches Some(p) && p.pid == pid && p.launched_at == launched_at
                && p.descriptor == descriptor && p.detected_url == url,
            info.pid == pid,
            info.url == url,
    {
        let detected_url = match &url {
            Some(u) => Some(u.clone()),
            None => None,
        };
        self.running = Some(RunningProcess { pid, launched_at, descriptor, detected_url });
        RunningAppInfo { pid, url }
    }

    /// Attaches the address to the application on record. Nothing else of
    /// the record changes; without an application on record nothing changes.
    pub fn attach_url(&mut self, url: String) -> (attached: bool)
        ensures
            attached == old(self).running() is Some,
            match old(self).running() {
                Some(before) => final(self).running() matches Some(after) && after.pid
                    == before.pid && after.launched_at == before.launched_at && after.descriptor
                    == before.descriptor && after.detected_url == Some(url),
                None => final(self).running() is None,
            },
    {
        match self.running.take() {
            Some(p) => {
                self.running = Some(
                    RunningProcess {
                        pid: p.pid,
                        launched_at: p.launched_at,
                        descriptor: p.descriptor,
                        detected_url: Some(url),
                    },
                );
                true
            },
            None => false,
        }
    }

    /// Takes the application off the record to stop it: the id of the
    /// process to kill, or the refusal where none is on record. The record is
    /// empty afterwards, whatever becomes of the kill.
    pub fn begin_stop(&mut self) -> (r: Result<u32, StopError>)
        ensures
            (final(self).running(), r) == stop_request(old(self).running()),
    {
        match self.running.take() {
            Some(p) => Ok(p.pid),
            None => Err(StopError::NoRunningApp),
        }
    }

    /// Takes the application off the record when the host shuts down: the id
    /// of the process whose tree is to be killed, if there is one.
    pub fn shutdown(&mut self) -> (pid: Option<u32>)
        ensures
            final(self).running() is None,
            pid == match old(self).running() {
                Some(p) => Some(p.pid),
                None => None::<u32>,
            },
    {
        match self.running.take() {
            Some(p) => Some(p.pid),
            None => None,
        }
    }
}

/// What a stop request does to the record and what it answers: the record
/// is empty afterwards, and the answer is the id of the process that was on
/// it, or the refusal where none was.
pub open spec fn stop_request(running: Option<RunningProcess>) -> (
    Option<RunningProcess>,
    Result<u32, StopError>,
) {
    match running {
        Some(p) => (None, Ok(p.pid)),
        None => (None, Err(StopError::NoRunningApp)),
    }
}

/// A second stop request right after a first one is refused, because no
/// application is on record any more, and it leaves the record as it is.
pub proof fn lemma_second_stop_is_refused(running: Option<RunningProcess>)
    ensures
        stop_request(stop_request(running).0) == (
            None::<RunningProcess>,
            Err::<u32, StopError>(StopError::NoRunningApp),
        ),
{
}

/// How the stop of a process ended.
#[derive(Debug, Clone, Copy, PartialEq, Eq, Structural)]
pub enum StopOutcome {
    /// The process was seen dead.
    ConfirmedDead,
    /// The process still lived when the time was up. The stop counts as
    /// done all the same; the host logs a warning.
    StillAlive,
    /// The kill could not be made. The host reports the failure.
    KillFailed,
}

/// What the host does next to stop an application.
#[derive(Debug, Clone, Copy, PartialEq, Eq, Structural)]
pub enum StopAction {
    /// Kill the process `pid` and all its descendants.
    Kill { pid: u32 },
    /// Find out whether the process `pid` still lives.
    CheckAlive { pid: u32 },
    /// Wait for `millis` milliseconds.
    Sleep { millis: u64 },
    /// Nothing more: the stop is over.
    Finish(StopOutcome),
}

/// What the host reports back.
#[derive(Debug, Clone, Copy, PartialEq, Eq, Structural)]
pub enum StopEvent {
    /// The kill was made, or could not be made.
    KillDone { ok: bool },
    /// Whether the process lives, and the milliseconds since the kill.
    Liveness { alive: bool, elapsed_ms: u64 },
    /// The wait is over.
    Slept,
}

/// Where a stop sequence stands.
#[derive(Debug, Clone, Copy, PartialEq, Eq, Structural)]
pub enum StopPhase {
    /// The kill was asked for.
    Killing,
    /// A look at the process was asked for.
    Checking,
    /// A wait was asked for.
    Sleeping,
    /// The sequence is over.
    Over(StopOutcome),
}

/// The stop of one process: kill, then look until it is dead or the time is
/// up.
#[derive(Debug, Clone, Copy, PartialEq, Eq, Structural)]
pub struct StopSequence {
    pub pid: u32,
    pub phase: StopPhase,
}

/// The action that a sequence for `pid` in `phase` has asked for.
pub open spec fn awaited(pid: u32, phase: StopPhase) -> StopAction {
    match phase {
        StopPhase::Killing => StopAction::Kill { pid },
        StopPhase::Checking => StopAction::CheckAlive { pid },
        StopPhase::Sleeping => StopAction::Sleep { millis: POLL_INTERVAL_MS },
        StopPhase::Over(outcome) => StopAction::Finish(outcome),
    }
}

/// The phase that the stop of a process enters, from the phase it is in and
/// what the host reports. A failed kill ends the sequence. After the kill
/// the process is looked at; seen dead, the stop is over and confirmed. Seen
/// alive, the host waits and looks again while less than
/// `KILL_CONFIRM_TIMEOUT_MS` have passed since the kill; after that the stop
/// is over without confirmation. A report that does not answer what was
/// asked for changes nothing.
pub open spec fn next_phase(phase: StopPhase, event: StopEvent) -> StopPhase {
    match (phase, event) {
        (StopPhase::Killing, StopEvent::KillDone { ok }) => if ok {
            StopPhase::Checking
        } else {
            StopPhase::Over(StopOutcome::KillFailed)
        },
        (StopPhase::Checking, StopEvent::Liveness { alive, elapsed_ms }) => if !alive {
            StopPhase::Over(StopOutcome::ConfirmedDead)
        } else if elapsed_ms < KILL_CONFIRM_TIMEOUT_MS {
            StopPhase::Sleeping
        } else {
            StopPhase::Over(StopOutcome::StillAlive)
        },
        (StopPhase::Sleeping, StopEvent::Slept) => StopPhase::Checking,
        (_, _) => phase,
    }
}

impl StopSequence {
    /// Starts the stop of the process `pid`: the kill comes first.
    pub fn begin(pid: u32) -> (r: (StopSequence, StopAction))
        ensures
            r.0 == (StopSequence { pid, phase: StopPhase::Killing }),
            r.1 == awaited(pid, StopPhase::Killing),
    {
        (StopSequence { pid, phase: StopPhase::Killing }, StopAction::Kill { pid })
    }

    /// The action that the sequence has asked for.
    pub fn action(&self) -> (action: StopAction)
        ensures
            action == awaited(self.pid, self.phase),
    {
        match self.phase {
            StopPhase::Killing => StopAction::Kill { pid: self.pid },
            StopPhase::Checking => StopAction::CheckAlive { pid: self.pid },
            StopPhase::Sleeping => StopAction::Sleep { millis: POLL_INTERVAL_MS },
            StopPhase::Over(outcome) => StopAction::Finish(outcome),
        }
    }

    /// Takes the host's report and gives the next action.
    pub fn on_event(&mut self, event: StopEvent) -> (action: StopAction)
        ensures
            final(self).pid == old(self).pid,
            final(self).phase == next_phase(old(self).phase, event),
            action == awaited(final(self).pid, final(self).phase),
    {
        match self.phase {
            StopPhase::Killing => match event {
                StopEvent::KillDone { ok } => {
                    if ok {
                        self.phase = StopPhase::Checking;
                    } else {
                        self.phase = StopPhase::Over(StopOutcome::KillFailed);
                    }
                },
                _ => {},
            },
            StopPhase::Checking => match event {
                StopEvent::Liveness { alive, elapsed_ms } => {
                    if !alive {
                        self.phase = StopPhase::Over(StopOutcome::ConfirmedDead);
                    } else if elapsed_ms < KILL_CONFIRM_TIMEOUT_MS {
                        self.phase = StopPhase::Sleeping;
                    } else {
                        self.phase = StopPhase::Over(StopOutcome::StillAlive);
                    }
                },
                _ => {},
            },
            StopPhase::Sleeping => match event {
                StopEvent::Slept => {
                    self.phase = StopPhase::Checking;
                },
                _ => {},
            },
            StopPhase::Over(_) => {},
        }
        self.action()
    }
}

/// Whether a report answers what a sequence in `phase` has asked for.
pub open spec fn answers(phase: StopPhase, report: StopEvent) -> bool {
    match phase {
        StopPhase::Killing => report is KillDone,
        StopPhase::Checking => report is Liveness,
        StopPhase::Sleeping => report is Slept,
        StopPhase::Over(_) => true,
    }
}

/// The phase of a stop sequence that began in `phase` after the host made
/// the reports `reports` in order.
pub open spec fn phase_after(phase: StopPhase, reports: Seq<StopEvent>) -> StopPhase
    decreases reports.len(),
{
    if reports.len() == 0 {
        phase
    } else {
        next_phase(phase_after(phase, reports.drop_last()), reports.last())
    }
}

/// The number of waits among the reports.
pub open spec fn waits_in(reports: Seq<StopEvent>) -> nat
    decreases reports.len(),
{
    if reports.len() == 0 {
        0
    } else {
        waits_in(reports.drop_last()) + if reports.last() is Slept {
            1nat
        } else {
            0nat
        }
    }
}

/// Whether the host keeps to the sequence and its clock goes on: every
/// report answers what was asked for, and a look at the process reports at
/// least `POLL_INTERVAL_MS` since the kill for every wait before it.
#[verifier::opaque]
pub open spec fn host_keeps_time(reports: Seq<StopEvent>) -> bool {
    forall|i: int|
        0 <= i < reports.len() ==> answers(
            phase_after(StopPhase::Killing, reports.take(i)),
            #[trigger] reports[i],
        ) && (reports[i] matches StopEvent::Liveness { elapsed_ms, .. } ==> elapsed_ms
            >= POLL_INTERVAL_MS * waits_in(reports.take(i)))
}

/// The most reports that a stop sequence takes: the kill, and a look and a
/// wait for every interval of the time that the death is waited for, and
/// the last look.
pub open spec fn most_reports() -> nat {
    (2 + 2 * (KILL_CONFIRM_TIMEOUT_MS / POLL_INTERVAL_MS)) as nat
}

/// A host that keeps time over some reports kept time over the earlier
/// ones, and its last report answers what was asked for then.
proof fn lemma_earlier_reports(reports: Seq<StopEvent>)
    requires
        host_keeps_time(reports),
        reports.len() > 0,
    ensures
        host_keeps_time(reports.drop_last()),
        answers(phase_after(StopPhase::Killing, reports.drop_last()), reports.last()),
        reports.last() matches StopEvent::Liveness { elapsed_ms, .. } ==> elapsed_ms
            >= POLL_INTERVAL_MS * waits_in(reports.drop_last()),
{
    reveal(host_keeps_time);
    let n = reports.len() - 1;
    let earlier = reports.drop_last();
    assert(earlier =~= reports.take(n));
    assert(reports.last() == reports[n]);
    assert forall|i: int| 0 <= i < earlier.len() implies answers(
        phase_after(StopPhase::Killing, earlier.take(i)),
        #[trigger] earlier[i],
    ) && (earlier[i] matches StopEvent::Liveness { elapsed_ms, .. } ==> elapsed_ms
        >= POLL_INTERVAL_MS * waits_in(earlier.take(i))) by {
        assert(earlier.take(i) =~= reports.take(i));
        assert(earlier[i] == reports[i]);
    }
}

/// While a stop sequence is not over, the reports so far are the kill and
/// then looks and waits in turn, and a wait is asked for only while the
/// time is not up.
proof fn lemma_stop_progress(reports: Seq<StopEvent>)
    requires
        host_keeps_time(reports),
    ensures
        match phase_after(StopPhase::Killing, reports) {
            StopPhase::Killing => reports.len() == 0 && waits_in(reports) == 0,
            StopPhase::Checking => reports.len() == 1 + 2 * waits_in(reports) && (reports.len()
                > 1 ==> 100 * (waits_in(reports) - 1) < 5000),
            StopPhase::Sleeping => reports.len() == 2 + 2 * waits_in(reports) && 100 * waits_in(
                reports,
            ) < 5000,
            StopPhase::Over(_) => true,
        },
    decreases reports.len(),
{
    if reports.len() > 0 {
        lemma_earlier_reports(reports);
        lemma_stop_progress(reports.drop_last());
    }
}

/// A stop never blocks without end: with a host that keeps to the sequence
/// and whose clock goes on, the sequence is over after `most_reports`
/// reports at the latest.
pub proof fn lemma_stop_is_bounded(reports: Seq<StopEvent>)
    requires
        host_keeps_time(reports),
        reports.len() >= most_reports(),
    ensures
        phase_after(StopPhase::Killing, reports) is Over,
{
    lemma_stop_progress(reports);
    assert(most_reports() == 102);
}

/// A stop sequence that is over stays over with the same outcome, and once
/// the time is up a look at the process always ends the sequence: the host
/// is never made to wait after `KILL_CONFIRM_TIMEOUT_MS`.
pub proof fn lemma_stop_ends(phase: StopPhase, event: StopEvent)
    ensures
        phase is Over ==> next_phase(phase, event) == phase,
        (phase == StopPhase::Checking && (event matches StopEvent::Liveness { elapsed_ms, .. }
            && elapsed_ms >= KILL_CONFIRM_TIMEOUT_MS)) ==> next_phase(phase, event) is Over,
        (next_phase(phase, event) == StopPhase::Over(StopOutcome::ConfirmedDead) && !(phase
            is Over)) ==> (event matches StopEvent::Liveness { alive, .. } && !alive),
{
}

} // verus!
