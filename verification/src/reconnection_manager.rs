//! Decisions of the audio-device reconnection policy: up to three attempts,
//! five seconds apart, cancellable by the user, by a manual restart of the
//! recording or by a newer disconnect.
//!
//! The caller runs the timers, device enumeration and recording start; the
//! step function here says what to do next and what the job's outcome is.
//! Job bookkeeping guarantees that the cleanup of an old job never removes
//! a newer one.

use vstd::prelude::*;
use vstd::string::StringExecFns;

verus! {

/// Attempts made before giving up.
pub const MAX_RETRIES: u32 = 3;

/// Delay before each attempt, in milliseconds.
pub const RETRY_DELAY_MS: u64 = 5000;

/// Why a reconnection job was cancelled.  A reason can only be replaced by
/// one of higher priority: `NewJob` > `UserRequest` > `UserManualResume`.
#[derive(Debug, Clone, Copy, PartialEq, Eq, Structural)]
pub enum CancelReason {
    /// The user started recording again by hand.
    UserManualResume,
    /// The user cancelled the reconnection.
    UserRequest,
    /// A new disconnect started a new job.
    NewJob,
}

/// Priority of a cancellation reason.
pub open spec fn priority(r: CancelReason) -> nat {
    match r {
        CancelReason::UserManualResume => 1,
        CancelReason::UserRequest => 2,
        CancelReason::NewJob => 3,
    }
}

/// The recorded reason after `new_reason` is offered to `current`.
pub open spec fn prioritized(current: Option<CancelReason>, new_reason: CancelReason) -> Option<CancelReason> {
    match current {
        None => Some(new_reason),
        Some(existing) => if priority(new_reason) > priority(existing) {
            Some(new_reason)
        } else {
            Some(existing)
        },
    }
}

impl CancelReason {
    /// Priority of the reason (higher wins).
    pub fn priority(&self) -> (p: u8)
        ensures
            p == priority(*self),
    {
        match self {
            CancelReason::UserManualResume => 1,
            CancelReason::UserRequest => 2,
            CancelReason::NewJob => 3,
        }
    }
}

/// Offer a cancellation reason: it is recorded if none is recorded yet or
/// if it outranks the recorded one.
pub fn set_cancel_reason_priority(cancel_reason: &mut Option<CancelReason>, new_reason: CancelReason)
    ensures
        *final(cancel_reason) == prioritized(*old(cancel_reason), new_reason),
{
    match *cancel_reason {
        None => {
            *cancel_reason = Some(new_reason);
        },
        Some(existing) => {
            if new_reason.priority() > existing.priority() {
                *cancel_reason = Some(new_reason);
            }
        },
    }
}

/// The recorded reason never loses priority, ends up at least as strong as
/// any reason offered, and the order in which two reasons are offered does
/// not matter; a job replaced by a new one is recorded as `NewJob` whatever
/// reason it had.
pub proof fn lemma_cancel_reason_priority(current: Option<CancelReason>, a: CancelReason, b: CancelReason)
    ensures
        prioritized(current, a) is Some,
        priority(prioritized(current, a)->0) >= priority(a),
        current matches Some(c) ==> priority(prioritized(current, a)->0) >= priority(c),
        prioritized(prioritized(current, a), b) == prioritized(prioritized(current, b), a),
        prioritized(prioritized(current, a), a) == prioritized(current, a),
        prioritized(current, CancelReason::NewJob) == Some(CancelReason::NewJob),
{
}

/// Outcome of a reconnection job.
#[derive(Debug, Clone, PartialEq, Eq)]
pub enum ReconnectionResult {
    /// Recording restarted on the device.
    Success { device_id: String, attempts: u32 },
    /// Every attempt failed.
    Failed { device_id: String, attempts: u32, last_error: String },
    /// The job was cancelled during the given attempt.
    Cancelled { device_id: String, attempt: u32, reason: Option<CancelReason> },
}

/// Label of a cancellation reason in user notifications.
pub open spec fn reason_label(reason: Option<CancelReason>) -> Seq<char> {
    match reason {
        Some(CancelReason::UserRequest) => "user_cancel"@,
        Some(CancelReason::UserManualResume) => "user_manual_resume"@,
        Some(CancelReason::NewJob) => "new_disconnect_event"@,
        None => "unknown"@,
    }
}

/// Label of a cancellation reason in user notifications.
pub fn cancel_reason_label(reason: Option<CancelReason>) -> (s: &'static str)
    ensures
        s@ == reason_label(reason),
{
    match reason {
        Some(CancelReason::UserRequest) => "user_cancel",
        Some(CancelReason::UserManualResume) => "user_manual_resume",
        Some(CancelReason::NewJob) => "new_disconnect_event",
        None => "unknown",
    }
}

/// Name of the UI event that announces a job's outcome.
pub open spec fn result_event(r: ReconnectionResult) -> Seq<char> {
    match r {
        ReconnectionResult::Success { .. } => "device_reconnect_success"@,
        ReconnectionResult::Failed { .. } => "device_reconnect_failed"@,
        ReconnectionResult::Cancelled { .. } => "device_reconnect_cancelled"@,
    }
}

impl ReconnectionResult {
    /// Name of the UI event that announces this outcome.
    pub fn event_name(&self) -> (s: &'static str)
        ensures
            s@ == result_event(*self),
    {
        match self {
            ReconnectionResult::Success { .. } => "device_reconnect_success",
            ReconnectionResult::Failed { .. } => "device_reconnect_failed",
            ReconnectionResult::Cancelled { .. } => "device_reconnect_cancelled",
        }
    }
}

// ============================================================================
// Job bookkeeping
// ============================================================================

/// The job currently in charge of reconnecting.
#[derive(Debug, Clone, PartialEq, Eq)]
pub struct JobInfo {
    pub id: u64,
    pub device_id: String,
}

/// Abstract state of the manager.
pub struct ReconnectionManagerView {
    pub current_job: Option<JobInfo>,
    pub next_job_id: u64,
}

/// Reconnection job registry: at most one current job, with increasing ids.
pub struct ReconnectionManager {
    current_job: Option<JobInfo>,
    next_job_id: u64,
}

impl View for ReconnectionManager {
    type V = ReconnectionManagerView;

    closed spec fn view(&self) -> ReconnectionManagerView {
        ReconnectionManagerView { current_job: self.current_job, next_job_id: self.next_job_id }
    }
}

/// `id + 1` modulo 2^64, as an atomic counter advances.
pub open spec fn next_id(id: u64) -> u64 {
    if id == u64::MAX {
        0
    } else {
        (id + 1) as u64
    }
}

impl ReconnectionManager {
    /// No job running; the first job gets id 0.
    pub fn new() -> (m: Self)
        ensures
            m@.current_job is None,
            m@.next_job_id == 0,
    {
        ReconnectionManager { current_job: None, next_job_id: 0 }
    }

    /// Register a new job for `device_id`; it starts with no cancel reason.
    /// The job it replaces, if any, is returned so the caller can stop it,
    /// and that job's cancel reason `current_reason` is offered `NewJob`
    /// (which always wins); with no job running it is left alone.
    pub fn start_job(&mut self, device_id: String, current_reason: &mut Option<CancelReason>) -> (r: (u64, Option<JobInfo>))
        ensures
            r.0 == old(self)@.next_job_id,
            r.1 == old(self)@.current_job,
            final(self)@.current_job == Some(JobInfo { id: r.0, device_id }),
            final(self)@.next_job_id == next_id(old(self)@.next_job_id),
            old(self)@.current_job is Some ==> *final(current_reason) == prioritized(*old(current_reason), CancelReason::NewJob),
            old(self)@.current_job is Some ==> *final(current_reason) == Some(CancelReason::NewJob),
            old(self)@.current_job is None ==> *final(current_reason) == *old(current_reason),
    {
        if self.current_job.is_some() {
            set_cancel_reason_priority(current_reason, CancelReason::NewJob);
        }
        let previous = self.current_job.take();
        let job_id = self.next_job_id;
        self.next_job_id = if job_id == u64::MAX { 0 } else { job_id + 1 };
        self.current_job = Some(JobInfo { id: job_id, device_id });
        (job_id, previous)
    }

    /// Cancel the current job, if any; it is returned so the caller can stop
    /// it, and its cancel reason `current_reason` is offered `UserRequest`
    /// (kept when it is already `NewJob`).  With no job running nothing
    /// changes.
    pub fn cancel(&mut self, current_reason: &mut Option<CancelReason>) -> (r: Option<JobInfo>)
        ensures
            r == old(self)@.current_job,
            final(self)@.current_job is None,
            final(self)@.next_job_id == old(self)@.next_job_id,
            old(self)@.current_job is Some ==> *final(current_reason) == prioritized(*old(current_reason), CancelReason::UserRequest),
            old(self)@.current_job is None ==> *final(current_reason) == *old(current_reason),
    {
        if self.current_job.is_some() {
            set_cancel_reason_priority(current_reason, CancelReason::UserRequest);
        }
        self.current_job.take()
    }

    /// Whether a job is running.
    pub fn is_reconnecting(&self) -> (b: bool)
        ensures
            b == self@.current_job is Some,
    {
        self.current_job.is_some()
    }

    /// Id of the running job.
    pub fn current_job_id(&self) -> (r: Option<u64>)
        ensures
            r == (match self@.current_job {
                Some(j) => Some(j.id),
                None => None::<u64>,
            }),
    {
        match &self.current_job {
            Some(j) => Some(j.id),
            None => None,
        }
    }

    /// Cleanup when job `job_id` ends: the current job is cleared only if it
    /// is that job.  Returns whether it was.
    pub fn finish_job(&mut self, job_id: u64) -> (cleared: bool)
        ensures
            cleared == (old(self)@.current_job matches Some(j) && j.id == job_id),
            cleared ==> final(self)@.current_job is None,
            !cleared ==> final(self)@.current_job == old(self)@.current_job,
            final(self)@.next_job_id == old(self)@.next_job_id,
    {
        let matches = match &self.current_job {
            Some(j) => j.id == job_id,
            None => false,
        };
        if matches {
            self.current_job = None;
        }
        matches
    }
}

/// The id the counter hands out `k` jobs after handing out `id` (cancelling
/// or finishing a job leaves the counter as it is).
pub open spec fn nth_next_id(id: u64, k: nat) -> u64
    decreases k,
{
    if k == 0 {
        id
    } else {
        next_id(nth_next_id(id, (k - 1) as nat))
    }
}

/// Job ids grow: the job started `k` starts after a job with id `id` gets
/// id `id + k`, larger than every earlier id, as long as the 64-bit counter
/// has not wrapped around.
pub proof fn lemma_job_ids_increase(id: u64, k: nat)
    requires
        id + k <= u64::MAX,
    ensures
        nth_next_id(id, k) == id + k,
    decreases k,
{
    if k > 0 {
        lemma_job_ids_increase(id, (k - 1) as nat);
    }
}

/// Cleanup of a replaced job leaves the job that replaced it in place.
pub proof fn lemma_old_job_cleanup_keeps_new_job(m: ReconnectionManagerView, old_id: u64, new_id: u64, device_id: String)
    requires
        m.current_job == Some(JobInfo { id: new_id, device_id }),
        old_id != new_id,
    ensures
        !(m.current_job matches Some(j) && j.id == old_id),
{
}

// ============================================================================
// The reconnection task
// ============================================================================

/// Where an attempt stands.
#[derive(Debug, Clone, Copy, PartialEq, Eq, Structural)]
pub enum ReconnectPhase {
    /// Checking the cancel flag and whether recording was resumed by hand.
    CheckingFlags,
    /// Waiting the retry delay while watching for cancellation.
    Waiting,
    /// Checking that the device is enumerated again.
    CheckingDevice,
    /// Trying to start recording on the device.
    Starting,
    /// The job has an outcome.
    Done,
}

/// What the caller observed while carrying out the last action.
#[derive(Debug, Clone, PartialEq, Eq)]
pub enum ReconnectEvent {
    /// Result of `CheckFlags`: the cancel flag, whether recording is on, and
    /// the cancellation reason recorded so far.
    Flags { cancel_flag: bool, user_recording: bool, pending_reason: Option<CancelReason> },
    /// Result of `Wait`: whether the wait was cut short, whether the cancel
    /// flag is set, and the reason recorded so far.
    WaitEnded { interrupted: bool, cancel_flag: bool, pending_reason: Option<CancelReason> },
    /// Result of `ProbeDevice`.
    DeviceProbe { exists: bool },
    /// Result of `StartRecording`: `None` on success, else the error.
    StartResult { error: Option<String> },
}

/// What the caller must do next.
#[derive(Debug, Clone, PartialEq, Eq)]
pub enum ReconnectAction {
    /// Publish the attempt number, then report the flags.
    CheckFlags { attempt: u32 },
    /// Wait the retry delay, watching the cancel flag and recording state.
    Wait,
    /// Check whether the device is enumerated.
    ProbeDevice,
    /// Try to start recording on the device.
    StartRecording,
    /// The job is over with this result (the caller clears the recorded
    /// reason when the result is a cancellation).
    Finish { result: ReconnectionResult },
}

/// State of one reconnection task.
pub struct ReconnectTask {
    pub device_id: String,
    pub attempt: u32,
    pub phase: ReconnectPhase,
}

/// The event kinds a phase expects.
pub open spec fn accepts(phase: ReconnectPhase, e: ReconnectEvent) -> bool {
    match phase {
        ReconnectPhase::CheckingFlags => e is Flags,
        ReconnectPhase::Waiting => e is WaitEnded,
        ReconnectPhase::CheckingDevice => e is DeviceProbe,
        ReconnectPhase::Starting => e is StartResult,
        ReconnectPhase::Done => false,
    }
}

/// Steps left before the task is done, at most.
pub open spec fn steps_left(attempt: u32, phase: ReconnectPhase) -> int {
    let rank = match phase {
        ReconnectPhase::CheckingFlags => 4int,
        ReconnectPhase::Waiting => 3,
        ReconnectPhase::CheckingDevice => 2,
        ReconnectPhase::Starting => 1,
        ReconnectPhase::Done => 0,
    };
    if phase == ReconnectPhase::Done {
        0
    } else {
        (MAX_RETRIES - attempt) * 4 + rank
    }
}

impl ReconnectTask {
    /// A task for `device_id`, about to begin attempt 1.  Its first action
    /// is `CheckFlags { attempt: 1 }`.
    pub fn new(device_id: String) -> (t: Self)
        ensures
            t.device_id == device_id,
            t.attempt == 1,
            t.phase == ReconnectPhase::CheckingFlags,
    {
        ReconnectTask { device_id, attempt: 1, phase: ReconnectPhase::CheckingFlags }
    }

    /// The action that starts the task.
    pub fn first_action(&self) -> (a: ReconnectAction)
        ensures
            a == (ReconnectAction::CheckFlags { attempt: self.attempt }),
    {
        ReconnectAction::CheckFlags { attempt: self.attempt }
    }

    fn cancelled(&mut self, reason: Option<CancelReason>) -> (a: ReconnectAction)
        ensures
            final(self).device_id == old(self).device_id,
            final(self).attempt == old(self).attempt,
            final(self).phase == ReconnectPhase::Done,
            a == (ReconnectAction::Finish {
                result: ReconnectionResult::Cancelled { device_id: old(self).device_id, attempt: old(self).attempt, reason },
            }),
    {
        self.phase = ReconnectPhase::Done;
        ReconnectAction::Finish {
            result: ReconnectionResult::Cancelled { device_id: self.device_id.clone(), attempt: self.attempt, reason },
        }
    }

    fn retry_or_fail(&mut self, last_error: String) -> (a: ReconnectAction)
        requires
            1 <= old(self).attempt <= MAX_RETRIES,
        ensures
            final(self).device_id == old(self).device_id,
            old(self).attempt < MAX_RETRIES ==> final(self).attempt == old(self).attempt + 1
                && final(self).phase == ReconnectPhase::CheckingFlags
                && a == (ReconnectAction::CheckFlags { attempt: final(self).attempt }),
            old(self).attempt == MAX_RETRIES ==> final(self).attempt == old(self).attempt
                && final(self).phase == ReconnectPhase::Done
                && a == (ReconnectAction::Finish {
                    result: ReconnectionResult::Failed { device_id: old(self).device_id, attempts: MAX_RETRIES, last_error },
                }),
    {
        if self.attempt < MAX_RETRIES {
            self.attempt = self.attempt + 1;
            self.phase = ReconnectPhase::CheckingFlags;
            ReconnectAction::CheckFlags { attempt: self.attempt }
        } else {
            self.phase = ReconnectPhase::Done;
            ReconnectAction::Finish {
                result: ReconnectionResult::Failed { device_id: self.device_id.clone(), attempts: MAX_RETRIES, last_error },
            }
        }
    }

    /// Advance the task with what the caller observed.
    ///
    /// * Flags: a set cancel flag finishes as cancelled with the recorded
    ///   reason; recording resumed by hand finishes as cancelled with
    ///   `UserManualResume` offered to the recorded reason; otherwise wait.
    /// * Wait cut short: cancelled, with the recorded reason if the cancel
    ///   flag is set, else with `UserManualResume` offered to it; a full wait
    ///   leads to the device check.
    /// * Device missing, or start failed: next attempt, or after the third
    ///   attempt `Failed` with 3 attempts and the last error.
    /// * Start succeeded: `Success` with the number of the attempt.
    pub fn step(&mut self, event: ReconnectEvent) -> (a: ReconnectAction)
        requires
            1 <= old(self).attempt <= MAX_RETRIES,
            accepts(old(self).phase, event),
        ensures
            1 <= final(self).attempt <= MAX_RETRIES,
            final(self).device_id == old(self).device_id,
            steps_left(final(self).attempt, final(self).phase) < steps_left(old(self).attempt, old(self).phase),
            (a is Finish) <==> final(self).phase == ReconnectPhase::Done,
            a matches ReconnectAction::CheckFlags { attempt } ==> attempt == final(self).attempt,
            match event {
                ReconnectEvent::Flags { cancel_flag, user_recording, pending_reason } => if cancel_flag {
                    a == (ReconnectAction::Finish {
                        result: ReconnectionResult::Cancelled { device_id: old(self).device_id, attempt: old(self).attempt, reason: pending_reason },
                    })
                } else if user_recording {
                    a == (ReconnectAction::Finish {
                        result: ReconnectionResult::Cancelled {
                            device_id: old(self).device_id,
                            attempt: old(self).attempt,
                            reason: prioritized(pending_reason, CancelReason::UserManualResume),
                        },
                    })
                } else {
                    a == ReconnectAction::Wait && final(self).phase == ReconnectPhase::Waiting && final(self).attempt == old(self).attempt
                },
                ReconnectEvent::WaitEnded { interrupted, cancel_flag, pending_reason } => if interrupted {
                    a == (ReconnectAction::Finish {
                        result: ReconnectionResult::Cancelled {
                            device_id: old(self).device_id,
                            attempt: old(self).attempt,
                            reason: if cancel_flag {
                                pending_reason
                            } else {
                                prioritized(pending_reason, CancelReason::UserManualResume)
                            },
                        },
                    })
                } else {
                    a == ReconnectAction::ProbeDevice && final(self).phase == ReconnectPhase::CheckingDevice && final(self).attempt == old(self).attempt
                },
                ReconnectEvent::DeviceProbe { exists } => if exists {
                    a == ReconnectAction::StartRecording && final(self).phase == ReconnectPhase::Starting && final(self).attempt == old(self).attempt
                } else if old(self).attempt < MAX_RETRIES {
                    a == (ReconnectAction::CheckFlags { attempt: (old(self).attempt + 1) as u32 })
                } else {
                    (a matches ReconnectAction::Finish { result: ReconnectionResult::Failed { device_id, attempts, last_error } }
                        && device_id == old(self).device_id && attempts == MAX_RETRIES
                        && last_error@ == "Device not available after all retries"@)
                },
                ReconnectEvent::StartResult { error } => match error {
                    None => a == (ReconnectAction::Finish {
                        result: ReconnectionResult::Success { device_id: old(self).device_id, attempts: old(self).attempt },
                    }),
                    Some(e) => if old(self).attempt < MAX_RETRIES {
                        a == (ReconnectAction::CheckFlags { attempt: (old(self).attempt + 1) as u32 })
                    } else {
                        a == (ReconnectAction::Finish {
                            result: ReconnectionResult::Failed { device_id: old(self).device_id, attempts: MAX_RETRIES, last_error: e },
                        })
                    },
                },
            },
    {
        match event {
            ReconnectEvent::Flags { cancel_flag, user_recording, pending_reason } => {
                if cancel_flag {
                    self.cancelled(pending_reason)
                } else if user_recording {
                    let mut reason = pending_reason;
                    set_cancel_reason_priority(&mut reason, CancelReason::UserManualResume);
                    self.cancelled(reason)
                } else {
                    self.phase = ReconnectPhase::Waiting;
                    ReconnectAction::Wait
                }
            },
            ReconnectEvent::WaitEnded { interrupted, cancel_flag, pending_reason } => {
                if interrupted {
                    let mut reason = pending_reason;
                    if !cancel_flag {
                        set_cancel_reason_priority(&mut reason, CancelReason::UserManualResume);
                    }
                    self.cancelled(reason)
                } else {
                    self.phase = ReconnectPhase::CheckingDevice;
                    ReconnectAction::ProbeDevice
                }
            },
            ReconnectEvent::DeviceProbe { exists } => {
                if exists {
                    self.phase = ReconnectPhase::Starting;
                    ReconnectAction::StartRecording
                } else {
                    self.retry_or_fail(String::from_str("Device not available after all retries"))
                }
            },
            ReconnectEvent::StartResult { error } => {
                match error {
                    None => {
                        self.phase = ReconnectPhase::Done;
                        ReconnectAction::Finish {
                            result: ReconnectionResult::Success { device_id: self.device_id.clone(), attempts: self.attempt },
                        }
                    },
                    Some(e) => self.retry_or_fail(e),
                }
            },
        }
    }
}

/// A task finishes within twelve steps: every step lowers `steps_left`,
/// which starts at twelve.
pub proof fn lemma_reconnect_task_terminates()
    ensures
        steps_left(1, ReconnectPhase::CheckingFlags) == 12,
        forall|attempt: u32, phase: ReconnectPhase| 1 <= attempt <= MAX_RETRIES ==> steps_left(attempt, phase) >= 0,
{
}

} // verus!
