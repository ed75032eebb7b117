//! One boot cycle of the capture node as a state machine. The node runs it
//! from power-on to deep sleep: it carries out the action that the state
//! stands for, reports what happened as an event, and moves to the next
//! state.
//!
//! The cycle only moves forward. Nothing is retried, and every failure leads
//! straight to sleep: losing a picture is acceptable, a node that hangs or
//! stays awake is not.

use crate::timesync::{SyncPolicy, SyncStep};
use vstd::prelude::*;

verus! {

/// Where the cycle stands.
#[derive(Clone, Copy, Debug, PartialEq, Eq, Structural)]
pub enum CycleState {
    /// Powered on; the network is being joined.
    Booting,
    /// Waiting for the clock to be set; `polls` status polls were made.
    TimeSyncing { polls: u32 },
    /// The health sample is being posted.
    HealthReporting,
    /// The camera is being read.
    Capturing,
    /// The picture is being posted.
    Uploading,
    /// The work is over and the node goes to sleep; `synced` tells whether
    /// the clock was set on the way. Terminal: the node starts again from
    /// `Booting` when it wakes.
    SleepScheduled { synced: bool },
}

/// What happened while the node carried out an action.
#[derive(Clone, Copy, Debug, PartialEq, Eq, Structural)]
pub enum CycleEvent {
    /// Joining the network ended.
    NetworkJoined { connected: bool },
    /// The synchronization status was polled.
    SyncPolled { completed: bool },
    /// Posting the health sample ended.
    HealthPosted { delivered: bool },
    /// Reading the camera ended, with or without a picture.
    Captured { picture: bool },
    /// Posting the picture ended.
    ImagePosted { delivered: bool },
}

/// What the node does in a state.
#[derive(Clone, Copy, Debug, PartialEq, Eq, Structural)]
pub enum CycleAction {
    /// Join the network.
    JoinNetwork,
    /// Poll the synchronization status now.
    PollSync,
    /// Wait, then poll the synchronization status.
    WaitThenPollSync { millis: u32 },
    /// Post the health sample.
    PostHealth,
    /// Read the camera.
    Capture,
    /// Post the picture.
    PostImage,
    /// Sleep until the next scheduled wake.
    SleepUntilWake,
    /// Sleep for the fallback interval: the clock was never set, so there is
    /// no schedule to follow.
    SleepFallback,
}

/// What is fixed for the node's lifetime about the course of a cycle.
#[derive(Clone, Copy, Debug, PartialEq, Eq, Structural)]
pub struct CyclePolicy {
    pub sync: SyncPolicy,
    /// Whether a health sample is posted before the capture.
    pub report_health: bool,
}

impl CycleState {
    /// The state's place in the course of a cycle.
    pub open spec fn rank(self) -> nat {
        match self {
            CycleState::Booting => 0,
            CycleState::TimeSyncing { .. } => 1,
            CycleState::HealthReporting => 2,
            CycleState::Capturing => 3,
            CycleState::Uploading => 4,
            CycleState::SleepScheduled { .. } => 5,
        }
    }

    /// The clock was set before this state was reached.
    pub open spec fn synced(self) -> bool {
        match self {
            CycleState::Booting => false,
            CycleState::TimeSyncing { .. } => false,
            CycleState::SleepScheduled { synced } => synced,
            _ => true,
        }
    }
}

/// The event reports a failure: the network was not joined, a post was not
/// delivered, or the camera gave no picture.
pub open spec fn is_failure(event: CycleEvent) -> bool {
    match event {
        CycleEvent::NetworkJoined { connected } => !connected,
        CycleEvent::SyncPolled { .. } => false,
        CycleEvent::HealthPosted { delivered } => !delivered,
        CycleEvent::Captured { picture } => !picture,
        CycleEvent::ImagePosted { delivered } => !delivered,
    }
}

/// The event is the outcome of the action that the state stands for.
pub open spec fn expected(state: CycleState, event: CycleEvent) -> bool {
    match (state, event) {
        (CycleState::Booting, CycleEvent::NetworkJoined { .. }) => true,
        (CycleState::TimeSyncing { .. }, CycleEvent::SyncPolled { .. }) => true,
        (CycleState::HealthReporting, CycleEvent::HealthPosted { .. }) => true,
        (CycleState::Capturing, CycleEvent::Captured { .. }) => true,
        (CycleState::Uploading, CycleEvent::ImagePosted { .. }) => true,
        _ => false,
    }
}

/// The number of polls after one more, held at the counter's limit.
pub open spec fn one_more(polls: u32) -> u32 {
    if polls < u32::MAX {
        (polls + 1) as u32
    } else {
        polls
    }
}

/// The state that follows `event` in `state`.
///
/// An expected success moves one stage on; a poll that finds the clock not
/// yet set stays, counted. A failure, a timeout and an event that the state
/// did not ask for lead to sleep. Once sleep is scheduled nothing changes.
pub open spec fn spec_step(policy: CyclePolicy, state: CycleState, event: CycleEvent)
    -> CycleState {
    match (state, event) {
        (CycleState::SleepScheduled { .. }, _) => state,
        (CycleState::Booting, CycleEvent::NetworkJoined { connected: true }) => {
            CycleState::TimeSyncing { polls: 0 }
        },
        (CycleState::TimeSyncing { polls }, CycleEvent::SyncPolled { completed }) => {
            match policy.sync.spec_step(one_more(polls), completed) {
                SyncStep::Synced => if policy.report_health {
                    CycleState::HealthReporting
                } else {
                    CycleState::Capturing
                },
                SyncStep::Wait { .. } => CycleState::TimeSyncing { polls: one_more(polls) },
                SyncStep::TimedOut => CycleState::SleepScheduled { synced: false },
            }
        },
        (CycleState::HealthReporting, CycleEvent::HealthPosted { delivered: true }) => {
            CycleState::Capturing
        },
        (CycleState::Capturing, CycleEvent::Captured { picture: true }) => CycleState::Uploading,
        _ => CycleState::SleepScheduled { synced: state.synced() },
    }
}

/// The action that a state stands for.
pub open spec fn spec_action(policy: CyclePolicy, state: CycleState) -> CycleAction {
    match state {
        CycleState::Booting => CycleAction::JoinNetwork,
        CycleState::TimeSyncing { polls } => if polls == 0 {
            CycleAction::PollSync
        } else {
            CycleAction::WaitThenPollSync { millis: policy.sync.poll_interval_ms }
        },
        CycleState::HealthReporting => CycleAction::PostHealth,
        CycleState::Capturing => CycleAction::Capture,
        CycleState::Uploading => CycleAction::PostImage,
        CycleState::SleepScheduled { synced } => if synced {
            CycleAction::SleepUntilWake
        } else {
            CycleAction::SleepFallback
        },
    }
}

/// The state in which every cycle starts.
pub fn start() -> (first: CycleState)
    ensures
        first is Booting,
{
    CycleState::Booting
}

/// Tells what the node does in `state`.
pub fn action(policy: &CyclePolicy, state: CycleState) -> (act: CycleAction)
    ensures
        act == spec_action(*policy, state),
        act is SleepUntilWake || act is SleepFallback <==> state is SleepScheduled,
        act is SleepUntilWake ==> state.synced(),
{
    match state {
        CycleState::Booting => CycleAction::JoinNetwork,
        CycleState::TimeSyncing { polls } => {
            if polls == 0 {
                CycleAction::PollSync
            } else {
                CycleAction::WaitThenPollSync { millis: policy.sync.poll_interval_ms }
            }
        },
        CycleState::HealthReporting => CycleAction::PostHealth,
        CycleState::Capturing => CycleAction::Capture,
        CycleState::Uploading => CycleAction::PostImage,
        CycleState::SleepScheduled { synced } => {
            if synced {
                CycleAction::SleepUntilWake
            } else {
                CycleAction::SleepFallback
            }
        },
    }
}

/// Advances the cycle by one event.
pub fn step(policy: &CyclePolicy, state: CycleState, event: CycleEvent) -> (next: CycleState)
    ensures
        next == spec_step(*policy, state, event),
        next.rank() >= state.rank(),
        state.synced() ==> next.synced(),
        is_failure(event) || !expected(state, event) ==> next is SleepScheduled,
        state is SleepScheduled ==> next == state,
{
    match (state, event) {
        (CycleState::SleepScheduled { .. }, _) => state,
        (CycleState::Booting, CycleEvent::NetworkJoined { connected: true }) => {
            CycleState::TimeSyncing { polls: 0 }
        },
        (CycleState::TimeSyncing { polls }, CycleEvent::SyncPolled { completed }) => {
            let made: u32 = if polls < u32::MAX {
                polls + 1
            } else {
                polls
            };
            match policy.sync.step(made, completed) {
                SyncStep::Synced => {
                    if policy.report_health {
                        CycleState::HealthReporting
                    } else {
                        CycleState::Capturing
                    }
                },
                SyncStep::Wait { .. } => CycleState::TimeSyncing { polls: made },
                SyncStep::TimedOut => CycleState::SleepScheduled { synced: false },
            }
        },
        (CycleState::HealthReporting, CycleEvent::HealthPosted { delivered: true }) => {
            CycleState::Capturing
        },
        (CycleState::Capturing, CycleEvent::Captured { picture: true }) => CycleState::Uploading,
        _ => {
            let synced: bool = match state {
                CycleState::HealthReporting | CycleState::Capturing | CycleState::Uploading => {
                    true
                },
                _ => false,
            };
            CycleState::SleepScheduled { synced }
        },
    }
}

/// An upper bound on the events that a cycle can still take in before sleep
/// is scheduled, where time synchronization is given up after `max_polls`
/// polls.
pub open spec fn events_left(max_polls: u32, state: CycleState) -> nat {
    match state {
        CycleState::Booting => (max_polls + 5) as nat,
        CycleState::TimeSyncing { polls } => if polls < max_polls {
            (max_polls - polls + 4) as nat
        } else {
            4
        },
        CycleState::HealthReporting => 3,
        CycleState::Capturing => 2,
        CycleState::Uploading => 1,
        CycleState::SleepScheduled { .. } => 0,
    }
}

/// No transition leads backward, and the clock, once set, stays set.
pub proof fn lemma_forward_only(policy: CyclePolicy, state: CycleState, event: CycleEvent)
    ensures
        spec_step(policy, state, event).rank() >= state.rank(),
        state.synced() ==> spec_step(policy, state, event).synced(),
{
}

/// Every failure, and every event out of turn, schedules sleep at once.
pub proof fn lemma_failure_goes_to_sleep(policy: CyclePolicy, state: CycleState, event: CycleEvent)
    requires
        is_failure(event) || !expected(state, event),
    ensures
        spec_step(policy, state, event) is SleepScheduled,
{
}

/// With a limit on the polls, every event brings sleep nearer: a cycle takes
/// in at most `max_polls + 5` events before sleep is scheduled.
pub proof fn lemma_cycle_ends(policy: CyclePolicy, state: CycleState, event: CycleEvent)
    requires
        policy.sync.max_polls is Some,
        !(state is SleepScheduled),
    ensures
        events_left(policy.sync.max_polls->0, spec_step(policy, state, event)) < events_left(
            policy.sync.max_polls->0,
            state,
        ),
{
}

} // verus!
