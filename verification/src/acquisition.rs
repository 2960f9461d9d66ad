//! The acquisition loop as a state machine. The caller performs the action
//! that a step asks for and hands back the event that the action ended with;
//! the machine decides what happens next.

use crate::cloud::CloudMessage;
use crate::status::{AcquisitionError, STATUS_SUCCESS, STATUS_TIMEOUT};
use vstd::prelude::*;

verus! {

/// How one bounded wait for the next frame ended.
#[derive(Debug, Clone, Copy, PartialEq, Eq, Structural)]
pub enum WaitOutcome {
    /// A frame was delivered before the timeout.
    Ready,
    /// The timeout elapsed without a frame.
    TimedOut,
    /// The driver reported the given code, neither success nor timeout.
    DriverError(i32),
}

/// What the driver boundary returns from one bounded wait: the delivered
/// message, or why there is none. A timeout is an outcome of its own and
/// never a message without points.
#[derive(Debug, Clone)]
pub enum FrameResult<'a> {
    Ready(CloudMessage<'a>),
    TimedOut,
    DriverError(i32),
}

/// Where the loop stands within an acquisition cycle.
#[derive(Debug, Clone, Copy, PartialEq, Eq, Structural)]
pub enum AcquisitionState {
    /// No request is outstanding.
    Idle,
    /// A bounded wait for the next frame is outstanding.
    Waiting,
    /// A frame was delivered and is owed to the consumer.
    Ready,
    /// The wait elapsed without a frame; the consumer is owed nothing.
    TimedOut,
    /// The driver reported a hard error, which is owed to the consumer.
    Failed,
}

/// What the loop does after it has surfaced a hard driver error.
#[derive(Debug, Clone, Copy, PartialEq, Eq, Structural)]
pub enum FailurePolicy {
    /// Go on with the next cycle.
    Continue,
    /// Leave the loop.
    Stop,
}

/// What happened since the last step.
#[derive(Debug, Clone, Copy, PartialEq, Eq, Structural)]
pub enum Event {
    /// A cycle is about to start; `cancelled` is the cancellation token as
    /// read at this moment.
    CycleStart { cancelled: bool },
    /// The bounded wait returned.
    WaitReturned(WaitOutcome),
    /// The action that the last step asked for is done.
    Done,
}

/// What the caller is to do next.
#[derive(Debug, Clone, Copy, PartialEq, Eq, Structural)]
pub enum Action {
    /// Ask the driver for the next frame, waiting at most `timeout_ms`
    /// milliseconds; answer with `Event::WaitReturned`.
    Wait { timeout_ms: u64 },
    /// Validate and decode the delivered frame and hand the records, or the
    /// frame's error, to the consumer; answer with `Event::Done`.
    DecodeAndYield,
    /// Nothing is handed to the consumer; answer with `Event::Done`.
    Retry,
    /// Hand the error to the consumer; answer with `Event::Done`.
    Report(AcquisitionError),
    /// Read the cancellation token and answer with `Event::CycleStart`.
    NextCycle,
    /// Leave the loop.
    Stop,
    /// The event does not belong to the state; nothing changed.
    Rejected,
}

/// The state that follows `state` on `event`, and the action asked for.
pub open spec fn transition(
    state: AcquisitionState,
    policy: FailurePolicy,
    timeout_ms: u64,
    event: Event,
) -> (AcquisitionState, Action) {
    match (state, event) {
        (AcquisitionState::Idle, Event::CycleStart { cancelled }) => if cancelled {
            (AcquisitionState::Idle, Action::Stop)
        } else {
            (AcquisitionState::Waiting, Action::Wait { timeout_ms })
        },
        (AcquisitionState::Waiting, Event::WaitReturned(outcome)) => match outcome {
            WaitOutcome::Ready => (AcquisitionState::Ready, Action::DecodeAndYield),
            WaitOutcome::TimedOut => (AcquisitionState::TimedOut, Action::Retry),
            WaitOutcome::DriverError(code) => (
                AcquisitionState::Failed,
                Action::Report(AcquisitionError::DriverFailure { code }),
            ),
        },
        (AcquisitionState::Ready, Event::Done) => (AcquisitionState::Idle, Action::NextCycle),
        (AcquisitionState::TimedOut, Event::Done) => (AcquisitionState::Idle, Action::NextCycle),
        (AcquisitionState::Failed, Event::Done) => match policy {
            FailurePolicy::Continue => (AcquisitionState::Idle, Action::NextCycle),
            FailurePolicy::Stop => (AcquisitionState::Idle, Action::Stop),
        },
        _ => (state, Action::Rejected),
    }
}

/// The number of timeouts after a step that asked for `action`: one more
/// than `timeouts` if the step met a timeout, and never more than `u64::MAX`.
pub open spec fn counted_timeouts(timeouts: u64, action: Action) -> u64 {
    if action == Action::Retry && timeouts < u64::MAX {
        (timeouts + 1) as u64
    } else {
        timeouts
    }
}

/// The outcome that a wait's status code stands for.
pub open spec fn outcome_of_status(status: i32) -> WaitOutcome {
    if status == STATUS_SUCCESS {
        WaitOutcome::Ready
    } else if status == STATUS_TIMEOUT {
        WaitOutcome::TimedOut
    } else {
        WaitOutcome::DriverError(status)
    }
}

impl WaitOutcome {
    /// Classifies the status code with which the driver's bounded wait
    /// returned.
    pub fn from_status(status: i32) -> (outcome: WaitOutcome)
        ensures
            outcome == outcome_of_status(status),
    {
        if status == STATUS_SUCCESS {
            WaitOutcome::Ready
        } else if status == STATUS_TIMEOUT {
            WaitOutcome::TimedOut
        } else {
            WaitOutcome::DriverError(status)
        }
    }
}

impl<'a> FrameResult<'a> {
    /// How the wait ended, without the message.
    pub open spec fn spec_outcome(&self) -> WaitOutcome {
        match self {
            FrameResult::Ready(_) => WaitOutcome::Ready,
            FrameResult::TimedOut => WaitOutcome::TimedOut,
            FrameResult::DriverError(code) => WaitOutcome::DriverError(*code),
        }
    }

    /// Pairs the status code of a bounded wait with the message that the
    /// driver filled in. The message counts only if the wait succeeded: on a
    /// timeout or an error it is dropped.
    pub fn from_status(status: i32, message: CloudMessage<'a>) -> (result: FrameResult<'a>)
        ensures
            result.spec_outcome() == outcome_of_status(status),
            result matches FrameResult::Ready(delivered) ==> delivered == message,
    {
        if status == STATUS_SUCCESS {
            FrameResult::Ready(message)
        } else if status == STATUS_TIMEOUT {
            FrameResult::TimedOut
        } else {
            FrameResult::DriverError(status)
        }
    }

    /// How the wait ended, without the message.
    #[verifier::when_used_as_spec(spec_outcome)]
    pub fn outcome(&self) -> (outcome: WaitOutcome)
        ensures
            outcome == self.spec_outcome(),
    {
        match self {
            FrameResult::Ready(_) => WaitOutcome::Ready,
            FrameResult::TimedOut => WaitOutcome::TimedOut,
            FrameResult::DriverError(code) => WaitOutcome::DriverError(*code),
        }
    }
}

/// The acquisition loop: its state, its configuration, and the number of
/// timeouts it has seen.
#[derive(Debug, Clone, Copy, PartialEq, Eq)]
pub struct AcquisitionLoop {
    state: AcquisitionState,
    policy: FailurePolicy,
    timeout_ms: u64,
    timeouts: u64,
}

impl AcquisitionLoop {
    /// Where the loop stands.
    pub closed spec fn spec_state(&self) -> AcquisitionState {
        self.state
    }

    /// What the loop does after a hard driver error.
    pub closed spec fn spec_policy(&self) -> FailurePolicy {
        self.policy
    }

    /// The bound, in milliseconds, of every wait.
    pub closed spec fn spec_timeout_ms(&self) -> u64 {
        self.timeout_ms
    }

    /// Number of waits that timed out so far, saturating at `u64::MAX`.
    pub closed spec fn spec_timeouts(&self) -> u64 {
        self.timeouts
    }

    /// An idle loop that bounds every wait by `timeout_ms` milliseconds and
    /// treats hard driver errors as `policy` says.
    pub fn new(timeout_ms: u64, policy: FailurePolicy) -> (lp: AcquisitionLoop)
        ensures
            lp.spec_state() == AcquisitionState::Idle,
            lp.spec_policy() == policy,
            lp.spec_timeout_ms() == timeout_ms,
            lp.spec_timeouts() == 0,
    {
        AcquisitionLoop { state: AcquisitionState::Idle, policy, timeout_ms, timeouts: 0 }
    }

    /// Where the loop stands.
    #[verifier::when_used_as_spec(spec_state)]
    pub fn state(&self) -> (state: AcquisitionState)
        ensures
            state == self.spec_state(),
    {
        self.state
    }

    /// What the loop does after a hard driver error.
    #[verifier::when_used_as_spec(spec_policy)]
    pub fn policy(&self) -> (policy: FailurePolicy)
        ensures
            policy == self.spec_policy(),
    {
        self.policy
    }

    /// The bound, in milliseconds, of every wait.
    #[verifier::when_used_as_spec(spec_timeout_ms)]
    pub fn timeout_ms(&self) -> (timeout_ms: u64)
        ensures
            timeout_ms == self.spec_timeout_ms(),
    {
        self.timeout_ms
    }

    /// Number of waits that timed out so far, saturating at `u64::MAX`.
    #[verifier::when_used_as_spec(spec_timeouts)]
    pub fn timeouts(&self) -> (timeouts: u64)
        ensures
            timeouts == self.spec_timeouts(),
    {
        self.timeouts
    }

    /// Takes `event` and says what to do next.
    ///
    /// A timeout is counted and otherwise silent; a hard driver error is
    /// reported with its code; an event that does not belong to the current
    /// state changes nothing and is answered with `Action::Rejected`.
    pub fn step(&mut self, event: Event) -> (action: Action)
        ensures
            (final(self).spec_state(), action) == transition(
                old(self).spec_state(),
                old(self).spec_policy(),
                old(self).spec_timeout_ms(),
                event,
            ),
            final(self).spec_policy() == old(self).spec_policy(),
            final(self).spec_timeout_ms() == old(self).spec_timeout_ms(),
            final(self).spec_timeouts() == counted_timeouts(old(self).spec_timeouts(), action),
    {
        match (self.state, event) {
            (AcquisitionState::Idle, Event::CycleStart { cancelled }) => {
                if cancelled {
                    Action::Stop
                } else {
                    self.state = AcquisitionState::Waiting;
                    Action::Wait { timeout_ms: self.timeout_ms }
                }
            },
            (AcquisitionState::Waiting, Event::WaitReturned(outcome)) => match outcome {
                WaitOutcome::Ready => {
                    self.state = AcquisitionState::Ready;
                    Action::DecodeAndYield
                },
                WaitOutcome::TimedOut => {
                    self.state = AcquisitionState::TimedOut;
                    if self.timeouts < u64::MAX {
                        self.timeouts = self.timeouts + 1;
                    }
                    Action::Retry
                },
                WaitOutcome::DriverError(code) => {
                    self.state = AcquisitionState::Failed;
                    Action::Report(AcquisitionError::DriverFailure { code })
                },
            },
            (AcquisitionState::Ready, Event::Done) => {
                self.state = AcquisitionState::Idle;
                Action::NextCycle
            },
            (AcquisitionState::TimedOut, Event::Done) => {
                self.state = AcquisitionState::Idle;
                Action::NextCycle
            },
            (AcquisitionState::Failed, Event::Done) => {
                self.state = AcquisitionState::Idle;
                match self.policy {
                    FailurePolicy::Continue => Action::NextCycle,
                    FailurePolicy::Stop => Action::Stop,
                }
            },
            _ => Action::Rejected,
        }
    }
}

/// However a wait ends, the three events of one cycle lead an idle loop back
/// to idle: the cycle opens with a wait bounded by the configured timeout,
/// and it closes by asking for the next cycle, or by stopping if the wait
/// ended with a hard error and the policy is to stop.
pub proof fn lemma_cycle_returns_to_idle(
    policy: FailurePolicy,
    timeout_ms: u64,
    outcome: WaitOutcome,
)
    ensures
        ({
            let opened = transition(
                AcquisitionState::Idle,
                policy,
                timeout_ms,
                Event::CycleStart { cancelled: false },
            );
            let waited = transition(opened.0, policy, timeout_ms, Event::WaitReturned(outcome));
            let closed = transition(waited.0, policy, timeout_ms, Event::Done);
            &&& opened == (AcquisitionState::Waiting, Action::Wait { timeout_ms })
            &&& closed.0 == AcquisitionState::Idle
            &&& outcome is DriverError && policy == FailurePolicy::Stop ==> closed.1
                == Action::Stop
            &&& !(outcome is DriverError && policy == FailurePolicy::Stop) ==> closed.1
                == Action::NextCycle
        }),
{
}

/// An error is reported exactly when a wait ends with a hard driver error,
/// and then it is that error's code that is reported. In particular a
/// timeout is never reported.
pub proof fn lemma_only_driver_errors_are_reported(
    state: AcquisitionState,
    policy: FailurePolicy,
    timeout_ms: u64,
    event: Event,
    error: AcquisitionError,
)
    ensures
        transition(state, policy, timeout_ms, event).1 == Action::Report(error) <==> ({
            &&& state == AcquisitionState::Waiting
            &&& event matches Event::WaitReturned(WaitOutcome::DriverError(code))
            &&& error == AcquisitionError::DriverFailure { code }
        }),
{
}

/// The loop stops only between cycles: when the cancellation token is set at
/// the start of a cycle, or when a reported hard error has been handed over
/// and the policy is to stop. It never stops during a wait or a decode.
pub proof fn lemma_loop_stops_only_between_cycles(
    state: AcquisitionState,
    policy: FailurePolicy,
    timeout_ms: u64,
    event: Event,
)
    ensures
        transition(state, policy, timeout_ms, event).1 == Action::Stop <==> ({
            ||| state == AcquisitionState::Idle && event == (Event::CycleStart { cancelled: true })
            ||| state == AcquisitionState::Failed && event == Event::Done && policy
                == FailurePolicy::Stop
        }),
        transition(state, policy, timeout_ms, event).1 == Action::Stop ==> transition(
            state,
            policy,
            timeout_ms,
            event,
        ).0 == AcquisitionState::Idle,
{
}

} // verus!
