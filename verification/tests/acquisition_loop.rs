use sick_scan_xd::{
    AcquisitionError, AcquisitionLoop, AcquisitionState, Action, CartesianPoint, CloudMessage,
    Event, FailurePolicy, FrameError, FrameResult, WaitOutcome,
};

#[derive(Debug, PartialEq)]
enum Seen {
    Points(Vec<CartesianPoint>),
    FrameFailure(FrameError),
    DriverFailure(AcquisitionError),
}

/// Runs the loop over a script of wait results, one per cycle, and cancels
/// once the script is used up.
fn run(lp: &mut AcquisitionLoop, script: &[FrameResult]) -> (Vec<Seen>, Vec<Action>) {
    let mut seen = Vec::new();
    let mut actions = Vec::new();
    let mut cycle = 0;
    let mut event = Event::CycleStart { cancelled: script.is_empty() };
    loop {
        let action = lp.step(event);
        actions.push(action);
        event = match action {
            Action::Wait { .. } => Event::WaitReturned(script[cycle].outcome()),
            Action::DecodeAndYield => {
                match &script[cycle] {
                    FrameResult::Ready(message) => match message.get_data() {
                        Ok(points) => seen.push(Seen::Points(points)),
                        Err(error) => seen.push(Seen::FrameFailure(error)),
                    },
                    other => panic!("nothing to decode in {:?}", other),
                }
                Event::Done
            }
            Action::Retry => Event::Done,
            Action::Report(error) => {
                seen.push(Seen::DriverFailure(error));
                Event::Done
            }
            Action::NextCycle => {
                cycle += 1;
                Event::CycleStart { cancelled: cycle >= script.len() }
            }
            Action::Stop => break,
            Action::Rejected => panic!("the loop rejected {:?}", event),
        };
    }
    (seen, actions)
}

fn one_point() -> Vec<u8> {
    let mut bytes = Vec::new();
    for value in [1.0f32, 2.0, 3.0, 4.0] {
        bytes.extend_from_slice(&value.to_le_bytes());
    }
    bytes
}

fn ready(data: &[u8]) -> FrameResult<'_> {
    FrameResult::Ready(CloudMessage::Cartesian {
        fields: sick_scan_xd::cartesian_schema(),
        is_big_endian: false,
        point_step: 16,
        data,
    })
}

#[test]
fn new_loop_is_idle() {
    let lp = AcquisitionLoop::new(1000, FailurePolicy::Continue);
    assert_eq!(lp.state(), AcquisitionState::Idle);
    assert_eq!(lp.policy(), FailurePolicy::Continue);
    assert_eq!(lp.timeout_ms(), 1000);
    assert_eq!(lp.timeouts(), 0);
}

#[test]
fn three_timeouts_then_ready_decodes_on_the_fourth_cycle() {
    let data = one_point();
    let script =
        [FrameResult::TimedOut, FrameResult::TimedOut, FrameResult::TimedOut, ready(&data)];
    let mut lp = AcquisitionLoop::new(250, FailurePolicy::Stop);
    let (seen, actions) = run(&mut lp, &script);
    let wait = Action::Wait { timeout_ms: 250 };
    assert_eq!(
        actions,
        vec![
            wait,
            Action::Retry,
            Action::NextCycle,
            wait,
            Action::Retry,
            Action::NextCycle,
            wait,
            Action::Retry,
            Action::NextCycle,
            wait,
            Action::DecodeAndYield,
            Action::NextCycle,
            Action::Stop,
        ]
    );
    assert_eq!(
        seen,
        vec![Seen::Points(vec![CartesianPoint {
            x: 1.0f32.to_bits(),
            y: 2.0f32.to_bits(),
            z: 3.0f32.to_bits(),
            intensity: 4.0f32.to_bits(),
        }])]
    );
    assert_eq!(lp.timeouts(), 3);
    assert_eq!(lp.state(), AcquisitionState::Idle);
}

#[test]
fn driver_error_is_surfaced_once_and_loop_returns_to_idle() {
    let mut lp = AcquisitionLoop::new(1000, FailurePolicy::Continue);
    assert_eq!(
        lp.step(Event::CycleStart { cancelled: false }),
        Action::Wait { timeout_ms: 1000 }
    );
    assert_eq!(lp.state(), AcquisitionState::Waiting);
    assert_eq!(
        lp.step(Event::WaitReturned(WaitOutcome::DriverError(5))),
        Action::Report(AcquisitionError::DriverFailure { code: 5 })
    );
    assert_eq!(lp.state(), AcquisitionState::Failed);
    assert_eq!(lp.step(Event::Done), Action::NextCycle);
    assert_eq!(lp.state(), AcquisitionState::Idle);
    assert_eq!(lp.timeouts(), 0);
}

#[test]
fn driver_error_script_yields_exactly_one_failure() {
    let script = [FrameResult::DriverError(5)];
    let mut lp = AcquisitionLoop::new(1000, FailurePolicy::Continue);
    let (seen, actions) = run(&mut lp, &script);
    assert_eq!(seen, vec![Seen::DriverFailure(AcquisitionError::DriverFailure { code: 5 })]);
    assert_eq!(
        actions,
        vec![
            Action::Wait { timeout_ms: 1000 },
            Action::Report(AcquisitionError::DriverFailure { code: 5 }),
            Action::NextCycle,
            Action::Stop,
        ]
    );
    assert_eq!(lp.state(), AcquisitionState::Idle);
}

#[test]
fn stop_policy_ends_the_loop_after_a_driver_error() {
    let data = one_point();
    let script = [FrameResult::DriverError(-3), ready(&data)];
    let mut lp = AcquisitionLoop::new(10, FailurePolicy::Stop);
    let (seen, actions) = run(&mut lp, &script);
    assert_eq!(seen, vec![Seen::DriverFailure(AcquisitionError::DriverFailure { code: -3 })]);
    assert_eq!(actions.last(), Some(&Action::Stop));
    assert_eq!(actions.len(), 3);
    assert_eq!(lp.state(), AcquisitionState::Idle);
}

#[test]
fn continue_policy_goes_on_after_a_driver_error() {
    let data = one_point();
    let script = [FrameResult::DriverError(1), FrameResult::TimedOut, ready(&data)];
    let mut lp = AcquisitionLoop::new(10, FailurePolicy::Continue);
    let (seen, _) = run(&mut lp, &script);
    assert_eq!(seen.len(), 2);
    assert_eq!(seen[0], Seen::DriverFailure(AcquisitionError::DriverFailure { code: 1 }));
    assert!(matches!(seen[1], Seen::Points(_)));
    assert_eq!(lp.timeouts(), 1);
}

#[test]
fn frame_errors_do_not_block_later_cycles() {
    let bad = vec![0u8; 17];
    let good = one_point();
    let script = [ready(&bad), ready(&good)];
    let mut lp = AcquisitionLoop::new(10, FailurePolicy::Stop);
    let (seen, _) = run(&mut lp, &script);
    assert_eq!(seen.len(), 2);
    assert_eq!(
        seen[0],
        Seen::FrameFailure(FrameError::Decode(sick_scan_xd::DecodeError::InvalidStride))
    );
    assert!(matches!(seen[1], Seen::Points(_)));
}

#[test]
fn cancellation_stops_an_idle_loop_without_waiting() {
    let mut lp = AcquisitionLoop::new(1000, FailurePolicy::Continue);
    assert_eq!(lp.step(Event::CycleStart { cancelled: true }), Action::Stop);
    assert_eq!(lp.state(), AcquisitionState::Idle);
}

#[test]
fn cancellation_is_not_read_during_a_wait() {
    let mut lp = AcquisitionLoop::new(1000, FailurePolicy::Continue);
    lp.step(Event::CycleStart { cancelled: false });
    assert_eq!(lp.step(Event::CycleStart { cancelled: true }), Action::Rejected);
    assert_eq!(lp.state(), AcquisitionState::Waiting);
    assert_eq!(lp.step(Event::WaitReturned(WaitOutcome::Ready)), Action::DecodeAndYield);
    assert_eq!(lp.step(Event::CycleStart { cancelled: true }), Action::Rejected);
    assert_eq!(lp.state(), AcquisitionState::Ready);
    assert_eq!(lp.step(Event::Done), Action::NextCycle);
    assert_eq!(lp.step(Event::CycleStart { cancelled: true }), Action::Stop);
}

#[test]
fn events_out_of_turn_are_rejected_and_change_nothing() {
    let mut lp = AcquisitionLoop::new(1000, FailurePolicy::Continue);
    assert_eq!(lp.step(Event::Done), Action::Rejected);
    assert_eq!(lp.step(Event::WaitReturned(WaitOutcome::TimedOut)), Action::Rejected);
    assert_eq!(lp.state(), AcquisitionState::Idle);
    assert_eq!(lp.timeouts(), 0);
    lp.step(Event::CycleStart { cancelled: false });
    assert_eq!(lp.step(Event::Done), Action::Rejected);
    assert_eq!(lp.state(), AcquisitionState::Waiting);
    lp.step(Event::WaitReturned(WaitOutcome::TimedOut));
    assert_eq!(lp.state(), AcquisitionState::TimedOut);
    assert_eq!(lp.step(Event::WaitReturned(WaitOutcome::TimedOut)), Action::Rejected);
    assert_eq!(lp.timeouts(), 1);
    assert_eq!(lp.state(), AcquisitionState::TimedOut);
}

#[test]
fn timeout_is_a_state_of_its_own() {
    let mut lp = AcquisitionLoop::new(1000, FailurePolicy::Continue);
    lp.step(Event::CycleStart { cancelled: false });
    assert_eq!(lp.step(Event::WaitReturned(WaitOutcome::TimedOut)), Action::Retry);
    assert_eq!(lp.state(), AcquisitionState::TimedOut);
    assert_eq!(lp.step(Event::Done), Action::NextCycle);
    assert_eq!(lp.state(), AcquisitionState::Idle);
}

#[test]
fn empty_script_stops_at_once() {
    let mut lp = AcquisitionLoop::new(1, FailurePolicy::Continue);
    let (seen, actions) = run(&mut lp, &[]);
    assert!(seen.is_empty());
    assert_eq!(actions, vec![Action::Stop]);
}
