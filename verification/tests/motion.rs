use deskctl::motion::{
    DeviceReply, MotionController, MotionError, MotionPhase, MotionStep,
};

/// Drives a move against the given replies and returns every step that was
/// asked for, the first one included.
fn drive(target: u16, replies: Vec<DeviceReply>) -> Vec<Result<MotionStep, MotionError>> {
    let mut controller = MotionController::new(target);
    let mut steps = vec![controller.pending()];
    for reply in replies {
        steps.push(controller.advance(reply));
    }
    steps
}

fn moves(steps: &[Result<MotionStep, MotionError>]) -> usize {
    steps.iter().filter(|step| matches!(step, Ok(MotionStep::Move(_)))).count()
}

#[test]
fn new_controller_asks_for_the_first_move() {
    let controller = MotionController::new(6000);
    assert_eq!(controller.target, 6000);
    assert_eq!(controller.phase, MotionPhase::FirstMove);
    assert_eq!(controller.pending(), Ok(MotionStep::Move(6000)));
}

#[test]
fn no_correction_when_target_is_reached() {
    let steps = drive(6000, vec![DeviceReply::Moved, DeviceReply::Height(6000)]);
    assert_eq!(
        steps,
        vec![Ok(MotionStep::Move(6000)), Ok(MotionStep::ReadHeight), Ok(MotionStep::Done(6000))]
    );
    assert_eq!(moves(&steps), 1);
}

#[test]
fn one_correction_when_target_is_missed() {
    let steps = drive(
        6000,
        vec![
            DeviceReply::Moved,
            DeviceReply::Height(5990),
            DeviceReply::Moved,
            DeviceReply::Height(6000),
        ],
    );
    assert_eq!(
        steps,
        vec![
            Ok(MotionStep::Move(6000)),
            Ok(MotionStep::ReadHeight),
            Ok(MotionStep::Move(6000)),
            Ok(MotionStep::ReadHeight),
            Ok(MotionStep::Done(6000)),
        ]
    );
    assert_eq!(moves(&steps), 2);
}

#[test]
fn result_after_correction_is_final_even_off_target() {
    let steps = drive(
        6000,
        vec![
            DeviceReply::Moved,
            DeviceReply::Height(5990),
            DeviceReply::Moved,
            DeviceReply::Height(5995),
        ],
    );
    assert_eq!(steps.last(), Some(&Ok(MotionStep::Done(5995))));
    assert_eq!(moves(&steps), 2);
}

#[test]
fn finished_move_stays_finished() {
    let steps = drive(
        6000,
        vec![
            DeviceReply::Moved,
            DeviceReply::Height(6000),
            DeviceReply::Moved,
            DeviceReply::Height(1),
            DeviceReply::Fault,
        ],
    );
    assert_eq!(steps[3], Ok(MotionStep::Done(6000)));
    assert_eq!(steps[4], Ok(MotionStep::Done(6000)));
    assert_eq!(steps[5], Ok(MotionStep::Done(6000)));
    assert_eq!(moves(&steps), 1);
}

#[test]
fn fault_during_first_move_fails_the_move() {
    let steps = drive(6000, vec![DeviceReply::Fault, DeviceReply::Moved]);
    assert_eq!(steps[1], Err(MotionError::DeviceFault));
    assert_eq!(steps[2], Err(MotionError::DeviceFault));
    assert_eq!(moves(&steps), 1);
}

#[test]
fn fault_during_read_fails_the_move() {
    let steps = drive(6000, vec![DeviceReply::Moved, DeviceReply::Fault]);
    assert_eq!(steps[2], Err(MotionError::DeviceFault));
}

#[test]
fn fault_during_correction_fails_the_move() {
    let steps = drive(
        6000,
        vec![DeviceReply::Moved, DeviceReply::Height(5990), DeviceReply::Fault],
    );
    assert_eq!(steps[3], Err(MotionError::DeviceFault));
    let steps = drive(
        6000,
        vec![
            DeviceReply::Moved,
            DeviceReply::Height(5990),
            DeviceReply::Moved,
            DeviceReply::Fault,
            DeviceReply::Height(6000),
        ],
    );
    assert_eq!(steps[4], Err(MotionError::DeviceFault));
    assert_eq!(steps[5], Err(MotionError::DeviceFault));
}

#[test]
fn reply_that_was_not_asked_for_fails_the_move() {
    let steps = drive(6000, vec![DeviceReply::Height(6000)]);
    assert_eq!(steps[1], Err(MotionError::DeviceFault));
    let steps = drive(6000, vec![DeviceReply::Moved, DeviceReply::Moved]);
    assert_eq!(steps[2], Err(MotionError::DeviceFault));
}

#[test]
fn never_more_than_one_corrective_move() {
    let replies = [DeviceReply::Moved, DeviceReply::Height(1), DeviceReply::Height(6000), DeviceReply::Fault];
    // Every sequence of five replies over the four kinds above.
    for code in 0..(4usize.pow(5)) {
        let mut sequence = Vec::new();
        let mut rest = code;
        for _ in 0..5 {
            sequence.push(replies[rest % 4]);
            rest /= 4;
        }
        let steps = drive(6000, sequence);
        assert!(moves(&steps) <= 2);
    }
}

#[test]
fn extreme_targets_are_handled() {
    let steps = drive(0, vec![DeviceReply::Moved, DeviceReply::Height(0)]);
    assert_eq!(steps.last(), Some(&Ok(MotionStep::Done(0))));
    let steps = drive(u16::MAX, vec![DeviceReply::Moved, DeviceReply::Height(u16::MAX)]);
    assert_eq!(steps.last(), Some(&Ok(MotionStep::Done(65535))));
}
