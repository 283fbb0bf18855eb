//! Moving the desk to a target height: one move, a check of the height that
//! was reached, and at most one corrective move. The caller talks to the
//! desk; what to ask of it next is decided here.

use vstd::prelude::*;

verus! {

/// How far a move to a target has come.
#[derive(Clone, Copy, Debug, PartialEq, Eq, Structural)]
pub enum MotionPhase {
    /// The first move has been asked for.
    FirstMove,
    /// The height after the first move has been asked for.
    FirstRead,
    /// The corrective move has been asked for.
    CorrectiveMove,
    /// The height after the corrective move has been asked for.
    FinalRead,
    /// The move is over. Holds the height that was reached.
    Done(u16),
    /// The desk failed, or answered what it was not asked.
    Failed,
}

/// What the desk reported.
#[derive(Clone, Copy, Debug, PartialEq, Eq, Structural)]
pub enum DeviceReply {
    /// A move has come to its end.
    Moved,
    /// The height that was read.
    Height(u16),
    /// A move or a read failed.
    Fault,
}

/// What to do next.
#[derive(Clone, Copy, Debug, PartialEq, Eq, Structural)]
pub enum MotionStep {
    /// Ask the desk to move to this height, and wait until it has stopped.
    Move(u16),
    /// Read the height of the desk.
    ReadHeight,
    /// Nothing: the move is over. Holds the height that was reached.
    Done(u16),
}

/// Why a move did not come to its end.
#[derive(Clone, Copy, Debug, PartialEq, Eq, Structural)]
pub enum MotionError {
    /// The desk failed to move or to report its height.
    DeviceFault,
}

/// One move of the desk to a target height.
#[derive(Clone, Copy, Debug, PartialEq, Eq, Structural)]
pub struct MotionController {
    pub target: u16,
    pub phase: MotionPhase,
}

/// The phase that follows `phase` on `reply`, for a move to `target`. A
/// move is followed by a read. The first read ends the move if the target
/// was reached, and is followed by the corrective move if not. The read
/// after the corrective move ends the move, whatever it shows. A fault, or a
/// reply to something that was not asked, fails the move for good.
pub open spec fn next_phase(target: u16, phase: MotionPhase, reply: DeviceReply) -> MotionPhase {
    match (phase, reply) {
        (MotionPhase::FirstMove, DeviceReply::Moved) => MotionPhase::FirstRead,
        (MotionPhase::FirstRead, DeviceReply::Height(height)) => if height == target {
            MotionPhase::Done(height)
        } else {
            MotionPhase::CorrectiveMove
        },
        (MotionPhase::CorrectiveMove, DeviceReply::Moved) => MotionPhase::FinalRead,
        (MotionPhase::FinalRead, DeviceReply::Height(height)) => MotionPhase::Done(height),
        (MotionPhase::Done(height), _) => MotionPhase::Done(height),
        _ => MotionPhase::Failed,
    }
}

/// What a phase asks of the caller.
pub open spec fn phase_step(target: u16, phase: MotionPhase) -> Result<MotionStep, MotionError> {
    match phase {
        MotionPhase::FirstMove => Ok(MotionStep::Move(target)),
        MotionPhase::FirstRead => Ok(MotionStep::ReadHeight),
        MotionPhase::CorrectiveMove => Ok(MotionStep::Move(target)),
        MotionPhase::FinalRead => Ok(MotionStep::ReadHeight),
        MotionPhase::Done(height) => Ok(MotionStep::Done(height)),
        MotionPhase::Failed => Err(MotionError::DeviceFault),
    }
}

/// The phase reached from `phase` after the replies, in order.
pub open spec fn phase_after(target: u16, phase: MotionPhase, replies: Seq<DeviceReply>)
    -> MotionPhase
    decreases replies.len(),
{
    if replies.len() == 0 {
        phase
    } else {
        next_phase(target, phase_after(target, phase, replies.drop_last()), replies.last())
    }
}

/// What the caller is asked to do after each of the replies, in order.
pub open spec fn steps_after(target: u16, phase: MotionPhase, replies: Seq<DeviceReply>) -> Seq<
    Result<MotionStep, MotionError>,
> {
    Seq::new(
        replies.len(),
        |i: int| phase_step(target, phase_after(target, phase, replies.take(i + 1))),
    )
}

/// The number of moves among the steps.
pub open spec fn count_moves(steps: Seq<Result<MotionStep, MotionError>>) -> nat
    decreases steps.len(),
{
    if steps.len() == 0 {
        0
    } else {
        count_moves(steps.drop_last()) + (if steps.last() matches Ok(MotionStep::Move(_)) {
            1nat
        } else {
            0nat
        })
    }
}

/// The number of moves that can still be asked for from a phase on.
pub open spec fn moves_left(phase: MotionPhase) -> nat {
    match phase {
        MotionPhase::FirstMove => 1,
        MotionPhase::FirstRead => 1,
        _ => 0,
    }
}

impl MotionController {
    /// A move to `target`, with its first move asked for.
    pub fn new(target: u16) -> (controller: MotionController)
        ensures
            controller == (MotionController { target, phase: MotionPhase::FirstMove }),
    {
        MotionController { target, phase: MotionPhase::FirstMove }
    }

    /// What is asked of the caller now.
    pub fn pending(&self) -> (step: Result<MotionStep, MotionError>)
        ensures
            step == phase_step(self.target, self.phase),
    {
        match self.phase {
            MotionPhase::FirstMove => Ok(MotionStep::Move(self.target)),
            MotionPhase::FirstRead => Ok(MotionStep::ReadHeight),
            MotionPhase::CorrectiveMove => Ok(MotionStep::Move(self.target)),
            MotionPhase::FinalRead => Ok(MotionStep::ReadHeight),
            MotionPhase::Done(height) => Ok(MotionStep::Done(height)),
            MotionPhase::Failed => Err(MotionError::DeviceFault),
        }
    }

    /// Takes what the desk reported for the pending step and says what to do
    /// next.
    pub fn advance(&mut self, reply: DeviceReply) -> (step: Result<MotionStep, MotionError>)
        ensures
            final(self).target == old(self).target,
            final(self).phase == next_phase(old(self).target, old(self).phase, reply),
            step == phase_step(final(self).target, final(self).phase),
    {
        let target = self.target;
        let phase = match (self.phase, reply) {
            (MotionPhase::FirstMove, DeviceReply::Moved) => MotionPhase::FirstRead,
            (MotionPhase::FirstRead, DeviceReply::Height(height)) => if height == target {
                MotionPhase::Done(height)
            } else {
                MotionPhase::CorrectiveMove
            },
            (MotionPhase::CorrectiveMove, DeviceReply::Moved) => MotionPhase::FinalRead,
            (MotionPhase::FinalRead, DeviceReply::Height(height)) => MotionPhase::Done(height),
            (MotionPhase::Done(height), _) => MotionPhase::Done(height),
            _ => MotionPhase::Failed,
        };
        self.phase = phase;
        self.pending()
    }
}

/// Taking one more reply extends the steps by the step of the phase reached.
pub proof fn lemma_steps_push(
    target: u16,
    phase: MotionPhase,
    replies: Seq<DeviceReply>,
    reply: DeviceReply,
)
    ensures
        phase_after(target, phase, replies.push(reply)) == next_phase(
            target,
            phase_after(target, phase, replies),
            reply,
        ),
        steps_after(target, phase, replies.push(reply)) == steps_after(
            target,
            phase,
            replies,
        ).push(phase_step(target, phase_after(target, phase, replies.push(reply)))),
{
    let longer = replies.push(reply);
    assert(longer.drop_last() =~= replies);
    assert(longer.take(longer.len() as int) =~= longer);
    assert forall|i: int| 0 <= i < replies.len() implies #[trigger] longer.take(i + 1)
        == replies.take(i + 1) by {
        assert(longer.take(i + 1) =~= replies.take(i + 1));
    }
    assert(steps_after(target, phase, longer) =~= steps_after(target, phase, replies).push(
        phase_step(target, phase_after(target, phase, longer)),
    ));
}

/// Whatever the desk reports, from any phase on no more moves are asked for
/// than the phase has left.
pub proof fn lemma_moves_bounded(target: u16, phase: MotionPhase, replies: Seq<DeviceReply>)
    ensures
        count_moves(steps_after(target, phase, replies)) + moves_left(
            phase_after(target, phase, replies),
        ) <= moves_left(phase),
    decreases replies.len(),
{
    if replies.len() == 0 {
        assert(steps_after(target, phase, replies) =~= Seq::empty());
    } else {
        let shorter = replies.drop_last();
        lemma_moves_bounded(target, phase, shorter);
        lemma_steps_push(target, phase, shorter, replies.last());
        assert(shorter.push(replies.last()) =~= replies);
        let steps = steps_after(target, phase, replies);
        assert(steps.drop_last() =~= steps_after(target, phase, shorter));
    }
}

/// At most one correction: whatever the desk reports, and however long the
/// caller goes on, a move to a target asks for the first move and then for
/// at most one more.
pub proof fn law_at_most_one_correction(target: u16, replies: Seq<DeviceReply>)
    ensures
        count_moves(steps_after(target, MotionPhase::FirstMove, replies)) <= 1,
{
    lemma_moves_bounded(target, MotionPhase::FirstMove, replies);
}

/// Where the height read after the first move is the target, the move is
/// over with that height, and no corrective move is asked for.
pub proof fn law_no_correction_on_target(target: u16)
    ensures
        steps_after(
            target,
            MotionPhase::FirstMove,
            seq![DeviceReply::Moved, DeviceReply::Height(target)],
        ) == seq![
            Ok::<MotionStep, MotionError>(MotionStep::ReadHeight),
            Ok::<MotionStep, MotionError>(MotionStep::Done(target)),
        ],
{
    let start = MotionPhase::FirstMove;
    let none = Seq::<DeviceReply>::empty();
    lemma_steps_push(target, start, none, DeviceReply::Moved);
    lemma_steps_push(target, start, none.push(DeviceReply::Moved), DeviceReply::Height(target));
    assert(none.push(DeviceReply::Moved).push(DeviceReply::Height(target))
        =~= seq![DeviceReply::Moved, DeviceReply::Height(target)]);
    assert(steps_after(target, start, none) =~= Seq::empty());
    assert(steps_after(
        target,
        start,
        seq![DeviceReply::Moved, DeviceReply::Height(target)],
    ) =~= seq![
        Ok::<MotionStep, MotionError>(MotionStep::ReadHeight),
        Ok::<MotionStep, MotionError>(MotionStep::Done(target)),
    ]);
}

/// Where the height read after the first move is not the target, exactly
/// one corrective move is asked for, and the move is over with whatever
/// height is read after it, on target or not.
pub proof fn law_single_correction(target: u16, first: u16, second: u16)
    requires
        first != target,
    ensures
        steps_after(
            target,
            MotionPhase::FirstMove,
            seq![
                DeviceReply::Moved,
                DeviceReply::Height(first),
                DeviceReply::Moved,
                DeviceReply::Height(second),
            ],
        ) == seq![
            Ok::<MotionStep, MotionError>(MotionStep::ReadHeight),
            Ok::<MotionStep, MotionError>(MotionStep::Move(target)),
            Ok::<MotionStep, MotionError>(MotionStep::ReadHeight),
            Ok::<MotionStep, MotionError>(MotionStep::Done(second)),
        ],
{
    let start = MotionPhase::FirstMove;
    let r0 = Seq::<DeviceReply>::empty();
    let r1 = r0.push(DeviceReply::Moved);
    let r2 = r1.push(DeviceReply::Height(first));
    let r3 = r2.push(DeviceReply::Moved);
    let r4 = r3.push(DeviceReply::Height(second));
    lemma_steps_push(target, start, r0, DeviceReply::Moved);
    lemma_steps_push(target, start, r1, DeviceReply::Height(first));
    lemma_steps_push(target, start, r2, DeviceReply::Moved);
    lemma_steps_push(target, start, r3, DeviceReply::Height(second));
    assert(r4 =~= seq![
        DeviceReply::Moved,
        DeviceReply::Height(first),
        DeviceReply::Moved,
        DeviceReply::Height(second),
    ]);
    assert(steps_after(target, start, r0) =~= Seq::empty());
    assert(steps_after(target, start, r4) =~= seq![
        Ok::<MotionStep, MotionError>(MotionStep::ReadHeight),
        Ok::<MotionStep, MotionError>(MotionStep::Move(target)),
        Ok::<MotionStep, MotionError>(MotionStep::ReadHeight),
        Ok::<MotionStep, MotionError>(MotionStep::Done(second)),
    ]);
}

/// A fault is final: once a move has failed it stays failed, and nothing
/// more is asked of the desk.
pub proof fn law_fault_is_final(target: u16, phase: MotionPhase, replies: Seq<DeviceReply>)
    ensures
        phase_after(target, MotionPhase::Failed, replies) == MotionPhase::Failed,
        !(phase is Done) ==> next_phase(target, phase, DeviceReply::Fault) == MotionPhase::Failed,
    decreases replies.len(),
{
    if replies.len() > 0 {
        law_fault_is_final(target, phase, replies.drop_last());
    }
}

} // verus!
