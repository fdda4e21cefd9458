//! When to wait for an encoder, when to hand it a frame, and when to pull coded frames out.

use vstd::prelude::*;

verus! {

/// What an asynchronous encoder announces.
#[derive(Debug, Clone, Copy, PartialEq, Eq)]
pub enum EncoderEvent {
    NeedInput,
    HaveOutput,
    DrainComplete,
    Other,
}

/// Where one call of `encode` or `drain` stands.
#[derive(Debug, Clone, Copy, PartialEq, Eq)]
pub enum Phase {
    /// Waiting for the encoder to ask for the frame.
    Feeding,
    /// Pulling out a coded frame that was announced before the frame was asked for.
    FeedingOutput,
    /// Handing the frame to an encoder that asked for it.
    Submitting,
    /// Handing the frame to a synchronous encoder.
    Pushing,
    /// Pulling coded frames out of a synchronous encoder until there are no more.
    Pulling,
    /// Going through the events of the encoder, waiting for them or not.
    Draining { blocking: bool },
    /// Pulling out a coded frame that was announced while draining.
    DrainingOutput { blocking: bool },
    /// The call is over.
    Finished,
    /// The call is over and has failed.
    Failed,
}

/// What to do next.
#[derive(Debug, Clone, Copy, PartialEq, Eq)]
pub enum DriveAction {
    /// Get the next event, waiting for it.
    WaitForEvent,
    /// Get the next event, if there is one already.
    PollForEvent,
    SubmitFrame,
    CollectOutput,
    Return,
    Fail,
}

/// How that went.
#[derive(Debug, Clone, Copy, PartialEq, Eq)]
pub enum Outcome {
    Event(EncoderEvent),
    /// There is no event at the moment.
    NoEvents,
    /// The encoder was shut down.
    Shutdown,
    Submitted,
    /// Output was collected; whether it brought a coded frame.
    Collected { frame: bool },
    /// Any other failure.
    Error,
}

/// What a phase asks for.
pub open spec fn action_of(phase: Phase) -> DriveAction {
    match phase {
        Phase::Feeding => DriveAction::WaitForEvent,
        Phase::FeedingOutput => DriveAction::CollectOutput,
        Phase::Submitting => DriveAction::SubmitFrame,
        Phase::Pushing => DriveAction::SubmitFrame,
        Phase::Pulling => DriveAction::CollectOutput,
        Phase::Draining { blocking } => if blocking {
            DriveAction::WaitForEvent
        } else {
            DriveAction::PollForEvent
        },
        Phase::DrainingOutput { .. } => DriveAction::CollectOutput,
        Phase::Finished => DriveAction::Return,
        Phase::Failed => DriveAction::Fail,
    }
}

/// Whether an outcome can be that of an action.
pub open spec fn answers(action: DriveAction, outcome: Outcome) -> bool {
    match action {
        DriveAction::WaitForEvent | DriveAction::PollForEvent => outcome is Event || outcome
            is NoEvents || outcome is Shutdown || outcome is Error,
        DriveAction::SubmitFrame => outcome is Submitted || outcome is Error,
        DriveAction::CollectOutput => outcome is Collected || outcome is Error,
        DriveAction::Return | DriveAction::Fail => false,
    }
}

/// The phase after an outcome.
pub open spec fn next_phase(phase: Phase, outcome: Outcome) -> Phase {
    match (phase, outcome) {
        (_, Outcome::Error) => Phase::Failed,
        (Phase::Feeding, Outcome::Event(EncoderEvent::NeedInput)) => Phase::Submitting,
        (Phase::Feeding, Outcome::Event(EncoderEvent::HaveOutput)) => Phase::FeedingOutput,
        (Phase::Feeding, Outcome::Event(_)) => Phase::Feeding,
        (Phase::FeedingOutput, Outcome::Collected { .. }) => Phase::Feeding,
        // Whatever the encoder finished in the meantime, without waiting.
        (Phase::Submitting, Outcome::Submitted) => Phase::Draining { blocking: false },
        (Phase::Pushing, Outcome::Submitted) => Phase::Pulling,
        (Phase::Pulling, Outcome::Collected { frame }) => if frame {
            Phase::Pulling
        } else {
            Phase::Finished
        },
        (Phase::Draining { blocking }, Outcome::Event(event)) => match event {
            EncoderEvent::HaveOutput => Phase::DrainingOutput { blocking },
            EncoderEvent::DrainComplete => Phase::Finished,
            _ => Phase::Draining { blocking },
        },
        (Phase::Draining { .. }, Outcome::NoEvents) => Phase::Finished,
        (Phase::Draining { .. }, Outcome::Shutdown) => Phase::Finished,
        (Phase::DrainingOutput { blocking }, Outcome::Collected { .. }) => Phase::Draining {
            blocking,
        },
        _ => Phase::Failed,
    }
}

/// How a call of `encode` begins. Asynchronous encoders ask for input and announce output through
/// events, so a frame can only be submitted once the encoder asked for one.
pub open spec fn encode_begins(asynchronous: bool) -> Phase {
    if asynchronous {
        Phase::Feeding
    } else {
        Phase::Pushing
    }
}

/// How a call of `drain` begins, once the encoder was told to drain: the frames it is still
/// holding are flushed.
pub open spec fn drain_begins(asynchronous: bool) -> Phase {
    if asynchronous {
        Phase::Draining { blocking: true }
    } else {
        Phase::Pulling
    }
}

/// What to do in a phase.
pub fn action(phase: Phase) -> (action: DriveAction)
    ensures
        action == action_of(phase),
{
    match phase {
        Phase::Feeding => DriveAction::WaitForEvent,
        Phase::FeedingOutput => DriveAction::CollectOutput,
        Phase::Submitting => DriveAction::SubmitFrame,
        Phase::Pushing => DriveAction::SubmitFrame,
        Phase::Pulling => DriveAction::CollectOutput,
        Phase::Draining { blocking } => if blocking {
            DriveAction::WaitForEvent
        } else {
            DriveAction::PollForEvent
        },
        Phase::DrainingOutput { .. } => DriveAction::CollectOutput,
        Phase::Finished => DriveAction::Return,
        Phase::Failed => DriveAction::Fail,
    }
}

/// Goes on from the outcome of what the phase asked for.
pub fn advance(phase: Phase, outcome: Outcome) -> (next: Phase)
    requires
        answers(action_of(phase), outcome),
    ensures
        next == next_phase(phase, outcome),
{
    match outcome {
        Outcome::Event(event) => match phase {
            Phase::Feeding => match event {
                EncoderEvent::NeedInput => Phase::Submitting,
                EncoderEvent::HaveOutput => Phase::FeedingOutput,
                EncoderEvent::DrainComplete | EncoderEvent::Other => Phase::Feeding,
            },
            Phase::Draining { blocking } => match event {
                EncoderEvent::HaveOutput => Phase::DrainingOutput { blocking },
                EncoderEvent::DrainComplete => Phase::Finished,
                EncoderEvent::NeedInput | EncoderEvent::Other => Phase::Draining { blocking },
            },
            _ => Phase::Failed,
        },
        Outcome::NoEvents | Outcome::Shutdown => match phase {
            Phase::Draining { .. } => Phase::Finished,
            _ => Phase::Failed,
        },
        Outcome::Submitted => match phase {
            // Whatever the encoder finished in the meantime, without waiting.
            Phase::Submitting => Phase::Draining { blocking: false },
            Phase::Pushing => Phase::Pulling,
            _ => Phase::Failed,
        },
        Outcome::Collected { frame } => match phase {
            Phase::FeedingOutput => Phase::Feeding,
            Phase::Pulling => if frame {
                Phase::Pulling
            } else {
                Phase::Finished
            },
            Phase::DrainingOutput { blocking } => Phase::Draining { blocking },
            _ => Phase::Failed,
        },
        Outcome::Error => Phase::Failed,
    }
}

/// The phase after a run of outcomes.
pub open spec fn phase_after(phase: Phase, outcomes: Seq<Outcome>) -> Phase
    decreases outcomes.len(),
{
    if outcomes.len() == 0 {
        phase
    } else {
        next_phase(phase_after(phase, outcomes.drop_last()), outcomes.last())
    }
}

/// How many times the frame was handed to the encoder in a run of outcomes.
pub open spec fn submissions(phase: Phase, outcomes: Seq<Outcome>) -> int
    decreases outcomes.len(),
{
    if outcomes.len() == 0 {
        0
    } else {
        submissions(phase, outcomes.drop_last()) + (if action_of(
            phase_after(phase, outcomes.drop_last()),
        ) == DriveAction::SubmitFrame && outcomes.last() is Submitted {
            1int
        } else {
            0
        })
    }
}

/// Whether the frame is still to be handed over.
pub open spec fn owes_frame(phase: Phase) -> bool {
    phase is Feeding || phase is FeedingOutput || phase is Submitting || phase is Pushing
}

/// However the encoder behaves, a call of `encode` hands the frame over once if it finishes, and
/// never more than once; a call of `drain` hands nothing over.
pub proof fn law_frame_submitted_once(asynchronous: bool, outcomes: Seq<Outcome>)
    ensures
        0 <= submissions(encode_begins(asynchronous), outcomes) <= 1,
        phase_after(encode_begins(asynchronous), outcomes) is Finished ==> submissions(
            encode_begins(asynchronous),
            outcomes,
        ) == 1,
        submissions(drain_begins(asynchronous), outcomes) == 0,
{
    lemma_frame_owed(encode_begins(asynchronous), outcomes);
    lemma_frame_owed(drain_begins(asynchronous), outcomes);
}

/// What was handed over and what is still owed add up to what was owed.
proof fn lemma_frame_owed(phase: Phase, outcomes: Seq<Outcome>)
    requires
        !(phase is Failed),
    ensures
        ({
            let owed = if owes_frame(phase) {
                1int
            } else {
                0
            };
            let after = phase_after(phase, outcomes);
            let left = if owes_frame(after) {
                1int
            } else {
                0
            };
            &&& 0 <= submissions(phase, outcomes)
            &&& submissions(phase, outcomes) + left <= owed
            &&& !(after is Failed) ==> submissions(phase, outcomes) + left == owed
        }),
    decreases outcomes.len(),
{
    if outcomes.len() > 0 {
        lemma_frame_owed(phase, outcomes.drop_last());
    }
}

/// An asynchronous encoder only gets a frame right after it asked for one.
pub proof fn law_frame_is_asked_for(phase: Phase, outcome: Outcome)
    ensures
        next_phase(phase, outcome) is Submitting <==> phase is Feeding && outcome
            == Outcome::Event(EncoderEvent::NeedInput),
{
}

/// Every coded frame that an encoder announces is pulled out before anything else happens.
pub proof fn law_announced_output_is_collected(phase: Phase)
    requires
        action_of(phase) == DriveAction::WaitForEvent || action_of(phase)
            == DriveAction::PollForEvent,
    ensures
        action_of(next_phase(phase, Outcome::Event(EncoderEvent::HaveOutput)))
            == DriveAction::CollectOutput,
{
}

/// Whether every outcome of a run is one that the action before it can have.
pub open spec fn proper(phase: Phase, outcomes: Seq<Outcome>) -> bool
    decreases outcomes.len(),
{
    outcomes.len() == 0 || (proper(phase, outcomes.drop_last()) && answers(
        action_of(phase_after(phase, outcomes.drop_last())),
        outcomes.last(),
    ))
}

/// Draining an asynchronous encoder goes on as long as it has something to say: through a run of
/// events that do not complete the drain, and of output that is collected, the call neither ends
/// nor fails. It waits for the next event, or collects the output that was announced. At the end
/// of a stream it waits; after a frame was handed over it only looks.
pub proof fn law_drain_goes_on(blocking: bool, outcomes: Seq<Outcome>)
    requires
        proper(Phase::Draining { blocking }, outcomes),
        forall|i: int|
            0 <= i < outcomes.len() ==> {
                ||| #[trigger] outcomes[i] is Collected
                ||| outcomes[i] is Event && outcomes[i] != Outcome::Event(
                    EncoderEvent::DrainComplete,
                )
            },
    ensures
        ({
            let after = phase_after(Phase::Draining { blocking }, outcomes);
            let looks = if blocking {
                DriveAction::WaitForEvent
            } else {
                DriveAction::PollForEvent
            };
            &&& outcomes.len() > 0 && outcomes.last() == Outcome::Event(EncoderEvent::HaveOutput)
                ==> action_of(after) == DriveAction::CollectOutput
            &&& !(outcomes.len() > 0 && outcomes.last() == Outcome::Event(EncoderEvent::HaveOutput))
                ==> action_of(after) == looks
        }),
{
    lemma_drain_goes_on(blocking, outcomes);
}

proof fn lemma_drain_goes_on(blocking: bool, outcomes: Seq<Outcome>)
    requires
        proper(Phase::Draining { blocking }, outcomes),
        forall|i: int|
            0 <= i < outcomes.len() ==> {
                ||| #[trigger] outcomes[i] is Collected
                ||| outcomes[i] is Event && outcomes[i] != Outcome::Event(
                    EncoderEvent::DrainComplete,
                )
            },
    ensures
        phase_after(Phase::Draining { blocking }, outcomes) == (if outcomes.len() > 0
            && outcomes.last() == Outcome::Event(EncoderEvent::HaveOutput) {
            Phase::DrainingOutput { blocking }
        } else {
            Phase::Draining { blocking }
        }),
    decreases outcomes.len(),
{
    if outcomes.len() > 0 {
        let before = outcomes.drop_last();
        assert forall|i: int| 0 <= i < before.len() implies {
            ||| #[trigger] before[i] is Collected
            ||| before[i] is Event && before[i] != Outcome::Event(EncoderEvent::DrainComplete)
        } by {
            assert(before[i] == outcomes[i]);
        }
        assert(outcomes[outcomes.len() - 1] == outcomes.last());
        lemma_drain_goes_on(blocking, before);
    }
}

/// A drain ends when it is complete, when there are no more events, or when the encoder was shut
/// down, and at nothing else; `Return` is then what is left to do. It fails where getting the event
/// or collecting the output does.
pub proof fn law_drain_ends(outcomes: Seq<Outcome>, outcome: Outcome)
    requires
        proper(drain_begins(true), outcomes),
        forall|i: int|
            0 <= i < outcomes.len() ==> {
                ||| #[trigger] outcomes[i] is Collected
                ||| outcomes[i] is Event && outcomes[i] != Outcome::Event(
                    EncoderEvent::DrainComplete,
                )
            },
        answers(action_of(phase_after(drain_begins(true), outcomes)), outcome),
    ensures
        action_of(next_phase(phase_after(drain_begins(true), outcomes), outcome))
            == DriveAction::Return <==> outcome == Outcome::Event(EncoderEvent::DrainComplete)
            || outcome is NoEvents || outcome is Shutdown,
        action_of(next_phase(phase_after(drain_begins(true), outcomes), outcome))
            == DriveAction::Fail <==> outcome is Error,
{
    lemma_drain_goes_on(true, outcomes);
}

/// After a frame was handed over, the call ends as soon as there is no event, and where the drain
/// is complete or the encoder was shut down, and at no other event.
pub proof fn law_look_ends(outcomes: Seq<Outcome>, outcome: Outcome)
    requires
        proper(Phase::Draining { blocking: false }, outcomes),
        forall|i: int|
            0 <= i < outcomes.len() ==> {
                ||| #[trigger] outcomes[i] is Collected
                ||| outcomes[i] is Event && outcomes[i] != Outcome::Event(
                    EncoderEvent::DrainComplete,
                )
            },
        answers(
            action_of(phase_after(Phase::Draining { blocking: false }, outcomes)),
            outcome,
        ),
    ensures
        action_of(
            next_phase(phase_after(Phase::Draining { blocking: false }, outcomes), outcome),
        ) == DriveAction::Return <==> outcome == Outcome::Event(EncoderEvent::DrainComplete)
            || outcome is NoEvents || outcome is Shutdown,
        action_of(
            next_phase(phase_after(Phase::Draining { blocking: false }, outcomes), outcome),
        ) == DriveAction::Fail <==> outcome is Error,
{
    lemma_drain_goes_on(false, outcomes);
}

/// Whatever a call is doing, an error makes it fail, and nothing but an error, or an end of the
/// events before the frame was asked for, does.
pub proof fn law_errors_fail(phase: Phase, outcome: Outcome)
    requires
        answers(action_of(phase), outcome),
    ensures
        action_of(next_phase(phase, outcome)) == DriveAction::Fail <==> outcome is Error || (phase
            is Feeding && (outcome is NoEvents || outcome is Shutdown)),
        outcome is Error ==> next_phase(phase, outcome) is Failed,
{
}

/// Feeding an asynchronous encoder goes on until it asks for the frame: whatever else it announces,
/// the call waits on, and collects the output that was announced. When the frame is asked for, it
/// is submitted, and then the call looks for what was finished in the meantime.
pub proof fn law_feed_goes_on(outcomes: Seq<Outcome>)
    requires
        proper(encode_begins(true), outcomes),
        forall|i: int|
            0 <= i < outcomes.len() ==> {
                ||| #[trigger] outcomes[i] is Collected
                ||| outcomes[i] is Event && outcomes[i] != Outcome::Event(EncoderEvent::NeedInput)
            },
    ensures
        ({
            let after = phase_after(encode_begins(true), outcomes);
            let asked = next_phase(after, Outcome::Event(EncoderEvent::NeedInput));
            &&& outcomes.len() > 0 && outcomes.last() == Outcome::Event(EncoderEvent::HaveOutput)
                ==> action_of(after) == DriveAction::CollectOutput
            &&& !(outcomes.len() > 0 && outcomes.last() == Outcome::Event(EncoderEvent::HaveOutput))
                ==> {
                &&& action_of(after) == DriveAction::WaitForEvent
                &&& action_of(asked) == DriveAction::SubmitFrame
                &&& action_of(next_phase(asked, Outcome::Submitted)) == DriveAction::PollForEvent
                &&& next_phase(asked, Outcome::Submitted) == (Phase::Draining { blocking: false })
                &&& action_of(next_phase(after, Outcome::NoEvents)) == DriveAction::Fail
                &&& action_of(next_phase(after, Outcome::Shutdown)) == DriveAction::Fail
            }
            &&& action_of(next_phase(after, Outcome::Error)) == DriveAction::Fail
        }),
{
    lemma_feed_goes_on(outcomes);
}

proof fn lemma_feed_goes_on(outcomes: Seq<Outcome>)
    requires
        proper(Phase::Feeding, outcomes),
        forall|i: int|
            0 <= i < outcomes.len() ==> {
                ||| #[trigger] outcomes[i] is Collected
                ||| outcomes[i] is Event && outcomes[i] != Outcome::Event(EncoderEvent::NeedInput)
            },
    ensures
        phase_after(Phase::Feeding, outcomes) == (if outcomes.len() > 0 && outcomes.last()
            == Outcome::Event(EncoderEvent::HaveOutput) {
            Phase::FeedingOutput
        } else {
            Phase::Feeding
        }),
    decreases outcomes.len(),
{
    if outcomes.len() > 0 {
        let before = outcomes.drop_last();
        assert forall|i: int| 0 <= i < before.len() implies {
            ||| #[trigger] before[i] is Collected
            ||| before[i] is Event && before[i] != Outcome::Event(EncoderEvent::NeedInput)
        } by {
            assert(before[i] == outcomes[i]);
        }
        assert(outcomes[outcomes.len() - 1] == outcomes.last());
        lemma_feed_goes_on(before);
    }
}

/// A synchronous encoder gets the frame at once and is then pulled for as long as it gives coded
/// frames, however many; the first time it gives none, the call is over. Draining is the same
/// without a frame.
pub proof fn law_pull_goes_on(frames: nat)
    ensures
        action_of(encode_begins(false)) == DriveAction::SubmitFrame,
        action_of(encode_begins(true)) == DriveAction::WaitForEvent,
        action_of(drain_begins(true)) == DriveAction::WaitForEvent,
        ({
            let pushed = next_phase(encode_begins(false), Outcome::Submitted);
            let given = Seq::new(frames, |i: int| Outcome::Collected { frame: true });
            &&& action_of(phase_after(pushed, given)) == DriveAction::CollectOutput
            &&& action_of(phase_after(drain_begins(false), given)) == DriveAction::CollectOutput
            &&& action_of(
                next_phase(phase_after(pushed, given), Outcome::Collected { frame: false }),
            ) == DriveAction::Return
            &&& action_of(
                next_phase(
                    phase_after(drain_begins(false), given),
                    Outcome::Collected { frame: false },
                ),
            ) == DriveAction::Return
        }),
{
    lemma_pull_goes_on(frames);
}

proof fn lemma_pull_goes_on(frames: nat)
    ensures
        phase_after(
            Phase::Pulling,
            Seq::new(frames, |i: int| Outcome::Collected { frame: true }),
        ) == Phase::Pulling,
    decreases frames,
{
    if frames > 0 {
        let given = Seq::new(frames, |i: int| Outcome::Collected { frame: true });
        let fewer = Seq::new((frames - 1) as nat, |i: int| Outcome::Collected { frame: true });
        assert(given.drop_last() =~= fewer);
        lemma_pull_goes_on((frames - 1) as nat);
    }
}

/// How many outputs an encoder announced in a run of outcomes.
pub open spec fn announced(outcomes: Seq<Outcome>) -> int
    decreases outcomes.len(),
{
    if outcomes.len() == 0 {
        0
    } else {
        announced(outcomes.drop_last()) + (if outcomes.last() == Outcome::Event(
            EncoderEvent::HaveOutput,
        ) {
            1int
        } else {
            0
        })
    }
}

/// How many outputs were collected in a run of outcomes.
pub open spec fn collected(outcomes: Seq<Outcome>) -> int
    decreases outcomes.len(),
{
    if outcomes.len() == 0 {
        0
    } else {
        collected(outcomes.drop_last()) + (if outcomes.last() is Collected {
            1int
        } else {
            0
        })
    }
}

/// With an asynchronous encoder, every output that it announces is collected, and no other: at any
/// point of a call that has not failed, as many were collected as announced, but for one that is
/// collected next. So none is missing when the call returns.
pub proof fn law_outputs_are_collected(drains: bool, outcomes: Seq<Outcome>)
    requires
        proper(
            if drains {
                drain_begins(true)
            } else {
                encode_begins(true)
            },
            outcomes,
        ),
    ensures
        ({
            let after = phase_after(
                if drains {
                    drain_begins(true)
                } else {
                    encode_begins(true)
                },
                outcomes,
            );
            &&& action_of(after) == DriveAction::Return ==> collected(outcomes) == announced(
                outcomes,
            )
            &&& action_of(after) == DriveAction::CollectOutput ==> collected(outcomes) + 1
                == announced(outcomes)
            &&& action_of(after) == DriveAction::WaitForEvent || action_of(after)
                == DriveAction::PollForEvent ==> collected(outcomes) == announced(outcomes)
        }),
{
    lemma_outputs_are_collected(
        if drains {
            drain_begins(true)
        } else {
            encode_begins(true)
        },
        outcomes,
    );
}

proof fn lemma_outputs_are_collected(phase: Phase, outcomes: Seq<Outcome>)
    requires
        phase is Feeding || phase is Draining,
        proper(phase, outcomes),
    ensures
        ({
            let after = phase_after(phase, outcomes);
            &&& !(after is Pulling) && !(after is Pushing)
            &&& after is FeedingOutput || after is DrainingOutput ==> collected(outcomes) + 1
                == announced(outcomes)
            &&& !(after is FeedingOutput) && !(after is DrainingOutput) && !(after is Failed)
                ==> collected(outcomes) == announced(outcomes)
        }),
    decreases outcomes.len(),
{
    if outcomes.len() > 0 {
        lemma_outputs_are_collected(phase, outcomes.drop_last());
    }
}

/// Once the frame is handed over, `encode` never waits for an event again.
pub proof fn law_encode_does_not_wait(outcomes: Seq<Outcome>)
    ensures
        ({
            let after = phase_after(Phase::Draining { blocking: false }, outcomes);
            action_of(after) != DriveAction::WaitForEvent
        }),
{
    lemma_stays_nonblocking(outcomes);
}

proof fn lemma_stays_nonblocking(outcomes: Seq<Outcome>)
    ensures
        ({
            let after = phase_after(Phase::Draining { blocking: false }, outcomes);
            ||| after == Phase::Draining { blocking: false }
            ||| after == Phase::DrainingOutput { blocking: false }
            ||| after is Finished
            ||| after is Failed
        }),
    decreases outcomes.len(),
{
    if outcomes.len() > 0 {
        lemma_stays_nonblocking(outcomes.drop_last());
    }
}

} // verus!
