//! The controller itself: the endpoint handle it holds and the steps it
//! takes.

use crate::audio::machine::{
    at_rest, awaited, begin, events_left, lemma_every_event_makes_progress, lemma_replay_more,
    replay, transition, Action, Applied, ControllerState, Event, InitError, Phase, Step,
    SuppressError,
};
use crate::audio::operation::{accounts_for, answered_at, carried_out, may_answer, recounts};
use vstd::prelude::*;

verus! {

/// Holds the one live handle `H` to the default audio endpoint and the
/// progress of the operation under way.
#[derive(Debug)]
pub struct AudioController<H> {
    endpoint: H,
    phase: Phase,
    target: bool,
}

impl<H> View for AudioController<H> {
    type V = ControllerState<H>;

    closed spec fn view(&self) -> ControllerState<H> {
        ControllerState { endpoint: self.endpoint, phase: self.phase, target: self.target }
    }
}

impl<H> AudioController<H> {
    /// A controller at rest on the endpoint that was acquired for it. Where
    /// none could be acquired there is no controller: the failure is handed
    /// back, and nothing is tried again.
    pub fn new(acquired: Option<H>) -> (made: Result<AudioController<H>, InitError>)
        ensures
            match acquired {
                Some(endpoint) => made is Ok && made->Ok_0@ == at_rest(endpoint),
                None => made == Err::<AudioController<H>, InitError>(InitError::NoEndpoint),
            },
    {
        match acquired {
            Some(endpoint) => Ok(AudioController { endpoint, phase: Phase::Idle, target: false }),
            None => Err(InitError::NoEndpoint),
        }
    }

    /// The endpoint handle held: the one on which the pending action is to
    /// be carried out.
    pub fn endpoint(&self) -> (endpoint: &H)
        ensures
            *endpoint == self@.endpoint,
    {
        &self.endpoint
    }

    /// The action that the controller is waiting for, if an operation is
    /// under way.
    pub fn pending(&self) -> (action: Option<Action>)
        ensures
            action == awaited(self@.phase, self@.target),
    {
        match self.phase {
            Phase::Idle => None,
            Phase::Reading { .. } => Some(Action::ReadMute),
            Phase::Reacquiring { .. } => Some(Action::Reacquire),
            Phase::Writing { .. } => Some(Action::WriteMute(self.target)),
        }
    }

    /// Begins an operation that brings the endpoint to the mute state
    /// `mute`, and asks for its first action, a read. An operation that was
    /// under way is given up.
    pub fn begin(&mut self, mute: bool) -> (first: Action)
        ensures
            final(self)@ == begin(old(self)@, mute),
            first == Action::ReadMute,
    {
        self.phase = Phase::Reading { retried: false };
        self.target = mute;
        Action::ReadMute
    }

    /// Takes in what came of the pending action and answers with the next
    /// action or with the operation's result.
    pub fn advance(&mut self, event: Event<H>) -> (step: Step)
        ensures
            (final(self)@, step) == transition(old(self)@, event),
    {
        let target = self.target;
        let (phase, step) = match self.phase {
            Phase::Idle => (Phase::Idle, Step::Idle),
            Phase::Reading { retried } => match event {
                Event::MuteRead(current) => if current == target {
                    (Phase::Idle, Step::Done(Ok(Applied::Unchanged)))
                } else {
                    (Phase::Writing { retried: false }, Step::Next(Action::WriteMute(target)))
                },
                _ => if retried {
                    (Phase::Idle, Step::Done(Err(SuppressError::DeviceUnavailable)))
                } else {
                    (Phase::Reacquiring { for_write: false }, Step::Next(Action::Reacquire))
                },
            },
            Phase::Reacquiring { for_write } => match event {
                Event::Acquired(fresh) => {
                    self.endpoint = fresh;
                    if for_write {
                        (Phase::Writing { retried: true }, Step::Next(Action::WriteMute(target)))
                    } else {
                        (Phase::Reading { retried: true }, Step::Next(Action::ReadMute))
                    }
                },
                _ => (Phase::Idle, Step::Done(Err(SuppressError::DeviceUnavailable))),
            },
            Phase::Writing { retried } => match event {
                Event::Written => (Phase::Idle, Step::Done(Ok(Applied::Switched(target)))),
                _ => if retried {
                    (Phase::Idle, Step::Done(Err(SuppressError::DeviceUnavailable)))
                } else {
                    (Phase::Reacquiring { for_write: true }, Step::Next(Action::Reacquire))
                },
            },
        };
        self.phase = phase;
        step
    }

    /// Brings the endpoint to the mute state `mute`: a whole operation,
    /// with `read`, `write` and `acquire` doing the work on the endpoint.
    ///
    /// `read` reports the endpoint's mute state, or `None` where the read
    /// failed; `write` tells whether the write succeeded; `acquire` yields a
    /// handle to the current default endpoint, or `None`.
    ///
    /// The result is that of the operation which the outcomes of these
    /// calls, taken as events, carry the controller through.
    pub fn set_mute<R, W, A>(
        &mut self,
        mute: bool,
        read: &R,
        write: &W,
        acquire: &A,
    ) -> (result: Result<Applied, SuppressError>) where
        R: Fn(&H) -> Option<bool>,
        W: Fn(&H, bool) -> bool,
        A: Fn() -> Option<H>,

        requires
            forall|endpoint: &H| #[trigger] read.requires((endpoint,)),
            forall|endpoint: &H, value: bool| #[trigger] write.requires((endpoint, value)),
            acquire.requires(()),
        ensures
            carried_out(old(self)@, mute, read, write, acquire, final(self)@, result),
    {
        let ghost start = begin(self@, mute);
        let ghost mut events: Seq<Event<H>> = Seq::empty();
        let mut action = self.begin(mute);
        loop
            invariant
                forall|endpoint: &H| #[trigger] read.requires((endpoint,)),
                forall|endpoint: &H, value: bool| #[trigger] write.requires((endpoint, value)),
                acquire.requires(()),
                start == begin(old(self)@, mute),
                replay(start, events).0 == self@,
                awaited(self@.phase, self@.target) == Some(action),
                recounts(events, start, read, write, acquire),
                events.len() + events_left(self@.phase) <= 6,
            decreases events_left(self@.phase),
        {
            let ghost before = self@;
            let event = match action {
                Action::ReadMute => Event::from_read(read(&self.endpoint)),
                Action::Reacquire => Event::from_acquire(acquire()),
                Action::WriteMute(value) => Event::from_write(write(&self.endpoint, value)),
            };
            let ghost taken = event;
            proof {
                assert(may_answer(read, write, acquire, before.endpoint, action, taken));
                lemma_replay_more(start, events, taken);
                lemma_every_event_makes_progress(before, taken);
                assert forall|i: int| 0 <= i < events.len() + 1 implies answered_at(
                    events.push(taken),
                    start,
                    read,
                    write,
                    acquire,
                    i,
                ) by {
                    if i < events.len() {
                        assert(answered_at(events, start, read, write, acquire, i));
                        assert(events.push(taken).take(i) =~= events.take(i));
                    } else {
                        assert(events.push(taken).take(i) =~= events);
                    }
                }
                events = events.push(taken);
            }
            match self.advance(event) {
                Step::Next(next) => {
                    action = next;
                },
                Step::Done(result) => {
                    proof {
                        assert(accounts_for(
                            events,
                            old(self)@,
                            mute,
                            read,
                            write,
                            acquire,
                            self@,
                            result,
                        ));
                    }
                    return result;
                },
                Step::Idle => {
                    // not reached: an operation was under way
                    proof {
                        assert(false);
                    }
                    return Err(SuppressError::DeviceUnavailable);
                },
            }
        }
    }
}

} // verus!
