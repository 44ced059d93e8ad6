//! Operations on an endpoint that stays valid: the setting in which
//! applying a mute state is idempotent.

use crate::audio::machine::{
    awaited, begin, transition, Action, Applied, ControllerState, Event, Phase, Step,
};
use vstd::prelude::*;

verus! {

/// How an endpoint that stays valid answers an action, and the mute state
/// it is in afterwards: a read reports its state, a write sets it. It is
/// never in need of a successor and offers none.
pub open spec fn steady_answer<H>(muted: bool, action: Action) -> (Event<H>, bool) {
    match action {
        Action::ReadMute => (Event::MuteRead(muted), muted),
        Action::WriteMute(value) => (Event::Written, value),
        Action::Reacquire => (Event::Failed, muted),
    }
}

/// An operation carried through on an endpoint that stays valid.
pub struct Served<H> {
    /// The controller afterwards.
    pub controller: ControllerState<H>,
    /// The endpoint's mute state afterwards.
    pub muted: bool,
    /// How many writes the endpoint received.
    pub writes: nat,
    /// How many changes of the mute state were reported.
    pub switches: nat,
}

/// Carries out what the controller asks for, action by action, on an
/// endpoint that stays valid and is in the state `muted`, until the
/// controller is at rest or `budget` actions are spent.
pub open spec fn serve<H>(state: ControllerState<H>, muted: bool, budget: nat) -> Served<H>
    decreases budget,
{
    match awaited(state.phase, state.target) {
        Some(action) if budget > 0 => {
            let (event, muted_after) = steady_answer::<H>(muted, action);
            let (after, step) = transition(state, event);
            let rest = serve(after, muted_after, (budget - 1) as nat);
            Served {
                controller: rest.controller,
                muted: rest.muted,
                writes: rest.writes + if action is WriteMute { 1nat } else { 0nat },
                switches: rest.switches + if step matches Step::Done(Ok(Applied::Switched(_))) {
                    1nat
                } else {
                    0nat
                },
            }
        },
        _ => Served { controller: state, muted, writes: 0, switches: 0 },
    }
}

/// `calls` operations towards the same state `mute`, one after the other, on
/// an endpoint that stays valid and starts in the state `muted`.
pub open spec fn serve_repeatedly<H>(
    state: ControllerState<H>,
    muted: bool,
    mute: bool,
    calls: nat,
) -> Served<H>
    decreases calls,
{
    if calls == 0 {
        Served { controller: state, muted, writes: 0, switches: 0 }
    } else {
        let before = serve_repeatedly(state, muted, mute, (calls - 1) as nat);
        let last = serve(begin(before.controller, mute), before.muted, 6);
        Served {
            controller: last.controller,
            muted: last.muted,
            writes: before.writes + last.writes,
            switches: before.switches + last.switches,
        }
    }
}

/// One operation on an endpoint that stays valid: where the endpoint is in
/// the wanted state nothing is written and nothing reported; else one write
/// brings it there, and one change is reported.
pub proof fn lemma_writes_only_on_change<H>(state: ControllerState<H>, muted: bool, mute: bool)
    ensures
        serve(begin(state, mute), muted, 6) == (Served {
            controller: ControllerState {
                endpoint: state.endpoint,
                phase: Phase::Idle,
                target: mute,
            },
            muted: mute,
            writes: if muted == mute { 0nat } else { 1nat },
            switches: if muted == mute { 0nat } else { 1nat },
        }),
{
    reveal_with_fuel(serve, 4);
}

/// Applying the same state again and again is idempotent: of any number of
/// operations towards `mute` on an endpoint that stays valid, only the
/// first writes, and only if it found the endpoint in the other state; all
/// that follow write nothing and report nothing.
pub proof fn lemma_apply_is_idempotent<H>(
    state: ControllerState<H>,
    muted: bool,
    mute: bool,
    calls: nat,
)
    requires
        calls >= 1,
    ensures
        serve_repeatedly(state, muted, mute, calls) == serve(begin(state, mute), muted, 6),
        serve_repeatedly(state, muted, mute, calls).writes <= 1,
        serve_repeatedly(state, muted, mute, calls).writes == 1 <==> muted != mute,
    decreases calls,
{
    lemma_writes_only_on_change(state, muted, mute);
    if calls > 1 {
        lemma_apply_is_idempotent(state, muted, mute, (calls - 1) as nat);
        let before = serve_repeatedly(state, muted, mute, (calls - 1) as nat);
        lemma_writes_only_on_change(before.controller, before.muted, mute);
    }
}

} // verus!
