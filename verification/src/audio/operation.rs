//! A whole operation carried out by functions that read, write and acquire
//! the endpoint: how their outcomes account for what the controller did.

use crate::audio::machine::{
    acquire_event, awaited, begin, lemma_replay_take, lemma_target_is_kept, read_event, replay,
    write_event, Action, Applied, ControllerState, Event, Phase, Step, SuppressError,
};
use vstd::prelude::*;

verus! {

/// `event` is a way for `action` to come out when `read`, `write` and
/// `acquire` carry it out on `endpoint`.
pub open spec fn may_answer<H, R, W, A>(
    read: &R,
    write: &W,
    acquire: &A,
    endpoint: H,
    action: Action,
    event: Event<H>,
) -> bool where R: Fn(&H) -> Option<bool>, W: Fn(&H, bool) -> bool, A: Fn() -> Option<H> {
    match action {
        Action::ReadMute => exists|found: Option<bool>| #[trigger]
            read.ensures((&endpoint,), found) && event == read_event::<H>(found),
        Action::Reacquire => exists|fresh: Option<H>| #[trigger]
            acquire.ensures((), fresh) && event == acquire_event(fresh),
        Action::WriteMute(value) => exists|written: bool| #[trigger]
            write.ensures((&endpoint, value), written) && event == write_event::<H>(written),
    }
}

/// The event at `index` answers the action that the controller awaited
/// after the events before it, on the endpoint held at that point.
pub open spec fn answered_at<H, R, W, A>(
    events: Seq<Event<H>>,
    start: ControllerState<H>,
    read: &R,
    write: &W,
    acquire: &A,
    index: int,
) -> bool where R: Fn(&H) -> Option<bool>, W: Fn(&H, bool) -> bool, A: Fn() -> Option<H> {
    let at = replay(start, events.take(index)).0;
    match awaited(at.phase, at.target) {
        Some(action) => may_answer(read, write, acquire, at.endpoint, action, events[index]),
        None => false,
    }
}

/// `events` recounts what `read`, `write` and `acquire` did for a
/// controller that set out from `start`: each event answers the action
/// awaited at its turn.
pub open spec fn recounts<H, R, W, A>(
    events: Seq<Event<H>>,
    start: ControllerState<H>,
    read: &R,
    write: &W,
    acquire: &A,
) -> bool where R: Fn(&H) -> Option<bool>, W: Fn(&H, bool) -> bool, A: Fn() -> Option<H> {
    forall|index: int|
        0 <= index < events.len() ==> #[trigger] answered_at(
            events,
            start,
            read,
            write,
            acquire,
            index,
        )
}

/// `events` accounts for an operation towards `mute` that took the
/// controller from `before` to `after` with `result`: each event answers
/// the action awaited at its turn, and the last of them ends the operation.
pub open spec fn accounts_for<H, R, W, A>(
    events: Seq<Event<H>>,
    before: ControllerState<H>,
    mute: bool,
    read: &R,
    write: &W,
    acquire: &A,
    after: ControllerState<H>,
    result: Result<Applied, SuppressError>,
) -> bool where R: Fn(&H) -> Option<bool>, W: Fn(&H, bool) -> bool, A: Fn() -> Option<H> {
    &&& 1 <= events.len() <= 6
    &&& recounts(events, begin(before, mute), read, write, acquire)
    &&& replay(begin(before, mute), events).0 == after
    &&& replay(begin(before, mute), events).1.last() == Step::Done(result)
}

/// An operation towards `mute` was carried out from `before` to `after`
/// with `result`: some run of events, each an answer of `read`, `write` or
/// `acquire` to the action awaited, accounts for it.
pub open spec fn carried_out<H, R, W, A>(
    before: ControllerState<H>,
    mute: bool,
    read: &R,
    write: &W,
    acquire: &A,
    after: ControllerState<H>,
    result: Result<Applied, SuppressError>,
) -> bool where R: Fn(&H) -> Option<bool>, W: Fn(&H, bool) -> bool, A: Fn() -> Option<H> {
    exists|events: Seq<Event<H>>| #[trigger]
        accounts_for(events, before, mute, read, write, acquire, after, result)
}

/// An operation ends as its last event tells: unchanged where a read found
/// the wanted state, switched where a write succeeded, and unavailable
/// where the last thing tried failed. Nothing else ends an operation.
pub proof fn lemma_result_follows_last_event<H, R, W, A>(
    events: Seq<Event<H>>,
    before: ControllerState<H>,
    mute: bool,
    read: &R,
    write: &W,
    acquire: &A,
    after: ControllerState<H>,
    result: Result<Applied, SuppressError>,
) where R: Fn(&H) -> Option<bool>, W: Fn(&H, bool) -> bool, A: Fn() -> Option<H>
    requires
        accounts_for(events, before, mute, read, write, acquire, after, result),
    ensures
        match events.last() {
            Event::MuteRead(found) => found == mute && result == Ok::<Applied, SuppressError>(
                Applied::Unchanged,
            ),
            Event::Written => result == Ok::<Applied, SuppressError>(Applied::Switched(mute)),
            Event::Failed => result == Err::<Applied, SuppressError>(
                SuppressError::DeviceUnavailable,
            ),
            Event::Acquired(_) => false,
        },
        after.phase is Idle,
        after.target == mute,
{
    let start = begin(before, mute);
    let last = events.len() - 1;
    assert(answered_at(events, start, read, write, acquire, last));
    lemma_replay_take(start, events, last);
    assert(events.take(events.len() as int) =~= events);
    lemma_target_is_kept(start, events.take(last));
}

/// What the functions do decides the events, on an endpoint that stays
/// valid: where every read reports the state `muted` and every write
/// succeeds, an operation is a read alone if `muted` is the wanted state,
/// and a read followed by one write if it is not. It succeeds, reports a
/// switch only in the second case, and keeps the endpoint held.
pub proof fn lemma_steady_endpoint_decides_events<H, R, W, A>(
    events: Seq<Event<H>>,
    before: ControllerState<H>,
    mute: bool,
    read: &R,
    write: &W,
    acquire: &A,
    after: ControllerState<H>,
    result: Result<Applied, SuppressError>,
    muted: bool,
) where R: Fn(&H) -> Option<bool>, W: Fn(&H, bool) -> bool, A: Fn() -> Option<H>
    requires
        accounts_for(events, before, mute, read, write, acquire, after, result),
        forall|endpoint: &H, found: Option<bool>| #[trigger]
            read.ensures((endpoint,), found) ==> found == Some(muted),
        forall|endpoint: &H, value: bool, written: bool| #[trigger]
            write.ensures((endpoint, value), written) ==> written,
    ensures
        events == if muted == mute {
            seq![Event::<H>::MuteRead(muted)]
        } else {
            seq![Event::<H>::MuteRead(muted), Event::<H>::Written]
        },
        result == Ok::<Applied, SuppressError>(
            if muted == mute {
                Applied::Unchanged
            } else {
                Applied::Switched(mute)
            },
        ),
        after == (ControllerState { endpoint: before.endpoint, phase: Phase::Idle, target: mute }),
{
    let start = begin(before, mute);
    assert(events.take(0) =~= Seq::<Event<H>>::empty());
    assert(events.take(events.len() as int) =~= events);
    assert(answered_at(events, start, read, write, acquire, 0));
    lemma_replay_take(start, events, 0);
    if events.len() > 1 {
        assert(answered_at(events, start, read, write, acquire, 1));
        lemma_replay_take(start, events, 1);
        if events.len() > 2 {
            assert(answered_at(events, start, read, write, acquire, 2));
        }
    }
    if muted == mute {
        assert(events =~= seq![Event::<H>::MuteRead(muted)]);
    } else {
        assert(events =~= seq![Event::<H>::MuteRead(muted), Event::<H>::Written]);
    }
}

/// The same on a stale endpoint with a sound successor: where the read on
/// the endpoint held fails, the acquisition yields `fresh`, the read on
/// `fresh` finds the other state than the wanted one and the write on
/// `fresh` succeeds, the operation is those four events and no more. It
/// succeeds with one write, made on `fresh`, which is then the endpoint
/// held.
pub proof fn lemma_stale_endpoint_is_replaced<H, R, W, A>(
    events: Seq<Event<H>>,
    before: ControllerState<H>,
    mute: bool,
    read: &R,
    write: &W,
    acquire: &A,
    after: ControllerState<H>,
    result: Result<Applied, SuppressError>,
    fresh: H,
) where R: Fn(&H) -> Option<bool>, W: Fn(&H, bool) -> bool, A: Fn() -> Option<H>
    requires
        accounts_for(events, before, mute, read, write, acquire, after, result),
        forall|found: Option<bool>| #[trigger]
            read.ensures((&before.endpoint,), found) ==> found is None,
        forall|got: Option<H>| #[trigger] acquire.ensures((), got) ==> got == Some(fresh),
        forall|found: Option<bool>| #[trigger]
            read.ensures((&fresh,), found) ==> found == Some(!mute),
        forall|value: bool, written: bool| #[trigger]
            write.ensures((&fresh, value), written) ==> written,
    ensures
        events == seq![
            Event::Failed,
            Event::Acquired(fresh),
            Event::MuteRead(!mute),
            Event::Written,
        ],
        result == Ok::<Applied, SuppressError>(Applied::Switched(mute)),
        after == (ControllerState { endpoint: fresh, phase: Phase::Idle, target: mute }),
{
    let start = begin(before, mute);
    assert(events.take(0) =~= Seq::<Event<H>>::empty());
    assert(events.take(events.len() as int) =~= events);
    assert(answered_at(events, start, read, write, acquire, 0));
    lemma_replay_take(start, events, 0);
    assert(events.len() > 1);
    assert(answered_at(events, start, read, write, acquire, 1));
    lemma_replay_take(start, events, 1);
    assert(events.len() > 2);
    assert(answered_at(events, start, read, write, acquire, 2));
    lemma_replay_take(start, events, 2);
    assert(events.len() > 3);
    assert(answered_at(events, start, read, write, acquire, 3));
    lemma_replay_take(start, events, 3);
    if events.len() > 4 {
        assert(answered_at(events, start, read, write, acquire, 4));
    }
    assert(events =~= seq![
        Event::Failed,
        Event::Acquired(fresh),
        Event::MuteRead(!mute),
        Event::Written,
    ]);
}

/// The same where the successor is stale too: where every read fails and
/// the acquisition yields `fresh`, the operation is a failed read, the
/// acquisition and a second failed read. It ends as unavailable without a
/// write, and `fresh` is the endpoint held for the next operation.
pub proof fn lemma_stale_successor_is_kept<H, R, W, A>(
    events: Seq<Event<H>>,
    before: ControllerState<H>,
    mute: bool,
    read: &R,
    write: &W,
    acquire: &A,
    after: ControllerState<H>,
    result: Result<Applied, SuppressError>,
    fresh: H,
) where R: Fn(&H) -> Option<bool>, W: Fn(&H, bool) -> bool, A: Fn() -> Option<H>
    requires
        accounts_for(events, before, mute, read, write, acquire, after, result),
        forall|endpoint: &H, found: Option<bool>| #[trigger]
            read.ensures((endpoint,), found) ==> found is None,
        forall|got: Option<H>| #[trigger] acquire.ensures((), got) ==> got == Some(fresh),
    ensures
        events == seq![Event::Failed, Event::Acquired(fresh), Event::Failed],
        result == Err::<Applied, SuppressError>(SuppressError::DeviceUnavailable),
        after == (ControllerState { endpoint: fresh, phase: Phase::Idle, target: mute }),
{
    let start = begin(before, mute);
    assert(events.take(0) =~= Seq::<Event<H>>::empty());
    assert(events.take(events.len() as int) =~= events);
    assert(answered_at(events, start, read, write, acquire, 0));
    lemma_replay_take(start, events, 0);
    assert(events.len() > 1);
    assert(answered_at(events, start, read, write, acquire, 1));
    lemma_replay_take(start, events, 1);
    assert(events.len() > 2);
    assert(answered_at(events, start, read, write, acquire, 2));
    lemma_replay_take(start, events, 2);
    if events.len() > 3 {
        assert(answered_at(events, start, read, write, acquire, 3));
    }
    assert(events =~= seq![Event::Failed, Event::Acquired(fresh), Event::Failed]);
}

} // verus!
