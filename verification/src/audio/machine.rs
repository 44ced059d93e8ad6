//! The mute operation as a state machine: what the controller awaits in
//! each phase, and where each event takes it.

use vstd::prelude::*;

verus! {

/// Why an operation could not bring the endpoint to the wanted state.
#[derive(Clone, Copy, PartialEq, Eq, Debug)]
pub enum SuppressError {
    /// The endpoint failed, and so did the attempt on a fresh one.
    DeviceUnavailable,
}

/// Why a controller could not be built.
#[derive(Clone, Copy, PartialEq, Eq, Debug)]
pub enum InitError {
    /// No audio endpoint could be acquired to begin with.
    NoEndpoint,
}

/// Work that the controller asks its caller to perform.
#[derive(Clone, Copy, PartialEq, Eq, Debug)]
pub enum Action {
    /// Read the mute state of the held endpoint.
    ReadMute,
    /// Acquire a handle to the current default endpoint.
    Reacquire,
    /// Set the mute state of the held endpoint to the given value.
    WriteMute(bool),
}

/// What came of an [`Action`].
#[derive(PartialEq, Eq, Debug)]
pub enum Event<H> {
    /// The read succeeded and found this mute state.
    MuteRead(bool),
    /// A fresh endpoint handle was acquired.
    Acquired(H),
    /// The write succeeded.
    Written,
    /// The action failed.
    Failed,
}

/// How a successful operation left the endpoint.
#[derive(Clone, Copy, PartialEq, Eq, Debug)]
pub enum Applied {
    /// The endpoint was in the wanted state already; nothing was written.
    Unchanged,
    /// The endpoint was switched to this mute state.
    Switched(bool),
}

/// The controller's answer to an event.
#[derive(Clone, Copy, PartialEq, Eq, Debug)]
pub enum Step {
    /// The operation goes on with this action.
    Next(Action),
    /// The operation is over.
    Done(Result<Applied, SuppressError>),
    /// No operation was under way; the event was dropped.
    Idle,
}

/// Where an operation stands.
#[derive(Clone, Copy, PartialEq, Eq, Debug)]
pub enum Phase {
    /// No operation is under way.
    Idle,
    /// A read is awaited; `retried` once a fresh endpoint has been tried.
    Reading { retried: bool },
    /// A fresh endpoint is awaited, to repeat the read or, with `for_write`,
    /// the write.
    Reacquiring { for_write: bool },
    /// A write is awaited; `retried` once a fresh endpoint has been tried.
    Writing { retried: bool },
}

/// What a controller stands for in contracts.
pub struct ControllerState<H> {
    /// The endpoint handle held.
    pub endpoint: H,
    /// Where the operation under way stands.
    pub phase: Phase,
    /// The mute state wanted by the operation begun last.
    pub target: bool,
}

/// A controller at rest on `endpoint`.
pub open spec fn at_rest<H>(endpoint: H) -> ControllerState<H> {
    ControllerState { endpoint, phase: Phase::Idle, target: false }
}

/// The action awaited in a phase of an operation towards `target`.
pub open spec fn awaited(phase: Phase, target: bool) -> Option<Action> {
    match phase {
        Phase::Idle => None,
        Phase::Reading { .. } => Some(Action::ReadMute),
        Phase::Reacquiring { .. } => Some(Action::Reacquire),
        Phase::Writing { .. } => Some(Action::WriteMute(target)),
    }
}

/// The state in which an operation towards `mute` begins: a first read is
/// awaited on the endpoint held.
pub open spec fn begin<H>(state: ControllerState<H>, mute: bool) -> ControllerState<H> {
    ControllerState {
        endpoint: state.endpoint,
        phase: Phase::Reading { retried: false },
        target: mute,
    }
}

/// The phase that follows `phase` on `event`, or `Idle` where the operation
/// ends. Only the event that reports the awaited action's success moves an
/// operation forward; any other counts as the failure of that action.
pub open spec fn next_phase<H>(phase: Phase, target: bool, event: Event<H>) -> Phase {
    match phase {
        Phase::Idle => Phase::Idle,
        Phase::Reading { retried } => match event {
            Event::MuteRead(current) => if current == target {
                Phase::Idle
            } else {
                Phase::Writing { retried: false }
            },
            _ => if retried {
                Phase::Idle
            } else {
                Phase::Reacquiring { for_write: false }
            },
        },
        Phase::Reacquiring { for_write } => match event {
            Event::Acquired(_) => if for_write {
                Phase::Writing { retried: true }
            } else {
                Phase::Reading { retried: true }
            },
            _ => Phase::Idle,
        },
        Phase::Writing { retried } => match event {
            Event::Written => Phase::Idle,
            _ => if retried {
                Phase::Idle
            } else {
                Phase::Reacquiring { for_write: true }
            },
        },
    }
}

/// How an operation that ends on `event` in `phase` ends: unchanged after a
/// read of the wanted state, switched after a write, and unavailable in
/// every other case.
pub open spec fn outcome<H>(phase: Phase, target: bool, event: Event<H>) -> Result<
    Applied,
    SuppressError,
> {
    match (phase, event) {
        (Phase::Reading { .. }, Event::MuteRead(current)) if current == target => Ok(
            Applied::Unchanged,
        ),
        (Phase::Writing { .. }, Event::Written) => Ok(Applied::Switched(target)),
        _ => Err(SuppressError::DeviceUnavailable),
    }
}

/// The endpoint held after `event`: the fresh one where an awaited
/// acquisition succeeded, which takes the place of the old; else the same.
pub open spec fn next_endpoint<H>(state: ControllerState<H>, event: Event<H>) -> H {
    match (state.phase, event) {
        (Phase::Reacquiring { .. }, Event::Acquired(fresh)) => fresh,
        _ => state.endpoint,
    }
}

/// The controller's state after `event`, and its answer.
pub open spec fn transition<H>(state: ControllerState<H>, event: Event<H>) -> (
    ControllerState<H>,
    Step,
) {
    let phase = next_phase(state.phase, state.target, event);
    let after = ControllerState {
        endpoint: next_endpoint(state, event),
        phase,
        target: state.target,
    };
    let step = match awaited(phase, state.target) {
        Some(action) => Step::Next(action),
        None => if state.phase is Idle {
            Step::Idle
        } else {
            Step::Done(outcome(state.phase, state.target, event))
        },
    };
    (after, step)
}

impl Applied {
    /// The line that announces a change of the mute state; none where
    /// nothing changed.
    pub fn notice(&self) -> (line: Option<&'static str>)
        ensures
            match *self {
                Applied::Unchanged => line is None,
                Applied::Switched(true) => line is Some && line->0@ == "Audio Status: [MUTED]"@,
                Applied::Switched(false) => line is Some && line->0@ == "Audio Status: [UNMUTED]"@,
            },
    {
        match self {
            Applied::Unchanged => None,
            Applied::Switched(true) => Some("Audio Status: [MUTED]"),
            Applied::Switched(false) => Some("Audio Status: [UNMUTED]"),
        }
    }
}

impl<H> Event<H> {
    /// The event for a read that found `found`, or failed where it is `None`.
    pub fn from_read(found: Option<bool>) -> (event: Event<H>)
        ensures
            event == read_event::<H>(found),
    {
        match found {
            Some(muted) => Event::MuteRead(muted),
            None => Event::Failed,
        }
    }

    /// The event for an acquisition that yielded `fresh`, or failed where
    /// it is `None`.
    pub fn from_acquire(fresh: Option<H>) -> (event: Event<H>)
        ensures
            event == acquire_event(fresh),
    {
        match fresh {
            Some(endpoint) => Event::Acquired(endpoint),
            None => Event::Failed,
        }
    }

    /// The event for a write that succeeded, or failed where `written` is
    /// false.
    pub fn from_write(written: bool) -> (event: Event<H>)
        ensures
            event == write_event::<H>(written),
    {
        if written {
            Event::Written
        } else {
            Event::Failed
        }
    }
}

/// The event that reports what a read came to.
pub open spec fn read_event<H>(found: Option<bool>) -> Event<H> {
    match found {
        Some(muted) => Event::MuteRead(muted),
        None => Event::Failed,
    }
}

/// The event that reports what an acquisition came to.
pub open spec fn acquire_event<H>(fresh: Option<H>) -> Event<H> {
    match fresh {
        Some(endpoint) => Event::Acquired(endpoint),
        None => Event::Failed,
    }
}

/// The event that reports what a write came to.
pub open spec fn write_event<H>(written: bool) -> Event<H> {
    if written {
        Event::Written
    } else {
        Event::Failed
    }
}

/// The controller's answers to a run of events, taken in one after the
/// other, and the state it is left in.
pub open spec fn replay<H>(state: ControllerState<H>, events: Seq<Event<H>>) -> (
    ControllerState<H>,
    Seq<Step>,
)
    decreases events.len(),
{
    if events.len() == 0 {
        (state, Seq::empty())
    } else {
        let (before, steps) = replay(state, events.drop_last());
        let (after, step) = transition(before, events.last());
        (after, steps.push(step))
    }
}

/// How many events an operation in `phase` can still take in before it is
/// over, at most.
pub open spec fn events_left(phase: Phase) -> nat {
    match phase {
        Phase::Idle => 0,
        Phase::Writing { retried: true } => 1,
        Phase::Reacquiring { for_write: true } => 2,
        Phase::Writing { retried: false } => 3,
        Phase::Reading { retried: true } => 4,
        Phase::Reacquiring { for_write: false } => 5,
        Phase::Reading { retried: false } => 6,
    }
}

/// Every event brings an operation nearer to its end, whatever the event.
/// The operation is over exactly when the answer is `Done`, and the
/// controller is then at rest.
pub proof fn lemma_every_event_makes_progress<H>(state: ControllerState<H>, event: Event<H>)
    requires
        !(state.phase is Idle),
    ensures
        events_left(transition(state, event).0.phase) < events_left(state.phase),
        transition(state, event).1 is Done <==> transition(state, event).0.phase is Idle,
        transition(state, event).1 matches Step::Next(action) ==> awaited(
            transition(state, event).0.phase,
            state.target,
        ) == Some(action),
        !(transition(state, event).1 is Idle),
{
}

/// An operation is over after six events at most, whatever they are.
pub proof fn lemma_operation_ends_within_six<H>(
    state: ControllerState<H>,
    mute: bool,
    events: Seq<Event<H>>,
)
    requires
        events.len() >= 6,
    ensures
        replay(begin(state, mute), events).0.phase is Idle,
{
    lemma_events_left_after(begin(state, mute), events);
}

/// A run of events leaves an operation at most as far from its end as it
/// was, less one event for each that was taken in.
pub proof fn lemma_events_left_after<H>(state: ControllerState<H>, events: Seq<Event<H>>)
    ensures
        events_left(replay(state, events).0.phase) + events.len() <= events_left(state.phase)
            || replay(state, events).0.phase is Idle,
    decreases events.len(),
{
    if events.len() > 0 {
        lemma_events_left_after(state, events.drop_last());
        let before = replay(state, events.drop_last()).0;
        if !(before.phase is Idle) {
            lemma_every_event_makes_progress(before, events.last());
        }
    }
}

/// A write is asked for only in answer to a read that found the endpoint in
/// the other state than the wanted one, or to the fresh endpoint that takes
/// the place of one on which such a write failed; and what is written is the
/// wanted state.
pub proof fn lemma_write_only_on_differing_read<H>(
    state: ControllerState<H>,
    event: Event<H>,
    value: bool,
)
    requires
        transition(state, event).1 == Step::Next(Action::WriteMute(value)),
    ensures
        value == state.target,
        (state.phase is Reading && event == Event::<H>::MuteRead(!value)) || (state.phase
            == Phase::Reacquiring { for_write: true } && event is Acquired),
{
}

/// A change is reported only when a write has succeeded, and then it is the
/// wanted state that is reported.
pub proof fn lemma_switch_reported_only_after_write<H>(
    state: ControllerState<H>,
    event: Event<H>,
    value: bool,
)
    requires
        transition(state, event).1 == Step::Done(Ok(Applied::Switched(value))),
    ensures
        value == state.target,
        state.phase is Writing,
        event is Written,
{
}

/// Recovery from a stale endpoint: when the first read fails, a fresh
/// endpoint is acquired, and the read on it finds the other state than the
/// wanted one, the operation succeeds with exactly one write, asked for
/// once the fresh endpoint is the one held.
pub proof fn lemma_recovers_from_stale_read<H>(state: ControllerState<H>, mute: bool, fresh: H)
    ensures
        ({
            let events = seq![
                Event::Failed,
                Event::Acquired(fresh),
                Event::MuteRead(!mute),
                Event::Written,
            ];
            let (end, steps) = replay(begin(state, mute), events);
            &&& steps == seq![
                Step::Next(Action::Reacquire),
                Step::Next(Action::ReadMute),
                Step::Next(Action::WriteMute(mute)),
                Step::Done(Ok(Applied::Switched(mute))),
            ]
            &&& end == (ControllerState { endpoint: fresh, phase: Phase::Idle, target: mute })
            &&& replay(begin(state, mute), events.take(3)).0.endpoint == fresh
        }),
{
    let start = begin(state, mute);
    let e0: Event<H> = Event::Failed;
    let e1: Event<H> = Event::Acquired(fresh);
    let e2: Event<H> = Event::MuteRead(!mute);
    let e3: Event<H> = Event::Written;
    let events = seq![e0, e1, e2, e3];
    lemma_replay_one(start, e0);
    lemma_replay_more(start, seq![e0], e1);
    lemma_replay_more(start, seq![e0, e1], e2);
    lemma_replay_more(start, seq![e0, e1, e2], e3);
    assert(seq![e0].push(e1) =~= seq![e0, e1]);
    assert(seq![e0, e1].push(e2) =~= seq![e0, e1, e2]);
    assert(seq![e0, e1, e2].push(e3) =~= events);
    assert(events.take(3) =~= seq![e0, e1, e2]);
    assert(replay(start, events).1 =~= seq![
        Step::Next(Action::Reacquire),
        Step::Next(Action::ReadMute),
        Step::Next(Action::WriteMute(mute)),
        Step::Done(Ok(Applied::Switched(mute))),
    ]);
}

/// Persistent failure: when the read fails on the endpoint held and again
/// on the fresh one, the operation ends as unavailable, nothing is written,
/// and the fresh endpoint stays the one held for the next operation.
pub proof fn lemma_gives_up_after_second_failure<H>(
    state: ControllerState<H>,
    mute: bool,
    fresh: H,
)
    ensures
        ({
            let events = seq![Event::Failed, Event::Acquired(fresh), Event::Failed];
            let (end, steps) = replay(begin(state, mute), events);
            &&& steps == seq![
                Step::Next(Action::Reacquire),
                Step::Next(Action::ReadMute),
                Step::Done(Err(SuppressError::DeviceUnavailable)),
            ]
            &&& end == (ControllerState { endpoint: fresh, phase: Phase::Idle, target: mute })
        }),
{
    let start = begin(state, mute);
    let e0: Event<H> = Event::Failed;
    let e1: Event<H> = Event::Acquired(fresh);
    let e2: Event<H> = Event::Failed;
    lemma_replay_one(start, e0);
    lemma_replay_more(start, seq![e0], e1);
    lemma_replay_more(start, seq![e0, e1], e2);
    assert(seq![e0].push(e1) =~= seq![e0, e1]);
    assert(seq![e0, e1].push(e2) =~= seq![e0, e1, e2]);
    assert(replay(start, seq![e0, e1, e2]).1 =~= seq![
        Step::Next(Action::Reacquire),
        Step::Next(Action::ReadMute),
        Step::Done(Err(SuppressError::DeviceUnavailable)),
    ]);
}

/// When no endpoint can be acquired in place of a stale one, the operation
/// ends as unavailable and the stale endpoint stays the one held.
pub proof fn lemma_keeps_endpoint_when_none_acquired<H>(state: ControllerState<H>, mute: bool)
    ensures
        ({
            let events = seq![Event::<H>::Failed, Event::<H>::Failed];
            let (end, steps) = replay(begin(state, mute), events);
            &&& steps == seq![
                Step::Next(Action::Reacquire),
                Step::Done(Err(SuppressError::DeviceUnavailable)),
            ]
            &&& end == (ControllerState {
                endpoint: state.endpoint,
                phase: Phase::Idle,
                target: mute,
            })
        }),
{
    let start = begin(state, mute);
    let e0: Event<H> = Event::Failed;
    lemma_replay_one(start, e0);
    lemma_replay_more(start, seq![e0], e0);
    assert(seq![e0].push(e0) =~= seq![e0, e0]);
    assert(replay(start, seq![e0, e0]).1 =~= seq![
        Step::Next(Action::Reacquire),
        Step::Done(Err(SuppressError::DeviceUnavailable)),
    ]);
}

/// No event changes the state that an operation is after.
pub proof fn lemma_target_is_kept<H>(state: ControllerState<H>, events: Seq<Event<H>>)
    ensures
        replay(state, events).0.target == state.target,
    decreases events.len(),
{
    if events.len() > 0 {
        lemma_target_is_kept(state, events.drop_last());
    }
}

/// The replay of a single event is its transition.
pub proof fn lemma_replay_one<H>(state: ControllerState<H>, event: Event<H>)
    ensures
        replay(state, seq![event]) == (
            transition(state, event).0,
            seq![transition(state, event).1],
        ),
{
    lemma_replay_more(state, Seq::empty(), event);
    assert(Seq::<Event<H>>::empty().push(event) =~= seq![event]);
    assert(Seq::<Step>::empty().push(transition(state, event).1) =~= seq![
        transition(state, event).1,
    ]);
}

/// The replay of a run with one more event is the replay of the run
/// followed by that event's transition.
pub proof fn lemma_replay_more<H>(state: ControllerState<H>, events: Seq<Event<H>>, event: Event<H>)
    ensures
        replay(state, events.push(event)) == ({
            let (before, steps) = replay(state, events);
            let (after, step) = transition(before, event);
            (after, steps.push(step))
        }),
{
    assert(events.push(event).drop_last() =~= events);
}

/// The replay of the first `count + 1` events is the replay of the first
/// `count` followed by the transition of the next.
pub proof fn lemma_replay_take<H>(state: ControllerState<H>, events: Seq<Event<H>>, count: int)
    requires
        0 <= count < events.len(),
    ensures
        replay(state, events.take(count + 1)) == ({
            let (before, steps) = replay(state, events.take(count));
            let (after, step) = transition(before, events[count]);
            (after, steps.push(step))
        }),
{
    assert(events.take(count + 1) =~= events.take(count).push(events[count]));
    lemma_replay_more(state, events.take(count), events[count]);
}

} // verus!
