//! Whole runs of the session: what holds after any sequence of events.

use vstd::prelude::*;
use crate::locator::{is_bike, SCAN_ATTEMPTS, SCAN_INTERVAL_MILLIS};
use crate::packet::{decode_spec, DecodedReading};
use crate::session::{
    aborted, name_view, step, step_spec, Action, Event, Phase, SetupError,
    TELEMETRY_CHARACTERISTIC,
};
use crate::workout::{
    lemma_distance_never_decreases, Timestamp, WorkoutState,
};

verus! {

/// The phase that the session is in after `events`, starting from `phase`.
pub open spec fn phase_after(phase: Phase, events: Seq<Event>) -> Phase
    decreases events.len(),
{
    if events.len() == 0 {
        phase
    } else {
        step_spec(phase_after(phase, events.drop_last()), events.last()).0
    }
}

/// The action that answers the last of `events`.
pub open spec fn action_after(phase: Phase, events: Seq<Event>) -> Action
    recommends
        events.len() > 0,
{
    step_spec(phase_after(phase, events.drop_last()), events.last()).1
}

/// Takes the session through `events` in order, starting from `start`,
/// and gives the phase it ends in together with the action that answered
/// each event.
pub fn replay(start: Phase, events: &[Event]) -> (end: (Phase, Vec<Action>))
    ensures
        end.0 == phase_after(start, events@),
        end.1@.len() == events@.len(),
        forall|i: int|
            0 <= i < events@.len() ==> (#[trigger] end.1@[i]) == action_after(
                start,
                events@.take(i + 1),
            ),
{
    let mut phase = start;
    let mut actions: Vec<Action> = Vec::new();
    let mut done: usize = 0;
    while done < events.len()
        invariant
            done <= events@.len(),
            phase == phase_after(start, events@.take(done as int)),
            actions@.len() == done,
            forall|i: int|
                0 <= i < done ==> (#[trigger] actions@[i]) == action_after(
                    start,
                    events@.take(i + 1),
                ),
        decreases events@.len() - done,
    {
        proof {
            let longer = events@.take(done + 1);
            assert(longer.drop_last() == events@.take(done as int));
            assert(longer.last() == events@[done as int]);
        }
        let (next, action) = step(phase, &events[done]);
        phase = next;
        actions.push(action);
        done += 1;
    }
    proof {
        assert(events@.take(events@.len() as int) == events@);
    }
    (phase, actions)
}

/// How far along the session is: idle, scanning, connecting, discovering,
/// subscribing, streaming, over.
pub open spec fn rank(phase: Phase) -> nat {
    match phase {
        Phase::Idle => 0,
        Phase::OpeningAdapter => 1,
        Phase::StartingScan => 1,
        Phase::Listing { .. } => 1,
        Phase::Probing { .. } => 1,
        Phase::Pausing { .. } => 1,
        Phase::Connecting { .. } => 2,
        Phase::Discovering { .. } => 3,
        Phase::Subscribing { .. } => 4,
        Phase::Streaming { .. } => 5,
        Phase::Terminated => 6,
        Phase::Failed { .. } => 6,
    }
}

/// The session is over, in good order or not.
pub open spec fn is_over(phase: Phase) -> bool {
    phase is Terminated || phase is Failed
}

/// The one action that a session which is over still answers with.
pub open spec fn last_word(phase: Phase) -> Action {
    match phase {
        Phase::Failed { error } => Action::Abort { error },
        _ => Action::Finish,
    }
}

/// What the session remembers is in order: attempts are counted from 1 up
/// to the limit, and the peripheral being probed is one of those listed.
pub open spec fn in_order(phase: Phase) -> bool {
    match phase {
        Phase::Listing { attempt } => 1 <= attempt <= SCAN_ATTEMPTS,
        Phase::Probing { attempt, index, count } => 1 <= attempt <= SCAN_ATTEMPTS && index < count,
        Phase::Pausing { attempt } => 1 <= attempt <= SCAN_ATTEMPTS,
        _ => true,
    }
}

/// How far a scan has come: the attempt, then the part of the attempt,
/// then the peripheral. Every step of a scan moves this forward.
pub open spec fn scan_progress(phase: Phase) -> (nat, nat, nat) {
    match phase {
        Phase::OpeningAdapter => (0, 0, 0),
        Phase::StartingScan => (0, 1, 0),
        Phase::Listing { attempt } => (attempt as nat, 0, 0),
        Phase::Probing { attempt, index, .. } => (attempt as nat, 1, index as nat),
        Phase::Pausing { attempt } => (attempt as nat, 2, 0),
        _ => (0, 0, 0),
    }
}

/// `earlier` comes before `later` in the order of the dictionary.
pub open spec fn comes_before(earlier: (nat, nat, nat), later: (nat, nat, nat)) -> bool {
    ||| earlier.0 < later.0
    ||| earlier.0 == later.0 && earlier.1 < later.1
    ||| earlier.0 == later.0 && earlier.1 == later.1 && earlier.2 < later.2
}

/// The event reports a name that is the bike's.
pub open spec fn names_bike(event: Event) -> bool {
    event matches Event::NameRead { name } && is_bike(name_view(name))
}

/// The reading that a notification carries, with the time it came at.
pub open spec fn reading_of(event: Event) -> (DecodedReading, Timestamp) {
    match event {
        Event::Notification { payload, now } => (decode_spec(payload@), now),
        _ => (DecodedReading::Unrecognized, Timestamp { nanos: 0 }),
    }
}

/// `action` asks for just what `phase` waits for. While streaming, the
/// session waits for the next notification, with or without the workout
/// shown first, and what is shown is the workout as it stands.
pub open spec fn asks_what_is_awaited(phase: Phase, action: Action) -> bool {
    match phase {
        Phase::Idle => false,
        Phase::OpeningAdapter => action == Action::OpenAdapter,
        Phase::StartingScan => action == Action::StartScan,
        Phase::Listing { .. } => action == Action::ListPeripherals,
        Phase::Probing { index, .. } => action == (Action::ReadName { peripheral: index }),
        Phase::Pausing { .. } => action == (Action::Sleep { millis: SCAN_INTERVAL_MILLIS }),
        Phase::Connecting { peripheral } => action == (Action::Connect { peripheral }),
        Phase::Discovering { peripheral } => action == (Action::DiscoverServices { peripheral }),
        Phase::Subscribing { peripheral, characteristic } => action == (Action::Subscribe {
            peripheral,
            characteristic,
        }),
        Phase::Streaming { workout } => action == Action::AwaitNotification || action
            == (Action::Render { snapshot: workout }),
        Phase::Terminated => action == Action::Finish,
        Phase::Failed { error } => action == (Action::Abort { error }),
    }
}

/// A run can be taken in two parts.
pub proof fn lemma_run_in_parts(phase: Phase, first: Seq<Event>, second: Seq<Event>)
    ensures
        phase_after(phase, first + second) == phase_after(phase_after(phase, first), second),
    decreases second.len(),
{
    if second.len() == 0 {
        assert(first + second == first);
    } else {
        assert((first + second).drop_last() == first + second.drop_last());
        assert((first + second).last() == second.last());
        lemma_run_in_parts(phase, first, second.drop_last());
    }
}

/// A run of one event is one step.
pub proof fn lemma_run_of_one(phase: Phase, event: Event)
    ensures
        phase_after(phase, seq![event]) == step_spec(phase, event).0,
{
    let events = seq![event];
    assert(events.drop_last() == Seq::<Event>::empty());
    assert(phase_after(phase, events.drop_last()) == phase);
    assert(events.last() == event);
}

/// Every step answers with the action whose outcome the next phase waits
/// for; no step leads back to idle.
pub proof fn lemma_action_fits_phase(phase: Phase, event: Event)
    ensures
        asks_what_is_awaited(step_spec(phase, event).0, step_spec(phase, event).1),
{
}

/// A frame is shown exactly when a notification of a known length has
/// been applied, and it shows the workout with that reading applied.
pub proof fn lemma_render_follows_apply(phase: Phase, event: Event)
    ensures
        step_spec(phase, event).1 matches Action::Render { snapshot } <==> phase is Streaming
            && event is Notification && !(reading_of(event).0 is Unrecognized),
        step_spec(phase, event).1 matches Action::Render { snapshot } ==> phase matches Phase::Streaming {
            workout,
        } && snapshot == workout.applied(reading_of(event).0, reading_of(event).1),
{
}

/// No step takes the session back: the next phase is never earlier in the
/// order idle, scanning, connecting, discovering, subscribing, streaming,
/// over.
pub proof fn lemma_step_never_goes_back(phase: Phase, event: Event)
    ensures
        rank(step_spec(phase, event).0) >= rank(phase),
{
}

/// No run takes the session back: after more events it is at least as far
/// along as after fewer.
pub proof fn lemma_run_never_goes_back(
    phase: Phase,
    events: Seq<Event>,
    shorter: int,
    longer: int,
)
    requires
        0 <= shorter <= longer <= events.len(),
    ensures
        rank(phase_after(phase, events.take(shorter))) <= rank(
            phase_after(phase, events.take(longer)),
        ),
    decreases longer - shorter,
{
    if shorter < longer {
        let prefix = events.take(longer);
        assert(prefix.drop_last() == events.take(longer - 1));
        lemma_run_never_goes_back(phase, events, shorter, longer - 1);
        lemma_step_never_goes_back(phase_after(phase, events.take(longer - 1)), prefix.last());
    }
}

/// A session that is over stays exactly as it is, whatever is reported,
/// and answers every event with its last word: `Finish` after a good end,
/// `Abort` with the same error after a failure.
pub proof fn lemma_over_stays_over(phase: Phase, events: Seq<Event>)
    requires
        is_over(phase),
    ensures
        phase_after(phase, events) == phase,
        events.len() > 0 ==> action_after(phase, events) == last_word(phase),
    decreases events.len(),
{
    if events.len() > 0 {
        lemma_over_stays_over(phase, events.drop_last());
    }
}

/// Every step keeps what the session remembers in order.
pub proof fn lemma_step_keeps_order(phase: Phase, event: Event)
    requires
        in_order(phase),
    ensures
        in_order(step_spec(phase, event).0),
{
}

/// Whatever is reported to a session that began idle, what it remembers is
/// in order: it never counts more attempts than the limit, and never
/// probes a peripheral that was not listed.
pub proof fn lemma_run_keeps_order(events: Seq<Event>)
    ensures
        in_order(phase_after(Phase::Idle, events)),
    decreases events.len(),
{
    if events.len() > 0 {
        lemma_run_keeps_order(events.drop_last());
        lemma_step_keeps_order(phase_after(Phase::Idle, events.drop_last()), events.last());
    }
}

/// A scan cannot go round in circles: a step that leaves the session
/// scanning moves it strictly forward, to a later peripheral, a later part
/// of the attempt or a later attempt.
pub proof fn lemma_scan_moves_forward(phase: Phase, event: Event)
    requires
        rank(phase) == 1,
        rank(step_spec(phase, event).0) == 1,
    ensures
        comes_before(scan_progress(phase), scan_progress(step_spec(phase, event).0)),
{
}

/// The search is given up exactly when the pause after the last attempt
/// ends: that step fails the session with `DeviceNotFound`, and no other
/// step brings that error about.
pub proof fn lemma_device_not_found(phase: Phase, event: Event)
    requires
        in_order(phase),
        !(phase is Failed),
    ensures
        step_spec(phase, event).0 == (Phase::Failed { error: SetupError::DeviceNotFound }) <==> (
        phase == (Phase::Pausing { attempt: SCAN_ATTEMPTS }) && event is IntervalElapsed),
{
}

/// Without a name that is the bike's, the session never starts: if none
/// of the events reports such a name, a session that began idle is still
/// idle or scanning, or it is over, and if it failed then for want of an
/// adapter, for a failure of the scan, or because the bike was not found.
pub proof fn lemma_no_bike_no_connection(events: Seq<Event>)
    requires
        forall|i: int| 0 <= i < events.len() ==> !names_bike(#[trigger] events[i]),
    ensures
        rank(phase_after(Phase::Idle, events)) <= 1 || is_over(phase_after(Phase::Idle, events)),
        phase_after(Phase::Idle, events) matches Phase::Failed { error } ==> error
            == SetupError::NoAdapter || error == SetupError::ScanFailed || error
            == SetupError::DeviceNotFound,
    decreases events.len(),
{
    if events.len() > 0 {
        let before = events.drop_last();
        assert forall|i: int| 0 <= i < before.len() implies !names_bike(#[trigger] before[i]) by {
            assert(before[i] == events[i]);
        }
        lemma_no_bike_no_connection(before);
        assert(!names_bike(events[events.len() - 1]));
    }
}

/// A peripheral without the telemetry characteristic ends the session at
/// once, and for good: the discovery is answered with `Abort`, and so is
/// everything reported after it. No subscription is ever asked for, and
/// the session never holds a workout.
pub proof fn lemma_missing_characteristic_is_final(
    peripheral: usize,
    characteristics: Vec<u128>,
    later: Seq<Event>,
)
    requires
        !characteristics@.contains(TELEMETRY_CHARACTERISTIC),
    ensures
        step_spec(Phase::Discovering { peripheral }, Event::ServicesDiscovered { characteristics })
            == aborted(SetupError::CharacteristicNotFound),
        phase_after(
            step_spec(
                Phase::Discovering { peripheral },
                Event::ServicesDiscovered { characteristics },
            ).0,
            later,
        ) == (Phase::Failed { error: SetupError::CharacteristicNotFound }),
        later.len() > 0 ==> action_after(
            Phase::Failed { error: SetupError::CharacteristicNotFound },
            later,
        ) == (Action::Abort { error: SetupError::CharacteristicNotFound }),
{
    lemma_over_stays_over(Phase::Failed { error: SetupError::CharacteristicNotFound }, later);
}

/// A session holds a workout only while it streams, and a workout begins
/// only when a subscription is reported to a session that waits for one.
pub proof fn lemma_workout_begins_at_subscription(phase: Phase, event: Event)
    requires
        !(phase is Streaming),
    ensures
        step_spec(phase, event).0 is Streaming <==> phase is Subscribing && event is Subscribed,
        step_spec(phase, event).0 matches Phase::Streaming { workout } ==> event matches Event::Subscribed {
            now,
        } && workout == WorkoutState::initial(now),
{
}

/// While the session streams, the distance never goes down, whatever is
/// reported.
pub proof fn lemma_streaming_distance_monotone(workout: WorkoutState, events: Seq<Event>)
    ensures
        phase_after(Phase::Streaming { workout }, events) matches Phase::Streaming { workout: later }
            ==> later.total_distance >= workout.total_distance,
    decreases events.len(),
{
    if events.len() > 0 {
        let earlier = events.drop_last();
        let before = phase_after(Phase::Streaming { workout }, earlier);
        lemma_streaming_distance_monotone(workout, earlier);
        assert(earlier.take(0) == Seq::<Event>::empty());
        assert(earlier.take(earlier.len() as int) == earlier);
        lemma_run_never_goes_back(Phase::Streaming { workout }, earlier, 0, earlier.len() as int);
        lemma_step_never_goes_back(before, events.last());
        if let Phase::Streaming { workout: so_far } = before {
            let (reading, now) = reading_of(events.last());
            lemma_distance_never_decreases(so_far, reading, now);
        }
    }
}

/// Notifications are folded into the workout one by one, in the order in
/// which they arrive: after a run of notifications the session streams,
/// and its workout is the one it had with the decoded readings applied in
/// order.
pub proof fn lemma_streaming_folds_in_order(workout: WorkoutState, events: Seq<Event>)
    requires
        forall|i: int| 0 <= i < events.len() ==> #[trigger] events[i] is Notification,
    ensures
        phase_after(Phase::Streaming { workout }, events) == (Phase::Streaming {
            workout: workout.applied_all(events.map_values(|event: Event| reading_of(event))),
        }),
    decreases events.len(),
{
    let readings = events.map_values(|event: Event| reading_of(event));
    if events.len() > 0 {
        let before = events.drop_last();
        assert forall|i: int| 0 <= i < before.len() implies #[trigger] before[i] is Notification by {
            assert(before[i] == events[i]);
        }
        lemma_streaming_folds_in_order(workout, before);
        assert(readings.drop_last() == before.map_values(|event: Event| reading_of(event)));
        assert(readings.last() == reading_of(events.last()));
        assert(events[events.len() - 1] is Notification);
    }
}

} // verus!
