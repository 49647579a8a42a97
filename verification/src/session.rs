//! The session as a state machine.
//!
//! The library decides, the driver acts: `step` takes the phase the session
//! is in and the event that the driver reports, and answers with the next
//! phase and the one action the driver is to perform next. The driver
//! performs it on the transport and reports what came of it as the next
//! event. Nothing here touches the transport or a clock.
//!
//! The session runs straight through: idle, scanning, connecting,
//! discovering, subscribing, streaming, over. It never goes back, and any
//! failure on the way to streaming ends it.

use vstd::prelude::*;
use crate::locator::{is_bike, name_matches, SCAN_ATTEMPTS, SCAN_INTERVAL_MILLIS};
use crate::packet::{decode, decode_spec, DecodedReading};
use crate::workout::{Timestamp, WorkoutState};

verus! {

/// The characteristic that carries the bike's telemetry, as a 128-bit
/// number: `00002ad2-0000-1000-8000-00805f9b34fb`.
pub const TELEMETRY_CHARACTERISTIC: u128 = 0x00002ad2_0000_1000_8000_00805f9b34fb;

/// Why a session could not be set up. Each of these ends the session.
#[derive(Clone, Copy, PartialEq, Eq, Structural, Debug)]
pub enum SetupError {
    /// No Bluetooth adapter could be had.
    NoAdapter,
    /// The transport failed while scanning.
    ScanFailed,
    /// No peripheral with the bike's name turned up within the attempts.
    DeviceNotFound,
    /// The bike was found but the connection failed.
    ConnectFailed,
    /// The bike's services could not be discovered.
    DiscoveryFailed,
    /// The bike does not offer the telemetry characteristic.
    CharacteristicNotFound,
    /// The subscription to the telemetry characteristic failed.
    SubscribeFailed,
}

/// Where the session stands, with what it has to remember there.
#[derive(Clone, Copy, PartialEq, Eq, Structural, Debug)]
pub enum Phase {
    /// Nothing has been asked of the transport yet.
    Idle,
    /// Scanning: waiting for the adapter.
    OpeningAdapter,
    /// Scanning: waiting for the scan to start.
    StartingScan,
    /// Scanning: waiting for the list of peripherals of attempt `attempt`
    /// (the first attempt is 1).
    Listing { attempt: u8 },
    /// Scanning: waiting for the name of peripheral `index` of the `count`
    /// that attempt `attempt` listed.
    Probing { attempt: u8, index: usize, count: usize },
    /// Scanning: waiting for the pause after attempt `attempt` to end.
    Pausing { attempt: u8 },
    /// Waiting for the connection to the peripheral that matched.
    Connecting { peripheral: usize },
    /// Waiting for the peripheral's characteristics.
    Discovering { peripheral: usize },
    /// Waiting for the subscription to the telemetry characteristic.
    Subscribing { peripheral: usize, characteristic: usize },
    /// Notifications are coming in; `workout` is the state they built.
    Streaming { workout: WorkoutState },
    /// The notifications have ended.
    Terminated,
    /// Setup failed.
    Failed { error: SetupError },
}

/// What the driver reports.
#[derive(Debug)]
pub enum Event {
    /// The driver is ready to begin.
    Start,
    /// An adapter is at hand.
    AdapterOpened,
    /// The scan is running.
    ScanStarted,
    /// The transport knows `count` peripherals at this moment.
    PeripheralsListed { count: usize },
    /// The name that the probed peripheral advertises, if it has one.
    NameRead { name: Option<String> },
    /// The pause is over.
    IntervalElapsed,
    /// The connection stands.
    Connected,
    /// The identifiers of the peripheral's characteristics, in the order in
    /// which the transport gives them.
    ServicesDiscovered { characteristics: Vec<u128> },
    /// The subscription stands and notifications can be awaited; `now` is
    /// the time at which the workout begins.
    Subscribed { now: Timestamp },
    /// A notification arrived at `now`.
    Notification { payload: Vec<u8>, now: Timestamp },
    /// No more notifications will come.
    StreamEnded,
    /// The action last asked for failed.
    Failed,
}

/// What the driver is to do next.
#[derive(Clone, Copy, PartialEq, Eq, Structural, Debug)]
pub enum Action {
    /// Get hold of the first Bluetooth adapter.
    OpenAdapter,
    /// Start scanning, without a filter.
    StartScan,
    /// List the peripherals discovered so far and report how many.
    ListPeripherals,
    /// Read the advertised name of a peripheral of the last list.
    ReadName { peripheral: usize },
    /// Wait for so many milliseconds.
    Sleep { millis: u64 },
    /// Connect to a peripheral of the last list.
    Connect { peripheral: usize },
    /// Discover the peripheral's services and report its characteristics.
    DiscoverServices { peripheral: usize },
    /// Subscribe to a characteristic of those reported and open the stream
    /// of notifications.
    Subscribe { peripheral: usize, characteristic: usize },
    /// Wait for the next notification.
    AwaitNotification,
    /// Show `snapshot`, then wait for the next notification. A frame that
    /// cannot be shown is skipped.
    Render { snapshot: WorkoutState },
    /// The session is over in good order; stop.
    Finish,
    /// The session failed; stop and report `error`.
    Abort { error: SetupError },
}

/// `at` is the first position in `ids` that holds the telemetry
/// characteristic.
pub open spec fn is_first_telemetry(ids: Seq<u128>, at: int) -> bool {
    &&& 0 <= at < ids.len()
    &&& ids[at] == TELEMETRY_CHARACTERISTIC
    &&& forall|k: int| 0 <= k < at ==> ids[k] != TELEMETRY_CHARACTERISTIC
}

/// The first position in `ids` that holds the telemetry characteristic, if
/// there is one.
pub open spec fn telemetry_position(ids: Seq<u128>) -> Option<usize> {
    if exists|at: int| is_first_telemetry(ids, at) {
        Some((choose|at: int| is_first_telemetry(ids, at)) as usize)
    } else {
        None
    }
}

/// The session has failed with `error`.
pub open spec fn aborted(error: SetupError) -> (Phase, Action) {
    (Phase::Failed { error }, Action::Abort { error })
}

/// Attempt `attempt` found nothing: pause.
pub open spec fn paused(attempt: u8) -> (Phase, Action) {
    (Phase::Pausing { attempt }, Action::Sleep { millis: SCAN_INTERVAL_MILLIS })
}

/// Where the session goes from `phase` on `event`, and what it asks for.
///
/// Each phase waits for the outcome of one action. The event that reports
/// success moves the session on. Any other event counts as the failure of
/// that action and ends the session with the error of the phase; where the
/// phase has none of its own (idle, streaming), the session is over
/// without an error. Once over, the session stays as it is.
pub open spec fn step_spec(phase: Phase, event: Event) -> (Phase, Action) {
    match phase {
        Phase::Idle => match event {
            Event::Start => (Phase::OpeningAdapter, Action::OpenAdapter),
            _ => (Phase::Terminated, Action::Finish),
        },
        Phase::OpeningAdapter => match event {
            Event::AdapterOpened => (Phase::StartingScan, Action::StartScan),
            _ => aborted(SetupError::NoAdapter),
        },
        Phase::StartingScan => match event {
            Event::ScanStarted => (Phase::Listing { attempt: 1 }, Action::ListPeripherals),
            _ => aborted(SetupError::ScanFailed),
        },
        Phase::Listing { attempt } => match event {
            Event::PeripheralsListed { count } => if count > 0 {
                (Phase::Probing { attempt, index: 0, count }, Action::ReadName { peripheral: 0 })
            } else {
                paused(attempt)
            },
            _ => aborted(SetupError::ScanFailed),
        },
        Phase::Probing { attempt, index, count } => match event {
            Event::NameRead { name } => if is_bike(name_view(name)) {
                (Phase::Connecting { peripheral: index }, Action::Connect { peripheral: index })
            } else if index + 1 < count {
                (
                    Phase::Probing { attempt, index: (index + 1) as usize, count },
                    Action::ReadName { peripheral: (index + 1) as usize },
                )
            } else {
                paused(attempt)
            },
            _ => aborted(SetupError::ScanFailed),
        },
        Phase::Pausing { attempt } => match event {
            Event::IntervalElapsed => if attempt < SCAN_ATTEMPTS {
                (Phase::Listing { attempt: (attempt + 1) as u8 }, Action::ListPeripherals)
            } else {
                aborted(SetupError::DeviceNotFound)
            },
            _ => aborted(SetupError::ScanFailed),
        },
        Phase::Connecting { peripheral } => match event {
            Event::Connected => (
                Phase::Discovering { peripheral },
                Action::DiscoverServices { peripheral },
            ),
            _ => aborted(SetupError::ConnectFailed),
        },
        Phase::Discovering { peripheral } => match event {
            Event::ServicesDiscovered { characteristics } => match telemetry_position(
                characteristics@,
            ) {
                Some(characteristic) => (
                    Phase::Subscribing { peripheral, characteristic },
                    Action::Subscribe { peripheral, characteristic },
                ),
                None => aborted(SetupError::CharacteristicNotFound),
            },
            _ => aborted(SetupError::DiscoveryFailed),
        },
        Phase::Subscribing { peripheral, characteristic } => match event {
            Event::Subscribed { now } => (
                Phase::Streaming { workout: WorkoutState::initial(now) },
                Action::AwaitNotification,
            ),
            _ => aborted(SetupError::SubscribeFailed),
        },
        Phase::Streaming { workout } => match event {
            Event::Notification { payload, now } => match decode_spec(payload@) {
                DecodedReading::Unrecognized => (phase, Action::AwaitNotification),
                reading => (
                    Phase::Streaming { workout: workout.applied(reading, now) },
                    Action::Render { snapshot: workout.applied(reading, now) },
                ),
            },
            _ => (Phase::Terminated, Action::Finish),
        },
        Phase::Terminated => (Phase::Terminated, Action::Finish),
        Phase::Failed { error } => aborted(error),
    }
}

/// The characters of an advertised name, if there is a name.
pub open spec fn name_view(name: Option<String>) -> Option<Seq<char>> {
    match name {
        Some(text) => Some(text@),
        None => None,
    }
}

/// Finds the first characteristic that is the telemetry characteristic.
pub fn find_telemetry(ids: &[u128]) -> (found: Option<usize>)
    ensures
        found == telemetry_position(ids@),
        found matches Some(at) ==> is_first_telemetry(ids@, at as int),
        found is None ==> !ids@.contains(TELEMETRY_CHARACTERISTIC),
{
    let mut at: usize = 0;
    while at < ids.len()
        invariant
            at <= ids@.len(),
            forall|k: int| 0 <= k < at ==> ids@[k] != TELEMETRY_CHARACTERISTIC,
        decreases ids@.len() - at,
    {
        if ids[at] == TELEMETRY_CHARACTERISTIC {
            proof {
                lemma_first_telemetry_is_unique(ids@, at as int);
            }
            return Some(at);
        }
        at += 1;
    }
    None
}

/// A sequence has at most one first position of the telemetry
/// characteristic, and `telemetry_position` names it.
pub proof fn lemma_first_telemetry_is_unique(ids: Seq<u128>, at: int)
    requires
        is_first_telemetry(ids, at),
    ensures
        telemetry_position(ids) == Some(at as usize),
        at <= usize::MAX ==> telemetry_position(ids)->0 as int == at,
{
    let chosen = choose|other: int| is_first_telemetry(ids, other);
    assert(chosen == at) by {
        if chosen < at {
            assert(ids[chosen] != TELEMETRY_CHARACTERISTIC);
        } else if at < chosen {
            assert(ids[at] != TELEMETRY_CHARACTERISTIC);
        }
    }
}

/// Takes the session one step on: from the phase it is in and the event
/// that the driver reports to the next phase and the action to perform.
pub fn step(phase: Phase, event: &Event) -> (next: (Phase, Action))
    ensures
        next == step_spec(phase, *event),
{
    match phase {
        Phase::Idle => match event {
            Event::Start => (Phase::OpeningAdapter, Action::OpenAdapter),
            _ => (Phase::Terminated, Action::Finish),
        },
        Phase::OpeningAdapter => match event {
            Event::AdapterOpened => (Phase::StartingScan, Action::StartScan),
            _ => abort(SetupError::NoAdapter),
        },
        Phase::StartingScan => match event {
            Event::ScanStarted => (Phase::Listing { attempt: 1 }, Action::ListPeripherals),
            _ => abort(SetupError::ScanFailed),
        },
        Phase::Listing { attempt } => match event {
            Event::PeripheralsListed { count } => if *count > 0 {
                (
                    Phase::Probing { attempt, index: 0, count: *count },
                    Action::ReadName { peripheral: 0 },
                )
            } else {
                pause(attempt)
            },
            _ => abort(SetupError::ScanFailed),
        },
        Phase::Probing { attempt, index, count } => match event {
            Event::NameRead { name } => {
                let found: bool = match name {
                    Some(text) => name_matches(text.as_str()),
                    None => false,
                };
                if found {
                    (
                        Phase::Connecting { peripheral: index },
                        Action::Connect { peripheral: index },
                    )
                } else if index < count && index + 1 < count {
                    (
                        Phase::Probing { attempt, index: index + 1, count },
                        Action::ReadName { peripheral: index + 1 },
                    )
                } else {
                    pause(attempt)
                }
            },
            _ => abort(SetupError::ScanFailed),
        },
        Phase::Pausing { attempt } => match event {
            Event::IntervalElapsed => if attempt < SCAN_ATTEMPTS {
                (Phase::Listing { attempt: attempt + 1 }, Action::ListPeripherals)
            } else {
                abort(SetupError::DeviceNotFound)
            },
            _ => abort(SetupError::ScanFailed),
        },
        Phase::Connecting { peripheral } => match event {
            Event::Connected => (
                Phase::Discovering { peripheral },
                Action::DiscoverServices { peripheral },
            ),
            _ => abort(SetupError::ConnectFailed),
        },
        Phase::Discovering { peripheral } => match event {
            Event::ServicesDiscovered { characteristics } => match find_telemetry(
                characteristics.as_slice(),
            ) {
                Some(characteristic) => (
                    Phase::Subscribing { peripheral, characteristic },
                    Action::Subscribe { peripheral, characteristic },
                ),
                None => abort(SetupError::CharacteristicNotFound),
            },
            _ => abort(SetupError::DiscoveryFailed),
        },
        Phase::Subscribing { peripheral, characteristic } => match event {
            Event::Subscribed { now } => (
                Phase::Streaming { workout: WorkoutState::new(*now) },
                Action::AwaitNotification,
            ),
            _ => abort(SetupError::SubscribeFailed),
        },
        Phase::Streaming { workout } => match event {
            Event::Notification { payload, now } => match decode(payload.as_slice()) {
                DecodedReading::Unrecognized => (phase, Action::AwaitNotification),
                reading => {
                    let mut workout = workout;
                    workout.apply(reading, *now);
                    (Phase::Streaming { workout }, Action::Render { snapshot: workout })
                },
            },
            _ => (Phase::Terminated, Action::Finish),
        },
        Phase::Terminated => (Phase::Terminated, Action::Finish),
        Phase::Failed { error } => abort(error),
    }
}

/// Ends the session with `error`.
fn abort(error: SetupError) -> (next: (Phase, Action))
    ensures
        next == aborted(error),
{
    (Phase::Failed { error }, Action::Abort { error })
}

/// Pauses after attempt `attempt`.
fn pause(attempt: u8) -> (next: (Phase, Action))
    ensures
        next == paused(attempt),
{
    (Phase::Pausing { attempt }, Action::Sleep { millis: SCAN_INTERVAL_MILLIS })
}

} // verus!
