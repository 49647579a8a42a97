//! The running state of a workout and how readings are folded into it.
//!
//! Time is handed in by the caller as a `Timestamp`; the state never looks
//! at a clock. Distance is counted in exact integer units: speed units
//! times nanoseconds, of which `DISTANCE_UNITS_PER_METRE` make one metre.

use vstd::prelude::*;
use crate::packet::{DecodedReading, SPEED_UNITS_PER_KMH};

verus! {

/// Nanoseconds in one second.
pub const NANOS_PER_SECOND: u64 = 1_000_000_000;

/// Distance units in one metre.
///
/// One distance unit is what a speed of one speed unit (a thousandth of a
/// km/h) covers in one nanosecond. A km/h is 1/3.6 m/s, so a metre is
/// 1000 * 3.6 * 10^9 units.
pub const DISTANCE_UNITS_PER_METRE: u128 = 3_600_000_000_000;

/// A point in time, in nanoseconds since an origin that the caller picks.
#[derive(Clone, Copy, PartialEq, Eq, Structural, Debug)]
pub struct Timestamp {
    pub nanos: u64,
}

/// The latest readings and the distance covered so far.
#[derive(Clone, Copy, PartialEq, Eq, Structural, Debug)]
pub struct WorkoutState {
    /// When distance was last integrated.
    pub last_update: Timestamp,
    /// Distance covered, in distance units.
    pub total_distance: u128,
    /// Latest speed, in speed units.
    pub current_speed: u32,
    /// Latest power, in power units.
    pub current_power: i32,
    /// Latest cadence, in cadence units.
    pub current_cadence: u32,
    /// Ride time as the bike last reported it, in seconds.
    pub elapsed_time_seconds: u16,
}

/// Nanoseconds from `earlier` to `later`; zero where `later` is not after
/// `earlier`.
pub open spec fn nanos_between(earlier: Timestamp, later: Timestamp) -> nat {
    if later.nanos >= earlier.nanos {
        (later.nanos - earlier.nanos) as nat
    } else {
        0
    }
}

/// Distance, in distance units, covered at `speed` from `earlier` to `later`.
pub open spec fn distance_covered(speed: u32, earlier: Timestamp, later: Timestamp) -> nat {
    (speed as nat) * nanos_between(earlier, later)
}

/// The distance counter cannot hold more than `u128::MAX`; it stays there.
pub open spec fn capped(distance: nat) -> u128 {
    if distance <= u128::MAX {
        distance as u128
    } else {
        u128::MAX
    }
}

impl WorkoutState {
    /// The state at the start of a session.
    pub open spec fn initial(now: Timestamp) -> WorkoutState {
        WorkoutState {
            last_update: now,
            total_distance: 0,
            current_speed: 0,
            current_power: 0,
            current_cadence: 0,
            elapsed_time_seconds: 0,
        }
    }

    /// The state after the time since the last update has been attributed
    /// to the current speed.
    pub open spec fn integrated(self, now: Timestamp) -> WorkoutState {
        WorkoutState {
            last_update: now,
            total_distance: capped(
                self.total_distance as nat + distance_covered(
                    self.current_speed,
                    self.last_update,
                    now,
                ),
            ),
            ..self
        }
    }

    /// The state after one reading, taken at `now`.
    ///
    /// A performance reading sets speed and power and then integrates
    /// distance with the speed just set. A cadence reading sets cadence and
    /// ride time and nothing else. An unrecognized one changes nothing.
    pub open spec fn applied(self, reading: DecodedReading, now: Timestamp) -> WorkoutState {
        match reading {
            DecodedReading::Performance { speed, power } => WorkoutState {
                current_speed: speed,
                current_power: power,
                ..self
            }.integrated(now),
            DecodedReading::Cadence { cadence, elapsed_seconds } => WorkoutState {
                current_cadence: cadence,
                elapsed_time_seconds: elapsed_seconds,
                ..self
            },
            DecodedReading::Unrecognized => self,
        }
    }

    /// The state after a sequence of readings, each with the time at which
    /// it was taken, applied in order.
    pub open spec fn applied_all(self, readings: Seq<(DecodedReading, Timestamp)>) -> WorkoutState
        decreases readings.len(),
    {
        if readings.len() == 0 {
            self
        } else {
            self.applied_all(readings.drop_last()).applied(readings.last().0, readings.last().1)
        }
    }

    /// A fresh state: nothing measured, nothing covered, last updated `now`.
    pub fn new(now: Timestamp) -> (state: WorkoutState)
        ensures
            state == WorkoutState::initial(now),
    {
        WorkoutState {
            last_update: now,
            total_distance: 0,
            current_speed: 0,
            current_power: 0,
            current_cadence: 0,
            elapsed_time_seconds: 0,
        }
    }

    /// Adds the distance covered at the current speed since the last
    /// update, and moves the last update to `now`.
    pub fn update_distance(&mut self, now: Timestamp)
        ensures
            *final(self) == old(self).integrated(now),
    {
        let elapsed: u64 = if now.nanos >= self.last_update.nanos {
            now.nanos - self.last_update.nanos
        } else {
            0
        };
        proof {
            lemma_product_fits(self.current_speed, elapsed);
        }
        let covered: u128 = (self.current_speed as u128) * (elapsed as u128);
        self.total_distance = self.total_distance.saturating_add(covered);
        self.last_update = now;
    }

    /// Folds one reading, taken at `now`, into the state.
    pub fn apply(&mut self, reading: DecodedReading, now: Timestamp)
        ensures
            *final(self) == old(self).applied(reading, now),
    {
        match reading {
            DecodedReading::Performance { speed, power } => {
                self.current_speed = speed;
                self.current_power = power;
                self.update_distance(now);
            },
            DecodedReading::Cadence { cadence, elapsed_seconds } => {
                self.current_cadence = cadence;
                self.elapsed_time_seconds = elapsed_seconds;
            },
            DecodedReading::Unrecognized => {},
        }
    }
}

/// A speed times a span of nanoseconds always fits the distance counter's type.
proof fn lemma_product_fits(speed: u32, elapsed: u64)
    ensures
        (speed as int) * (elapsed as int) <= u128::MAX,
        (speed as int) * (elapsed as int) >= 0,
{
    assert((speed as int) * (elapsed as int) <= 0xffff_ffff * 0xffff_ffff_ffff_ffff) by
        (nonlinear_arith)
        requires
            0 <= speed <= 0xffff_ffff,
            0 <= elapsed <= 0xffff_ffff_ffff_ffff,
    ;
    assert((speed as int) * (elapsed as int) >= 0) by (nonlinear_arith)
        requires
            0 <= speed,
            0 <= elapsed,
    ;
}

/// No reading ever lowers the distance.
pub proof fn lemma_distance_never_decreases(
    state: WorkoutState,
    reading: DecodedReading,
    now: Timestamp,
)
    ensures
        state.applied(reading, now).total_distance >= state.total_distance,
{
}

/// Across any sequence of readings the distance is non-decreasing: after
/// more of the sequence it is at least what it was after less of it.
pub proof fn lemma_distance_monotone(
    state: WorkoutState,
    readings: Seq<(DecodedReading, Timestamp)>,
    shorter: int,
    longer: int,
)
    requires
        0 <= shorter <= longer <= readings.len(),
    ensures
        state.applied_all(readings.take(shorter)).total_distance <= state.applied_all(
            readings.take(longer),
        ).total_distance,
    decreases longer - shorter,
{
    if shorter < longer {
        let prefix = readings.take(longer);
        assert(prefix.drop_last() == readings.take(longer - 1));
        lemma_distance_monotone(state, readings, shorter, longer - 1);
        lemma_distance_never_decreases(
            state.applied_all(readings.take(longer - 1)),
            prefix.last().0,
            prefix.last().1,
        );
    }
}

/// As long as the counter has room, a performance reading adds exactly the
/// new speed times the time since the last update.
pub proof fn lemma_performance_adds_exactly(
    state: WorkoutState,
    speed: u32,
    power: i32,
    now: Timestamp,
)
    requires
        state.total_distance + distance_covered(speed, state.last_update, now) <= u128::MAX,
    ensures
        state.applied(DecodedReading::Performance { speed, power }, now).total_distance
            == state.total_distance + (speed as nat) * nanos_between(state.last_update, now),
        state.applied(DecodedReading::Performance { speed, power }, now).last_update == now,
        state.applied(DecodedReading::Performance { speed, power }, now).current_speed == speed,
        state.applied(DecodedReading::Performance { speed, power }, now).current_power == power,
{
}

/// The units agree with the formula "speed in km/h, over 3.6, times
/// seconds": at `kmh` whole km/h for `seconds` whole seconds the distance
/// covered, in metres, times 3.6 is `kmh` times `seconds`.
pub proof fn lemma_units_agree(kmh: u32, seconds: u64, earlier: Timestamp, later: Timestamp)
    requires
        kmh * SPEED_UNITS_PER_KMH <= u32::MAX,
        later.nanos - earlier.nanos == seconds * NANOS_PER_SECOND,
    ensures
        36 * distance_covered((kmh * SPEED_UNITS_PER_KMH) as u32, earlier, later) == 10 * (kmh
            * seconds) * DISTANCE_UNITS_PER_METRE,
{
    let speed = (kmh * SPEED_UNITS_PER_KMH) as u32;
    assert(nanos_between(earlier, later) == seconds * 1_000_000_000);
    assert(36 * ((kmh * 1000) * (seconds * 1_000_000_000)) == 10 * (kmh * seconds)
        * 3_600_000_000_000) by (nonlinear_arith);
}

/// A cadence reading touches neither the distance nor the time of the last
/// update, nor speed and power.
pub proof fn lemma_cadence_keeps_distance(
    state: WorkoutState,
    cadence: u32,
    elapsed_seconds: u16,
    now: Timestamp,
)
    ensures
        state.applied(DecodedReading::Cadence { cadence, elapsed_seconds }, now) == (WorkoutState {
            current_cadence: cadence,
            elapsed_time_seconds: elapsed_seconds,
            ..state
        }),
        state.applied(DecodedReading::Cadence { cadence, elapsed_seconds }, now).total_distance
            == state.total_distance,
        state.applied(DecodedReading::Cadence { cadence, elapsed_seconds }, now).last_update
            == state.last_update,
{
}

/// An unrecognized reading changes nothing.
pub proof fn lemma_unrecognized_is_noop(state: WorkoutState, now: Timestamp)
    ensures
        state.applied(DecodedReading::Unrecognized, now) == state,
{
}

/// A performance reading at the very time of the last update adds no
/// distance; so of two performance readings at one timestamp the second
/// contributes nothing.
pub proof fn lemma_same_instant_adds_nothing(
    state: WorkoutState,
    first: DecodedReading,
    second: DecodedReading,
    now: Timestamp,
)
    requires
        first is Performance,
        second is Performance,
    ensures
        state.applied(first, now).applied(second, now).total_distance == state.applied(
            first,
            now,
        ).total_distance,
{
    let between = state.applied(first, now);
    assert(nanos_between(between.last_update, now) == 0);
    assert(forall|speed: u32| distance_covered(speed, between.last_update, now) == 0);
}

} // verus!
