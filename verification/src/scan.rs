//! Whole scans: what becomes of the session when the transport works and
//! the names it reports are known.

use vstd::prelude::*;
use crate::locator::{is_bike, SCAN_ATTEMPTS};
use crate::run::{lemma_run_in_parts, lemma_run_of_one, phase_after};
use crate::session::{name_view, Event, Phase, SetupError};

verus! {

/// One report for each name, in order.
pub open spec fn name_reports(names: Seq<Option<String>>) -> Seq<Event> {
    Seq::new(names.len(), |i: int| Event::NameRead { name: names[i] })
}

/// None of the names is the bike's.
pub open spec fn no_bike_among(names: Seq<Option<String>>) -> bool {
    forall|i: int| 0 <= i < names.len() ==> !is_bike(name_view(#[trigger] names[i]))
}

/// What is reported in an attempt that goes through all of `names`: the
/// list, each name, and the end of the pause.
pub open spec fn whole_attempt(names: Seq<Option<String>>) -> Seq<Event> {
    seq![Event::PeripheralsListed { count: names.len() as usize }] + name_reports(names)
        + seq![Event::IntervalElapsed]
}

/// What is reported in a row of whole attempts, `attempts[i]` being the
/// names that attempt `i + 1` goes through.
pub open spec fn whole_attempts(attempts: Seq<Seq<Option<String>>>) -> Seq<Event>
    decreases attempts.len(),
{
    if attempts.len() == 0 {
        Seq::empty()
    } else {
        whole_attempts(attempts.drop_last()) + whole_attempt(attempts.last())
    }
}

/// What is reported up to the start of the first attempt when the
/// transport works.
pub open spec fn scan_opening() -> Seq<Event> {
    seq![Event::Start, Event::AdapterOpened, Event::ScanStarted]
}

/// As long as no name is the bike's, probing goes from one peripheral to
/// the next, and pauses after the last.
pub proof fn lemma_probing_goes_on(attempt: u8, names: Seq<Option<String>>, probed: int)
    requires
        0 < names.len() <= usize::MAX,
        0 <= probed <= names.len(),
        no_bike_among(names.take(probed)),
    ensures
        phase_after(
            Phase::Probing { attempt, index: 0, count: names.len() as usize },
            name_reports(names).take(probed),
        ) == if probed < names.len() {
            Phase::Probing { attempt, index: probed as usize, count: names.len() as usize }
        } else {
            Phase::Pausing { attempt }
        },
    decreases probed,
{
    let reports = name_reports(names).take(probed);
    if probed > 0 {
        assert(reports.drop_last() == name_reports(names).take(probed - 1));
        assert(no_bike_among(names.take(probed - 1))) by {
            assert forall|i: int| 0 <= i < probed - 1 implies !is_bike(
                name_view(#[trigger] names.take(probed - 1)[i]),
            ) by {
                assert(names.take(probed - 1)[i] == names.take(probed)[i]);
            }
        }
        lemma_probing_goes_on(attempt, names, probed - 1);
        assert(reports.last() == (Event::NameRead { name: names[probed - 1] }));
        assert(names[probed - 1] == names.take(probed)[probed - 1]);
    }
}

/// The first match wins: when a name is the bike's and none before it is,
/// the session goes on to connect to that very peripheral as soon as the
/// name is read, whatever the names after it.
pub proof fn lemma_first_match_wins(attempt: u8, names: Seq<Option<String>>, first: int)
    requires
        names.len() <= usize::MAX,
        0 <= first < names.len(),
        is_bike(name_view(names[first])),
        no_bike_among(names.take(first)),
    ensures
        phase_after(
            Phase::Listing { attempt },
            seq![Event::PeripheralsListed { count: names.len() as usize }] + name_reports(
                names,
            ).take(first + 1),
        ) == (Phase::Connecting { peripheral: first as usize }),
{
    let listed = seq![Event::PeripheralsListed { count: names.len() as usize }];
    let probing = Phase::Probing { attempt, index: 0, count: names.len() as usize };
    let reports = name_reports(names).take(first + 1);
    lemma_run_of_one(
        Phase::Listing { attempt },
        Event::PeripheralsListed { count: names.len() as usize },
    );
    assert(phase_after(Phase::Listing { attempt }, listed) == probing);
    lemma_run_in_parts(Phase::Listing { attempt }, listed, reports);
    assert(reports.drop_last() == name_reports(names).take(first));
    lemma_probing_goes_on(attempt, names, first);
    assert(reports.last() == (Event::NameRead { name: names[first] }));
}

/// An attempt that goes through names of which none is the bike's leads to
/// the next attempt, and after the last attempt to `DeviceNotFound`.
pub proof fn lemma_attempt_without_bike(attempt: u8, names: Seq<Option<String>>)
    requires
        names.len() <= usize::MAX,
        no_bike_among(names),
    ensures
        phase_after(Phase::Listing { attempt }, whole_attempt(names)) == if attempt
            < SCAN_ATTEMPTS {
            Phase::Listing { attempt: (attempt + 1) as u8 }
        } else {
            Phase::Failed { error: SetupError::DeviceNotFound }
        },
{
    let listed = seq![Event::PeripheralsListed { count: names.len() as usize }];
    let elapsed = seq![Event::IntervalElapsed];
    let start = Phase::Listing { attempt };
    lemma_run_of_one(start, Event::PeripheralsListed { count: names.len() as usize });
    lemma_run_of_one(Phase::Pausing { attempt }, Event::IntervalElapsed);
    lemma_run_in_parts(start, listed + name_reports(names), elapsed);
    lemma_run_in_parts(start, listed, name_reports(names));
    if names.len() > 0 {
        assert(names.take(names.len() as int) == names);
        assert(name_reports(names).take(names.len() as int) == name_reports(names));
        lemma_probing_goes_on(attempt, names, names.len() as int);
    } else {
        assert(name_reports(names) == Seq::<Event>::empty());
    }
    assert(phase_after(start, listed + name_reports(names)) == (Phase::Pausing { attempt }));
}

/// After some whole attempts that met no name of the bike, the scan is at
/// the next attempt; after as many as the limit allows, the session has
/// failed with `DeviceNotFound`.
pub proof fn lemma_attempts_without_bike(attempts: Seq<Seq<Option<String>>>)
    requires
        attempts.len() <= SCAN_ATTEMPTS,
        forall|i: int|
            0 <= i < attempts.len() ==> (#[trigger] attempts[i]).len() <= usize::MAX
                && no_bike_among(attempts[i]),
    ensures
        phase_after(Phase::Listing { attempt: 1 }, whole_attempts(attempts)) == if attempts.len()
            < SCAN_ATTEMPTS {
            Phase::Listing { attempt: (attempts.len() + 1) as u8 }
        } else {
            Phase::Failed { error: SetupError::DeviceNotFound }
        },
    decreases attempts.len(),
{
    if attempts.len() > 0 {
        let earlier = attempts.drop_last();
        assert forall|i: int| 0 <= i < earlier.len() implies (#[trigger] earlier[i]).len()
            <= usize::MAX && no_bike_among(earlier[i]) by {
            assert(earlier[i] == attempts[i]);
        }
        lemma_attempts_without_bike(earlier);
        lemma_run_in_parts(
            Phase::Listing { attempt: 1 },
            whole_attempts(earlier),
            whole_attempt(attempts.last()),
        );
        assert(attempts.last() == attempts[attempts.len() - 1]);
        lemma_attempt_without_bike(attempts.len() as u8, attempts.last());
    }
}

/// A scan that never meets a name of the bike ends in `DeviceNotFound`:
/// with a working transport, whatever peripherals the attempts list and
/// whatever they are called, a session that began idle has failed with
/// that error once the last attempt and its pause are over.
pub proof fn lemma_scan_without_bike_fails(attempts: Seq<Seq<Option<String>>>)
    requires
        attempts.len() == SCAN_ATTEMPTS,
        forall|i: int|
            0 <= i < attempts.len() ==> (#[trigger] attempts[i]).len() <= usize::MAX
                && no_bike_among(attempts[i]),
    ensures
        phase_after(Phase::Idle, scan_opening() + whole_attempts(attempts)) == (Phase::Failed {
            error: SetupError::DeviceNotFound,
        }),
{
    let opening = scan_opening();
    assert(opening == seq![Event::Start] + seq![Event::AdapterOpened] + seq![Event::ScanStarted]);
    lemma_run_of_one(Phase::Idle, Event::Start);
    lemma_run_of_one(Phase::OpeningAdapter, Event::AdapterOpened);
    lemma_run_of_one(Phase::StartingScan, Event::ScanStarted);
    lemma_run_in_parts(Phase::Idle, seq![Event::Start], seq![Event::AdapterOpened]);
    lemma_run_in_parts(
        Phase::Idle,
        seq![Event::Start] + seq![Event::AdapterOpened],
        seq![Event::ScanStarted],
    );
    assert(phase_after(Phase::Idle, opening) == (Phase::Listing { attempt: 1 }));
    lemma_run_in_parts(Phase::Idle, opening, whole_attempts(attempts));
    lemma_attempts_without_bike(attempts);
}

} // verus!
