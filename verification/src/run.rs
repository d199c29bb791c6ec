//! What holds of every run of a sequence, whatever the sun does.
//!
//! A run is a sequence of steps from some cursor, one solution handed in at
//! each step. The laws below speak of the occurrences that a run hands out.

use crate::algorithm::{day_shift, occurs, SolarSolution};
use crate::event::SunEvent;
use crate::iter::{beyond, same_members, step, turn_of_day, Cursor, Direction};
use crate::pos::Hemisphere;
use crate::time::day_of;
use vstd::prelude::*;

verus! {

/// The run of as many steps as there are `solutions`, from the cursor `start`:
/// the cursor after the last step and the occurrences handed out, in the
/// order in which they came.
pub open spec fn run(
    direction: Direction,
    whitelist: Seq<SunEvent>,
    side: Hemisphere,
    start: Cursor,
    solutions: Seq<SolarSolution>,
) -> (Cursor, Seq<(SunEvent, int)>)
    decreases solutions.len(),
{
    if solutions.len() == 0 {
        (start, Seq::empty())
    } else {
        let earlier = run(direction, whitelist, side, start, solutions.drop_last());
        let last = step(direction, whitelist, side, earlier.0, solutions.last());
        (
            last.0,
            match last.1 {
                Some(occurrence) => earlier.1.push(occurrence),
                None => earlier.1,
            },
        )
    }
}

/// Whether `to` is `from` or lies beyond it.
pub open spec fn reached(direction: Direction, from: int, to: int) -> bool {
    to == from || beyond(direction, from, to)
}

/// The day on which a sequence that handed out an occurrence on the day with
/// the number `day` looks for the next one.
pub open spec fn day_after(direction: Direction, day: int) -> int {
    match direction {
        Direction::Forward => day + 1,
        Direction::Backward => day - 1,
    }
}

/// Whether a solution puts its event on the day that was asked for, at a
/// second that a sequence entering that day has not reached yet: forwards
/// a sequence enters a day at its first second, backwards at its last.
pub open spec fn falls_within_day(
    direction: Direction,
    side: Hemisphere,
    event: SunEvent,
    solution: SolarSolution,
) -> bool {
    &&& occurs(event, solution.cosine)
    &&& day_shift(side, solution.half, event) == 0
    &&& match direction {
        Direction::Forward => 0 < solution.second < 86_400,
        Direction::Backward => solution.second < 86_399,
    }
}

proof fn lemma_run_moves_one_way(
    direction: Direction,
    whitelist: Seq<SunEvent>,
    side: Hemisphere,
    start: Cursor,
    solutions: Seq<SolarSolution>,
)
    ensures
        ({
            let (cursor, handed) = run(direction, whitelist, side, start, solutions);
            &&& reached(direction, start.time, cursor.time)
            &&& forall|k: int|
                0 <= k < handed.len() ==> beyond(direction, start.time, (#[trigger] handed[k]).1)
                    && reached(direction, handed[k].1, cursor.time)
            &&& forall|i: int, j: int|
                0 <= i < j < handed.len() ==> beyond(
                    direction,
                    (#[trigger] handed[i]).1,
                    (#[trigger] handed[j]).1,
                )
        }),
    decreases solutions.len(),
{
    if solutions.len() > 0 {
        lemma_run_moves_one_way(direction, whitelist, side, start, solutions.drop_last());
        let earlier = run(direction, whitelist, side, start, solutions.drop_last());
        let last = step(direction, whitelist, side, earlier.0, solutions.last());
        let (cursor, handed) = run(direction, whitelist, side, start, solutions);
        assert(reached(direction, earlier.0.time, cursor.time));
        assert forall|k: int| 0 <= k < handed.len() implies beyond(
            direction,
            start.time,
            (#[trigger] handed[k]).1,
        ) && reached(direction, handed[k].1, cursor.time) by {
            if k < earlier.1.len() {
                assert(handed[k] == earlier.1[k]);
            }
        }
        assert forall|i: int, j: int| 0 <= i < j < handed.len() implies beyond(
            direction,
            (#[trigger] handed[i]).1,
            (#[trigger] handed[j]).1,
        ) by {
            assert(handed[i] == earlier.1[i]);
            if j < earlier.1.len() {
                assert(handed[j] == earlier.1[j]);
            }
        }
    }
}

/// The occurrences of a run come in strict order of time: forwards each is
/// later than the one before, backwards each is earlier. All of them lie
/// beyond the instant at which the run began.
pub proof fn lemma_occurrences_are_strictly_monotonic(
    direction: Direction,
    whitelist: Seq<SunEvent>,
    side: Hemisphere,
    start: Cursor,
    solutions: Seq<SolarSolution>,
    i: int,
    j: int,
)
    requires
        0 <= i < j < run(direction, whitelist, side, start, solutions).1.len(),
    ensures
        ({
            let handed = run(direction, whitelist, side, start, solutions).1;
            &&& beyond(direction, handed[i].1, handed[j].1)
            &&& beyond(direction, start.time, handed[i].1)
            &&& beyond(direction, start.time, handed[j].1)
        }),
{
    lemma_run_moves_one_way(direction, whitelist, side, start, solutions);
}

/// Every event that a run hands out is one of the events of its cycle, and so
/// one of the events from which the cycle was made.
pub proof fn lemma_occurrences_are_whitelisted(
    direction: Direction,
    whitelist: Seq<SunEvent>,
    chosen: Seq<SunEvent>,
    side: Hemisphere,
    start: Cursor,
    solutions: Seq<SolarSolution>,
    k: int,
)
    requires
        same_members(whitelist, chosen),
        0 <= k < run(direction, whitelist, side, start, solutions).1.len(),
    ensures
        whitelist.contains(run(direction, whitelist, side, start, solutions).1[k].0),
        chosen.contains(run(direction, whitelist, side, start, solutions).1[k].0),
    decreases solutions.len(),
{
    let earlier = run(direction, whitelist, side, start, solutions.drop_last());
    if k < earlier.1.len() {
        lemma_occurrences_are_whitelisted(
            direction,
            whitelist,
            chosen,
            side,
            start,
            solutions.drop_last(),
            k,
        );
    } else {
        assert(whitelist[earlier.0.position] == run(
            direction,
            whitelist,
            side,
            start,
            solutions,
        ).1[k].0);
    }
}

proof fn lemma_silent_run_stays_in_the_day(
    direction: Direction,
    whitelist: Seq<SunEvent>,
    side: Hemisphere,
    start: Cursor,
    solutions: Seq<SolarSolution>,
)
    requires
        0 <= start.position,
        start.position + solutions.len() <= whitelist.len(),
        run(direction, whitelist, side, start, solutions).1.len() == 0,
    ensures
        run(direction, whitelist, side, start, solutions).0 == (Cursor {
            time: start.time,
            position: start.position + solutions.len(),
        }),
    decreases solutions.len(),
{
    if solutions.len() > 0 {
        lemma_silent_run_stays_in_the_day(direction, whitelist, side, start, solutions.drop_last());
    }
}

/// A day on which nothing is handed out is followed by the next day, and by
/// no other: a run from some position of the cycle up to and with the marker
/// that hands out no occurrence leaves the cursor at the turn of the day, at
/// the head of the cycle.
pub proof fn lemma_day_without_occurrence_turns_to_the_next(
    direction: Direction,
    whitelist: Seq<SunEvent>,
    side: Hemisphere,
    start: Cursor,
    solutions: Seq<SolarSolution>,
)
    requires
        0 <= start.position <= whitelist.len(),
        solutions.len() == whitelist.len() + 1 - start.position,
        run(direction, whitelist, side, start, solutions).1.len() == 0,
    ensures
        run(direction, whitelist, side, start, solutions).0 == (Cursor {
            time: turn_of_day(direction, start.time),
            position: 0,
        }),
        day_of(run(direction, whitelist, side, start, solutions).0.time) == day_after(
            direction,
            day_of(start.time),
        ),
{
    lemma_silent_run_stays_in_the_day(direction, whitelist, side, start, solutions.drop_last());
}

proof fn lemma_single_event_run(
    direction: Direction,
    whitelist: Seq<SunEvent>,
    side: Hemisphere,
    start: Cursor,
    solutions: Seq<SolarSolution>,
)
    requires
        whitelist.len() == 1,
        0 <= start.position <= 1,
        forall|n: int|
            0 <= n < solutions.len() && (start.position + n) % 2 == 0 ==> falls_within_day(
                direction,
                side,
                whitelist[0],
                #[trigger] solutions[n],
            ),
    ensures
        ({
            let (cursor, handed) = run(direction, whitelist, side, start, solutions);
            &&& 0 <= cursor.position <= 1
            &&& cursor.position == (start.position + solutions.len()) % 2
            &&& handed.len() > 0 ==> {
                ||| cursor.position == 1 && cursor.time == handed.last().1
                ||| cursor.position == 0 && cursor.time == turn_of_day(direction, handed.last().1)
            }
            &&& forall|k: int|
                0 <= k && k + 1 < handed.len() ==> day_of((#[trigger] handed[k + 1]).1) == day_after(
                    direction,
                    day_of(handed[k].1),
                )
        }),
    decreases solutions.len(),
{
    if solutions.len() > 0 {
        let before = solutions.drop_last();
        assert forall|n: int|
            0 <= n < before.len() && (start.position + n) % 2 == 0 implies falls_within_day(
            direction,
            side,
            whitelist[0],
            #[trigger] before[n],
        ) by {
            assert(before[n] == solutions[n]);
        }
        lemma_single_event_run(direction, whitelist, side, start, before);
        let earlier = run(direction, whitelist, side, start, before);
        let (cursor, handed) = run(direction, whitelist, side, start, solutions);
        if earlier.0.position == 0 {
            assert(falls_within_day(
                direction,
                side,
                whitelist[0],
                solutions[solutions.len() - 1],
            ));
        }
        assert forall|k: int| 0 <= k && k + 1 < handed.len() implies day_of(
            (#[trigger] handed[k + 1]).1,
        ) == day_after(direction, day_of(handed[k].1)) by {
            assert(handed[k] == earlier.1[k]);
            if k + 1 < earlier.1.len() {
                assert(handed[k + 1] == earlier.1[k + 1]);
            }
        }
    }
}

/// A sequence over a single event never skips a day: where each solution
/// handed in for the event puts it on the day asked for, at a second that the
/// sequence has not reached when it enters the day, the days of two
/// occurrences that follow each other differ by exactly one.
pub proof fn lemma_single_event_never_skips_a_day(
    direction: Direction,
    whitelist: Seq<SunEvent>,
    side: Hemisphere,
    start: Cursor,
    solutions: Seq<SolarSolution>,
    k: int,
)
    requires
        whitelist.len() == 1,
        0 <= start.position <= 1,
        forall|n: int|
            0 <= n < solutions.len() && (start.position + n) % 2 == 0 ==> falls_within_day(
                direction,
                side,
                whitelist[0],
                #[trigger] solutions[n],
            ),
        0 <= k,
        k + 1 < run(direction, whitelist, side, start, solutions).1.len(),
    ensures
        ({
            let handed = run(direction, whitelist, side, start, solutions).1;
            day_of(handed[k + 1].1) == day_after(direction, day_of(handed[k].1))
        }),
{
    lemma_single_event_run(direction, whitelist, side, start, solutions);
}

} // verus!
