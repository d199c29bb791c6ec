//! Sequences of events through time, forwards and backwards.
//!
//! A sequence walks through the days one by one. On each day it goes through
//! the events that the caller chose, in the order in which they occur, and
//! hands out those that lie beyond the instant it has reached. Between two
//! days stands a marker at which the sequence moves on to the next day. The
//! sun's position for each event is worked out by the caller: a sequence says
//! which event of which day it is at, takes the solution for it, and makes one
//! step.

use crate::algorithm::{event_fits, event_instant, event_time_fits, time_of_event, SolarSolution};
use crate::event::{in_occurrence_order, SunEvent};
use crate::pos::Hemisphere;
use crate::time::{day_of, day_of_year, midnight, representable, Timestamp, FIRST_DAY, LAST_DAY};
use vstd::prelude::*;

verus! {

/// Whether every event of `s` precedes all that stand behind it. Such a
/// sequence holds no event twice.
pub open spec fn strictly_ordered(s: Seq<SunEvent>) -> bool {
    forall|i: int, j: int|
        0 <= i < j < s.len() ==> (#[trigger] s[i]).precedes(#[trigger] s[j])
}

/// Whether two sequences hold the same events.
pub open spec fn same_members(a: Seq<SunEvent>, b: Seq<SunEvent>) -> bool {
    forall|e: SunEvent| a.contains(e) <==> b.contains(e)
}

/// What a cycle is at: one of its events, or the marker between two days.
#[derive(Debug, Eq, PartialEq, Copy, Clone, Structural)]
pub enum CycleState {
    Next(SunEvent),
    Restarting,
}

/// The item at `position` of the cycle over `events`: the events in turn,
/// then the marker.
pub open spec fn cycle_item(events: Seq<SunEvent>, position: int) -> CycleState {
    if 0 <= position < events.len() {
        CycleState::Next(events[position])
    } else {
        CycleState::Restarting
    }
}

/// The position that follows `position` in the cycle over `events`.
pub open spec fn cycle_successor(events: Seq<SunEvent>, position: int) -> int {
    if 0 <= position < events.len() {
        position + 1
    } else {
        0
    }
}

/// An endless cycle through a list of events in their order of occurrence,
/// with a marker after the last.
#[derive(Debug)]
pub struct EventCycle {
    events: Vec<SunEvent>,
    position: usize,
}

impl Clone for EventCycle {
    fn clone(&self) -> (copy: Self)
        ensures
            copy.events() == self.events(),
            copy.position() == self.position(),
    {
        proof {
            use_type_invariant(self);
        }
        let events = self.events.clone();
        assert(events@ =~= self.events@);
        EventCycle { events, position: self.position }
    }
}

impl EventCycle {
    #[verifier::type_invariant]
    spec fn well_formed(self) -> bool {
        &&& self.events@.len() > 0
        &&& strictly_ordered(self.events@)
        &&& self.position <= self.events@.len()
    }

    /// The events of the cycle, in the order in which it goes through them.
    pub closed spec fn events(self) -> Seq<SunEvent> {
        self.events@
    }

    /// How many items of the current round the cycle has handed out.
    pub closed spec fn position(self) -> int {
        self.position as int
    }

    /// The item that the cycle is at.
    pub fn peek(&self) -> (state: CycleState)
        ensures
            state == cycle_item(self.events(), self.position()),
            0 <= self.position() <= self.events().len(),
    {
        proof {
            use_type_invariant(self);
        }
        if self.position < self.events.len() {
            CycleState::Next(self.events[self.position])
        } else {
            CycleState::Restarting
        }
    }

    /// Hands out the item that the cycle is at and moves on to the next.
    pub fn next(&mut self) -> (state: CycleState)
        ensures
            state == cycle_item(old(self).events(), old(self).position()),
            final(self).events() == old(self).events(),
            final(self).position() == cycle_successor(old(self).events(), old(self).position()),
            0 <= old(self).position() <= old(self).events().len(),
    {
        proof {
            use_type_invariant(&*self);
        }
        if self.position < self.events.len() {
            let event = self.events[self.position];
            self.position = self.position + 1;
            CycleState::Next(event)
        } else {
            self.position = 0;
            CycleState::Restarting
        }
    }
}

/// Puts `event` at its place in a strictly ordered list, unless the list
/// holds it already.
fn insert_in_order(events: &mut Vec<SunEvent>, event: SunEvent)
    requires
        strictly_ordered(old(events)@),
    ensures
        strictly_ordered(final(events)@),
        forall|e: SunEvent|
            final(events)@.contains(e) <==> old(events)@.contains(e) || e == event,
{
    let ghost before = events@;
    let mut i: usize = 0;
    while i < events.len() && events[i].comes_before(event)
        invariant
            i <= events.len(),
            events@ == before,
            forall|k: int| 0 <= k < i ==> (#[trigger] before[k]).precedes(event),
        decreases events.len() - i,
    {
        i = i + 1;
    }
    if i < events.len() && events[i] == event {
        return;
    }
    events.insert(i, event);
    proof {
        let after = events@;
        before.insert_ensures(i as int, event);
        assert forall|a: int, b: int| 0 <= a < b < after.len() implies (#[trigger] after[a]).precedes(
            #[trigger] after[b],
        ) by {
            if b < i {
                assert(before[a].precedes(before[b]));
            } else if b == i {
                assert(before[a].precedes(event));
            } else if a < i {
                assert(before[a].precedes(before[b - 1]));
            } else if a == i {
                assert(!before[i as int].precedes(event));
                assert(before[i as int] != event);
                if b - 1 > i {
                    assert(before[i as int].precedes(before[b - 1]));
                }
            } else {
                assert(before[a - 1].precedes(before[b - 1]));
            }
        }
        assert forall|e: SunEvent| after.contains(e) <==> before.contains(e) || e == event by {
            if after.contains(e) {
                let k = choose|k: int| 0 <= k < after.len() && after[k] == e;
                if k < i {
                    assert(before[k] == e);
                } else if k > i {
                    assert(before[k - 1] == e);
                }
            }
            if before.contains(e) {
                let k = choose|k: int| 0 <= k < before.len() && before[k] == e;
                if k < i {
                    assert(after[k] == e);
                } else {
                    assert(after[k + 1] == e);
                }
            }
            if e == event {
                assert(after[i as int] == e);
            }
        }
    }
}

/// The cycle through the events of `events`: each of them once, in the order
/// in which they occur within a day, then the marker, and so on without end.
pub fn cycled(events: &[SunEvent]) -> (cycle: EventCycle)
    requires
        events@.len() > 0,
    ensures
        strictly_ordered(cycle.events()),
        same_members(cycle.events(), events@),
        cycle.position() == 0,
{
    let mut sorted: Vec<SunEvent> = Vec::new();
    let mut i: usize = 0;
    while i < events.len()
        invariant
            i <= events@.len(),
            strictly_ordered(sorted@),
            forall|e: SunEvent| sorted@.contains(e) <==> events@.take(i as int).contains(e),
        decreases events@.len() - i,
    {
        let ghost seen = events@.take(i as int);
        let ghost held = sorted@;
        insert_in_order(&mut sorted, events[i]);
        i = i + 1;
        proof {
            let now = events@.take(i as int);
            assert(now =~= seen.push(events@[i - 1]));
            assert forall|e: SunEvent| sorted@.contains(e) <==> now.contains(e) by {
                if now.contains(e) {
                    let k = choose|k: int| 0 <= k < now.len() && now[k] == e;
                    if k < seen.len() {
                        assert(seen[k] == e);
                    }
                }
                if seen.contains(e) {
                    let k = choose|k: int| 0 <= k < seen.len() && seen[k] == e;
                    assert(now[k] == e);
                }
                if e == events@[i - 1] {
                    assert(now[i - 1] == e);
                }
            }
        }
    }
    proof {
        assert(events@.take(i as int) =~= events@);
        assert(sorted@.contains(events@[0]));
    }
    EventCycle { events: sorted, position: 0 }
}

/// A strictly ordered sequence stands in the order of occurrence: what holds
/// of every such order holds of the events of a cycle.
pub proof fn lemma_cycle_is_in_occurrence_order(s: Seq<SunEvent>)
    requires
        strictly_ordered(s),
    ensures
        in_occurrence_order(s),
{
    assert forall|i: int, j: int| 0 <= i < j < s.len() implies !(#[trigger] s[j]).precedes(
        #[trigger] s[i],
    ) by {
        assert(s[i].precedes(s[j]));
    }
}

/// The events of a cycle are fixed by the events it was made from: two
/// strictly ordered sequences that hold the same events are the same.
pub proof fn lemma_cycle_is_unique(a: Seq<SunEvent>, b: Seq<SunEvent>)
    requires
        strictly_ordered(a),
        strictly_ordered(b),
        same_members(a, b),
    ensures
        a == b,
    decreases a.len(),
{
    if a.len() == 0 {
        if b.len() > 0 {
            assert(b.contains(b[0]));
            assert(a.contains(b[0]));
        }
        assert(a =~= b);
    } else {
        assert(a.contains(a.last()));
        assert(b.contains(a.last()));
        let at = choose|k: int| 0 <= k < b.len() && b[k] == a.last();
        assert(b.contains(b.last()));
        assert(a.contains(b.last()));
        let back = choose|k: int| 0 <= k < a.len() && a[k] == b.last();
        if at < b.len() - 1 {
            assert(b[at].precedes(b.last()));
            if back < a.len() - 1 {
                assert(a[back].precedes(a.last()));
            }
        }
        assert(a.last() == b.last());
        let a0 = a.drop_last();
        let b0 = b.drop_last();
        assert forall|e: SunEvent| a0.contains(e) <==> b0.contains(e) by {
            if a0.contains(e) {
                let k = choose|k: int| 0 <= k < a0.len() && a0[k] == e;
                assert(a[k].precedes(a.last()));
                assert(a.contains(e));
                let m = choose|m: int| 0 <= m < b.len() && b[m] == e;
                assert(b0[m] == e);
            }
            if b0.contains(e) {
                let k = choose|k: int| 0 <= k < b0.len() && b0[k] == e;
                assert(b[k].precedes(b.last()));
                assert(b.contains(e));
                let m = choose|m: int| 0 <= m < a.len() && a[m] == e;
                assert(a0[m] == e);
            }
        }
        lemma_cycle_is_unique(a0, b0);
        assert(a =~= a0.push(a.last()));
        assert(b =~= b0.push(b.last()));
    }
}

/// The direction in which a sequence walks through time.
#[derive(Debug, Eq, PartialEq, Copy, Clone, Structural)]
pub enum Direction {
    Forward,
    Backward,
}

/// What a sequence has reached: an instant, in seconds, and a position in the
/// cycle through its events.
pub ghost struct Cursor {
    pub time: int,
    pub position: int,
}

/// Whether the instant `to` lies beyond `from` in the given direction.
pub open spec fn beyond(direction: Direction, from: int, to: int) -> bool {
    match direction {
        Direction::Forward => to > from,
        Direction::Backward => to < from,
    }
}

/// The instant at which a sequence that has reached `time` enters the next
/// day in its direction: forwards the first second of the day after,
/// backwards the last second of the day before.
pub open spec fn turn_of_day(direction: Direction, time: int) -> int {
    match direction {
        Direction::Forward => midnight(day_of(time) + 1),
        Direction::Backward => midnight(day_of(time)) - 1,
    }
}

/// One step of a sequence over the events `whitelist`, which must be what the
/// cycle goes through. At an event, `solution` is taken as the solution for
/// that event on the day that the cursor has reached: if the event occurs and
/// its instant lies beyond the cursor, the cursor moves to it and the
/// occurrence is handed out. At the marker the cursor enters the next day and
/// the solution is left aside. The result is the cursor after the step and
/// the occurrence handed out, if any.
pub open spec fn step(
    direction: Direction,
    whitelist: Seq<SunEvent>,
    side: Hemisphere,
    cursor: Cursor,
    solution: SolarSolution,
) -> (Cursor, Option<(SunEvent, int)>) {
    let onward = cycle_successor(whitelist, cursor.position);
    match cycle_item(whitelist, cursor.position) {
        CycleState::Next(event) => {
            let found = event_instant(day_of(cursor.time), side, event, solution);
            if found is Some && beyond(direction, cursor.time, found->0) {
                (Cursor { time: found->0, position: onward }, Some((event, found->0)))
            } else {
                (Cursor { time: cursor.time, position: onward }, None)
            }
        },
        CycleState::Restarting => (
            Cursor { time: turn_of_day(direction, cursor.time), position: onward },
            None,
        ),
    }
}

/// Whether every instant that the step works out falls on a day that a date
/// can hold.
pub open spec fn step_fits(
    direction: Direction,
    whitelist: Seq<SunEvent>,
    side: Hemisphere,
    cursor: Cursor,
    solution: SolarSolution,
) -> bool {
    match cycle_item(whitelist, cursor.position) {
        CycleState::Next(event) => event_fits(day_of(cursor.time), side, event, solution),
        CycleState::Restarting => representable(turn_of_day(direction, cursor.time)),
    }
}

/// What a sequence hands out: an event and the instant at which it occurs.
pub type EventOccurrence = (SunEvent, Timestamp);

/// What a sequence asks its caller to work out: the sun's position for
/// `event` on the day of the year `ordinal`, counted from 1.
#[derive(Debug, Eq, PartialEq, Copy, Clone, Structural)]
pub struct SolarQuery {
    pub ordinal: u32,
    pub event: SunEvent,
}

/// What a sequence over the events `whitelist` asks for at `cursor`: the
/// event that the cycle is at, on the day of the year that the cursor has
/// reached, or nothing at the marker.
pub open spec fn pending_query(whitelist: Seq<SunEvent>, cursor: Cursor) -> Option<SolarQuery> {
    match cycle_item(whitelist, cursor.position) {
        CycleState::Next(event) => Some(
            SolarQuery { ordinal: day_of_year(day_of(cursor.time)) as u32, event },
        ),
        CycleState::Restarting => None,
    }
}

/// The events of the sun at one place from some instant on, before a
/// direction is chosen.
#[derive(Debug)]
pub struct SunEvents {
    side: Hemisphere,
    current_time: Timestamp,
    event_whitelist_iter: EventCycle,
}

impl Clone for SunEvents {
    fn clone(&self) -> (copy: Self)
        ensures
            copy.whitelist() == self.whitelist(),
            copy.side() == self.side(),
            copy.cursor() == self.cursor(),
    {
        SunEvents {
            side: self.side,
            current_time: self.current_time,
            event_whitelist_iter: self.event_whitelist_iter.clone(),
        }
    }
}

impl SunEvents {
    /// The events that the sequence hands out, in the order in which it goes
    /// through them on each day.
    pub closed spec fn whitelist(self) -> Seq<SunEvent> {
        self.event_whitelist_iter.events()
    }

    /// The side of the prime meridian for which the sequence runs.
    pub closed spec fn side(self) -> Hemisphere {
        self.side
    }

    /// What the sequence has reached.
    pub closed spec fn cursor(self) -> Cursor {
        Cursor { time: self.current_time@, position: self.event_whitelist_iter.position() }
    }

    /// The events of `event_whitelist` at a place on the given side of the
    /// prime meridian, from `start_date` on.
    pub fn starting_from(
        start_date: Timestamp,
        position: Hemisphere,
        event_whitelist: &[SunEvent],
    ) -> (events: SunEvents)
        requires
            event_whitelist@.len() > 0,
        ensures
            strictly_ordered(events.whitelist()),
            same_members(events.whitelist(), event_whitelist@),
            events.side() == position,
            events.cursor() == (Cursor { time: start_date@, position: 0 }),
    {
        SunEvents {
            side: position,
            current_time: start_date,
            event_whitelist_iter: cycled(event_whitelist),
        }
    }

    /// The events after the start, earliest first.
    pub fn forecast(self) -> (events: ForecastedSunEvents)
        ensures
            events.state() == self,
    {
        ForecastedSunEvents(self)
    }

    /// The events before the start, latest first.
    pub fn history(self) -> (events: HistoricSunEvents)
        ensures
            events.state() == self,
    {
        HistoricSunEvents(self)
    }

    /// The instant that the sequence has reached.
    pub fn current_time(&self) -> (time: Timestamp)
        ensures
            time@ == self.cursor().time,
    {
        self.current_time
    }

    /// What the caller is to work out for the next step: the event that the
    /// cycle is at, on the day that the sequence has reached. `None` at the
    /// marker between two days, where the next step needs no solution.
    pub fn pending(&self) -> (query: Option<SolarQuery>)
        ensures
            0 <= self.cursor().position <= self.whitelist().len(),
            query == pending_query(self.whitelist(), self.cursor()),
            query matches Some(q) ==> 1 <= q.ordinal <= 366,
    {
        match self.event_whitelist_iter.peek() {
            CycleState::Next(event) => Some(
                SolarQuery { ordinal: self.current_time.date().ordinal(), event },
            ),
            CycleState::Restarting => None,
        }
    }

    /// Whether a step in the given direction can be made with `solution`.
    fn can_advance(&self, direction: Direction, solution: SolarSolution) -> (fits: bool)
        ensures
            fits == step_fits(direction, self.whitelist(), self.side(), self.cursor(), solution),
    {
        let date = self.current_time.date();
        match self.event_whitelist_iter.peek() {
            CycleState::Next(event) => event_time_fits(date, self.side, event, solution),
            CycleState::Restarting => match direction {
                Direction::Forward => date.days() < LAST_DAY,
                Direction::Backward => date.days() > FIRST_DAY,
            },
        }
    }

    /// Makes one step in the given direction.
    fn advance(
        &mut self,
        direction: Direction,
        solution: SolarSolution,
    ) -> (occurrence: Option<EventOccurrence>)
        requires
            step_fits(
                direction,
                old(self).whitelist(),
                old(self).side(),
                old(self).cursor(),
                solution,
            ),
        ensures
            final(self).whitelist() == old(self).whitelist(),
            final(self).side() == old(self).side(),
            final(self).cursor() == step(
                direction,
                old(self).whitelist(),
                old(self).side(),
                old(self).cursor(),
                solution,
            ).0,
            occurrence_matches(
                occurrence,
                step(
                    direction,
                    old(self).whitelist(),
                    old(self).side(),
                    old(self).cursor(),
                    solution,
                ).1,
            ),
    {
        let date = self.current_time.date();
        match self.event_whitelist_iter.next() {
            CycleState::Next(event) => {
                if let Some(event_time) = time_of_event(date, self.side, event, solution) {
                    let passed = match direction {
                        Direction::Forward => event_time.is_after(self.current_time),
                        Direction::Backward => event_time.is_before(self.current_time),
                    };
                    if passed {
                        self.current_time = event_time;
                        return Some((event, event_time));
                    }
                }
                None
            },
            CycleState::Restarting => {
                self.current_time =
                match direction {
                    Direction::Forward => Timestamp::start_of(date.succ()),
                    Direction::Backward => Timestamp::end_of(date.pred()),
                };
                None
            },
        }
    }
}

/// Whether the occurrence that a step handed out is the one that the model
/// of the step gives.
pub open spec fn occurrence_matches(
    occurrence: Option<EventOccurrence>,
    model: Option<(SunEvent, int)>,
) -> bool {
    match occurrence {
        Some((event, time)) => model == Some((event, time@)),
        None => model is None,
    }
}

/// The events after some instant, earliest first.
pub struct ForecastedSunEvents(SunEvents);

impl ForecastedSunEvents {
    /// The sequence as it stands.
    pub closed spec fn state(self) -> SunEvents {
        self.0
    }

    /// The instant that the sequence has reached.
    pub fn current_time(&self) -> (time: Timestamp)
        ensures
            time@ == self.state().cursor().time,
    {
        self.0.current_time()
    }

    /// What the caller is to work out for the next step, if anything.
    pub fn pending(&self) -> (query: Option<SolarQuery>)
        ensures
            0 <= self.state().cursor().position <= self.state().whitelist().len(),
            query == pending_query(self.state().whitelist(), self.state().cursor()),
            query matches Some(q) ==> 1 <= q.ordinal <= 366,
    {
        self.0.pending()
    }

    /// Whether `advance` can be called with `solution`: whether every instant
    /// that the step works out falls on a day that a date can hold.
    pub fn can_advance(&self, solution: SolarSolution) -> (fits: bool)
        ensures
            fits == step_fits(
                Direction::Forward,
                self.state().whitelist(),
                self.state().side(),
                self.state().cursor(),
                solution,
            ),
    {
        self.0.can_advance(Direction::Forward, solution)
    }

    /// Makes one step forwards. At an event, `solution` is the solution for
    /// the pending event on the day reached; the event is handed out if it
    /// occurs later than the instant reached. At the marker the sequence
    /// moves to the first second of the next day.
    pub fn advance(&mut self, solution: SolarSolution) -> (occurrence: Option<EventOccurrence>)
        requires
            step_fits(
                Direction::Forward,
                old(self).state().whitelist(),
                old(self).state().side(),
                old(self).state().cursor(),
                solution,
            ),
        ensures
            final(self).state().whitelist() == old(self).state().whitelist(),
            final(self).state().side() == old(self).state().side(),
            final(self).state().cursor() == step(
                Direction::Forward,
                old(self).state().whitelist(),
                old(self).state().side(),
                old(self).state().cursor(),
                solution,
            ).0,
            occurrence_matches(
                occurrence,
                step(
                    Direction::Forward,
                    old(self).state().whitelist(),
                    old(self).state().side(),
                    old(self).state().cursor(),
                    solution,
                ).1,
            ),
    {
        self.0.advance(Direction::Forward, solution)
    }
}

/// The events before some instant, latest first.
pub struct HistoricSunEvents(SunEvents);

impl HistoricSunEvents {
    /// The sequence as it stands.
    pub closed spec fn state(self) -> SunEvents {
        self.0
    }

    /// The instant that the sequence has reached.
    pub fn current_time(&self) -> (time: Timestamp)
        ensures
            time@ == self.state().cursor().time,
    {
        self.0.current_time()
    }

    /// What the caller is to work out for the next step, if anything.
    pub fn pending(&self) -> (query: Option<SolarQuery>)
        ensures
            0 <= self.state().cursor().position <= self.state().whitelist().len(),
            query == pending_query(self.state().whitelist(), self.state().cursor()),
            query matches Some(q) ==> 1 <= q.ordinal <= 366,
    {
        self.0.pending()
    }

    /// Whether `advance` can be called with `solution`: whether every instant
    /// that the step works out falls on a day that a date can hold.
    pub fn can_advance(&self, solution: SolarSolution) -> (fits: bool)
        ensures
            fits == step_fits(
                Direction::Backward,
                self.state().whitelist(),
                self.state().side(),
                self.state().cursor(),
                solution,
            ),
    {
        self.0.can_advance(Direction::Backward, solution)
    }

    /// Makes one step backwards. At an event, `solution` is the solution for
    /// the pending event on the day reached; the event is handed out if it
    /// occurs earlier than the instant reached. At the marker the sequence
    /// moves to the last second of the day before.
    pub fn advance(&mut self, solution: SolarSolution) -> (occurrence: Option<EventOccurrence>)
        requires
            step_fits(
                Direction::Backward,
                old(self).state().whitelist(),
                old(self).state().side(),
                old(self).state().cursor(),
                solution,
            ),
        ensures
            final(self).state().whitelist() == old(self).state().whitelist(),
            final(self).state().side() == old(self).state().side(),
            final(self).state().cursor() == step(
                Direction::Backward,
                old(self).state().whitelist(),
                old(self).state().side(),
                old(self).state().cursor(),
                solution,
            ).0,
            occurrence_matches(
                occurrence,
                step(
                    Direction::Backward,
                    old(self).state().whitelist(),
                    old(self).state().side(),
                    old(self).state().cursor(),
                    solution,
                ).1,
            ),
    {
        self.0.advance(Direction::Backward, solution)
    }
}

} // verus!
