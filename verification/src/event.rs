//! Which event is meant: sunrise or sunset, and at what angle of the sun.

use std::cmp::Ordering;
use vstd::prelude::*;
use vstd::std_specs::cmp::PartialOrdSpecImpl;

verus! {

/// How far the sun stands from the zenith when the event is taken to happen.
/// The variants are declared, and ordered, by increasing angle.
#[derive(Debug, Eq, PartialEq, Copy, Clone, Ord, PartialOrd, Structural)]
pub enum Zenith {
    Golden,
    Official,
    Civil,
    Nautical,
    Astronomical,
}

impl Zenith {
    /// The angle in whole degrees.
    pub open spec fn degrees(self) -> int {
        match self {
            Zenith::Golden => 80,
            Zenith::Official => 90,
            Zenith::Civil => 96,
            Zenith::Nautical => 102,
            Zenith::Astronomical => 108,
        }
    }

    /// The display name.
    pub open spec fn label(self) -> Seq<char> {
        match self {
            Zenith::Golden => "golden"@,
            Zenith::Official => "official"@,
            Zenith::Civil => "civil"@,
            Zenith::Nautical => "nautical"@,
            Zenith::Astronomical => "astronomical"@,
        }
    }

    /// The angle between the zenith and the sun, in whole degrees.
    pub fn angle(self) -> (degrees: u32)
        ensures
            degrees == self.degrees(),
    {
        match self {
            Zenith::Golden => 80,
            Zenith::Official => 90,
            Zenith::Civil => 96,
            Zenith::Nautical => 102,
            Zenith::Astronomical => 108,
        }
    }

    /// The name as it is shown to a reader.
    pub fn name(self) -> (name: String)
        ensures
            name@ == self.label(),
    {
        match self {
            Zenith::Golden => String::from_str("golden"),
            Zenith::Official => String::from_str("official"),
            Zenith::Civil => String::from_str("civil"),
            Zenith::Nautical => String::from_str("nautical"),
            Zenith::Astronomical => String::from_str("astronomical"),
        }
    }
}

/// Sunrise or sunset. Sunrise is ordered before sunset.
#[derive(Debug, Eq, PartialEq, Copy, Clone, Ord, PartialOrd, Structural)]
pub enum Event {
    Sunrise,
    Sunset,
}

impl Event {
    /// The local hour near which the event is looked for.
    pub open spec fn approximate_hour(self) -> int {
        match self {
            Event::Sunrise => 6,
            Event::Sunset => 18,
        }
    }

    /// The display name.
    pub open spec fn label(self) -> Seq<char> {
        match self {
            Event::Sunrise => "sunrise"@,
            Event::Sunset => "sunset"@,
        }
    }

    /// The local hour near which the event is looked for: 6 or 18.
    pub fn hour(self) -> (hour: u32)
        ensures
            hour == self.approximate_hour(),
    {
        match self {
            Event::Sunrise => 6,
            Event::Sunset => 18,
        }
    }

    /// The name as it is shown to a reader.
    pub fn name(self) -> (name: String)
        ensures
            name@ == self.label(),
    {
        match self {
            Event::Sunrise => String::from_str("sunrise"),
            Event::Sunset => String::from_str("sunset"),
        }
    }
}

/// A sunrise or a sunset at some angle of the sun.
#[derive(Debug, Eq, PartialEq, Copy, Clone, Structural)]
pub struct SunEvent {
    pub zenith: Zenith,
    pub event: Event,
}

/// The ordering of two integers.
pub open spec fn order_of(a: int, b: int) -> Ordering {
    if a < b {
        Ordering::Less
    } else if a == b {
        Ordering::Equal
    } else {
        Ordering::Greater
    }
}

fn compare_angles(a: u32, b: u32) -> (o: Ordering)
    ensures
        a < b ==> o == Ordering::Less,
        a == b ==> o == Ordering::Equal,
        a > b ==> o == Ordering::Greater,
{
    if a < b {
        Ordering::Less
    } else if a == b {
        Ordering::Equal
    } else {
        Ordering::Greater
    }
}

impl SunEvent {
    /// Where the event stands among the events of one day: the angle of the
    /// sun, counted downwards before noon and upwards after it. In the morning
    /// the sun climbs through the angles from the largest to the smallest, in
    /// the evening it sinks through them the other way.
    pub open spec fn occurrence_key(self) -> int {
        match self.event {
            Event::Sunrise => -self.zenith.degrees(),
            Event::Sunset => self.zenith.degrees(),
        }
    }

    /// Whether `self` occurs earlier in a day than `other`.
    pub open spec fn precedes(self, other: SunEvent) -> bool {
        self.occurrence_key() < other.occurrence_key()
    }

    /// The display name: the common names where there is one, else the names
    /// of the angle and of the event.
    pub open spec fn label(self) -> Seq<char> {
        match (self.zenith, self.event) {
            (Zenith::Civil, Event::Sunrise) => "dawn"@,
            (Zenith::Civil, Event::Sunset) => "dusk"@,
            (Zenith::Official, Event::Sunrise) => "sunrise"@,
            (Zenith::Official, Event::Sunset) => "sunset"@,
            (z, e) => z.label() + " "@ + e.label(),
        }
    }

    /// The start of civil twilight in the morning.
    pub open spec fn spec_dawn() -> SunEvent {
        SunEvent { zenith: Zenith::Civil, event: Event::Sunrise }
    }

    /// The end of civil twilight in the evening.
    pub open spec fn spec_dusk() -> SunEvent {
        SunEvent { zenith: Zenith::Civil, event: Event::Sunset }
    }

    /// The moment at which the sun comes over the horizon.
    pub open spec fn spec_sunrise() -> SunEvent {
        SunEvent { zenith: Zenith::Official, event: Event::Sunrise }
    }

    /// The moment at which the sun goes under the horizon.
    pub open spec fn spec_sunset() -> SunEvent {
        SunEvent { zenith: Zenith::Official, event: Event::Sunset }
    }

    /// Whether the event is a sunrise.
    pub open spec fn spec_is_sunrise(self) -> bool {
        self.event == Event::Sunrise
    }

    /// Whether the event is a sunset.
    pub open spec fn spec_is_sunset(self) -> bool {
        self.event == Event::Sunset
    }

    pub fn new(zenith: Zenith, event: Event) -> (e: Self)
        ensures
            e == (SunEvent { zenith, event }),
    {
        SunEvent { zenith, event }
    }

    /// The start of civil twilight in the morning.
    #[verifier::when_used_as_spec(spec_dawn)]
    pub fn dawn() -> (e: Self)
        ensures
            e == Self::spec_dawn(),
    {
        SunEvent::new(Zenith::Civil, Event::Sunrise)
    }

    /// The end of civil twilight in the evening.
    #[verifier::when_used_as_spec(spec_dusk)]
    pub fn dusk() -> (e: Self)
        ensures
            e == Self::spec_dusk(),
    {
        SunEvent::new(Zenith::Civil, Event::Sunset)
    }

    /// The moment at which the sun comes over the horizon.
    #[verifier::when_used_as_spec(spec_sunrise)]
    pub fn sunrise() -> (e: Self)
        ensures
            e == Self::spec_sunrise(),
    {
        SunEvent::new(Zenith::Official, Event::Sunrise)
    }

    /// The moment at which the sun goes under the horizon.
    #[verifier::when_used_as_spec(spec_sunset)]
    pub fn sunset() -> (e: Self)
        ensures
            e == Self::spec_sunset(),
    {
        SunEvent::new(Zenith::Official, Event::Sunset)
    }

    #[verifier::when_used_as_spec(spec_is_sunrise)]
    pub fn is_sunrise(self) -> (b: bool)
        ensures
            b == self.spec_is_sunrise(),
    {
        match self.event {
            Event::Sunrise => true,
            Event::Sunset => false,
        }
    }

    #[verifier::when_used_as_spec(spec_is_sunset)]
    pub fn is_sunset(self) -> (b: bool)
        ensures
            b == self.spec_is_sunset(),
    {
        !self.is_sunrise()
    }

    /// Whether `self` occurs earlier in a day than `other`.
    pub fn comes_before(self, other: SunEvent) -> (b: bool)
        ensures
            b == self.precedes(other),
    {
        self < other
    }

    /// The name as it is shown to a reader.
    pub fn name(self) -> (name: String)
        ensures
            name@ == self.label(),
    {
        match (self.zenith, self.event) {
            (Zenith::Civil, Event::Sunrise) => String::from_str("dawn"),
            (Zenith::Civil, Event::Sunset) => String::from_str("dusk"),
            (Zenith::Official, Event::Sunrise) => String::from_str("sunrise"),
            (Zenith::Official, Event::Sunset) => String::from_str("sunset"),
            (z, e) => {
                let mut name = z.name();
                name.append(" ");
                let kind = e.name();
                name.append(kind.as_str());
                name
            },
        }
    }
}

impl PartialOrd for SunEvent {
    /// Orders two events by when they occur within a day.
    fn partial_cmp(&self, other: &Self) -> (o: Option<Ordering>) {
        let a: u32 = self.zenith.angle();
        let b: u32 = other.zenith.angle();
        Some(
            match (self.event, other.event) {
                (Event::Sunrise, Event::Sunrise) => compare_angles(b, a),
                (Event::Sunset, Event::Sunset) => compare_angles(a, b),
                (Event::Sunrise, Event::Sunset) => Ordering::Less,
                (Event::Sunset, Event::Sunrise) => Ordering::Greater,
            },
        )
    }
}

impl PartialOrdSpecImpl for SunEvent {
    open spec fn obeys_partial_cmp_spec() -> bool {
        true
    }

    open spec fn partial_cmp_spec(&self, other: &SunEvent) -> Option<Ordering> {
        Some(order_of(self.occurrence_key(), other.occurrence_key()))
    }
}

/// Whether the events of `s` stand in the order in which they occur within a
/// day: none stands before one that precedes it.
pub open spec fn in_occurrence_order(s: Seq<SunEvent>) -> bool {
    forall|i: int, j: int|
        0 <= i < j < s.len() ==> !(#[trigger] s[j]).precedes(#[trigger] s[i])
}

/// One event precedes another exactly when it is a sunrise and the other a
/// sunset, or both are sunrises and it has the larger angle, or both are
/// sunsets and it has the smaller angle.
pub proof fn lemma_precedes_by_kind_then_angle(a: SunEvent, b: SunEvent)
    ensures
        a.precedes(b) <==> ({
            ||| a.event == Event::Sunrise && b.event == Event::Sunset
            ||| a.event == Event::Sunrise && b.event == Event::Sunrise && a.zenith.degrees()
                > b.zenith.degrees()
            ||| a.event == Event::Sunset && b.event == Event::Sunset && a.zenith.degrees()
                < b.zenith.degrees()
        }),
{
}

/// The order of occurrence is a strict total order on events: no event
/// precedes itself, the relation is transitive, and of two different events
/// exactly one precedes the other.
pub proof fn lemma_precedes_is_strict_total_order(a: SunEvent, b: SunEvent, c: SunEvent)
    ensures
        !a.precedes(a),
        a.precedes(b) && b.precedes(c) ==> a.precedes(c),
        a != b ==> a.precedes(b) || b.precedes(a),
        !(a.precedes(b) && b.precedes(a)),
{
}

/// In a sequence of events that stands in the order of occurrence, every
/// sunrise stands before every sunset, the sunrises stand by falling angle
/// and the sunsets by rising angle.
pub proof fn lemma_order_puts_sunrises_first(s: Seq<SunEvent>, i: int, j: int)
    requires
        in_occurrence_order(s),
        0 <= i < s.len(),
        0 <= j < s.len(),
    ensures
        s[i].event == Event::Sunrise && s[j].event == Event::Sunset ==> i < j,
        i < j && s[i].event == Event::Sunrise && s[j].event == Event::Sunrise
            ==> s[i].zenith.degrees() >= s[j].zenith.degrees(),
        i < j && s[i].event == Event::Sunset && s[j].event == Event::Sunset
            ==> s[i].zenith.degrees() <= s[j].zenith.degrees(),
{
    if j < i {
        assert(!s[i].precedes(s[j]));
    }
    if i < j {
        assert(!s[j].precedes(s[i]));
    }
}

} // verus!
