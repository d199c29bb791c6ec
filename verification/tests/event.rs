use circadia::Event::{Sunrise, Sunset};
use circadia::Zenith::{Astronomical, Civil, Golden, Nautical, Official};
use circadia::{Event, SunEvent, Zenith};
use std::cmp::Ordering;

fn by_occurrence(events: &mut Vec<SunEvent>) {
    events.sort_by(|a, b| a.partial_cmp(b).unwrap());
}

fn all_in_order() -> Vec<SunEvent> {
    vec![
        SunEvent::new(Astronomical, Sunrise),
        SunEvent::new(Nautical, Sunrise),
        SunEvent::new(Civil, Sunrise),
        SunEvent::new(Official, Sunrise),
        SunEvent::new(Golden, Sunrise),
        SunEvent::new(Golden, Sunset),
        SunEvent::new(Official, Sunset),
        SunEvent::new(Civil, Sunset),
        SunEvent::new(Nautical, Sunset),
        SunEvent::new(Astronomical, Sunset),
    ]
}

#[test]
fn sunrise_should_sort_before_sunset() {
    let mut events = vec![Sunrise, Sunset, Sunrise, Sunset, Sunset, Sunset, Sunrise];
    events.sort();
    assert_eq!(events, vec![Sunrise, Sunrise, Sunrise, Sunset, Sunset, Sunset, Sunset]);
}

#[test]
fn zenith_should_sort_in_order_of_angle() {
    let mut zeniths =
        vec![Golden, Official, Golden, Civil, Astronomical, Nautical, Astronomical, Official];
    zeniths.sort();
    assert_eq!(
        zeniths,
        vec![Golden, Golden, Official, Official, Civil, Nautical, Astronomical, Astronomical]
    );
}

#[test]
fn sun_event_should_sort_in_order_of_occurence() {
    let mut events =
        vec![SunEvent::dawn(), SunEvent::dusk(), SunEvent::sunrise(), SunEvent::sunset()];
    by_occurrence(&mut events);
    assert_eq!(
        events,
        vec![SunEvent::dawn(), SunEvent::sunrise(), SunEvent::sunset(), SunEvent::dusk()]
    );
}

#[test]
fn named_events_are_the_civil_and_official_ones() {
    assert_eq!(SunEvent::dawn(), SunEvent { zenith: Civil, event: Sunrise });
    assert_eq!(SunEvent::dusk(), SunEvent { zenith: Civil, event: Sunset });
    assert_eq!(SunEvent::sunrise(), SunEvent { zenith: Official, event: Sunrise });
    assert_eq!(SunEvent::sunset(), SunEvent { zenith: Official, event: Sunset });
}

#[test]
fn new_keeps_both_parts() {
    let event = SunEvent::new(Nautical, Sunset);
    assert_eq!(event.zenith, Nautical);
    assert_eq!(event.event, Sunset);
    assert!(event.is_sunset());
    assert!(!event.is_sunrise());
    assert!(SunEvent::new(Golden, Sunrise).is_sunrise());
    assert!(!SunEvent::new(Golden, Sunrise).is_sunset());
}

#[test]
fn zenith_angles_in_degrees() {
    assert_eq!(Golden.angle(), 80);
    assert_eq!(Official.angle(), 90);
    assert_eq!(Civil.angle(), 96);
    assert_eq!(Nautical.angle(), 102);
    assert_eq!(Astronomical.angle(), 108);
}

#[test]
fn approximate_hours_of_the_events() {
    assert_eq!(Sunrise.hour(), 6);
    assert_eq!(Sunset.hour(), 18);
}

#[test]
fn names_of_zeniths_and_events() {
    assert_eq!(Golden.name(), "golden");
    assert_eq!(Official.name(), "official");
    assert_eq!(Civil.name(), "civil");
    assert_eq!(Nautical.name(), "nautical");
    assert_eq!(Astronomical.name(), "astronomical");
    assert_eq!(Sunrise.name(), "sunrise");
    assert_eq!(Sunset.name(), "sunset");
}

#[test]
fn names_of_sun_events() {
    assert_eq!(SunEvent::dawn().name(), "dawn");
    assert_eq!(SunEvent::dusk().name(), "dusk");
    assert_eq!(SunEvent::sunrise().name(), "sunrise");
    assert_eq!(SunEvent::sunset().name(), "sunset");
    assert_eq!(SunEvent::new(Golden, Sunrise).name(), "golden sunrise");
    assert_eq!(SunEvent::new(Golden, Sunset).name(), "golden sunset");
    assert_eq!(SunEvent::new(Nautical, Sunrise).name(), "nautical sunrise");
    assert_eq!(SunEvent::new(Nautical, Sunset).name(), "nautical sunset");
    assert_eq!(SunEvent::new(Astronomical, Sunrise).name(), "astronomical sunrise");
    assert_eq!(SunEvent::new(Astronomical, Sunset).name(), "astronomical sunset");
}

#[test]
fn all_ten_events_sort_from_first_light_to_last() {
    let mut events = all_in_order();
    events.reverse();
    events.swap(2, 7);
    by_occurrence(&mut events);
    assert_eq!(events, all_in_order());
}

#[test]
fn every_pair_compares_by_its_place_in_the_day() {
    let events = all_in_order();
    for (i, a) in events.iter().enumerate() {
        for (j, b) in events.iter().enumerate() {
            assert_eq!(a.partial_cmp(b), Some(i.cmp(&j)));
            assert_eq!(a.comes_before(*b), i < j);
            assert_eq!(a < b, i < j);
        }
    }
}

#[test]
fn sunrises_go_by_falling_angle_and_sunsets_by_rising_angle() {
    let early = SunEvent::new(Astronomical, Sunrise);
    let late = SunEvent::new(Golden, Sunrise);
    assert_eq!(early.partial_cmp(&late), Some(Ordering::Less));
    let early = SunEvent::new(Golden, Sunset);
    let late = SunEvent::new(Astronomical, Sunset);
    assert_eq!(early.partial_cmp(&late), Some(Ordering::Less));
    assert_eq!(late.partial_cmp(&early), Some(Ordering::Greater));
    assert_eq!(late.partial_cmp(&late), Some(Ordering::Equal));
}

#[test]
fn any_sunrise_comes_before_any_sunset() {
    let zeniths = [Golden, Official, Civil, Nautical, Astronomical];
    for rise in zeniths {
        for set in zeniths {
            assert!(SunEvent::new(rise, Sunrise).comes_before(SunEvent::new(set, Sunset)));
            assert!(!SunEvent::new(set, Sunset).comes_before(SunEvent::new(rise, Sunrise)));
        }
    }
}

#[test]
fn zenith_and_event_compare_as_declared() {
    assert!(Zenith::Golden < Zenith::Official);
    assert!(Zenith::Nautical < Zenith::Astronomical);
    assert!(Event::Sunrise < Event::Sunset);
}
