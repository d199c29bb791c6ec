use circadia::time::{FIRST_DAY, LAST_DAY};
use circadia::DayHalf::{Afternoon, Morning, Noon};
use circadia::Hemisphere::{Eastern, Meridian, Western};
use circadia::HourAngleCosine::{Above, Below, Within};
use circadia::{
    event_time_fits, time_of_event, CalendarDate, DayHalf, Hemisphere, HourAngleCosine,
    SolarSolution, SunEvent, Timestamp,
};

fn day(days: i32) -> CalendarDate {
    CalendarDate::from_days(days).unwrap()
}

fn at(days: i32, second: u32) -> Timestamp {
    Timestamp::new(day(days), second).unwrap()
}

fn solution(cosine: HourAngleCosine, second: u32, half: DayHalf) -> SolarSolution {
    SolarSolution { cosine, second, half }
}

#[test]
fn event_on_the_day_asked_for() {
    let found = time_of_event(
        day(737_597),
        Eastern,
        SunEvent::sunrise(),
        solution(Within, 13_787, Morning),
    );
    assert_eq!(found, Some(at(737_597, 13_787)));
}

#[test]
fn no_sunrise_when_the_cosine_lies_above_the_interval() {
    let polar_night = solution(Above, 0, Noon);
    assert_eq!(time_of_event(day(737_780), Eastern, SunEvent::sunrise(), polar_night), None);
    assert_eq!(time_of_event(day(737_780), Eastern, SunEvent::dawn(), polar_night), None);
    assert_eq!(
        time_of_event(day(737_780), Eastern, SunEvent::sunset(), polar_night),
        Some(at(737_780, 0))
    );
}

#[test]
fn no_sunset_when_the_cosine_lies_below_the_interval() {
    let polar_day = solution(Below, 0, Noon);
    assert_eq!(time_of_event(day(737_597), Eastern, SunEvent::sunset(), polar_day), None);
    assert_eq!(time_of_event(day(737_597), Western, SunEvent::dusk(), polar_day), None);
    assert_eq!(
        time_of_event(day(737_597), Eastern, SunEvent::sunrise(), polar_day),
        Some(at(737_597, 0))
    );
}

#[test]
fn eastern_sunrise_after_noon_belongs_to_the_day_before() {
    let found = time_of_event(
        day(737_485),
        Eastern,
        SunEvent::sunrise(),
        solution(Within, 76_513, Afternoon),
    );
    assert_eq!(found, Some(at(737_484, 76_513)));
}

#[test]
fn western_sunset_before_noon_belongs_to_the_day_after() {
    let found =
        time_of_event(day(737_485), Western, SunEvent::sunset(), solution(Within, 4_524, Morning));
    assert_eq!(found, Some(at(737_486, 4_524)));
}

#[test]
fn every_other_case_stays_on_the_day_asked_for() {
    let sides = [Western, Meridian, Eastern];
    let halves = [Morning, Noon, Afternoon];
    let events = [SunEvent::sunrise(), SunEvent::sunset(), SunEvent::dawn(), SunEvent::dusk()];
    for side in sides {
        for half in halves {
            for event in events {
                let found =
                    time_of_event(day(100), side, event, solution(Within, 40_000, half)).unwrap();
                let shift = if side == Eastern && half == Afternoon && event.is_sunrise() {
                    -1
                } else if side == Western && half == Morning && event.is_sunset() {
                    1
                } else {
                    0
                };
                assert_eq!(found, at(100 + shift, 40_000));
                assert_eq!(found.date().days() - shift, 100);
            }
        }
    }
}

#[test]
fn a_time_rounded_up_to_midnight_is_the_start_of_the_next_day() {
    let found = time_of_event(
        day(737_597),
        Meridian,
        SunEvent::sunset(),
        solution(Within, 86_400, Afternoon),
    );
    assert_eq!(found, Some(at(737_598, 0)));
    let found = time_of_event(
        day(737_597),
        Western,
        SunEvent::sunset(),
        solution(Within, 86_399, Afternoon),
    );
    assert_eq!(found, Some(at(737_597, 86_399)));
}

#[test]
fn the_same_arguments_give_the_same_instant() {
    let given = solution(Within, 50_672, Afternoon);
    let first = time_of_event(day(737_485), Western, SunEvent::sunrise(), given);
    let second = time_of_event(day(737_485), Western, SunEvent::sunrise(), given);
    assert_eq!(first, second);
    assert_eq!(first, Some(at(737_485, 50_672)));
}

#[test]
fn fits_unless_the_instant_leaves_the_range_of_dates() {
    let late = solution(Within, 4_524, Morning);
    assert!(event_time_fits(day(LAST_DAY - 1), Western, SunEvent::sunset(), late));
    assert!(!event_time_fits(day(LAST_DAY), Western, SunEvent::sunset(), late));
    assert!(event_time_fits(day(LAST_DAY), Western, SunEvent::sunrise(), late));
    let never_sets = solution(Below, 0, Morning);
    assert!(event_time_fits(day(LAST_DAY), Western, SunEvent::sunset(), never_sets));
    let early = solution(Within, 76_513, Afternoon);
    assert!(event_time_fits(day(FIRST_DAY + 1), Eastern, SunEvent::sunrise(), early));
    assert!(!event_time_fits(day(FIRST_DAY), Eastern, SunEvent::sunrise(), early));
    let never_rises = solution(Above, 0, Afternoon);
    assert!(event_time_fits(day(FIRST_DAY), Eastern, SunEvent::sunrise(), never_rises));
    let at_midnight = solution(Within, 86_400, Noon);
    assert!(!event_time_fits(day(LAST_DAY), Meridian, SunEvent::sunset(), at_midnight));
    assert_eq!(
        time_of_event(day(LAST_DAY - 1), Western, SunEvent::sunset(), late),
        Some(at(LAST_DAY, 4_524))
    );
    assert_eq!(
        time_of_event(day(FIRST_DAY + 1), Eastern, SunEvent::sunrise(), early),
        Some(at(FIRST_DAY, 76_513))
    );
}

#[test]
fn hemisphere_matters_only_with_its_own_event() {
    let given = solution(Within, 1_000, Morning);
    assert_eq!(
        time_of_event(day(7), Hemisphere::Eastern, SunEvent::sunset(), given),
        Some(at(7, 1_000))
    );
    assert_eq!(
        time_of_event(day(7), Hemisphere::Western, SunEvent::sunrise(), given),
        Some(at(7, 1_000))
    );
}

#[test]
fn offset_from_universal_time_is_behind_in_the_west() {
    assert_eq!(Eastern.utc_offset(7_200), 7_200);
    assert_eq!(Western.utc_offset(26_845), -26_845);
    assert_eq!(Meridian.utc_offset(0), 0);
    assert_eq!(Eastern.utc_offset(0), 0);
    assert_eq!(Western.utc_offset(0), 0);
    assert_eq!(Western.utc_offset(2_147_483_647), -2_147_483_647);
    assert_eq!(Eastern.utc_offset(2_147_483_647), 2_147_483_647);
}
