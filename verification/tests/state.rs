use matrix_clock::color::Color;
use matrix_clock::sensor::BmeReading;
use matrix_clock::state::{pascals_to_atmospheres, RenderState, Schedule, State};

fn at(state: State, remain_tick: usize) -> RenderState {
    let mut s = RenderState::init();
    s.state = state;
    s.remain_tick = remain_tick;
    s
}

#[test]
fn initial_state_is_empty_and_knows_nothing() {
    let s = RenderState::init();
    assert_eq!(s.get_state(), State::Empty);
    assert_eq!(s.remain_tick, 0);
    assert_eq!(s.temperature, None);
    assert_eq!(s.humidity, None);
    assert_eq!(s.pressure, None);
    assert_eq!(s.last_update, None);
    assert_eq!(s.brightness, 100);
    assert_eq!(s.color, Color::RGB);
    assert_eq!(s.schedule, Schedule::standard());
    assert_eq!(s.schedule.stale_after, 300);
}

#[test]
fn first_tick_shows_the_clock_and_its_dwell_runs_down_to_the_date() {
    let mut schedule = Schedule::standard();
    schedule.clock_after_empty = 8;
    let mut s = RenderState::with_schedule(schedule);
    s.next(0);
    assert_eq!((s.state, s.remain_tick), (State::Clock, 8));
    for left in (1..8).rev() {
        s.next(0);
        assert_eq!((s.state, s.remain_tick), (State::Clock, left));
    }
    s.next(0);
    assert_eq!((s.state, s.remain_tick), (State::Date, 1));
}

#[test]
fn without_any_reading_the_temperature_falls_back_to_the_clock() {
    let mut s = at(State::Date, 0);
    s.next(1_000);
    assert_eq!((s.state, s.remain_tick), (State::Clock, 5));
    let mut s = at(State::Temperature, 0);
    s.next(1_000);
    assert_eq!((s.state, s.remain_tick), (State::Clock, 5));
}

#[test]
fn fresh_readings_are_shown_in_turn() {
    let mut s = at(State::Date, 1);
    s.set_temperature("21.5", 1_000);
    s.next(1_001);
    assert_eq!((s.state, s.remain_tick), (State::Temperature, 1));
    s.next(1_002);
    assert_eq!((s.state, s.remain_tick), (State::Humidity, 1));
    s.next(1_003);
    assert_eq!((s.state, s.remain_tick), (State::Clock, 15));
}

#[test]
fn reading_turns_stale_exactly_at_the_window() {
    let mut s = RenderState::init();
    s.set_humidity("40", 1_000);
    assert!(!s.is_temperature_humidity_stale(1_000));
    assert!(!s.is_temperature_humidity_stale(1_299));
    assert!(s.is_temperature_humidity_stale(1_300));
    assert!(s.is_temperature_humidity_stale(1_301));
    assert!(!s.is_temperature_humidity_stale(999));
    assert!(RenderState::init().is_temperature_humidity_stale(0));
    assert!(RenderState::init().is_temperature_humidity_stale(u64::MAX));
    s.schedule.stale_after = 10;
    assert!(!s.is_temperature_humidity_stale(1_009));
    assert!(s.is_temperature_humidity_stale(1_010));
    s.last_update = Some(0);
    s.schedule.stale_after = u64::MAX;
    assert!(s.is_temperature_humidity_stale(u64::MAX));
    assert!(!s.is_temperature_humidity_stale(u64::MAX - 1));
}

#[test]
fn stale_readings_send_the_date_back_to_the_clock() {
    let mut s = at(State::Date, 0);
    s.set_temperature("21.5", 1_000);
    s.next(1_300);
    assert_eq!((s.state, s.remain_tick), (State::Clock, 5));
    let mut s = at(State::Date, 0);
    s.set_temperature("21.5", 1_000);
    s.next(1_299);
    assert_eq!((s.state, s.remain_tick), (State::Temperature, 1));
}

#[test]
fn every_state_moves_on_to_exactly_one_other_state() {
    let states = [
        State::Clock,
        State::Date,
        State::Temperature,
        State::Humidity,
        State::Pressure,
        State::Empty,
    ];
    for with_pressure in [false, true] {
        for fresh in [false, true] {
            for state in states {
                let mut s = at(state, 0);
                s.schedule.with_pressure = with_pressure;
                if fresh {
                    s.last_update = Some(50);
                }
                let mut again = s;
                s.next(60);
                again.next(60);
                assert_eq!(s, again);
                assert_ne!(s.state, state);
                assert_ne!(s.state, State::Empty);
                let expected = match (state, fresh, with_pressure) {
                    (State::Empty, _, _) => (State::Clock, 10),
                    (State::Clock, _, _) => (State::Date, 1),
                    (State::Date, true, _) => (State::Temperature, 1),
                    (State::Date, false, _) => (State::Clock, 5),
                    (State::Temperature, true, _) => (State::Humidity, 1),
                    (State::Temperature, false, _) => (State::Clock, 5),
                    (State::Humidity, _, true) => (State::Pressure, 1),
                    (State::Humidity, _, false) => (State::Clock, 15),
                    (State::Pressure, _, _) => (State::Clock, 8),
                };
                assert_eq!((s.state, s.remain_tick), expected);
            }
        }
    }
}

#[test]
fn dwell_counts_down_before_the_state_moves() {
    let mut s = at(State::Humidity, 3);
    s.next(0);
    assert_eq!((s.state, s.remain_tick), (State::Humidity, 2));
    s.next(0);
    assert_eq!((s.state, s.remain_tick), (State::Humidity, 1));
    s.next(0);
    assert_eq!((s.state, s.remain_tick), (State::Clock, 15));
    let mut s = at(State::Empty, usize::MAX);
    s.next(0);
    assert_eq!((s.state, s.remain_tick), (State::Empty, usize::MAX - 1));
}

#[test]
fn a_tick_changes_nothing_but_state_and_dwell() {
    let mut s = at(State::Clock, 0);
    s.set_temperature("1", 7);
    s.set_color("1,2,3");
    s.set_brightness(33);
    let before = s;
    s.next(9);
    s.state = before.state;
    s.remain_tick = before.remain_tick;
    assert_eq!(s, before);
}

#[test]
fn values_that_do_not_parse_are_dropped() {
    let mut s = RenderState::init();
    let before = s;
    s.set_temperature("warm", 5);
    s.set_humidity("", 5);
    s.set_pressure("1e", 5);
    s.set_color("purple");
    s.set_color("255,abc,0,128");
    assert_eq!(s, before);
    s.set_temperature("21.456", 6);
    assert_eq!(s.temperature, Some(2146));
    assert_eq!(s.last_update, Some(6));
    s.set_humidity("abc", 7);
    assert_eq!(s.humidity, None);
    assert_eq!(s.last_update, Some(6));
    s.set_humidity("55", 8);
    assert_eq!(s.humidity, Some(5500));
    assert_eq!(s.temperature, Some(2146));
    assert_eq!(s.last_update, Some(8));
    s.set_pressure("101325", 9);
    assert_eq!(s.pressure, Some(10_132_500));
    let before = s;
    s.set_color("rainbow");
    assert_eq!(s.color, Color::Rainbow);
    assert_eq!(s.last_update, Some(9));
    s.set_color("10,20,30");
    assert_eq!(s.color, Color::Raw(10, 20, 30));
    s.color = before.color;
    assert_eq!(s, before);
}

#[test]
fn a_colour_directive_does_not_make_the_readings_fresh() {
    let mut s = RenderState::init();
    s.set_color("rainbow");
    assert_eq!(s.color, Color::Rainbow);
    assert_eq!(s.last_update, None);
    assert!(s.is_temperature_humidity_stale(0));
    assert!(s.is_temperature_humidity_stale(1_000));
    assert!(!s.is_temperature_humidity_just_updated(0));
    s.state = State::Date;
    s.next(0);
    assert_eq!((s.state, s.remain_tick), (State::Clock, 5));
    s.set_humidity("40", 100);
    s.set_color("black");
    assert!(s.is_temperature_humidity_stale(400));
    assert!(!s.is_temperature_humidity_stale(399));
}

#[test]
fn environment_reading_is_taken_whole() {
    let mut s = RenderState::init();
    s.set_environment(&BmeReading { temperature: 2_150, humidity: 4_000, pressure: 10_132_500 }, 42);
    assert_eq!(s.temperature, Some(2_150));
    assert_eq!(s.humidity, Some(4_000));
    assert_eq!(s.pressure, Some(10_132_500));
    assert_eq!(s.last_update, Some(42));
    assert_eq!(s.state, State::Empty);
}

#[test]
fn just_updated_lasts_less_than_a_second() {
    let mut s = RenderState::init();
    assert!(!s.is_temperature_humidity_just_updated(0));
    s.set_temperature("1", 100);
    assert!(s.is_temperature_humidity_just_updated(100));
    assert!(!s.is_temperature_humidity_just_updated(101));
    assert!(s.is_temperature_humidity_just_updated(99));
}

#[test]
fn clock_blinks_its_colons_in_the_second_half_of_a_second() {
    assert_eq!(RenderState::format_time(0), "%H:%M:%S");
    assert_eq!(RenderState::format_time(499), "%H:%M:%S");
    assert_eq!(RenderState::format_time(500), "%H %M %S");
    assert_eq!(RenderState::format_time(999), "%H %M %S");
    assert_eq!(RenderState::format_date(), "%m-%d_%a");
}

#[test]
fn each_state_has_its_text() {
    let mut s = RenderState::init();
    assert_eq!(s.get_render_text("12:34:56", "03-09_Mon"), "");
    s.state = State::Clock;
    assert_eq!(s.get_render_text("12:34:56", "03-09_Mon"), "12:34:56");
    s.state = State::Date;
    assert_eq!(s.get_render_text("12:34:56", "03-09_Mon"), "03-09_Mon");
    for state in [State::Temperature, State::Humidity, State::Pressure] {
        s.state = state;
        assert_eq!(s.get_render_text("12:34:56", "03-09_Mon"), "");
    }
    s.set_temperature("-3.456", 0);
    s.set_humidity("40", 0);
    s.set_pressure("101325", 0);
    s.state = State::Temperature;
    assert_eq!(s.get_render_text("", ""), "-3.46\u{b0}C");
    s.set_temperature("21.5", 0);
    assert_eq!(s.get_render_text("", ""), "21.50\u{b0}C");
    s.state = State::Humidity;
    assert_eq!(s.get_render_text("", ""), "40.00%");
    s.state = State::Pressure;
    assert_eq!(s.get_render_text("", ""), "1.00atm");
}

#[test]
fn pressure_is_shown_in_atmospheres() {
    assert_eq!(pascals_to_atmospheres(10_132_500), 100);
    assert_eq!(pascals_to_atmospheres(0), 0);
    assert_eq!(pascals_to_atmospheres(50_662), 0);
    assert_eq!(pascals_to_atmospheres(50_663), 1);
    assert_eq!(pascals_to_atmospheres(9_800_000), 97);
    assert_eq!(pascals_to_atmospheres(-10_132_500), -100);
    assert_eq!(pascals_to_atmospheres(i64::MAX), 91_027_604_607_498);
    assert_eq!(pascals_to_atmospheres(i64::MIN), -91_027_604_607_498);
}
