//! The display rotation: which field the panel shows, for how many ticks,
//! and what text stands for it.
//!
//! Time is a count of whole seconds on the caller's clock. Readings are held
//! in hundredths of their unit.

use crate::clock::{clock_shape, date_pattern, moment_text, separator, time_pattern, Moment};
use crate::color::{Color, DEFAULT_BRIGHTNESS};
use crate::directive::parse_directive;
use crate::reading::{fixed2, format_reading, parse_reading, read_reading_str};
use crate::sensor::BmeReading;
use vstd::prelude::*;
use vstd::string::{StringExecFns, StringSliceAdditionalSpecFns};

verus! {

/// The field that the panel shows.
#[derive(Clone, Copy, Debug, PartialEq, Eq, Structural)]
pub enum State {
    Clock,
    Date,
    Temperature,
    Humidity,
    Pressure,
    Empty,
}

/// How long each field stays, in ticks, and when a reading is too old.
#[derive(Clone, Copy, Debug, PartialEq, Eq, Structural)]
pub struct Schedule {
    /// Dwell of the clock when it is the first field shown.
    pub clock_after_empty: usize,
    /// Dwell of the date.
    pub date: usize,
    /// Dwell of the temperature.
    pub temperature: usize,
    /// Dwell of the humidity.
    pub humidity: usize,
    /// Dwell of the pressure.
    pub pressure: usize,
    /// Dwell of the clock when the readings were too old to show.
    pub clock_after_stale: usize,
    /// Dwell of the clock after the humidity.
    pub clock_after_humidity: usize,
    /// Dwell of the clock after the pressure.
    pub clock_after_pressure: usize,
    /// Age in seconds from which a reading is too old to show.
    pub stale_after: u64,
    /// True if the pressure is part of the rotation.
    pub with_pressure: bool,
}

/// What the rotation knows: the field shown, the ticks it has left, the
/// latest values from outside and when the last reading arrived.
#[derive(Clone, Copy, Debug, PartialEq, Eq, Structural)]
pub struct RenderState {
    pub state: State,
    pub remain_tick: usize,
    pub temperature: Option<i64>,
    pub humidity: Option<i64>,
    pub pressure: Option<i64>,
    pub brightness: u16,
    pub last_update: Option<u64>,
    pub color: Color,
    pub schedule: Schedule,
}

/// The schedule of a panel that shows no pressure.
pub open spec fn standard_schedule() -> Schedule {
    Schedule {
        clock_after_empty: 10,
        date: 1,
        temperature: 1,
        humidity: 1,
        pressure: 1,
        clock_after_stale: 5,
        clock_after_humidity: 15,
        clock_after_pressure: 8,
        stale_after: 300,
        with_pressure: false,
    }
}

/// True if no reading has arrived yet, or if the last one is `window`
/// seconds old or older at `now`.
pub open spec fn is_stale(last_update: Option<u64>, now: u64, window: u64) -> bool {
    match last_update {
        Some(at) => now - at >= window,
        None => true,
    }
}

/// True if a reading arrived less than a second before `now`.
pub open spec fn is_just_updated(last_update: Option<u64>, now: u64) -> bool {
    match last_update {
        Some(at) => now - at < 1,
        None => false,
    }
}

/// The field that follows `state` and its dwell. `fresh` says whether the
/// readings are young enough to show.
pub open spec fn successor(state: State, fresh: bool, schedule: Schedule) -> (State, usize) {
    match state {
        State::Empty => (State::Clock, schedule.clock_after_empty),
        State::Clock => (State::Date, schedule.date),
        State::Date => if fresh {
            (State::Temperature, schedule.temperature)
        } else {
            (State::Clock, schedule.clock_after_stale)
        },
        State::Temperature => if fresh {
            (State::Humidity, schedule.humidity)
        } else {
            (State::Clock, schedule.clock_after_stale)
        },
        State::Humidity => if schedule.with_pressure {
            (State::Pressure, schedule.pressure)
        } else {
            (State::Clock, schedule.clock_after_humidity)
        },
        State::Pressure => (State::Clock, schedule.clock_after_pressure),
    }
}

/// One tick: the dwell goes down by one; while some is left the field
/// stays, and when none is left the next field comes with its own dwell.
pub open spec fn ticked(state: State, remain: usize, fresh: bool, schedule: Schedule) -> (
    State,
    usize,
) {
    if remain > 1 {
        (state, (remain - 1) as usize)
    } else {
        successor(state, fresh, schedule)
    }
}

/// The field and its dwell after `n` ticks during which the freshness of
/// the readings does not change.
pub open spec fn after_ticks(
    state: State,
    remain: usize,
    fresh: bool,
    schedule: Schedule,
    n: nat,
) -> (State, usize)
    decreases n,
{
    if n == 0 {
        (state, remain)
    } else {
        let before = after_ticks(state, remain, fresh, schedule, (n - 1) as nat);
        ticked(before.0, before.1, fresh, schedule)
    }
}

/// Hundredths of an atmosphere in a pressure given in hundredths of a
/// pascal, rounded to the nearest.
pub open spec fn atmospheres(pressure: i64) -> int {
    if pressure >= 0 {
        (pressure + 50_662) / 101_325
    } else {
        -((-pressure + 50_662) / 101_325)
    }
}

/// The text of a reading with its unit, or nothing where there is none.
pub open spec fn reading_text(value: Option<int>, unit: Seq<char>) -> Seq<char> {
    match value {
        Some(v) => fixed2(v) + unit,
        None => Seq::<char>::empty(),
    }
}

/// The text that stands for a state. The clock and the date are given by
/// the caller, who reads them off the wall clock.
pub open spec fn render_text(s: RenderState, time: Seq<char>, date: Seq<char>) -> Seq<char> {
    match s.state {
        State::Clock => time,
        State::Date => date,
        State::Temperature => reading_text(
            match s.temperature {
                Some(v) => Some(v as int),
                None => None,
            },
            seq!['\u{b0}', 'C'],
        ),
        State::Humidity => reading_text(
            match s.humidity {
                Some(v) => Some(v as int),
                None => None,
            },
            seq!['%'],
        ),
        State::Pressure => reading_text(
            match s.pressure {
                Some(v) => Some(atmospheres(v)),
                None => None,
            },
            seq!['a', 't', 'm'],
        ),
        State::Empty => Seq::<char>::empty(),
    }
}

/// The state after a temperature arrived as text at `now`.
pub open spec fn with_temperature(s: RenderState, text: Seq<u8>, now: u64) -> RenderState {
    match parse_reading(text) {
        Some(v) => RenderState { temperature: Some(v), last_update: Some(now), ..s },
        None => s,
    }
}

/// The state after a humidity arrived as text at `now`.
pub open spec fn with_humidity(s: RenderState, text: Seq<u8>, now: u64) -> RenderState {
    match parse_reading(text) {
        Some(v) => RenderState { humidity: Some(v), last_update: Some(now), ..s },
        None => s,
    }
}

/// The state after a pressure in pascals arrived as text at `now`.
pub open spec fn with_pressure(s: RenderState, text: Seq<u8>, now: u64) -> RenderState {
    match parse_reading(text) {
        Some(v) => RenderState { pressure: Some(v), last_update: Some(now), ..s },
        None => s,
    }
}

/// The state after a colour directive arrived. A directive is no reading:
/// it changes the colour and nothing else.
pub open spec fn with_color(s: RenderState, text: Seq<u8>) -> RenderState {
    match parse_directive(text) {
        Ok(c) => RenderState { color: c, ..s },
        Err(_) => s,
    }
}

impl Schedule {
    /// The schedule of a panel that shows no pressure.
    pub fn standard() -> (schedule: Schedule)
        ensures
            schedule == standard_schedule(),
    {
        Schedule {
            clock_after_empty: 10,
            date: 1,
            temperature: 1,
            humidity: 1,
            pressure: 1,
            clock_after_stale: 5,
            clock_after_humidity: 15,
            clock_after_pressure: 8,
            stale_after: 300,
            with_pressure: false,
        }
    }

    /// The field that follows `state` and its dwell.
    pub fn after(&self, state: State, fresh: bool) -> (next: (State, usize))
        ensures
            next == successor(state, fresh, *self),
    {
        match state {
            State::Empty => (State::Clock, self.clock_after_empty),
            State::Clock => (State::Date, self.date),
            State::Date => if fresh {
                (State::Temperature, self.temperature)
            } else {
                (State::Clock, self.clock_after_stale)
            },
            State::Temperature => if fresh {
                (State::Humidity, self.humidity)
            } else {
                (State::Clock, self.clock_after_stale)
            },
            State::Humidity => if self.with_pressure {
                (State::Pressure, self.pressure)
            } else {
                (State::Clock, self.clock_after_humidity)
            },
            State::Pressure => (State::Clock, self.clock_after_pressure),
        }
    }
}

impl RenderState {
    /// The state before the first tick: nothing shown, nothing known.
    pub open spec fn spec_init(schedule: Schedule) -> RenderState {
        RenderState {
            state: State::Empty,
            remain_tick: 0,
            temperature: None,
            humidity: None,
            pressure: None,
            brightness: DEFAULT_BRIGHTNESS,
            last_update: None,
            color: Color::RGB,
            schedule,
        }
    }

    /// The state before the first tick, with the standard schedule.
    pub fn init() -> (s: RenderState)
        ensures
            s == RenderState::spec_init(standard_schedule()),
    {
        RenderState::with_schedule(Schedule::standard())
    }

    /// The state before the first tick, with a schedule of the caller's.
    pub fn with_schedule(schedule: Schedule) -> (s: RenderState)
        ensures
            s == RenderState::spec_init(schedule),
    {
        RenderState {
            state: State::Empty,
            remain_tick: 0,
            temperature: None,
            humidity: None,
            pressure: None,
            brightness: DEFAULT_BRIGHTNESS,
            last_update: None,
            color: Color::RGB,
            schedule,
        }
    }

    /// The pattern in which the clock is written: with colons in the first
    /// half of every second, with blanks in their place in the second half.
    pub fn format_time(subsec_millis: u32) -> (pattern: &'static str)
        ensures
            pattern@ == time_pattern(subsec_millis),
    {
        if subsec_millis < 500 {
            "%H:%M:%S"
        } else {
            "%H %M %S"
        }
    }

    /// The pattern in which the date is written: month, day and weekday.
    pub fn format_date() -> (pattern: &'static str)
        ensures
            pattern@ == date_pattern(),
    {
        "%m-%d_%a"
    }

    /// True if the readings are too old to show at `now`.
    pub fn is_temperature_humidity_stale(&self, now: u64) -> (stale: bool)
        ensures
            stale == is_stale(self.last_update, now, self.schedule.stale_after),
    {
        match self.last_update {
            Some(at) => now >= at && now - at >= self.schedule.stale_after,
            None => true,
        }
    }

    /// True if a reading arrived less than a second before `now`.
    pub fn is_temperature_humidity_just_updated(&self, now: u64) -> (fresh: bool)
        ensures
            fresh == is_just_updated(self.last_update, now),
    {
        match self.last_update {
            Some(at) => now <= at,
            None => false,
        }
    }

    /// One tick of the rotation at time `now`.
    pub fn next(&mut self, now: u64)
        ensures
            (final(self).state, final(self).remain_tick) == ticked(
                old(self).state,
                old(self).remain_tick,
                !is_stale(old(self).last_update, now, old(self).schedule.stale_after),
                old(self).schedule,
            ),
            *final(self) == (RenderState {
                state: final(self).state,
                remain_tick: final(self).remain_tick,
                ..*old(self)
            }),
    {
        if self.remain_tick > 1 {
            self.remain_tick -= 1;
            return ;
        }
        let fresh: bool = !self.is_temperature_humidity_stale(now);
        let (next_state, next_tick_remain) = self.schedule.after(self.state, fresh);
        self.state = next_state;
        self.remain_tick = next_tick_remain;
    }

    /// Takes a temperature that arrived as text at `now`. A text that is no
    /// reading changes nothing.
    pub fn set_temperature(&mut self, value: &str, now: u64)
        ensures
            *final(self) == with_temperature(*old(self), value.spec_bytes(), now),
    {
        match read_reading_str(value) {
            Some(v) => {
                self.temperature = Some(v);
                self.last_update = Some(now);
            },
            None => {},
        }
    }

    /// Takes a humidity that arrived as text at `now`. A text that is no
    /// reading changes nothing.
    pub fn set_humidity(&mut self, value: &str, now: u64)
        ensures
            *final(self) == with_humidity(*old(self), value.spec_bytes(), now),
    {
        match read_reading_str(value) {
            Some(v) => {
                self.humidity = Some(v);
                self.last_update = Some(now);
            },
            None => {},
        }
    }

    /// Takes a pressure in pascals that arrived as text at `now`. A text
    /// that is no reading changes nothing.
    pub fn set_pressure(&mut self, value: &str, now: u64)
        ensures
            *final(self) == with_pressure(*old(self), value.spec_bytes(), now),
    {
        match read_reading_str(value) {
            Some(v) => {
                self.pressure = Some(v);
                self.last_update = Some(now);
            },
            None => {},
        }
    }

    /// Takes a colour directive. A text that is no directive changes
    /// nothing; a directive changes the colour and nothing else.
    pub fn set_color(&mut self, value: &str)
        ensures
            *final(self) == with_color(*old(self), value.spec_bytes()),
    {
        match Color::from_str(value) {
            Ok(c) => {
                self.color = c;
            },
            Err(_) => {},
        }
    }

    /// Takes a reading of the environmental sensor that was made at `now`.
    pub fn set_environment(&mut self, reading: &BmeReading, now: u64)
        ensures
            *final(self) == (RenderState {
                temperature: Some(reading.temperature),
                humidity: Some(reading.humidity),
                pressure: Some(reading.pressure),
                last_update: Some(now),
                ..*old(self)
            }),
    {
        self.temperature = Some(reading.temperature);
        self.humidity = Some(reading.humidity);
        self.pressure = Some(reading.pressure);
        self.last_update = Some(now);
    }

    /// Takes the brightness that the light sensor asks for, in thousandths.
    pub fn set_brightness(&mut self, brightness: u16)
        ensures
            *final(self) == (RenderState { brightness, ..*old(self) }),
    {
        self.brightness = brightness;
    }

    /// The field that the panel shows.
    pub fn get_state(&self) -> (state: State)
        ensures
            state == self.state,
    {
        self.state
    }

    /// The text that stands for the state at a moment of the wall clock.
    /// The clock is blank where the moment cannot be held; else it shows
    /// colons in the first half of every second and blanks in the second.
    pub fn render_text_at(&self, moment: &Moment) -> (text: String)
        ensures
            text@ == render_text(
                *self,
                moment_text(*moment, time_pattern((moment.nanos / 1_000_000) as u32)),
                moment_text(*moment, date_pattern()),
            ),
            self.state is Clock ==> text@.len() == 0 || clock_shape(
                text@,
                separator((moment.nanos / 1_000_000) as u32),
            ),
    {
        match self.state {
            State::Clock => moment.text(RenderState::format_time(moment.subsec_millis())),
            State::Date => moment.text(RenderState::format_date()),
            _ => self.get_render_text("", ""),
        }
    }

    /// The text that stands for the state. `time` and `date` are the wall
    /// clock written in the patterns of `format_time` and `format_date`.
    pub fn get_render_text(&self, time: &str, date: &str) -> (text: String)
        ensures
            text@ == render_text(*self, time@, date@),
    {
        match self.state {
            State::Clock => String::from_str(time),
            State::Date => String::from_str(date),
            State::Temperature => match self.temperature {
                Some(v) => {
                    proof {
                        reveal_strlit("\u{b0}C");
                    }
                    let text = format_reading(v, "\u{b0}C");
                    assert(text@ =~= fixed2(v as int) + seq!['\u{b0}', 'C']);
                    text
                },
                None => String::new(),
            },
            State::Humidity => match self.humidity {
                Some(v) => {
                    proof {
                        reveal_strlit("%");
                    }
                    let text = format_reading(v, "%");
                    assert(text@ =~= fixed2(v as int) + seq!['%']);
                    text
                },
                None => String::new(),
            },
            State::Pressure => match self.pressure {
                Some(v) => {
                    proof {
                        reveal_strlit("atm");
                    }
                    let text = format_reading(pascals_to_atmospheres(v), "atm");
                    assert(text@ =~= fixed2(atmospheres(v)) + seq!['a', 't', 'm']);
                    text
                },
                None => String::new(),
            },
            State::Empty => String::new(),
        }
    }
}

/// Hundredths of an atmosphere in a pressure given in hundredths of a
/// pascal.
pub fn pascals_to_atmospheres(pressure: i64) -> (h: i64)
    ensures
        h == atmospheres(pressure),
{
    if pressure >= 0 {
        ((pressure as u64 + 50_662) / 101_325) as i64
    } else {
        let m: u64 = ((-(pressure + 1)) as u64) + 1;
        -(((m + 50_662) / 101_325) as i64)
    }
}

/// The very second at which a reading turns `window` seconds old it is too
/// old to show; one second before that it is not. Without any reading there
/// is nothing to show at any time.
pub proof fn lemma_stale_boundary(at: u64, window: u64, now: u64)
    ensures
        now - at == window ==> is_stale(Some(at), now, window),
        now - at == window - 1 ==> !is_stale(Some(at), now, window),
        is_stale(Some(at), now, window) <==> now - at >= window,
        is_stale(None, now, window),
{
}

/// Every field has exactly one successor. It is never the field itself and
/// never `Empty`: a tick can keep `Empty` only where it stood before, so
/// `Empty` is shown only before the first field.
pub proof fn lemma_rotation_moves_on(state: State, remain: usize, fresh: bool, schedule: Schedule)
    ensures
        successor(state, fresh, schedule).0 != state,
        successor(state, fresh, schedule).0 != State::Empty,
        ticked(state, 0, fresh, schedule) == successor(state, fresh, schedule),
        ticked(state, remain, fresh, schedule).0 == State::Empty ==> state == State::Empty
            && remain > 1,
        !fresh ==> successor(state, fresh, schedule).0 != State::Temperature && successor(
            state,
            fresh,
            schedule,
        ).0 != State::Humidity,
{
}

/// A field with a dwell of `remain` ticks is shown for exactly that many
/// ticks: it stays through the first `remain - 1` of them, and the last one
/// brings its successor.
pub proof fn lemma_dwell_is_counted_in_ticks(
    state: State,
    remain: usize,
    fresh: bool,
    schedule: Schedule,
    n: nat,
)
    requires
        1 <= remain,
        n < remain,
    ensures
        after_ticks(state, remain, fresh, schedule, n) == (state, (remain - n) as usize),
        n == remain - 1 ==> after_ticks(state, remain, fresh, schedule, n + 1) == successor(
            state,
            fresh,
            schedule,
        ),
    decreases n,
{
    if n > 0 {
        lemma_dwell_is_counted_in_ticks(state, remain, fresh, schedule, (n - 1) as nat);
    }
    let here = after_ticks(state, remain, fresh, schedule, n);
    assert(here == (state, (remain - n) as usize));
    if n == remain - 1 {
        assert(after_ticks(state, remain, fresh, schedule, n + 1) == ticked(
            here.0,
            here.1,
            fresh,
            schedule,
        ));
    }
}

} // verus!
