//! What the sensors hand to the display, and how they are set up.
//!
//! Talking to the devices is left to the caller; this module holds the
//! values that come back and the arithmetic on them.

use crate::reading::PLUS;
use crate::scan::{number, read_number};
use vstd::prelude::*;
use vstd::string::StringSliceAdditionalSpecFns;

verus! {

/// Integration time of the light sensor where none is configured.
pub const DEFAULT_INTEGRATION_TIME: u8 = 200;

/// Clear-channel count of the light sensor that stands for full brightness.
pub const FULL_LIGHT: u16 = 3000;

/// Seconds between two readings of the environmental sensor.
pub const ENVIRONMENT_PERIOD_SECS: u64 = 60;

/// Milliseconds between two readings of the light sensor.
pub const LIGHT_PERIOD_MILLIS: u64 = 500;

/// The ambient light sensor.
pub struct ApdsSensor {}

/// One reading of the ambient light sensor: the light level in thousandths
/// of the level that stands for full brightness.
#[derive(Clone, Copy, Debug, PartialEq, Eq, Structural)]
pub struct ApdsReading {
    pub light: u16,
}

/// One reading of the environmental sensor: degrees Celsius, percent of
/// relative humidity and pascals, each in hundredths.
#[derive(Clone, Copy, Debug, PartialEq, Eq, Structural)]
pub struct BmeReading {
    pub temperature: i64,
    pub humidity: i64,
    pub pressure: i64,
}

/// The light level of a clear-channel count, in thousandths of full light.
pub open spec fn light_level(clear: u16) -> int {
    clear * 1000 / 3000
}

/// The integration time that a setting asks for: a decimal number of at
/// most 255 with an optional `+` before it, or else the default.
pub open spec fn integration_time_of(setting: Option<Seq<u8>>) -> u8 {
    match setting {
        Some(s) => {
            let body = if s.len() > 0 && s[0] == PLUS {
                s.skip(1)
            } else {
                s
            };
            match number(body, 255) {
                Some(v) => v as u8,
                None => DEFAULT_INTEGRATION_TIME,
            }
        },
        None => DEFAULT_INTEGRATION_TIME,
    }
}

impl ApdsReading {
    /// The reading for a clear-channel count of the sensor.
    pub fn from_clear(clear: u16) -> (reading: ApdsReading)
        ensures
            reading.light == light_level(clear),
    {
        ApdsReading { light: ((clear as u32) * 1000 / (FULL_LIGHT as u32)) as u16 }
    }

    /// The light level, in thousandths of full light.
    pub fn get_light(&self) -> (light: u16)
        ensures
            light == self.light,
    {
        self.light
    }
}

impl ApdsSensor {
    /// The integration time to set the sensor up with, given the text of
    /// the setting if there is one.
    pub fn integration_time(setting: Option<&str>) -> (time: u8)
        ensures
            time == integration_time_of(
                match setting {
                    Some(s) => Some(s.spec_bytes()),
                    None => None,
                },
            ),
    {
        match setting {
            Some(s) => {
                let bytes = s.as_bytes();
                let start: usize = if bytes.len() > 0 && bytes[0] == PLUS {
                    1
                } else {
                    0
                };
                proof {
                    assert(bytes@.subrange(start as int, bytes@.len() as int) =~= (if start == 1 {
                        bytes@.skip(1)
                    } else {
                        bytes@
                    }));
                }
                match read_number(bytes, start, bytes.len(), 255) {
                    Some(v) => v as u8,
                    None => DEFAULT_INTEGRATION_TIME,
                }
            },
            None => DEFAULT_INTEGRATION_TIME,
        }
    }
}

} // verus!
