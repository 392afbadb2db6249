//! The colour model: what a pixel asks for, and what that request becomes
//! at a given brightness, animation phase and position on the panel.
//!
//! All quantities are integers. Brightness and saturation are in thousandths
//! of full scale, hues in thousandths of a degree, raw channels in `0..=255`.
//! Turning a hue, a saturation and a value into channel intensities is
//! floating-point work and is done by the caller; this module decides what
//! is asked of that conversion and which requests bypass it.

use vstd::arithmetic::div_mod::lemma_add_mod_noop;
use vstd::prelude::*;

verus! {

/// Lowest brightness the panel is driven at, in thousandths.
pub const MIN_BRIGHTNESS: u16 = 4;

/// Highest brightness the panel is driven at, in thousandths.
pub const MAX_BRIGHTNESS: u16 = 300;

/// Brightness of a new frame, in thousandths.
pub const DEFAULT_BRIGHTNESS: u16 = 100;

/// At or below this brightness every lit pixel is held at the faintest
/// intensity that is not off, so that dim frames do not flicker.
pub const FLOOR_BRIGHTNESS: u16 = 40;

/// Number of hue steps in one turn of the colour wheel.
pub const HUE_STEPS: usize = 64;

/// Width of one hue step, in thousandths of a degree (360 degrees / 64).
pub const HUE_STEP: u32 = 5625;

/// What a pixel is asked to show.
#[derive(Clone, Copy, Debug, PartialEq, Eq, Structural)]
pub enum Color {
    /// Colourless light at the frame's brightness.
    White,
    /// Off, whatever the brightness.
    Black,
    /// A hue sweep that scrolls along the columns as the phase advances.
    Rainbow,
    /// One hue for the whole panel, cycling as the phase advances.
    RGB,
    /// A fixed hue in degrees and a saturation in thousandths.
    Hsv(u16, u16),
    /// Red, green and blue, each in `0..=255`; only their hue and
    /// saturation are kept, the brightness comes from the frame.
    Raw(u8, u8, u8),
}

/// What is asked of the colour conversion for one pixel.
#[derive(Clone, Copy, Debug, PartialEq, Eq, Structural)]
pub enum Tone {
    /// All channels zero.
    Off,
    /// All channels one: the faintest intensity that is not off.
    Dim,
    /// A hue in thousandths of a degree, with saturation and value in
    /// thousandths.
    Hsv { hue: u32, saturation: u16, value: u16 },
    /// Raw channels whose hue and saturation are kept while their value is
    /// replaced by `value`, in thousandths.
    Rgb { red: u8, green: u8, blue: u8, value: u16 },
}

/// Saturation of the animated colours in a row, in thousandths: a triangle
/// wave over sixteen rows, from 600 in row 0 up to 1000 in row 8 and back.
pub open spec fn band_saturation(row: int) -> int {
    let r = row % 16;
    let folded = if r > 8 {
        16 - r
    } else {
        r
    };
    600 + 50 * folded
}

/// Hue of the rainbow in a column at a phase, in thousandths of a degree:
/// one step per column, advancing by one step every third phase.
pub open spec fn rainbow_hue(col: int, phase: int) -> int {
    ((col + phase / 3) % 64) * 5625
}

/// Hue of the colour cycle at a phase, in thousandths of a degree:
/// advancing by one step every fifth phase.
pub open spec fn cycle_hue(phase: int) -> int {
    ((phase / 5) % 64) * 5625
}

impl Tone {
    /// The channel intensities (red, green, blue) of a tone, given what the
    /// colour conversion made of it.
    pub open spec fn spec_channels(self, mixed: (u8, u8, u8)) -> (u8, u8, u8) {
        match self {
            Tone::Off => (0u8, 0u8, 0u8),
            Tone::Dim => (1u8, 1u8, 1u8),
            _ => mixed,
        }
    }

    /// True if the tone has to go through the colour conversion.
    pub open spec fn spec_needs_mixing(self) -> bool {
        self is Hsv || self is Rgb
    }

    /// True if the tone has to go through the colour conversion.
    pub fn needs_mixing(&self) -> (r: bool)
        ensures
            r == self.spec_needs_mixing(),
    {
        match self {
            Tone::Off => false,
            Tone::Dim => false,
            _ => true,
        }
    }

    /// The channel intensities (red, green, blue) of a tone. `mixed` is the
    /// result of the colour conversion; it is ignored for `Off` and `Dim`.
    pub fn channels(&self, mixed: (u8, u8, u8)) -> (rgb: (u8, u8, u8))
        ensures
            rgb == self.spec_channels(mixed),
    {
        match self {
            Tone::Off => (0, 0, 0),
            Tone::Dim => (1, 1, 1),
            _ => mixed,
        }
    }
}

impl Color {
    /// The tone of this colour at a brightness, a phase and a position.
    pub open spec fn spec_tone(self, brightness: u16, phase: usize, col: usize, row: usize) -> Tone {
        if self is Black {
            Tone::Off
        } else if brightness <= FLOOR_BRIGHTNESS {
            Tone::Dim
        } else {
            match self {
                Color::White => Tone::Rgb { red: 255, green: 255, blue: 255, value: brightness },
                Color::Black => Tone::Off,
                Color::Rainbow => Tone::Hsv {
                    hue: rainbow_hue(col as int, phase as int) as u32,
                    saturation: band_saturation(row as int) as u16,
                    value: brightness,
                },
                Color::RGB => Tone::Hsv {
                    hue: cycle_hue(phase as int) as u32,
                    saturation: band_saturation(row as int) as u16,
                    value: brightness,
                },
                Color::Hsv(hue, saturation) => Tone::Hsv {
                    hue: (hue * 1000) as u32,
                    saturation,
                    value: brightness,
                },
                Color::Raw(red, green, blue) => Tone::Rgb { red, green, blue, value: brightness },
            }
        }
    }

    /// The channel intensities (red, green, blue) of this colour, given what
    /// the colour conversion made of its tone.
    pub open spec fn spec_rgb(
        self,
        brightness: u16,
        phase: usize,
        col: usize,
        row: usize,
        mixed: (u8, u8, u8),
    ) -> (u8, u8, u8) {
        self.spec_tone(brightness, phase, col, row).spec_channels(mixed)
    }

    /// True for `Black` only.
    pub fn is_black(&self) -> (r: bool)
        ensures
            r == (*self is Black),
    {
        match self {
            Color::Black => true,
            _ => false,
        }
    }

    /// The tone of this colour at a brightness, a phase and a position.
    pub fn to_tone(&self, brightness: u16, phase: usize, col: usize, row: usize) -> (tone: Tone)
        ensures
            tone == self.spec_tone(brightness, phase, col, row),
    {
        if self.is_black() {
            return Tone::Off;
        }
        if brightness <= FLOOR_BRIGHTNESS {
            return Tone::Dim;
        }
        match self {
            Color::White => Tone::Rgb { red: 255, green: 255, blue: 255, value: brightness },
            Color::Black => Tone::Off,
            Color::Rainbow => Tone::Hsv {
                hue: hue_of_steps(col, phase / 3),
                saturation: saturation_of_row(row),
                value: brightness,
            },
            Color::RGB => Tone::Hsv {
                hue: hue_of_steps(0, phase / 5),
                saturation: saturation_of_row(row),
                value: brightness,
            },
            Color::Hsv(hue, saturation) => {
                let wide: u32 = *hue as u32;
                Tone::Hsv { hue: wide * 1000, saturation: *saturation, value: brightness }
            },
            Color::Raw(red, green, blue) => Tone::Rgb {
                red: *red,
                green: *green,
                blue: *blue,
                value: brightness,
            },
        }
    }

    /// The channel intensities (red, green, blue) of this colour. `mixed` is
    /// what the colour conversion made of `to_tone` for the same arguments;
    /// it is ignored where the tone is `Off` or `Dim`.
    pub fn to_rgb(
        &self,
        brightness: u16,
        phase: usize,
        col: usize,
        row: usize,
        mixed: (u8, u8, u8),
    ) -> (rgb: (u8, u8, u8))
        ensures
            rgb == self.spec_rgb(brightness, phase, col, row, mixed),
            *self is Black ==> rgb == (0u8, 0u8, 0u8),
            !(*self is Black) && brightness <= FLOOR_BRIGHTNESS ==> rgb == (1u8, 1u8, 1u8),
            !(*self is Black) && brightness > FLOOR_BRIGHTNESS ==> rgb == mixed,
    {
        self.to_tone(brightness, phase, col, row).channels(mixed)
    }
}

/// Hue after `offset + shift` steps round the colour wheel, in thousandths
/// of a degree. The sum is taken step by step so that it cannot overflow.
fn hue_of_steps(offset: usize, shift: usize) -> (hue: u32)
    ensures
        hue == ((offset + shift) % 64) * 5625,
{
    let a: usize = offset % HUE_STEPS;
    let b: usize = shift % HUE_STEPS;
    let wrapped: usize = (a + b) % HUE_STEPS;
    proof {
        lemma_add_mod_noop(offset as int, shift as int, 64);
    }
    (wrapped as u32) * HUE_STEP
}

/// Saturation of the animated colours in a row, in thousandths.
fn saturation_of_row(row: usize) -> (saturation: u16)
    ensures
        saturation == band_saturation(row as int),
{
    let r: usize = row % 16;
    let folded: usize = if r > 8 {
        16 - r
    } else {
        r
    };
    600 + 50 * (folded as u16)
}

} // verus!
