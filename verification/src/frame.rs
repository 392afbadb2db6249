//! The frame buffer: a 32 by 8 grid of pixel colours, painted by drawing
//! operations and read out in the order in which the LED strip is wired.
//!
//! The strip snakes through the panel: it runs down the even columns and up
//! the odd ones. For every pixel the strip takes green, then red, then blue.

use crate::color::{Color, Tone, DEFAULT_BRIGHTNESS, MAX_BRIGHTNESS, MIN_BRIGHTNESS};
use crate::encoder::{encode, wire, LATCH_GAP};
use vstd::prelude::*;

verus! {

/// Number of rows of the panel.
pub const ROWS: usize = 8;

/// Number of columns of the panel.
pub const COLS: usize = 32;

/// Number of pixels of the panel.
pub const PIXELS: usize = 256;

/// Number of bytes that one frame puts on the strip.
pub const FRAME_BYTES: usize = 768;

/// A rasterised glyph: columns from left to right, each a list of cells
/// from top to bottom. A cell that is not zero is lit.
#[derive(Debug)]
pub struct Bitmap {
    pub bits: Vec<Vec<u8>>,
}

impl Bitmap {
    /// Number of columns of the glyph.
    pub open spec fn width(&self) -> int {
        self.bits@.len() as int
    }

    /// True if the glyph has a lit cell in its column `c` and row `r`.
    pub open spec fn lit(&self, c: int, r: int) -> bool {
        0 <= c < self.bits@.len() && 0 <= r < self.bits@[c]@.len() && self.bits@[c]@[r] != 0
    }

    /// True if the glyph, set down with its top left corner at column `x`
    /// and row `y`, has a lit cell over the pixel in `col` and `row`.
    pub open spec fn covers(&self, x: int, y: int, col: int, row: int) -> bool {
        x <= col && y <= row && self.lit(col - x, row - y)
    }
}

/// Column at which glyph `k` of a text is set down when the text starts in
/// column `x`: every glyph before it takes its width and one column more.
pub open spec fn pen(glyphs: Seq<Bitmap>, x: int, k: int) -> int
    decreases k,
{
    if k <= 0 {
        x
    } else {
        pen(glyphs, x, k - 1) + glyphs[k - 1].width() + 1
    }
}

/// True if one of the first `n` glyphs of a text that starts in column `x`
/// and row `y` has a lit cell over the pixel in `col` and `row`.
pub open spec fn text_covers(glyphs: Seq<Bitmap>, n: int, x: int, y: int, col: int, row: int) -> bool {
    exists|k: int| 0 <= k < n && #[trigger] glyphs[k].covers(pen(glyphs, x, k), y, col, row)
}

/// Column of the pixel in place `k` of the strip.
pub open spec fn strip_col(k: int) -> int {
    k / 8
}

/// Row of the pixel in place `k` of the strip: the strip runs down the even
/// columns and up the odd ones.
pub open spec fn strip_row(k: int) -> int {
    if (k / 8) % 2 == 1 {
        7 - k % 8
    } else {
        k % 8
    }
}

/// Place on the strip of the pixel in `col` and `row`.
pub open spec fn strip_index(col: int, row: int) -> int {
    if col % 2 == 1 {
        8 * col + (7 - row)
    } else {
        8 * col + row
    }
}

/// The brightness that a frame takes when asked for `wanted`.
pub open spec fn clamp_brightness(wanted: u16) -> u16 {
    if wanted > MAX_BRIGHTNESS {
        MAX_BRIGHTNESS
    } else if wanted < MIN_BRIGHTNESS {
        MIN_BRIGHTNESS
    } else {
        wanted
    }
}

/// The three bytes that the strip takes for channel intensities given as
/// (red, green, blue): green first, then red, then blue.
pub open spec fn grb(rgb: (u8, u8, u8)) -> Seq<u8> {
    seq![rgb.1, rgb.0, rgb.2]
}

/// One cell of the frame buffer.
#[derive(Clone, Copy, Debug)]
pub struct Pixel {
    pub color: Color,
}

impl Pixel {
    /// A pixel that is off.
    pub fn default() -> (p: Pixel)
        ensures
            p.color == Color::Black,
    {
        Pixel { color: Color::Black }
    }

    /// Replaces the colour of the pixel.
    pub fn set_color(&mut self, color: &Color)
        ensures
            final(self).color == *color,
    {
        self.color = *color;
    }

    /// The bytes that the strip takes for this pixel. `mixed` is what the
    /// colour conversion made of the pixel's tone.
    pub fn to_bytes(
        &self,
        brightness: u16,
        phase: usize,
        col: usize,
        row: usize,
        mixed: (u8, u8, u8),
    ) -> (bytes: [u8; 3])
        ensures
            bytes@ == grb(self.color.spec_rgb(brightness, phase, col, row, mixed)),
    {
        let (r, g, b) = self.color.to_rgb(brightness, phase, col, row, mixed);
        let bytes: [u8; 3] = [g, r, b];
        assert(bytes@ =~= grb((r, g, b)));
        bytes
    }
}

/// The frame buffer with its brightness and its animation phase.
pub struct Frame {
    pixels: [Pixel; 256],
    brightness: u16,
    step: usize,
}

impl Frame {
    #[verifier::type_invariant]
    spec fn well_formed(&self) -> bool {
        MIN_BRIGHTNESS <= self.brightness <= MAX_BRIGHTNESS
    }

    /// Colour of the pixel in `col` and `row`.
    pub closed spec fn color_at(&self, col: int, row: int) -> Color {
        self.pixels@[col * 8 + row].color
    }

    /// Brightness of the frame, in thousandths.
    pub closed spec fn brightness(&self) -> u16 {
        self.brightness
    }

    /// Animation phase: the number of frames sent so far, wrapping.
    pub closed spec fn phase(&self) -> usize {
        self.step
    }

    /// True if both frames hold the same colour in every pixel.
    pub open spec fn same_picture(&self, other: &Frame) -> bool {
        forall|col: int, row: int|
            0 <= col < COLS && 0 <= row < ROWS ==> self.color_at(col, row) == other.color_at(
                col,
                row,
            )
    }

    /// Tone of the pixel in place `k` of the strip.
    pub open spec fn tone_at(&self, k: int) -> Tone {
        self.color_at(strip_col(k), strip_row(k)).spec_tone(
            self.brightness(),
            self.phase(),
            strip_col(k) as usize,
            strip_row(k) as usize,
        )
    }

    /// The tones of all pixels in the order of the strip.
    pub open spec fn strip_tones(&self) -> Seq<Tone> {
        Seq::new(PIXELS as nat, |k: int| self.tone_at(k))
    }

    /// The bytes that the strip takes for this frame. `mixed[k]` is what the
    /// colour conversion made of the tone in place `k` of the strip.
    pub open spec fn physical_bytes(&self, mixed: Seq<(u8, u8, u8)>) -> Seq<u8> {
        Seq::new(
            FRAME_BYTES as nat,
            |j: int| grb(self.tone_at(j / 3).spec_channels(mixed[j / 3]))[j % 3],
        )
    }

    /// A frame with every pixel off, at the default brightness and phase 0.
    pub fn new() -> (frame: Frame)
        ensures
            forall|col: int, row: int|
                0 <= col < COLS && 0 <= row < ROWS ==> frame.color_at(col, row) == Color::Black,
            frame.brightness() == DEFAULT_BRIGHTNESS,
            frame.phase() == 0,
    {
        let pixels: [Pixel; 256] = [Pixel { color: Color::Black }; 256];
        let frame = Frame { pixels, brightness: DEFAULT_BRIGHTNESS, step: 0 };
        assert forall|col: int, row: int| 0 <= col < COLS && 0 <= row < ROWS implies frame.color_at(
            col,
            row,
        ) == Color::Black by {
            assert(0 <= col * 8 + row < PIXELS);
        }
        frame
    }

    /// Sets the brightness, held to the range that the panel is driven at.
    pub fn set_brightness(&mut self, brightness: u16)
        ensures
            final(self).brightness() == clamp_brightness(brightness),
            final(self).phase() == old(self).phase(),
            final(self).same_picture(old(self)),
    {
        if brightness > MAX_BRIGHTNESS {
            self.brightness = MAX_BRIGHTNESS;
        } else if brightness < MIN_BRIGHTNESS {
            self.brightness = MIN_BRIGHTNESS;
        } else {
            self.brightness = brightness;
        }
    }

    /// Turns every pixel off.
    pub fn clear(&mut self)
        ensures
            forall|col: int, row: int|
                0 <= col < COLS && 0 <= row < ROWS ==> final(self).color_at(col, row)
                    == Color::Black,
            final(self).brightness() == old(self).brightness(),
            final(self).phase() == old(self).phase(),
    {
        proof {
            use_type_invariant(&*self);
        }
        let mut i: usize = 0;
        while i < PIXELS
            invariant
                i <= PIXELS,
                self.pixels@.len() == PIXELS,
                self.brightness == old(self).brightness,
                self.step == old(self).step,
                MIN_BRIGHTNESS <= self.brightness <= MAX_BRIGHTNESS,
                forall|k: int| 0 <= k < i ==> self.pixels@[k].color == Color::Black,
            decreases PIXELS - i,
        {
            self.pixels[i] = Pixel::default();
            i += 1;
        }
        assert forall|col: int, row: int| 0 <= col < COLS && 0 <= row < ROWS implies self.color_at(
            col,
            row,
        ) == Color::Black by {
            assert(0 <= col * 8 + row < PIXELS);
        }
    }

    /// Paints one pixel. A position outside the panel paints nothing.
    pub fn draw_pixel(&mut self, color: &Color, x: usize, y: usize)
        ensures
            forall|col: int, row: int|
                0 <= col < COLS && 0 <= row < ROWS ==> final(self).color_at(col, row) == (if col
                    == x && row == y {
                    *color
                } else {
                    old(self).color_at(col, row)
                }),
            final(self).brightness() == old(self).brightness(),
            final(self).phase() == old(self).phase(),
    {
        proof {
            use_type_invariant(&*self);
        }
        if x < COLS && y < ROWS {
            self.pixels[x * 8 + y] = Pixel { color: *color };
            assert forall|col: int, row: int| 0 <= col < COLS && 0 <= row < ROWS implies self.color_at(
                col,
                row,
            ) == (if col == x && row == y {
                *color
            } else {
                old(self).color_at(col, row)
            }) by {
                assert(col * 8 + row == x * 8 + y <==> (col == x && row == y));
            }
        }
    }

    /// Colour of the pixel in `col` and `row`, if the panel has such a pixel.
    pub fn get_pixel(&self, col: usize, row: usize) -> (color: Option<Color>)
        ensures
            color == (if col < COLS && row < ROWS {
                Some(self.color_at(col as int, row as int))
            } else {
                None
            }),
    {
        if col < COLS && row < ROWS {
            Some(self.pixels[col * 8 + row].color)
        } else {
            None
        }
    }

    /// Animation phase: the number of frames sent so far, wrapping.
    pub fn get_phase(&self) -> (phase: usize)
        ensures
            phase == self.phase(),
    {
        self.step
    }

    /// Brightness of the frame, in thousandths. It is always within the
    /// range that the panel is driven at.
    pub fn get_brightness(&self) -> (b: u16)
        ensures
            b == self.brightness(),
            MIN_BRIGHTNESS <= b <= MAX_BRIGHTNESS,
    {
        proof {
            use_type_invariant(self);
        }
        self.brightness
    }

    /// Paints the lit cells of a glyph whose top left corner is set down at
    /// column `x` and row `y`. Cells that fall outside the panel are dropped.
    pub fn draw_bitmap(&mut self, bitmap: &Bitmap, color: &Color, x: usize, y: usize)
        ensures
            forall|col: int, row: int|
                0 <= col < COLS && 0 <= row < ROWS ==> final(self).color_at(col, row) == (
                if bitmap.covers(x as int, y as int, col, row) {
                    *color
                } else {
                    old(self).color_at(col, row)
                }),
            final(self).brightness() == old(self).brightness(),
            final(self).phase() == old(self).phase(),
    {
        proof {
            use_type_invariant(&*self);
        }
        let mut c: usize = 0;
        while c < bitmap.bits.len()
            invariant
                c <= bitmap.bits@.len(),
                self.brightness == old(self).brightness,
                self.step == old(self).step,
                MIN_BRIGHTNESS <= self.brightness <= MAX_BRIGHTNESS,
                forall|col: int, row: int|
                    0 <= col < COLS && 0 <= row < ROWS ==> self.color_at(col, row) == (
                    if bitmap.covers(x as int, y as int, col, row) && col - x < c {
                        *color
                    } else {
                        old(self).color_at(col, row)
                    }),
            decreases bitmap.bits@.len() - c,
        {
            let column = &bitmap.bits[c];
            let mut r: usize = 0;
            while r < column.len()
                invariant
                    c < bitmap.bits@.len(),
                    *column == bitmap.bits@[c as int],
                    r <= column@.len(),
                    self.brightness == old(self).brightness,
                    self.step == old(self).step,
                    MIN_BRIGHTNESS <= self.brightness <= MAX_BRIGHTNESS,
                    forall|col: int, row: int|
                        0 <= col < COLS && 0 <= row < ROWS ==> self.color_at(col, row) == (
                        if bitmap.covers(x as int, y as int, col, row) && (col - x < c || (col - x
                            == c && row - y < r)) {
                            *color
                        } else {
                            old(self).color_at(col, row)
                        }),
                decreases column@.len() - r,
            {
                let ghost before = *self;
                if column[r] != 0 && x < COLS && c < COLS - x && y < ROWS && r < ROWS - y {
                    self.pixels[(c + x) * 8 + (r + y)] = Pixel { color: *color };
                    assert forall|col: int, row: int|
                        0 <= col < COLS && 0 <= row < ROWS implies self.color_at(col, row) == (
                    if col == c + x && row == r + y {
                        *color
                    } else {
                        before.color_at(col, row)
                    }) by {
                        assert(col * 8 + row == (c + x) * 8 + (r + y) <==> (col == c + x && row == r
                            + y));
                    }
                }
                r += 1;
            }
            c += 1;
        }
    }

    /// Paints a text, given as the glyphs of its characters, from column `x`
    /// and row `y`. Each glyph is set down one column after the end of the
    /// one before it.
    pub fn draw_text(&mut self, glyphs: &Vec<Bitmap>, color: &Color, x: usize, y: usize)
        ensures
            forall|col: int, row: int|
                0 <= col < COLS && 0 <= row < ROWS ==> final(self).color_at(col, row) == (
                if text_covers(glyphs@, glyphs@.len() as int, x as int, y as int, col, row) {
                    *color
                } else {
                    old(self).color_at(col, row)
                }),
            final(self).brightness() == old(self).brightness(),
            final(self).phase() == old(self).phase(),
    {
        let mut cursor: usize = if x < COLS {
            x
        } else {
            COLS
        };
        let mut k: usize = 0;
        while k < glyphs.len()
            invariant
                k <= glyphs@.len(),
                cursor <= COLS,
                x <= pen(glyphs@, x as int, k as int),
                cursor == (if pen(glyphs@, x as int, k as int) < COLS {
                    pen(glyphs@, x as int, k as int)
                } else {
                    COLS as int
                }),
                self.brightness() == old(self).brightness(),
                self.phase() == old(self).phase(),
                forall|col: int, row: int|
                    0 <= col < COLS && 0 <= row < ROWS ==> self.color_at(col, row) == (
                    if text_covers(glyphs@, k as int, x as int, y as int, col, row) {
                        *color
                    } else {
                        old(self).color_at(col, row)
                    }),
            decreases glyphs@.len() - k,
        {
            let ghost before = *self;
            let ghost at = pen(glyphs@, x as int, k as int);
            self.draw_bitmap(&glyphs[k], color, cursor, y);
            proof {
                assert forall|col: int, row: int|
                    0 <= col < COLS && 0 <= row < ROWS implies self.color_at(col, row) == (
                if text_covers(glyphs@, k + 1, x as int, y as int, col, row) {
                    *color
                } else {
                    old(self).color_at(col, row)
                }) by {
                    let here = glyphs@[k as int].covers(at, y as int, col, row);
                    assert(here == glyphs@[k as int].covers(cursor as int, y as int, col, row));
                    let sooner = text_covers(glyphs@, k as int, x as int, y as int, col, row);
                    let now = text_covers(glyphs@, k + 1, x as int, y as int, col, row);
                    if here {
                        assert(now);
                    } else if sooner {
                        let w = choose|w: int|
                            0 <= w < k && #[trigger] glyphs@[w].covers(
                                pen(glyphs@, x as int, w),
                                y as int,
                                col,
                                row,
                            );
                        assert(glyphs@[w].covers(pen(glyphs@, x as int, w), y as int, col, row));
                        assert(now);
                    } else {
                        if now {
                            let w = choose|w: int|
                                0 <= w < k + 1 && #[trigger] glyphs@[w].covers(
                                    pen(glyphs@, x as int, w),
                                    y as int,
                                    col,
                                    row,
                                );
                            assert(w < k || w == k);
                            assert(false);
                        }
                    }
                }
            }
            let width: usize = glyphs[k].bits.len();
            cursor = if width >= COLS - cursor {
                COLS
            } else {
                cursor + width + 1
            };
            k += 1;
        }
    }

    /// The tones of all pixels in the order of the strip: what the colour
    /// conversion is asked for before the frame can be sent.
    pub fn tones(&self) -> (tones: Vec<Tone>)
        ensures
            tones@ == self.strip_tones(),
    {
        let mut tones: Vec<Tone> = Vec::new();
        let mut k: usize = 0;
        while k < PIXELS
            invariant
                k <= PIXELS,
                tones@.len() == k,
                forall|i: int| 0 <= i < k ==> tones@[i] == self.tone_at(i),
            decreases PIXELS - k,
        {
            let col: usize = k / 8;
            let row: usize = if col % 2 == 1 {
                7 - k % 8
            } else {
                k % 8
            };
            let tone = self.pixels[col * 8 + row].color.to_tone(self.brightness, self.step, col, row);
            tones.push(tone);
            k += 1;
        }
        assert(tones@ =~= self.strip_tones());
        tones
    }

    /// The bytes that the strip takes for this frame: three per pixel, in
    /// the order of the strip. `mixed[k]` is what the colour conversion made
    /// of the tone in place `k` of `tones`.
    pub fn to_bytes(&self, mixed: &[(u8, u8, u8); 256]) -> (bytes: Vec<u8>)
        ensures
            bytes@ == self.physical_bytes(mixed@),
            bytes@.len() == FRAME_BYTES,
    {
        let mut bytes: Vec<u8> = Vec::new();
        let mut k: usize = 0;
        while k < PIXELS
            invariant
                k <= PIXELS,
                bytes@.len() == 3 * k,
                forall|j: int| 0 <= j < 3 * k ==> bytes@[j] == self.physical_bytes(mixed@)[j],
            decreases PIXELS - k,
        {
            let col: usize = k / 8;
            let row: usize = if col % 2 == 1 {
                7 - k % 8
            } else {
                k % 8
            };
            let three = self.pixels[col * 8 + row].to_bytes(
                self.brightness,
                self.step,
                col,
                row,
                mixed[k],
            );
            bytes.push(three[0]);
            bytes.push(three[1]);
            bytes.push(three[2]);
            proof {
                assert forall|j: int| 3 * k <= j < 3 * k + 3 implies bytes@[j] == self.physical_bytes(
                    mixed@,
                )[j] by {
                    assert(j / 3 == k && j % 3 == j - 3 * k);
                    assert(three@ == grb(self.tone_at(k as int).spec_channels(mixed@[k as int])));
                }
            }
            k += 1;
        }
        assert(bytes@ =~= self.physical_bytes(mixed@));
        bytes
    }

    /// The bus bytes for this frame, followed by the latch gap, and one step
    /// forward in the animation. `mixed[k]` is what the colour conversion
    /// made of the tone in place `k` of `tones`.
    pub fn get_spi_data(&mut self, mixed: &[(u8, u8, u8); 256]) -> (data: Vec<u8>)
        ensures
            data@ == wire(old(self).physical_bytes(mixed@), LATCH_GAP as nat),
            data@.len() == 16 * FRAME_BYTES + LATCH_GAP,
            final(self).phase() == (if old(self).phase() == usize::MAX {
                0
            } else {
                old(self).phase() + 1
            }),
            final(self).brightness() == old(self).brightness(),
            final(self).same_picture(old(self)),
    {
        proof {
            use_type_invariant(&*self);
        }
        let bytes = self.to_bytes(mixed);
        let data = encode(bytes.as_slice(), LATCH_GAP);
        self.step = self.step.wrapping_add(1);
        data
    }
}

/// The strip visits every pixel once: place and position determine each
/// other, and an odd column is walked in the reverse of the order of an
/// even one.
pub proof fn lemma_strip_is_serpentine(col: int, row: int)
    requires
        0 <= col < COLS,
        0 <= row < ROWS,
    ensures
        0 <= strip_index(col, row) < PIXELS,
        strip_col(strip_index(col, row)) == col,
        strip_row(strip_index(col, row)) == row,
        col % 2 == 0 ==> strip_index(col, row) == 8 * col + row,
        col % 2 == 1 ==> strip_index(col, row) == 8 * col + (ROWS - 1 - row),
        col % 2 == 1 && col >= 1 ==> strip_index(col, row) - 8 * col == 7 - (strip_index(
            col - 1,
            row,
        ) - 8 * (col - 1)),
{
}

/// A frame always serialises to 768 bytes, and the three bytes of the pixel
/// in `col` and `row` stand at its place on the strip as green, red, blue.
pub proof fn lemma_physical_layout(frame: Frame, mixed: Seq<(u8, u8, u8)>, col: int, row: int)
    requires
        0 <= col < COLS,
        0 <= row < ROWS,
    ensures
        frame.physical_bytes(mixed).len() == FRAME_BYTES,
        ({
            let k = strip_index(col, row);
            let rgb = frame.color_at(col, row).spec_rgb(
                frame.brightness(),
                frame.phase(),
                col as usize,
                row as usize,
                mixed[k],
            );
            &&& frame.physical_bytes(mixed)[3 * k] == rgb.1
            &&& frame.physical_bytes(mixed)[3 * k + 1] == rgb.0
            &&& frame.physical_bytes(mixed)[3 * k + 2] == rgb.2
        }),
{
    lemma_strip_is_serpentine(col, row);
    let k = strip_index(col, row);
    assert((3 * k) / 3 == k && (3 * k) % 3 == 0);
    assert((3 * k + 1) / 3 == k && (3 * k + 1) % 3 == 1);
    assert((3 * k + 2) / 3 == k && (3 * k + 2) % 3 == 2);
}

/// In a frame that is dark but for one pixel, every byte outside the three
/// of that pixel is zero. The three stand at the pixel's place on the strip,
/// and above the floor brightness a white pixel shows there what the colour
/// conversion made of it.
pub proof fn lemma_single_pixel_frame(
    frame: Frame,
    mixed: Seq<(u8, u8, u8)>,
    col: int,
    row: int,
    j: int,
)
    requires
        0 <= col < COLS,
        0 <= row < ROWS,
        forall|c: int, r: int|
            0 <= c < COLS && 0 <= r < ROWS && !(c == col && r == row) ==> frame.color_at(c, r)
                is Black,
        0 <= j < FRAME_BYTES,
    ensures
        j / 3 != strip_index(col, row) ==> frame.physical_bytes(mixed)[j] == 0u8,
        j / 3 == strip_index(col, row) ==> frame.physical_bytes(mixed)[j] == grb(
            frame.color_at(col, row).spec_rgb(
                frame.brightness(),
                frame.phase(),
                col as usize,
                row as usize,
                mixed[j / 3],
            ),
        )[j % 3],
        j / 3 == strip_index(col, row) && frame.color_at(col, row) is White && frame.brightness()
            > crate::color::FLOOR_BRIGHTNESS ==> frame.physical_bytes(mixed)[j] == grb(
            mixed[j / 3],
        )[j % 3],
{
    let k = j / 3;
    lemma_strip_is_serpentine(col, row);
    assert(0 <= strip_col(k) < COLS && 0 <= strip_row(k) < ROWS);
    lemma_strip_is_serpentine(strip_col(k), strip_row(k));
    if k != strip_index(col, row) {
        assert(!(strip_col(k) == col && strip_row(k) == row));
        assert(frame.color_at(strip_col(k), strip_row(k)) is Black);
    }
}

/// An odd column read backwards gives the bytes of an even column that
/// holds the same colours row by row, wherever the colour conversion made
/// the same of the same tone. The rainbow is left out: its hue differs from
/// column to column.
pub proof fn lemma_odd_column_mirrors_even(
    frame: Frame,
    mixed: Seq<(u8, u8, u8)>,
    even: int,
    odd: int,
    row: int,
    t: int,
)
    requires
        0 <= even < COLS,
        0 <= odd < COLS,
        even % 2 == 0,
        odd % 2 == 1,
        0 <= row < ROWS,
        0 <= t < 3,
        frame.color_at(odd, row) == frame.color_at(even, row),
        !(frame.color_at(even, row) is Rainbow),
        mixed[8 * odd + (7 - row)] == mixed[8 * even + row],
    ensures
        frame.physical_bytes(mixed)[24 * odd + 3 * (7 - row) + t] == frame.physical_bytes(
            mixed,
        )[24 * even + 3 * row + t],
{
    lemma_physical_layout(frame, mixed, even, row);
    lemma_physical_layout(frame, mixed, odd, row);
    assert(strip_index(even, row) == 8 * even + row);
    assert(strip_index(odd, row) == 8 * odd + (7 - row));
    assert(frame.color_at(odd, row).spec_tone(
        frame.brightness(),
        frame.phase(),
        odd as usize,
        row as usize,
    ) == frame.color_at(even, row).spec_tone(
        frame.brightness(),
        frame.phase(),
        even as usize,
        row as usize,
    ));
}

/// Asking for any brightness at or above the highest gives the highest, and
/// asking for any at or below the lowest gives the lowest.
pub proof fn lemma_brightness_is_clamped(wanted: u16)
    ensures
        MIN_BRIGHTNESS <= clamp_brightness(wanted) <= MAX_BRIGHTNESS,
        wanted >= MAX_BRIGHTNESS ==> clamp_brightness(wanted) == clamp_brightness(MAX_BRIGHTNESS),
        wanted <= MIN_BRIGHTNESS ==> clamp_brightness(wanted) == clamp_brightness(MIN_BRIGHTNESS),
        MIN_BRIGHTNESS <= wanted <= MAX_BRIGHTNESS ==> clamp_brightness(wanted) == wanted,
{
}

/// Two frames with the same picture and phase whose brightness was asked for
/// beyond the same end of the range serialise to the same bytes.
pub proof fn lemma_clamped_frames_render_alike(
    a: Frame,
    b: Frame,
    asked_a: u16,
    asked_b: u16,
    mixed: Seq<(u8, u8, u8)>,
)
    requires
        a.same_picture(&b),
        a.phase() == b.phase(),
        a.brightness() == clamp_brightness(asked_a),
        b.brightness() == clamp_brightness(asked_b),
        (asked_a >= MAX_BRIGHTNESS && asked_b >= MAX_BRIGHTNESS) || (asked_a <= MIN_BRIGHTNESS
            && asked_b <= MIN_BRIGHTNESS),
    ensures
        a.strip_tones() == b.strip_tones(),
        a.physical_bytes(mixed) == b.physical_bytes(mixed),
{
    assert forall|k: int| 0 <= k < PIXELS implies a.tone_at(k) == b.tone_at(k) by {
        assert(0 <= strip_col(k) < COLS && 0 <= strip_row(k) < ROWS);
    }
    assert(a.strip_tones() =~= b.strip_tones());
    assert forall|j: int| 0 <= j < FRAME_BYTES implies a.physical_bytes(mixed)[j]
        == b.physical_bytes(mixed)[j] by {
        assert(0 <= j / 3 < PIXELS);
    }
    assert(a.physical_bytes(mixed) =~= b.physical_bytes(mixed));
}

/// At or below the floor brightness a frame without a black pixel
/// serialises to ones throughout, whatever the colour conversion returned.
pub proof fn lemma_dim_frame_is_all_ones(frame: Frame, mixed: Seq<(u8, u8, u8)>, j: int)
    requires
        frame.brightness() <= crate::color::FLOOR_BRIGHTNESS,
        forall|col: int, row: int|
            0 <= col < COLS && 0 <= row < ROWS ==> !(frame.color_at(col, row) is Black),
        0 <= j < FRAME_BYTES,
    ensures
        frame.physical_bytes(mixed)[j] == 1u8,
{
    let k = j / 3;
    assert(0 <= strip_col(k) < COLS && 0 <= strip_row(k) < ROWS);
    assert(frame.tone_at(k) == Tone::Dim);
}

/// A black pixel serialises to zeros at every brightness.
pub proof fn lemma_black_pixel_is_off(frame: Frame, mixed: Seq<(u8, u8, u8)>, col: int, row: int)
    requires
        0 <= col < COLS,
        0 <= row < ROWS,
        frame.color_at(col, row) is Black,
    ensures
        frame.physical_bytes(mixed)[3 * strip_index(col, row)] == 0u8,
        frame.physical_bytes(mixed)[3 * strip_index(col, row) + 1] == 0u8,
        frame.physical_bytes(mixed)[3 * strip_index(col, row) + 2] == 0u8,
{
    lemma_physical_layout(frame, mixed, col, row);
}

} // verus!
