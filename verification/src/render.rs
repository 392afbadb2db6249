//! One render pass: from the state of the rotation to a painted frame.

use crate::color::Color;
use crate::frame::{clamp_brightness, text_covers, Bitmap, Frame, COLS, ROWS};
use crate::state::{is_just_updated, is_stale, RenderState, State};
use vstd::prelude::*;

verus! {

/// Column of the mark that shows that the readings are too old.
pub const STALE_MARK_COL: usize = 1;

/// Column of the mark that shows that a reading has just arrived.
pub const FRESH_MARK_COL: usize = 30;

/// Row of both marks.
pub const MARK_ROW: usize = 7;

/// Colour of the mark that shows that the readings are too old.
pub open spec fn stale_mark() -> Color {
    Color::Raw(255, 0, 0)
}

/// Colour of the mark that shows that a reading has just arrived.
pub open spec fn fresh_mark() -> Color {
    Color::RGB
}

/// Where the text of a state starts: its column and its row.
pub open spec fn text_origin(state: State) -> Option<(usize, usize)> {
    match state {
        State::Clock => Some((2usize, 1usize)),
        State::Date => Some((1usize, 1usize)),
        State::Temperature => Some((6usize, 1usize)),
        State::Humidity => Some((6usize, 1usize)),
        State::Pressure => Some((6usize, 1usize)),
        State::Empty => None,
    }
}

/// Colour of the pixel in `col` and `row` after a render pass at `now`:
/// the fresh mark lies over the stale mark, both over the text, and the
/// text over a black ground.
pub open spec fn composed(s: RenderState, glyphs: Seq<Bitmap>, now: u64, col: int, row: int) -> Color {
    if is_just_updated(s.last_update, now) && col == FRESH_MARK_COL && row == MARK_ROW {
        fresh_mark()
    } else if is_stale(s.last_update, now, s.schedule.stale_after) && col == STALE_MARK_COL && row
        == MARK_ROW {
        stale_mark()
    } else {
        match text_origin(s.state) {
            Some((x, y)) => if text_covers(glyphs, glyphs.len() as int, x as int, y as int, col, row) {
                s.color
            } else {
                Color::Black
            },
            None => Color::Black,
        }
    }
}

/// Where the text of a state starts: its column and its row.
pub fn origin(state: State) -> (at: Option<(usize, usize)>)
    ensures
        at == text_origin(state),
{
    match state {
        State::Clock => Some((2, 1)),
        State::Date => Some((1, 1)),
        State::Temperature => Some((6, 1)),
        State::Humidity => Some((6, 1)),
        State::Pressure => Some((6, 1)),
        State::Empty => None,
    }
}

/// Paints the frame for the state at `now`. `glyphs` are the glyphs of the
/// characters of the state's text.
pub fn compose(frame: &mut Frame, state: &RenderState, glyphs: &Vec<Bitmap>, now: u64)
    ensures
        forall|col: int, row: int|
            0 <= col < COLS && 0 <= row < ROWS ==> final(frame).color_at(col, row) == composed(
                *state,
                glyphs@,
                now,
                col,
                row,
            ),
        final(frame).brightness() == clamp_brightness(state.brightness),
        final(frame).phase() == old(frame).phase(),
{
    frame.clear();
    frame.set_brightness(state.brightness);
    match origin(state.get_state()) {
        Some((x, y)) => {
            frame.draw_text(glyphs, &state.color, x, y);
        },
        None => {},
    }
    if state.is_temperature_humidity_stale(now) {
        frame.draw_pixel(&Color::Raw(255, 0, 0), STALE_MARK_COL, MARK_ROW);
    }
    if state.is_temperature_humidity_just_updated(now) {
        frame.draw_pixel(&Color::RGB, FRESH_MARK_COL, MARK_ROW);
    }
}

} // verus!
