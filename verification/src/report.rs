//! The frame-rate report: how many passes of the measured length fit in a
//! second, drawn as a number in the corner of the screen.

use crate::color::{Rgb565, BLACK};
use crate::command::DrawCommand;
use crate::label::Label;
use vstd::prelude::*;

verus! {

/// Microseconds in one second.
pub const MICROS_PER_SECOND: u64 = 1_000_000;

/// Where the report's baseline starts, across.
pub const REPORT_X: i32 = 10;

/// Where the report's baseline starts, down.
pub const REPORT_Y: i32 = 20;

/// The rate for a pass that took `elapsed_us` microseconds, in whole
/// passes per second.
pub open spec fn frame_rate(elapsed_us: u64) -> u64
    recommends
        elapsed_us > 0,
{
    MICROS_PER_SECOND / elapsed_us
}

/// The overlay that reports on a pass of the given length: none for a pass
/// that took no time, else the rate in black at the report's place.
pub open spec fn report_overlay(elapsed_us: u64) -> Option<DrawCommand> {
    if elapsed_us == 0 {
        None
    } else {
        Some(
            DrawCommand::Text {
                x: REPORT_X,
                y: REPORT_Y,
                label: Label::Number(frame_rate(elapsed_us)),
                color: Rgb565 { raw: BLACK },
            },
        )
    }
}

/// The rate for a pass of the given length, or `None` for a pass that took no time.
pub fn frames_per_second(elapsed_us: u64) -> (rate: Option<u64>)
    ensures
        rate == if elapsed_us == 0 {
            None
        } else {
            Some(frame_rate(elapsed_us))
        },
        rate matches Some(r) ==> r <= MICROS_PER_SECOND,
{
    if elapsed_us > 0 {
        Some(MICROS_PER_SECOND / elapsed_us)
    } else {
        None
    }
}

/// What to draw to report on a pass that took `elapsed_us` microseconds.
pub fn show_fps(elapsed_us: u64) -> (overlay: Option<DrawCommand>)
    ensures
        overlay == report_overlay(elapsed_us),
        overlay matches Some(command) ==> command.drawable(),
{
    match frames_per_second(elapsed_us) {
        Some(rate) => Some(
            DrawCommand::Text {
                x: REPORT_X,
                y: REPORT_Y,
                label: Label::Number(rate),
                color: Rgb565::from_raw(BLACK),
            },
        ),
        None => None,
    }
}

} // verus!
