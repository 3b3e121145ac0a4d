//! The touch sampler: what the sensor said when it was last asked, and the
//! overlay that shows a touch on the current frame.

use crate::color::{Rgb565, WHITE};
use crate::command::DrawCommand;
use crate::label::Label;
use vstd::prelude::*;

verus! {

/// Where the overlay's baseline starts, across.
pub const TOUCH_X: i32 = 10;

/// Where the overlay's baseline starts, down.
pub const TOUCH_Y: i32 = 40;

/// What came back when the sensor was asked for the current touch point.
#[derive(Clone, Copy, Debug, PartialEq, Eq, Structural)]
pub enum TouchReading {
    /// A finger is down at this point.
    Point { x: u16, y: u16 },
    /// No finger is down.
    Released,
    /// The sensor could not be read.
    Failed,
}

/// The touch point that a reading stands for. A reading that failed counts
/// as no touch.
pub open spec fn reading_point(reading: TouchReading) -> Option<(u16, u16)> {
    match reading {
        TouchReading::Point { x, y } => Some((x, y)),
        TouchReading::Released => None,
        TouchReading::Failed => None,
    }
}

/// The overlay for a sample: none where there is no touch, else the
/// coordinates as text at the overlay's place.
pub open spec fn overlay_for(sample: Option<(u16, u16)>) -> Option<DrawCommand> {
    match sample {
        Some((x, y)) => Some(
            DrawCommand::Text {
                x: TOUCH_X,
                y: TOUCH_Y,
                label: Label::Touch(x, y),
                color: Rgb565 { raw: WHITE },
            },
        ),
        None => None,
    }
}

/// One sample of the touch sensor: the level of its interrupt line and the
/// reading that was taken with it.
#[derive(Clone, Copy, Debug, PartialEq, Eq, Structural)]
pub struct TouchController {
    pub irq_low: bool,
    pub reading: TouchReading,
}

impl TouchController {
    pub fn new(irq_low: bool, reading: TouchReading) -> (controller: Self)
        ensures
            controller.irq_low == irq_low,
            controller.reading == reading,
    {
        TouchController { irq_low, reading }
    }

    /// Whether the sensor signals a touch: its interrupt line is low.
    pub fn is_touched(&self) -> (touched: bool)
        ensures
            touched == self.irq_low,
    {
        self.irq_low
    }

    /// The touch point of this sample, if a finger is down.
    pub fn poll(&self) -> (sample: Option<(u16, u16)>)
        ensures
            sample == reading_point(self.reading),
    {
        match self.reading {
            TouchReading::Point { x, y } => Some((x, y)),
            TouchReading::Released => None,
            TouchReading::Failed => None,
        }
    }
}

/// What to draw on the current frame for a touch sample.
pub fn touch_overlay(sample: Option<(u16, u16)>) -> (overlay: Option<DrawCommand>)
    ensures
        overlay == overlay_for(sample),
        overlay.is_some() == sample.is_some(),
        overlay matches Some(command) ==> command.drawable(),
{
    match sample {
        Some((x, y)) => Some(
            DrawCommand::Text {
                x: TOUCH_X,
                y: TOUCH_Y,
                label: Label::Touch(x, y),
                color: Rgb565::from_raw(WHITE),
            },
        ),
        None => None,
    }
}

} // verus!
