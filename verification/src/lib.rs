//! Pixel-perfect circular and segmented value bars: the verified core.
//!
//! The library keeps the rules of the bars: how a segmented bar splits a
//! value into full and partial slots, which slot children it keeps or spawns,
//! how each slot's state follows the value, how a partial slot blinks over
//! time, and how the frame of a circular bar is anchored.
pub mod blink;
pub mod circular;
pub mod segment;
pub mod time_span;
pub mod timer;

pub use blink::SegmentBlink;
pub use circular::{effective_pixel_size, FillAxis, FrameAnchor};
pub use segment::{
    BlinkChange, Segment, SegmentFillDirection, SegmentPlan, SegmentState, SegmentedBar,
    SlotReconciliation,
};
pub use time_span::TimeSpan;
pub use timer::OnceTimer;
