//! Audio-driven actuator control: a bounded hand-off of intensity samples
//! between the audio callback and the control loop, the control loop's
//! decisions, the per-endpoint dispatch round, and output-device selection.

pub mod dispatch;
pub mod driver;
pub mod frame;
pub mod relay;
pub mod select;
