//! Core of a live-event reaction sequencer: persisted reaction sequences,
//! the device and trigger-source models, event matching, step dispatch and
//! run lifecycle control, each stated and proved with Verus.

pub mod json;
pub mod sequence;
pub mod device;
pub mod trigger;
pub mod sequencer;
pub mod lifecycle;
