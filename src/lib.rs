//! Core of a browser sample-trigger pad: the voice catalog, the sample store,
//! the polyphonic playback engine with its instance table, the input
//! multiplexer and the visualizer's tick planning.
//!
//! Every part is a plain state machine. The host (audio graph, canvas, DOM)
//! hands it events and carries out the actions it returns.

pub mod catalog;
pub mod engine;
pub mod input;
pub mod laws;
pub mod rate;
pub mod samples;
pub mod visualizer;

pub use catalog::{voices, Voice, VOICE_COUNT};
pub use engine::{Engine, GraphAction, Instance, TriggerError, TriggerEvent};
pub use input::{Multiplexer, MOUSE_ID_BASE};
pub use rate::{clamp_bpm, Rate, BASE_BPM, MAX_BPM, MIN_BPM};
pub use samples::{SampleStatus, SampleStore};
pub use visualizer::{
    energy, TickPlan, Visualizer, CANVAS_DIM, ENERGY_THRESHOLD, FULL_SCALE, TICK_PERIOD_MS,
    TRAIL_SHIFT_PX, WINDOW_LEN,
};
