//! Edge-swipe recognition for touchscreens.
//!
//! A touch that begins next to a screen edge is tracked until the finger
//! lifts; if it has then travelled far enough away from that edge, every
//! configured trigger whose edge and zone match yields its shell command.
//!
//! Positions and zone bounds are percentages of the screen, held as the
//! doubles that a touch device or a configuration file reports, by their
//! bit patterns; see [`percent`]. They are never rounded: every comparison
//! is exact and made in integer arithmetic. Thresholds are whole numbers
//! of units, a unit being a thousandth of a percent, so each axis runs
//! from `0` to [`FULL_SCALE`] units.
//!
//! The crate performs no I/O. Callers feed it touch events and run the
//! commands it hands back.

pub mod edge;
pub mod error;
pub mod gesture;
pub mod handler;
pub mod percent;
pub mod settings;
pub mod trigger;

pub use edge::{edge_at, edge_named, Edge, EDGE_THRESHOLD};
pub use error::TriggerError;
pub use gesture::{Gesture, Point};
pub use handler::{
    after_down, after_motion, after_up, commands_after, commands_on_up, event_slot, gesture_at,
    index_of, slot_index, slots_after, Handler, TouchEvent, DEFAULT_MIN_DISTANCE, MAX_TOUCHES,
};
pub use settings::{
    bound_found, bound_reading, entry_read, is_bound_of, is_text_of, lacks, load_trigger_values,
    read_bound, read_text, record_read, text_found, text_reading, value_float_bits, value_table,
    value_text,
};
pub use trigger::{
    commands_for, entry_outcome, fired, is_load_outcome, load_triggers, matching_commands,
    record_outcome, texts, Field, LoadError, Trigger, TriggerRecord,
};
pub use percent::{steps_per_percent, Percent, FULL_SCALE, UNITS_PER_PERCENT};
