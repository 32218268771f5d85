//! Deterministic stand-ins for an editor, an input source and an output sink.
pub mod editor;
pub mod fake_capture;
pub mod fake_output;
