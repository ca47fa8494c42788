//! Decoder for the line-oriented telegrams that a smart energy meter emits:
//! framing of the line stream, decoding of the fields of one telegram into a
//! usage snapshot, and the mapping of a snapshot to time-series points.

pub mod dictionary;
pub mod error;
pub mod framer;
pub mod influx_wrapper;
pub mod measurement;
pub mod pipeline;
pub mod points;
pub mod telegram;
pub mod text;
pub mod timestamp;
