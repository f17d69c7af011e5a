//! Decoding of flight-controller PID telemetry logs and the layout of the
//! tables and charts derived from them.
//!
//! A log is a flat run of 56-byte little-endian records. [`decode`] turns
//! bytes into [`record::LogData`] values, [`export`] lays out the delimited
//! text table, and [`plot`] plans the scatter chart. Gain values are carried
//! as IEEE-754 single-precision bit patterns throughout; evaluating them is
//! left to the caller.

pub mod decode;
pub mod export;
pub mod laws;
pub mod plot;
pub mod record;
pub mod text;
