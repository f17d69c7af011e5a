//! The telemetry record and its byte layout.

use vstd::prelude::*;

verus! {

/// Width in bytes of every field of a record.
pub const FIELD_SIZE: usize = 4;

/// Number of fields in a record: two counters and four gains for each of
/// the three axes.
pub const FIELD_COUNT: usize = 14;

/// Width in bytes of one record.
pub const RECORD_SIZE: usize = 56;

/// One sample of the PID loop.
///
/// `loop_iteration` and `time` are plain counters (`time` in milliseconds
/// since the start of the log). The twelve gain fields hold the bit pattern
/// of an IEEE-754 single-precision number, exactly as stored in the log.
#[derive(Clone, Copy, Debug, PartialEq, Eq, Structural)]
pub struct LogData {
    pub loop_iteration: u32,
    pub time: u32,
    pub p_roll: u32,
    pub i_roll: u32,
    pub d_roll: u32,
    pub ff_roll: u32,
    pub p_pitch: u32,
    pub i_pitch: u32,
    pub d_pitch: u32,
    pub ff_pitch: u32,
    pub p_yaw: u32,
    pub i_yaw: u32,
    pub d_yaw: u32,
    pub ff_yaw: u32,
}

/// The 32-bit word stored little-endian in the four bytes of `bytes` that
/// start at `offset`.
pub open spec fn word_at(bytes: Seq<u8>, offset: int) -> u32
    recommends
        0 <= offset,
        offset + 4 <= bytes.len(),
{
    (bytes[offset] as int + 256 * (bytes[offset + 1] as int) + 65536 * (bytes[offset + 2] as int)
        + 16777216 * (bytes[offset + 3] as int)) as u32
}

/// The four bytes that store `word` little-endian.
pub open spec fn word_bytes(word: u32) -> Seq<u8> {
    seq![
        (word as int % 256) as u8,
        (word as int / 256 % 256) as u8,
        (word as int / 65536 % 256) as u8,
        (word as int / 16777216) as u8,
    ]
}

/// The record stored in the 56 bytes of `bytes` that start at `offset`:
/// the fields in their fixed order, each a little-endian word.
pub open spec fn record_at(bytes: Seq<u8>, offset: int) -> LogData
    recommends
        0 <= offset,
        offset + 56 <= bytes.len(),
{
    LogData {
        loop_iteration: word_at(bytes, offset),
        time: word_at(bytes, offset + 4),
        p_roll: word_at(bytes, offset + 8),
        i_roll: word_at(bytes, offset + 12),
        d_roll: word_at(bytes, offset + 16),
        ff_roll: word_at(bytes, offset + 20),
        p_pitch: word_at(bytes, offset + 24),
        i_pitch: word_at(bytes, offset + 28),
        d_pitch: word_at(bytes, offset + 32),
        ff_pitch: word_at(bytes, offset + 36),
        p_yaw: word_at(bytes, offset + 40),
        i_yaw: word_at(bytes, offset + 44),
        d_yaw: word_at(bytes, offset + 48),
        ff_yaw: word_at(bytes, offset + 52),
    }
}

/// The 56 bytes that store `record`.
pub open spec fn record_bytes(record: LogData) -> Seq<u8> {
    word_bytes(record.loop_iteration) + word_bytes(record.time) + word_bytes(record.p_roll)
        + word_bytes(record.i_roll) + word_bytes(record.d_roll) + word_bytes(record.ff_roll)
        + word_bytes(record.p_pitch) + word_bytes(record.i_pitch) + word_bytes(record.d_pitch)
        + word_bytes(record.ff_pitch) + word_bytes(record.p_yaw) + word_bytes(record.i_yaw)
        + word_bytes(record.d_yaw) + word_bytes(record.ff_yaw)
}

/// The bytes of a log that stores `records` in order, with nothing between
/// or around them.
pub open spec fn log_bytes(records: Seq<LogData>) -> Seq<u8>
    decreases records.len(),
{
    if records.len() == 0 {
        Seq::empty()
    } else {
        log_bytes(records.drop_last()) + record_bytes(records.last())
    }
}

/// What a log decodes to: as many records as fit whole into `bytes`, in file
/// order. Bytes after the last whole record belong to no record.
pub open spec fn decoded(bytes: Seq<u8>) -> Seq<LogData> {
    Seq::new((bytes.len() / 56) as nat, |i: int| record_at(bytes, 56 * i))
}

} // verus!
