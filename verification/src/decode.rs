//! The log decoder: a cursor over bytes with an explicit bounds check in
//! front of every field.

use crate::record::{decoded, record_at, word_at, LogData, FIELD_SIZE, RECORD_SIZE};
use byteorder::{ByteOrder, LittleEndian};
use vstd::prelude::*;
use vstd::slice::slice_subrange;

verus! {

/// The bytes ran out before a record was complete.
#[derive(Clone, Copy, Debug, PartialEq, Eq, Structural)]
pub struct Incomplete {}

/// Trusted: `byteorder::LittleEndian::read_u32`, which reads the first four
/// bytes of `buf` as a little-endian word and panics on a shorter slice.
#[verifier::external_body]
fn read_u32_le(buf: &[u8]) -> (value: u32)
    requires
        buf@.len() >= 4,
    ensures
        value == word_at(buf@, 0),
{
    LittleEndian::read_u32(buf)
}

/// Reads the field that starts at `offset`, if all four of its bytes are
/// there.
pub fn read_field(bytes: &[u8], offset: usize) -> (field: Result<u32, Incomplete>)
    ensures
        field.is_ok() <==> offset + 4 <= bytes@.len(),
        field.is_ok() ==> field.unwrap() == word_at(bytes@, offset as int),
{
    if offset <= bytes.len() && bytes.len() - offset >= FIELD_SIZE {
        let window = slice_subrange(bytes, offset, offset + FIELD_SIZE);
        Ok(read_u32_le(window))
    } else {
        Err(Incomplete {  })
    }
}

/// Decodes the record that starts at `offset`, field by field, and gives up
/// at the first field that is not wholly there.
pub fn decode_record(bytes: &[u8], offset: usize) -> (record: Result<LogData, Incomplete>)
    ensures
        record.is_ok() <==> offset + 56 <= bytes@.len(),
        record.is_ok() ==> record.unwrap() == record_at(bytes@, offset as int),
{
    assert(bytes.len() == bytes@.len());
    let loop_iteration: u32 = read_field(bytes, offset)?;
    let time: u32 = read_field(bytes, offset + 4)?;
    let p_roll: u32 = read_field(bytes, offset + 8)?;
    let i_roll: u32 = read_field(bytes, offset + 12)?;
    let d_roll: u32 = read_field(bytes, offset + 16)?;
    let ff_roll: u32 = read_field(bytes, offset + 20)?;
    let p_pitch: u32 = read_field(bytes, offset + 24)?;
    let i_pitch: u32 = read_field(bytes, offset + 28)?;
    let d_pitch: u32 = read_field(bytes, offset + 32)?;
    let ff_pitch: u32 = read_field(bytes, offset + 36)?;
    let p_yaw: u32 = read_field(bytes, offset + 40)?;
    let i_yaw: u32 = read_field(bytes, offset + 44)?;
    let d_yaw: u32 = read_field(bytes, offset + 48)?;
    let ff_yaw: u32 = read_field(bytes, offset + 52)?;
    Ok(
        LogData {
            loop_iteration,
            time,
            p_roll,
            i_roll,
            d_roll,
            ff_roll,
            p_pitch,
            i_pitch,
            d_pitch,
            ff_pitch,
            p_yaw,
            i_yaw,
            d_yaw,
            ff_yaw,
        },
    )
}

/// Decodes a whole log: every record that is wholly present, in file order.
/// A trailing partial record is dropped without complaint, so an empty or
/// short input gives an empty result.
pub fn decode_log(bytes: &[u8]) -> (records: Vec<LogData>)
    ensures
        records@ == decoded(bytes@),
        records@.len() == bytes@.len() / 56,
        bytes@.len() == 0 ==> records@.len() == 0,
{
    let mut records: Vec<LogData> = Vec::new();
    let mut offset: usize = 0;
    assert(bytes.len() == bytes@.len());
    loop
        invariant
            bytes@.len() <= usize::MAX,
            offset == 56 * records@.len(),
            offset <= bytes@.len(),
            forall|i: int| 0 <= i < records@.len() ==> records@[i] == record_at(bytes@, 56 * i),
        ensures
            offset == 56 * records@.len(),
            offset <= bytes@.len(),
            offset + 56 > bytes@.len(),
            forall|i: int| 0 <= i < records@.len() ==> records@[i] == record_at(bytes@, 56 * i),
        decreases bytes@.len() - offset,
    {
        match decode_record(bytes, offset) {
            Ok(record) => {
                records.push(record);
                offset = offset + RECORD_SIZE;
            },
            Err(_) => {
                break ;
            },
        }
    }
    assert(records@ =~= decoded(bytes@));
    records
}

} // verus!
