use blackbox_analyzer::decode::{decode_log, decode_record, read_field, Incomplete};
use blackbox_analyzer::record::{LogData, FIELD_COUNT, FIELD_SIZE, RECORD_SIZE};

fn encode(record: &LogData) -> Vec<u8> {
    let fields = [
        record.loop_iteration,
        record.time,
        record.p_roll,
        record.i_roll,
        record.d_roll,
        record.ff_roll,
        record.p_pitch,
        record.i_pitch,
        record.d_pitch,
        record.ff_pitch,
        record.p_yaw,
        record.i_yaw,
        record.d_yaw,
        record.ff_yaw,
    ];
    let mut bytes = Vec::new();
    for field in fields {
        bytes.extend_from_slice(&field.to_le_bytes());
    }
    bytes
}

fn sample(seed: u32) -> LogData {
    LogData {
        loop_iteration: seed,
        time: seed.wrapping_mul(10),
        p_roll: (seed as f32 + 0.5).to_bits(),
        i_roll: (seed as f32 * -2.25).to_bits(),
        d_roll: 100.0f32.to_bits(),
        ff_roll: 0.125f32.to_bits(),
        p_pitch: 7.0f32.to_bits(),
        i_pitch: (-0.0f32).to_bits(),
        d_pitch: 1024.0f32.to_bits(),
        ff_pitch: 3.75f32.to_bits(),
        p_yaw: (-180.0f32).to_bits(),
        i_yaw: 180.0f32.to_bits(),
        d_yaw: 0.0f32.to_bits(),
        ff_yaw: 42.0f32.to_bits(),
    }
}

#[test]
fn record_size_is_fourteen_fields_of_four_bytes() {
    assert_eq!(RECORD_SIZE, 56);
    assert_eq!(FIELD_COUNT * FIELD_SIZE, RECORD_SIZE);
}

#[test]
fn empty_input_decodes_to_no_records() {
    assert_eq!(decode_log(&[]), Vec::<LogData>::new());
}

#[test]
fn input_shorter_than_a_record_decodes_to_no_records() {
    for len in 1..56usize {
        let bytes = vec![0xABu8; len];
        assert!(decode_log(&bytes).is_empty(), "length {}", len);
    }
}

#[test]
fn record_count_is_the_floor_of_size_over_56() {
    for len in [55usize, 56, 57, 111, 112, 113, 167, 168, 560, 561, 615] {
        let bytes = vec![0u8; len];
        assert_eq!(decode_log(&bytes).len(), len / 56, "length {}", len);
    }
}

#[test]
fn trailing_partial_record_is_dropped() {
    let first = sample(3);
    let second = sample(4);
    let mut bytes = encode(&first);
    bytes.extend_from_slice(&encode(&second));
    let whole = decode_log(&bytes);
    for extra in 1..56usize {
        let mut longer = bytes.clone();
        longer.extend(std::iter::repeat(0xFFu8).take(extra));
        assert_eq!(decode_log(&longer), whole);
    }
    assert_eq!(whole, vec![first, second]);
}

#[test]
fn single_record_round_trips_bit_for_bit() {
    let record = LogData {
        loop_iteration: 0x0102_0304,
        time: 4_000_000_000,
        p_roll: 1.5f32.to_bits(),
        i_roll: (-2.25f32).to_bits(),
        d_roll: 100.0f32.to_bits(),
        ff_roll: 0.5f32.to_bits(),
        p_pitch: 3.0f32.to_bits(),
        i_pitch: 0.25f32.to_bits(),
        d_pitch: (-0.0f32).to_bits(),
        ff_pitch: 65536.0f32.to_bits(),
        p_yaw: f32::MAX.to_bits(),
        i_yaw: f32::MIN_POSITIVE.to_bits(),
        d_yaw: f32::INFINITY.to_bits(),
        ff_yaw: 0x7FC0_0001,
    };
    let bytes = encode(&record);
    assert_eq!(bytes.len(), 56);
    let decoded = decode_log(&bytes);
    assert_eq!(decoded, vec![record]);
    assert_eq!(f32::from_bits(decoded[0].p_roll), 1.5);
    assert_eq!(f32::from_bits(decoded[0].i_roll), -2.25);
    assert_eq!(f32::from_bits(decoded[0].d_roll), 100.0);
    assert_eq!(f32::from_bits(decoded[0].i_pitch), 0.25);
}

#[test]
fn fields_are_read_little_endian_in_layout_order() {
    let mut bytes = Vec::new();
    for k in 0..14u8 {
        bytes.extend_from_slice(&[k + 1, 0x10 + k, 0x20 + k, 0x30 + k]);
    }
    let word = |k: u32| (k + 1) | (0x10 + k) << 8 | (0x20 + k) << 16 | (0x30 + k) << 24;
    let expected = LogData {
        loop_iteration: word(0),
        time: word(1),
        p_roll: word(2),
        i_roll: word(3),
        d_roll: word(4),
        ff_roll: word(5),
        p_pitch: word(6),
        i_pitch: word(7),
        d_pitch: word(8),
        ff_pitch: word(9),
        p_yaw: word(10),
        i_yaw: word(11),
        d_yaw: word(12),
        ff_yaw: word(13),
    };
    assert_eq!(decode_log(&bytes), vec![expected]);
    assert_eq!(expected.loop_iteration, 0x3020_1001);
}

#[test]
fn records_keep_file_order() {
    let records: Vec<LogData> = (0..25u32).rev().map(sample).collect();
    let mut bytes = Vec::new();
    for record in &records {
        bytes.extend_from_slice(&encode(record));
    }
    assert_eq!(decode_log(&bytes), records);
}

#[test]
fn equal_records_are_not_merged() {
    let record = sample(9);
    let mut bytes = encode(&record);
    bytes.extend_from_slice(&encode(&record));
    bytes.extend_from_slice(&encode(&record));
    assert_eq!(decode_log(&bytes), vec![record, record, record]);
}

#[test]
fn read_field_reads_the_word_at_the_offset() {
    let bytes = [0x00u8, 0x78, 0x56, 0x34, 0x12, 0xFF];
    assert_eq!(read_field(&bytes, 1), Ok(0x1234_5678));
    assert_eq!(read_field(&bytes, 0), Ok(0x3456_7800));
    assert_eq!(read_field(&bytes, 2), Ok(0xFF12_3456));
}

#[test]
fn read_field_is_incomplete_when_fewer_than_four_bytes_remain() {
    let bytes = [1u8, 2, 3, 4, 5, 6];
    assert_eq!(read_field(&bytes, 3), Err(Incomplete {}));
    assert_eq!(read_field(&bytes, 6), Err(Incomplete {}));
    assert_eq!(read_field(&bytes, 7), Err(Incomplete {}));
    assert_eq!(read_field(&bytes, usize::MAX), Err(Incomplete {}));
    assert_eq!(read_field(&[], 0), Err(Incomplete {}));
}

#[test]
fn decode_record_reads_at_any_offset() {
    let record = sample(77);
    let mut bytes = vec![0xEEu8; 5];
    bytes.extend_from_slice(&encode(&record));
    assert_eq!(decode_record(&bytes, 5), Ok(record));
    assert_eq!(decode_record(&bytes, 6), Err(Incomplete {}));
    assert_eq!(decode_record(&bytes, 61), Err(Incomplete {}));
    assert_eq!(decode_record(&bytes, usize::MAX - 3), Err(Incomplete {}));
}

#[test]
fn decode_record_is_incomplete_on_every_truncation() {
    let bytes = encode(&sample(5));
    for len in 0..56usize {
        assert_eq!(decode_record(&bytes[..len], 0), Err(Incomplete {}), "length {}", len);
    }
    assert_eq!(decode_record(&bytes, 0), Ok(sample(5)));
}
