//! Laws of the log format: what decoding does to every possible input.

use crate::record::{decoded, log_bytes, record_at, record_bytes, word_at, word_bytes, LogData};
use vstd::prelude::*;

verus! {

/// A word read back from its own four bytes is the word itself, wherever in
/// a buffer those bytes lie.
pub proof fn lemma_word_roundtrip(bytes: Seq<u8>, offset: int, word: u32)
    requires
        0 <= offset,
        offset + 4 <= bytes.len(),
        bytes.subrange(offset, offset + 4) == word_bytes(word),
    ensures
        word_at(bytes, offset) == word,
{
    let window = bytes.subrange(offset, offset + 4);
    assert(bytes[offset] == window[0]);
    assert(bytes[offset + 1] == window[1]);
    assert(bytes[offset + 2] == window[2]);
    assert(bytes[offset + 3] == window[3]);
    let w = word as int;
    assert(w == w % 256 + 256 * (w / 256 % 256) + 65536 * (w / 65536 % 256) + 16777216 * (w
        / 16777216));
}

/// The `k`-th field of a record read from a buffer is the word whose bytes
/// lie at the `k`-th place of the record's 56 bytes.
proof fn lemma_field_roundtrip(bytes: Seq<u8>, offset: int, k: int, word: u32)
    requires
        0 <= offset,
        offset + 56 <= bytes.len(),
        0 <= k < 14,
        bytes.subrange(offset, offset + 56).subrange(4 * k, 4 * k + 4) == word_bytes(word),
    ensures
        word_at(bytes, offset + 4 * k) == word,
{
    assert(bytes.subrange(offset + 4 * k, offset + 4 * k + 4) =~= bytes.subrange(
        offset,
        offset + 56,
    ).subrange(4 * k, 4 * k + 4));
    lemma_word_roundtrip(bytes, offset + 4 * k, word);
}

/// A record spans exactly 56 bytes.
pub proof fn lemma_record_bytes_len(record: LogData)
    ensures
        record_bytes(record).len() == 56,
{
}

/// A record read back from its own 56 bytes is the record itself, bit for
/// bit, wherever in a buffer those bytes lie.
pub proof fn lemma_record_roundtrip(bytes: Seq<u8>, offset: int, record: LogData)
    requires
        0 <= offset,
        offset + 56 <= bytes.len(),
        bytes.subrange(offset, offset + 56) == record_bytes(record),
    ensures
        record_at(bytes, offset) == record,
{
    let image = record_bytes(record);
    assert(image.subrange(0, 4) =~= word_bytes(record.loop_iteration));
    lemma_field_roundtrip(bytes, offset, 0, record.loop_iteration);
    assert(image.subrange(4, 8) =~= word_bytes(record.time));
    lemma_field_roundtrip(bytes, offset, 1, record.time);
    assert(image.subrange(8, 12) =~= word_bytes(record.p_roll));
    lemma_field_roundtrip(bytes, offset, 2, record.p_roll);
    assert(image.subrange(12, 16) =~= word_bytes(record.i_roll));
    lemma_field_roundtrip(bytes, offset, 3, record.i_roll);
    assert(image.subrange(16, 20) =~= word_bytes(record.d_roll));
    lemma_field_roundtrip(bytes, offset, 4, record.d_roll);
    assert(image.subrange(20, 24) =~= word_bytes(record.ff_roll));
    lemma_field_roundtrip(bytes, offset, 5, record.ff_roll);
    assert(image.subrange(24, 28) =~= word_bytes(record.p_pitch));
    lemma_field_roundtrip(bytes, offset, 6, record.p_pitch);
    assert(image.subrange(28, 32) =~= word_bytes(record.i_pitch));
    lemma_field_roundtrip(bytes, offset, 7, record.i_pitch);
    assert(image.subrange(32, 36) =~= word_bytes(record.d_pitch));
    lemma_field_roundtrip(bytes, offset, 8, record.d_pitch);
    assert(image.subrange(36, 40) =~= word_bytes(record.ff_pitch));
    lemma_field_roundtrip(bytes, offset, 9, record.ff_pitch);
    assert(image.subrange(40, 44) =~= word_bytes(record.p_yaw));
    lemma_field_roundtrip(bytes, offset, 10, record.p_yaw);
    assert(image.subrange(44, 48) =~= word_bytes(record.i_yaw));
    lemma_field_roundtrip(bytes, offset, 11, record.i_yaw);
    assert(image.subrange(48, 52) =~= word_bytes(record.d_yaw));
    lemma_field_roundtrip(bytes, offset, 12, record.d_yaw);
    assert(image.subrange(52, 56) =~= word_bytes(record.ff_yaw));
    lemma_field_roundtrip(bytes, offset, 13, record.ff_yaw);
}

/// A log of `n` records spans exactly `56 * n` bytes, and its `i`-th run of
/// 56 bytes stores its `i`-th record.
pub proof fn lemma_log_bytes_layout(records: Seq<LogData>)
    ensures
        log_bytes(records).len() == 56 * records.len(),
        forall|i: int|
            0 <= i < records.len() ==> #[trigger] log_bytes(records).subrange(56 * i, 56 * i + 56)
                == record_bytes(records[i]),
    decreases records.len(),
{
    if records.len() > 0 {
        let front = records.drop_last();
        lemma_log_bytes_layout(front);
        lemma_record_bytes_len(records.last());
        assert forall|i: int| 0 <= i < records.len() implies #[trigger] log_bytes(
            records,
        ).subrange(56 * i, 56 * i + 56) == record_bytes(records[i]) by {
            if i < front.len() {
                assert(log_bytes(records).subrange(56 * i, 56 * i + 56) =~= log_bytes(
                    front,
                ).subrange(56 * i, 56 * i + 56));
                assert(front[i] == records[i]);
            } else {
                assert(log_bytes(records).subrange(56 * i, 56 * i + 56) =~= record_bytes(
                    records.last(),
                ));
            }
        }
    }
}

/// A field depends on nothing but its own four bytes.
proof fn lemma_field_window(a: Seq<u8>, at: int, b: Seq<u8>, bt: int, k: int)
    requires
        0 <= at,
        at + 56 <= a.len(),
        0 <= bt,
        bt + 56 <= b.len(),
        0 <= k < 14,
        a.subrange(at, at + 56) == b.subrange(bt, bt + 56),
    ensures
        word_at(a, at + 4 * k) == word_at(b, bt + 4 * k),
{
    let wa = a.subrange(at, at + 56);
    let wb = b.subrange(bt, bt + 56);
    assert(wa[4 * k] == a[at + 4 * k] && wb[4 * k] == b[bt + 4 * k]);
    assert(wa[4 * k + 1] == a[at + 4 * k + 1] && wb[4 * k + 1] == b[bt + 4 * k + 1]);
    assert(wa[4 * k + 2] == a[at + 4 * k + 2] && wb[4 * k + 2] == b[bt + 4 * k + 2]);
    assert(wa[4 * k + 3] == a[at + 4 * k + 3] && wb[4 * k + 3] == b[bt + 4 * k + 3]);
}

/// A record depends on nothing but its own 56 bytes.
pub proof fn lemma_record_at_window(a: Seq<u8>, at: int, b: Seq<u8>, bt: int)
    requires
        0 <= at,
        at + 56 <= a.len(),
        0 <= bt,
        bt + 56 <= b.len(),
        a.subrange(at, at + 56) == b.subrange(bt, bt + 56),
    ensures
        record_at(a, at) == record_at(b, bt),
{
    lemma_field_window(a, at, b, bt, 0);
    lemma_field_window(a, at, b, bt, 1);
    lemma_field_window(a, at, b, bt, 2);
    lemma_field_window(a, at, b, bt, 3);
    lemma_field_window(a, at, b, bt, 4);
    lemma_field_window(a, at, b, bt, 5);
    lemma_field_window(a, at, b, bt, 6);
    lemma_field_window(a, at, b, bt, 7);
    lemma_field_window(a, at, b, bt, 8);
    lemma_field_window(a, at, b, bt, 9);
    lemma_field_window(a, at, b, bt, 10);
    lemma_field_window(a, at, b, bt, 11);
    lemma_field_window(a, at, b, bt, 12);
    lemma_field_window(a, at, b, bt, 13);
}

/// Decoding yields one record for every whole run of 56 bytes, in file
/// order: `floor(len / 56)` records, none for an empty input. The bytes
/// after the last whole record change nothing.
pub proof fn lemma_decoded_ignores_partial_record(bytes: Seq<u8>)
    ensures
        decoded(bytes).len() == bytes.len() / 56,
        bytes.len() == 0 ==> decoded(bytes) == Seq::<LogData>::empty(),
        decoded(bytes) == decoded(bytes.take(56 * (bytes.len() as int / 56))),
{
    let whole = 56 * (bytes.len() as int / 56);
    let kept = bytes.take(whole);
    assert(kept.len() / 56 == bytes.len() / 56);
    assert forall|i: int| 0 <= i < bytes.len() / 56 implies #[trigger] decoded(kept)[i] == decoded(
        bytes,
    )[i] by {
        assert(56 * i + 56 <= whole);
        assert(record_at(kept, 56 * i) == record_at(bytes, 56 * i));
    }
    assert(decoded(bytes) =~= decoded(kept));
    if bytes.len() == 0 {
        assert(decoded(bytes) =~= Seq::<LogData>::empty());
    }
}

/// Decoding a log whose first part is a whole number of records decodes
/// that part and the rest independently and joins the results in order.
pub proof fn lemma_decoded_concat(head: Seq<u8>, rest: Seq<u8>)
    requires
        head.len() % 56 == 0,
    ensures
        decoded(head + rest) == decoded(head) + decoded(rest),
{
    let all = head + rest;
    let n = head.len() as int / 56;
    assert(head.len() == 56 * n);
    assert(all.len() / 56 == n + rest.len() / 56);
    assert forall|i: int| 0 <= i < all.len() / 56 implies decoded(all)[i] == (decoded(head)
        + decoded(rest))[i] by {
        if i < n {
            assert(56 * i + 56 <= head.len());
            assert(record_at(all, 56 * i) == record_at(head, 56 * i));
        } else {
            let j = i - n;
            assert(56 * j + 56 <= rest.len());
            assert(all.subrange(56 * i, 56 * i + 56) =~= rest.subrange(56 * j, 56 * j + 56));
            lemma_record_at_window(all, 56 * i, rest, 56 * j);
            assert(record_at(all, 56 * i) == record_at(rest, 56 * j));
        }
    }
    assert(decoded(all) =~= decoded(head) + decoded(rest));
}

/// Decoding inverts encoding: the log that stores `records`, followed by
/// any fragment too short to be a record, decodes to exactly `records`.
pub proof fn lemma_decoded_log_bytes(records: Seq<LogData>, fragment: Seq<u8>)
    requires
        fragment.len() < 56,
    ensures
        decoded(log_bytes(records) + fragment) == records,
{
    let image = log_bytes(records);
    let all = image + fragment;
    lemma_log_bytes_layout(records);
    assert(all.len() / 56 == records.len());
    assert forall|i: int| 0 <= i < records.len() implies #[trigger] decoded(all)[i] == records[i] by {
        assert(all.subrange(56 * i, 56 * i + 56) =~= image.subrange(56 * i, 56 * i + 56));
        lemma_record_roundtrip(all, 56 * i, records[i]);
    }
    assert(decoded(all) =~= records);
}

} // verus!
