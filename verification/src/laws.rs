//! The laws of the channel protocol, proved over the model.
//!
//! A whole encode pass is a sequence of aligned write runs. The theorems
//! here state what the protocol promises of any such sequence: a reader
//! that mirrors it recovers every run byte-for-byte and ends where the
//! writer ended; every run lands on an offset aligned to its width and the
//! padding it skips is never touched; and replaying the same sequence after
//! a reset reproduces the buffer byte-identically.

use vstd::prelude::*;

use vstd::bytes::{
    spec_u32_from_le_bytes, spec_u32_to_le_bytes, spec_u64_from_le_bytes, spec_u64_to_le_bytes,
};

use crate::align::valid_width;
use crate::model::{
    advance_run, lemma_write_run_frame, read_run_data, run_fits, write_run, ChannelModel,
};
use crate::reader::array_count;
use crate::wire::{
    le_bytes_of_i32s, le_bytes_of_u32s, le_bytes_of_u64s, lemma_le_bytes_of_i32s_index,
    lemma_le_bytes_of_i32s_injective, lemma_le_bytes_of_u32s_index,
    lemma_le_bytes_of_u32s_injective, lemma_le_bytes_of_u64s_index,
    lemma_le_bytes_of_u64s_injective, spec_i32_from_le_bytes, spec_i32_to_le_bytes,
};

verus! {

/// One aligned write: a run of bytes at a supported width.
pub ghost struct WriteRun {
    pub width: int,
    pub data: Seq<u8>,
}

/// Every run in the sequence uses a supported width.
pub open spec fn runs_wf(runs: Seq<WriteRun>) -> bool {
    forall|i: int| 0 <= i < runs.len() ==> valid_width(#[trigger] runs[i].width)
}

/// The state after applying the whole write sequence, first run first.
pub open spec fn apply_runs(m: ChannelModel, runs: Seq<WriteRun>) -> ChannelModel
    decreases runs.len(),
{
    if runs.len() == 0 {
        m
    } else {
        apply_runs(write_run(m, runs[0].width, runs[0].data), runs.skip(1))
    }
}

/// Whether every run of the sequence fits within capacity as it is applied.
pub open spec fn runs_fit(m: ChannelModel, runs: Seq<WriteRun>) -> bool
    decreases runs.len(),
{
    runs.len() == 0 || (run_fits(m, runs[0].width, runs[0].data.len() as int) && runs_fit(
        write_run(m, runs[0].width, runs[0].data),
        runs.skip(1),
    ))
}

/// The byte runs a reader gets when it mirrors the sequence from state `m`:
/// same widths, same lengths, same order.
pub open spec fn read_back(m: ChannelModel, runs: Seq<WriteRun>) -> Seq<Seq<u8>>
    decreases runs.len(),
{
    if runs.len() == 0 {
        Seq::empty()
    } else {
        seq![read_run_data(m, runs[0].width, runs[0].data.len() as int)] + read_back(
            advance_run(m, runs[0].width, runs[0].data.len() as int),
            runs.skip(1),
        )
    }
}

/// The reader's state after mirroring the whole sequence from state `m`.
pub open spec fn read_end(m: ChannelModel, runs: Seq<WriteRun>) -> ChannelModel
    decreases runs.len(),
{
    if runs.len() == 0 {
        m
    } else {
        read_end(advance_run(m, runs[0].width, runs[0].data.len() as int), runs.skip(1))
    }
}

/// A write sequence stays within capacity, never rewinds the cursor, and
/// touches no byte outside the span between its starting cursor and its
/// final cursor.
pub proof fn lemma_apply_runs_frame(m: ChannelModel, runs: Seq<WriteRun>)
    requires
        m.wf(),
        runs_wf(runs),
        runs_fit(m, runs),
    ensures
        apply_runs(m, runs).wf(),
        apply_runs(m, runs).bytes.len() == m.bytes.len(),
        apply_runs(m, runs).cursor >= m.cursor,
        forall|j: int|
            0 <= j < m.bytes.len() && !(m.cursor <= j < apply_runs(m, runs).cursor)
                ==> apply_runs(m, runs).bytes[j] == m.bytes[j],
    decreases runs.len(),
{
    if runs.len() > 0 {
        let w0 = runs[0].width;
        let d0 = runs[0].data;
        let m1 = write_run(m, w0, d0);
        lemma_write_run_frame(m, w0, d0);
        assert(runs_wf(runs.skip(1))) by {
            assert(forall|i: int|
                0 <= i < runs.skip(1).len() ==> runs.skip(1)[i] == runs[i + 1]);
        }
        lemma_apply_runs_frame(m1, runs.skip(1));
    }
}

/// Mirror law: a reader that starts where the writer started, over the
/// bytes the whole sequence produced, and issues the same runs, reads back
/// every run's data byte-for-byte and ends exactly where the writer ended.
pub proof fn lemma_mirror(m: ChannelModel, runs: Seq<WriteRun>)
    requires
        m.wf(),
        runs_wf(runs),
        runs_fit(m, runs),
    ensures
        ({
            let w = apply_runs(m, runs);
            let r0 = ChannelModel { bytes: w.bytes, cursor: m.cursor };
            &&& read_back(r0, runs).len() == runs.len()
            &&& forall|i: int|
                0 <= i < runs.len() ==> #[trigger] read_back(r0, runs)[i] == runs[i].data
            &&& read_end(r0, runs) == w
        }),
    decreases runs.len(),
{
    if runs.len() > 0 {
        let w0 = runs[0].width;
        let d0 = runs[0].data;
        let m1 = write_run(m, w0, d0);
        let w = apply_runs(m, runs);
        let r0 = ChannelModel { bytes: w.bytes, cursor: m.cursor };
        lemma_write_run_frame(m, w0, d0);
        assert(runs_wf(runs.skip(1))) by {
            assert(forall|i: int|
                0 <= i < runs.skip(1).len() ==> runs.skip(1)[i] == runs[i + 1]);
        }
        lemma_apply_runs_frame(m1, runs.skip(1));
        let pos = m.pos_for(w0);
        assert(read_run_data(r0, w0, d0.len() as int) =~= d0) by {
            assert(forall|j: int|
                0 <= j < d0.len() ==> m1.bytes[pos + j] == #[trigger] d0[j]);
            assert(forall|j: int|
                0 <= j < d0.len() ==> #[trigger] w.bytes[pos + j] == m1.bytes[pos + j]);
        }
        lemma_mirror(m1, runs.skip(1));
        let r1 = advance_run(r0, w0, d0.len() as int);
        assert(r1 == ChannelModel { bytes: w.bytes, cursor: m1.cursor });
        assert(apply_runs(m1, runs.skip(1)) == w);
        assert forall|i: int| 0 <= i < runs.len() implies #[trigger] read_back(r0, runs)[i]
            == runs[i].data by {
            if i > 0 {
                assert(read_back(r0, runs)[i] == read_back(r1, runs.skip(1))[i - 1]);
                assert(runs.skip(1)[i - 1] == runs[i]);
            }
        }
    }
}

/// Splitting a write sequence at `k` changes nothing: the first `k` runs
/// fit on their own, the rest fit from where they leave off, and applying
/// the two halves in turn is applying the whole.
pub proof fn lemma_runs_split(m: ChannelModel, runs: Seq<WriteRun>, k: int)
    requires
        m.wf(),
        runs_wf(runs),
        runs_fit(m, runs),
        0 <= k <= runs.len(),
    ensures
        runs_wf(runs.take(k)),
        runs_wf(runs.skip(k)),
        runs_fit(m, runs.take(k)),
        apply_runs(m, runs) == apply_runs(apply_runs(m, runs.take(k)), runs.skip(k)),
        runs_fit(apply_runs(m, runs.take(k)), runs.skip(k)),
    decreases k,
{
    assert(forall|j: int|
        0 <= j < runs.take(k).len() ==> #[trigger] runs.take(k)[j] == runs[j]);
    assert(forall|j: int|
        0 <= j < runs.skip(k).len() ==> #[trigger] runs.skip(k)[j] == runs[j + k]);
    if k == 0 {
        assert(runs.take(0) =~= Seq::<WriteRun>::empty());
        assert(runs.skip(0) =~= runs);
    } else {
        let m1 = write_run(m, runs[0].width, runs[0].data);
        lemma_write_run_frame(m, runs[0].width, runs[0].data);
        assert(runs_wf(runs.skip(1))) by {
            assert(forall|j: int|
                0 <= j < runs.skip(1).len() ==> #[trigger] runs.skip(1)[j] == runs[j + 1]);
        }
        lemma_runs_split(m1, runs.skip(1), k - 1);
        assert(runs.take(k)[0] == runs[0]);
        assert(runs.take(k).skip(1) =~= runs.skip(1).take(k - 1));
        assert(runs.skip(1).skip(k - 1) =~= runs.skip(k));
    }
}

/// Alignment invariant: each run of the sequence lands on a byte offset
/// that is a multiple of its own width, and the padding bytes it skips over
/// keep the contents they had before the whole sequence ran — they are
/// never written as data.
pub proof fn lemma_alignment_invariant(m: ChannelModel, runs: Seq<WriteRun>, i: int)
    requires
        m.wf(),
        runs_wf(runs),
        runs_fit(m, runs),
        0 <= i < runs.len(),
    ensures
        ({
            let before = apply_runs(m, runs.take(i));
            let pos = before.pos_for(runs[i].width);
            &&& pos % runs[i].width == 0
            &&& forall|j: int|
                before.cursor <= j < pos ==> #[trigger] apply_runs(m, runs).bytes[j]
                    == m.bytes[j]
        }),
{
    lemma_runs_split(m, runs, i);
    let before = apply_runs(m, runs.take(i));
    let rest = runs.skip(i);
    assert(rest[0] == runs[i]);
    let wi = runs[i].width;
    let di = runs[i].data;
    let pos = before.pos_for(wi);
    lemma_apply_runs_frame(m, runs.take(i));
    lemma_write_run_frame(before, wi, di);
    let ci = write_run(before, wi, di);
    assert(runs_wf(rest.skip(1))) by {
        assert(forall|j: int|
            0 <= j < rest.skip(1).len() ==> #[trigger] rest.skip(1)[j] == rest[j + 1]);
    }
    lemma_apply_runs_frame(ci, rest.skip(1));
    assert forall|j: int| before.cursor <= j < pos implies #[trigger] apply_runs(
        m,
        runs,
    ).bytes[j] == m.bytes[j] by {
        assert(apply_runs(m, runs) == apply_runs(ci, rest.skip(1)));
        assert(j < ci.cursor);
        assert(apply_runs(ci, rest.skip(1)).bytes[j] == ci.bytes[j]);
        assert(ci.bytes[j] == before.bytes[j]);
        assert(before.bytes[j] == m.bytes[j]);
    }
}

/// Reset/replay law: rewinding the cursor to where the sequence started
/// and applying the very same sequence again reproduces the buffer
/// byte-identically and ends at the same cursor.
pub proof fn lemma_reset_replay(m: ChannelModel, runs: Seq<WriteRun>)
    requires
        m.wf(),
        runs_wf(runs),
        runs_fit(m, runs),
    ensures
        ({
            let w = apply_runs(m, runs);
            let again = ChannelModel { bytes: w.bytes, cursor: m.cursor };
            &&& runs_fit(again, runs)
            &&& apply_runs(again, runs) == w
        }),
    decreases runs.len(),
{
    if runs.len() > 0 {
        let w0 = runs[0].width;
        let d0 = runs[0].data;
        let m1 = write_run(m, w0, d0);
        let w = apply_runs(m, runs);
        let again = ChannelModel { bytes: w.bytes, cursor: m.cursor };
        lemma_write_run_frame(m, w0, d0);
        assert(runs_wf(runs.skip(1))) by {
            assert(forall|k: int|
                0 <= k < runs.skip(1).len() ==> runs.skip(1)[k] == runs[k + 1]);
        }
        lemma_apply_runs_frame(m1, runs.skip(1));
        let pos = m.pos_for(w0);
        // The bytes of the finished pass already hold this run's data, so
        // rewriting it changes nothing.
        assert(write_run(again, w0, d0).bytes =~= w.bytes) by {
            assert(forall|j: int|
                0 <= j < d0.len() ==> w.bytes[pos + j] == #[trigger] d0[j]);
        }
        assert(write_run(again, w0, d0) == ChannelModel { bytes: w.bytes, cursor: m1.cursor });
        lemma_reset_replay(m1, runs.skip(1));
        assert(apply_runs(m1, runs.skip(1)) == w);
    }
}


/// Round trip for one byte: a reader standing where the writer stood, over
/// the bytes the write produced, reads the written value back and ends
/// where the writer ended.
pub proof fn lemma_round_trip_u8(m: ChannelModel, value: u8)
    requires
        m.wf(),
        run_fits(m, 1, 1),
    ensures
        ({
            let w = write_run(m, 1, seq![value]);
            let r = ChannelModel { bytes: w.bytes, cursor: m.cursor };
            &&& read_run_data(r, 1, 1)[0] == value
            &&& advance_run(r, 1, 1) == w
        }),
{
    lemma_write_run_frame(m, 1, seq![value]);
}

/// Round trip for a 32-bit word (an unsigned value or a 32-bit float's bit
/// pattern): reading where the writer wrote yields the value bit-for-bit.
pub proof fn lemma_round_trip_u32(m: ChannelModel, value: u32)
    requires
        m.wf(),
        run_fits(m, 4, 4),
    ensures
        ({
            let w = write_run(m, 4, spec_u32_to_le_bytes(value));
            let r = ChannelModel { bytes: w.bytes, cursor: m.cursor };
            &&& spec_u32_from_le_bytes(read_run_data(r, 4, 4)) == value
            &&& advance_run(r, 4, 4) == w
        }),
{
    vstd::bytes::lemma_auto_spec_u32_to_from_le_bytes();
    lemma_write_run_frame(m, 4, spec_u32_to_le_bytes(value));
}

/// Round trip for a 32-bit signed value, including the extreme negative
/// one: its two's-complement bit pattern decodes back to the same value.
pub proof fn lemma_round_trip_i32(m: ChannelModel, value: i32)
    requires
        m.wf(),
        run_fits(m, 4, 4),
    ensures
        ({
            let w = write_run(m, 4, spec_i32_to_le_bytes(value));
            let r = ChannelModel { bytes: w.bytes, cursor: m.cursor };
            &&& spec_i32_from_le_bytes(read_run_data(r, 4, 4)) == value
            &&& advance_run(r, 4, 4) == w
        }),
{
    crate::wire::lemma_i32_to_from_le_bytes(value);
    lemma_write_run_frame(m, 4, spec_i32_to_le_bytes(value));
}

/// Round trip for an 8-byte word (a 64-bit float's bit pattern): reading
/// where the writer wrote yields the bit pattern unchanged, NaN payloads
/// and signed zeroes included.
pub proof fn lemma_round_trip_u64(m: ChannelModel, value: u64)
    requires
        m.wf(),
        run_fits(m, 8, 8),
    ensures
        ({
            let w = write_run(m, 8, spec_u64_to_le_bytes(value));
            let r = ChannelModel { bytes: w.bytes, cursor: m.cursor };
            &&& spec_u64_from_le_bytes(read_run_data(r, 8, 8)) == value
            &&& advance_run(r, 8, 8) == w
        }),
{
    vstd::bytes::lemma_auto_spec_u64_to_from_le_bytes();
    lemma_write_run_frame(m, 8, spec_u64_to_le_bytes(value));
}

/// Array round trip, stated over the encoded run: after a length-prefixed
/// array write of `data` (one run of `width`-wide elements, the empty run
/// included), a reader standing where the writer stood sees the written
/// count, then exactly `data` as the element run, and ends where the
/// writer ended. With the encodings being injective, the element sequence
/// read back equals the one written.
pub proof fn lemma_round_trip_array(m: ChannelModel, count: u32, width: int, data: Seq<u8>)
    requires
        m.wf(),
        valid_width(width),
        data.len() == width * count,
        run_fits(m, 4, 4),
        run_fits(advance_run(m, 4, 4), width, data.len() as int),
    ensures
        ({
            let w = write_run(write_run(m, 4, spec_u32_to_le_bytes(count)), width, data);
            let r = ChannelModel { bytes: w.bytes, cursor: m.cursor };
            let r1 = advance_run(r, 4, 4);
            &&& array_count(r) == count
            &&& read_run_data(r1, width, data.len() as int) == data
            &&& advance_run(r1, width, data.len() as int) == w
        }),
{
    vstd::bytes::lemma_auto_spec_u32_to_from_le_bytes();
    let prefix = spec_u32_to_le_bytes(count);
    let m1 = write_run(m, 4, prefix);
    let w = write_run(m1, width, data);
    let r = ChannelModel { bytes: w.bytes, cursor: m.cursor };
    lemma_write_run_frame(m, 4, prefix);
    lemma_write_run_frame(m1, width, data);
    let pos0 = m.pos_for(4);
    assert(read_run_data(r, 4, 4) =~= prefix) by {
        assert(forall|j: int|
            0 <= j < 4 ==> m1.bytes[pos0 + j] == #[trigger] prefix[j]);
        assert(forall|j: int|
            0 <= j < 4 ==> #[trigger] w.bytes[pos0 + j] == m1.bytes[pos0 + j]);
    }
    let r1 = advance_run(r, 4, 4);
    assert(r1 == ChannelModel { bytes: w.bytes, cursor: m1.cursor });
    assert(read_run_data(r1, width, data.len() as int) =~= data);
}


/// Array round trip at the element level, for 32-bit words: whatever
/// element sequence decodes to the byte run that the mirror read of a
/// length-prefixed write of `arr` returns is `arr` itself, length and
/// elements alike. The empty sequence is included.
pub proof fn lemma_array_round_trip_u32(m: ChannelModel, arr: Seq<u32>, decoded: Seq<u32>)
    requires
        m.wf(),
        arr.len() <= u32::MAX,
        run_fits(m, 4, 4),
        run_fits(advance_run(m, 4, 4), 4, 4 * arr.len() as int),
        ({
            let w = write_run(
                write_run(m, 4, spec_u32_to_le_bytes(arr.len() as u32)),
                4,
                le_bytes_of_u32s(arr),
            );
            let r1 = advance_run(ChannelModel { bytes: w.bytes, cursor: m.cursor }, 4, 4);
            le_bytes_of_u32s(decoded) == read_run_data(r1, 4, 4 * arr.len() as int)
        }),
    ensures
        decoded == arr,
{
    lemma_le_bytes_of_u32s_index(arr);
    lemma_round_trip_array(m, arr.len() as u32, 4, le_bytes_of_u32s(arr));
    lemma_le_bytes_of_u32s_injective(decoded, arr);
}

/// Array round trip at the element level, for 32-bit signed values.
pub proof fn lemma_array_round_trip_i32(m: ChannelModel, arr: Seq<i32>, decoded: Seq<i32>)
    requires
        m.wf(),
        arr.len() <= u32::MAX,
        run_fits(m, 4, 4),
        run_fits(advance_run(m, 4, 4), 4, 4 * arr.len() as int),
        ({
            let w = write_run(
                write_run(m, 4, spec_u32_to_le_bytes(arr.len() as u32)),
                4,
                le_bytes_of_i32s(arr),
            );
            let r1 = advance_run(ChannelModel { bytes: w.bytes, cursor: m.cursor }, 4, 4);
            le_bytes_of_i32s(decoded) == read_run_data(r1, 4, 4 * arr.len() as int)
        }),
    ensures
        decoded == arr,
{
    lemma_le_bytes_of_i32s_index(arr);
    lemma_round_trip_array(m, arr.len() as u32, 4, le_bytes_of_i32s(arr));
    lemma_le_bytes_of_i32s_injective(decoded, arr);
}

/// Array round trip at the element level, for 8-byte words (64-bit float
/// bit patterns).
pub proof fn lemma_array_round_trip_u64(m: ChannelModel, arr: Seq<u64>, decoded: Seq<u64>)
    requires
        m.wf(),
        arr.len() <= u32::MAX,
        run_fits(m, 4, 4),
        run_fits(advance_run(m, 4, 4), 8, 8 * arr.len() as int),
        ({
            let w = write_run(
                write_run(m, 4, spec_u32_to_le_bytes(arr.len() as u32)),
                8,
                le_bytes_of_u64s(arr),
            );
            let r1 = advance_run(ChannelModel { bytes: w.bytes, cursor: m.cursor }, 4, 4);
            le_bytes_of_u64s(decoded) == read_run_data(r1, 8, 8 * arr.len() as int)
        }),
    ensures
        decoded == arr,
{
    lemma_le_bytes_of_u64s_index(arr);
    lemma_round_trip_array(m, arr.len() as u32, 8, le_bytes_of_u64s(arr));
    lemma_le_bytes_of_u64s_injective(decoded, arr);
}

} // verus!
