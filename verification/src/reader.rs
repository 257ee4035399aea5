//! Sequential decoding from the channel buffer: the exact mirror of the
//! writer.
//!
//! Each operation aligns the cursor to the element width, loads the
//! little-endian bytes there, and advances past them, so a reader that
//! issues the same sequence of operations as the writer did — same widths,
//! same order, same counts for unprefixed runs — lands on the same offsets
//! and recovers the same values. Runs are returned as owned vectors, a copy
//! of the span read. Floating-point elements come back as their IEEE-754
//! bit patterns (`u32` and `u64`).

use vstd::bytes::{
    spec_u32_from_le_bytes, spec_u64_from_le_bytes, u32_from_le_bytes, u64_from_le_bytes,
};
use vstd::prelude::*;

use crate::align::lemma_align_up;
use crate::channel::Channel;
use crate::model::{advance_run, read_run_data, run_fits, ChannelModel};
use crate::wire::{
    le_bytes_of_i32s, le_bytes_of_u32s, le_bytes_of_u64s, le_to_i32s, le_to_u32s, le_to_u64s,
    spec_i32_from_le_bytes,
};

verus! {

/// The count a length-prefixed array read at state `m` will see: the 32-bit
/// word at the next 4-byte boundary.
pub open spec fn array_count(m: ChannelModel) -> u32 {
    spec_u32_from_le_bytes(read_run_data(m, 4, 4))
}

/// Decodes values sequentially from a fixed-capacity buffer.
pub struct Reader {
    ch: Channel,
}

impl View for Reader {
    type V = ChannelModel;

    closed spec fn view(&self) -> ChannelModel {
        self.ch@
    }
}

impl Reader {
    /// Opens a reader over `storage` with the cursor at the start.
    pub fn from(storage: Vec<u8>) -> (r: Self)
        ensures
            r@.bytes == storage@,
            r@.cursor == 0,
            r@.wf(),
    {
        Reader { ch: Channel::from(storage) }
    }

    /// Rewinds the cursor to the start of the buffer.
    pub fn reset(&mut self)
        ensures
            final(self)@.bytes == old(self)@.bytes,
            final(self)@.cursor == 0,
            final(self)@.wf(),
    {
        self.ch.reset();
    }

    /// The buffer contents.
    pub fn buffer(&self) -> (r: &Vec<u8>)
        ensures
            r@ == self@.bytes,
    {
        self.ch.buffer()
    }

    /// Ends the decode pass and gives the buffer back.
    pub fn into_buffer(self) -> (r: Vec<u8>)
        ensures
            r@ == self@.bytes,
    {
        self.ch.into_buffer()
    }


    /// Whether a run of `count` elements of `width` bytes each still fits
    /// within capacity at the next aligned offset. Checking this before an
    /// operation is the caller's guard against the fatal overflow path.
    pub fn fits(&self, width: usize, count: usize) -> (r: bool)
        requires
            self@.wf(),
            crate::align::valid_width(width as int),
        ensures
            r == run_fits(self@, width as int, width * count as int),
    {
        self.ch.fits(width, count)
    }

    /// Aligns to `width` and copies the next `len` bytes out as one run.
    fn take_run(&mut self, width: usize, len: usize) -> (r: Vec<u8>)
        requires
            old(self)@.wf(),
            crate::align::valid_width(width as int),
            run_fits(old(self)@, width as int, len as int),
        ensures
            final(self)@ == advance_run(old(self)@, width as int, len as int),
            r@ == read_run_data(old(self)@, width as int, len as int),
            final(self)@.wf(),
    {
        proof {
            lemma_align_up(old(self)@.cursor as int, width as int);
        }
        self.ch.align_to(width);
        self.ch.take_bytes(len)
    }

    /// Reads one byte at the cursor.
    pub fn read_u8(&mut self) -> (r: u8)
        requires
            old(self)@.wf(),
            run_fits(old(self)@, 1, 1),
        ensures
            final(self)@ == advance_run(old(self)@, 1, 1),
            r == read_run_data(old(self)@, 1, 1)[0],
            final(self)@.wf(),
    {
        let data = self.take_run(1, 1);
        data[0]
    }

    /// Reads the 32-bit word at the next 4-byte boundary.
    pub fn read_u32(&mut self) -> (r: u32)
        requires
            old(self)@.wf(),
            run_fits(old(self)@, 4, 4),
        ensures
            final(self)@ == advance_run(old(self)@, 4, 4),
            r == spec_u32_from_le_bytes(read_run_data(old(self)@, 4, 4)),
            final(self)@.wf(),
    {
        let data = self.take_run(4, 4);
        u32_from_le_bytes(data.as_slice())
    }

    /// Reads the 32-bit signed value at the next 4-byte boundary, decoding
    /// its two's-complement bit pattern.
    pub fn read_i32(&mut self) -> (r: i32)
        requires
            old(self)@.wf(),
            run_fits(old(self)@, 4, 4),
        ensures
            final(self)@ == advance_run(old(self)@, 4, 4),
            r == spec_i32_from_le_bytes(read_run_data(old(self)@, 4, 4)),
            final(self)@.wf(),
    {
        let data = self.take_run(4, 4);
        let w = u32_from_le_bytes(data.as_slice());
        #[verifier::truncate] (w as i32)
    }

    /// Reads the 32-bit float bit pattern at the next 4-byte boundary.
    pub fn read_f32_bits(&mut self) -> (r: u32)
        requires
            old(self)@.wf(),
            run_fits(old(self)@, 4, 4),
        ensures
            final(self)@ == advance_run(old(self)@, 4, 4),
            r == spec_u32_from_le_bytes(read_run_data(old(self)@, 4, 4)),
            final(self)@.wf(),
    {
        let data = self.take_run(4, 4);
        u32_from_le_bytes(data.as_slice())
    }

    /// Reads the 64-bit float bit pattern at the next 8-byte boundary.
    pub fn read_f64_bits(&mut self) -> (r: u64)
        requires
            old(self)@.wf(),
            run_fits(old(self)@, 8, 8),
        ensures
            final(self)@ == advance_run(old(self)@, 8, 8),
            r == spec_u64_from_le_bytes(read_run_data(old(self)@, 8, 8)),
            final(self)@.wf(),
    {
        let data = self.take_run(8, 8);
        u64_from_le_bytes(data.as_slice())
    }

    /// Reads a run of `length` bytes with no length prefix; the count must
    /// match what the writer used.
    pub fn read_elements_u8(&mut self, length: u32) -> (r: Vec<u8>)
        requires
            old(self)@.wf(),
            run_fits(old(self)@, 1, length as int),
        ensures
            final(self)@ == advance_run(old(self)@, 1, length as int),
            r@ == read_run_data(old(self)@, 1, length as int),
            final(self)@.wf(),
    {
        let _cap = self.ch.capacity();
        proof {
            lemma_align_up(old(self)@.cursor as int, 1);
        }
        self.take_run(1, length as usize)
    }

    /// Reads a run of `length` 32-bit words with no length prefix.
    pub fn read_elements_u32(&mut self, length: u32) -> (r: Vec<u32>)
        requires
            old(self)@.wf(),
            run_fits(old(self)@, 4, 4 * length as int),
        ensures
            final(self)@ == advance_run(old(self)@, 4, 4 * length as int),
            r@.len() == length,
            le_bytes_of_u32s(r@) == read_run_data(old(self)@, 4, 4 * length as int),
            forall|i: int|
                0 <= i < length ==> r@[i] == spec_u32_from_le_bytes(
                    read_run_data(old(self)@, 4, 4 * length as int).subrange(4 * i, 4 * i + 4),
                ),
            final(self)@.wf(),
    {
        let _cap = self.ch.capacity();
        proof {
            lemma_align_up(old(self)@.cursor as int, 4);
        }
        let data = self.take_run(4, 4 * (length as usize));
        le_to_u32s(data.as_slice(), length as usize)
    }

    /// Reads a run of `length` 32-bit signed values with no length prefix.
    pub fn read_elements_i32(&mut self, length: u32) -> (r: Vec<i32>)
        requires
            old(self)@.wf(),
            run_fits(old(self)@, 4, 4 * length as int),
        ensures
            final(self)@ == advance_run(old(self)@, 4, 4 * length as int),
            r@.len() == length,
            le_bytes_of_i32s(r@) == read_run_data(old(self)@, 4, 4 * length as int),
            forall|i: int|
                0 <= i < length ==> r@[i] == spec_i32_from_le_bytes(
                    read_run_data(old(self)@, 4, 4 * length as int).subrange(4 * i, 4 * i + 4),
                ),
            final(self)@.wf(),
    {
        let _cap = self.ch.capacity();
        proof {
            lemma_align_up(old(self)@.cursor as int, 4);
        }
        let data = self.take_run(4, 4 * (length as usize));
        le_to_i32s(data.as_slice(), length as usize)
    }

    /// Reads a run of `length` 32-bit float bit patterns with no length
    /// prefix.
    pub fn read_elements_f32_bits(&mut self, length: u32) -> (r: Vec<u32>)
        requires
            old(self)@.wf(),
            run_fits(old(self)@, 4, 4 * length as int),
        ensures
            final(self)@ == advance_run(old(self)@, 4, 4 * length as int),
            r@.len() == length,
            le_bytes_of_u32s(r@) == read_run_data(old(self)@, 4, 4 * length as int),
            forall|i: int|
                0 <= i < length ==> r@[i] == spec_u32_from_le_bytes(
                    read_run_data(old(self)@, 4, 4 * length as int).subrange(4 * i, 4 * i + 4),
                ),
            final(self)@.wf(),
    {
        let _cap = self.ch.capacity();
        proof {
            lemma_align_up(old(self)@.cursor as int, 4);
        }
        let data = self.take_run(4, 4 * (length as usize));
        le_to_u32s(data.as_slice(), length as usize)
    }

    /// Reads a run of `length` 64-bit float bit patterns with no length
    /// prefix.
    pub fn read_elements_f64_bits(&mut self, length: u32) -> (r: Vec<u64>)
        requires
            old(self)@.wf(),
            run_fits(old(self)@, 8, 8 * length as int),
        ensures
            final(self)@ == advance_run(old(self)@, 8, 8 * length as int),
            r@.len() == length,
            le_bytes_of_u64s(r@) == read_run_data(old(self)@, 8, 8 * length as int),
            forall|i: int|
                0 <= i < length ==> r@[i] == spec_u64_from_le_bytes(
                    read_run_data(old(self)@, 8, 8 * length as int).subrange(8 * i, 8 * i + 8),
                ),
            final(self)@.wf(),
    {
        let _cap = self.ch.capacity();
        proof {
            lemma_align_up(old(self)@.cursor as int, 8);
        }
        let data = self.take_run(8, 8 * (length as usize));
        le_to_u64s(data.as_slice(), length as usize)
    }

    /// Reads a 32-bit count, then that many bytes as one run.
    pub fn read_array_u8(&mut self) -> (r: Vec<u8>)
        requires
            old(self)@.wf(),
            run_fits(old(self)@, 4, 4),
            run_fits(advance_run(old(self)@, 4, 4), 1, array_count(old(self)@) as int),
        ensures
            final(self)@ == advance_run(
                advance_run(old(self)@, 4, 4),
                1,
                array_count(old(self)@) as int,
            ),
            r@ == read_run_data(
                advance_run(old(self)@, 4, 4),
                1,
                array_count(old(self)@) as int,
            ),
            final(self)@.wf(),
    {
        let count = self.read_u32();
        self.read_elements_u8(count)
    }

    /// Reads a 32-bit count, then that many 32-bit words as one run.
    pub fn read_array_u32(&mut self) -> (r: Vec<u32>)
        requires
            old(self)@.wf(),
            run_fits(old(self)@, 4, 4),
            run_fits(advance_run(old(self)@, 4, 4), 4, 4 * array_count(old(self)@) as int),
        ensures
            final(self)@ == advance_run(
                advance_run(old(self)@, 4, 4),
                4,
                4 * array_count(old(self)@) as int,
            ),
            r@.len() == array_count(old(self)@),
            le_bytes_of_u32s(r@) == read_run_data(
                advance_run(old(self)@, 4, 4),
                4,
                4 * array_count(old(self)@) as int,
            ),
            final(self)@.wf(),
    {
        let count = self.read_u32();
        self.read_elements_u32(count)
    }

    /// Reads a 32-bit count, then that many 32-bit signed values as one
    /// run.
    pub fn read_array_i32(&mut self) -> (r: Vec<i32>)
        requires
            old(self)@.wf(),
            run_fits(old(self)@, 4, 4),
            run_fits(advance_run(old(self)@, 4, 4), 4, 4 * array_count(old(self)@) as int),
        ensures
            final(self)@ == advance_run(
                advance_run(old(self)@, 4, 4),
                4,
                4 * array_count(old(self)@) as int,
            ),
            r@.len() == array_count(old(self)@),
            le_bytes_of_i32s(r@) == read_run_data(
                advance_run(old(self)@, 4, 4),
                4,
                4 * array_count(old(self)@) as int,
            ),
            final(self)@.wf(),
    {
        let count = self.read_u32();
        self.read_elements_i32(count)
    }

    /// Reads a 32-bit count, then that many 32-bit float bit patterns as
    /// one run.
    pub fn read_array_f32_bits(&mut self) -> (r: Vec<u32>)
        requires
            old(self)@.wf(),
            run_fits(old(self)@, 4, 4),
            run_fits(advance_run(old(self)@, 4, 4), 4, 4 * array_count(old(self)@) as int),
        ensures
            final(self)@ == advance_run(
                advance_run(old(self)@, 4, 4),
                4,
                4 * array_count(old(self)@) as int,
            ),
            r@.len() == array_count(old(self)@),
            le_bytes_of_u32s(r@) == read_run_data(
                advance_run(old(self)@, 4, 4),
                4,
                4 * array_count(old(self)@) as int,
            ),
            final(self)@.wf(),
    {
        let count = self.read_u32();
        self.read_elements_f32_bits(count)
    }

    /// Reads a 32-bit count, then that many 64-bit float bit patterns as
    /// one run.
    pub fn read_array_f64_bits(&mut self) -> (r: Vec<u64>)
        requires
            old(self)@.wf(),
            run_fits(old(self)@, 4, 4),
            run_fits(advance_run(old(self)@, 4, 4), 8, 8 * array_count(old(self)@) as int),
        ensures
            final(self)@ == advance_run(
                advance_run(old(self)@, 4, 4),
                8,
                8 * array_count(old(self)@) as int,
            ),
            r@.len() == array_count(old(self)@),
            le_bytes_of_u64s(r@) == read_run_data(
                advance_run(old(self)@, 4, 4),
                8,
                8 * array_count(old(self)@) as int,
            ),
            final(self)@.wf(),
    {
        let count = self.read_u32();
        self.read_elements_f64_bits(count)
    }
}

} // verus!
