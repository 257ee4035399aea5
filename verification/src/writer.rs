//! Sequential encoding of scalars and arrays into the channel buffer.
//!
//! Each operation aligns the cursor to the element width, stores the
//! little-endian bytes, and advances past them; its contract is the
//! corresponding [`crate::model`] transition. Floating-point values travel
//! as their IEEE-754 bit patterns (`u32` for 32-bit, `u64` for 64-bit
//! elements), so the bytes produced are exactly the native little-endian
//! image of the float. Reservation (`init_*`) operations advance the cursor
//! without writing and hand back the element index of the reserved span,
//! which a later `store_*` call fills in place.

use vstd::bytes::{spec_u32_to_le_bytes, spec_u64_to_le_bytes, u32_to_le_bytes, u64_to_le_bytes};
use vstd::prelude::*;

use crate::align::lemma_align_up;
use crate::channel::Channel;
use crate::model::{advance_run, run_fits, write_run, ChannelModel};
use crate::wire::{
    i32s_to_le, le_bytes_of_i32s, le_bytes_of_u32s, le_bytes_of_u64s, spec_i32_to_le_bytes,
    u32s_to_le, u64s_to_le,
};

verus! {

/// Encodes values sequentially into a fixed-capacity buffer.
pub struct Writer {
    ch: Channel,
}

impl View for Writer {
    type V = ChannelModel;

    closed spec fn view(&self) -> ChannelModel {
        self.ch@
    }
}

impl Writer {
    /// Opens a writer over `storage` with the cursor at the start.
    pub fn from(storage: Vec<u8>) -> (r: Self)
        ensures
            r@.bytes == storage@,
            r@.cursor == 0,
            r@.wf(),
    {
        Writer { ch: Channel::from(storage) }
    }

    /// Rewinds the cursor to the start so the buffer can be reused. The
    /// bytes keep their contents.
    pub fn reset(&mut self)
        ensures
            final(self)@.bytes == old(self)@.bytes,
            final(self)@.cursor == 0,
            final(self)@.wf(),
    {
        self.ch.reset();
    }

    /// The buffer contents written so far (the whole backing buffer).
    pub fn buffer(&self) -> (r: &Vec<u8>)
        ensures
            r@ == self@.bytes,
    {
        self.ch.buffer()
    }

    /// Ends the encode pass and gives the buffer back, ready to hand to a
    /// reader.
    pub fn into_buffer(self) -> (r: Vec<u8>)
        ensures
            r@ == self@.bytes,
    {
        self.ch.into_buffer()
    }


    /// Whether a run of `count` elements of `width` bytes each still fits
    /// within capacity at the next aligned offset. Checking this before an
    /// operation is the caller's guard against the fatal overflow path.
    pub fn fits(&self, width: usize, count: usize) -> (r: bool)
        requires
            self@.wf(),
            crate::align::valid_width(width as int),
        ensures
            r == run_fits(self@, width as int, width * count as int),
    {
        self.ch.fits(width, count)
    }

    /// Aligns to `width` and writes `data` as one run.
    fn put_run(&mut self, width: usize, data: &[u8])
        requires
            old(self)@.wf(),
            crate::align::valid_width(width as int),
            run_fits(old(self)@, width as int, data@.len() as int),
        ensures
            final(self)@ == write_run(old(self)@, width as int, data@),
            final(self)@.wf(),
    {
        proof {
            lemma_align_up(old(self)@.cursor as int, width as int);
        }
        self.ch.align_to(width);
        self.ch.push_bytes(data);
    }

    /// Writes one byte at the cursor.
    pub fn write_u8(&mut self, value: u8)
        requires
            old(self)@.wf(),
            run_fits(old(self)@, 1, 1),
        ensures
            final(self)@ == write_run(old(self)@, 1, seq![value]),
            final(self)@.wf(),
    {
        let mut data: Vec<u8> = Vec::new();
        data.push(value);
        proof {
            assert(data@ =~= seq![value]);
        }
        self.put_run(1, data.as_slice());
    }

    /// Writes a 32-bit word little-endian at the next 4-byte boundary.
    pub fn write_u32(&mut self, value: u32)
        requires
            old(self)@.wf(),
            run_fits(old(self)@, 4, 4),
        ensures
            final(self)@ == write_run(old(self)@, 4, spec_u32_to_le_bytes(value)),
            spec_u32_to_le_bytes(value).len() == 4,
            final(self)@.wf(),
    {
        proof {
            vstd::bytes::lemma_auto_spec_u32_to_from_le_bytes();
        }
        let data = u32_to_le_bytes(value);
        self.put_run(4, data.as_slice());
    }

    /// Writes a 32-bit signed value little-endian at the next 4-byte
    /// boundary, as its two's-complement bit pattern.
    pub fn write_i32(&mut self, value: i32)
        requires
            old(self)@.wf(),
            run_fits(old(self)@, 4, 4),
        ensures
            final(self)@ == write_run(old(self)@, 4, spec_i32_to_le_bytes(value)),
            spec_i32_to_le_bytes(value).len() == 4,
            final(self)@.wf(),
    {
        proof {
            crate::wire::lemma_i32_to_from_le_bytes(value);
        }
        let data = u32_to_le_bytes(#[verifier::truncate] (value as u32));
        self.put_run(4, data.as_slice());
    }

    /// Writes a 32-bit float's IEEE-754 bit pattern little-endian at the
    /// next 4-byte boundary.
    pub fn write_f32_bits(&mut self, bits: u32)
        requires
            old(self)@.wf(),
            run_fits(old(self)@, 4, 4),
        ensures
            final(self)@ == write_run(old(self)@, 4, spec_u32_to_le_bytes(bits)),
            spec_u32_to_le_bytes(bits).len() == 4,
            final(self)@.wf(),
    {
        proof {
            vstd::bytes::lemma_auto_spec_u32_to_from_le_bytes();
        }
        let data = u32_to_le_bytes(bits);
        self.put_run(4, data.as_slice());
    }

    /// Writes a 64-bit float's IEEE-754 bit pattern little-endian at the
    /// next 8-byte boundary.
    pub fn write_f64_bits(&mut self, bits: u64)
        requires
            old(self)@.wf(),
            run_fits(old(self)@, 8, 8),
        ensures
            final(self)@ == write_run(old(self)@, 8, spec_u64_to_le_bytes(bits)),
            spec_u64_to_le_bytes(bits).len() == 8,
            final(self)@.wf(),
    {
        proof {
            vstd::bytes::lemma_auto_spec_u64_to_from_le_bytes();
        }
        let data = u64_to_le_bytes(bits);
        self.put_run(8, data.as_slice());
    }

    /// Writes a `usize` as a 32-bit word, truncating on platforms where it
    /// is wider.
    pub fn write_usize(&mut self, value: usize)
        requires
            old(self)@.wf(),
            run_fits(old(self)@, 4, 4),
        ensures
            final(self)@ == write_run(
                old(self)@,
                4,
                spec_u32_to_le_bytes(value as u32),
            ),
            spec_u32_to_le_bytes(value as u32).len() == 4,
            final(self)@.wf(),
    {
        self.write_u32(#[verifier::truncate] (value as u32));
    }

    /// Aligns to `width` and reserves `len` bytes, returning the byte
    /// offset where the reserved span starts.
    fn reserve_run(&mut self, width: usize, len: usize) -> (pos: usize)
        requires
            old(self)@.wf(),
            crate::align::valid_width(width as int),
            run_fits(old(self)@, width as int, len as int),
        ensures
            final(self)@ == advance_run(old(self)@, width as int, len as int),
            pos == old(self)@.pos_for(width as int),
            final(self)@.wf(),
    {
        proof {
            lemma_align_up(old(self)@.cursor as int, width as int);
        }
        self.ch.align_to(width);
        let pos = self.ch.cursor();
        self.ch.skip_bytes(len);
        pos
    }

    /// Copies a run of bytes contiguously at the next 1-byte
    /// boundary, with no length prefix. The reader must be told the count
    /// out of band.
    pub fn copy_elements_u8(&mut self, arr: &[u8])
        requires
            old(self)@.wf(),
            run_fits(old(self)@, 1, 1 * arr@.len() as int),
        ensures
            final(self)@ == write_run(old(self)@, 1, arr@),
            final(self)@.wf(),
    {
        self.put_run(1, arr);
    }

    /// Writes `arr.len()` as a 32-bit count, then the elements of `arr` as
    /// one aligned run of bytes.
    pub fn copy_array_u8(&mut self, arr: &[u8])
        requires
            old(self)@.wf(),
            arr@.len() <= u32::MAX,
            run_fits(old(self)@, 4, 4),
            run_fits(advance_run(old(self)@, 4, 4), 1, 1 * arr@.len() as int),
        ensures
            final(self)@ == write_run(
                write_run(old(self)@, 4, spec_u32_to_le_bytes(arr@.len() as u32)),
                1,
                arr@,
            ),
            spec_u32_to_le_bytes(arr@.len() as u32).len() == 4,
            final(self)@.wf(),
    {
        proof {
            vstd::bytes::lemma_auto_spec_u32_to_from_le_bytes();
        }
        self.write_u32(arr.len() as u32);
        self.copy_elements_u8(arr);
    }

    /// Reserves one byte slot and returns its element index for a
    /// later in-place `store_u8`.
    pub fn init_u8(&mut self) -> (idx: usize)
        requires
            old(self)@.wf(),
            run_fits(old(self)@, 1, 1),
        ensures
            final(self)@ == advance_run(old(self)@, 1, 1),
            idx == old(self)@.pos_for(1),
            final(self)@.wf(),
    {
        self.reserve_run(1, 1)
    }

    /// Reserves room for `length` bytes as one aligned run, with no
    /// length prefix, returning the element index of the first slot.
    pub fn init_elements_u8(&mut self, length: u32) -> (idx: usize)
        requires
            old(self)@.wf(),
            run_fits(old(self)@, 1, length as int),
        ensures
            final(self)@ == advance_run(old(self)@, 1, length as int),
            idx == old(self)@.pos_for(1),
            final(self)@.wf(),
    {
        let _cap = self.ch.capacity();
        proof {
            lemma_align_up(old(self)@.cursor as int, 1);
        }
        self.reserve_run(1, length as usize)
    }

    /// Writes `length` as a 32-bit count, then reserves room for `length`
    /// bytes, returning the element index of the first slot.
    pub fn init_array_u8(&mut self, length: u32) -> (idx: usize)
        requires
            old(self)@.wf(),
            run_fits(old(self)@, 4, 4),
            run_fits(advance_run(old(self)@, 4, 4), 1, length as int),
        ensures
            final(self)@ == advance_run(
                write_run(old(self)@, 4, spec_u32_to_le_bytes(length)),
                1,
                length as int,
            ),
            idx == write_run(old(self)@, 4, spec_u32_to_le_bytes(length)).pos_for(1),
            final(self)@.wf(),
    {
        proof {
            vstd::bytes::lemma_auto_spec_u32_to_from_le_bytes();
        }
        self.write_u32(length);
        self.init_elements_u8(length)
    }

    /// Fills the byte slot at element `index` (as handed out by an
    /// `init_*` call) in place, leaving the cursor where it stands.
    pub fn store_u8(&mut self, index: usize, value: u8)
        requires
            old(self)@.wf(),
            index + 1 <= old(self)@.bytes.len(),
        ensures
            final(self)@.bytes == old(self)@.bytes.update_subrange_with(
                index as int,
                seq![value],
            ),
            final(self)@.cursor == old(self)@.cursor,
            final(self)@.wf(),
    {
        let _cap = self.ch.capacity();
        let mut data: Vec<u8> = Vec::new();
        data.push(value);
        proof {
            assert(data@ =~= seq![value]);
        }
        self.ch.write_bytes_at(index, data.as_slice());
    }

    /// Copies a run of 32-bit words contiguously at the next 4-byte
    /// boundary, with no length prefix. The reader must be told the count
    /// out of band.
    pub fn copy_elements_u32(&mut self, arr: &[u32])
        requires
            old(self)@.wf(),
            run_fits(old(self)@, 4, 4 * arr@.len() as int),
        ensures
            final(self)@ == write_run(old(self)@, 4, le_bytes_of_u32s(arr@)),
            le_bytes_of_u32s(arr@).len() == 4 * arr@.len(),
            final(self)@.wf(),
    {
        let data = u32s_to_le(arr);
        self.put_run(4, data.as_slice());
    }

    /// Writes `arr.len()` as a 32-bit count, then the elements of `arr` as
    /// one aligned run of 32-bit words.
    pub fn copy_array_u32(&mut self, arr: &[u32])
        requires
            old(self)@.wf(),
            arr@.len() <= u32::MAX,
            run_fits(old(self)@, 4, 4),
            run_fits(advance_run(old(self)@, 4, 4), 4, 4 * arr@.len() as int),
        ensures
            final(self)@ == write_run(
                write_run(old(self)@, 4, spec_u32_to_le_bytes(arr@.len() as u32)),
                4,
                le_bytes_of_u32s(arr@),
            ),
            spec_u32_to_le_bytes(arr@.len() as u32).len() == 4,
            le_bytes_of_u32s(arr@).len() == 4 * arr@.len(),
            final(self)@.wf(),
    {
        proof {
            vstd::bytes::lemma_auto_spec_u32_to_from_le_bytes();
        }
        self.write_u32(arr.len() as u32);
        self.copy_elements_u32(arr);
    }

    /// Reserves one 32-bit word slot and returns its element index for a
    /// later in-place `store_u32`.
    pub fn init_u32(&mut self) -> (idx: usize)
        requires
            old(self)@.wf(),
            run_fits(old(self)@, 4, 4),
        ensures
            final(self)@ == advance_run(old(self)@, 4, 4),
            4 * idx == old(self)@.pos_for(4),
            final(self)@.wf(),
    {
        let pos = self.reserve_run(4, 4);
        proof {
            vstd::arithmetic::div_mod::lemma_fundamental_div_mod(pos as int, 4);
        }
        pos / 4
    }

    /// Reserves room for `length` 32-bit words as one aligned run, with no
    /// length prefix, returning the element index of the first slot.
    pub fn init_elements_u32(&mut self, length: u32) -> (idx: usize)
        requires
            old(self)@.wf(),
            run_fits(old(self)@, 4, 4 * length as int),
        ensures
            final(self)@ == advance_run(old(self)@, 4, 4 * length as int),
            4 * idx == old(self)@.pos_for(4),
            final(self)@.wf(),
    {
        let _cap = self.ch.capacity();
        proof {
            lemma_align_up(old(self)@.cursor as int, 4);
        }
        let pos = self.reserve_run(4, 4 * (length as usize));
        proof {
            vstd::arithmetic::div_mod::lemma_fundamental_div_mod(pos as int, 4);
        }
        pos / 4
    }

    /// Writes `length` as a 32-bit count, then reserves room for `length`
    /// 32-bit words, returning the element index of the first slot.
    pub fn init_array_u32(&mut self, length: u32) -> (idx: usize)
        requires
            old(self)@.wf(),
            run_fits(old(self)@, 4, 4),
            run_fits(advance_run(old(self)@, 4, 4), 4, 4 * length as int),
        ensures
            final(self)@ == advance_run(
                write_run(old(self)@, 4, spec_u32_to_le_bytes(length)),
                4,
                4 * length as int,
            ),
            4 * idx == write_run(old(self)@, 4, spec_u32_to_le_bytes(length)).pos_for(4),
            final(self)@.wf(),
    {
        proof {
            vstd::bytes::lemma_auto_spec_u32_to_from_le_bytes();
        }
        self.write_u32(length);
        self.init_elements_u32(length)
    }

    /// Fills the 32-bit word slot at element `index` (as handed out by an
    /// `init_*` call) in place, leaving the cursor where it stands.
    pub fn store_u32(&mut self, index: usize, value: u32)
        requires
            old(self)@.wf(),
            4 * index + 4 <= old(self)@.bytes.len(),
        ensures
            final(self)@.bytes == old(self)@.bytes.update_subrange_with(
                4 * index as int,
                spec_u32_to_le_bytes(value),
            ),
            final(self)@.cursor == old(self)@.cursor,
            final(self)@.wf(),
    {
        let _cap = self.ch.capacity();
        let data = u32_to_le_bytes(value);
        self.ch.write_bytes_at(4 * index, data.as_slice());
    }

    /// Copies a run of 32-bit signed values contiguously at the next 4-byte
    /// boundary, with no length prefix. The reader must be told the count
    /// out of band.
    pub fn copy_elements_i32(&mut self, arr: &[i32])
        requires
            old(self)@.wf(),
            run_fits(old(self)@, 4, 4 * arr@.len() as int),
        ensures
            final(self)@ == write_run(old(self)@, 4, le_bytes_of_i32s(arr@)),
            le_bytes_of_i32s(arr@).len() == 4 * arr@.len(),
            final(self)@.wf(),
    {
        let data = i32s_to_le(arr);
        self.put_run(4, data.as_slice());
    }

    /// Writes `arr.len()` as a 32-bit count, then the elements of `arr` as
    /// one aligned run of 32-bit signed values.
    pub fn copy_array_i32(&mut self, arr: &[i32])
        requires
            old(self)@.wf(),
            arr@.len() <= u32::MAX,
            run_fits(old(self)@, 4, 4),
            run_fits(advance_run(old(self)@, 4, 4), 4, 4 * arr@.len() as int),
        ensures
            final(self)@ == write_run(
                write_run(old(self)@, 4, spec_u32_to_le_bytes(arr@.len() as u32)),
                4,
                le_bytes_of_i32s(arr@),
            ),
            spec_u32_to_le_bytes(arr@.len() as u32).len() == 4,
            le_bytes_of_i32s(arr@).len() == 4 * arr@.len(),
            final(self)@.wf(),
    {
        proof {
            vstd::bytes::lemma_auto_spec_u32_to_from_le_bytes();
        }
        self.write_u32(arr.len() as u32);
        self.copy_elements_i32(arr);
    }

    /// Reserves one 32-bit signed value slot and returns its element index for a
    /// later in-place `store_i32`.
    pub fn init_i32(&mut self) -> (idx: usize)
        requires
            old(self)@.wf(),
            run_fits(old(self)@, 4, 4),
        ensures
            final(self)@ == advance_run(old(self)@, 4, 4),
            4 * idx == old(self)@.pos_for(4),
            final(self)@.wf(),
    {
        let pos = self.reserve_run(4, 4);
        proof {
            vstd::arithmetic::div_mod::lemma_fundamental_div_mod(pos as int, 4);
        }
        pos / 4
    }

    /// Reserves room for `length` 32-bit signed values as one aligned run, with no
    /// length prefix, returning the element index of the first slot.
    pub fn init_elements_i32(&mut self, length: u32) -> (idx: usize)
        requires
            old(self)@.wf(),
            run_fits(old(self)@, 4, 4 * length as int),
        ensures
            final(self)@ == advance_run(old(self)@, 4, 4 * length as int),
            4 * idx == old(self)@.pos_for(4),
            final(self)@.wf(),
    {
        let _cap = self.ch.capacity();
        proof {
            lemma_align_up(old(self)@.cursor as int, 4);
        }
        let pos = self.reserve_run(4, 4 * (length as usize));
        proof {
            vstd::arithmetic::div_mod::lemma_fundamental_div_mod(pos as int, 4);
        }
        pos / 4
    }

    /// Writes `length` as a 32-bit count, then reserves room for `length`
    /// 32-bit signed values, returning the element index of the first slot.
    pub fn init_array_i32(&mut self, length: u32) -> (idx: usize)
        requires
            old(self)@.wf(),
            run_fits(old(self)@, 4, 4),
            run_fits(advance_run(old(self)@, 4, 4), 4, 4 * length as int),
        ensures
            final(self)@ == advance_run(
                write_run(old(self)@, 4, spec_u32_to_le_bytes(length)),
                4,
                4 * length as int,
            ),
            4 * idx == write_run(old(self)@, 4, spec_u32_to_le_bytes(length)).pos_for(4),
            final(self)@.wf(),
    {
        proof {
            vstd::bytes::lemma_auto_spec_u32_to_from_le_bytes();
        }
        self.write_u32(length);
        self.init_elements_i32(length)
    }

    /// Fills the 32-bit signed value slot at element `index` (as handed out by an
    /// `init_*` call) in place, leaving the cursor where it stands.
    pub fn store_i32(&mut self, index: usize, value: i32)
        requires
            old(self)@.wf(),
            4 * index + 4 <= old(self)@.bytes.len(),
        ensures
            final(self)@.bytes == old(self)@.bytes.update_subrange_with(
                4 * index as int,
                spec_i32_to_le_bytes(value),
            ),
            final(self)@.cursor == old(self)@.cursor,
            final(self)@.wf(),
    {
        let _cap = self.ch.capacity();
        let data = u32_to_le_bytes(#[verifier::truncate] (value as u32));
        self.ch.write_bytes_at(4 * index, data.as_slice());
    }

    /// Copies a run of 32-bit float bit patterns contiguously at the next 4-byte
    /// boundary, with no length prefix. The reader must be told the count
    /// out of band.
    pub fn copy_elements_f32_bits(&mut self, arr: &[u32])
        requires
            old(self)@.wf(),
            run_fits(old(self)@, 4, 4 * arr@.len() as int),
        ensures
            final(self)@ == write_run(old(self)@, 4, le_bytes_of_u32s(arr@)),
            le_bytes_of_u32s(arr@).len() == 4 * arr@.len(),
            final(self)@.wf(),
    {
        let data = u32s_to_le(arr);
        self.put_run(4, data.as_slice());
    }

    /// Writes `arr.len()` as a 32-bit count, then the elements of `arr` as
    /// one aligned run of 32-bit float bit patterns.
    pub fn copy_array_f32_bits(&mut self, arr: &[u32])
        requires
            old(self)@.wf(),
            arr@.len() <= u32::MAX,
            run_fits(old(self)@, 4, 4),
            run_fits(advance_run(old(self)@, 4, 4), 4, 4 * arr@.len() as int),
        ensures
            final(self)@ == write_run(
                write_run(old(self)@, 4, spec_u32_to_le_bytes(arr@.len() as u32)),
                4,
                le_bytes_of_u32s(arr@),
            ),
            spec_u32_to_le_bytes(arr@.len() as u32).len() == 4,
            le_bytes_of_u32s(arr@).len() == 4 * arr@.len(),
            final(self)@.wf(),
    {
        proof {
            vstd::bytes::lemma_auto_spec_u32_to_from_le_bytes();
        }
        self.write_u32(arr.len() as u32);
        self.copy_elements_f32_bits(arr);
    }

    /// Reserves one 32-bit float bit pattern slot and returns its element index for a
    /// later in-place `store_f32_bits`.
    pub fn init_f32(&mut self) -> (idx: usize)
        requires
            old(self)@.wf(),
            run_fits(old(self)@, 4, 4),
        ensures
            final(self)@ == advance_run(old(self)@, 4, 4),
            4 * idx == old(self)@.pos_for(4),
            final(self)@.wf(),
    {
        let pos = self.reserve_run(4, 4);
        proof {
            vstd::arithmetic::div_mod::lemma_fundamental_div_mod(pos as int, 4);
        }
        pos / 4
    }

    /// Reserves room for `length` 32-bit float bit patterns as one aligned run, with no
    /// length prefix, returning the element index of the first slot.
    pub fn init_elements_f32(&mut self, length: u32) -> (idx: usize)
        requires
            old(self)@.wf(),
            run_fits(old(self)@, 4, 4 * length as int),
        ensures
            final(self)@ == advance_run(old(self)@, 4, 4 * length as int),
            4 * idx == old(self)@.pos_for(4),
            final(self)@.wf(),
    {
        let _cap = self.ch.capacity();
        proof {
            lemma_align_up(old(self)@.cursor as int, 4);
        }
        let pos = self.reserve_run(4, 4 * (length as usize));
        proof {
            vstd::arithmetic::div_mod::lemma_fundamental_div_mod(pos as int, 4);
        }
        pos / 4
    }

    /// Writes `length` as a 32-bit count, then reserves room for `length`
    /// 32-bit float bit patterns, returning the element index of the first slot.
    pub fn init_array_f32(&mut self, length: u32) -> (idx: usize)
        requires
            old(self)@.wf(),
            run_fits(old(self)@, 4, 4),
            run_fits(advance_run(old(self)@, 4, 4), 4, 4 * length as int),
        ensures
            final(self)@ == advance_run(
                write_run(old(self)@, 4, spec_u32_to_le_bytes(length)),
                4,
                4 * length as int,
            ),
            4 * idx == write_run(old(self)@, 4, spec_u32_to_le_bytes(length)).pos_for(4),
            final(self)@.wf(),
    {
        proof {
            vstd::bytes::lemma_auto_spec_u32_to_from_le_bytes();
        }
        self.write_u32(length);
        self.init_elements_f32(length)
    }

    /// Fills the 32-bit float bit pattern slot at element `index` (as handed out by an
    /// `init_*` call) in place, leaving the cursor where it stands.
    pub fn store_f32_bits(&mut self, index: usize, value: u32)
        requires
            old(self)@.wf(),
            4 * index + 4 <= old(self)@.bytes.len(),
        ensures
            final(self)@.bytes == old(self)@.bytes.update_subrange_with(
                4 * index as int,
                spec_u32_to_le_bytes(value),
            ),
            final(self)@.cursor == old(self)@.cursor,
            final(self)@.wf(),
    {
        let _cap = self.ch.capacity();
        let data = u32_to_le_bytes(value);
        self.ch.write_bytes_at(4 * index, data.as_slice());
    }

    /// Copies a run of 64-bit float bit patterns contiguously at the next 8-byte
    /// boundary, with no length prefix. The reader must be told the count
    /// out of band.
    pub fn copy_elements_f64_bits(&mut self, arr: &[u64])
        requires
            old(self)@.wf(),
            run_fits(old(self)@, 8, 8 * arr@.len() as int),
        ensures
            final(self)@ == write_run(old(self)@, 8, le_bytes_of_u64s(arr@)),
            le_bytes_of_u64s(arr@).len() == 8 * arr@.len(),
            final(self)@.wf(),
    {
        let data = u64s_to_le(arr);
        self.put_run(8, data.as_slice());
    }

    /// Writes `arr.len()` as a 32-bit count, then the elements of `arr` as
    /// one aligned run of 64-bit float bit patterns.
    pub fn copy_array_f64_bits(&mut self, arr: &[u64])
        requires
            old(self)@.wf(),
            arr@.len() <= u32::MAX,
            run_fits(old(self)@, 4, 4),
            run_fits(advance_run(old(self)@, 4, 4), 8, 8 * arr@.len() as int),
        ensures
            final(self)@ == write_run(
                write_run(old(self)@, 4, spec_u32_to_le_bytes(arr@.len() as u32)),
                8,
                le_bytes_of_u64s(arr@),
            ),
            spec_u32_to_le_bytes(arr@.len() as u32).len() == 4,
            le_bytes_of_u64s(arr@).len() == 8 * arr@.len(),
            final(self)@.wf(),
    {
        proof {
            vstd::bytes::lemma_auto_spec_u32_to_from_le_bytes();
        }
        self.write_u32(arr.len() as u32);
        self.copy_elements_f64_bits(arr);
    }

    /// Reserves one 64-bit float bit pattern slot and returns its element index for a
    /// later in-place `store_f64_bits`.
    pub fn init_f64(&mut self) -> (idx: usize)
        requires
            old(self)@.wf(),
            run_fits(old(self)@, 8, 8),
        ensures
            final(self)@ == advance_run(old(self)@, 8, 8),
            8 * idx == old(self)@.pos_for(8),
            final(self)@.wf(),
    {
        let pos = self.reserve_run(8, 8);
        proof {
            vstd::arithmetic::div_mod::lemma_fundamental_div_mod(pos as int, 8);
        }
        pos / 8
    }

    /// Reserves room for `length` 64-bit float bit patterns as one aligned run, with no
    /// length prefix, returning the element index of the first slot.
    pub fn init_elements_f64(&mut self, length: u32) -> (idx: usize)
        requires
            old(self)@.wf(),
            run_fits(old(self)@, 8, 8 * length as int),
        ensures
            final(self)@ == advance_run(old(self)@, 8, 8 * length as int),
            8 * idx == old(self)@.pos_for(8),
            final(self)@.wf(),
    {
        let _cap = self.ch.capacity();
        proof {
            lemma_align_up(old(self)@.cursor as int, 8);
        }
        let pos = self.reserve_run(8, 8 * (length as usize));
        proof {
            vstd::arithmetic::div_mod::lemma_fundamental_div_mod(pos as int, 8);
        }
        pos / 8
    }

    /// Writes `length` as a 32-bit count, then reserves room for `length`
    /// 64-bit float bit patterns, returning the element index of the first slot.
    pub fn init_array_f64(&mut self, length: u32) -> (idx: usize)
        requires
            old(self)@.wf(),
            run_fits(old(self)@, 4, 4),
            run_fits(advance_run(old(self)@, 4, 4), 8, 8 * length as int),
        ensures
            final(self)@ == advance_run(
                write_run(old(self)@, 4, spec_u32_to_le_bytes(length)),
                8,
                8 * length as int,
            ),
            8 * idx == write_run(old(self)@, 4, spec_u32_to_le_bytes(length)).pos_for(8),
            final(self)@.wf(),
    {
        proof {
            vstd::bytes::lemma_auto_spec_u32_to_from_le_bytes();
        }
        self.write_u32(length);
        self.init_elements_f64(length)
    }

    /// Fills the 64-bit float bit pattern slot at element `index` (as handed out by an
    /// `init_*` call) in place, leaving the cursor where it stands.
    pub fn store_f64_bits(&mut self, index: usize, value: u64)
        requires
            old(self)@.wf(),
            8 * index + 8 <= old(self)@.bytes.len(),
        ensures
            final(self)@.bytes == old(self)@.bytes.update_subrange_with(
                8 * index as int,
                spec_u64_to_le_bytes(value),
            ),
            final(self)@.cursor == old(self)@.cursor,
            final(self)@.wf(),
    {
        let _cap = self.ch.capacity();
        let data = u64_to_le_bytes(value);
        self.ch.write_bytes_at(8 * index, data.as_slice());
    }
}

} // verus!
