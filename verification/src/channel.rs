//! The cursor/alignment engine both the writer and the reader delegate to:
//! one fixed-capacity byte buffer and one byte cursor.
//!
//! Every operation first rounds the cursor up to the requested width, then
//! moves it past the bytes it wrote, read or reserved. The capacity is fixed
//! at construction; an operation is only permitted when the whole run fits,
//! so the cursor can never pass the end of the buffer.

use vstd::pervasive::VecAdditionalExecFns;
use vstd::prelude::*;

use crate::align::{align_up_spec, lemma_align_up, valid_width};
use crate::model::{run_fits, ChannelModel};

verus! {

/// A byte buffer of fixed capacity with a single monotone cursor.
pub struct Channel {
    buf: Vec<u8>,
    cursor: usize,
}

impl View for Channel {
    type V = ChannelModel;

    closed spec fn view(&self) -> ChannelModel {
        ChannelModel { bytes: self.buf@, cursor: self.cursor as nat }
    }
}

impl Channel {
    /// Opens a channel over `storage` with the cursor at the start.
    pub fn from(storage: Vec<u8>) -> (r: Self)
        ensures
            r@.bytes == storage@,
            r@.cursor == 0,
            r@.wf(),
    {
        Channel { buf: storage, cursor: 0 }
    }

    /// Ends this pass and gives the buffer back for reuse or inspection.
    pub fn into_buffer(self) -> (r: Vec<u8>)
        ensures
            r@ == self@.bytes,
    {
        self.buf
    }

    /// The buffer contents.
    pub fn buffer(&self) -> (r: &Vec<u8>)
        ensures
            r@ == self@.bytes,
    {
        &self.buf
    }

    /// The current byte offset.
    pub fn cursor(&self) -> (r: usize)
        ensures
            r == self@.cursor,
    {
        self.cursor
    }

    /// The fixed capacity in bytes.
    pub fn capacity(&self) -> (r: usize)
        ensures
            r == self@.bytes.len(),
    {
        self.buf.len()
    }

    /// Rewinds the cursor to the start. The bytes keep their contents.
    pub fn reset(&mut self)
        ensures
            final(self)@.bytes == old(self)@.bytes,
            final(self)@.cursor == 0,
    {
        self.cursor = 0;
    }

    /// Whether a run of `count` elements of `width` bytes each, at the
    /// next `width`-aligned offset, stays within capacity. This is the
    /// check a caller makes before an operation whose overflow would
    /// otherwise be a contract violation.
    pub fn fits(&self, width: usize, count: usize) -> (r: bool)
        requires
            self@.wf(),
            valid_width(width as int),
        ensures
            r == run_fits(self@, width as int, width * count as int),
    {
        proof {
            lemma_align_up(self.cursor as int, width as int);
            crate::align::lemma_align_up_pad(self.cursor as int, width as int);
            assert(self.buf.len() == self.buf@.len());
        }
        let cap = self.buf.len();
        let rem = self.cursor % width;
        let pad = if rem == 0 {
            0
        } else {
            width - rem
        };
        if pad > cap - self.cursor {
            false
        } else {
            let pos = self.cursor + pad;
            let room = (cap - pos) / width;
            proof {
                let w = width as int;
                let b = cap - pos;
                vstd::arithmetic::div_mod::lemma_fundamental_div_mod(b, w);
                vstd::arithmetic::div_mod::lemma_mod_bound(b, w);
                assert(count <= b / w ==> w * (count as int) <= b) by (nonlinear_arith)
                    requires
                        w >= 1,
                        b >= 0,
                        w * (b / w) + b % w == b,
                        0 <= b % w < w,
                ;
                assert(w * (count as int) <= b ==> count <= b / w) by (nonlinear_arith)
                    requires
                        w >= 1,
                        b >= 0,
                        w * (b / w) + b % w == b,
                        0 <= b % w < w,
                ;
            }
            count <= room
        }
    }

    /// Rounds the cursor up to the next multiple of `width`.
    pub fn align_to(&mut self, width: usize)
        requires
            old(self)@.wf(),
            valid_width(width as int),
            align_up_spec(old(self)@.cursor as int, width as int) <= old(self)@.bytes.len(),
        ensures
            final(self)@.bytes == old(self)@.bytes,
            final(self)@.cursor == align_up_spec(old(self)@.cursor as int, width as int),
            final(self)@.wf(),
    {
        proof {
            lemma_align_up(self.cursor as int, width as int);
            assert(self.buf.len() == self.buf@.len());
        }
        let rem = self.cursor % width;
        if rem != 0 {
            proof {
                let c = self.cursor as int;
                let w = width as int;
                vstd::arithmetic::div_mod::lemma_fundamental_div_mod(c, w);
                let q = c / w;
                vstd::arithmetic::div_mod::lemma_fundamental_div_mod_converse(
                    c + w - 1,
                    w,
                    q + 1,
                    c % w - 1,
                );
                assert(align_up_spec(c, w) == (q + 1) * w);
                assert(c + (w - c % w) == q * w + c % w + w - c % w == (q + 1) * w);
            }
            self.cursor = self.cursor + (width - rem);
        }
    }

    /// Copies `data` to the buffer at the cursor and moves the cursor past
    /// it. No alignment is performed here; callers align first.
    pub fn push_bytes(&mut self, data: &[u8])
        requires
            old(self)@.wf(),
            old(self)@.cursor + data@.len() <= old(self)@.bytes.len(),
        ensures
            final(self)@.bytes == old(self)@.bytes.update_subrange_with(
                old(self)@.cursor as int,
                data@,
            ),
            final(self)@.cursor == old(self)@.cursor + data@.len(),
            final(self)@.wf(),
    {
        proof {
            assert(self.buf.len() == self.buf@.len());
        }
        let ghost start = self.cursor as int;
        let ghost orig = self.buf@;
        let mut i: usize = 0;
        while i < data.len()
            invariant
                0 <= i <= data@.len(),
                start == old(self)@.cursor,
                orig == old(self)@.bytes,
                self.cursor == start,
                start + data@.len() <= self.buf@.len(),
                self.buf@.len() <= usize::MAX,
                self.buf@.len() == orig.len(),
                forall|j: int| 0 <= j < i ==> self.buf@[start + j] == data@[j],
                forall|j: int|
                    0 <= j < orig.len() && !(start <= j < start + i) ==> self.buf@[j] == orig[j],
            decreases data@.len() - i,
        {
            self.buf.set(self.cursor + i, data[i]);
            i = i + 1;
        }
        self.cursor = self.cursor + data.len();
        proof {
            assert(self.buf@ =~= orig.update_subrange_with(start, data@));
        }
    }

    /// Moves the cursor past `len` bytes without touching them, reserving
    /// the span for a later in-place fill.
    pub fn skip_bytes(&mut self, len: usize)
        requires
            old(self)@.wf(),
            old(self)@.cursor + len <= old(self)@.bytes.len(),
        ensures
            final(self)@.bytes == old(self)@.bytes,
            final(self)@.cursor == old(self)@.cursor + len,
            final(self)@.wf(),
    {
        proof {
            assert(self.buf.len() == self.buf@.len());
        }
        self.cursor = self.cursor + len;
    }

    /// Copies the `len` bytes at the cursor out of the buffer and moves the
    /// cursor past them.
    pub fn take_bytes(&mut self, len: usize) -> (r: Vec<u8>)
        requires
            old(self)@.wf(),
            old(self)@.cursor + len <= old(self)@.bytes.len(),
        ensures
            final(self)@.bytes == old(self)@.bytes,
            final(self)@.cursor == old(self)@.cursor + len,
            final(self)@.wf(),
            r@ == old(self)@.bytes.subrange(
                old(self)@.cursor as int,
                old(self)@.cursor + len,
            ),
    {
        proof {
            assert(self.buf.len() == self.buf@.len());
        }
        let ghost start = self.cursor as int;
        let mut out: Vec<u8> = Vec::new();
        let mut i: usize = 0;
        while i < len
            invariant
                0 <= i <= len,
                start == self@.cursor,
                start + len <= self.buf@.len(),
                self.buf@.len() <= usize::MAX,
                out@ == self.buf@.subrange(start, start + i),
            decreases len - i,
        {
            out.push(self.buf[self.cursor + i]);
            proof {
                assert(out@ =~= self.buf@.subrange(start, start + i + 1));
            }
            i = i + 1;
        }
        self.cursor = self.cursor + len;
        out
    }

    /// Overwrites the `data@.len()` bytes starting at byte offset `at`,
    /// leaving the cursor where it was. This is the in-place fill behind a
    /// reservation handle.
    pub fn write_bytes_at(&mut self, at: usize, data: &[u8])
        requires
            old(self)@.wf(),
            at + data@.len() <= old(self)@.bytes.len(),
        ensures
            final(self)@.bytes == old(self)@.bytes.update_subrange_with(at as int, data@),
            final(self)@.cursor == old(self)@.cursor,
            final(self)@.wf(),
    {
        proof {
            assert(self.buf.len() == self.buf@.len());
        }
        let ghost orig = self.buf@;
        let mut i: usize = 0;
        while i < data.len()
            invariant
                0 <= i <= data@.len(),
                orig == old(self)@.bytes,
                self.cursor == old(self)@.cursor,
                at + data@.len() <= self.buf@.len(),
                self.buf@.len() <= usize::MAX,
                self.buf@.len() == orig.len(),
                forall|j: int| 0 <= j < i ==> self.buf@[at + j] == data@[j],
                forall|j: int|
                    0 <= j < orig.len() && !(at <= j < at + i) ==> self.buf@[j] == orig[j],
            decreases data@.len() - i,
        {
            self.buf.set(at + i, data[i]);
            i = i + 1;
        }
        proof {
            assert(self.buf@ =~= orig.update_subrange_with(at as int, data@));
        }
    }
}

} // verus!
