//! The mathematical model of the channel: a byte sequence plus a cursor, and
//! the transitions every writer and reader operation follows.
//!
//! A write places a run of bytes at the cursor rounded up to the run's width
//! and moves the cursor past it; a read returns the same span and moves the
//! cursor the same way; a reservation moves the cursor without touching the
//! bytes. Every executable operation's contract is stated as one of these
//! three transitions.

use vstd::prelude::*;

use crate::align::{align_up_spec, valid_width};

verus! {

/// The abstract state of a channel: the buffer contents and the byte cursor.
pub ghost struct ChannelModel {
    pub bytes: Seq<u8>,
    pub cursor: nat,
}

impl ChannelModel {
    /// The cursor never passes the fixed capacity.
    pub open spec fn wf(self) -> bool {
        self.cursor <= self.bytes.len()
    }

    /// The byte offset where the next access of width `width` lands.
    pub open spec fn pos_for(self, width: int) -> int {
        align_up_spec(self.cursor as int, width)
    }
}

/// Whether a run of `len` bytes at width `width` fits within capacity.
pub open spec fn run_fits(m: ChannelModel, width: int, len: int) -> bool {
    m.pos_for(width) + len <= m.bytes.len()
}

/// The state after writing a `data` run aligned to `width`: the bytes from
/// the aligned offset on are replaced by `data`, everything else — the
/// padding skipped over included — is untouched, and the cursor stands just
/// past the run.
pub open spec fn write_run(m: ChannelModel, width: int, data: Seq<u8>) -> ChannelModel {
    let pos = m.pos_for(width);
    ChannelModel {
        bytes: m.bytes.update_subrange_with(pos, data),
        cursor: (pos + data.len()) as nat,
    }
}

/// The bytes a read of `len` bytes aligned to `width` returns.
pub open spec fn read_run_data(m: ChannelModel, width: int, len: int) -> Seq<u8> {
    m.bytes.subrange(m.pos_for(width), m.pos_for(width) + len)
}

/// The state after a read or a reservation of `len` bytes aligned to
/// `width`: the bytes are untouched and the cursor stands just past the run.
pub open spec fn advance_run(m: ChannelModel, width: int, len: int) -> ChannelModel {
    ChannelModel { bytes: m.bytes, cursor: (m.pos_for(width) + len) as nat }
}

/// A write run leaves capacity and cursor well-formed, moves the cursor
/// forward, and changes no byte outside the written span. In particular the
/// padding bytes between the old cursor and the aligned offset keep their
/// previous contents.
pub proof fn lemma_write_run_frame(m: ChannelModel, width: int, data: Seq<u8>)
    requires
        m.wf(),
        valid_width(width),
        run_fits(m, width, data.len() as int),
    ensures
        write_run(m, width, data).wf(),
        write_run(m, width, data).bytes.len() == m.bytes.len(),
        write_run(m, width, data).cursor >= m.cursor,
        write_run(m, width, data).cursor == m.pos_for(width) + data.len(),
        m.cursor <= m.pos_for(width),
        m.pos_for(width) % width == 0,
        forall|i: int|
            0 <= i < m.bytes.len() && !(m.pos_for(width) <= i < m.pos_for(width) + data.len())
                ==> write_run(m, width, data).bytes[i] == m.bytes[i],
        read_run_data(
            ChannelModel { bytes: write_run(m, width, data).bytes, cursor: m.cursor },
            width,
            data.len() as int,
        ) == data,
{
    crate::align::lemma_align_up(m.cursor as int, width);
    let pos = m.pos_for(width);
    let w = write_run(m, width, data);
    assert(w.bytes.subrange(pos, pos + data.len()) =~= data);
}

} // verus!
