//! Alignment arithmetic shared by every typed channel operation.
//!
//! A value of width `w` (1, 4 or 8 bytes) is always placed at the next byte
//! offset that is a multiple of `w`; the bytes skipped over are padding and
//! are never written or read as data.

use vstd::prelude::*;

verus! {

/// The element widths the channel supports, in bytes.
pub open spec fn valid_width(width: int) -> bool {
    width == 1 || width == 4 || width == 8
}

/// `offset` rounded up to the next multiple of `width`.
pub open spec fn align_up_spec(offset: int, width: int) -> int
    recommends
        valid_width(width),
        offset >= 0,
{
    ((offset + width - 1) / width) * width
}

/// The rounded-up offset is the least multiple of `width` at or above
/// `offset`: it moves forward less than one full width, lands on a multiple
/// of `width`, and is `offset` itself whenever `offset` is already aligned.
pub proof fn lemma_align_up(offset: int, width: int)
    requires
        valid_width(width),
        offset >= 0,
    ensures
        offset <= align_up_spec(offset, width) < offset + width,
        align_up_spec(offset, width) % width == 0,
        offset % width == 0 ==> align_up_spec(offset, width) == offset,
{
    let s = offset + width - 1;
    let w = width;
    vstd::arithmetic::div_mod::lemma_fundamental_div_mod(s, w);
    assert((s / w) * w == s - s % w);
    vstd::arithmetic::div_mod::lemma_mod_bound(s, w);
    assert(align_up_spec(offset, width) % width == 0) by (nonlinear_arith)
        requires
            valid_width(width),
    ;
    if offset % width == 0 {
        assert(s % w == w - 1) by (nonlinear_arith)
            requires
                s == offset + width - 1,
                w == width,
                w >= 1,
                offset % width == 0,
        ;
    }
}

/// The rounded-up offset is the offset plus the padding that reaches the
/// next multiple of `width`: nothing when the offset is aligned, else the
/// distance to the next multiple.
pub proof fn lemma_align_up_pad(offset: int, width: int)
    requires
        valid_width(width),
        offset >= 0,
    ensures
        align_up_spec(offset, width) == offset + (if offset % width == 0 {
            0int
        } else {
            width - offset % width
        }),
{
    lemma_align_up(offset, width);
    if offset % width != 0 {
        let w = width;
        vstd::arithmetic::div_mod::lemma_fundamental_div_mod(offset, w);
        let q = offset / w;
        vstd::arithmetic::div_mod::lemma_fundamental_div_mod_converse(
            offset + w - 1,
            w,
            q + 1,
            offset % w - 1,
        );
        assert(align_up_spec(offset, w) == (q + 1) * w);
        assert(offset + (w - offset % w) == q * w + offset % w + w - offset % w == (q + 1) * w);
    }
}

/// Rounds `offset` up to the next multiple of `bytes`, which must be a
/// supported width (1, 4 or 8, each a power of two).
pub fn align_up(offset: u32, bytes: u8) -> (r: u32)
    requires
        valid_width(bytes as int),
        offset + bytes - 1 <= u32::MAX,
    ensures
        r == align_up_spec(offset as int, bytes as int),
{
    let mask = (bytes - 1) as u32;
    let r = (offset + mask) & !mask;
    proof {
        if bytes == 1 {
            assert((offset & !0u32) == offset) by (bit_vector);
        } else if bytes == 4 {
            assert(offset <= 0xffff_fffc);
            assert(((offset + 3) as u32 & !3u32) == ((offset + 3) / 4) * 4) by (bit_vector)
                requires
                    offset <= 0xffff_fffcu32,
            ;
        } else {
            assert(offset <= 0xffff_fff8);
            assert(((offset + 7) as u32 & !7u32) == ((offset + 7) / 8) * 8) by (bit_vector)
                requires
                    offset <= 0xffff_fff8u32,
            ;
        }
    }
    r
}

} // verus!
