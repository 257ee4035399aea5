//! Little-endian wire encoding of the supported element kinds.
//!
//! Every multi-byte element is stored little-endian; a run of elements is the
//! concatenation of their encodings. 32-bit signed values travel as their
//! two's-complement bit pattern, and floating-point values travel as their
//! IEEE-754 bit patterns, carried here as `u32` and `u64` words.

use vstd::bytes::{
    spec_u32_from_le_bytes, spec_u32_to_le_bytes, spec_u64_from_le_bytes, spec_u64_to_le_bytes,
};
use vstd::bytes::{u32_from_le_bytes, u32_to_le_bytes, u64_from_le_bytes, u64_to_le_bytes};
use vstd::prelude::*;
use vstd::slice::slice_subrange;

verus! {

/// The little-endian bytes of a 32-bit signed value: its two's-complement
/// bit pattern, least significant byte first.
pub open spec fn spec_i32_to_le_bytes(x: i32) -> Seq<u8> {
    spec_u32_to_le_bytes(x as u32)
}

/// The 32-bit signed value four little-endian bytes encode.
pub open spec fn spec_i32_from_le_bytes(s: Seq<u8>) -> i32
    recommends
        s.len() == 4,
{
    spec_u32_from_le_bytes(s) as i32
}

/// Encoding then decoding a 32-bit signed value is the identity, and its
/// encoding is exactly four bytes.
pub proof fn lemma_i32_to_from_le_bytes(x: i32)
    ensures
        spec_i32_to_le_bytes(x).len() == 4,
        spec_i32_from_le_bytes(spec_i32_to_le_bytes(x)) == x,
{
    vstd::bytes::lemma_auto_spec_u32_to_from_le_bytes();
    let u = x as u32;
    assert(spec_u32_to_le_bytes(u).len() == 4);
    assert(spec_u32_from_le_bytes(spec_u32_to_le_bytes(u)) == u);
    assert(x as u32 as i32 == x) by (bit_vector);
}

/// The concatenated little-endian encodings of a run of 32-bit words.
pub open spec fn le_bytes_of_u32s(s: Seq<u32>) -> Seq<u8>
    decreases s.len(),
{
    if s.len() == 0 {
        Seq::empty()
    } else {
        le_bytes_of_u32s(s.drop_last()) + spec_u32_to_le_bytes(s.last())
    }
}

/// The concatenated little-endian encodings of a run of 64-bit words.
pub open spec fn le_bytes_of_u64s(s: Seq<u64>) -> Seq<u8>
    decreases s.len(),
{
    if s.len() == 0 {
        Seq::empty()
    } else {
        le_bytes_of_u64s(s.drop_last()) + spec_u64_to_le_bytes(s.last())
    }
}

/// The concatenated encodings of a run of 32-bit signed values.
pub open spec fn le_bytes_of_i32s(s: Seq<i32>) -> Seq<u8>
    decreases s.len(),
{
    if s.len() == 0 {
        Seq::empty()
    } else {
        le_bytes_of_i32s(s.drop_last()) + spec_i32_to_le_bytes(s.last())
    }
}

/// A run of 32-bit words occupies four bytes per word, and each word's
/// encoding stands at its own offset within the run.
pub proof fn lemma_le_bytes_of_u32s_index(s: Seq<u32>)
    ensures
        le_bytes_of_u32s(s).len() == 4 * s.len(),
        forall|i: int|
            0 <= i < s.len() ==> le_bytes_of_u32s(s).subrange(4 * i, 4 * i + 4)
                == spec_u32_to_le_bytes(s[i]),
    decreases s.len(),
{
    vstd::bytes::lemma_auto_spec_u32_to_from_le_bytes();
    if s.len() > 0 {
        lemma_le_bytes_of_u32s_index(s.drop_last());
        assert forall|i: int| 0 <= i < s.len() implies le_bytes_of_u32s(s).subrange(
            4 * i,
            4 * i + 4,
        ) == spec_u32_to_le_bytes(s[i]) by {
            let b = le_bytes_of_u32s(s);
            let bl = le_bytes_of_u32s(s.drop_last());
            assert(b == bl + spec_u32_to_le_bytes(s.last()));
            assert(bl.len() == 4 * (s.len() - 1));
            assert(spec_u32_to_le_bytes(s.last()).len() == 4);
            if i < s.len() - 1 {
                assert(s.drop_last()[i] == s[i]);
                assert(b.subrange(4 * i, 4 * i + 4) =~= bl.subrange(4 * i, 4 * i + 4));
            } else {
                assert(s.last() == s[i]);
                assert(b.subrange(4 * i, 4 * i + 4) =~= spec_u32_to_le_bytes(s.last()));
            }
        }
    }
}

/// A run of 64-bit words occupies eight bytes per word, and each word's
/// encoding stands at its own offset within the run.
pub proof fn lemma_le_bytes_of_u64s_index(s: Seq<u64>)
    ensures
        le_bytes_of_u64s(s).len() == 8 * s.len(),
        forall|i: int|
            0 <= i < s.len() ==> le_bytes_of_u64s(s).subrange(8 * i, 8 * i + 8)
                == spec_u64_to_le_bytes(s[i]),
    decreases s.len(),
{
    vstd::bytes::lemma_auto_spec_u64_to_from_le_bytes();
    if s.len() > 0 {
        lemma_le_bytes_of_u64s_index(s.drop_last());
        assert forall|i: int| 0 <= i < s.len() implies le_bytes_of_u64s(s).subrange(
            8 * i,
            8 * i + 8,
        ) == spec_u64_to_le_bytes(s[i]) by {
            let b = le_bytes_of_u64s(s);
            let bl = le_bytes_of_u64s(s.drop_last());
            assert(b == bl + spec_u64_to_le_bytes(s.last()));
            assert(bl.len() == 8 * (s.len() - 1));
            assert(spec_u64_to_le_bytes(s.last()).len() == 8);
            if i < s.len() - 1 {
                assert(s.drop_last()[i] == s[i]);
                assert(b.subrange(8 * i, 8 * i + 8) =~= bl.subrange(8 * i, 8 * i + 8));
            } else {
                assert(s.last() == s[i]);
                assert(b.subrange(8 * i, 8 * i + 8) =~= spec_u64_to_le_bytes(s.last()));
            }
        }
    }
}

/// A run of 32-bit signed values occupies four bytes each, and each value's
/// encoding stands at its own offset within the run.
pub proof fn lemma_le_bytes_of_i32s_index(s: Seq<i32>)
    ensures
        le_bytes_of_i32s(s).len() == 4 * s.len(),
        forall|i: int|
            0 <= i < s.len() ==> le_bytes_of_i32s(s).subrange(4 * i, 4 * i + 4)
                == spec_i32_to_le_bytes(s[i]),
    decreases s.len(),
{
    vstd::bytes::lemma_auto_spec_u32_to_from_le_bytes();
    if s.len() > 0 {
        lemma_le_bytes_of_i32s_index(s.drop_last());
        assert forall|i: int| 0 <= i < s.len() implies le_bytes_of_i32s(s).subrange(
            4 * i,
            4 * i + 4,
        ) == spec_i32_to_le_bytes(s[i]) by {
            let b = le_bytes_of_i32s(s);
            let bl = le_bytes_of_i32s(s.drop_last());
            assert(b == bl + spec_i32_to_le_bytes(s.last()));
            assert(bl.len() == 4 * (s.len() - 1));
            assert(spec_u32_to_le_bytes(s.last() as u32).len() == 4);
            if i < s.len() - 1 {
                assert(s.drop_last()[i] == s[i]);
                assert(b.subrange(4 * i, 4 * i + 4) =~= bl.subrange(4 * i, 4 * i + 4));
            } else {
                assert(s.last() == s[i]);
                assert(b.subrange(4 * i, 4 * i + 4) =~= spec_i32_to_le_bytes(s.last()));
            }
        }
    }
}


/// Encodes a run of 32-bit words as contiguous little-endian bytes.
pub fn u32s_to_le(arr: &[u32]) -> (r: Vec<u8>)
    ensures
        r@ == le_bytes_of_u32s(arr@),
        r@.len() == 4 * arr@.len(),
{
    let mut out: Vec<u8> = Vec::new();
    let mut i: usize = 0;
    while i < arr.len()
        invariant
            0 <= i <= arr@.len(),
            out@ == le_bytes_of_u32s(arr@.take(i as int)),
            out@.len() == 4 * i,
        decreases arr@.len() - i,
    {
        let mut b = u32_to_le_bytes(arr[i]);
        out.append(&mut b);
        proof {
            assert(arr@.take(i + 1).drop_last() =~= arr@.take(i as int));
            assert(arr@.take(i + 1).last() == arr@[i as int]);
        }
        i = i + 1;
    }
    proof {
        assert(arr@.take(arr@.len() as int) =~= arr@);
    }
    out
}

/// Encodes a run of 32-bit signed values as contiguous little-endian bytes.
pub fn i32s_to_le(arr: &[i32]) -> (r: Vec<u8>)
    ensures
        r@ == le_bytes_of_i32s(arr@),
        r@.len() == 4 * arr@.len(),
{
    let mut out: Vec<u8> = Vec::new();
    let mut i: usize = 0;
    while i < arr.len()
        invariant
            0 <= i <= arr@.len(),
            out@ == le_bytes_of_i32s(arr@.take(i as int)),
            out@.len() == 4 * i,
        decreases arr@.len() - i,
    {
        #[verifier::truncate]
        let mut b = u32_to_le_bytes(arr[i] as u32);
        out.append(&mut b);
        proof {
            assert(arr@.take(i + 1).drop_last() =~= arr@.take(i as int));
            assert(arr@.take(i + 1).last() == arr@[i as int]);
        }
        i = i + 1;
    }
    proof {
        assert(arr@.take(arr@.len() as int) =~= arr@);
    }
    out
}

/// Encodes a run of 64-bit words as contiguous little-endian bytes.
pub fn u64s_to_le(arr: &[u64]) -> (r: Vec<u8>)
    ensures
        r@ == le_bytes_of_u64s(arr@),
        r@.len() == 8 * arr@.len(),
{
    let mut out: Vec<u8> = Vec::new();
    let mut i: usize = 0;
    while i < arr.len()
        invariant
            0 <= i <= arr@.len(),
            out@ == le_bytes_of_u64s(arr@.take(i as int)),
            out@.len() == 8 * i,
        decreases arr@.len() - i,
    {
        let mut b = u64_to_le_bytes(arr[i]);
        out.append(&mut b);
        proof {
            assert(arr@.take(i + 1).drop_last() =~= arr@.take(i as int));
            assert(arr@.take(i + 1).last() == arr@[i as int]);
        }
        i = i + 1;
    }
    proof {
        assert(arr@.take(arr@.len() as int) =~= arr@);
    }
    out
}

/// Decodes `count` 32-bit words from contiguous little-endian bytes.
pub fn le_to_u32s(data: &[u8], count: usize) -> (r: Vec<u32>)
    requires
        data@.len() == 4 * count,
    ensures
        r@.len() == count,
        forall|i: int|
            0 <= i < count ==> r@[i] == spec_u32_from_le_bytes(data@.subrange(4 * i, 4 * i + 4)),
        le_bytes_of_u32s(r@) == data@,
{
    let total = data.len();
    let mut out: Vec<u32> = Vec::new();
    let mut i: usize = 0;
    while i < count
        invariant
            0 <= i <= count,
            total == data@.len(),
            data@.len() == 4 * count,
            out@.len() == i,
            forall|j: int|
                0 <= j < i ==> out@[j] == spec_u32_from_le_bytes(
                    data@.subrange(4 * j, 4 * j + 4),
                ),
            le_bytes_of_u32s(out@) == data@.subrange(0, 4 * i),
        decreases count - i,
    {
        let chunk = slice_subrange(data, 4 * i, 4 * i + 4);
        let v = u32_from_le_bytes(chunk);
        let ghost prev = out@;
        out.push(v);
        proof {
            vstd::bytes::lemma_auto_spec_u32_to_from_le_bytes();
            assert(out@.drop_last() =~= prev);
            assert(spec_u32_to_le_bytes(v) == data@.subrange(4 * i, 4 * i + 4));
            assert(le_bytes_of_u32s(out@) == le_bytes_of_u32s(prev) + spec_u32_to_le_bytes(v));
            assert(le_bytes_of_u32s(out@) =~= data@.subrange(0, 4 * (i + 1)));
        }
        i = i + 1;
    }
    proof {
        assert(data@.subrange(0, 4 * (count as int)) =~= data@);
    }
    out
}

/// Decodes `count` 32-bit signed values from contiguous little-endian bytes.
pub fn le_to_i32s(data: &[u8], count: usize) -> (r: Vec<i32>)
    requires
        data@.len() == 4 * count,
    ensures
        r@.len() == count,
        forall|i: int|
            0 <= i < count ==> r@[i] == spec_i32_from_le_bytes(data@.subrange(4 * i, 4 * i + 4)),
        le_bytes_of_i32s(r@) == data@,
{
    let total = data.len();
    let mut out: Vec<i32> = Vec::new();
    let mut i: usize = 0;
    while i < count
        invariant
            0 <= i <= count,
            total == data@.len(),
            data@.len() == 4 * count,
            out@.len() == i,
            forall|j: int|
                0 <= j < i ==> out@[j] == spec_i32_from_le_bytes(
                    data@.subrange(4 * j, 4 * j + 4),
                ),
            le_bytes_of_i32s(out@) == data@.subrange(0, 4 * i),
        decreases count - i,
    {
        let chunk = slice_subrange(data, 4 * i, 4 * i + 4);
        let w = u32_from_le_bytes(chunk);
        let v = #[verifier::truncate] (w as i32);
        let ghost prev = out@;
        out.push(v);
        proof {
            vstd::bytes::lemma_auto_spec_u32_to_from_le_bytes();
            assert(w as i32 as u32 == w) by (bit_vector);
            assert(out@.drop_last() =~= prev);
            assert(spec_i32_to_le_bytes(v) == data@.subrange(4 * i, 4 * i + 4));
            assert(le_bytes_of_i32s(out@) == le_bytes_of_i32s(prev) + spec_i32_to_le_bytes(v));
            assert(le_bytes_of_i32s(out@) =~= data@.subrange(0, 4 * (i + 1)));
        }
        i = i + 1;
    }
    proof {
        assert(data@.subrange(0, 4 * (count as int)) =~= data@);
    }
    out
}

/// Decodes `count` 64-bit words from contiguous little-endian bytes.
pub fn le_to_u64s(data: &[u8], count: usize) -> (r: Vec<u64>)
    requires
        data@.len() == 8 * count,
    ensures
        r@.len() == count,
        forall|i: int|
            0 <= i < count ==> r@[i] == spec_u64_from_le_bytes(data@.subrange(8 * i, 8 * i + 8)),
        le_bytes_of_u64s(r@) == data@,
{
    let total = data.len();
    let mut out: Vec<u64> = Vec::new();
    let mut i: usize = 0;
    while i < count
        invariant
            0 <= i <= count,
            total == data@.len(),
            data@.len() == 8 * count,
            out@.len() == i,
            forall|j: int|
                0 <= j < i ==> out@[j] == spec_u64_from_le_bytes(
                    data@.subrange(8 * j, 8 * j + 8),
                ),
            le_bytes_of_u64s(out@) == data@.subrange(0, 8 * i),
        decreases count - i,
    {
        let chunk = slice_subrange(data, 8 * i, 8 * i + 8);
        let v = u64_from_le_bytes(chunk);
        let ghost prev = out@;
        out.push(v);
        proof {
            vstd::bytes::lemma_auto_spec_u64_to_from_le_bytes();
            assert(out@.drop_last() =~= prev);
            assert(spec_u64_to_le_bytes(v) == data@.subrange(8 * i, 8 * i + 8));
            assert(le_bytes_of_u64s(out@) == le_bytes_of_u64s(prev) + spec_u64_to_le_bytes(v));
            assert(le_bytes_of_u64s(out@) =~= data@.subrange(0, 8 * (i + 1)));
        }
        i = i + 1;
    }
    proof {
        assert(data@.subrange(0, 8 * (count as int)) =~= data@);
    }
    out
}


/// Two runs of 32-bit words with the same encoding are the same run.
pub proof fn lemma_le_bytes_of_u32s_injective(a: Seq<u32>, b: Seq<u32>)
    requires
        le_bytes_of_u32s(a) == le_bytes_of_u32s(b),
    ensures
        a == b,
{
    lemma_le_bytes_of_u32s_index(a);
    lemma_le_bytes_of_u32s_index(b);
    vstd::bytes::lemma_auto_spec_u32_to_from_le_bytes();
    assert(a.len() == b.len());
    assert forall|i: int| 0 <= i < a.len() implies a[i] == b[i] by {
        assert(spec_u32_to_le_bytes(a[i]) == le_bytes_of_u32s(a).subrange(4 * i, 4 * i + 4));
        assert(spec_u32_to_le_bytes(b[i]) == le_bytes_of_u32s(b).subrange(4 * i, 4 * i + 4));
        assert(spec_u32_from_le_bytes(spec_u32_to_le_bytes(a[i])) == a[i]);
        assert(spec_u32_from_le_bytes(spec_u32_to_le_bytes(b[i])) == b[i]);
    }
    assert(a =~= b);
}

/// Two runs of 32-bit signed values with the same encoding are the same
/// run.
pub proof fn lemma_le_bytes_of_i32s_injective(a: Seq<i32>, b: Seq<i32>)
    requires
        le_bytes_of_i32s(a) == le_bytes_of_i32s(b),
    ensures
        a == b,
{
    lemma_le_bytes_of_i32s_index(a);
    lemma_le_bytes_of_i32s_index(b);
    assert(a.len() == b.len());
    assert forall|i: int| 0 <= i < a.len() implies a[i] == b[i] by {
        assert(spec_i32_to_le_bytes(a[i]) == le_bytes_of_i32s(a).subrange(4 * i, 4 * i + 4));
        assert(spec_i32_to_le_bytes(b[i]) == le_bytes_of_i32s(b).subrange(4 * i, 4 * i + 4));
        lemma_i32_to_from_le_bytes(a[i]);
        lemma_i32_to_from_le_bytes(b[i]);
    }
    assert(a =~= b);
}

/// Two runs of 64-bit words with the same encoding are the same run.
pub proof fn lemma_le_bytes_of_u64s_injective(a: Seq<u64>, b: Seq<u64>)
    requires
        le_bytes_of_u64s(a) == le_bytes_of_u64s(b),
    ensures
        a == b,
{
    lemma_le_bytes_of_u64s_index(a);
    lemma_le_bytes_of_u64s_index(b);
    vstd::bytes::lemma_auto_spec_u64_to_from_le_bytes();
    assert(a.len() == b.len());
    assert forall|i: int| 0 <= i < a.len() implies a[i] == b[i] by {
        assert(spec_u64_to_le_bytes(a[i]) == le_bytes_of_u64s(a).subrange(8 * i, 8 * i + 8));
        assert(spec_u64_to_le_bytes(b[i]) == le_bytes_of_u64s(b).subrange(8 * i, 8 * i + 8));
        assert(spec_u64_from_le_bytes(spec_u64_to_le_bytes(a[i])) == a[i]);
        assert(spec_u64_from_le_bytes(spec_u64_to_le_bytes(b[i])) == b[i]);
    }
    assert(a =~= b);
}

} // verus!
