//! The lane-chunked reduction engine.
//!
//! Every sum the library derives — a dot product or a squared norm — is
//! produced by one walk over the buffers: the elements are taken four at a
//! time, each chunk folded into a four-lane accumulator with a lane-wise
//! multiply-add, the accumulator is then reduced horizontally to one
//! scalar, and the zero to three leftover elements are added to that same
//! scalar one multiplication and one addition at a time, left to right.
//! The spec functions below state that order exactly, and each executable
//! reduction is proved to return precisely the stated fold, whatever the
//! buffer length's alignment to the lane width.

use vstd::prelude::*;

use crate::fbits::{
    add32, add_bits, all_zero_bits, is_zero_bits, lane_mul_add, lane_mul_add_bits,
    lane_reduce_add, lane_sum_bits, mul32, mul_bits, POS_ZERO_BITS,
};

verus! {

/// The four-lane accumulator before any chunk has been folded in.
pub open spec fn zero_lanes() -> Seq<u32> {
    seq![POS_ZERO_BITS, POS_ZERO_BITS, POS_ZERO_BITS, POS_ZERO_BITS]
}

/// Chunk `j` of a buffer: its elements `[4j, 4j + 4)`.
pub open spec fn chunk4(v: Seq<u32>, j: int) -> Seq<u32> {
    v.subrange(4 * j, 4 * j + 4)
}

/// The lane accumulator after the first `k` full chunks of the
/// element-wise products of `a` and `b` have been folded in, in chunk
/// order, one lane-wise multiply-add per chunk.
pub open spec fn lane_acc(a: Seq<u32>, b: Seq<u32>, k: nat) -> Seq<u32>
    decreases k,
{
    if k == 0 {
        zero_lanes()
    } else {
        lane_mul_add_bits(chunk4(a, k - 1), chunk4(b, k - 1), lane_acc(a, b, (k - 1) as nat))
    }
}

/// The scalar accumulator after the remainder elements `[i, len)` of the
/// element-wise products of `a` and `b` have been added to `acc`, left to
/// right, one multiplication and one addition per element.
pub open spec fn scalar_acc(a: Seq<u32>, b: Seq<u32>, i: nat, acc: u32) -> u32
    decreases a.len() - i,
{
    if i >= a.len() {
        acc
    } else {
        scalar_acc(a, b, i + 1, add_bits(acc, mul_bits(a[i as int], b[i as int])))
    }
}

/// The dot product of `a` and `b` as the reduction engine computes it:
/// all full chunks folded lane-wise, the lanes reduced horizontally to a
/// scalar, then the remainder added in scalar steps.
pub open spec fn dot_bits(a: Seq<u32>, b: Seq<u32>) -> u32 {
    scalar_acc(a, b, (a.len() / 4) * 4, lane_sum_bits(lane_acc(a, b, a.len() / 4)))
}

/// The squared Euclidean norm of `a`: the engine's dot product of `a`
/// with itself.
pub open spec fn norm_sq_bits(a: Seq<u32>) -> u32 {
    dot_bits(a, a)
}

/// Loads the chunk starting at `i` into a lane-width array.
fn load_chunk(a: &[u32], i: usize) -> (r: [u32; 4])
    requires
        i + 4 <= a@.len(),
    ensures
        r@ == a@.subrange(i as int, i as int + 4),
{
    let n: usize = a.len();
    let c: [u32; 4] = [
        *vstd::slice::slice_index_get(a, i),
        *vstd::slice::slice_index_get(a, i + 1),
        *vstd::slice::slice_index_get(a, i + 2),
        *vstd::slice::slice_index_get(a, i + 3),
    ];
    proof {
        assert(c@ =~= a@.subrange(i as int, i as int + 4));
    }
    c
}

/// The dot product of two equal-length buffers, chunked as the model
/// states.
pub(crate) fn dot_product_simd_only(vec_a: &[u32], vec_b: &[u32]) -> (r: u32)
    requires
        vec_a@.len() == vec_b@.len(),
    ensures
        r == dot_bits(vec_a@, vec_b@),
{
    let len: usize = vec_a.len();
    let simd_len: usize = len - (len % 4);
    let mut dot_acc: [u32; 4] = [POS_ZERO_BITS, POS_ZERO_BITS, POS_ZERO_BITS, POS_ZERO_BITS];
    let mut i: usize = 0;
    let ghost mut k: nat = 0;
    proof {
        assert(dot_acc@ =~= zero_lanes());
    }
    while i < simd_len
        invariant
            vec_a@.len() == vec_b@.len(),
            len == vec_a@.len(),
            simd_len == (len as int / 4) * 4,
            simd_len <= len,
            i == 4 * k,
            i <= simd_len,
            dot_acc@ == lane_acc(vec_a@, vec_b@, k),
        decreases simd_len - i,
    {
        let ca = load_chunk(vec_a, i);
        let cb = load_chunk(vec_b, i);
        dot_acc = lane_mul_add(&ca, &cb, &dot_acc);
        proof {
            k = k + 1;
            assert(ca@ == chunk4(vec_a@, k - 1));
            assert(cb@ == chunk4(vec_b@, k - 1));
        }
        i = i + 4;
    }
    let mut dot_product: u32 = lane_reduce_add(&dot_acc);
    proof {
        assert(k == len as int / 4);
        assert(dot_bits(vec_a@, vec_b@) == scalar_acc(
            vec_a@,
            vec_b@,
            i as nat,
            dot_product,
        ));
    }
    while i < len
        invariant
            vec_a@.len() == vec_b@.len(),
            len == vec_a@.len(),
            i <= len,
            dot_bits(vec_a@, vec_b@) == scalar_acc(vec_a@, vec_b@, i as nat, dot_product),
        decreases len - i,
    {
        let pa: u32 = *vstd::slice::slice_index_get(vec_a, i);
        let pb: u32 = *vstd::slice::slice_index_get(vec_b, i);
        dot_product = add32(dot_product, mul32(pa, pb));
        i = i + 1;
    }
    dot_product
}

/// The squared norm of one buffer, chunked as the model states.
pub(crate) fn compute_norm_squared_simd(vec: &[u32]) -> (r: u32)
    ensures
        r == norm_sq_bits(vec@),
        all_zero_bits(vec@) ==> r == POS_ZERO_BITS,
{
    let len: usize = vec.len();
    let simd_len: usize = len - (len % 4);
    let mut norm_acc: [u32; 4] = [POS_ZERO_BITS, POS_ZERO_BITS, POS_ZERO_BITS, POS_ZERO_BITS];
    let mut i: usize = 0;
    let ghost mut k: nat = 0;
    proof {
        assert(norm_acc@ =~= zero_lanes());
    }
    while i < simd_len
        invariant
            len == vec@.len(),
            simd_len == (len as int / 4) * 4,
            simd_len <= len,
            i == 4 * k,
            i <= simd_len,
            norm_acc@ == lane_acc(vec@, vec@, k),
            all_zero_bits(vec@) ==> (forall|n: int| 0 <= n < 4 ==> norm_acc@[n] == POS_ZERO_BITS),
        decreases simd_len - i,
    {
        let c = load_chunk(vec, i);
        norm_acc = lane_mul_add(&c, &c, &norm_acc);
        proof {
            k = k + 1;
            assert(c@ == chunk4(vec@, k - 1));
            if all_zero_bits(vec@) {
                assert forall|n: int| 0 <= n < 4 implies is_zero_bits(c@[n]) by {
                    assert(c@[n] == vec@[i as int + n]);
                }
            }
        }
        i = i + 4;
    }
    let mut norm_sq: u32 = lane_reduce_add(&norm_acc);
    proof {
        assert(k == len as int / 4);
        assert(norm_sq_bits(vec@) == scalar_acc(vec@, vec@, i as nat, norm_sq));
    }
    while i < len
        invariant
            len == vec@.len(),
            i <= len,
            norm_sq_bits(vec@) == scalar_acc(vec@, vec@, i as nat, norm_sq),
            all_zero_bits(vec@) ==> norm_sq == POS_ZERO_BITS,
        decreases len - i,
    {
        let p: u32 = *vstd::slice::slice_index_get(vec, i);
        norm_sq = add32(norm_sq, mul32(p, p));
        i = i + 1;
    }
    norm_sq
}

/// The dot product of the two buffers together with the squared norm of
/// the first, both accumulated in one pass over the chunks.
pub(crate) fn dot_product_and_norm_simd(vec_a: &[u32], vec_b: &[u32]) -> (r: (u32, u32))
    requires
        vec_a@.len() == vec_b@.len(),
    ensures
        r.0 == dot_bits(vec_a@, vec_b@),
        r.1 == norm_sq_bits(vec_a@),
        all_zero_bits(vec_a@) ==> r.1 == POS_ZERO_BITS,
{
    let len: usize = vec_a.len();
    let simd_len: usize = len - (len % 4);
    let mut dot_acc: [u32; 4] = [POS_ZERO_BITS, POS_ZERO_BITS, POS_ZERO_BITS, POS_ZERO_BITS];
    let mut norm_a_acc: [u32; 4] = [POS_ZERO_BITS, POS_ZERO_BITS, POS_ZERO_BITS, POS_ZERO_BITS];
    let mut i: usize = 0;
    let ghost mut k: nat = 0;
    proof {
        assert(dot_acc@ =~= zero_lanes());
    }
    while i < simd_len
        invariant
            vec_a@.len() == vec_b@.len(),
            len == vec_a@.len(),
            simd_len == (len as int / 4) * 4,
            simd_len <= len,
            i == 4 * k,
            i <= simd_len,
            dot_acc@ == lane_acc(vec_a@, vec_b@, k),
            norm_a_acc@ == lane_acc(vec_a@, vec_a@, k),
            all_zero_bits(vec_a@) ==> (forall|n: int|
                0 <= n < 4 ==> norm_a_acc@[n] == POS_ZERO_BITS),
        decreases simd_len - i,
    {
        let ca = load_chunk(vec_a, i);
        let cb = load_chunk(vec_b, i);
        dot_acc = lane_mul_add(&ca, &cb, &dot_acc);
        norm_a_acc = lane_mul_add(&ca, &ca, &norm_a_acc);
        proof {
            k = k + 1;
            assert(ca@ == chunk4(vec_a@, k - 1));
            assert(cb@ == chunk4(vec_b@, k - 1));
            if all_zero_bits(vec_a@) {
                assert forall|n: int| 0 <= n < 4 implies is_zero_bits(ca@[n]) by {
                    assert(ca@[n] == vec_a@[i as int + n]);
                }
            }
        }
        i = i + 4;
    }
    let mut dot_product: u32 = lane_reduce_add(&dot_acc);
    let mut norm_a_sq: u32 = lane_reduce_add(&norm_a_acc);
    proof {
        assert(k == len as int / 4);
        assert(dot_bits(vec_a@, vec_b@) == scalar_acc(vec_a@, vec_b@, i as nat, dot_product));
        assert(norm_sq_bits(vec_a@) == scalar_acc(vec_a@, vec_a@, i as nat, norm_a_sq));
    }
    while i < len
        invariant
            vec_a@.len() == vec_b@.len(),
            len == vec_a@.len(),
            i <= len,
            dot_bits(vec_a@, vec_b@) == scalar_acc(vec_a@, vec_b@, i as nat, dot_product),
            norm_sq_bits(vec_a@) == scalar_acc(vec_a@, vec_a@, i as nat, norm_a_sq),
            all_zero_bits(vec_a@) ==> norm_a_sq == POS_ZERO_BITS,
        decreases len - i,
    {
        let pa: u32 = *vstd::slice::slice_index_get(vec_a, i);
        let pb: u32 = *vstd::slice::slice_index_get(vec_b, i);
        dot_product = add32(dot_product, mul32(pa, pb));
        norm_a_sq = add32(norm_a_sq, mul32(pa, pa));
        i = i + 1;
    }
    (dot_product, norm_a_sq)
}

/// The dot product and both squared norms, all three accumulated in one
/// pass over the chunks.
pub(crate) fn dot_product_and_norms_simd(vec_a: &[u32], vec_b: &[u32]) -> (r: (u32, u32, u32))
    requires
        vec_a@.len() == vec_b@.len(),
    ensures
        r.0 == dot_bits(vec_a@, vec_b@),
        r.1 == norm_sq_bits(vec_a@),
        r.2 == norm_sq_bits(vec_b@),
        all_zero_bits(vec_a@) ==> r.1 == POS_ZERO_BITS,
        all_zero_bits(vec_b@) ==> r.2 == POS_ZERO_BITS,
{
    let len: usize = vec_a.len();
    let simd_len: usize = len - (len % 4);
    let mut dot_acc: [u32; 4] = [POS_ZERO_BITS, POS_ZERO_BITS, POS_ZERO_BITS, POS_ZERO_BITS];
    let mut norm_a_acc: [u32; 4] = [POS_ZERO_BITS, POS_ZERO_BITS, POS_ZERO_BITS, POS_ZERO_BITS];
    let mut norm_b_acc: [u32; 4] = [POS_ZERO_BITS, POS_ZERO_BITS, POS_ZERO_BITS, POS_ZERO_BITS];
    let mut i: usize = 0;
    let ghost mut k: nat = 0;
    proof {
        assert(dot_acc@ =~= zero_lanes());
    }
    while i < simd_len
        invariant
            vec_a@.len() == vec_b@.len(),
            len == vec_a@.len(),
            simd_len == (len as int / 4) * 4,
            simd_len <= len,
            i == 4 * k,
            i <= simd_len,
            dot_acc@ == lane_acc(vec_a@, vec_b@, k),
            norm_a_acc@ == lane_acc(vec_a@, vec_a@, k),
            norm_b_acc@ == lane_acc(vec_b@, vec_b@, k),
            all_zero_bits(vec_a@) ==> (forall|n: int|
                0 <= n < 4 ==> norm_a_acc@[n] == POS_ZERO_BITS),
            all_zero_bits(vec_b@) ==> (forall|n: int|
                0 <= n < 4 ==> norm_b_acc@[n] == POS_ZERO_BITS),
        decreases simd_len - i,
    {
        let ca = load_chunk(vec_a, i);
        let cb = load_chunk(vec_b, i);
        dot_acc = lane_mul_add(&ca, &cb, &dot_acc);
        norm_a_acc = lane_mul_add(&ca, &ca, &norm_a_acc);
        norm_b_acc = lane_mul_add(&cb, &cb, &norm_b_acc);
        proof {
            k = k + 1;
            assert(ca@ == chunk4(vec_a@, k - 1));
            assert(cb@ == chunk4(vec_b@, k - 1));
            if all_zero_bits(vec_a@) {
                assert forall|n: int| 0 <= n < 4 implies is_zero_bits(ca@[n]) by {
                    assert(ca@[n] == vec_a@[i as int + n]);
                }
            }
            if all_zero_bits(vec_b@) {
                assert forall|n: int| 0 <= n < 4 implies is_zero_bits(cb@[n]) by {
                    assert(cb@[n] == vec_b@[i as int + n]);
                }
            }
        }
        i = i + 4;
    }
    let mut dot_product: u32 = lane_reduce_add(&dot_acc);
    let mut norm_a_sq: u32 = lane_reduce_add(&norm_a_acc);
    let mut norm_b_sq: u32 = lane_reduce_add(&norm_b_acc);
    proof {
        assert(k == len as int / 4);
        assert(dot_bits(vec_a@, vec_b@) == scalar_acc(vec_a@, vec_b@, i as nat, dot_product));
        assert(norm_sq_bits(vec_a@) == scalar_acc(vec_a@, vec_a@, i as nat, norm_a_sq));
        assert(norm_sq_bits(vec_b@) == scalar_acc(vec_b@, vec_b@, i as nat, norm_b_sq));
    }
    while i < len
        invariant
            vec_a@.len() == vec_b@.len(),
            len == vec_a@.len(),
            i <= len,
            dot_bits(vec_a@, vec_b@) == scalar_acc(vec_a@, vec_b@, i as nat, dot_product),
            norm_sq_bits(vec_a@) == scalar_acc(vec_a@, vec_a@, i as nat, norm_a_sq),
            norm_sq_bits(vec_b@) == scalar_acc(vec_b@, vec_b@, i as nat, norm_b_sq),
            all_zero_bits(vec_a@) ==> norm_a_sq == POS_ZERO_BITS,
            all_zero_bits(vec_b@) ==> norm_b_sq == POS_ZERO_BITS,
        decreases len - i,
    {
        let pa: u32 = *vstd::slice::slice_index_get(vec_a, i);
        let pb: u32 = *vstd::slice::slice_index_get(vec_b, i);
        dot_product = add32(dot_product, mul32(pa, pb));
        norm_a_sq = add32(norm_a_sq, mul32(pa, pa));
        norm_b_sq = add32(norm_b_sq, mul32(pb, pb));
        i = i + 1;
    }
    (dot_product, norm_a_sq, norm_b_sq)
}

} // verus!
