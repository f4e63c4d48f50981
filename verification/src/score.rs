//! From reduced sums to similarity scores.
//!
//! A cosine score is the dot product over the product of the two norms,
//! guarded twice: a zero norm makes the angle undefined, so the score is
//! zero rather than NaN; and rounding in the reduction can push the
//! quotient marginally past the mathematical range, so the quotient is
//! clamped to `[-1, 1]`.  The spec functions here state those rules over
//! the bit-pattern model; the batch and matrix result sequences are
//! stated alongside them.

use vstd::prelude::*;

use crate::fbits::{
    all_zero_bits, div32, div_bits, eq_zero, is_zero_bits, max32, max_bits, min32, min_bits,
    mul32, mul_bits, sqrt_bits, NEG_ONE_BITS, ONE_BITS, POS_ZERO_BITS,
};
use crate::reduce::{dot_bits, norm_sq_bits};

verus! {

/// A quotient clamped to the valid cosine range: raised to `-1.0`, then
/// lowered to `1.0`.
pub open spec fn clamp_unit_bits(x: u32) -> u32 {
    min_bits(max_bits(x, NEG_ONE_BITS), ONE_BITS)
}

/// The similarity score derived from a dot product and the two norms:
/// zero when either norm is zero, else the clamped quotient
/// `dot / (norm_a * norm_b)`.
pub open spec fn score_from_norms(dot: u32, norm_a: u32, norm_b: u32) -> u32 {
    if is_zero_bits(norm_a) || is_zero_bits(norm_b) {
        POS_ZERO_BITS
    } else {
        clamp_unit_bits(div_bits(dot, mul_bits(norm_a, norm_b)))
    }
}

/// Derives the score from a dot product and two norms, exactly as
/// `score_from_norms` states it.
pub(crate) fn similarity_from_norms(dot: u32, norm_a: u32, norm_b: u32) -> (r: u32)
    ensures
        r == score_from_norms(dot, norm_a, norm_b),
{
    if eq_zero(norm_a) || eq_zero(norm_b) {
        POS_ZERO_BITS
    } else {
        let magnitude: u32 = mul32(norm_a, norm_b);
        min32(max32(div32(dot, magnitude), NEG_ONE_BITS), ONE_BITS)
    }
}

/// The single-pair score: `0.0` for mismatched lengths or empty input,
/// else the guarded, clamped cosine of the two buffers.
pub open spec fn pair_score(a: Seq<u32>, b: Seq<u32>) -> u32 {
    if a.len() != b.len() || a.len() == 0 {
        POS_ZERO_BITS
    } else {
        score_from_norms(dot_bits(a, b), sqrt_bits(norm_sq_bits(a)), sqrt_bits(norm_sq_bits(b)))
    }
}

/// Vector `i` of a flat set of `dim`-wide vectors.
pub open spec fn row(v: Seq<u32>, dim: int, i: int) -> Seq<u32> {
    v.subrange(i * dim, (i + 1) * dim)
}

/// The batch inputs are well-shaped: a positive dimension, a flat buffer
/// holding whole vectors, and a query of that dimension.
pub open spec fn batch_shape_ok(vectors: Seq<u32>, query: Seq<u32>, dim: int) -> bool {
    dim > 0 && vectors.len() as int % dim == 0 && query.len() == dim
}

/// One candidate's score against a query whose norm is already known.
/// The batch routine tests the candidate's squared norm (not its root)
/// against zero, and divides by the candidate norm times the query norm.
pub open spec fn batch_cell(cand: Seq<u32>, query: Seq<u32>, query_norm: u32) -> u32 {
    let vns = norm_sq_bits(cand);
    if is_zero_bits(vns) {
        POS_ZERO_BITS
    } else {
        clamp_unit_bits(div_bits(dot_bits(cand, query), mul_bits(sqrt_bits(vns), query_norm)))
    }
}

/// The batch result: empty for a bad shape; all zeros when the query's
/// squared norm is zero; else one `batch_cell` per candidate, in order.
pub open spec fn batch_scores(vectors: Seq<u32>, query: Seq<u32>, dim: int) -> Seq<u32> {
    if !batch_shape_ok(vectors, query, dim) {
        Seq::empty()
    } else {
        let k = vectors.len() as int / dim;
        if is_zero_bits(norm_sq_bits(query)) {
            Seq::new(k as nat, |i: int| POS_ZERO_BITS)
        } else {
            Seq::new(
                k as nat,
                |i: int| batch_cell(row(vectors, dim, i), query, sqrt_bits(norm_sq_bits(query))),
            )
        }
    }
}

/// The matrix inputs are well-shaped: a positive dimension and two flat
/// buffers holding whole vectors.
pub open spec fn matrix_shape_ok(vectors_a: Seq<u32>, vectors_b: Seq<u32>, dim: int) -> bool {
    dim > 0 && vectors_a.len() as int % dim == 0 && vectors_b.len() as int % dim == 0
}

/// One matrix entry: the score of row `i` of the first set against row
/// `j` of the second, from the precomputed norms of both rows.
pub open spec fn matrix_cell(
    vectors_a: Seq<u32>,
    vectors_b: Seq<u32>,
    dim: int,
    i: int,
    j: int,
) -> u32 {
    score_from_norms(
        dot_bits(row(vectors_a, dim, i), row(vectors_b, dim, j)),
        sqrt_bits(norm_sq_bits(row(vectors_a, dim, i))),
        sqrt_bits(norm_sq_bits(row(vectors_b, dim, j))),
    )
}

/// Every output entry that crosses a zero row of either set is `0.0`:
/// in a row-major layout of `num_b`-wide rows, entry `t` whenever row
/// `t / num_b` of the first set or row `t % num_b` of the second holds
/// nothing but zeros.
pub open spec fn zero_rows_scored_zero(
    vectors_a: Seq<u32>,
    vectors_b: Seq<u32>,
    dim: int,
    out: Seq<u32>,
) -> bool {
    forall|t: int|
        #![trigger out[t]]
        0 <= t < out.len() && (all_zero_bits(
            row(vectors_a, dim, t / (vectors_b.len() as int / dim)),
        ) || all_zero_bits(row(vectors_b, dim, t % (vectors_b.len() as int / dim)))) ==> out[t]
            == POS_ZERO_BITS
}

/// The matrix result: empty for a bad shape, else all entries in
/// row-major order, entry `i * num_b + j` crossing rows `i` and `j`.
pub open spec fn matrix_scores(vectors_a: Seq<u32>, vectors_b: Seq<u32>, dim: int) -> Seq<u32> {
    if !matrix_shape_ok(vectors_a, vectors_b, dim) {
        Seq::empty()
    } else {
        let num_a = vectors_a.len() as int / dim;
        let num_b = vectors_b.len() as int / dim;
        Seq::new(
            (num_a * num_b) as nat,
            |t: int| matrix_cell(vectors_a, vectors_b, dim, t / num_b, t % num_b),
        )
    }
}

} // verus!
