//! Verified cosine-similarity kernels over single-precision vectors.
//!
//! The library scores dense vectors held as flat buffers of IEEE 754
//! single-precision bit patterns: one pair at a time, one query against a
//! set of candidates, or every pair across two sets.  All three
//! operations are built from one lane-chunked reduction engine
//! ([`reduce`]) and one guarded, clamped scoring rule ([`score`]), and
//! each is proved to return exactly the sequence its spec-level model
//! states.

pub mod fbits;
pub mod reduce;
pub mod score;

use vstd::prelude::*;

use crate::fbits::{
    all_zero_bits, div32, eq_zero, is_zero_bits, max32, min32, mul32, sqrt32, sqrt_bits,
    NEG_ONE_BITS, ONE_BITS, POS_ZERO_BITS,
};
use crate::reduce::{
    compute_norm_squared_simd, dot_product_and_norm_simd, dot_product_and_norms_simd,
    dot_product_simd_only, norm_sq_bits,
};
use crate::score::{
    batch_cell, batch_scores, batch_shape_ok, matrix_cell, matrix_scores, matrix_shape_ok,
    pair_score, row, zero_rows_scored_zero,
};

verus! {

/// Row `i` of a flat set of `dim`-wide vectors lies within the buffer,
/// and its end is the start of row `i + 1`.
proof fn lemma_row_in_flat(len: int, dim: int, i: int)
    requires
        dim > 0,
        len % dim == 0,
        0 <= i < len / dim,
    ensures
        0 <= i * dim,
        (i + 1) * dim == i * dim + dim,
        i * dim + dim <= len,
{
    vstd::arithmetic::div_mod::lemma_fundamental_div_mod(len, dim);
    assert(len == dim * (len / dim));
    assert(0 <= i * dim && (i + 1) * dim == i * dim + dim && i * dim + dim <= dim * (len / dim))
        by (nonlinear_arith)
        requires
            dim > 0,
            0 <= i,
            i < len / dim,
    ;
}

/// In a row-major layout of `num_b`-wide rows, the flat index
/// `i * num_b + j` decomposes back into row `i` and column `j`.
proof fn lemma_rowmajor_index(num_b: int, i: int, j: int)
    requires
        num_b > 0,
        0 <= i,
        0 <= j < num_b,
    ensures
        (i * num_b + j) / num_b == i,
        (i * num_b + j) % num_b == j,
{
    vstd::arithmetic::div_mod::lemma_fundamental_div_mod_converse(i * num_b + j, num_b, i, j);
}

/// The stateless handle exposing the similarity operations.
pub struct SIMDMath;

impl SIMDMath {
    /// A fresh handle; the type carries no state.
    pub fn new() -> SIMDMath {
        SIMDMath
    }

    /// The cosine similarity of two vectors: `0.0` for mismatched
    /// lengths or empty input, else the guarded, clamped cosine that
    /// `pair_score` states, from one combined pass producing the dot
    /// product and both squared norms.
    pub fn cosine_similarity(&self, vec_a: &[u32], vec_b: &[u32]) -> (r: u32)
        ensures
            r == pair_score(vec_a@, vec_b@),
            vec_a@.len() != vec_b@.len() || vec_a@.len() == 0 ==> r == POS_ZERO_BITS,
            all_zero_bits(vec_a@) || all_zero_bits(vec_b@) ==> r == POS_ZERO_BITS,
    {
        if vec_a.len() != vec_b.len() || vec_a.len() == 0 {
            return POS_ZERO_BITS;
        }
        let sums = dot_product_and_norms_simd(vec_a, vec_b);
        let norm_a: u32 = sqrt32(sums.1);
        let norm_b: u32 = sqrt32(sums.2);
        crate::score::similarity_from_norms(sums.0, norm_a, norm_b)
    }

    /// One query against every candidate in a flat buffer: empty for a
    /// bad shape, all zeros for a zero-norm query, else one guarded,
    /// clamped score per candidate in order, the query's norm computed
    /// once and reused, as `batch_scores` states.
    pub fn batch_similarity(&self, vectors: &[u32], query: &[u32], vector_dim: usize) -> (r: Vec<
        u32,
    >)
        ensures
            r@ == batch_scores(vectors@, query@, vector_dim as int),
            !batch_shape_ok(vectors@, query@, vector_dim as int) ==> r@.len() == 0,
            batch_shape_ok(vectors@, query@, vector_dim as int) ==> r@.len() == vectors@.len()
                as int / vector_dim as int,
            all_zero_bits(query@) ==> forall|t: int| 0 <= t < r@.len() ==> r@[t] == POS_ZERO_BITS,
            forall|t: int|
                0 <= t < r@.len() && all_zero_bits(row(vectors@, vector_dim as int, t))
                    ==> r@[t] == POS_ZERO_BITS,
    {
        if vector_dim == 0 {
            return Vec::new();
        }
        if vectors.len() % vector_dim != 0 {
            return Vec::new();
        }
        if query.len() != vector_dim {
            return Vec::new();
        }
        let buf_len: usize = vectors.len();
        let num_vectors: usize = buf_len / vector_dim;
        let query_norm_sq: u32 = compute_norm_squared_simd(query);
        let mut results: Vec<u32> = Vec::new();
        if eq_zero(query_norm_sq) {
            let mut i: usize = 0;
            while i < num_vectors
                invariant
                    i <= num_vectors,
                    results@.len() == i,
                    forall|t: int| 0 <= t < i ==> results@[t] == POS_ZERO_BITS,
                decreases num_vectors - i,
            {
                results.push(POS_ZERO_BITS);
                i = i + 1;
            }
            proof {
                assert(results@ =~= batch_scores(vectors@, query@, vector_dim as int));
            }
            return results;
        }
        let query_norm: u32 = sqrt32(query_norm_sq);
        let mut i: usize = 0;
        while i < num_vectors
            invariant
                batch_shape_ok(vectors@, query@, vector_dim as int),
                buf_len == vectors@.len(),
                num_vectors == vectors@.len() as int / vector_dim as int,
                !is_zero_bits(norm_sq_bits(query@)),
                query_norm == sqrt_bits(norm_sq_bits(query@)),
                i <= num_vectors,
                results@.len() == i,
                forall|t: int|
                    0 <= t < i ==> results@[t] == batch_cell(
                        row(vectors@, vector_dim as int, t),
                        query@,
                        query_norm,
                    ),
                forall|t: int|
                    0 <= t < i && all_zero_bits(row(vectors@, vector_dim as int, t))
                        ==> results@[t] == POS_ZERO_BITS,
            decreases num_vectors - i,
        {
            proof {
                lemma_row_in_flat(vectors@.len() as int, vector_dim as int, i as int);
            }
            let start: usize = i * vector_dim;
            let vector_slice = vstd::slice::slice_subrange(vectors, start, start + vector_dim);
            let sums = dot_product_and_norm_simd(vector_slice, query);
            if eq_zero(sums.1) {
                results.push(POS_ZERO_BITS);
            } else {
                let vector_norm: u32 = sqrt32(sums.1);
                let magnitude: u32 = mul32(vector_norm, query_norm);
                let similarity: u32 = min32(max32(div32(sums.0, magnitude), NEG_ONE_BITS), ONE_BITS);
                results.push(similarity);
            }
            i = i + 1;
        }
        proof {
            assert(results@ =~= batch_scores(vectors@, query@, vector_dim as int));
        }
        results
    }

    /// Every pair across two flat sets, row-major: empty for a bad
    /// shape, else entry `i * num_b + j` scores row `i` of the first set
    /// against row `j` of the second, as `matrix_scores` states.  Each
    /// row's norm is computed once up front; a zero-norm row of the
    /// first set zeroes its whole output row without touching the
    /// second set's data.
    pub fn similarity_matrix(&self, vectors_a: &[u32], vectors_b: &[u32], vector_dim: usize) -> (r:
        Vec<u32>)
        ensures
            r@ == matrix_scores(vectors_a@, vectors_b@, vector_dim as int),
            matrix_shape_ok(vectors_a@, vectors_b@, vector_dim as int) ==> r@.len() == (
            vectors_a@.len() as int / vector_dim as int) * (vectors_b@.len() as int
                / vector_dim as int),
            !matrix_shape_ok(vectors_a@, vectors_b@, vector_dim as int) ==> r@.len() == 0,
            matrix_shape_ok(vectors_a@, vectors_b@, vector_dim as int)
                ==> zero_rows_scored_zero(vectors_a@, vectors_b@, vector_dim as int, r@),
    {
        if vector_dim == 0 || vectors_a.len() % vector_dim != 0 || vectors_b.len() % vector_dim
            != 0 {
            return Vec::new();
        }
        let len_a: usize = vectors_a.len();
        let len_b: usize = vectors_b.len();
        let num_a: usize = len_a / vector_dim;
        let num_b: usize = len_b / vector_dim;
        let ghost dim: int = vector_dim as int;

        let mut norms_a: Vec<u32> = Vec::new();
        let mut i: usize = 0;
        while i < num_a
            invariant
                vector_dim > 0,
                len_a == vectors_a@.len(),
                len_a as int % dim == 0,
                dim == vector_dim as int,
                num_a == len_a as int / dim,
                i <= num_a,
                norms_a@.len() == i,
                forall|t: int|
                    0 <= t < i ==> norms_a@[t] == sqrt_bits(
                        norm_sq_bits(row(vectors_a@, dim, t)),
                    ),
                forall|t: int|
                    0 <= t < i && all_zero_bits(row(vectors_a@, dim, t)) ==> norms_a@[t]
                        == POS_ZERO_BITS,
            decreases num_a - i,
        {
            proof {
                lemma_row_in_flat(len_a as int, dim, i as int);
            }
            let start: usize = i * vector_dim;
            let s = vstd::slice::slice_subrange(vectors_a, start, start + vector_dim);
            norms_a.push(sqrt32(compute_norm_squared_simd(s)));
            i = i + 1;
        }

        let mut norms_b: Vec<u32> = Vec::new();
        let mut j: usize = 0;
        while j < num_b
            invariant
                vector_dim > 0,
                len_b == vectors_b@.len(),
                len_b as int % dim == 0,
                dim == vector_dim as int,
                num_b == len_b as int / dim,
                j <= num_b,
                norms_b@.len() == j,
                forall|t: int|
                    0 <= t < j ==> norms_b@[t] == sqrt_bits(
                        norm_sq_bits(row(vectors_b@, dim, t)),
                    ),
                forall|t: int|
                    0 <= t < j && all_zero_bits(row(vectors_b@, dim, t)) ==> norms_b@[t]
                        == POS_ZERO_BITS,
            decreases num_b - j,
        {
            proof {
                lemma_row_in_flat(len_b as int, dim, j as int);
            }
            let start: usize = j * vector_dim;
            let s = vstd::slice::slice_subrange(vectors_b, start, start + vector_dim);
            norms_b.push(sqrt32(compute_norm_squared_simd(s)));
            j = j + 1;
        }

        let mut results: Vec<u32> = Vec::new();
        let mut i: usize = 0;
        while i < num_a
            invariant
                matrix_shape_ok(vectors_a@, vectors_b@, dim),
                vector_dim > 0,
                dim == vector_dim as int,
                len_a == vectors_a@.len(),
                len_b == vectors_b@.len(),
                num_a == len_a as int / dim,
                num_b == len_b as int / dim,
                norms_a@.len() == num_a,
                norms_b@.len() == num_b,
                forall|t: int|
                    0 <= t < num_a ==> norms_a@[t] == sqrt_bits(
                        norm_sq_bits(row(vectors_a@, dim, t)),
                    ),
                forall|t: int|
                    0 <= t < num_b ==> norms_b@[t] == sqrt_bits(
                        norm_sq_bits(row(vectors_b@, dim, t)),
                    ),
                forall|t: int|
                    0 <= t < num_a && all_zero_bits(row(vectors_a@, dim, t)) ==> norms_a@[t]
                        == POS_ZERO_BITS,
                forall|t: int|
                    0 <= t < num_b && all_zero_bits(row(vectors_b@, dim, t)) ==> norms_b@[t]
                        == POS_ZERO_BITS,
                i <= num_a,
                results@.len() == i * num_b as int,
                forall|t: int|
                    0 <= t < results@.len() ==> results@[t] == matrix_cell(
                        vectors_a@,
                        vectors_b@,
                        dim,
                        t / num_b as int,
                        t % num_b as int,
                    ),
                forall|t: int|
                    0 <= t < results@.len() && (all_zero_bits(
                        row(vectors_a@, dim, t / num_b as int),
                    ) || all_zero_bits(row(vectors_b@, dim, t % num_b as int))) ==> results@[t]
                        == POS_ZERO_BITS,
            decreases num_a - i,
        {
            proof {
                lemma_row_in_flat(len_a as int, dim, i as int);
                assert((i + 1) * num_b as int == i * num_b as int + num_b as int)
                    by (nonlinear_arith);
            }
            let start_a: usize = i * vector_dim;
            let vec_a = vstd::slice::slice_subrange(vectors_a, start_a, start_a + vector_dim);
            let norm_a: u32 = norms_a[i];

            if eq_zero(norm_a) {
                let mut j: usize = 0;
                while j < num_b
                    invariant
                        i < num_a,
                        norms_a@.len() == num_a,
                        is_zero_bits(norms_a@[i as int]),
                        norms_a@[i as int] == sqrt_bits(norm_sq_bits(row(vectors_a@, dim, i as int))),
                        j <= num_b,
                        results@.len() == i * num_b as int + j,
                        forall|t: int|
                            0 <= t < results@.len() ==> results@[t] == matrix_cell(
                                vectors_a@,
                                vectors_b@,
                                dim,
                                t / num_b as int,
                                t % num_b as int,
                            ),
                        forall|t: int|
                            0 <= t < results@.len() && (all_zero_bits(
                                row(vectors_a@, dim, t / num_b as int),
                            ) || all_zero_bits(row(vectors_b@, dim, t % num_b as int)))
                                ==> results@[t] == POS_ZERO_BITS,
                    decreases num_b - j,
                {
                    proof {
                        lemma_rowmajor_index(num_b as int, i as int, j as int);
                    }
                    results.push(POS_ZERO_BITS);
                    j = j + 1;
                }
            } else {
                proof {
                    assert(!all_zero_bits(row(vectors_a@, dim, i as int)));
                }
                let mut j: usize = 0;
                while j < num_b
                    invariant
                        matrix_shape_ok(vectors_a@, vectors_b@, dim),
                        vector_dim > 0,
                        dim == vector_dim as int,
                        len_b == vectors_b@.len(),
                        num_b == len_b as int / dim,
                        norms_b@.len() == num_b,
                        forall|t: int|
                            0 <= t < num_b ==> norms_b@[t] == sqrt_bits(
                                norm_sq_bits(row(vectors_b@, dim, t)),
                            ),
                        len_a == vectors_a@.len(),
                        num_a == len_a as int / dim,
                        i < num_a,
                        vec_a@ == row(vectors_a@, dim, i as int),
                        norm_a == sqrt_bits(norm_sq_bits(row(vectors_a@, dim, i as int))),
                        !is_zero_bits(norm_a),
                        !all_zero_bits(row(vectors_a@, dim, i as int)),
                        forall|t: int|
                            0 <= t < num_b && all_zero_bits(row(vectors_b@, dim, t))
                                ==> norms_b@[t] == POS_ZERO_BITS,
                        j <= num_b,
                        results@.len() == i * num_b as int + j,
                        forall|t: int|
                            0 <= t < results@.len() ==> results@[t] == matrix_cell(
                                vectors_a@,
                                vectors_b@,
                                dim,
                                t / num_b as int,
                                t % num_b as int,
                            ),
                        forall|t: int|
                            0 <= t < results@.len() && (all_zero_bits(
                                row(vectors_a@, dim, t / num_b as int),
                            ) || all_zero_bits(row(vectors_b@, dim, t % num_b as int)))
                                ==> results@[t] == POS_ZERO_BITS,
                    decreases num_b - j,
                {
                    proof {
                        lemma_row_in_flat(len_a as int, dim, i as int);
                        lemma_row_in_flat(len_b as int, dim, j as int);
                        lemma_rowmajor_index(num_b as int, i as int, j as int);
                    }
                    let start_b: usize = j * vector_dim;
                    let vec_b = vstd::slice::slice_subrange(
                        vectors_b,
                        start_b,
                        start_b + vector_dim,
                    );
                    let norm_b: u32 = norms_b[j];
                    if eq_zero(norm_b) {
                        results.push(POS_ZERO_BITS);
                    } else {
                        let dot_product: u32 = dot_product_simd_only(vec_a, vec_b);
                        let magnitude: u32 = mul32(norm_a, norm_b);
                        let similarity: u32 = min32(
                            max32(div32(dot_product, magnitude), NEG_ONE_BITS),
                            ONE_BITS,
                        );
                        results.push(similarity);
                    }
                    j = j + 1;
                }
            }
            i = i + 1;
        }
        proof {
            assert(results@ =~= matrix_scores(vectors_a@, vectors_b@, dim));
            assert forall|t: int|
                #![trigger results@[t]]
                0 <= t < results@.len() && (all_zero_bits(
                    row(vectors_a@, vector_dim as int, t / (vectors_b@.len() as int
                        / vector_dim as int)),
                ) || all_zero_bits(
                    row(vectors_b@, vector_dim as int, t % (vectors_b@.len() as int
                        / vector_dim as int)),
                )) implies results@[t] == POS_ZERO_BITS by {
                assert(vectors_b@.len() as int / vector_dim as int == num_b as int);
            }
            assert(zero_rows_scored_zero(vectors_a@, vectors_b@, vector_dim as int, results@));
        }
        results
    }
}

/// Law: each matrix entry equals the single-pair score of the two rows
/// it crosses — the matrix route, with its norms computed once up
/// front, returns bit for bit what `cosine_similarity` returns on the
/// same pair of rows.
pub proof fn lemma_matrix_consistent_with_pair(
    vectors_a: Seq<u32>,
    vectors_b: Seq<u32>,
    dim: int,
    i: int,
    j: int,
)
    requires
        matrix_shape_ok(vectors_a, vectors_b, dim),
        0 <= i < vectors_a.len() as int / dim,
        0 <= j < vectors_b.len() as int / dim,
    ensures
        matrix_scores(vectors_a, vectors_b, dim)[i * (vectors_b.len() as int / dim) + j]
            == pair_score(row(vectors_a, dim, i), row(vectors_b, dim, j)),
{
    let num_a = vectors_a.len() as int / dim;
    let num_b = vectors_b.len() as int / dim;
    let t = i * num_b + j;
    lemma_rowmajor_index(num_b, i, j);
    assert(0 <= t < num_a * num_b) by (nonlinear_arith)
        requires
            0 <= i < num_a,
            0 <= j < num_b,
            t == i * num_b + j,
    ;
    lemma_row_in_flat(vectors_a.len() as int, dim, i);
    lemma_row_in_flat(vectors_b.len() as int, dim, j);
    assert(row(vectors_a, dim, i).len() == dim);
    assert(row(vectors_b, dim, j).len() == dim);
}

/// Law: an all-zero row zeroes every matrix entry it crosses — entry
/// `i * num_b + j` is `0.0` whenever row `i` of the first set or row `j`
/// of the second holds nothing but zeros, as `similarity_matrix` ensures
/// through `zero_rows_scored_zero`.
pub proof fn lemma_zero_row_entry(
    vectors_a: Seq<u32>,
    vectors_b: Seq<u32>,
    dim: int,
    out: Seq<u32>,
    i: int,
    j: int,
)
    requires
        zero_rows_scored_zero(vectors_a, vectors_b, dim, out),
        out.len() == (vectors_a.len() as int / dim) * (vectors_b.len() as int / dim),
        0 <= i < vectors_a.len() as int / dim,
        0 <= j < vectors_b.len() as int / dim,
        all_zero_bits(row(vectors_a, dim, i)) || all_zero_bits(row(vectors_b, dim, j)),
    ensures
        out[i * (vectors_b.len() as int / dim) + j] == POS_ZERO_BITS,
{
    let num_b = vectors_b.len() as int / dim;
    let t = i * num_b + j;
    lemma_rowmajor_index(num_b, i, j);
    assert(0 <= t < (vectors_a.len() as int / dim) * num_b) by (nonlinear_arith)
        requires
            0 <= i < vectors_a.len() as int / dim,
            0 <= j < num_b,
            t == i * num_b + j,
    ;
    assert(out[t] == POS_ZERO_BITS);
}

/// Law: a zero-norm query makes every batch score zero — one zero per
/// candidate, the candidates' data never entering the result.
pub proof fn lemma_batch_zero_query(vectors: Seq<u32>, query: Seq<u32>, dim: int)
    requires
        batch_shape_ok(vectors, query, dim),
        is_zero_bits(norm_sq_bits(query)),
    ensures
        batch_scores(vectors, query, dim).len() == vectors.len() as int / dim,
        forall|t: int|
            0 <= t < vectors.len() as int / dim ==> batch_scores(vectors, query, dim)[t]
                == POS_ZERO_BITS,
{
}

} // verus!
