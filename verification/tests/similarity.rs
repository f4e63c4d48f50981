use simd_math::SIMDMath;

fn bits_of(v: &[f32]) -> Vec<u32> {
    let mut out: Vec<u32> = Vec::new();
    for x in v {
        out.push(x.to_bits());
    }
    out
}

fn val_of(b: u32) -> f32 {
    f32::from_bits(b)
}

fn vals_of(bs: &[u32]) -> Vec<f32> {
    let mut out: Vec<f32> = Vec::new();
    for b in bs {
        out.push(f32::from_bits(*b));
    }
    out
}

fn cosine(a: &[f32], b: &[f32]) -> f32 {
    let m = SIMDMath::new();
    val_of(m.cosine_similarity(&bits_of(a), &bits_of(b)))
}

/// A plain scalar reference: dot product and norms summed left to right
/// with separate multiplies and adds, no lanes.
fn naive_cosine(a: &[f32], b: &[f32]) -> f32 {
    let mut dot: f32 = 0.0;
    let mut na: f32 = 0.0;
    let mut nb: f32 = 0.0;
    for i in 0..a.len() {
        dot += a[i] * b[i];
        na += a[i] * a[i];
        nb += b[i] * b[i];
    }
    if na.sqrt() == 0.0 || nb.sqrt() == 0.0 {
        return 0.0;
    }
    (dot / (na.sqrt() * nb.sqrt())).max(-1.0).min(1.0)
}

#[test]
fn self_similarity_is_one() {
    let vs: Vec<Vec<f32>> = vec![
        vec![1.0, 2.0, 3.0, 4.0],
        vec![0.5, -2.25, 8.0],
        vec![3.0, 1.0, 4.0, 1.0, 5.0],
        vec![2.0, 7.0, 1.0, 8.0, 2.0, 8.0, 1.0, 8.0],
    ];
    for v in &vs {
        let s = cosine(v, v);
        assert!((s - 1.0).abs() <= 1e-6, "self similarity was {}", s);
    }
}

#[test]
fn negated_similarity_is_minus_one() {
    let v: Vec<f32> = vec![1.5, -2.0, 3.25, 4.0, 5.0];
    let neg: Vec<f32> = v.iter().map(|x| -x).collect();
    let s = cosine(&v, &neg);
    assert!((s + 1.0).abs() <= 1e-6, "negated similarity was {}", s);
}

#[test]
fn orthogonal_similarity_is_zero() {
    let a: Vec<f32> = vec![1.0, 0.0, 0.0, 0.0];
    let b: Vec<f32> = vec![0.0, 1.0, 0.0, 0.0];
    let s = cosine(&a, &b);
    assert!(s.abs() <= 1e-6, "orthogonal similarity was {}", s);
}

#[test]
fn result_stays_in_unit_range() {
    let cases: Vec<(Vec<f32>, Vec<f32>)> = vec![
        (vec![1.0, 2.0, 3.0, 4.0, 5.0], vec![5.0, 4.0, 3.0, 2.0, 1.0]),
        (vec![1e-20, 2e-20, 3e-20], vec![1e-20, 2e-20, 3e-20]),
        (vec![0.1, 0.2, 0.3, 0.4], vec![-0.4, -0.3, -0.2, -0.1]),
        (vec![1e19, 2e19, -3e18, 4e17], vec![1e19, 2e19, -3e18, 4e17]),
    ];
    for (a, b) in &cases {
        let s = cosine(a, b);
        assert!((-1.0..=1.0).contains(&s), "out of range: {}", s);
    }
}

#[test]
fn zero_vector_scores_zero() {
    let a: Vec<f32> = vec![0.0, 0.0, 0.0, 0.0];
    let b: Vec<f32> = vec![1.0, 2.0, 3.0, 4.0];
    assert_eq!(cosine(&a, &b), 0.0);
    assert_eq!(cosine(&b, &a), 0.0);
}

#[test]
fn mismatched_lengths_score_zero() {
    let a: Vec<f32> = vec![1.0, 2.0, 3.0];
    let b: Vec<f32> = vec![1.0, 2.0, 3.0, 4.0];
    assert_eq!(cosine(&a, &b), 0.0);
    let empty: Vec<f32> = vec![];
    assert_eq!(cosine(&empty, &empty), 0.0);
}

#[test]
fn batch_rejects_bad_shapes() {
    let m = SIMDMath::new();
    let vectors = bits_of(&[1.0, 2.0, 3.0, 4.0, 5.0]);
    let query = bits_of(&[1.0, 0.0]);
    assert!(m.batch_similarity(&vectors, &query, 2).is_empty());
    let vectors4 = bits_of(&[1.0, 2.0, 3.0, 4.0]);
    assert!(m.batch_similarity(&vectors4, &query, 0).is_empty());
    let query3 = bits_of(&[1.0, 0.0, 0.0]);
    assert!(m.batch_similarity(&vectors4, &query3, 4).is_empty());
}

#[test]
fn batch_zero_query_yields_zeros() {
    let m = SIMDMath::new();
    let vectors = bits_of(&[1.0, 2.0, 3.0, 4.0, 5.0, 6.0]);
    let query = bits_of(&[0.0, 0.0]);
    let out = vals_of(&m.batch_similarity(&vectors, &query, 2));
    assert_eq!(out, vec![0.0, 0.0, 0.0]);
}

#[test]
fn batch_self_is_one() {
    let m = SIMDMath::new();
    let v = bits_of(&[1.0, 2.0, 3.0, 4.0, 5.0]);
    let out = vals_of(&m.batch_similarity(&v, &v, 5));
    assert_eq!(out.len(), 1);
    assert!((out[0] - 1.0).abs() <= 1e-6, "batch self similarity was {}", out[0]);
}

#[test]
fn batch_matches_pairwise() {
    let m = SIMDMath::new();
    let vectors: Vec<f32> = vec![1.0, 2.0, 3.0, -4.0, 0.5, 6.0, 0.0, 0.0, 0.0, 7.0, -8.0, 9.5];
    let query: Vec<f32> = vec![0.25, -1.0, 2.0];
    let out = vals_of(&m.batch_similarity(&bits_of(&vectors), &bits_of(&query), 3));
    assert_eq!(out.len(), 4);
    for i in 0..4 {
        let row = &vectors[i * 3..(i + 1) * 3];
        let pair = cosine(row, &query);
        assert!(
            (out[i] - pair).abs() <= 1e-6,
            "candidate {}: batch {} vs pair {}",
            i,
            out[i],
            pair
        );
    }
}

#[test]
fn matrix_rejects_bad_shapes() {
    let m = SIMDMath::new();
    let a = bits_of(&[1.0, 2.0, 3.0]);
    let b = bits_of(&[1.0, 2.0]);
    assert!(m.similarity_matrix(&a, &b, 2).is_empty());
    assert!(m.similarity_matrix(&b, &a, 2).is_empty());
    assert!(m.similarity_matrix(&b, &b, 0).is_empty());
}

#[test]
fn matrix_length_is_product_of_counts() {
    let m = SIMDMath::new();
    let a = bits_of(&[1.0, 2.0, 3.0, 4.0, 5.0, 6.0]);
    let b = bits_of(&[1.0, 0.0, 0.0, 1.0, 2.0, 2.0, 3.0, -3.0]);
    let out = m.similarity_matrix(&a, &b, 2);
    assert_eq!(out.len(), 3 * 4);
}

#[test]
fn matrix_matches_pairwise() {
    let m = SIMDMath::new();
    let a: Vec<f32> = vec![1.0, 2.0, 3.0, 4.0, 5.0, -6.0, 7.0, 8.0, 0.0, 0.0, 0.0, 0.0];
    let b: Vec<f32> = vec![2.0, -1.0, 0.5, 3.0, 0.0, 0.0, 0.0, 0.0];
    let out = m.similarity_matrix(&bits_of(&a), &bits_of(&b), 4);
    assert_eq!(out.len(), 3 * 2);
    for i in 0..3 {
        for j in 0..2 {
            let ra = bits_of(&a[i * 4..(i + 1) * 4]);
            let rb = bits_of(&b[j * 4..(j + 1) * 4]);
            let pair = m.cosine_similarity(&ra, &rb);
            assert_eq!(
                out[i * 2 + j],
                pair,
                "entry ({}, {}) disagrees with the pair score",
                i,
                j
            );
        }
    }
}

#[test]
fn remainder_lengths_match_naive_scalar() {
    let cases: Vec<(Vec<f32>, Vec<f32>)> = vec![
        (
            vec![1.0, 2.0, 3.0, 4.0, 5.0],
            vec![5.0, 4.0, 3.0, 2.0, 1.0],
        ),
        (
            vec![0.5, -1.5, 2.5, -3.5, 4.5, -5.5],
            vec![1.25, 2.25, 3.25, 4.25, 5.25, 6.25],
        ),
        (
            vec![1.0, 1.0, 1.0, 1.0, 1.0, 1.0, 1.0],
            vec![2.0, 3.0, 4.0, 5.0, 6.0, 7.0, 8.0],
        ),
    ];
    for (a, b) in &cases {
        let fast = cosine(a, b);
        let slow = naive_cosine(a, b);
        let rel = ((fast - slow) / slow).abs();
        assert!(rel <= 1e-5, "length {}: {} vs naive {}", a.len(), fast, slow);
    }
}

#[test]
fn scenario_pair_and_matrix() {
    let m = SIMDMath::new();
    let s = cosine(&[1.0, 2.0, 3.0, 4.0], &[1.0, 2.0, 3.0, 4.0]);
    assert!((s - 1.0).abs() <= 1e-6, "scenario pair score was {}", s);
    let a = bits_of(&[1.0, 0.0, 0.0, 0.0, 0.0, 1.0, 0.0, 0.0]);
    let b = bits_of(&[1.0, 0.0, 0.0, 0.0]);
    let out = vals_of(&m.similarity_matrix(&a, &b, 4));
    assert_eq!(out, vec![1.0, 0.0]);
}

#[test]
fn exact_quotient_small_vectors() {
    // Lengths below the lane width take the pure scalar path; with small
    // integer values every step is exact until the final division, so the
    // score must equal the directly computed quotient bit for bit.
    let s = cosine(&[3.0, 4.0], &[4.0, 3.0]);
    assert_eq!(s, 24.0f32 / 25.0f32);
}

#[test]
fn lane_path_exact_dot() {
    // One full chunk, no remainder: dot 20 against norms 30 and 30, so
    // the lane accumulation and the horizontal reduction both enter the
    // quotient 2/3.
    let s = cosine(&[1.0, 2.0, 3.0, 4.0], &[4.0, 3.0, 2.0, 1.0]);
    assert!((s - 2.0 / 3.0).abs() <= 1e-6, "lane path score was {}", s);
}

#[test]
fn rounding_past_one_is_clamped() {
    // For this pair the quotient rounds to 1.0000001 before the clamp
    // (and to -1.0000001 for the negated partner), so the result is
    // exactly the clamp bound.
    assert_eq!(cosine(&[15.0, 10.0], &[15.0, 10.0]), 1.0);
    assert_eq!(cosine(&[15.0, 10.0], &[-15.0, -10.0]), -1.0);
}

#[test]
fn overflowing_norms_clamp_to_minus_one() {
    // Squared norms overflow to infinity, the quotient becomes NaN, and
    // the clamp turns NaN into -1.0: first raised to -1.0 (the non-NaN
    // operand), then left there by the upper clamp.
    let v: Vec<f32> = vec![1e38, 1e38, 1e38, 1e38];
    let s = cosine(&v, &v);
    assert_eq!(s, -1.0);
}

#[test]
fn matrix_zero_row_and_column() {
    let m = SIMDMath::new();
    let a = bits_of(&[0.0, 0.0, 1.0, 2.0]);
    let b = bits_of(&[0.0, 0.0, 3.0, 4.0]);
    let out = vals_of(&m.similarity_matrix(&a, &b, 2));
    // Row 0 of the first set has zero norm: its whole output row is zero.
    // Row 1 crosses a zero-norm column at entry 0.
    assert_eq!(out[0], 0.0);
    assert_eq!(out[1], 0.0);
    assert_eq!(out[2], 0.0);
    let pair = val_of(m.cosine_similarity(&bits_of(&[1.0, 2.0]), &bits_of(&[3.0, 4.0])));
    assert_eq!(out[3], pair);
}
