use arma_pipeline::scalar::Scalar;
use arma_pipeline::simplex::{
    after_contraction, after_expansion, after_reflection, perturbation, sort_order,
    Contraction, Expansion, Move, Perturbation, MAX_ITERATIONS, NEAR_ZERO_BITS,
    TOLERANCE_BITS,
};

fn objective(values: &[f64]) -> Vec<Scalar> {
    values.iter().map(|v| Scalar::from_bits(v.to_bits())).collect()
}

fn v(x: f64) -> Scalar {
    Scalar::from_bits(x.to_bits())
}

#[test]
fn vertices_are_ordered_from_best_to_worst() {
    assert_eq!(sort_order(&objective(&[3.0, 1.0, 2.0])), vec![1, 2, 0]);
    assert_eq!(sort_order(&objective(&[1.0, 2.0, 3.0])), vec![0, 1, 2]);
    assert_eq!(sort_order(&objective(&[3.0, 2.0, 1.0])), vec![2, 1, 0]);
    assert_eq!(sort_order(&objective(&[7.0])), vec![0]);
    assert_eq!(sort_order(&[]), Vec::<usize>::new());
    assert_eq!(
        sort_order(&objective(&[f64::INFINITY, -1.0, f64::NEG_INFINITY, 0.0])),
        vec![2, 1, 3, 0]
    );
}

#[test]
fn equal_values_keep_their_places() {
    assert_eq!(sort_order(&objective(&[5.0, 3.0, 5.0, 3.0, 5.0])), vec![1, 3, 0, 2, 4]);
    assert_eq!(sort_order(&objective(&[0.0, -0.0, 0.0])), vec![0, 1, 2]);
    assert_eq!(sort_order(&objective(&[-0.0, 0.0, -1.0])), vec![2, 0, 1]);
}

#[test]
fn order_agrees_with_a_stable_sort() {
    let mut seed: u64 = 0x9E37_79B9_7F4A_7C15;
    for len in 0..40usize {
        let mut raw = Vec::new();
        for _ in 0..len {
            seed = seed.wrapping_mul(6364136223846793005).wrapping_add(1442695040888963407);
            raw.push(((seed >> 33) % 7) as f64 - 3.0);
        }
        let mut want: Vec<(usize, f64)> = raw.iter().copied().enumerate().collect();
        want.sort_by(|a, b| a.1.partial_cmp(&b.1).unwrap());
        let want: Vec<usize> = want.into_iter().map(|(i, _)| i).collect();
        let values = objective(&raw);
        let order = sort_order(&values);
        assert_eq!(order, want);
        for k in 1..len {
            assert!(values[order[k - 1]].le(&values[order[k]]));
        }
    }
}

#[test]
fn reflected_value_decides_the_move() {
    let sorted = objective(&[1.0, 2.0, 3.0, 4.0]);
    assert_eq!(after_reflection(&sorted, v(0.5)), Move::Expand);
    assert_eq!(after_reflection(&sorted, v(1.0)), Move::AcceptReflection);
    assert_eq!(after_reflection(&sorted, v(2.9)), Move::AcceptReflection);
    assert_eq!(after_reflection(&sorted, v(3.0)), Move::ContractOutside);
    assert_eq!(after_reflection(&sorted, v(3.9)), Move::ContractOutside);
    assert_eq!(after_reflection(&sorted, v(4.0)), Move::ContractInside);
    assert_eq!(after_reflection(&sorted, v(9.0)), Move::ContractInside);
    assert_eq!(after_reflection(&sorted, v(f64::NAN)), Move::ContractInside);
}

#[test]
fn with_two_vertices_the_best_is_the_second_worst() {
    let sorted = objective(&[1.0, 4.0]);
    assert_eq!(after_reflection(&sorted, v(0.0)), Move::Expand);
    assert_eq!(after_reflection(&sorted, v(1.0)), Move::ContractOutside);
    assert_eq!(after_reflection(&sorted, v(3.0)), Move::ContractOutside);
    assert_eq!(after_reflection(&sorted, v(4.0)), Move::ContractInside);
}

#[test]
fn expansion_and_contraction() {
    assert_eq!(after_expansion(v(1.0), v(2.0)), Expansion::KeepExpanded);
    assert_eq!(after_expansion(v(2.0), v(2.0)), Expansion::KeepReflected);
    assert_eq!(after_expansion(v(3.0), v(2.0)), Expansion::KeepReflected);
    assert_eq!(after_expansion(v(f64::NAN), v(2.0)), Expansion::KeepReflected);
    assert_eq!(after_contraction(v(1.0), v(2.0)), Contraction::Accept);
    assert_eq!(after_contraction(v(2.0), v(2.0)), Contraction::Shrink);
    assert_eq!(after_contraction(v(f64::NAN), v(2.0)), Contraction::Shrink);
}

#[test]
fn coordinates_near_zero_are_nudged() {
    assert_eq!(perturbation(v(5.0)), Perturbation::Scale);
    assert_eq!(perturbation(v(-5.0)), Perturbation::Scale);
    assert_eq!(perturbation(v(0.0)), Perturbation::Nudge);
    assert_eq!(perturbation(v(1.0e-6)), Perturbation::Nudge);
    assert_eq!(perturbation(v(-1.0e-6)), Perturbation::Nudge);
    assert_eq!(perturbation(v(1.1e-6)), Perturbation::Scale);
    assert_eq!(perturbation(v(f64::NAN)), Perturbation::Nudge);
}

#[test]
fn search_constants() {
    assert_eq!(MAX_ITERATIONS, 800);
    assert_eq!(TOLERANCE_BITS, 1.0e-7f64.to_bits());
    assert_eq!(NEAR_ZERO_BITS, 1.0e-6f64.to_bits());
}
