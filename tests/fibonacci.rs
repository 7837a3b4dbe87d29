use fibonacci_lib::matrix::Matrix;
use fibonacci_lib::{
    fibonacci_iterative, fibonacci_recursive, fibonacci_recursive_with_memoization,
    fibonacci_with_matrix,
};

fn all_variants(n: u32) -> [(u32, u32); 4] {
    [
        fibonacci_iterative(n),
        fibonacci_recursive(n),
        fibonacci_recursive_with_memoization(n),
        fibonacci_with_matrix(n),
    ]
}

/// Exact F(n) and F(n + 1) reduced modulo 2^32, for n small enough that they fit in u128.
fn exact_reduced(n: u32) -> (u32, u32) {
    let mut a: u128 = 0;
    let mut b: u128 = 1;
    for _ in 0..n {
        let c = a + b;
        a = b;
        b = c;
    }
    ((a % (1u128 << 32)) as u32, (b % (1u128 << 32)) as u32)
}

#[test]
fn base_cases_every_variant() {
    let expected = [(0, (0, 1)), (1, (1, 1)), (2, (1, 2)), (3, (2, 3)), (10, (55, 89))];
    for (n, pair) in expected {
        for r in all_variants(n) {
            assert_eq!(r, pair, "n = {}", n);
        }
    }
}

#[test]
fn variants_agree_on_a_range() {
    for n in 0..=1000u32 {
        let rs = all_variants(n);
        assert!(rs.iter().all(|r| *r == rs[0]), "n = {}", n);
    }
}

#[test]
fn variants_agree_on_sampled_large_inputs() {
    for n in [2048u32, 4095, 5000, 7777, 10000] {
        let rs = all_variants(n);
        assert!(rs.iter().all(|r| *r == rs[0]), "n = {}", n);
    }
}

#[test]
fn results_wrap_modulo_two_to_the_32() {
    // F(50) = 12586269025 and F(51) = 20365011074 both exceed u32::MAX.
    for r in all_variants(50) {
        assert_eq!(r, (3996334433, 3185141890));
    }
    for n in [47u32, 48, 64, 100, 150, 185] {
        for r in all_variants(n) {
            assert_eq!(r, exact_reduced(n), "n = {}", n);
        }
    }
}

#[test]
fn largest_input_iterative_and_matrix_agree() {
    assert_eq!(fibonacci_iterative(1_000_000), fibonacci_with_matrix(1_000_000));
}

#[test]
fn repeated_calls_give_the_same_result() {
    for n in [0u32, 1, 7, 93, 500] {
        assert_eq!(fibonacci_iterative(n), fibonacci_iterative(n));
        assert_eq!(fibonacci_recursive(n), fibonacci_recursive(n));
        assert_eq!(fibonacci_with_matrix(n), fibonacci_with_matrix(n));
        assert_eq!(
            fibonacci_recursive_with_memoization(n),
            fibonacci_recursive_with_memoization(n)
        );
    }
}

#[test]
fn memoized_result_independent_of_call_order() {
    let first = fibonacci_recursive_with_memoization(300);
    let small = fibonacci_recursive_with_memoization(12);
    let again = fibonacci_recursive_with_memoization(300);
    assert_eq!(first, again);
    assert_eq!(small, (144, 233));
    assert_eq!(first, fibonacci_iterative(300));
}

#[test]
fn matrix_new_keeps_cells() {
    let m = Matrix::new([4, 3, 2, 1]);
    assert_eq!(m.values, [4, 3, 2, 1]);
}

#[test]
fn matrix_identity_cells() {
    assert_eq!(Matrix::identity().values, [1, 0, 0, 1]);
    let m = Matrix::new([5, 6, 7, 8]);
    assert_eq!(m.multiply(&Matrix::identity()).values, [5, 6, 7, 8]);
    assert_eq!(Matrix::identity().multiply(&m).values, [5, 6, 7, 8]);
}

#[test]
fn matrix_multiply_exact_product() {
    let x = Matrix::new([1, 2, 3, 4]);
    let y = Matrix::new([5, 6, 7, 8]);
    assert_eq!(x.multiply(&y).values, [19, 22, 43, 50]);
}

#[test]
fn matrix_multiply_wraps() {
    let x = Matrix::new([u32::MAX, 2, 0, 1]);
    let y = Matrix::new([u32::MAX, 0, 1, 0]);
    // (2^32 - 1)^2 + 2 = 2^64 - 2^33 + 3, which is 3 modulo 2^32.
    assert_eq!(x.multiply(&y).values, [3, 0, 1, 0]);
}

fn transition_power(k: u32) -> Matrix {
    let m = Matrix::new([1, 1, 1, 0]);
    let mut acc = Matrix::identity();
    for _ in 0..k {
        acc = acc.multiply(&m);
    }
    acc
}

#[test]
fn transition_powers_add() {
    for (a, b) in [(0u32, 0u32), (0, 5), (3, 4), (40, 60), (123, 456)] {
        let lhs = transition_power(a).multiply(&transition_power(b));
        assert_eq!(lhs.values, transition_power(a + b).values, "a = {}, b = {}", a, b);
    }
}

#[test]
fn transition_power_matches_iterative() {
    for n in [1u32, 10, 50, 99, 1000] {
        let p = transition_power(n);
        let (f, g) = fibonacci_iterative(n);
        let (e, _) = fibonacci_iterative(n - 1);
        assert_eq!(p.values, [g, f, f, e], "n = {}", n);
    }
}
