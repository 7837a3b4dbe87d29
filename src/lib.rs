//! The n-th Fibonacci number, with wrapping 32-bit arithmetic, computed in
//! four interchangeable ways. Each returns the pair (F(n), F(n + 1)) reduced
//! modulo 2^32.
use std::collections::BTreeMap;
use vstd::prelude::*;

pub mod matrix;
pub mod model;

pub use matrix::Matrix;
use matrix::{lemma_power_cells, transition_cells, transition_power};
use model::{fib_pair, lemma_fib_pair_base, lemma_fib_pair_step};

verus! {

/// Computes (F(n), F(n + 1)) modulo 2^32 by applying (a, b) -> (b, a + b)
/// to (0, 1) exactly `n` times.
pub fn fibonacci_iterative(n: u32) -> (r: (u32, u32))
    ensures
        r == fib_pair(n as nat),
{
    let mut a: u32 = 0;
    let mut b: u32 = 1;
    for i in 0..n
        invariant
            (a, b) == fib_pair(i as nat),
    {
        proof {
            lemma_fib_pair_step(i as nat);
        }
        let c = a.wrapping_add(b);
        a = b;
        b = c;
    }
    (a, b)
}

/// Computes (F(n), F(n + 1)) modulo 2^32 by direct recursion on `n - 1`.
pub fn fibonacci_recursive(n: u32) -> (r: (u32, u32))
    ensures
        r == fib_pair(n as nat),
    decreases n,
{
    proof {
        lemma_fib_pair_base();
    }
    if n == 0 {
        (0, 1)
    } else if n == 1 {
        (1, 1)
    } else {
        let (a, b) = fibonacci_recursive(n - 1);
        proof {
            lemma_fib_pair_step((n - 1) as nat);
        }
        (b, a.wrapping_add(b))
    }
}

/// Every entry of the cache maps an index `k` to the reduced pair of `k`.
pub open spec fn memo_valid(memo: Map<u32, (u32, u32)>) -> bool {
    forall|k: u32| #[trigger] memo.contains_key(k) ==> memo[k] == fib_pair(k as nat)
}

/// Computes (F(n), F(n + 1)) modulo 2^32 by recursion, with a cache that is
/// created empty for this call and dropped when it returns.
pub fn fibonacci_recursive_with_memoization(n: u32) -> (r: (u32, u32))
    ensures
        r == fib_pair(n as nat),
{
    let mut memo: BTreeMap<u32, (u32, u32)> = BTreeMap::new();
    fibonacci_recursive_with_memoization_helper(n, &mut memo)
}

/// Recursion on `n - 1` that consults `memo` before recursing and records each
/// pair it computes for an index from 2 to `n`. Whatever valid entries the cache holds
/// on entry, the result is the same, and the cache stays valid and only grows.
fn fibonacci_recursive_with_memoization_helper(
    n: u32,
    memo: &mut BTreeMap<u32, (u32, u32)>,
) -> (r: (u32, u32))
    requires
        memo_valid(old(memo)@),
    ensures
        r == fib_pair(n as nat),
        memo_valid(final(memo)@),
        old(memo)@.submap_of(final(memo)@),
        forall|k: u32|
            #[trigger] final(memo)@.contains_key(k) && !old(memo)@.contains_key(k) ==> 2 <= k <= n,
    decreases n,
{
    broadcast use {
        vstd::laws_cmp::group_laws_cmp,
        vstd::std_specs::btree::axiom_maps_deref_key_to_value,
        vstd::std_specs::btree::axiom_contains_deref_key,
    };

    proof {
        lemma_fib_pair_base();
    }
    if n == 0 {
        return (0, 1);
    }
    if n == 1 {
        return (1, 1);
    }
    if let Some((a, b)) = memo.get(&n) {
        return (*a, *b);
    }
    let (a, b) = fibonacci_recursive_with_memoization_helper(n - 1, memo);
    proof {
        lemma_fib_pair_step((n - 1) as nat);
    }
    let result = (b, a.wrapping_add(b));
    assert(!memo@.contains_key(n));
    memo.insert(n, result);
    result
}

/// Computes (F(n), F(n + 1)) modulo 2^32 by multiplying the identity matrix
/// by [[1, 1], [1, 0]] exactly `n` times and reading the top row.
pub fn fibonacci_with_matrix(n: u32) -> (r: (u32, u32))
    ensures
        r == fib_pair(n as nat),
{
    let mut matrix = Matrix::identity();
    let multiplier = Matrix::new([1, 1, 1, 0]);
    assert(multiplier@ =~= transition_cells());
    for i in 0..n
        invariant
            matrix@ == transition_power(i as nat),
            multiplier@ == transition_cells(),
    {
        matrix = matrix.multiply(&multiplier);
    }
    proof {
        lemma_power_cells(n as nat);
    }
    (matrix.values[1], matrix.values[0])
}

} // verus!
