use vstd::arithmetic::div_mod::{lemma_add_mod_noop, lemma_mul_mod_noop_left, lemma_mul_mod_noop_right};
use vstd::prelude::*;

verus! {

/// The number of distinct `u32` values: all arithmetic here is modulo this.
pub open spec fn modulus() -> int {
    0x1_0000_0000
}

/// The residue of `v` modulo 2^32, as a `u32`.
pub open spec fn wrap(v: int) -> u32 {
    (v % modulus()) as u32
}

/// The exact Fibonacci numbers: F(0) = 0, F(1) = 1, F(k + 2) = F(k) + F(k + 1).
pub open spec fn fib(k: nat) -> nat
    decreases k,
{
    if k == 0 {
        0
    } else if k == 1 {
        1
    } else {
        fib((k - 2) as nat) + fib((k - 1) as nat)
    }
}

/// The pair (F(n), F(n + 1)), each reduced modulo 2^32.
pub open spec fn fib_pair(n: nat) -> (u32, u32) {
    (wrap(fib(n) as int), wrap(fib(n + 1) as int))
}

/// The first two reduced pairs.
pub proof fn lemma_fib_pair_base()
    ensures
        fib_pair(0) == (0u32, 1u32),
        fib_pair(1) == (1u32, 1u32),
{
    assert(fib(2) == 1) by {
        reveal_with_fuel(fib, 3);
    }
}

/// Reduction commutes with the integer value of a `u32`.
pub proof fn lemma_wrap_u32(x: u32)
    ensures
        wrap(x as int) == x,
        wrap(x as int) as int == x as int % modulus(),
{
}

/// The residue of a sum depends only on the residues of its terms.
pub proof fn lemma_wrap_sum(p: int, q: int)
    ensures
        wrap(wrap(p) + wrap(q)) == wrap(p + q),
{
    lemma_add_mod_noop(p, q, modulus());
}

/// The residue of `p * z + q * w` depends only on the residues of `p` and `q`.
pub proof fn lemma_wrap_dot_left(p: int, q: int, z: int, w: int)
    ensures
        wrap(wrap(p) * z + wrap(q) * w) == wrap(p * z + q * w),
{
    let m = modulus();
    lemma_mul_mod_noop_left(p, z, m);
    lemma_mul_mod_noop_left(q, w, m);
    lemma_add_mod_noop((p % m) * z, (q % m) * w, m);
    lemma_add_mod_noop(p * z, q * w, m);
}

/// The residue of `z * p + w * q` depends only on the residues of `p` and `q`.
pub proof fn lemma_wrap_dot_right(z: int, w: int, p: int, q: int)
    ensures
        wrap(z * wrap(p) + w * wrap(q)) == wrap(z * p + w * q),
{
    let m = modulus();
    lemma_mul_mod_noop_right(z, p, m);
    lemma_mul_mod_noop_right(w, q, m);
    lemma_add_mod_noop(z * (p % m), w * (q % m), m);
    lemma_add_mod_noop(z * p, w * q, m);
}

/// One step of the recurrence on reduced pairs: (a, b) becomes (b, a + b).
pub proof fn lemma_fib_pair_step(n: nat)
    ensures
        fib_pair(n + 1) == (fib_pair(n).1, fib_pair(n).0.wrapping_add(fib_pair(n).1)),
{
    assert(fib(n + 2) == fib(n) + fib(n + 1));
    lemma_wrap_sum(fib(n) as int, fib(n + 1) as int);
}

} // verus!
