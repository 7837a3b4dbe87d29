use crate::model::{fib, lemma_wrap_dot_left, lemma_wrap_dot_right, lemma_wrap_sum, lemma_wrap_u32, wrap};
use vstd::arithmetic::mul::{
    lemma_mul_is_associative, lemma_mul_is_distributive_add,
    lemma_mul_is_distributive_add_other_way,
};
use vstd::prelude::*;

verus! {

/// A 2x2 matrix of `u32` cells in row-major order.
pub struct Matrix {
    pub values: [u32; 4],
}

/// The wrapping product of two 2x2 matrices given by their row-major cells.
pub open spec fn product(x: Seq<u32>, y: Seq<u32>) -> Seq<u32> {
    seq![
        wrap(x[0] * y[0] + x[1] * y[2]),
        wrap(x[0] * y[1] + x[1] * y[3]),
        wrap(x[2] * y[0] + x[3] * y[2]),
        wrap(x[2] * y[1] + x[3] * y[3]),
    ]
}

/// The cells of the identity matrix.
pub open spec fn identity_cells() -> Seq<u32> {
    seq![1u32, 0u32, 0u32, 1u32]
}

/// The cells of the Fibonacci transition matrix [[1, 1], [1, 0]].
pub open spec fn transition_cells() -> Seq<u32> {
    seq![1u32, 1u32, 1u32, 0u32]
}

/// The k-th power of the transition matrix under wrapping arithmetic.
pub open spec fn transition_power(k: nat) -> Seq<u32>
    decreases k,
{
    if k == 0 {
        identity_cells()
    } else {
        product(transition_power((k - 1) as nat), transition_cells())
    }
}

/// F(k - 1), with F(-1) = 1 so that the recurrence holds at k = 0 too.
pub open spec fn fib_before(k: nat) -> nat {
    if k == 0 {
        1
    } else {
        fib((k - 1) as nat)
    }
}

impl View for Matrix {
    type V = Seq<u32>;

    open spec fn view(&self) -> Seq<u32> {
        self.values@
    }
}

impl Matrix {
    /// Builds a matrix from four cells in row-major order.
    pub fn new(values: [u32; 4]) -> (r: Matrix)
        ensures
            r.values == values,
    {
        Matrix { values }
    }

    /// The wrapping product `self * other`.
    pub fn multiply(&self, other: &Matrix) -> (r: Matrix)
        ensures
            r@ == product(self@, other@),
    {
        let x = &self.values;
        let y = &other.values;
        let r = Matrix::new(
            [
                x[0].wrapping_mul(y[0]).wrapping_add(x[1].wrapping_mul(y[2])),
                x[0].wrapping_mul(y[1]).wrapping_add(x[1].wrapping_mul(y[3])),
                x[2].wrapping_mul(y[0]).wrapping_add(x[3].wrapping_mul(y[2])),
                x[2].wrapping_mul(y[1]).wrapping_add(x[3].wrapping_mul(y[3])),
            ],
        );
        proof {
            lemma_wrapping_dot(x[0], y[0], x[1], y[2]);
            lemma_wrapping_dot(x[0], y[1], x[1], y[3]);
            lemma_wrapping_dot(x[2], y[0], x[3], y[2]);
            lemma_wrapping_dot(x[2], y[1], x[3], y[3]);
            assert(r@ =~= product(self@, other@));
        }
        r
    }

    /// The identity matrix [[1, 0], [0, 1]].
    pub fn identity() -> (r: Matrix)
        ensures
            r@ == identity_cells(),
    {
        let r = Matrix::new([1, 0, 0, 1]);
        assert(r@ =~= identity_cells());
        r
    }
}

/// One cell of the wrapping product is associative: row `(a0, a1)` times the
/// matrix `b` times column `(c0, c1)`, grouped either way.
proof fn lemma_cell_associative(a0: int, a1: int, b00: int, b01: int, b10: int, b11: int, c0: int, c1: int)
    ensures
        wrap(wrap(a0 * b00 + a1 * b10) * c0 + wrap(a0 * b01 + a1 * b11) * c1) == wrap(a0 * wrap(
            b00 * c0 + b01 * c1,
        ) + a1 * wrap(b10 * c0 + b11 * c1)),
{
    lemma_wrap_dot_left(a0 * b00 + a1 * b10, a0 * b01 + a1 * b11, c0, c1);
    lemma_wrap_dot_right(a0, a1, b00 * c0 + b01 * c1, b10 * c0 + b11 * c1);
    lemma_mul_is_distributive_add_other_way(c0, a0 * b00, a1 * b10);
    lemma_mul_is_distributive_add_other_way(c1, a0 * b01, a1 * b11);
    lemma_mul_is_distributive_add(a0, b00 * c0, b01 * c1);
    lemma_mul_is_distributive_add(a1, b10 * c0, b11 * c1);
    lemma_mul_is_associative(a0, b00, c0);
    lemma_mul_is_associative(a0, b01, c1);
    lemma_mul_is_associative(a1, b10, c0);
    lemma_mul_is_associative(a1, b11, c1);
}

/// The wrapping matrix product is associative: (x * y) * z == x * (y * z).
pub proof fn lemma_product_associative(x: Seq<u32>, y: Seq<u32>, z: Seq<u32>)
    requires
        x.len() == 4,
        y.len() == 4,
        z.len() == 4,
    ensures
        product(product(x, y), z) == product(x, product(y, z)),
{
    lemma_cell_associative(x[0] as int, x[1] as int, y[0] as int, y[1] as int, y[2] as int, y[3] as int, z[0] as int, z[2] as int);
    lemma_cell_associative(x[0] as int, x[1] as int, y[0] as int, y[1] as int, y[2] as int, y[3] as int, z[1] as int, z[3] as int);
    lemma_cell_associative(x[2] as int, x[3] as int, y[0] as int, y[1] as int, y[2] as int, y[3] as int, z[0] as int, z[2] as int);
    lemma_cell_associative(x[2] as int, x[3] as int, y[0] as int, y[1] as int, y[2] as int, y[3] as int, z[1] as int, z[3] as int);
    assert(product(product(x, y), z) =~= product(x, product(y, z)));
}

/// The identity matrix is a right unit of the wrapping product.
pub proof fn lemma_product_identity(x: Seq<u32>)
    requires
        x.len() == 4,
    ensures
        product(x, identity_cells()) == x,
{
    lemma_wrap_u32(x[0]);
    lemma_wrap_u32(x[1]);
    lemma_wrap_u32(x[2]);
    lemma_wrap_u32(x[3]);
    let e = identity_cells();
    assert(e[0] == 1 && e[1] == 0 && e[2] == 0 && e[3] == 1);
    assert(product(x, identity_cells()) =~= x);
}

/// Every power of the transition matrix has four cells.
pub proof fn lemma_power_len(k: nat)
    ensures
        transition_power(k).len() == 4,
{
}

/// Powers of the transition matrix add under the wrapping product:
/// M^a * M^b == M^(a + b), cell by cell modulo 2^32.
pub proof fn lemma_power_add(a: nat, b: nat)
    ensures
        product(transition_power(a), transition_power(b)) == transition_power(a + b),
    decreases b,
{
    lemma_power_len(a);
    if b == 0 {
        lemma_product_identity(transition_power(a));
    } else {
        let pb = (b - 1) as nat;
        lemma_power_len(pb);
        lemma_power_add(a, pb);
        lemma_product_associative(transition_power(a), transition_power(pb), transition_cells());
        assert(a + pb + 1 == a + b);
    }
}

/// M^k is [[F(k + 1), F(k)], [F(k), F(k - 1)]] with each cell reduced modulo 2^32.
pub proof fn lemma_power_cells(k: nat)
    ensures
        transition_power(k) == seq![
            wrap(fib(k + 1) as int),
            wrap(fib(k) as int),
            wrap(fib(k) as int),
            wrap(fib_before(k) as int),
        ],
    decreases k,
{
    if k == 0 {
        assert(fib(1) == 1);
        assert(transition_power(0) =~= seq![
            wrap(fib(1) as int),
            wrap(fib(0) as int),
            wrap(fib(0) as int),
            wrap(fib_before(0) as int),
        ]);
    } else {
        let j = (k - 1) as nat;
        lemma_power_cells(j);
        let p = transition_power(j);
        assert(fib(j + 2) == fib(j) + fib(j + 1));
        assert(fib(j + 1) == fib(j) + fib_before(j)) by {
            if j > 0 {
                assert(fib((j - 1 + 2) as nat) == fib((j - 1) as nat) + fib((j - 1 + 1) as nat));
            }
        }
        lemma_wrap_sum(fib(j + 1) as int, fib(j) as int);
        lemma_wrap_sum(fib(j) as int, fib_before(j) as int);
        lemma_wrap_u32(p[0]);
        lemma_wrap_u32(p[2]);
        let t = transition_cells();
        assert(t[0] == 1 && t[1] == 1 && t[2] == 1 && t[3] == 0);
        assert(fib_before(k) == fib(j));
        assert(transition_power(k) =~= seq![
            wrap(fib(k + 1) as int),
            wrap(fib(k) as int),
            wrap(fib(k) as int),
            wrap(fib_before(k) as int),
        ]);
    }
}

/// A wrapping dot product of two cells is the residue of the exact one.
proof fn lemma_wrapping_dot(a: u32, b: u32, c: u32, d: u32)
    ensures
        a.wrapping_mul(b).wrapping_add(c.wrapping_mul(d)) == wrap(a * b + c * d),
{
    lemma_wrap_dot_left(a * b, c * d, 1, 1);
}

} // verus!
