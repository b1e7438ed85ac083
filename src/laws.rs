//! Algebraic laws that the matrix operations obey, stated over the integer model.
use vstd::prelude::*;
use crate::grid::{dot, grid_add, grid_add_row, grid_div, grid_mul, grid_neg, grid_scale, grid_sub, swapped, trunc_div};
use crate::matrix::Matrix;

verus! {

/// Two matrices with the same integer model are the same value.
pub proof fn lemma_ints_determine_matrix<const M: usize, const N: usize>(a: Matrix<i64, M, N>, b: Matrix<i64, M, N>)
    requires
        a.ints() == b.ints(),
    ensures
        a == b,
{
    broadcast use vstd::array::axiom_array_ext_equal;

    assert forall|i: int| 0 <= i < M implies #[trigger] a.0[i] == b.0[i] by {
        assert forall|j: int| 0 <= j < N implies #[trigger] a.0[i][j] == b.0[i][j] by {
            assert(a.ints()[i][j] == a.at(i, j) as int);
            assert(b.ints()[i][j] == b.at(i, j) as int);
        }
        assert(a.0[i] =~= b.0[i]);
    }
    assert(a.0 =~= b.0);
}

/// Adding `b` and then subtracting `b` gives back `a`.
pub proof fn lemma_add_then_sub<const M: usize, const N: usize>(a: Matrix<i64, M, N>, b: Matrix<i64, M, N>)
    ensures
        grid_sub(grid_add(a.ints(), b.ints()), b.ints()) == a.ints(),
{
    assert(grid_sub(grid_add(a.ints(), b.ints()), b.ints()) =~~= a.ints());
}

/// Negating twice gives back the matrix.
pub proof fn lemma_neg_neg<const M: usize, const N: usize>(a: Matrix<i64, M, N>)
    ensures
        grid_neg(grid_neg(a.ints())) == a.ints(),
{
    assert(grid_neg(grid_neg(a.ints())) =~~= a.ints());
}

/// Rust's division undoes a multiplication by the same nonzero integer.
pub proof fn lemma_trunc_div_of_product(x: int, s: int)
    requires
        s != 0,
    ensures
        trunc_div(x * s, s) == x,
{
    assert((x * s) / s == x) by (nonlinear_arith)
        requires
            s != 0,
    ;
    assert(((-x) * s) / s == -x) by (nonlinear_arith)
        requires
            s != 0,
    ;
    assert(-(x * s) == (-x) * s) by (nonlinear_arith);
}

/// Multiplying every element by a nonzero `s` and then dividing every element by `s`
/// gives back the matrix.
pub proof fn lemma_scale_then_div<const M: usize, const N: usize>(a: Matrix<i64, M, N>, s: int)
    requires
        s != 0,
    ensures
        grid_div(grid_scale(a.ints(), s), s) == a.ints(),
{
    assert forall|i: int, j: int| 0 <= i < M && 0 <= j < N implies
        #[trigger] grid_div(grid_scale(a.ints(), s), s)[i][j] == a.ints()[i][j] by {
        lemma_trunc_div_of_product(a.ints()[i][j], s);
    }
    assert(grid_div(grid_scale(a.ints(), s), s) =~~= a.ints());
}

/// A sum of products over the first `len` terms splits over a sum in the left factor.
proof fn lemma_dot_distributes(x: Seq<Seq<int>>, y: Seq<Seq<int>>, z: Seq<Seq<int>>, i: int, k: int, len: int)
    requires
        0 <= i < x.len(),
        x.len() == y.len(),
        0 <= len <= x[i].len(),
        x[i].len() == y[i].len(),
    ensures
        dot(grid_add(x, y), z, i, k, len) == dot(x, z, i, k, len) + dot(y, z, i, k, len),
    decreases len,
{
    if len > 0 {
        lemma_dot_distributes(x, y, z, i, k, len - 1);
        let a = x[i][len - 1];
        let b = y[i][len - 1];
        let c = z[len - 1][k];
        assert(grid_add(x, y)[i][len - 1] == a + b);
        assert((a + b) * c == a * c + b * c) by (nonlinear_arith);
    }
}

/// Matrix multiplication distributes over addition from the right:
/// `(a + b) * c == a * c + b * c`.
pub proof fn lemma_mul_distributes_over_add<const M: usize, const N: usize, const P: usize>(
    a: Matrix<i64, M, N>,
    b: Matrix<i64, M, N>,
    c: Matrix<i64, N, P>,
)
    ensures
        grid_mul(grid_add(a.ints(), b.ints()), c.ints(), P as nat) == grid_add(
            grid_mul(a.ints(), c.ints(), P as nat),
            grid_mul(b.ints(), c.ints(), P as nat),
        ),
{
    let lhs = grid_mul(grid_add(a.ints(), b.ints()), c.ints(), P as nat);
    let rhs = grid_add(grid_mul(a.ints(), c.ints(), P as nat), grid_mul(b.ints(), c.ints(), P as nat));
    assert forall|i: int, k: int| 0 <= i < M && 0 <= k < P implies #[trigger] lhs[i][k] == rhs[i][k] by {
        lemma_dot_distributes(a.ints(), b.ints(), c.ints(), i, k, N as int);
    }
    assert(lhs =~~= rhs);
}

/// Exchanging the same two rows twice gives back the matrix.
pub proof fn lemma_swap_rows_twice<T: Copy, const M: usize, const N: usize>(m: Matrix<T, M, N>, a: int, b: int)
    requires
        0 <= a < M,
        0 <= b < M,
    ensures
        swapped(swapped(m.row_seq(), a, b), a, b) == m.row_seq(),
{
    assert(swapped(swapped(m.row_seq(), a, b), a, b) =~= m.row_seq());
}

/// Adding `s` times row `r` to another row `o`, then `-s` times row `r` to row `o`,
/// gives back the matrix.
pub proof fn lemma_add_row_undone<const M: usize, const N: usize>(m: Matrix<i64, M, N>, r: int, o: int, s: int)
    requires
        0 <= r < M,
        0 <= o < M,
        r != o,
    ensures
        grid_add_row(grid_add_row(m.ints(), r, o, s), r, o, -s) == m.ints(),
{
    let g = grid_add_row(grid_add_row(m.ints(), r, o, s), r, o, -s);
    assert forall|j: int| 0 <= j < N implies #[trigger] g[o][j] == m.ints()[o][j] by {
        let x = m.ints()[o][j];
        let y = m.ints()[r][j];
        assert(x + y * s + y * (-s) == x) by (nonlinear_arith);
    }
    assert(g =~~= m.ints());
}

/// The sum of `f(j)` over `0 <= j < n`.
pub open spec fn sum(f: spec_fn(int) -> int, n: int) -> int
    decreases n,
{
    if n <= 0 {
        0
    } else {
        sum(f, n - 1) + f(n - 1)
    }
}

proof fn lemma_sum_ext(f: spec_fn(int) -> int, g: spec_fn(int) -> int, n: int)
    requires
        forall|j: int| 0 <= j < n ==> #[trigger] f(j) == g(j),
    ensures
        sum(f, n) == sum(g, n),
    decreases n,
{
    if n > 0 {
        lemma_sum_ext(f, g, n - 1);
    }
}

proof fn lemma_sum_add(f: spec_fn(int) -> int, g: spec_fn(int) -> int, n: int)
    ensures
        sum(|j: int| f(j) + g(j), n) == sum(f, n) + sum(g, n),
    decreases n,
{
    if n > 0 {
        lemma_sum_add(f, g, n - 1);
    }
}

proof fn lemma_sum_scale(f: spec_fn(int) -> int, c: int, n: int)
    ensures
        sum(|j: int| c * f(j), n) == c * sum(f, n),
    decreases n,
{
    if n > 0 {
        lemma_sum_scale(f, c, n - 1);
        let s = sum(f, n - 1);
        let v = f(n - 1);
        assert(c * s + c * v == c * (s + v)) by (nonlinear_arith);
    }
}

proof fn lemma_sum_zero(f: spec_fn(int) -> int, n: int)
    requires
        forall|j: int| 0 <= j < n ==> #[trigger] f(j) == 0,
    ensures
        sum(f, n) == 0,
    decreases n,
{
    if n > 0 {
        lemma_sum_zero(f, n - 1);
    }
}

/// A double sum may be taken in either order.
proof fn lemma_sum_swap(f: spec_fn(int, int) -> int, n: int, p: int)
    ensures
        sum(|k: int| sum(|j: int| f(j, k), n), p) == sum(|j: int| sum(|k: int| f(j, k), p), n),
    decreases n,
{
    if n <= 0 {
        lemma_sum_zero(|k: int| sum(|j: int| f(j, k), n), p);
    } else {
        lemma_sum_swap(f, n - 1, p);
        let inner = |k: int| sum(|j: int| f(j, k), n - 1);
        let last = |k: int| f(n - 1, k);
        lemma_sum_ext(
            |k: int| sum(|j: int| f(j, k), n),
            |k: int| inner(k) + last(k),
            p,
        );
        lemma_sum_add(inner, last, p);
    }
}

proof fn lemma_dot_is_sum(x: Seq<Seq<int>>, y: Seq<Seq<int>>, i: int, k: int, len: int)
    ensures
        dot(x, y, i, k, len) == sum(|j: int| x[i][j] * y[j][k], len),
    decreases len,
{
    if len > 0 {
        lemma_dot_is_sum(x, y, i, k, len - 1);
    }
}

/// Matrix multiplication is associative: `(a * b) * c == a * (b * c)`.
pub proof fn lemma_mul_associative<const M: usize, const N: usize, const P: usize, const Q: usize>(
    a: Matrix<i64, M, N>,
    b: Matrix<i64, N, P>,
    c: Matrix<i64, P, Q>,
)
    ensures
        grid_mul(grid_mul(a.ints(), b.ints(), P as nat), c.ints(), Q as nat) == grid_mul(
            a.ints(),
            grid_mul(b.ints(), c.ints(), Q as nat),
            Q as nat,
        ),
{
    let (x, y, z) = (a.ints(), b.ints(), c.ints());
    let xy = grid_mul(x, y, P as nat);
    let yz = grid_mul(y, z, Q as nat);
    let lhs = grid_mul(xy, z, Q as nat);
    let rhs = grid_mul(x, yz, Q as nat);
    assert forall|i: int, l: int| 0 <= i < M && 0 <= l < Q implies #[trigger] lhs[i][l] == rhs[i][l] by {
        let f = |j: int, k: int| x[i][j] * y[j][k] * z[k][l];
        lemma_dot_is_sum(xy, z, i, l, P as int);
        assert forall|k: int| 0 <= k < P implies #[trigger] xy[i][k] * z[k][l] == sum(|j: int| f(j, k), N as int) by {
            lemma_dot_is_sum(x, y, i, k, N as int);
            let g = |j: int| x[i][j] * y[j][k];
            lemma_sum_scale(g, z[k][l], N as int);
            assert forall|j: int| 0 <= j < N implies z[k][l] * #[trigger] g(j) == f(j, k) by {
                let (u, v, w) = (x[i][j], y[j][k], z[k][l]);
                assert(w * (u * v) == u * v * w) by (nonlinear_arith);
            }
            lemma_sum_ext(|j: int| z[k][l] * g(j), |j: int| f(j, k), N as int);
            let d = sum(g, N as int);
            assert(d * z[k][l] == z[k][l] * d) by (nonlinear_arith);
        }
        lemma_sum_ext(|k: int| xy[i][k] * z[k][l], |k: int| sum(|j: int| f(j, k), N as int), P as int);
        lemma_sum_swap(f, N as int, P as int);
        lemma_dot_is_sum(x, yz, i, l, N as int);
        assert forall|j: int| 0 <= j < N implies x[i][j] * #[trigger] yz[j][l] == sum(|k: int| f(j, k), P as int) by {
            lemma_dot_is_sum(y, z, j, l, P as int);
            let g = |k: int| y[j][k] * z[k][l];
            lemma_sum_scale(g, x[i][j], P as int);
            assert forall|k: int| 0 <= k < P implies x[i][j] * #[trigger] g(k) == f(j, k) by {
                let (u, v, w) = (x[i][j], y[j][k], z[k][l]);
                assert(u * (v * w) == u * v * w) by (nonlinear_arith);
            }
            lemma_sum_ext(|k: int| x[i][j] * g(k), |k: int| f(j, k), P as int);
        }
        lemma_sum_ext(|j: int| x[i][j] * yz[j][l], |j: int| sum(|k: int| f(j, k), P as int), N as int);
    }
    assert(lhs =~~= rhs);
}

} // verus!
