//! Integer matrices as mathematical objects: a grid is a sequence of rows,
//! each a sequence of unbounded integers.
use vstd::prelude::*;

verus! {

/// Whether an integer can be held by an `i64`.
pub open spec fn in_i64(v: int) -> bool {
    i64::MIN <= v <= i64::MAX
}

/// Whether every entry of the grid can be held by an `i64`.
pub open spec fn fits(g: Seq<Seq<int>>) -> bool {
    forall|i: int, j: int|
        0 <= i < g.len() && 0 <= j < g[i].len() ==> in_i64(#[trigger] g[i][j])
}

/// Applies `f` to the entries at equal positions of `x` and `y`; the shape is that of `x`.
pub open spec fn zip_with(x: Seq<Seq<int>>, y: Seq<Seq<int>>, f: spec_fn(int, int) -> int) -> Seq<Seq<int>> {
    Seq::new(x.len(), |i: int| Seq::new(x[i].len(), |j: int| f(x[i][j], y[i][j])))
}

/// Applies `f` to every entry of `x`.
pub open spec fn map_entries(x: Seq<Seq<int>>, f: spec_fn(int) -> int) -> Seq<Seq<int>> {
    Seq::new(x.len(), |i: int| Seq::new(x[i].len(), |j: int| f(x[i][j])))
}

pub open spec fn grid_add(x: Seq<Seq<int>>, y: Seq<Seq<int>>) -> Seq<Seq<int>> {
    zip_with(x, y, |a: int, b: int| a + b)
}

pub open spec fn grid_sub(x: Seq<Seq<int>>, y: Seq<Seq<int>>) -> Seq<Seq<int>> {
    zip_with(x, y, |a: int, b: int| a - b)
}

pub open spec fn grid_neg(x: Seq<Seq<int>>) -> Seq<Seq<int>> {
    map_entries(x, |a: int| -a)
}

pub open spec fn grid_scale(x: Seq<Seq<int>>, s: int) -> Seq<Seq<int>> {
    map_entries(x, |a: int| a * s)
}

/// Division rounded toward zero, as Rust's integer `/` does (`/` on `int` is Euclidean).
pub open spec fn trunc_div(a: int, b: int) -> int {
    if a >= 0 {
        a / b
    } else {
        -((-a) / b)
    }
}

pub open spec fn grid_div(x: Seq<Seq<int>>, s: int) -> Seq<Seq<int>> {
    map_entries(x, |a: int| trunc_div(a, s))
}

/// The sum over `j < len` of `x[i][j] * y[j][k]`.
pub open spec fn dot(x: Seq<Seq<int>>, y: Seq<Seq<int>>, i: int, k: int, len: int) -> int
    decreases len,
{
    if len <= 0 {
        0
    } else {
        dot(x, y, i, k, len - 1) + x[i][len - 1] * y[len - 1][k]
    }
}

/// The product of `x` and `y`, where `y` has `y.len()` rows and `p` columns.
pub open spec fn grid_mul(x: Seq<Seq<int>>, y: Seq<Seq<int>>, p: nat) -> Seq<Seq<int>> {
    Seq::new(x.len(), |i: int| Seq::new(p, |k: int| dot(x, y, i, k, y.len() as int)))
}

/// Whether every product `x[i][j] * y[j][k]`, and every partial sum of [`dot`] in order of
/// `j`, can be held by an `i64`; `y` has `p` columns.
pub open spec fn mul_fits(x: Seq<Seq<int>>, y: Seq<Seq<int>>, p: nat) -> bool {
    &&& forall|i: int, j: int, k: int|
        0 <= i < x.len() && 0 <= j < y.len() && 0 <= k < p ==> in_i64(#[trigger] (x[i][j] * y[j][k]))
    &&& forall|i: int, k: int, len: int|
        0 <= i < x.len() && 0 <= k < p && 0 <= len <= y.len() ==> in_i64(#[trigger] dot(x, y, i, k, len))
}

/// The grid with rows `a` and `b` exchanged.
pub open spec fn swapped<A>(s: Seq<A>, a: int, b: int) -> Seq<A> {
    s.update(a, s[b]).update(b, s[a])
}

/// The grid with every entry of row `r` multiplied by `s`.
pub open spec fn grid_scale_row(x: Seq<Seq<int>>, r: int, s: int) -> Seq<Seq<int>> {
    x.update(r, Seq::new(x[r].len(), |j: int| x[r][j] * s))
}

/// Whether every entry of row `r` times `s` can be held by an `i64`.
pub open spec fn scaled_row_fits(x: Seq<Seq<int>>, r: int, s: int) -> bool {
    forall|j: int| 0 <= j < x[r].len() ==> in_i64(#[trigger] x[r][j] * s)
}

/// The grid with `s` times row `r` added to row `o`.
pub open spec fn grid_add_row(x: Seq<Seq<int>>, r: int, o: int, s: int) -> Seq<Seq<int>> {
    x.update(o, Seq::new(x[o].len(), |j: int| x[o][j] + x[r][j] * s))
}

} // verus!
