//! The fixed-size matrix type and its operations.
use vstd::prelude::*;
use crate::grid::{
    dot, fits, grid_add, grid_add_row, grid_div, grid_mul, grid_neg, grid_scale, grid_scale_row,
    grid_sub, in_i64, mul_fits, scaled_row_fits, swapped,
};

verus! {

/// A dense grid of `M` rows and `N` columns, stored row by row.
#[derive(Clone, Copy)]
pub struct Matrix<T, const M: usize, const N: usize>(pub [[T; N]; M]);

impl<T: Copy, const M: usize, const N: usize> Matrix<T, M, N> {
    /// The element at row `i`, column `j`.
    pub open spec fn at(&self, i: int, j: int) -> T {
        self.0[i][j]
    }

    /// The rows, in order.
    pub open spec fn row_seq(&self) -> Seq<[T; N]> {
        self.0@
    }

    /// The number of rows, `M`.
    pub fn rows(&self) -> (r: usize)
        ensures
            r == M,
    {
        M
    }

    /// The number of columns, `N`.
    pub fn cols(&self) -> (r: usize)
        ensures
            r == N,
    {
        N
    }

    /// The element at row `i`, column `j`.
    pub fn get(&self, i: usize, j: usize) -> (r: T)
        requires
            i < M,
            j < N,
        ensures
            r == self.at(i as int, j as int),
    {
        self.0[i][j]
    }

    /// Row `i`, as a copy.
    pub fn row(&self, i: usize) -> (r: [T; N])
        requires
            i < M,
        ensures
            r == self.0[i as int],
    {
        self.0[i]
    }

    /// Writes `v` at row `i`, column `j`; every other element stays.
    pub fn set(&mut self, i: usize, j: usize, v: T)
        requires
            i < M,
            j < N,
        ensures
            forall|a: int, b: int|
                0 <= a < M && 0 <= b < N ==> #[trigger] final(self).at(a, b) == if a == i && b == j {
                    v
                } else {
                    old(self).at(a, b)
                },
    {
        self.0[i][j] = v;
    }

    /// Exchanges rows `a` and `b`; nothing changes when they are equal.
    pub fn swap_rows(&mut self, a: usize, b: usize)
        requires
            a < M,
            b < M,
        ensures
            final(self).row_seq() == swapped(old(self).row_seq(), a as int, b as int),
    {
        let temp = self.0[a];
        self.0[a] = self.0[b];
        self.0[b] = temp;
    }
}

impl<const M: usize, const N: usize> Matrix<i64, M, N> {
    /// The entries as unbounded integers, row by row.
    pub open spec fn ints(&self) -> Seq<Seq<int>> {
        Seq::new(M as nat, |i: int| Seq::new(N as nat, |j: int| self.at(i, j) as int))
    }

    /// A matrix with every element zero.
    pub fn new() -> (r: Self)
        ensures
            forall|i: int, j: int| 0 <= i < M && 0 <= j < N ==> #[trigger] r.at(i, j) == 0,
    {
        Matrix([[0i64; N]; M])
    }

    /// The element-wise sum.
    pub fn add(self, other: Self) -> (r: Self)
        requires
            fits(grid_add(self.ints(), other.ints())),
        ensures
            r.ints() == grid_add(self.ints(), other.ints()),
    {
        let mut r = self;
        r.add_assign(other);
        r
    }

    /// The element-wise difference.
    pub fn sub(self, other: Self) -> (r: Self)
        requires
            fits(grid_sub(self.ints(), other.ints())),
        ensures
            r.ints() == grid_sub(self.ints(), other.ints()),
    {
        let mut r = self;
        r.sub_assign(other);
        r
    }

    /// The matrix with every element multiplied by `s`.
    pub fn mul_scalar(self, s: i64) -> (r: Self)
        requires
            fits(grid_scale(self.ints(), s as int)),
        ensures
            r.ints() == grid_scale(self.ints(), s as int),
    {
        let mut r = self;
        r.mul_assign_scalar(s);
        r
    }

    /// Multiplies every element of row `row` by `scalar`.
    pub fn mul_row_by_scalar(&mut self, row: usize, scalar: i64)
        requires
            row < M,
            fits(grid_scale_row(old(self).ints(), row as int, scalar as int)),
        ensures
            final(self).ints() == grid_scale_row(old(self).ints(), row as int, scalar as int),
    {
        let ghost start = *self;
        let ghost goal = grid_scale_row(start.ints(), row as int, scalar as int);
        let mut j: usize = 0;
        while j < N
            invariant
                row < M,
                j <= N,
                goal == grid_scale_row(start.ints(), row as int, scalar as int),
                fits(goal),
                forall|a: int, b: int|
                    0 <= a < M && 0 <= b < N ==> #[trigger] self.at(a, b) as int == if a == row && b
                        < j {
                        goal[a][b]
                    } else {
                        start.at(a, b) as int
                    },
            decreases N - j,
        {
            assert(in_i64(goal[row as int][j as int]));
            assert(self.at(row as int, j as int) == start.at(row as int, j as int));
            let v = self.0[row][j] * scalar;
            self.set(row, j, v);
            j += 1;
        }
        assert(self.ints() =~~= goal);
    }

    /// Adds `scalar` times row `row` to row `other`. The source row is read as it was before
    /// the call, so `row` and `other` may be equal.
    pub fn add_row_to_other(&mut self, row: usize, other: usize, scalar: i64)
        requires
            row < M,
            other < M,
            scaled_row_fits(old(self).ints(), row as int, scalar as int),
            fits(grid_add_row(old(self).ints(), row as int, other as int, scalar as int)),
        ensures
            final(self).ints() == grid_add_row(old(self).ints(), row as int, other as int, scalar as int),
    {
        let ghost start = *self;
        let ghost goal = grid_add_row(start.ints(), row as int, other as int, scalar as int);
        let src = self.0[row];
        let mut j: usize = 0;
        while j < N
            invariant
                row < M,
                other < M,
                j <= N,
                src == start.0[row as int],
                scaled_row_fits(start.ints(), row as int, scalar as int),
                goal == grid_add_row(start.ints(), row as int, other as int, scalar as int),
                fits(goal),
                forall|a: int, b: int|
                    0 <= a < M && 0 <= b < N ==> #[trigger] self.at(a, b) as int == if a == other
                        && b < j {
                        goal[a][b]
                    } else {
                        start.at(a, b) as int
                    },
            decreases N - j,
        {
            assert(in_i64(goal[other as int][j as int]));
            assert(in_i64(start.ints()[row as int][j as int] * scalar));
            assert(self.at(other as int, j as int) == start.at(other as int, j as int));
            let v = self.0[other][j] + src[j] * scalar;
            self.set(other, j, v);
            j += 1;
        }
        assert(self.ints() =~~= goal);
    }

    /// The matrix product of this `M`-by-`N` matrix and an `N`-by-`P` one.
    pub fn mul<const P: usize>(self, other: Matrix<i64, N, P>) -> (r: Matrix<i64, M, P>)
        requires
            mul_fits(self.ints(), other.ints(), P as nat),
        ensures
            r.ints() == grid_mul(self.ints(), other.ints(), P as nat),
    {
        let ghost x = self.ints();
        let ghost y = other.ints();
        let mut r = Matrix::<i64, M, P>::new();
        let mut i: usize = 0;
        while i < M
            invariant
                i <= M,
                x == self.ints(),
                y == other.ints(),
                mul_fits(x, y, P as nat),
                forall|a: int, c: int|
                    0 <= a < M && 0 <= c < P ==> #[trigger] r.at(a, c) as int == if a < i {
                        dot(x, y, a, c, N as int)
                    } else {
                        0
                    },
            decreases M - i,
        {
            let mut j: usize = 0;
            while j < N
                invariant
                    i < M,
                    j <= N,
                    x == self.ints(),
                    y == other.ints(),
                    mul_fits(x, y, P as nat),
                    forall|a: int, c: int|
                        0 <= a < M && 0 <= c < P ==> #[trigger] r.at(a, c) as int == if a < i {
                            dot(x, y, a, c, N as int)
                        } else if a == i {
                            dot(x, y, a, c, j as int)
                        } else {
                            0
                        },
                decreases N - j,
            {
                let mut k: usize = 0;
                while k < P
                    invariant
                        i < M,
                        j < N,
                        k <= P,
                        x == self.ints(),
                        y == other.ints(),
                        mul_fits(x, y, P as nat),
                        forall|a: int, c: int|
                            0 <= a < M && 0 <= c < P ==> #[trigger] r.at(a, c) as int == if a < i {
                                dot(x, y, a, c, N as int)
                            } else if a == i && c < k {
                                dot(x, y, a, c, j + 1)
                            } else if a == i {
                                dot(x, y, a, c, j as int)
                            } else {
                                0
                            },
                    decreases P - k,
                {
                    let ghost (ii, jj, kk) = (i as int, j as int, k as int);
                    assert(x[ii][jj] == self.at(ii, jj));
                    assert(y[jj][kk] == other.at(jj, kk));
                    assert(in_i64(x[ii][jj] * y[jj][kk]));
                    assert(in_i64(dot(x, y, ii, kk, jj + 1)));
                    assert(dot(x, y, ii, kk, jj + 1) == dot(x, y, ii, kk, jj) + x[ii][jj] * y[jj][kk]);
                    assert(r.at(ii, kk) == dot(x, y, ii, kk, jj));
                    let v = r.0[i][k] + self.0[i][j] * other.0[j][k];
                    r.set(i, k, v);
                    k += 1;
                }
                j += 1;
            }
            i += 1;
        }
        assert(r.ints() =~~= grid_mul(x, y, P as nat));
        r
    }

    /// Adds `other` to this matrix, element by element.
    pub fn add_assign(&mut self, other: Self)
        requires
            fits(grid_add(old(self).ints(), other.ints())),
        ensures
            final(self).ints() == grid_add(old(self).ints(), other.ints()),
    {
        let ghost start = *self;
        let ghost goal = grid_add(start.ints(), other.ints());
        let mut i: usize = 0;
        while i < M
            invariant
                i <= M,
                goal == grid_add(start.ints(), other.ints()),
                fits(goal),
                forall|a: int, b: int|
                    0 <= a < M && 0 <= b < N ==> #[trigger] self.at(a, b) as int == if a < i {
                        goal[a][b]
                    } else {
                        start.at(a, b) as int
                    },
            decreases M - i,
        {
            let mut j: usize = 0;
            while j < N
                invariant
                    i < M,
                    j <= N,
                    goal == grid_add(start.ints(), other.ints()),
                    fits(goal),
                    forall|a: int, b: int|
                        0 <= a < M && 0 <= b < N ==> #[trigger] self.at(a, b) as int == if a < i
                            || (a == i && b < j) {
                            goal[a][b]
                        } else {
                            start.at(a, b) as int
                        },
                decreases N - j,
            {
                assert(goal[i as int][j as int] == start.at(i as int, j as int) + other.at(i as int, j as int));
                assert(in_i64(goal[i as int][j as int]));
                assert(self.at(i as int, j as int) == start.at(i as int, j as int));
                let v = self.0[i][j] + other.0[i][j];
                self.set(i, j, v);
                j += 1;
            }
            i += 1;
        }
        assert(self.ints() =~~= goal);
    }

    /// Subtracts `other` from this matrix, element by element.
    pub fn sub_assign(&mut self, other: Self)
        requires
            fits(grid_sub(old(self).ints(), other.ints())),
        ensures
            final(self).ints() == grid_sub(old(self).ints(), other.ints()),
    {
        let ghost start = *self;
        let ghost goal = grid_sub(start.ints(), other.ints());
        let mut i: usize = 0;
        while i < M
            invariant
                i <= M,
                goal == grid_sub(start.ints(), other.ints()),
                fits(goal),
                forall|a: int, b: int|
                    0 <= a < M && 0 <= b < N ==> #[trigger] self.at(a, b) as int == if a < i {
                        goal[a][b]
                    } else {
                        start.at(a, b) as int
                    },
            decreases M - i,
        {
            let mut j: usize = 0;
            while j < N
                invariant
                    i < M,
                    j <= N,
                    goal == grid_sub(start.ints(), other.ints()),
                    fits(goal),
                    forall|a: int, b: int|
                        0 <= a < M && 0 <= b < N ==> #[trigger] self.at(a, b) as int == if a < i
                            || (a == i && b < j) {
                            goal[a][b]
                        } else {
                            start.at(a, b) as int
                        },
                decreases N - j,
            {
                assert(in_i64(goal[i as int][j as int]));
                assert(self.at(i as int, j as int) == start.at(i as int, j as int));
                let v = self.0[i][j] - other.0[i][j];
                self.set(i, j, v);
                j += 1;
            }
            i += 1;
        }
        assert(self.ints() =~~= goal);
    }

    /// Multiplies every element by `s`.
    pub fn mul_assign_scalar(&mut self, s: i64)
        requires
            fits(grid_scale(old(self).ints(), s as int)),
        ensures
            final(self).ints() == grid_scale(old(self).ints(), s as int),
    {
        let ghost start = *self;
        let ghost goal = grid_scale(start.ints(), s as int);
        let mut i: usize = 0;
        while i < M
            invariant
                i <= M,
                goal == grid_scale(start.ints(), s as int),
                fits(goal),
                forall|a: int, b: int|
                    0 <= a < M && 0 <= b < N ==> #[trigger] self.at(a, b) as int == if a < i {
                        goal[a][b]
                    } else {
                        start.at(a, b) as int
                    },
            decreases M - i,
        {
            let mut j: usize = 0;
            while j < N
                invariant
                    i < M,
                    j <= N,
                    goal == grid_scale(start.ints(), s as int),
                    fits(goal),
                    forall|a: int, b: int|
                        0 <= a < M && 0 <= b < N ==> #[trigger] self.at(a, b) as int == if a < i
                            || (a == i && b < j) {
                            goal[a][b]
                        } else {
                            start.at(a, b) as int
                        },
                decreases N - j,
            {
                assert(in_i64(goal[i as int][j as int]));
                assert(self.at(i as int, j as int) == start.at(i as int, j as int));
                let v = self.0[i][j] * s;
                self.set(i, j, v);
                j += 1;
            }
            i += 1;
        }
        assert(self.ints() =~~= goal);
    }

    /// Divides every element by `s`, rounding toward zero.
    pub fn div_assign_scalar(&mut self, s: i64)
        requires
            s != 0,
            fits(grid_div(old(self).ints(), s as int)),
        ensures
            final(self).ints() == grid_div(old(self).ints(), s as int),
    {
        let ghost start = *self;
        let ghost goal = grid_div(start.ints(), s as int);
        let mut i: usize = 0;
        while i < M
            invariant
                i <= M,
                goal == grid_div(start.ints(), s as int),
                fits(goal),
                s != 0,
                forall|a: int, b: int|
                    0 <= a < M && 0 <= b < N ==> #[trigger] self.at(a, b) as int == if a < i {
                        goal[a][b]
                    } else {
                        start.at(a, b) as int
                    },
            decreases M - i,
        {
            let mut j: usize = 0;
            while j < N
                invariant
                    i < M,
                    j <= N,
                    goal == grid_div(start.ints(), s as int),
                    fits(goal),
                    s != 0,
                    forall|a: int, b: int|
                        0 <= a < M && 0 <= b < N ==> #[trigger] self.at(a, b) as int == if a < i
                            || (a == i && b < j) {
                            goal[a][b]
                        } else {
                            start.at(a, b) as int
                        },
                decreases N - j,
            {
                assert(in_i64(goal[i as int][j as int]));
                assert(self.at(i as int, j as int) == start.at(i as int, j as int));
                assert(self.0[i as int][j as int] == i64::MIN && s == -1 ==> goal[i as int][j as int]
                    == -i64::MIN);
                let v = self.0[i][j] / s;
                self.set(i, j, v);
                j += 1;
            }
            i += 1;
        }
        assert(self.ints() =~~= goal);
    }

    /// The matrix with every element negated.
    pub fn neg(self) -> (r: Self)
        requires
            fits(grid_neg(self.ints())),
        ensures
            r.ints() == grid_neg(self.ints()),
    {
        let ghost start = self;
        let mut r = self;
        let ghost goal = grid_neg(start.ints());
        let mut i: usize = 0;
        while i < M
            invariant
                i <= M,
                goal == grid_neg(start.ints()),
                fits(goal),
                forall|a: int, b: int|
                    0 <= a < M && 0 <= b < N ==> #[trigger] r.at(a, b) as int == if a < i {
                        goal[a][b]
                    } else {
                        start.at(a, b) as int
                    },
            decreases M - i,
        {
            let mut j: usize = 0;
            while j < N
                invariant
                    i < M,
                    j <= N,
                    goal == grid_neg(start.ints()),
                    fits(goal),
                    forall|a: int, b: int|
                        0 <= a < M && 0 <= b < N ==> #[trigger] r.at(a, b) as int == if a < i
                            || (a == i && b < j) {
                            goal[a][b]
                        } else {
                            start.at(a, b) as int
                        },
                decreases N - j,
            {
                assert(in_i64(goal[i as int][j as int]));
                assert(r.at(i as int, j as int) == start.at(i as int, j as int));
                let v = -r.0[i][j];
                r.set(i, j, v);
                j += 1;
            }
            i += 1;
        }
        assert(r.ints() =~~= goal);
        r
    }
}

impl<const M: usize> Matrix<i64, M, M> {
    /// Replaces this square matrix by its product with `other`. The whole product is formed
    /// first, so no term reads an element that was already replaced.
    pub fn mul_assign(&mut self, other: Self)
        requires
            mul_fits(old(self).ints(), other.ints(), M as nat),
        ensures
            final(self).ints() == grid_mul(old(self).ints(), other.ints(), M as nat),
    {
        let product = self.mul(other);
        *self = product;
    }
}

impl<const M: usize, const N: usize> Default for Matrix<i64, M, N> {
    /// The zero matrix, as [`Matrix::new`] gives it.
    fn default() -> (r: Self)
        ensures
            forall|i: int, j: int| 0 <= i < M && 0 <= j < N ==> #[trigger] r.at(i, j) == 0,
    {
        Self::new()
    }
}

} // verus!
