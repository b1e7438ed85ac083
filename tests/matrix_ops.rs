use fixed_matrix::Matrix;

#[test]
fn zero_filled_shape_and_elements() {
    let m = Matrix::<i64, 2, 3>::new();
    assert_eq!(m.rows(), 2);
    assert_eq!(m.cols(), 3);
    for i in 0..2 {
        for j in 0..3 {
            assert_eq!(m.get(i, j), 0);
        }
    }
}

#[test]
fn default_is_zero() {
    let m: Matrix<i64, 3, 2> = Default::default();
    assert_eq!(m.0, [[0, 0], [0, 0], [0, 0]]);
}

#[test]
fn set_writes_one_element() {
    let mut m = Matrix::<i64, 2, 3>::new();
    m.set(0, 1, 1);
    assert_eq!(m.0, [[0, 1, 0], [0, 0, 0]]);
    assert_eq!(m.get(0, 1), 1);
    assert_eq!(m.row(0), [0, 1, 0]);
}

#[test]
fn self_add() {
    let a = Matrix([[2, 4, 5], [6, 7, 8]]);
    let r = a.add(a);
    assert_eq!(r.0, [[4, 8, 10], [12, 14, 16]]);
}

#[test]
fn add_assign_then_sub_assign() {
    let foo = Matrix([[2, 4, 5], [6, 7, 8]]);
    let mut m = Matrix::<i64, 2, 3>::new();
    m.set(0, 1, 1);
    m.add_assign(foo);
    assert_eq!(m.0, [[2, 5, 5], [6, 7, 8]]);
    m.sub_assign(foo);
    assert_eq!(m.0, [[0, 1, 0], [0, 0, 0]]);
}

#[test]
fn sub_elementwise() {
    let a = Matrix([[5, 1], [0, -3]]);
    let b = Matrix([[2, 4], [-1, -3]]);
    assert_eq!(a.sub(b).0, [[3, -3], [1, 0]]);
}

#[test]
fn add_then_sub_round_trip() {
    let a = Matrix([[1, -2, 3], [40, 0, -7]]);
    let b = Matrix([[9, 9, -9], [3, 1, 2]]);
    assert_eq!(a.add(b).sub(b).0, a.0);
}

#[test]
fn negate() {
    let a = Matrix([[2, 4, 5], [6, 7, 8]]);
    let n = a.neg();
    assert_eq!(n.0, [[-2, -4, -5], [-6, -7, -8]]);
    assert_eq!(n.neg().0, a.0);
}

#[test]
fn scalar_multiply() {
    let a = Matrix([[2, 4, 5], [6, 7, 8]]);
    assert_eq!(a.mul_scalar(2).0, [[4, 8, 10], [12, 14, 16]]);
    let mut b = a;
    b.mul_assign_scalar(-3);
    assert_eq!(b.0, [[-6, -12, -15], [-18, -21, -24]]);
}

#[test]
fn scalar_divide_rounds_toward_zero() {
    let mut a = Matrix([[7, -7], [6, -1]]);
    a.div_assign_scalar(2);
    assert_eq!(a.0, [[3, -3], [3, 0]]);
    let mut b = Matrix([[7, -7]]);
    b.div_assign_scalar(-2);
    assert_eq!(b.0, [[-3, 3]]);
}

#[test]
fn scale_then_divide_round_trip() {
    let a = Matrix([[1, -2, 3], [-40, 0, 7]]);
    let mut b = a.mul_scalar(-5);
    b.div_assign_scalar(-5);
    assert_eq!(b.0, a.0);
}

#[test]
fn matrix_product() {
    let a = Matrix([[1, 2, 3], [4, 5, 6]]);
    let b = Matrix([[7, 8], [9, 10], [11, 12]]);
    let c = a.mul(b);
    assert_eq!(c.0, [[58, 64], [139, 154]]);
    assert_eq!(c.rows(), 2);
    assert_eq!(c.cols(), 2);
}

#[test]
fn square_multiply_assign() {
    let mut a = Matrix([[1, 2], [3, 4]]);
    a.mul_assign(a);
    assert_eq!(a.0, [[7, 10], [15, 22]]);
}

#[test]
fn product_distributes_over_sum() {
    let a = Matrix([[1, 2, 3], [4, 5, 6]]);
    let b = Matrix([[-1, 0, 2], [3, -3, 1]]);
    let c = Matrix([[7, 8], [9, 10], [11, 12]]);
    assert_eq!(a.add(b).mul(c).0, a.mul(c).add(b.mul(c)).0);
}

#[test]
fn swap_rows_exchanges_and_twice_restores() {
    let a = Matrix([[2, 4, 5], [6, 7, 8]]);
    let mut m = a;
    m.swap_rows(0, 1);
    assert_eq!(m.0, [[6, 7, 8], [2, 4, 5]]);
    m.swap_rows(0, 1);
    assert_eq!(m.0, a.0);
    m.swap_rows(1, 1);
    assert_eq!(m.0, a.0);
}

#[test]
fn scale_one_row() {
    let mut m = Matrix([[6, 7, 8], [2, 4, 5]]);
    m.mul_row_by_scalar(0, 2);
    assert_eq!(m.0, [[12, 14, 16], [2, 4, 5]]);
}

#[test]
fn add_row_to_another() {
    let mut m = Matrix([[12, 14, 16], [2, 4, 5]]);
    m.add_row_to_other(0, 1, 1);
    assert_eq!(m.0, [[12, 14, 16], [14, 18, 21]]);
}

#[test]
fn add_row_to_itself_reads_original_values() {
    let mut m = Matrix([[1, 2, 3], [4, 5, 6]]);
    m.add_row_to_other(1, 1, 2);
    assert_eq!(m.0, [[1, 2, 3], [12, 15, 18]]);
}

#[test]
fn add_row_then_opposite_restores() {
    let a = Matrix([[1, 2, 3], [4, 5, 6], [-7, 8, 0]]);
    let mut m = a;
    m.add_row_to_other(2, 0, 5);
    assert_eq!(m.0, [[-34, 42, 3], [4, 5, 6], [-7, 8, 0]]);
    m.add_row_to_other(2, 0, -5);
    assert_eq!(m.0, a.0);
}

#[test]
fn extreme_values_that_fit() {
    let a = Matrix([[i64::MAX, i64::MIN + 1]]);
    assert_eq!(a.neg().0, [[-i64::MAX, i64::MAX]]);
    let b = Matrix([[i64::MAX - 1, i64::MIN]]);
    assert_eq!(b.add(Matrix([[1, 0]])).0, [[i64::MAX, i64::MIN]]);
}

#[test]
fn product_is_associative() {
    let a = Matrix([[1, 2, 3], [4, 5, 6]]);
    let b = Matrix([[7, 8], [9, 10], [11, 12]]);
    let c = Matrix([[1, -1, 2, 0], [3, 0, -2, 5]]);
    let left = a.mul(b).mul(c);
    assert_eq!(left.0, a.mul(b.mul(c)).0);
    assert_eq!(left.0, [[250, -58, -12, 320], [601, -139, -30, 770]]);
}
