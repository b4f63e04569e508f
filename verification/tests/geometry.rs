use counterproduction_core::geometry::LMat;
use counterproduction_core::geometry::LVec;
use counterproduction_core::geometry::ULMat;
use counterproduction_core::geometry::ULVec;

fn lmat_entries(m: LMat) -> [[f32; 3]; 3] {
    // Rows of the matrix; the struct stores columns.
    [
        [m.0 .0 as f32, m.1 .0 as f32, m.2 .0 as f32],
        [m.0 .1 as f32, m.1 .1 as f32, m.2 .1 as f32],
        [m.0 .2 as f32, m.1 .2 as f32, m.2 .2 as f32],
    ]
}

fn ulmat_entries(m: ULMat) -> [[f32; 3]; 3] {
    [
        [m.0 .0 as f32, m.1 .0 as f32, m.2 .0 as f32],
        [m.0 .1 as f32, m.1 .1 as f32, m.2 .1 as f32],
        [m.0 .2 as f32, m.1 .2 as f32, m.2 .2 as f32],
    ]
}

fn f32_mat_mul(a: [[f32; 3]; 3], b: [[f32; 3]; 3]) -> [[f32; 3]; 3] {
    let mut r = [[0.0f32; 3]; 3];
    for i in 0..3 {
        for j in 0..3 {
            r[i][j] = a[i][0] * b[0][j] + a[i][1] * b[1][j] + a[i][2] * b[2][j];
        }
    }
    r
}

fn check_lmat_pair(first: LMat, second: LMat) {
    let first_f32 = lmat_entries(first);
    let second_f32 = lmat_entries(second);
    assert_eq!(f32_mat_mul(first_f32, second_f32), lmat_entries(first.mul(second)));
    assert_eq!(f32_mat_mul(second_f32, first_f32), lmat_entries(second.mul(first)));
}

fn check_ulmat_pair(first: ULMat, second: ULMat) {
    let first_f32 = ulmat_entries(first);
    let second_f32 = ulmat_entries(second);
    assert_eq!(f32_mat_mul(first_f32, second_f32), ulmat_entries(first.mul(second)));
    assert_eq!(f32_mat_mul(second_f32, first_f32), ulmat_entries(second.mul(first)));
}

#[test]
fn test_vec_multiply() {
    let x = ULVec::new(1, 2, 3);
    let y = ULVec::new(4, 5, 6);
    assert_eq!(x.dot(y), 1 * 4 + 2 * 5 + 3 * 6);
}

#[test]
fn lmat_test_matrix_multiply() {
    check_lmat_pair(
        LMat::create([1, 2, 3], [4, 5, 6], [7, 8, 9]),
        LMat::create([9, 8, 7], [6, 5, 4], [3, 2, 1]),
    );
}

#[test]
fn ulmat_test_matrix_multiply() {
    check_ulmat_pair(
        ULMat::create([1, 2, 3], [4, 5, 6], [7, 8, 9]),
        ULMat::create([9, 8, 7], [6, 5, 4], [3, 2, 1]),
    );
}

#[test]
fn lvec_arithmetic() {
    let a = LVec::new(1, -2, 3);
    let b = LVec::new(4, 5, -6);
    assert_eq!(a.add(b), LVec::new(5, 3, -3));
    assert_eq!(a.sub(b), LVec::new(-3, -7, 9));
    assert_eq!(a.dot(b), 4 - 10 - 18);
    assert_eq!(a.scale(3), LVec::new(3, -6, 9));
    assert_eq!(a.sum(), 2);
    assert_eq!(LVec::zero(), LVec::new(0, 0, 0));
}

#[test]
fn lmat_transpose_identity() {
    let x = LMat::create([1, 2, 3], [4, 5, 6], [7, 8, 9]);
    let t = x.transpose();
    assert_eq!(t.transpose(), x);
    let id = LMat::identity();
    assert_eq!(id.mul(x), x);
    assert_eq!(x.mul(id), x);
}
