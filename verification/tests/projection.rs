use bevy::math::Mat4;
use xr_projection::binary32::{NEG_ONE, ONE, ZERO};
use xr_projection::matrix::depth_reversal;
use xr_projection::params::{
    ClipSpaceConvention, FarPlane, FieldOfView, Input, XRProjection, DEFAULT_FAR, DEFAULT_NEAR,
};
use xr_projection::schedule::{BinaryOp, Operation};

fn arith(operation: Operation) -> u32 {
    match operation {
        Operation::Tan(a) => f32::from_bits(a).tan().to_bits(),
        Operation::Binary(BinaryOp::Add, a, b) => (f32::from_bits(a) + f32::from_bits(b)).to_bits(),
        Operation::Binary(BinaryOp::Sub, a, b) => (f32::from_bits(a) - f32::from_bits(b)).to_bits(),
        Operation::Binary(BinaryOp::Mul, a, b) => (f32::from_bits(a) * f32::from_bits(b)).to_bits(),
        Operation::Binary(BinaryOp::Div, a, b) => (f32::from_bits(a) / f32::from_bits(b)).to_bits(),
    }
}

/// The product of two column-major 4x4 matrices, `left` on the left.
fn product(left: [u32; 16], right: [u32; 16]) -> [u32; 16] {
    let left = Mat4::from_cols_array(&left.map(f32::from_bits));
    let right = Mat4::from_cols_array(&right.map(f32::from_bits));
    (left * right).to_cols_array().map(f32::to_bits)
}

/// The same product written out: each cell is a row of `left` times a column of
/// `right`, summed from the first term to the last.
fn product_by_hand(left: [f32; 16], right: [f32; 16]) -> [f32; 16] {
    let mut out = [0.0f32; 16];
    for col in 0..4 {
        for row in 0..4 {
            let mut sum = left[row] * right[4 * col];
            for k in 1..4 {
                sum += left[4 * k + row] * right[4 * col + k];
            }
            out[4 * col + row] = sum;
        }
    }
    out
}

fn view(near: f32, far: f32, left: f32, right: f32, up: f32, down: f32) -> XRProjection {
    XRProjection::new(
        near.to_bits(),
        far.to_bits(),
        FieldOfView {
            angle_left: left.to_bits(),
            angle_right: right.to_bits(),
            angle_up: up.to_bits(),
            angle_down: down.to_bits(),
        },
    )
}

fn project(view: &XRProjection, convention: ClipSpaceConvention) -> [f32; 16] {
    view.get_projection_matrix(convention, &arith, &product).map(f32::from_bits)
}

fn project_words(view: &XRProjection, convention: ClipSpaceConvention) -> [u32; 16] {
    view.get_projection_matrix(convention, &arith, &product)
}

fn close(a: f32, b: f32) -> bool {
    (a - b).abs() <= 1e-5
}

const UP: ClipSpaceConvention = ClipSpaceConvention::PositiveYUp;
const DOWN: ClipSpaceConvention = ClipSpaceConvention::PositiveYDown;

#[test]
fn symmetric_frustum_matches_the_symmetric_perspective() {
    let (half_x, half_y, near, far) = (0.5f32, 0.4f32, 0.1f32, 100.0f32);
    let m = project(&view(near, far, -half_x, half_x, half_y, -half_y), UP);
    let fov_y = 2.0 * half_y;
    let aspect = half_x.tan() / half_y.tan();
    let h = (0.5 * fov_y).cos() / (0.5 * fov_y).sin();
    let w = h / aspect;
    let r = far / (near - far);
    assert!(close(m[0], w));
    assert!(close(m[5], h));
    assert!(close(m[10], r));
    assert!(close(m[14], r * near));
    assert_eq!(m[11], -1.0);
    assert!(close(m[0], 1.830_487_7));
    assert!(close(m[5], 2.365_222_4));
    assert!(close(m[10], -1.001_001));
    assert!(close(m[14], -0.100_100_1));
    for position in [1, 2, 3, 4, 6, 7, 8, 9, 12, 13, 15] {
        assert_eq!(m[position], 0.0);
    }
}

#[test]
fn far_at_or_below_near_gives_the_same_matrix() {
    let near = 0.1f32;
    let at = project_words(&view(near, near, -0.5, 0.6, 0.4, -0.45), UP);
    let below = project_words(&view(near, near - 1.0, -0.5, 0.6, 0.4, -0.45), UP);
    let far_below = project_words(&view(near, f32::NEG_INFINITY, -0.5, 0.6, 0.4, -0.45), UP);
    assert_eq!(at, below);
    assert_eq!(at, far_below);
}

#[test]
fn far_just_above_near_gives_a_finite_far_plane() {
    let near = 0.1f32;
    let far = near + 0.001;
    let at = project(&view(near, near, -0.5, 0.6, 0.4, -0.45), UP);
    let above = project(&view(near, far, -0.5, 0.6, 0.4, -0.45), UP);
    assert_ne!(at, above);
    assert_eq!(at[10], 0.0);
    assert_eq!(at[14], near);
    assert_eq!(above[10], -(far + 0.0) / (far - near));
    assert_eq!(above[14], -(far * (near + 0.0)) / (far - near));
    assert!((above[10] - at[10]).abs() > 1.0);
    for position in [0, 1, 2, 3, 4, 5, 6, 7, 8, 9, 11, 12, 13, 15] {
        assert_eq!(at[position].to_bits(), above[position].to_bits());
    }
}

#[test]
fn far_plane_follows_the_comparison_of_far_with_near() {
    let plane = |near: f32, far: f32| view(near, far, -0.5, 0.5, 0.5, -0.5).far_plane();
    assert_eq!(plane(0.1, 0.1), FarPlane::Infinite);
    assert_eq!(plane(0.1, -1.0), FarPlane::Infinite);
    assert_eq!(plane(0.1, 0.0), FarPlane::Infinite);
    assert_eq!(plane(0.1, 0.1 + 0.001), FarPlane::Finite);
    assert_eq!(plane(0.1, 1000.0), FarPlane::Finite);
    assert_eq!(plane(0.0, -0.0), FarPlane::Infinite);
    assert_eq!(plane(-0.0, 0.0), FarPlane::Infinite);
    assert_eq!(plane(f32::INFINITY, f32::INFINITY), FarPlane::Infinite);
    assert_eq!(plane(0.1, f32::INFINITY), FarPlane::Finite);
    assert_eq!(plane(0.1, f32::from_bits(0.1f32.to_bits() + 1)), FarPlane::Finite);
    assert_eq!(plane(0.1, f32::NAN), FarPlane::Finite);
    assert_eq!(plane(f32::NAN, 0.1), FarPlane::Finite);
    assert_eq!(plane(f32::NAN, f32::NAN), FarPlane::Finite);
}

#[test]
fn exchanging_the_convention_negates_the_vertical_terms_only() {
    for far in [0.0f32, 100.0] {
        let v = view(0.1, far, -0.5, 0.6, 0.4, -0.45);
        let up = project(&v, UP);
        let down = project(&v, DOWN);
        assert_eq!(down[5], -up[5]);
        assert_eq!(down[9], -up[9]);
        assert!(up[5] > 0.0 && down[5] < 0.0);
        assert!(up[9] != 0.0);
        for position in [0, 1, 2, 3, 4, 6, 7, 8, 10, 11, 12, 13, 14, 15] {
            assert_eq!(up[position].to_bits(), down[position].to_bits());
        }
    }
}

#[test]
fn repeated_calls_give_the_same_words() {
    for far in [0.0f32, 100.0] {
        for convention in [UP, DOWN] {
            let v = view(0.1, far, -0.5, 0.6, 0.4, -0.45);
            let first = project_words(&v, convention);
            let second = project_words(&v, convention);
            let third = project_words(&v.clone(), convention);
            assert_eq!(first, second);
            assert_eq!(first, third);
        }
    }
}

#[test]
fn a_frustum_without_width_gives_non_finite_horizontal_terms() {
    for far in [0.0f32, 100.0] {
        let m = project(&view(0.1, far, 0.3, 0.3, 0.4, -0.45), UP);
        assert!(!m[0].is_finite());
        assert!(!m[8].is_finite());
    }
    let finite = project(&view(0.1, 100.0, 0.3, 0.3, 0.4, -0.45), UP);
    assert_eq!(finite[0], f32::INFINITY);
    assert_eq!(finite[8], f32::INFINITY);
    assert!(finite[5].is_finite());
    let centred = project(&view(0.1, 100.0, 0.0, 0.0, 0.4, -0.45), UP);
    assert_eq!(centred[0], f32::INFINITY);
    assert!(centred[8].is_nan());
}

#[test]
fn a_frustum_without_height_has_the_same_vertical_scale_under_both_conventions() {
    let v = view(0.1, 100.0, -0.5, 0.6, 0.2, 0.2);
    let up = project(&v, UP);
    let down = project(&v, DOWN);
    assert_eq!(up[5], f32::INFINITY);
    assert_eq!(down[5], f32::INFINITY);
}

#[test]
fn infinite_far_matrix_is_the_depth_reversal_times_the_raw_matrix() {
    let (left, right, up, down) = (-0.5f32, 0.6f32, 0.4f32, -0.45f32);
    let (near, far) = (0.1f32, 0.0f32);
    let m = project(&view(near, far, left, right, up, down), UP);

    let width = right.tan() - left.tan();
    let height = up.tan() - down.tan();
    let a = 2.0 / width;
    let b = 2.0 / height;
    let c = (right.tan() + left.tan()) / width;
    let d = (up.tan() + down.tan()) / height;
    let raw: [f32; 16] = [
        a, 0.0, 0.0, 0.0, //
        0.0, b, 0.0, 0.0, //
        c, d, -1.0, -1.0, //
        0.0, 0.0, -(near + 0.0), 0.0,
    ];
    let reversal: [f32; 16] = [
        1.0, 0.0, 0.0, 0.0, //
        0.0, 1.0, 0.0, 0.0, //
        0.0, 0.0, -1.0, 0.0, //
        0.0, 0.0, 1.0, 1.0,
    ];
    let expected = Mat4::from_cols_array(&reversal) * Mat4::from_cols_array(&raw);
    assert_eq!(m, expected.to_cols_array());
    assert_eq!(m, product_by_hand(reversal, raw));

    // Read row by row, the same sixteen numbers are the raw matrix times the reversal.
    let mut row_major = [0.0f32; 16];
    for i in 0..4 {
        for j in 0..4 {
            for k in 0..4 {
                row_major[4 * i + j] += raw[4 * i + k] * reversal[4 * k + j];
            }
        }
    }
    assert_eq!(m, row_major);

    let by_hand: [f32; 16] = [
        1.625_435_7, 0.0, 0.0, 0.0, //
        0.0, 2.207_875_3, 0.0, 0.0, //
        0.112_020_41, -0.066_525_32, 0.0, -1.0, //
        0.0, 0.0, 0.1, 0.0,
    ];
    for position in 0..16 {
        assert!(close(m[position], by_hand[position]), "cell {}", position);
    }
}

#[test]
fn finite_far_matrix_is_the_raw_matrix() {
    let (left, right, up, down) = (-0.5f32, 0.6f32, 0.4f32, -0.45f32);
    let (near, far) = (0.1f32, 100.0f32);
    let m = project(&view(near, far, left, right, up, down), DOWN);
    let width = right.tan() - left.tan();
    let height = down.tan() - up.tan();
    let expected: [f32; 16] = [
        2.0 / width, 0.0, 0.0, 0.0, //
        0.0, 2.0 / height, 0.0, 0.0, //
        (right.tan() + left.tan()) / width,
        (up.tan() + down.tan()) / height,
        -(far + 0.0) / (far - near),
        -1.0, //
        0.0, 0.0, -(far * (near + 0.0)) / (far - near), 0.0,
    ];
    assert_eq!(m.map(f32::to_bits), expected.map(f32::to_bits));
}

#[test]
fn the_matrix_product_is_not_asked_for_with_a_finite_far_plane() {
    let refuse = |_: [u32; 16], _: [u32; 16]| -> [u32; 16] { panic!("no product is due") };
    let v = view(0.1, 100.0, -0.5, 0.6, 0.4, -0.45);
    let m = v.get_projection_matrix(UP, &arith, &refuse);
    assert_eq!(m, project_words(&v, UP));
}

#[test]
fn the_matrix_product_gets_the_reversal_on_the_left() {
    let left_factor = |left: [u32; 16], _: [u32; 16]| left;
    let right_factor = |_: [u32; 16], right: [u32; 16]| right;
    let v = view(0.1, 0.0, -0.5, 0.6, 0.4, -0.45);
    assert_eq!(v.get_projection_matrix(UP, &arith, &left_factor), depth_reversal());
    let raw = v.get_projection_matrix(UP, &arith, &right_factor).map(f32::from_bits);
    assert_eq!(raw[10], -1.0);
    assert_eq!(raw[11], -1.0);
    assert_eq!(raw[14], -0.1);
    assert_eq!(raw[15], 0.0);
}

#[test]
fn depth_reversal_holds_the_literal_matrix() {
    let expected: [f32; 16] = [
        1.0, 0.0, 0.0, 0.0, //
        0.0, 1.0, 0.0, 0.0, //
        0.0, 0.0, -1.0, 0.0, //
        0.0, 0.0, 1.0, 1.0,
    ];
    assert_eq!(depth_reversal().map(f32::from_bits), expected);
    assert_eq!(depth_reversal()[10], NEG_ONE);
    assert_eq!(depth_reversal()[14], ONE);
    assert_eq!(depth_reversal()[1], ZERO);
}

#[test]
fn default_view_has_near_at_a_tenth_and_far_at_a_thousand() {
    let v = XRProjection::default();
    assert_eq!(f32::from_bits(v.near), 0.1);
    assert_eq!(f32::from_bits(v.far), 1000.0);
    assert_eq!(v.near, DEFAULT_NEAR);
    assert_eq!(v.far, DEFAULT_FAR);
    assert_eq!(v.fov, FieldOfView::default());
    assert_eq!(v.fov.angle_left, ZERO);
    assert_eq!(v.fov.angle_right, ZERO);
    assert_eq!(v.fov.angle_up, ZERO);
    assert_eq!(v.fov.angle_down, ZERO);
    assert_eq!(v.far_plane(), FarPlane::Finite);
}

#[test]
fn new_keeps_what_it_is_given() {
    let fov = FieldOfView { angle_left: 1, angle_right: 2, angle_up: 3, angle_down: 4 };
    let v = XRProjection::new(5, 6, fov);
    assert_eq!(v.near, 5);
    assert_eq!(v.far, 6);
    assert_eq!(v.fov, fov);
    assert_eq!(v.far(), 6);
    assert_eq!(v.input(Input::AngleLeft), 1);
    assert_eq!(v.input(Input::AngleRight), 2);
    assert_eq!(v.input(Input::AngleUp), 3);
    assert_eq!(v.input(Input::AngleDown), 4);
    assert_eq!(v.input(Input::Near), 5);
    assert_eq!(v.input(Input::Far), 6);
}
