use approx::RelativeEq;
use special_relativity::matrix::{Matrix, TOO_NEAR_BITS};
use special_relativity::{vec3, Scalar, Vector3};

fn s(v: f64) -> Scalar {
    Scalar::from_bits(v.to_bits())
}

fn f(v: Scalar) -> f64 {
    f64::from_bits(v.to_bits())
}

fn v3(x: f64, y: f64, z: f64) -> Vector3 {
    vec3(s(x), s(y), s(z))
}

fn a3(v: Vector3) -> [f64; 3] {
    [f(v.x), f(v.y), f(v.z)]
}

fn matrix(rows: [[f64; 4]; 4]) -> Matrix {
    Matrix::new(rows[0].map(s), rows[1].map(s), rows[2].map(s), rows[3].map(s))
}

fn rows(m: Matrix) -> [[f64; 4]; 4] {
    m.rows.map(|row| row.map(f))
}

fn close(a: f64, b: f64) -> bool {
    a.relative_eq(&b, f64::EPSILON, f64::EPSILON)
}

fn close3(a: [f64; 3], b: [f64; 3]) -> bool {
    close(a[0], b[0]) && close(a[1], b[1]) && close(a[2], b[2])
}

fn dot(a: [f64; 3], b: [f64; 3]) -> f64 {
    a[0] * b[0] + a[1] * b[1] + a[2] * b[2]
}

fn magnitude(a: [f64; 3]) -> f64 {
    dot(a, a).sqrt()
}

/// The matrix applied to a point of space.
fn apply(m: Matrix, v: [f64; 3]) -> [f64; 3] {
    let r = rows(m);
    let at = |i: usize| r[i][0] * v[0] + r[i][1] * v[1] + r[i][2] * v[2] + r[i][3];
    [at(0), at(1), at(2)]
}

/// The Lienard-Wiechert tensor of a charge, with the guard of the library in
/// front of the division by the distance.
fn field_strength(q: f64, l: [f64; 3], u: [f64; 3], a: [f64; 3]) -> Matrix {
    let l_len = magnitude(l);
    let l_hat = [l[0] / l_len, l[1] / l_len, l[2] / l_len];
    let u_t = (1.0 + dot(u, u)).sqrt();
    let a_t = dot(a, u) / u_t;
    let lu = dot(l_hat, u);
    let la = dot(l_hat, a);
    let k1 = (u_t * (la - 1.0 / l_len) - a_t * lu) / u_t.powi(3);
    let k2 = (a_t + la - 1.0 / l_len) / u_t.powi(3);
    let t_1 = 1.0 / u_t.powi(2);
    let f_t = [
        l_hat[0] * k1 + u[0] * k2 - a[0] / u_t.powi(2),
        l_hat[1] * k1 + u[1] * k2 - a[1] / u_t.powi(2),
        l_hat[2] * k1 + u[2] * k2 - a[2] / u_t.powi(2),
    ];
    let f_xy = (l_hat[0] * a[1] - l_hat[1] * a[0]) * t_1 - (l_hat[0] * u[1] - l_hat[1] * u[0]) * k2;
    let f_yz = (l_hat[1] * a[2] - l_hat[2] * a[1]) * t_1 - (l_hat[1] * u[2] - l_hat[2] * u[1]) * k2;
    let f_zx = (l_hat[2] * a[0] - l_hat[0] * a[2]) * t_1 - (l_hat[2] * u[0] - l_hat[0] * u[2]) * k2;
    let k = q / l_len;
    Matrix::field_strength(
        s(l_len),
        s(f_xy * k),
        s(f_yz * k),
        s(f_zx * k),
        v3(f_t[0] * k, f_t[1] * k, f_t[2] * k),
    )
}

fn magnetic_field(m: Matrix) -> [f64; 3] {
    let r = rows(m);
    [r[1][2] - r[2][1], r[2][0] - r[0][2], r[0][1] - r[1][0]]
}

const M: [[f64; 4]; 4] = [
    [1.0, 2.0, 3.0, 4.0],
    [5.0, 6.0, 7.0, 8.0],
    [9.0, 10.0, 11.0, 12.0],
    [13.0, 14.0, 15.0, 16.0],
];

#[test]
fn static_charge() {
    let l = [3.0, 4.0, 5.0];
    let fs = field_strength(2.0, l, [0.0; 3], [0.0; 3]);
    let l_len = magnitude(l);
    let l_hat = [l[0] / l_len, l[1] / l_len, l[2] / l_len];
    assert!(close3(
        a3(fs.field_strength_to_electric_field()),
        l_hat.map(|e| -e * 2.0 / l_len / l_len),
    ));
    assert!(close3(magnetic_field(fs), [0.0; 3]));
}

#[test]
fn moving_charge() {
    let l = [3.0, 4.0, 5.0];
    let u = [0.1, 0.2, -0.05];
    let a = [0.01, 0.02, 0.03];
    let fs = field_strength(2.0, l, u, a);
    let e = a3(fs.field_strength_to_electric_field());
    let m = magnetic_field(fs);
    assert!(magnitude(e) > 0.0);
    assert!(magnitude(m) > 0.0);
    assert!(close(dot(e, m), 0.0));
}

#[test]
fn scale() {
    assert_eq!(
        apply(Matrix::scale(v3(-0.5, 2.0, 1.5)), [2.0, 3.0, 4.0]),
        [-1.0, 6.0, 6.0]
    );
}

#[test]
fn translation() {
    assert_eq!(
        apply(Matrix::translation(v3(1.0, 2.0, 3.0)), [-4.0, 5.0, 7.0]),
        [-3.0, 7.0, 10.0]
    );
}

#[test]
fn the_field_tensor_is_antisymmetric() {
    let m = rows(Matrix::field_strength(s(1.0), s(1.0), s(2.0), s(3.0), v3(4.0, 5.0, 6.0)));
    assert_eq!(
        m,
        [
            [0.0, 1.0, -3.0, 4.0],
            [-1.0, 0.0, 2.0, 5.0],
            [3.0, -2.0, 0.0, 6.0],
            [-4.0, -5.0, -6.0, 0.0],
        ]
    );
    let fs = rows(field_strength(2.0, [3.0, 4.0, 5.0], [0.1, 0.2, -0.05], [0.01, 0.02, 0.03]));
    for r in 0..4 {
        for c in 0..4 {
            assert_eq!(fs[r][c], -fs[c][r]);
        }
    }
}

#[test]
fn a_charge_too_near_exerts_no_field() {
    assert_eq!(TOO_NEAR_BITS, (f64::EPSILON * 2.0).to_bits());
    let tensor = |l_len: f64| rows(Matrix::field_strength(s(l_len), s(1.0), s(2.0), s(3.0), v3(4.0, 5.0, 6.0)));
    assert_eq!(tensor(0.0), [[0.0; 4]; 4]);
    assert_eq!(tensor(f64::EPSILON), [[0.0; 4]; 4]);
    assert_ne!(tensor(f64::EPSILON * 2.0), [[0.0; 4]; 4]);
    assert_eq!(tensor(f64::EPSILON * 2.0), tensor(1.0));
    // the tensor of a charge upon itself is no number at all; it is dropped
    let fs = field_strength(2.0, [0.0; 3], [0.0; 3], [0.0; 3]);
    assert_eq!(rows(fs), [[0.0; 4]; 4]);
}

/// The boost that brings the covariant velocity `u` to rest.
fn lorentz(u: [f64; 3]) -> Matrix {
    let x2 = u[0] * u[0];
    let y2 = u[1] * u[1];
    let z2 = u[2] * u[2];
    let r = x2 + y2 + z2;
    let g = (1.0 + r).sqrt();
    let xy = (g - 1.0) * (u[0] * u[1]) / r;
    let yz = (g - 1.0) * (u[1] * u[2]) / r;
    let zx = (g - 1.0) * (u[2] * u[0]) / r;
    Matrix::lorentz(
        s(r),
        v3(u[0], u[1], u[2]),
        s(g),
        v3((g * x2 + y2 + z2) / r, (x2 + g * y2 + z2) / r, (x2 + y2 + g * z2) / r),
        v3(xy, yz, zx),
    )
}

#[test]
fn a_particle_at_rest_is_left_alone() {
    let ident = [[1.0, 0.0, 0.0, 0.0], [0.0, 1.0, 0.0, 0.0], [0.0, 0.0, 1.0, 0.0], [0.0, 0.0, 0.0, 1.0]];
    assert_eq!(rows(lorentz([0.0, 0.0, 0.0])), ident);
    assert_eq!(rows(lorentz([-0.0, 0.0, -0.0])), ident);
    let nowhere = Matrix::lorentz(s(f64::NAN), v3(1.0, 2.0, 3.0), s(4.0), v3(5.0, 6.0, 7.0), v3(8.0, 9.0, 10.0));
    assert_eq!(rows(nowhere), ident);
    let barely = Matrix::lorentz(s(5e-324), v3(1.0, 2.0, 3.0), s(4.0), v3(5.0, 6.0, 7.0), v3(8.0, 9.0, 10.0));
    assert_eq!(
        rows(barely),
        [
            [5.0, 8.0, 10.0, -1.0],
            [8.0, 6.0, 9.0, -2.0],
            [10.0, 9.0, 7.0, -3.0],
            [-1.0, -2.0, -3.0, 4.0],
        ]
    );
}

#[test]
fn a_boost_is_symmetric_and_brings_its_velocity_to_rest() {
    let u = [0.1, 0.2, 0.3];
    let m = rows(lorentz(u));
    for r in 0..4 {
        for c in 0..4 {
            assert_eq!(m[r][c].to_bits(), m[c][r].to_bits());
        }
    }
    let gamma = (1.0 + dot(u, u)).sqrt();
    let v = [u[0], u[1], u[2], gamma];
    let at = |i: usize| m[i][0] * v[0] + m[i][1] * v[1] + m[i][2] * v[2] + m[i][3] * v[3];
    assert!(at(0).abs() < 1e-15 && at(1).abs() < 1e-15 && at(2).abs() < 1e-15);
    assert!(close(at(3), 1.0));
}

#[test]
fn rows_come_back_as_given() {
    assert_eq!(rows(matrix(M)), M);
}

#[test]
fn transposed_exchanges_rows_and_columns() {
    assert_eq!(
        rows(matrix(M).transposed()),
        [
            [1.0, 5.0, 9.0, 13.0],
            [2.0, 6.0, 10.0, 14.0],
            [3.0, 7.0, 11.0, 15.0],
            [4.0, 8.0, 12.0, 16.0],
        ]
    );
    assert_eq!(rows(matrix(M).transposed().transposed()), M);
}

#[test]
fn the_fixed_matrices() {
    assert_eq!(
        rows(Matrix::eta()),
        [[1.0, 0.0, 0.0, 0.0], [0.0, 1.0, 0.0, 0.0], [0.0, 0.0, 1.0, 0.0], [0.0, 0.0, 0.0, -1.0]]
    );
    assert_eq!(
        rows(Matrix::ident()),
        [[1.0, 0.0, 0.0, 0.0], [0.0, 1.0, 0.0, 0.0], [0.0, 0.0, 1.0, 0.0], [0.0, 0.0, 0.0, 1.0]]
    );
    assert_eq!(rows(Matrix::zero()), [[0.0; 4]; 4]);
    assert!(Matrix::zero().rows.iter().flatten().all(|e| e.to_bits() == 0));
    assert_eq!(
        rows(Matrix::translation(v3(1.0, 2.0, 3.0))),
        [[1.0, 0.0, 0.0, 1.0], [0.0, 1.0, 0.0, 2.0], [0.0, 0.0, 1.0, 3.0], [0.0, 0.0, 0.0, 1.0]]
    );
    assert_eq!(
        rows(Matrix::scale(v3(2.0, 3.0, 4.0))),
        [[2.0, 0.0, 0.0, 0.0], [0.0, 3.0, 0.0, 0.0], [0.0, 0.0, 4.0, 0.0], [0.0, 0.0, 0.0, 1.0]]
    );
}

#[test]
fn the_electric_field_is_the_time_column() {
    assert_eq!(a3(matrix(M).field_strength_to_electric_field()), [4.0, 8.0, 12.0]);
}
