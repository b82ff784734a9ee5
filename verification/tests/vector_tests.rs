use raytrace::utils::vector::{ConvertTo, Vec3};
use raytrace::vector::Vec3 as Vec3Xyz;
use std::ops::{AddAssign, DivAssign, MulAssign, SubAssign};

#[test]
fn new_and_to_array() {
    let a = Vec3::new(1i32, -2, 3);
    assert_eq!(a.v, [1, -2, 3]);
    assert_eq!(a.to_array(), [1, -2, 3]);
}

#[test]
fn squared_length_and_dot() {
    let a = Vec3::new(1i64, 2, 3);
    let b = Vec3::new(4i64, 5, 6);
    assert_eq!(a.squared_length(), 14);
    assert_eq!(a.dot(&b), 32);
    let f = Vec3::new(1.5f32, 2.0, -0.5);
    assert_eq!(f.squared_length(), 6.5);
}

#[test]
fn cross_product() {
    let a = Vec3::new(1i64, 2, 3);
    let b = Vec3::new(4i64, 5, 6);
    assert_eq!(a.cross(&b), Vec3::new(-3, 6, -3));
    let x = Vec3::new(1i32, 0, 0);
    let y = Vec3::new(0i32, 1, 0);
    assert_eq!(x.cross(&y), Vec3::new(0, 0, 1));
}

#[test]
fn cross_is_perpendicular_example() {
    let a = Vec3::new(3i64, -7, 2);
    let b = Vec3::new(-1i64, 4, 9);
    let c = a.cross(&b);
    assert_eq!(a.dot(&c), 0);
    assert_eq!(b.dot(&c), 0);
}

#[test]
fn max_and_min_component() {
    assert_eq!(Vec3::new(1i32, 5, 3).max_component(), 5);
    assert_eq!(Vec3::new(7i32, 5, 3).max_component(), 7);
    assert_eq!(Vec3::new(1i32, 5, 9).max_component(), 9);
    assert_eq!(Vec3::new(4i32, 4, 4).max_component(), 4);
    assert_eq!(Vec3::new(1i32, 5, 3).min_component(), 1);
    assert_eq!(Vec3::new(7i32, 5, 3).min_component(), 3);
    assert_eq!(Vec3::new(7i32, 2, 3).min_component(), 2);
    assert_eq!(Vec3::new(2.5f32, -1.0, 0.0).min_component(), -1.0);
}

#[test]
fn binary_operators() {
    let a = Vec3::new(8u32, 6, 4);
    let b = Vec3::new(2u32, 3, 4);
    assert_eq!(&a + &b, Vec3::new(10, 9, 8));
    assert_eq!(&a - &b, Vec3::new(6, 3, 0));
    assert_eq!(&a * &b, Vec3::new(16, 18, 16));
    assert_eq!(&a / &b, Vec3::new(4, 2, 1));
    assert_eq!(a.clone() + &b, Vec3::new(10, 9, 8));
    assert_eq!(&a - b.clone(), Vec3::new(6, 3, 0));
    assert_eq!(a.clone() * b.clone(), Vec3::new(16, 18, 16));
    assert_eq!(a.clone() / b.clone(), Vec3::new(4, 2, 1));
    assert_eq!(&a + 1, Vec3::new(9, 7, 5));
    assert_eq!(a.clone() - 4, Vec3::new(4, 2, 0));
    assert_eq!(&a * 2, Vec3::new(16, 12, 8));
    assert_eq!(a.clone() / 2, Vec3::new(4, 3, 2));
}

#[test]
fn assign_operators() {
    let mut a = Vec3::new(1i32, 2, 3);
    a += 1;
    assert_eq!(a, Vec3::new(2, 3, 4));
    a -= &Vec3::new(1, 1, 1);
    assert_eq!(a, Vec3::new(1, 2, 3));
    a *= Vec3::new(2, 3, 4);
    assert_eq!(a, Vec3::new(2, 6, 12));
    a /= 2;
    assert_eq!(a, Vec3::new(1, 3, 6));
    a.add_assign(Vec3::new(1, 1, 1));
    a.sub_assign(1);
    a.mul_assign(&Vec3::new(3, 1, 1));
    a.div_assign(&Vec3::new(1, 3, 1));
    assert_eq!(a, Vec3::new(3, 1, 6));
}

#[test]
fn equality_compares_all_components() {
    assert!(Vec3::new(1u8, 2, 3) == Vec3::new(1u8, 2, 3));
    assert!(Vec3::new(1u8, 2, 3) != Vec3::new(1u8, 2, 4));
    assert!(Vec3::new(0u8, 2, 3) != Vec3::new(1u8, 2, 3));
}

#[test]
fn convert_to_same_type() {
    let x: u32 = 17u32.convert_to();
    assert_eq!(x, 17);
}

#[test]
fn xyz_vector_operations() {
    let a = Vec3Xyz::new(1i64, 2, 3);
    let b = Vec3Xyz::new(4i64, 5, 6);
    assert_eq!(a.squared_length(), 14);
    assert_eq!(a.dot(&b), 32);
    let c = a.cross(&b);
    assert_eq!((c.x, c.y, c.z), (-3, 6, -5));
    let s = &a + &b;
    assert_eq!((s.x, s.y, s.z), (5, 7, 9));
    let d = b - &a;
    assert_eq!((d.x, d.y, d.z), (3, 3, 3));
    let m = a * 3;
    assert_eq!((m.x, m.y, m.z), (3, 6, 9));
    let q = b / a;
    assert_eq!((q.x, q.y, q.z), (4, 2, 2));
    let p = a + 10;
    assert_eq!((p.x, p.y, p.z), (11, 12, 13));
    let mut e = a;
    e += 1;
    e -= &b;
    e *= 2;
    e /= &Vec3Xyz::new(1, 1, 2);
    assert_eq!((e.x, e.y, e.z), (-4, -4, -2));
}

#[test]
fn cross_is_antisymmetric_example() {
    let a = Vec3::new(3i64, -7, 2);
    let b = Vec3::new(-1i64, 4, 9);
    let ab = a.cross(&b);
    let ba = b.cross(&a);
    assert_eq!(ab.to_array(), [-71, -29, 5]);
    assert_eq!(ba.to_array(), [71, 29, -5]);
}
