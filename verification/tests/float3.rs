use rayt::fx::SCALE;
use rayt::vec3::Float3;

#[test]
fn test_create() {
    assert_eq!(Float3::new(0, 0, 0), Float3::zero());
    assert_eq!(Float3::new(SCALE, SCALE, SCALE), Float3::one());
    assert_eq!(Float3::new(2 * SCALE, 2 * SCALE, 2 * SCALE), Float3::full(2 * SCALE));
    assert_eq!(Float3::new(SCALE, 0, 0), Float3::xaxis());
    assert_eq!(Float3::new(0, SCALE, 0), Float3::yaxis());
    assert_eq!(Float3::new(0, 0, SCALE), Float3::zaxis());
}

#[test]
fn test_sqrt() {
    assert_eq!(
        Float3::new(SCALE, 2 * SCALE, 3 * SCALE),
        Float3::new(SCALE, 4 * SCALE, 9 * SCALE).sqrt()
    );
}

#[test]
fn test_near_zero() {
    assert!(!Float3::new(SCALE, 2 * SCALE, 3 * SCALE).near_zero());
    assert!(!Float3::new(1, 1, 1).near_zero());
    assert!(!Float3::new(SCALE, 1, SCALE).near_zero());

    assert!(Float3::new(0, 0, 0).near_zero());
    assert!(Float3::zero().near_zero());
}

#[test]
fn test_saturate() {
    assert_eq!(
        Float3::new(SCALE / 2, 0, SCALE),
        Float3::new(SCALE / 2, -SCALE, 2 * SCALE).saturate()
    );
}

#[test]
fn test_length() {
    assert_eq!(3 * SCALE, Float3::new(SCALE, 2 * SCALE, 2 * SCALE).length());
}

#[test]
fn test_dot() {
    let a = Float3::new(3 * SCALE, 4 * SCALE, SCALE);
    let b = Float3::new(3 * SCALE, 7 * SCALE, 5 * SCALE);
    assert_eq!(42 * SCALE, a.dot(b));
}

#[test]
fn test_cross() {
    let a = Float3::new(SCALE, 2 * SCALE, 3 * SCALE);
    let b = Float3::new(4 * SCALE, 5 * SCALE, 6 * SCALE);
    let expect = Float3::new(-3 * SCALE, 6 * SCALE, -3 * SCALE);
    assert_eq!(expect, a.cross(b));
}

#[test]
fn test_ope() {
    let a = Float3::new(2 * SCALE, 4 * SCALE, 6 * SCALE);
    let b = Float3::new(2 * SCALE, 2 * SCALE, 2 * SCALE);
    assert_eq!(Float3::new(4 * SCALE, 6 * SCALE, 8 * SCALE), a.add(b));
    assert_eq!(Float3::new(0, 2 * SCALE, 4 * SCALE), a.sub(b));
    assert_eq!(Float3::new(4 * SCALE, 8 * SCALE, 12 * SCALE), a.mul(b));

    assert_eq!(Float3::new(4 * SCALE, 8 * SCALE, 12 * SCALE), a.scale(2 * SCALE));
    assert_eq!(Float3::new(SCALE, 2 * SCALE, 3 * SCALE), a.div(2 * SCALE));
}

#[test]
fn test_normalize() {
    let v = Float3::new(0, 3 * SCALE, 4 * SCALE);
    let u = v.normalize();
    assert_eq!(u, Float3::new(0, 3 * SCALE / 5, 4 * SCALE / 5));
}

#[test]
fn test_to_rgb() {
    // 255.99 scaling: full intensity truncates to 255, zero stays 0,
    // and one half of full scale lands on 127.
    assert_eq!([255u8, 0u8, 127u8], Float3::new(SCALE, 0, SCALE / 2).to_rgb());
    // Out-of-range channels clamp before scaling.
    assert_eq!([255u8, 0u8, 255u8], Float3::new(2 * SCALE, -SCALE, SCALE).to_rgb());
}

#[test]
fn test_from_rgb() {
    let c = Float3::from_rgb(255, 0, 51);
    assert_eq!(c.x, SCALE);
    assert_eq!(c.y, 0);
    assert_eq!(c.z, 51 * SCALE / 255);
}

#[test]
fn test_reflect() {
    // Reflecting a downward vector about the upward normal flips y.
    let v = Float3::new(SCALE, -SCALE, 0);
    let r = v.reflect(Float3::yaxis());
    assert_eq!(r, Float3::new(SCALE, SCALE, 0));
}

#[test]
fn test_lerp() {
    let a = Float3::new(0, 0, 0);
    let b = Float3::new(2 * SCALE, 4 * SCALE, 6 * SCALE);
    assert_eq!(a.lerp(b, SCALE / 2), Float3::new(SCALE, 2 * SCALE, 3 * SCALE));
}

#[test]
fn test_gamma() {
    // The 2.2 display transfer fixes the endpoints and brightens the
    // quarter tone to the eleventh root of its fifth power.
    assert_eq!(Float3::full(SCALE).gamma(), Float3::full(SCALE));
    assert_eq!(Float3::zero().gamma(), Float3::zero());
    assert_eq!(Float3::full(SCALE / 4).gamma(), Float3::full(136 * 256));
}

#[test]
fn test_degamma() {
    // The inverse transfer darkens the half tone.
    assert_eq!(Float3::full(SCALE).degamma(), Float3::full(SCALE));
    assert_eq!(Float3::full(SCALE / 2).degamma(), Float3::full(55 * 256));
}
