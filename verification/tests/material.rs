use rust_raytracer::material::{Bounce, Diffuse, MaterialEnum, Metal};
use rust_raytracer::{Ray, Scalar, Vec3};

fn s(x: f64) -> Scalar {
    Scalar::from_bits(x.to_bits())
}

fn f(x: Scalar) -> f64 {
    f64::from_bits(x.to_bits())
}

fn v(x: f64, y: f64, z: f64) -> Vec3 {
    Vec3::new(s(x), s(y), s(z))
}

fn bounce(alignment: f64) -> Bounce {
    Bounce { ray: Ray::new(v(1.0, 2.0, 3.0), v(0.0, 1.0, 0.0)), alignment: s(alignment) }
}

/// The mirror image of `d` about the unit normal `n`, and its alignment.
fn reflect(at: [f64; 3], d: [f64; 3], n: [f64; 3]) -> Bounce {
    let dn = d[0] * n[0] + d[1] * n[1] + d[2] * n[2];
    let r = [d[0] - 2.0 * dn * n[0], d[1] - 2.0 * dn * n[1], d[2] - 2.0 * dn * n[2]];
    Bounce {
        ray: Ray::new(v(at[0], at[1], at[2]), v(r[0], r[1], r[2])),
        alignment: s(r[0] * n[0] + r[1] * n[1] + r[2] * n[2]),
    }
}

#[test]
fn materials_keep_their_parts() {
    let d = Diffuse::new(v(0.8, 0.8, 0.4));
    assert_eq!(d.albedo, v(0.8, 0.8, 0.4));
    let m = Metal::new(v(0.89, 0.4, 0.4), s(0.25));
    assert_eq!(m.albedo, v(0.89, 0.4, 0.4));
    assert_eq!(f(m.fuzz), 0.25);
}

#[test]
fn albedo_of_each_kind() {
    assert_eq!(
        MaterialEnum::Diffuse(Diffuse::new(v(0.8, 0.8, 0.4))).get_albedo(),
        v(0.8, 0.8, 0.4)
    );
    assert_eq!(
        MaterialEnum::Metal(Metal::new(v(0.89, 0.4, 0.4), s(0.0))).get_albedo(),
        v(0.89, 0.4, 0.4)
    );
}

#[test]
fn diffuse_always_scatters() {
    let m = MaterialEnum::Diffuse(Diffuse::new(v(0.8, 0.8, 0.4)));
    for alignment in [1.0, 0.0, -0.0, -1.0, f64::NAN, f64::INFINITY, f64::NEG_INFINITY] {
        let b = bounce(alignment);
        assert_eq!(m.scatter(&b), Some((v(0.8, 0.8, 0.4), b.ray)));
    }
}

#[test]
fn metal_scatters_only_away_from_the_surface() {
    let m = MaterialEnum::Metal(Metal::new(v(0.89, 0.4, 0.4), s(0.0)));
    for alignment in [1.0, 1e-300, 5e-324, f64::INFINITY] {
        let b = bounce(alignment);
        assert_eq!(m.scatter(&b), Some((v(0.89, 0.4, 0.4), b.ray)), "{alignment}");
    }
    for alignment in [0.0, -0.0, -1e-300, -1.0, f64::NEG_INFINITY, f64::NAN] {
        assert_eq!(m.scatter(&bounce(alignment)), None, "{alignment}");
    }
}

#[test]
fn perfect_mirror_reflects_about_the_normal() {
    let m = MaterialEnum::Metal(Metal::new(v(0.89, 0.4, 0.4), s(0.0)));
    let d = [1.0, -1.0, 0.0];
    let n = [0.0, 1.0, 0.0];
    let b = reflect([0.0, 0.0, -5.0], d, n);
    let (attenuation, ray) = m.scatter(&b).unwrap();
    assert_eq!(attenuation, v(0.89, 0.4, 0.4));
    assert_eq!(ray.origin, v(0.0, 0.0, -5.0));
    assert!((f(ray.direction.x) - 1.0).abs() < 1e-12);
    assert!((f(ray.direction.y) - 1.0).abs() < 1e-12);
    assert!(f(ray.direction.z).abs() < 1e-12);
}

#[test]
fn mirror_absorbs_a_ray_that_comes_from_behind() {
    let m = MaterialEnum::Metal(Metal::new(v(0.89, 0.4, 0.4), s(0.0)));
    // the ray travels along the normal, so its mirror image points into the surface
    let b = reflect([0.0, 0.0, -5.0], [1.0, 1.0, 0.0], [0.0, 1.0, 0.0]);
    assert!(f(b.alignment) < 0.0);
    assert_eq!(m.scatter(&b), None);
    // a grazing ray has alignment 0 and is absorbed too
    let b = reflect([0.0, 0.0, -5.0], [1.0, 0.0, 0.0], [0.0, 1.0, 0.0]);
    assert_eq!(f(b.alignment), 0.0);
    assert_eq!(m.scatter(&b), None);
}
