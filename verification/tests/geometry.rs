use rust_raytracer::material::{Diffuse, MaterialEnum};
use rust_raytracer::{Crossing, Hit, Ray, Scalar, SurfaceNormal, Triangle, Vec3};

fn s(x: f64) -> Scalar {
    Scalar::from_bits(x.to_bits())
}

fn f(x: Scalar) -> f64 {
    f64::from_bits(x.to_bits())
}

fn v(x: f64, y: f64, z: f64) -> Vec3 {
    Vec3::new(s(x), s(y), s(z))
}

fn a(p: Vec3) -> [f64; 3] {
    [f(p.x), f(p.y), f(p.z)]
}

fn sub(p: [f64; 3], q: [f64; 3]) -> [f64; 3] {
    [p[0] - q[0], p[1] - q[1], p[2] - q[2]]
}

fn dot(p: [f64; 3], q: [f64; 3]) -> f64 {
    p[0] * q[0] + p[1] * q[1] + p[2] * q[2]
}

fn cross(p: [f64; 3], q: [f64; 3]) -> [f64; 3] {
    [p[1] * q[2] - p[2] * q[1], p[2] * q[0] - p[0] * q[2], p[0] * q[1] - p[1] * q[0]]
}

/// The numbers of the intersection test, computed in doubles.
fn crossing(ray: &Ray, triangle: &Triangle) -> Crossing {
    let (o, d) = (a(ray.origin), a(ray.direction));
    let p0 = a(triangle.points[0]);
    let e1 = sub(a(triangle.points[1]), p0);
    let e2 = sub(a(triangle.points[2]), p0);
    let h = cross(d, e2);
    let det = dot(e1, h);
    let inv = 1.0 / det;
    let sv = sub(o, p0);
    let u = inv * dot(sv, h);
    let q = cross(sv, e1);
    let w = inv * dot(d, q);
    let t = inv * dot(e2, q);
    Crossing {
        determinant: s(det),
        u: s(u),
        v: s(w),
        sum: s(u + w),
        t: s(t),
        at: v(o[0] + d[0] * t, o[1] + d[1] * t, o[2] + d[2] * t),
    }
}

fn facing_triangle() -> Triangle {
    Triangle::new(
        v(-1.0, -1.0, -5.0),
        v(1.0, -1.0, -5.0),
        v(0.0, 1.0, -5.0),
        v(0.0, 0.0, 1.0),
    )
}

fn good() -> Crossing {
    Crossing {
        determinant: s(2.0),
        u: s(0.25),
        v: s(0.5),
        sum: s(0.75),
        t: s(5.0),
        at: v(0.0, 0.0, -5.0),
    }
}

#[test]
fn new_triangle_is_flat() {
    let n = v(0.0, 0.0, 1.0);
    let t = Triangle::new(v(1.0, 2.0, 3.0), v(4.0, 5.0, 6.0), v(7.0, 8.0, 9.0), n);
    assert_eq!(t.points, [v(1.0, 2.0, 3.0), v(4.0, 5.0, 6.0), v(7.0, 8.0, 9.0)]);
    assert_eq!(t.normal, n);
    assert_eq!(t.normals, [n, n, n]);
    assert!(!t.smooth);
}

#[test]
fn shading_goes_by_the_face_unless_the_triangle_is_smooth() {
    let mut t = facing_triangle();
    assert_eq!(t.shading_normal(), SurfaceNormal::Flat(v(0.0, 0.0, 1.0)));
    t.normals = [v(1.0, 0.0, 0.0), v(0.0, 1.0, 0.0), v(0.0, 0.0, 1.0)];
    assert_eq!(t.shading_normal(), SurfaceNormal::Flat(v(0.0, 0.0, 1.0)));
    t.smooth = true;
    assert_eq!(
        t.shading_normal(),
        SurfaceNormal::Smooth([v(1.0, 0.0, 0.0), v(0.0, 1.0, 0.0), v(0.0, 0.0, 1.0)])
    );
}

#[test]
fn vectors_and_rays_keep_their_parts() {
    let p = Vec3::new(s(1.5), s(-2.0), s(0.0));
    assert_eq!((f(p.x), f(p.y), f(p.z)), (1.5, -2.0, 0.0));
    let r = Ray::new(p, v(0.0, 0.0, -1.0));
    assert_eq!(r.origin, p);
    assert_eq!(r.direction, v(0.0, 0.0, -1.0));
}

#[test]
fn a_crossing_inside_and_ahead_counts() {
    assert!(good().crosses());
}

#[test]
fn a_ray_along_the_plane_never_counts() {
    for det in [0.0, -0.0, 9.9e-8, -9.9e-8, 1e-300, 5e-324] {
        let c = Crossing { determinant: s(det), ..good() };
        assert!(!c.crosses(), "{det}");
        assert!(!facing_triangle().hit(&c).is_hit(), "{det}");
    }
}

#[test]
fn the_tolerance_itself_is_not_parallel() {
    assert!(Crossing { determinant: s(1e-7), ..good() }.crosses());
    assert!(Crossing { determinant: s(-1e-7), ..good() }.crosses());
    assert!(Crossing { determinant: s(-3.0), ..good() }.crosses());
}

#[test]
fn u_outside_the_unit_interval_is_rejected() {
    assert!(!Crossing { u: s(-1e-9), ..good() }.crosses());
    assert!(!Crossing { u: s(1.0000000000000002), ..good() }.crosses());
    assert!(Crossing { u: s(0.0), ..good() }.crosses());
    assert!(Crossing { u: s(-0.0), ..good() }.crosses());
    assert!(Crossing { u: s(1.0), ..good() }.crosses());
}

#[test]
fn v_below_zero_or_sum_above_one_is_rejected() {
    assert!(!Crossing { v: s(-1e-9), ..good() }.crosses());
    assert!(!Crossing { sum: s(1.0000000000000002), ..good() }.crosses());
    assert!(Crossing { v: s(0.0), ..good() }.crosses());
    assert!(Crossing { sum: s(1.0), ..good() }.crosses());
}

#[test]
fn a_crossing_at_or_behind_the_origin_is_rejected() {
    assert!(!Crossing { t: s(0.0), ..good() }.crosses());
    assert!(!Crossing { t: s(-5.0), ..good() }.crosses());
    assert!(!Crossing { t: s(1e-7), ..good() }.crosses());
    assert!(Crossing { t: s(1.0000000000000002e-7), ..good() }.crosses());
}

#[test]
fn nan_distance_is_rejected() {
    assert!(!Crossing { t: s(f64::NAN), ..good() }.crosses());
}

#[test]
fn triangle_hit_reports_distance_point_and_itself() {
    let tri = facing_triangle();
    let h = tri.hit(&good());
    assert!(h.is_hit());
    assert_eq!(f(h.t), 5.0);
    assert_eq!(h.at, v(0.0, 0.0, -5.0));
    assert_eq!(h.triangle, tri);
    assert_eq!(h.material, Hit::new().material);
}

#[test]
fn triangle_miss_is_the_empty_answer() {
    let h = facing_triangle().hit(&Crossing { t: s(-1.0), ..good() });
    assert_eq!(h, Hit::new());
    assert!(!h.is_hit());
}

#[test]
fn the_empty_answer_has_no_distance() {
    let h = Hit::new();
    assert!(!h.is_hit());
    assert!(f(h.t) <= 0.0);
    assert_eq!(f(h.t), -1.0);
    assert_eq!(f(h.at.z), f64::NEG_INFINITY);
    let one = s(1.0);
    assert_eq!(h.material, MaterialEnum::Diffuse(Diffuse::new(Vec3::new(one, one, one))));
}

#[test]
fn ray_through_the_middle_hits_at_the_closed_form_distance() {
    let tri = facing_triangle();
    let ray = Ray::new(v(0.0, 0.0, 0.0), v(0.1, -0.2, -1.0));
    let h = tri.hit(&crossing(&ray, &tri));
    assert!(h.is_hit());
    // the plane is z = -5 and the ray moves one unit of z for each unit of t
    assert!((f(h.t) - 5.0).abs() < 1e-6);
    assert!((f(h.at.x) - 0.5).abs() < 1e-6);
    assert!((f(h.at.y) + 1.0).abs() < 1e-6);
    assert!((f(h.at.z) + 5.0).abs() < 1e-6);
}

#[test]
fn ray_beside_the_triangle_misses() {
    let tri = facing_triangle();
    let ray = Ray::new(v(0.0, 0.0, 0.0), v(1.0, 1.0, -1.0));
    assert!(!tri.hit(&crossing(&ray, &tri)).is_hit());
}

#[test]
fn ray_away_from_the_triangle_misses() {
    let tri = facing_triangle();
    let ray = Ray::new(v(0.0, 0.0, 0.0), v(0.0, 0.0, 1.0));
    assert!(!tri.hit(&crossing(&ray, &tri)).is_hit());
}

#[test]
fn ray_in_the_plane_misses() {
    let tri = facing_triangle();
    for d in [v(1.0, 0.0, 0.0), v(0.0, 1.0, 0.0), v(0.3, -0.7, 0.0)] {
        let c = crossing(&Ray::new(v(0.0, 0.0, -5.0), d), &tri);
        assert!(!tri.hit(&c).is_hit());
        let c = crossing(&Ray::new(v(0.0, 0.0, 0.0), d), &tri);
        assert!(!tri.hit(&c).is_hit());
    }
}
