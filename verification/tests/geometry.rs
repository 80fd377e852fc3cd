//! Geometry scenarios: spheres, rectangles, boxes, transforms, the
//! hierarchy and the volumetric medium.

use rtw::aabb::Aabb;
use rtw::bvh::{BuildError, BvhNode};
use rtw::constant_medium::ConstantMedium;
use rtw::cube::Cube;
use rtw::fixed::Fx;
use rtw::hittable::{Surface, Translate};
use rtw::hittable_list::HittableList;
use rtw::ray::Ray;
use rtw::sphere::{MovingSphere, Sphere};
use rtw::vec3::Vec3;

const S: i64 = 65536;

fn fxr(raw: i64) -> Fx {
    Fx::from_raw(raw)
}

fn v3(x: i64, y: i64, z: i64) -> Vec3 {
    Vec3::new(fxr(x * S), fxr(y * S), fxr(z * S))
}

#[test]
fn unit_sphere_hit_from_positive_z() {
    // A ray from (0,0,5) toward -z against the unit sphere at the origin:
    // the nearer root is t = 4, the point (0,0,1), the outward normal
    // (0,0,1), and the face flag is front.
    let sphere = Sphere::new(v3(0, 0, 0), fxr(S), 7);
    let ray = Ray::new(v3(0, 0, 5), v3(0, 0, -1), fxr(0));
    let rec = sphere.hit(&ray, fxr(0), fxr(100 * S)).expect("analytic hit");
    assert_eq!(rec.t.raw, 4 * S);
    assert_eq!(rec.point.x.raw, 0);
    assert_eq!(rec.point.y.raw, 0);
    assert_eq!(rec.point.z.raw, S);
    assert_eq!(rec.normal.x.raw, 0);
    assert_eq!(rec.normal.y.raw, 0);
    assert_eq!(rec.normal.z.raw, S);
    assert!(rec.front_face);
    assert_eq!(rec.mat, 7);
}

#[test]
fn sphere_normal_points_against_ray_from_inside() {
    // From the center, the geometric outward normal at the far wall points
    // along the ray; the stored normal must be flipped against it.
    let sphere = Sphere::new(v3(0, 0, 0), fxr(S), 0);
    let ray = Ray::new(v3(0, 0, 0), v3(0, 0, -1), fxr(0));
    let rec = sphere.hit(&ray, fxr(1), fxr(100 * S)).expect("inside hit");
    assert!(!rec.front_face);
    // dot(dir, normal) <= 0
    let d = -rec.normal.z.raw;
    assert!(d <= 0);
}

#[test]
fn sphere_miss_and_range_rejection() {
    let sphere = Sphere::new(v3(0, 0, 0), fxr(S), 0);
    let miss = Ray::new(v3(0, 5, 5), v3(0, 0, -1), fxr(0));
    assert!(sphere.hit(&miss, fxr(0), fxr(100 * S)).is_none());
    let ray = Ray::new(v3(0, 0, 5), v3(0, 0, -1), fxr(0));
    // The hit at t = 4 is outside (0, 2].
    assert!(sphere.hit(&ray, fxr(0), fxr(2 * S)).is_none());
    // The lower bound is strict: a hit exactly at t_min is rejected and
    // the farther root at t = 6 is taken instead.
    let rec = sphere.hit(&ray, fxr(4 * S), fxr(100 * S)).expect("far root");
    assert_eq!(rec.t.raw, 6 * S);
    assert!(!rec.front_face);
}

#[test]
fn three_spheres_only_center_hit_and_bvh_agrees() {
    // Spheres at x = -2, 0, 2; the ray down the z axis hits only the
    // center one, and the hierarchy answers exactly the brute-force scan.
    let mut list = HittableList::new();
    list.push(Surface::Sphere(Sphere::new(v3(-2, 0, 0), fxr(S), 0)));
    list.push(Surface::Sphere(Sphere::new(v3(0, 0, 0), fxr(S), 1)));
    list.push(Surface::Sphere(Sphere::new(v3(2, 0, 0), fxr(S), 2)));
    let ray = Ray::new(v3(0, 0, 5), v3(0, 0, -1), fxr(0));
    let mut rng = rtw::rng::fresh_rng();
    let brute = list.hit(&ray, fxr(66), fxr(0x4000_0000), &mut rng).expect("brute-force hit");
    assert_eq!(brute.mat, 1);
    assert_eq!(brute.t.raw, 4 * S);

    let mut list2 = HittableList::new();
    list2.push(Surface::Sphere(Sphere::new(v3(-2, 0, 0), fxr(S), 0)));
    list2.push(Surface::Sphere(Sphere::new(v3(0, 0, 0), fxr(S), 1)));
    list2.push(Surface::Sphere(Sphere::new(v3(2, 0, 0), fxr(S), 2)));
    let tree = BvhNode::from_list(list2, fxr(0), fxr(S)).expect("build");
    let from_tree = tree.hit(&ray, fxr(66), fxr(0x4000_0000), &mut rng).expect("tree hit");
    assert_eq!(from_tree.mat, brute.mat);
    assert_eq!(from_tree.t.raw, brute.t.raw);
    assert_eq!(from_tree.point.z.raw, brute.point.z.raw);
}

#[test]
fn bvh_of_empty_scene_is_an_error() {
    let list = HittableList::new();
    match BvhNode::from_list(list, fxr(0), fxr(S)) {
        Err(e) => assert_eq!(e, BuildError::EmptyScene),
        Ok(_) => panic!("an empty scene must not build"),
    }
}

#[test]
fn surrounding_box_contains_both() {
    let a = Aabb::new(v3(-1, -1, -1), v3(1, 1, 1));
    let b = Aabb::new(v3(0, 2, -3), v3(4, 5, 0));
    let u = Aabb::surrounding_box(&a, &b);
    for (inner, outer) in [(&a, &u), (&b, &u)] {
        assert!(outer.min.x.raw <= inner.min.x.raw);
        assert!(outer.min.y.raw <= inner.min.y.raw);
        assert!(outer.min.z.raw <= inner.min.z.raw);
        assert!(inner.max.x.raw <= outer.max.x.raw);
        assert!(inner.max.y.raw <= outer.max.y.raw);
        assert!(inner.max.z.raw <= outer.max.z.raw);
    }
}

#[test]
fn aabb_running_interval_rejects_disjoint_slabs() {
    // The x slab is crossed over an early parameter range and the y slab
    // only much later: the running interval empties between them, so the
    // ray misses the box even though each axis alone would pass.
    let b = Aabb::new(v3(-1, -1, -1), v3(1, 1, 1));
    let r = Ray::new(v3(-3, -10, 0), v3(1, 1, 0), fxr(0));
    assert!(!b.hit(&r, fxr(0), fxr(100 * S)));
}

#[test]
fn translate_keeps_back_face_flag() {
    // A back-face hit of the inner rectangle keeps its flag and normal
    // through the wrapper: a zero-offset translate must change nothing.
    let rect = rtw::aarect::XYRect::new(0, fxr(-S), fxr(S), fxr(-S), fxr(S), fxr(0));
    let ray = Ray::new(v3(0, 0, -5), v3(0, 0, 1), fxr(0));
    let bare = rect.hit(&ray, fxr(0), fxr(100 * S)).expect("back-face hit");
    assert!(!bare.front_face);
    assert_eq!(bare.normal.z.raw, -S);
    let wrapped = Surface::Translate(Translate::new(
        v3(0, 0, 0),
        Box::new(Surface::XYRect(rect)),
    ));
    let mut rng = rtw::rng::fresh_rng();
    let rec = wrapped.hit(&ray, fxr(0), fxr(100 * S), &mut rng).expect("wrapped hit");
    assert_eq!(rec.front_face, bare.front_face);
    assert_eq!(rec.normal.z.raw, bare.normal.z.raw);
    assert_eq!(rec.point.z.raw, bare.point.z.raw);
}

#[test]
fn medium_phase_constructor_installs_arena_material() {
    let mut mats = vec![];
    let boundary = Box::new(Surface::Sphere(Sphere::new(v3(0, 0, 0), fxr(S), 0)));
    let fog = ConstantMedium::from_color(boundary, fxr(0), v3(1, 1, 1), &mut mats);
    assert_eq!(fog.phase, 0);
    assert_eq!(mats.len(), 1);
    let ray = Ray::new(v3(0, 0, 5), v3(0, 0, -1), fxr(0));
    let mut rng = rtw::rng::fresh_rng();
    let rec = Surface::Medium(fog).hit(&ray, fxr(66), fxr(0x4000_0000), &mut rng).expect("fog");
    assert_eq!(rec.mat, 0);
}

#[test]
fn aabb_slab_test() {
    let b = Aabb::new(v3(-1, -1, -1), v3(1, 1, 1));
    let through = Ray::new(v3(0, 0, 5), v3(0, 0, -1), fxr(0));
    assert!(b.hit(&through, fxr(0), fxr(100 * S)));
    let past = Ray::new(v3(0, 5, 5), v3(0, 0, -1), fxr(0));
    assert!(!b.hit(&past, fxr(0), fxr(100 * S)));
    // Parallel to the x slabs, origin inside them.
    let parallel_in = Ray::new(v3(0, 0, 5), v3(0, 0, -1), fxr(0));
    assert!(b.hit(&parallel_in, fxr(0), fxr(100 * S)));
    // Parallel to the x slabs, origin outside them: a miss on that axis.
    let parallel_out = Ray::new(v3(3, 0, 5), v3(0, 0, -1), fxr(0));
    assert!(!b.hit(&parallel_out, fxr(0), fxr(100 * S)));
}

#[test]
fn xy_rect_hit_and_uv() {
    let rect = rtw::aarect::XYRect::new(3, fxr(0), fxr(4 * S), fxr(0), fxr(2 * S), fxr(-S));
    let ray = Ray::new(v3(1, 1, 5), v3(0, 0, -1), fxr(0));
    let rec = rect.hit(&ray, fxr(0), fxr(100 * S)).expect("plane hit");
    assert_eq!(rec.t.raw, 6 * S);
    assert_eq!(rec.u.raw, S / 4);
    assert_eq!(rec.v.raw, S / 2);
    assert_eq!(rec.mat, 3);
    assert!(rec.front_face);
    // Outside the bounded spans: a miss.
    let wide = Ray::new(v3(5, 1, 5), v3(0, 0, -1), fxr(0));
    assert!(rect.hit(&wide, fxr(0), fxr(100 * S)).is_none());
}

#[test]
fn cube_hits_nearest_face() {
    let cube = Cube::new(v3(-1, -1, -1), v3(1, 1, 1), 9);
    let ray = Ray::new(v3(0, 0, 5), v3(0, 0, -1), fxr(0));
    let rec = cube.hit(&ray, fxr(0), fxr(100 * S)).expect("cube hit");
    assert_eq!(rec.t.raw, 4 * S);
    assert_eq!(rec.point.z.raw, S);
    assert_eq!(rec.mat, 9);
}

#[test]
fn translate_shifts_hit_point() {
    // Translating the unit sphere by (2, 0, 0) must move the hit of the
    // shifted ray by exactly the offset.
    let plain = Sphere::new(v3(0, 0, 0), fxr(S), 0);
    let moved = Surface::Translate(Translate::new(
        v3(2, 0, 0),
        Box::new(Surface::Sphere(Sphere::new(v3(0, 0, 0), fxr(S), 0))),
    ));
    let ray_at_moved = Ray::new(v3(2, 0, 5), v3(0, 0, -1), fxr(0));
    let ray_at_plain = Ray::new(v3(0, 0, 5), v3(0, 0, -1), fxr(0));
    let mut rng = rtw::rng::fresh_rng();
    let rec_moved = moved.hit(&ray_at_moved, fxr(0), fxr(100 * S), &mut rng).expect("hit");
    let rec_plain = plain.hit(&ray_at_plain, fxr(0), fxr(100 * S)).expect("hit");
    assert_eq!(rec_moved.t.raw, rec_plain.t.raw);
    assert_eq!(rec_moved.point.x.raw, rec_plain.point.x.raw + 2 * S);
    assert_eq!(rec_moved.point.y.raw, rec_plain.point.y.raw);
    assert_eq!(rec_moved.point.z.raw, rec_plain.point.z.raw);
}

#[test]
fn quarter_turn_moves_sphere_exactly() {
    // Rotating a sphere at (2, 0, 0) a quarter turn about y (sin 1, cos 0)
    // puts it where a ray through (0, 0, -2) finds it: every product with
    // sine one or cosine zero is exact in fixed point.
    let inner = Box::new(Surface::Sphere(Sphere::new(v3(2, 0, 0), fxr(S), 4)));
    let turned = Surface::RotateY(rtw::hittable::RotateY::new(fxr(S), fxr(0), inner, fxr(0), fxr(S)));
    let ray = Ray::new(v3(0, 5, -2), v3(0, -1, 0), fxr(0));
    let mut rng = rtw::rng::fresh_rng();
    let rec = turned.hit(&ray, fxr(0), fxr(100 * S), &mut rng).expect("rotated hit");
    assert_eq!(rec.t.raw, 4 * S);
    assert_eq!(rec.point.x.raw, 0);
    assert_eq!(rec.point.y.raw, S);
    assert_eq!(rec.point.z.raw, -2 * S);
}

#[test]
fn moving_sphere_interpolates_center() {
    // Keyframes (0,0,0) at time 0 and (2,0,0) at time 1: at shutter time
    // one half, the center is (1,0,0).
    let ms = MovingSphere::new(v3(0, 0, 0), v3(2, 0, 0), fxr(0), fxr(S), fxr(S), 5);
    let ray = Ray::new(v3(1, 0, 5), v3(0, 0, -1), fxr(S / 2));
    let rec = ms.hit(&ray, fxr(0), fxr(100 * S)).expect("hit at half time");
    assert_eq!(rec.t.raw, 4 * S);
    assert_eq!(rec.point.x.raw, S);
    assert_eq!(rec.point.z.raw, S);
    assert_eq!(rec.mat, 5);
}

#[test]
fn dense_medium_scatters_at_entry() {
    // With `-1/density` equal to zero the sampled free path is zero, so
    // the medium always scatters exactly at the clipped entry parameter.
    let boundary = Box::new(Surface::Sphere(Sphere::new(v3(0, 0, 0), fxr(S), 0)));
    let fog = Surface::Medium(ConstantMedium::new(boundary, fxr(0), 8));
    let ray = Ray::new(v3(0, 0, 5), v3(0, 0, -1), fxr(0));
    let mut rng = rtw::rng::fresh_rng();
    let rec = fog.hit(&ray, fxr(66), fxr(0x4000_0000), &mut rng).expect("fog hit");
    assert_eq!(rec.t.raw, 4 * S);
    assert!(rec.front_face);
    assert_eq!(rec.mat, 8);
    assert_eq!(rec.normal.x.raw, S);
}

#[test]
fn bvh_matches_brute_force_on_random_spheres() {
    // Disjoint spheres on a line; many rays: the hierarchy and the linear
    // scan answer identically.
    let mut rng = rtw::rng::fresh_rng();
    let mut list = HittableList::new();
    let mut list2 = HittableList::new();
    for k in 0..8i64 {
        let c = v3(3 * k, 0, 0);
        list.push(Surface::Sphere(Sphere::new(c, fxr(S), k as usize)));
        list2.push(Surface::Sphere(Sphere::new(c, fxr(S), k as usize)));
    }
    let tree = BvhNode::from_list(list2, fxr(0), fxr(S)).expect("build");
    for k in 0..8i64 {
        for dz in [-5i64, 5] {
            let ray = Ray::new(v3(3 * k, 0, dz), v3(0, 0, if dz > 0 { -1 } else { 1 }), fxr(0));
            let a = list.hit(&ray, fxr(66), fxr(0x4000_0000), &mut rng);
            let b = tree.hit(&ray, fxr(66), fxr(0x4000_0000), &mut rng);
            match (a, b) {
                (Some(x), Some(y)) => {
                    assert_eq!(x.t.raw, y.t.raw);
                    assert_eq!(x.mat, y.mat);
                }
                (None, None) => {}
                _ => panic!("hierarchy and scan disagree"),
            }
        }
    }
}
