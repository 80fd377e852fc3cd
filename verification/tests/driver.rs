//! The integrator, the camera, pixel painting and band reassembly.

use rtw::camera::{Camera, CameraError};
use rtw::color::paint;
use rtw::color::push_dec;
use rtw::fixed::Fx;
use rtw::hittable::Surface;
use rtw::hittable_list::{Environment, HittableList};
use rtw::material::{CoScatter, DiffuseLight, Lambertian, Material};
use rtw::ray::Ray;
use rtw::render::{assemble, render_band, RenderConfig, RenderError};
use rtw::sphere::Sphere;
use rtw::vec3::Vec3;

const S: i64 = 65536;

fn fxr(raw: i64) -> Fx {
    Fx::from_raw(raw)
}

fn v3(x: i64, y: i64, z: i64) -> Vec3 {
    Vec3::new(fxr(x * S), fxr(y * S), fxr(z * S))
}

fn assert_shareable<T: CoScatter>(_: &T) {}

#[test]
fn materials_are_shareable_values() {
    let m = Material::Lambertian(Lambertian::from_color(v3(1, 0, 0)));
    assert_shareable(&m);
}

#[test]
fn light_hit_at_full_depth_returns_exactly_its_emission() {
    // A ray straight at an emitting rectangle answers the emission color
    // alone, whatever the background is.
    let mut list = HittableList::new();
    list.push(Surface::XYRect(rtw::aarect::XYRect::new(
        0,
        fxr(-S),
        fxr(S),
        fxr(-S),
        fxr(S),
        fxr(0),
    )));
    let mats = vec![Material::DiffuseLight(DiffuseLight::from_color(v3(4, 4, 4)))];
    let ray = Ray::new(v3(0, 0, 5), v3(0, 0, -1), fxr(0));
    let mut rng = rtw::rng::fresh_rng();
    for bg in [v3(0, 0, 0), v3(7, 3, 1)] {
        let c = list.ray_color(&ray, &Environment::Solid(bg), 50, &mats, &mut rng);
        assert_eq!((c.x.raw, c.y.raw, c.z.raw), (4 * S, 4 * S, 4 * S));
    }
}

#[test]
fn miss_returns_background_and_zero_depth_returns_black() {
    let mut list = HittableList::new();
    list.push(Surface::Sphere(Sphere::new(v3(0, 0, -8), fxr(S), 0)));
    let mats = vec![Material::Lambertian(Lambertian::from_color(v3(1, 1, 1)))];
    let mut rng = rtw::rng::fresh_rng();
    let escaping = Ray::new(v3(0, 0, 5), v3(0, 1, 0), fxr(0));
    let bg = v3(2, 3, 4);
    let c = list.ray_color(&escaping, &Environment::Solid(bg), 50, &mats, &mut rng);
    assert_eq!((c.x.raw, c.y.raw, c.z.raw), (2 * S, 3 * S, 4 * S));
    let hitting = Ray::new(v3(0, 0, 5), v3(0, 0, -1), fxr(0));
    let c0 = list.ray_color(&hitting, &Environment::Solid(bg), 0, &mats, &mut rng);
    assert_eq!((c0.x.raw, c0.y.raw, c0.z.raw), (0, 0, 0));
}

#[test]
fn sky_gradient_blends_white_to_blue() {
    let list = HittableList::new();
    let mats: Vec<Material> = vec![];
    let mut rng = rtw::rng::fresh_rng();
    // Straight up: the blend lands on the blue endpoint.
    let up = Ray::new(v3(0, 0, 0), v3(0, 1, 0), fxr(0));
    let c = list.ray_color(&up, &Environment::SkyGradient, 5, &mats, &mut rng);
    assert_eq!(c.z.raw, S);
    assert!(c.x.raw < S);
    // Straight down: the blend lands on white.
    let down = Ray::new(v3(0, 0, 0), v3(0, -1, 0), fxr(0));
    let w = list.ray_color(&down, &Environment::SkyGradient, 5, &mats, &mut rng);
    assert_eq!((w.x.raw, w.y.raw, w.z.raw), (S, S, S));
}

#[test]
fn zero_aperture_camera_fixes_origin_and_varies_time() {
    let lookfrom = v3(0, 0, 5);
    let cam = Camera::new(
        lookfrom,
        v3(0, 0, 0),
        v3(0, 1, 0),
        fxr(S),
        fxr(S),
        fxr(0),
        fxr(5 * S),
        fxr(0),
        fxr(S),
    )
    .expect("camera");
    let mut rng = rtw::rng::fresh_rng();
    let mut times = Vec::new();
    for k in 0..64i64 {
        let s = fxr((k * 1024) % S);
        let t = fxr(((k * 2048) + 7) % S);
        let ray = cam.get_ray(s, t, &mut rng);
        assert_eq!(ray.origin.x.raw, lookfrom.x.raw);
        assert_eq!(ray.origin.y.raw, lookfrom.y.raw);
        assert_eq!(ray.origin.z.raw, lookfrom.z.raw);
        assert!(0 <= ray.time.raw && ray.time.raw < S);
        times.push(ray.time.raw);
    }
    times.sort();
    times.dedup();
    assert!(times.len() > 1, "shutter time never varied");
}

#[test]
fn camera_with_empty_shutter_is_rejected() {
    let r = Camera::new(
        v3(0, 0, 5),
        v3(0, 0, 0),
        v3(0, 1, 0),
        fxr(S),
        fxr(S),
        fxr(0),
        fxr(5 * S),
        fxr(S),
        fxr(0),
    );
    assert!(matches!(r, Err(CameraError::ViewportOutOfRange)));
}

#[test]
fn camera_with_degenerate_gaze_is_rejected() {
    let r = Camera::new(
        v3(1, 2, 3),
        v3(1, 2, 3),
        v3(0, 1, 0),
        fxr(S),
        fxr(S),
        fxr(0),
        fxr(5 * S),
        fxr(0),
        fxr(S),
    );
    assert!(matches!(r, Err(CameraError::DegenerateBasis)));
}

#[test]
fn painted_pixel_lines_are_exact() {
    let mut out = Vec::new();
    paint(&mut out, &v3(4, 4, 4), 4);
    assert_eq!(out, b"255 255 255\n".to_vec());
    out.clear();
    paint(&mut out, &v3(0, 0, 0), 4);
    assert_eq!(out, b"0 0 0\n".to_vec());
    out.clear();
    // An average of one quarter gamma-corrects to one half: channel 128.
    paint(&mut out, &v3(1, 1, 1), 4);
    assert_eq!(out, b"128 128 128\n".to_vec());
}

#[test]
fn decimal_digits_render_exactly() {
    for (n, text) in [(0usize, "0"), (7, "7"), (45, "45"), (255, "255"), (12345, "12345")] {
        let mut out = Vec::new();
        push_dec(&mut out, n);
        assert_eq!(out, text.as_bytes().to_vec());
    }
}

#[test]
fn assemble_orders_bands_by_index_descending() {
    let cfg = RenderConfig { width: 4, height: 4, samples: 1, max_depth: 1, threads: 2 };
    let bands = vec![(0usize, b"AAA".to_vec()), (1usize, b"BBB".to_vec())];
    let img = assemble(&bands, cfg).expect("assemble");
    assert_eq!(img, b"P3\n4 4\n255\nBBBAAA".to_vec());
    // Report order must not matter.
    let shuffled = vec![(1usize, b"BBB".to_vec()), (0usize, b"AAA".to_vec())];
    let img2 = assemble(&shuffled, cfg).expect("assemble");
    assert_eq!(img, img2);
}

#[test]
fn assemble_rejects_a_missing_band() {
    let cfg = RenderConfig { width: 4, height: 4, samples: 1, max_depth: 1, threads: 2 };
    let bands = vec![(0usize, b"AAA".to_vec())];
    assert_eq!(assemble(&bands, cfg).unwrap_err(), RenderError::MissingBand);
}

#[test]
fn render_band_paints_one_line_per_pixel() {
    let mut list = HittableList::new();
    list.push(Surface::Sphere(Sphere::new(v3(0, 0, 0), fxr(S), 0)));
    let mats = vec![Material::Lambertian(Lambertian::from_color(v3(1, 1, 1)))];
    let cam = Camera::new(
        v3(0, 0, 5),
        v3(0, 0, 0),
        v3(0, 1, 0),
        fxr(S),
        fxr(S),
        fxr(0),
        fxr(5 * S),
        fxr(0),
        fxr(S),
    )
    .expect("camera");
    let cfg = RenderConfig { width: 3, height: 2, samples: 2, max_depth: 4, threads: 1 };
    let mut rng = rtw::rng::fresh_rng();
    let out = render_band(&list, &mats, &Environment::SkyGradient, &cam, cfg, 0, &mut rng);
    let lines = out.iter().filter(|&&b| b == 10).count();
    assert_eq!(lines, 6, "one line per pixel of the band");
}

#[test]
fn random_draws_respect_their_bounds() {
    let mut rng = rtw::rng::fresh_rng();
    assert_eq!(rtw::rng::rand_below(&mut rng, 1), 0);
    for _ in 0..200 {
        assert!(rtw::rng::rand_below(&mut rng, 10) < 10);
        let u = rtw::rng::rand_unit(&mut rng);
        assert!(0 <= u.raw && u.raw < S);
        let r = rtw::rng::rand_range(&mut rng, fxr(-S), fxr(S));
        assert!(-S <= r.raw && r.raw < S);
        let i = rtw::rng::rand_index(&mut rng, 3);
        assert!(i < 3);
    }
    // Draws are not constant (the wrapper does not echo an input back).
    let mut distinct = std::collections::HashSet::new();
    for _ in 0..64 {
        distinct.insert(rtw::rng::rand_below(&mut rng, 1000));
    }
    assert!(distinct.len() > 1);
}

#[test]
fn approximate_rotation_round_trip_stays_close() {
    // Sine and cosine of thirty degrees in fixed point; mapping a point
    // into object space and back accumulates only rounding error.
    let sn: i64 = 32768;
    let cs: i64 = 56756;
    let x: i64 = 3 * S + 12345;
    let z: i64 = -2 * S + 777;
    let fwd_x = (cs * x) / S - (sn * z) / S;
    let fwd_z = (sn * x) / S + (cs * z) / S;
    let back_x = (cs * fwd_x + sn * fwd_z) / S;
    let back_z = (-sn * fwd_x + cs * fwd_z) / S;
    // (sn^2 + cs^2) misses S^2 by a hair; a few raw units of error remain.
    assert!((back_x - x).abs() <= 16);
    assert!((back_z - z).abs() <= 16);
}
