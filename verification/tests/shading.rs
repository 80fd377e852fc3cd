//! Materials, textures and noise.

use rtw::fixed::Fx;
use rtw::hittable::HitRecord;
use rtw::material::{Dielectric, DiffuseLight, Lambertian, Material, Metal};
use rtw::perlin::Perlin;
use rtw::ray::Ray;
use rtw::texture::{CheckerTexture, ImageTexture, SolidColor, Texture};
use rtw::vec3::Vec3;

const S: i64 = 65536;

fn fxr(raw: i64) -> Fx {
    Fx::from_raw(raw)
}

fn v3(x: i64, y: i64, z: i64) -> Vec3 {
    Vec3::new(fxr(x * S), fxr(y * S), fxr(z * S))
}

fn rec_at(point: Vec3, normal: Vec3, front_face: bool) -> HitRecord {
    HitRecord { point, normal, t: fxr(S), u: fxr(0), v: fxr(0), front_face, mat: 0 }
}

#[test]
fn unit_dielectric_passes_straight_through_at_normal_incidence() {
    // Index of refraction one, normal incidence: the Schlick reflectance
    // is exactly zero, so the ray always refracts, and the refraction with
    // a unit ratio reproduces the incoming unit direction exactly.
    let glass = Material::Dielectric(Dielectric::new(fxr(S)));
    let incoming = Ray::new(v3(0, 0, 5), v3(0, 0, -1), fxr(3));
    let rec = rec_at(v3(0, 0, 1), v3(0, 0, 1), true);
    let mut rng = rtw::rng::fresh_rng();
    for _ in 0..16 {
        let (att, scattered) = glass.scatter(&incoming, &rec, &mut rng).expect("always scatters");
        assert_eq!(att.x.raw, S);
        assert_eq!(att.y.raw, S);
        assert_eq!(att.z.raw, S);
        assert_eq!(scattered.dir.x.raw, 0);
        assert_eq!(scattered.dir.y.raw, 0);
        assert_eq!(scattered.dir.z.raw, -S);
        assert_eq!(scattered.origin.z.raw, S);
        assert_eq!(scattered.time.raw, 3);
    }
}

#[test]
fn diffuse_light_never_scatters_and_emits_its_color() {
    let glow = Material::DiffuseLight(DiffuseLight::from_color(v3(4, 4, 4)));
    let incoming = Ray::new(v3(0, 0, 5), v3(0, 0, -1), fxr(0));
    let rec = rec_at(v3(0, 0, 1), v3(0, 0, 1), true);
    let mut rng = rtw::rng::fresh_rng();
    assert!(glow.scatter(&incoming, &rec, &mut rng).is_none());
    let e = glow.emitted(fxr(0), fxr(0), &v3(0, 0, 1));
    assert_eq!(e.x.raw, 4 * S);
    assert_eq!(e.y.raw, 4 * S);
    assert_eq!(e.z.raw, 4 * S);
}

#[test]
fn non_light_emits_black() {
    let dull = Material::Lambertian(Lambertian::from_color(v3(1, 0, 0)));
    let e = dull.emitted(fxr(0), fxr(0), &v3(0, 0, 0));
    assert_eq!((e.x.raw, e.y.raw, e.z.raw), (0, 0, 0));
}

#[test]
fn lambertian_scatters_from_hit_point_with_albedo() {
    let m = Material::Lambertian(Lambertian::from_color(Vec3::new(
        fxr(S / 2),
        fxr(S / 4),
        fxr(S / 8),
    )));
    let incoming = Ray::new(v3(0, 0, 5), v3(0, 0, -1), fxr(11));
    let rec = rec_at(v3(0, 0, 1), v3(0, 0, 1), true);
    let mut rng = rtw::rng::fresh_rng();
    let (att, scattered) = m.scatter(&incoming, &rec, &mut rng).expect("diffuse scatter");
    assert_eq!(att.x.raw, S / 2);
    assert_eq!(att.y.raw, S / 4);
    assert_eq!(att.z.raw, S / 8);
    assert_eq!(scattered.origin.z.raw, S);
    assert_eq!(scattered.time.raw, 11);
}

#[test]
fn metal_reflects_off_the_surface_or_absorbs() {
    // A perfect mirror (zero fuzz): reflection of -z about +z is +z.
    let m = Material::Metal(Metal::new(v3(1, 1, 1), fxr(0)));
    let incoming = Ray::new(v3(0, 0, 5), v3(0, 0, -1), fxr(0));
    let rec = rec_at(v3(0, 0, 1), v3(0, 0, 1), true);
    let mut rng = rtw::rng::fresh_rng();
    let (att, scattered) = m.scatter(&incoming, &rec, &mut rng).expect("mirror scatter");
    assert_eq!(att.x.raw, S);
    assert_eq!(scattered.dir.z.raw, S);
    // dot(scattered, normal) > 0
    assert!(scattered.dir.z.raw > 0);
}

#[test]
fn solid_and_checker_textures() {
    let solid = Texture::SolidColor(SolidColor::from_rgb(fxr(100), fxr(200), fxr(300)));
    let c = solid.value(fxr(0), fxr(0), &v3(0, 0, 0));
    assert_eq!((c.x.raw, c.y.raw, c.z.raw), (100, 200, 300));

    let checker = Texture::Checker(CheckerTexture::from_color(v3(1, 1, 1), v3(0, 0, 0)));
    // Near the origin all three arguments of the sine product are in the
    // first half period: the even texture answers.
    let p_even = Vec3::new(fxr(3277), fxr(3277), fxr(3277));  // 0.05 each
    let even = checker.value(fxr(0), fxr(0), &p_even);
    assert_eq!(even.x.raw, S);
    // With x at 0.4, `10 x` passes one half period: exactly one sign flips
    // and the odd texture answers.
    let p_odd = Vec3::new(fxr(26214), fxr(3277), fxr(3277));
    let odd = checker.value(fxr(0), fxr(0), &p_odd);
    assert_eq!(odd.x.raw, 0);
}

#[test]
fn image_texture_clamps_and_flips() {
    // A two-by-two bitmap with distinct corner colors, row major, top row
    // first.
    let px = |r: i64| Vec3::new(fxr(r), fxr(r), fxr(r));
    let img = Texture::Image(ImageTexture {
        width: 2,
        height: 2,
        pixels: vec![px(10), px(20), px(30), px(40)],
    });
    // u = 0, v = 1 is the top-left pixel (v flips).
    let tl = img.value(fxr(0), fxr(S), &v3(0, 0, 0));
    assert_eq!(tl.x.raw, 10);
    // u = 1, v = 0 is the bottom-right pixel, reached through clamping.
    let br = img.value(fxr(2 * S), fxr(-S), &v3(0, 0, 0));
    assert_eq!(br.x.raw, 40);
}

#[test]
fn noise_at_lattice_points_returns_stored_scalar() {
    let mut rng = rtw::rng::fresh_rng();
    let pl = Perlin::new(&mut rng);
    for (i, j, k) in [(0usize, 0usize, 0usize), (3, 7, 2), (255, 1, 254)] {
        let p = Vec3::new(
            fxr(i as i64 * S),
            fxr(j as i64 * S),
            fxr(k as i64 * S),
        );
        let n = pl.noise(&p);
        let idx = pl.perm_x[i % 256] ^ pl.perm_y[j % 256] ^ pl.perm_z[k % 256];
        assert_eq!(n.raw, pl.ranfloat[idx].raw);
    }
}

#[test]
fn perlin_tables_are_permutations() {
    let mut rng = rtw::rng::fresh_rng();
    let pl = Perlin::new(&mut rng);
    for table in [&pl.perm_x, &pl.perm_y, &pl.perm_z] {
        assert_eq!(table.len(), 256);
        let mut seen = [false; 256];
        for &v in table.iter() {
            assert!(v < 256);
            assert!(!seen[v], "duplicate table entry");
            seen[v] = true;
        }
    }
}
