use pathtracer::hittable::{not_hit, HitRecord};
use pathtracer::material::{
    Dielectric, Lambertian, Material, Metal, Sample, Scatter, VoidMaterial,
};
use pathtracer::scalar::ONE;
use pathtracer::utilities::{gray, white};
use pathtracer::vec3::{Color, Ray, Vec3};

fn fx(x: f64) -> i64 {
    (x * 1e9).round() as i64
}

fn v(x: f64, y: f64, z: f64) -> Vec3 {
    Vec3::new(fx(x), fx(y), fx(z))
}

fn hit_at(point: Vec3, normal: Vec3, front_face: bool, material: Material) -> HitRecord {
    HitRecord { has_hit: true, point, normal, t: ONE, front_face, material }
}

fn sample(dir: Vec3, pick: i64) -> Sample {
    Sample { dir, pick }
}

#[test]
fn void_hands_the_ray_back() {
    let r = Ray::new(v(1.0, 2.0, 3.0), v(0.0, -1.0, 0.0));
    let (out, attenuation) = VoidMaterial::new().scatter(&r, &not_hit());
    assert_eq!(out, r);
    assert_eq!(attenuation, white());
    assert_eq!(VoidMaterial::new(), VoidMaterial {});
}

#[test]
fn lambertian_scatters_along_normal_plus_draw() {
    let m = Lambertian::new(gray());
    assert_eq!(m.albedo, gray());
    let hr = hit_at(v(0.0, 0.0, -0.5), v(0.0, 0.0, 1.0), true, Material::Lambertian { albedo: gray() });
    let (ray, attenuation) = m.scatter_with(&hr, v(0.5, 0.25, 0.75));
    assert_eq!(ray.origin(), v(0.0, 0.0, -0.5));
    assert_eq!(ray.dir(), Vec3::new(272_165_526, 136_082_763, 952_579_344));
    assert_eq!(attenuation, gray());
}

#[test]
fn lambertian_turns_the_draw_outward() {
    let m = Lambertian::new(gray());
    let hr = hit_at(v(0.0, 0.0, -0.5), v(0.0, 0.0, 1.0), true, Material::Void);
    // a draw along the surface is turned round
    let (ray, _) = m.scatter_with(&hr, v(0.5, 0.25, 0.0));
    assert_eq!(ray.dir(), Vec3::new(-436_435_780, -218_217_890, 872_871_561));
    // a draw against the normal is turned round too
    let down = hit_at(v(0.0, 0.0, -0.5), v(0.0, 0.0, -1.0), true, Material::Void);
    let (ray, _) = m.scatter_with(&down, v(0.0, 0.0, 0.5));
    assert_eq!(ray.dir(), v(0.0, 0.0, -1.0));
}

#[test]
fn lambertian_falls_back_to_the_normal() {
    let m = Lambertian::new(gray());
    let flat = hit_at(v(0.0, 0.0, -0.5), v(0.0, 0.0, 0.0), true, Material::Void);
    let (ray, attenuation) = m.scatter_with(&flat, v(0.0, 0.0, 0.0));
    assert_eq!(ray.dir(), v(0.0, 0.0, 0.0));
    assert_eq!(attenuation, gray());
    // too short a sum to be given unit length
    let tiny = hit_at(v(0.0, 0.0, 0.0), Vec3::new(3, 0, 0), true, Material::Void);
    let (ray, _) = m.scatter_with(&tiny, Vec3::new(2, 0, 0));
    assert_eq!(ray.dir(), Vec3::new(3, 0, 0));
}

#[test]
fn lambertian_scatter_stays_on_the_side_of_the_normal() {
    let m = Lambertian::new(v(0.4, 0.2, 0.5));
    let normal = v(0.0, 1.0, 0.0);
    let hr = hit_at(v(1.0, 0.0, 1.0), normal, true, Material::Void);
    let r = Ray::new(v(1.0, 5.0, 1.0), v(0.0, -1.0, 0.0));
    for _ in 0..200 {
        let (ray, attenuation) = m.scatter(&r, &hr);
        assert_eq!(ray.origin(), v(1.0, 0.0, 1.0));
        assert_eq!(attenuation, v(0.4, 0.2, 0.5));
        assert!(Vec3::dot(&ray.dir(), &normal) > 0);
        assert!((ray.dir().norm() - ONE).abs() <= 8);
    }
}

#[test]
fn metal_without_fuzz_is_a_mirror() {
    let m = Metal::new(v(0.7, 0.6, 0.5), 0);
    assert_eq!((m.albedo, m.fuzz), (v(0.7, 0.6, 0.5), 0));
    let r = Ray::new(v(-1.0, 1.0, 0.0), v(1.0, -1.0, 0.0));
    let hr = hit_at(v(0.0, 0.0, 0.0), v(0.0, 1.0, 0.0), true, Material::Void);
    let (ray, attenuation) = m.scatter_with(&r, &hr, v(0.3, 0.4, 0.0));
    assert_eq!(ray.origin(), v(0.0, 0.0, 0.0));
    assert_eq!(ray.dir(), Vec3::new(707_106_781, 707_106_781, 0));
    assert_eq!(attenuation, v(0.7, 0.6, 0.5));
    for _ in 0..20 {
        let (again, _) = m.scatter(&r, &hr);
        assert_eq!(again, ray);
    }
}

#[test]
fn metal_with_fuzz_adds_the_scaled_draw() {
    let m = Metal::new(v(0.7, 0.6, 0.5), fx(0.5));
    let r = Ray::new(v(-1.0, 1.0, 0.0), v(1.0, -1.0, 0.0));
    let hr = hit_at(v(0.0, 0.0, 0.0), v(0.0, 1.0, 0.0), true, Material::Void);
    // the draw (0.3, 0.4, 0) has unit vector (0.6, 0.8, 0)
    let (ray, attenuation) = m.scatter_with(&r, &hr, v(0.3, 0.4, 0.0));
    assert_eq!(ray.dir(), Vec3::new(1_007_106_781, 1_107_106_781, 0));
    assert_eq!(attenuation, v(0.7, 0.6, 0.5));
}

#[test]
fn schlick_reflectance() {
    // head on, glass reflects four percent
    assert_eq!(Dielectric::reflectance(ONE, fx(1.5)), 40_000_000);
    // at grazing incidence everything is reflected
    assert_eq!(Dielectric::reflectance(0, fx(1.5)), ONE);
    // r0 + (1 - r0) / 32 at sixty degrees
    assert_eq!(Dielectric::reflectance(ONE / 2, fx(1.5)), 70_000_000);
    // equal indices reflect nothing head on
    assert_eq!(Dielectric::reflectance(ONE, ONE), 0);
}

#[test]
fn dielectric_refracts_when_the_draw_exceeds_the_reflectance() {
    let m = Dielectric::new(fx(1.5));
    assert_eq!(m.refraction_index, fx(1.5));
    let r = Ray::new(v(0.0, 1.0, 0.0), v(0.0, -1.0, 0.0));
    let hr = hit_at(v(0.0, 0.0, 0.0), v(0.0, 1.0, 0.0), true, Material::Void);
    let (ray, attenuation) = m.scatter_with(&r, &hr, fx(0.5));
    assert_eq!(ray.origin(), v(0.0, 0.0, 0.0));
    assert_eq!(ray.dir(), v(0.0, -1.0, 0.0));
    assert_eq!(attenuation, white());
    // the reflectance is 0.04: a draw of exactly that still refracts
    assert_eq!(m.scatter_with(&r, &hr, 40_000_000).0.dir(), v(0.0, -1.0, 0.0));
    let slanted = Ray::new(v(0.0, 1.0, 0.0), Vec3::new(995_037_190, -99_503_719, 0));
    let (bent, _) = m.scatter_with(&slanted, &hr, fx(0.9));
    assert_eq!(bent.dir(), Vec3::new(663_358_126, -748_302_076, 0));
}

#[test]
fn dielectric_reflects_when_the_reflectance_exceeds_the_draw() {
    let m = Dielectric::new(fx(1.5));
    let r = Ray::new(v(0.0, 1.0, 0.0), v(0.0, -1.0, 0.0));
    let hr = hit_at(v(0.0, 0.0, 0.0), v(0.0, 1.0, 0.0), true, Material::Void);
    let (ray, attenuation) = m.scatter_with(&r, &hr, 39_999_999);
    assert_eq!(ray.dir(), v(0.0, 1.0, 0.0));
    assert_eq!(attenuation, white());
    let slanted = Ray::new(v(0.0, 1.0, 0.0), Vec3::new(995_037_190, -99_503_719, 0));
    let (mirrored, _) = m.scatter_with(&slanted, &hr, fx(0.5));
    assert_eq!(mirrored.dir(), Vec3::new(995_037_190, 99_503_719, 0));
}

#[test]
fn dielectric_reflects_totally_on_the_way_out() {
    let m = Dielectric::new(fx(1.5));
    let slanted = Ray::new(v(0.0, 1.0, 0.0), Vec3::new(995_037_190, -99_503_719, 0));
    // the back face: the ray leaves the glass at a flat angle
    let hr = hit_at(v(0.0, 0.0, 0.0), v(0.0, 1.0, 0.0), false, Material::Void);
    let (ray, attenuation) = m.scatter_with(&slanted, &hr, ONE - 1);
    assert_eq!(ray.dir(), Vec3::new(995_037_190, 99_503_719, 0));
    assert_eq!(attenuation, white());
}

#[test]
fn dielectric_scatter_reflects_or_refracts() {
    let m = Dielectric::new(fx(1.5));
    let r = Ray::new(v(0.0, 1.0, 0.0), v(0.0, -1.0, 0.0));
    let hr = hit_at(v(0.0, 0.0, 0.0), v(0.0, 1.0, 0.0), true, Material::Void);
    for _ in 0..200 {
        let (ray, attenuation) = m.scatter(&r, &hr);
        assert_eq!(attenuation, white());
        assert_eq!(ray.origin(), v(0.0, 0.0, 0.0));
        assert!(ray.dir() == v(0.0, -1.0, 0.0) || ray.dir() == v(0.0, 1.0, 0.0));
    }
}

#[test]
fn a_material_scatters_as_its_kind_does() {
    let r = Ray::new(v(-1.0, 1.0, 0.0), v(1.0, -1.0, 0.0));
    let hr = hit_at(v(0.0, 0.0, 0.0), v(0.0, 1.0, 0.0), true, Material::Void);
    let s = sample(v(0.3, 0.4, 0.0), fx(0.5));
    let albedo: Color = v(0.7, 0.6, 0.5);

    let (ray, attenuation) = VoidMaterial::new().scatter(&r, &hr);
    assert_eq!(Material::Void.scatter_with(&r, &hr, s), Scatter::Bounce { ray, attenuation });

    let (ray, attenuation) = Lambertian::new(albedo).scatter_with(&hr, s.dir);
    assert_eq!(
        Material::Lambertian { albedo }.scatter_with(&r, &hr, s),
        Scatter::Bounce { ray, attenuation }
    );

    let (ray, attenuation) = Metal::new(albedo, fx(0.5)).scatter_with(&r, &hr, s.dir);
    assert_eq!(
        Material::Metal { albedo, fuzz: fx(0.5) }.scatter_with(&r, &hr, s),
        Scatter::Bounce { ray, attenuation }
    );

    let (ray, attenuation) = Dielectric::new(fx(1.5)).scatter_with(&r, &hr, s.pick);
    assert_eq!(
        Material::Dielectric { refraction_index: fx(1.5) }.scatter_with(&r, &hr, s),
        Scatter::Bounce { ray, attenuation }
    );
}

#[test]
fn a_light_emits_and_ends_the_path() {
    let r = Ray::new(v(-1.0, 1.0, 0.0), v(1.0, -1.0, 0.0));
    let hr = hit_at(v(0.0, 0.0, 0.0), v(0.0, 1.0, 0.0), true, Material::Void);
    let light = Material::LightSource { intensity: v(5.0, 5.0, 5.0) };
    let s = sample(v(0.3, 0.4, 0.0), fx(0.5));
    assert_eq!(light.scatter_with(&r, &hr, s), Scatter::Emit { radiance: v(5.0, 5.0, 5.0) });
    assert_eq!(light.scatter(&r, &hr), Scatter::Emit { radiance: v(5.0, 5.0, 5.0) });
}

#[test]
fn scatter_draws_what_the_material_needs() {
    let r = Ray::new(v(-1.0, 1.0, 0.0), v(1.0, -1.0, 0.0));
    let hr = hit_at(v(0.0, 0.0, 0.0), v(0.0, 1.0, 0.0), true, Material::Void);
    let mirror = Material::Metal { albedo: gray(), fuzz: 0 };
    assert_eq!(
        mirror.scatter(&r, &hr),
        Scatter::Bounce {
            ray: Ray::new(v(0.0, 0.0, 0.0), Vec3::new(707_106_781, 707_106_781, 0)),
            attenuation: gray()
        }
    );
    assert_eq!(
        Material::Void.scatter(&r, &hr),
        Scatter::Bounce { ray: r, attenuation: white() }
    );
    let matte = Material::Lambertian { albedo: gray() };
    let mut directions = Vec::new();
    for _ in 0..50 {
        match matte.scatter(&r, &hr) {
            Scatter::Bounce { ray, attenuation } => {
                assert_eq!(attenuation, gray());
                assert!(Vec3::dot(&ray.dir(), &hr.normal()) > 0);
                directions.push(ray.dir());
            }
            Scatter::Emit { .. } => panic!("a diffuse surface emits nothing"),
        }
    }
    assert!(directions.iter().any(|d| *d != directions[0]));
}

#[test]
fn samples_are_drawn_in_range() {
    for _ in 0..200 {
        let s = Sample::random();
        for c in [s.dir.x, s.dir.y, s.dir.z, s.pick] {
            assert!(0 <= c && c < ONE);
        }
    }
}
