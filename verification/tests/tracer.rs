use rayt::fx::SCALE;
use rayt::vec3::Float3;
use rayt::ray::Ray;
use rayt::onb::Onb;
use rayt::texture::Texture;
use rayt::material::Material;
use rayt::shape::{HitInfo, ShapeList};
use rayt::builder::ShapeBuilder;
use rayt::pdf::CosinePdf;
use rayt::scene::{CornelBoxScene, T_MAX, T_MIN};
use rayt::render::render_aa_with_depth;

fn white() -> Material {
    Material::Lambertian { albedo: Texture::Constant { color: Float3::full(SCALE / 2) } }
}

#[test]
fn onb_maps_z_to_normal() {
    // The local frame carries the local z-axis exactly onto the normal.
    let n = Float3::new(SCALE / 3, -SCALE / 2, 4 * SCALE / 5);
    let basis = Onb::new(n);
    assert_eq!(basis.local(Float3::zaxis()), n);
    let basis_y = Onb::new(Float3::yaxis());
    assert_eq!(basis_y.local(Float3::zaxis()), Float3::yaxis());
}

#[test]
fn sphere_axial_hit_distance() {
    // From distance 10 at a radius-2 sphere: the hit is at t = 8 exactly.
    let shape = ShapeBuilder::new()
        .color_texture(Float3::full(SCALE / 2))
        .lambertian()
        .sphere(Float3::zero(), 2 * SCALE)
        .build();
    let ray = Ray::new(Float3::new(0, 0, -10 * SCALE), Float3::zaxis());
    let hit = shape.hit(&ray, 0, T_MAX).expect("axial ray must hit");
    assert_eq!(hit.t, 8 * SCALE);
    assert_eq!(hit.p, Float3::new(0, 0, -2 * SCALE));
    assert_eq!(hit.n, Float3::new(0, 0, -SCALE));
    assert_eq!(hit.u, 0);
    assert_eq!(hit.v, 0);
}

#[test]
fn sphere_offset_miss() {
    // A perpendicular offset beyond the radius misses.
    let shape = ShapeBuilder::new()
        .color_texture(Float3::full(SCALE / 2))
        .lambertian()
        .sphere(Float3::zero(), 2 * SCALE)
        .build();
    let ray = Ray::new(Float3::new(0, 3 * SCALE, -10 * SCALE), Float3::zaxis());
    assert!(shape.hit(&ray, 0, T_MAX).is_none());
}

#[test]
fn rect_center_uv_is_half() {
    // A ray through the exact center of an XY rectangle: u = v = 0.5.
    let shape = ShapeBuilder::new()
        .material(white())
        .rect_xy(0, 4 * SCALE, 0, 4 * SCALE, 5 * SCALE)
        .build();
    let ray = Ray::new(Float3::new(2 * SCALE, 2 * SCALE, 0), Float3::zaxis());
    let hit = shape.hit(&ray, 0, T_MAX).expect("center ray must hit");
    assert_eq!(hit.t, 5 * SCALE);
    assert_eq!(hit.u, SCALE / 2);
    assert_eq!(hit.v, SCALE / 2);
    assert_eq!(hit.n, Float3::zaxis());
}

#[test]
fn flip_face_negates_normal() {
    let shape = ShapeBuilder::new()
        .material(white())
        .rect_xy(0, 4 * SCALE, 0, 4 * SCALE, 5 * SCALE)
        .flip_face()
        .build();
    let ray = Ray::new(Float3::new(2 * SCALE, 2 * SCALE, 0), Float3::zaxis());
    let hit = shape.hit(&ray, 0, T_MAX).expect("center ray must hit");
    assert_eq!(hit.n, Float3::new(0, 0, -SCALE));
}

#[test]
fn shape_list_returns_nearest() {
    // Two spheres on the axis: the nearer one wins, whatever the order.
    let near = ShapeBuilder::new()
        .material(white())
        .sphere(Float3::new(0, 0, 5 * SCALE), SCALE)
        .build();
    let far = ShapeBuilder::new()
        .material(white())
        .sphere(Float3::new(0, 0, 20 * SCALE), SCALE)
        .build();
    let ray = Ray::new(Float3::zero(), Float3::zaxis());

    let mut list_a = ShapeList::new();
    list_a.push(near.clone());
    list_a.push(far.clone());
    let hit_a = list_a.hit(&ray, 0, T_MAX).expect("must hit");

    let mut list_b = ShapeList::new();
    list_b.push(far);
    list_b.push(near);
    let hit_b = list_b.hit(&ray, 0, T_MAX).expect("must hit");

    assert_eq!(hit_a.t, 4 * SCALE);
    assert_eq!(hit_a.t, hit_b.t);
    assert_eq!(hit_a.p, hit_b.p);
}

#[test]
fn shape_list_shrinks_interval() {
    // With the far end below the only hit, nothing is returned.
    let near = ShapeBuilder::new()
        .material(white())
        .sphere(Float3::new(0, 0, 5 * SCALE), SCALE)
        .build();
    let mut list = ShapeList::new();
    list.push(near);
    let ray = Ray::new(Float3::zero(), Float3::zaxis());
    assert!(list.hit(&ray, 0, 3 * SCALE).is_none());
}

#[test]
fn schlick_normal_incidence_matched_index() {
    // At cosine one with a matched index there is no reflectance.
    assert_eq!(Material::schlick(SCALE, SCALE), 0);
}

#[test]
fn schlick_monotone_in_cosine() {
    // For an index above one, reflectance grows as the cosine falls.
    let ri = 3 * SCALE / 2;
    let grazing = Material::schlick(0, ri);
    let mid = Material::schlick(SCALE / 2, ri);
    let head_on = Material::schlick(SCALE, ri);
    assert!(head_on <= mid);
    assert!(mid <= grazing);
}

#[test]
fn diffuse_light_is_one_sided() {
    let emit_color = Float3::full(15 * SCALE);
    let light = Material::DiffuseLight { emit: Texture::Constant { color: emit_color } };
    let hit = HitInfo::new(
        SCALE,
        Float3::new(0, 0, SCALE),
        Float3::zaxis(),
        light,
        0,
        0,
    );
    let from_front = Ray::new(Float3::new(0, 0, 2 * SCALE), Float3::new(0, 0, -SCALE));
    let from_back = Ray::new(Float3::new(0, 0, -SCALE), Float3::new(0, 0, SCALE));
    assert_eq!(light.emitted(&from_front, &hit), emit_color);
    assert_eq!(light.emitted(&from_back, &hit), Float3::zero());
}

#[test]
fn light_never_scatters() {
    let light = Material::DiffuseLight { emit: Texture::Constant { color: Float3::one() } };
    let hit = HitInfo::new(SCALE, Float3::zero(), Float3::zaxis(), light, 0, 0);
    let ray = Ray::new(Float3::new(0, 0, SCALE), Float3::new(0, 0, -SCALE));
    assert!(light.scatter(&ray, &hit).is_none());
}

#[test]
fn dielectric_always_scatters_untinted() {
    let glass = Material::Dielectric { ri: 3 * SCALE / 2 };
    let hit = HitInfo::new(SCALE, Float3::zero(), Float3::zaxis(), glass, 0, 0);
    let ray = Ray::new(Float3::new(0, 0, SCALE), Float3::new(0, 0, -SCALE));
    let s = glass.scatter(&ray, &hit).expect("dielectric always scatters");
    assert_eq!(s.albedo, Float3::one());
    assert_eq!(s.pdf_value, 0);
}

#[test]
fn cosine_pdf_value_on_axis() {
    // Density straight along the normal is 1/pi; behind it, zero.
    let hit = HitInfo::new(SCALE, Float3::zero(), Float3::zaxis(), white(), 0, 0);
    let pdf = CosinePdf::new();
    assert_eq!(pdf.value(&hit, Float3::zaxis()), 20861);
    assert_eq!(pdf.value(&hit, Float3::new(0, 0, -SCALE)), 0);
}

#[test]
fn checker_alternates_with_sign() {
    let odd = Float3::new(SCALE, 0, 0);
    let even = Float3::new(0, SCALE, 0);
    let tex = Texture::Checker { odd, even, freq: SCALE };
    // At the origin every sine is in its first (even) band.
    let near_origin = Float3::new(SCALE, SCALE, SCALE);
    assert_eq!(tex.value(0, 0, near_origin), even);
    // Push one coordinate past pi: one factor flips sign.
    let past_pi = Float3::new(4 * SCALE, SCALE, SCALE);
    assert_eq!(tex.value(0, 0, past_pi), odd);
}

#[test]
fn trace_depth_zero_returns_emission() {
    // Straight up at the ceiling light: depth zero gives the raw
    // emission, exactly.
    let scene = CornelBoxScene::new();
    let ray = Ray::new(Float3::new(278 * SCALE, 0, 278 * SCALE), Float3::yaxis());
    let radiance = scene.trace(ray, 0);
    assert_eq!(radiance, Float3::full(15 * SCALE));
}

#[test]
fn trace_miss_returns_background() {
    // Aimed away from the whole box: the black background comes back.
    let scene = CornelBoxScene::new();
    let ray = Ray::new(Float3::new(278 * SCALE, 278 * SCALE, -800 * SCALE),
        Float3::new(0, 0, -SCALE));
    assert_eq!(scene.trace(ray, 5), Float3::zero());
}

#[test]
fn trace_interval_respects_t_min() {
    assert!(T_MIN > 0);
    assert!(T_MIN < SCALE / 100);
}

#[test]
fn from_hex_decodes_channels() {
    let c = Float3::from_hex(b"ff0033");
    assert_eq!(c.x, SCALE);
    assert_eq!(c.y, 0);
    assert_eq!(c.z, 51 * SCALE / 255);
}

#[test]
fn box_axial_hit_front_face() {
    // Straight at a unit box: the nearest (front) face answers, with
    // its normal flipped toward the ray.
    let shape = ShapeBuilder::new()
        .material(white())
        .box3d(
            Float3::new(-SCALE, -SCALE, 2 * SCALE),
            Float3::new(SCALE, SCALE, 4 * SCALE),
        )
        .build();
    let ray = Ray::new(Float3::zero(), Float3::zaxis());
    let hit = shape.hit(&ray, 0, T_MAX).expect("axial ray must hit the box");
    assert_eq!(hit.t, 2 * SCALE);
    assert_eq!(hit.n, Float3::new(0, 0, -SCALE));
}

#[test]
fn metal_scatter_leaves_surface() {
    let metal = Material::Metal {
        albedo: Texture::Constant { color: Float3::full(SCALE / 2) },
        fuzz: SCALE / 4,
    };
    let hit = HitInfo::new(SCALE, Float3::zero(), Float3::zaxis(), metal, 0, 0);
    let ray = Ray::new(Float3::new(0, 0, SCALE), Float3::new(SCALE / 2, 0, -SCALE));
    for _ in 0..32 {
        if let Some(s) = metal.scatter(&ray, &hit) {
            assert!(s.ray.direction.dot(hit.n) > 0);
            assert_eq!(s.pdf_value, 0);
        }
    }
}

#[test]
fn cornell_scene_has_eight_shapes() {
    let scene = CornelBoxScene::new();
    assert_eq!(scene.world.objects.len(), 8);
}

#[test]
fn render_cornell_box_small() {
    // A small end-to-end render: the ceiling-light region outshines the
    // side walls, and the buffer has one RGB triple per pixel.
    let scene = CornelBoxScene::new();
    let width: u32 = 16;
    let height: u32 = 16;
    let img = render_aa_with_depth(&scene, width, height, 8, 5);
    assert_eq!(img.len(), 3 * 16 * 16);

    let lum = |x: u32, y: u32| -> u64 {
        let i = 3 * (y * width + x) as usize;
        img[i] as u64 + img[i + 1] as u64 + img[i + 2] as u64
    };
    let mut light_sum: u64 = 0;
    let mut light_n: u64 = 0;
    for y in 2..5u32 {
        for x in 7..10u32 {
            light_sum += lum(x, y);
            light_n += 1;
        }
    }
    let mut wall_sum: u64 = 0;
    let mut wall_n: u64 = 0;
    for y in 6..10u32 {
        wall_sum += lum(1, y);
        wall_sum += lum(14, y);
        wall_n += 2;
    }
    assert!(light_sum * wall_n > wall_sum * light_n);
}
