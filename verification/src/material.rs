use vstd::prelude::*;
use crate::fx::{SCALE, FRAC_1_PI_FX, fxmul, fxdiv, mul_fx, div_fx, clamp_fx, clamp_s,
    lemma_abs_mul,
    lemma_tdiv_bound, lemma_tdiv_shrink};
use crate::vec3::{Float3, Color, bounded, dot_s, dot_raw, unit_s, len_s, zero_s, zaxis_s,
    one_s, unit_or_s, reflect_s, refract_s, lemma_dot_raw_bound};
use crate::onb::{onb_s, local_s};
use crate::ray::Ray;
use crate::texture::{Texture, texture_wf, texture_value_s};
use crate::shape::{HitInfo, neg_s};

verus! {

/// The result of a material scattering an incoming ray: the outgoing
/// ray, the attenuation color, and the density under which the material
/// itself would have sampled the outgoing direction (`0` marks a
/// specular interaction with no meaningful density).
#[derive(Clone, Copy, PartialEq, Eq, Structural, Debug)]
pub struct ScatterInfo {
    pub ray: Ray,
    pub albedo: Color,
    pub pdf_value: i64,
}

impl ScatterInfo {
    pub fn new(ray: Ray, albedo: Color, pdf_value: i64) -> (r: Self)
        ensures
            r == (ScatterInfo { ray, albedo, pdf_value }),
    {
        ScatterInfo { ray, albedo, pdf_value }
    }
}

/// A surface interaction model: diffuse, fuzzy-reflective, refractive,
/// or purely emissive.
#[derive(Clone, Copy, PartialEq, Eq, Structural, Debug)]
pub enum Material {
    Lambertian { albedo: Texture },
    Metal { albedo: Texture, fuzz: i64 },
    Dielectric { ri: i64 },
    DiffuseLight { emit: Texture },
}

/// Materials the renderer accepts: well-formed textures, fuzz within
/// one unit, and a refractive index within `[1/16, 16]`.
pub open spec fn material_wf(m: Material) -> bool {
    match m {
        Material::Lambertian { albedo } => texture_wf(albedo),
        Material::Metal { albedo, fuzz } => texture_wf(albedo) && 0 <= fuzz <= SCALE,
        Material::Dielectric { ri } => 0x1000 <= ri <= 0x10_0000,
        Material::DiffuseLight { emit } => texture_wf(emit),
    }
}

/// What a material emits toward a viewing ray: the emission texture when
/// the ray strikes the front face (its direction runs against the
/// normal), zero otherwise, and zero for every non-emissive material.
pub open spec fn emitted_s(m: Material, ray: Ray, hit: HitInfo) -> Color {
    match m {
        Material::DiffuseLight { emit } => if dot_s(ray.direction, hit.n) < 0 {
            texture_value_s(emit, hit.u as int, hit.v as int, hit.p)
        } else {
            zero_s()
        },
        _ => zero_s(),
    }
}

/// The density with which a material redistributes light along an
/// outgoing ray: `max(cos, 0) / pi` against the surface normal for the
/// diffuse material, zero for every other.
pub open spec fn scattering_pdf_s(m: Material, ray: Ray, hit: HitInfo) -> int {
    match m {
        Material::Lambertian { albedo } => {
            let u = if dot_s(ray.direction, ray.direction) >= 1 {
                unit_s(ray.direction)
            } else {
                zaxis_s()
            };
            let c = dot_s(u, hit.n);
            if c > 0 {
                fxmul(c, FRAC_1_PI_FX as int)
            } else {
                0
            }
        },
        _ => 0,
    }
}

/// The Schlick approximation of the Fresnel reflectance, written with
/// the exact fixed-point operations the executable code performs.
pub open spec fn schlick_s(cosine: int, ri: int) -> int {
    let q = fxdiv(SCALE as int - ri, SCALE as int + ri);
    let r0 = fxmul(q, q);
    let c1 = SCALE as int - cosine;
    let c2 = fxmul(c1, c1);
    let c4 = fxmul(c2, c2);
    let p5 = fxmul(c4, c1);
    r0 + fxmul(SCALE as int - r0, p5)
}

/// The outward-oriented surface normal a dielectric refracts about:
/// against the ray when it arrives from inside, the surface normal
/// itself when it arrives from outside.
pub open spec fn dielectric_outward_s(ray: Ray, hit: HitInfo) -> Float3 {
    if dot_s(ray.direction, hit.n) > 0 {
        neg_s(hit.n)
    } else {
        hit.n
    }
}

/// The index ratio a dielectric refracts with: the index itself leaving
/// the medium, its reciprocal entering it.
pub open spec fn dielectric_eta_s(ri: int, ray: Ray, hit: HitInfo) -> int {
    if dot_s(ray.direction, hit.n) > 0 {
        ri
    } else {
        fxdiv(SCALE as int, ri)
    }
}

/// The view cosine a dielectric feeds to the Fresnel term, mirroring
/// the executable computation: the oriented cosine against the ray,
/// divided by the ray length, with the degeneracy clamps applied.
pub open spec fn dielectric_cosine_s(ri: int, ray: Ray, hit: HitInfo) -> int {
    let dn = dot_s(ray.direction, hit.n);
    let len = len_s(ray.direction);
    let len1 = if len < 1 {
        1
    } else {
        len
    };
    if dn > 0 {
        clamp_s(
            fxdiv(clamp_s(fxmul(ri, dn), -0x4000_0000_0000, 0x4000_0000_0000), len1),
            -4 * (SCALE as int),
            4 * (SCALE as int),
        )
    } else {
        clamp_s(fxdiv(-dn, len1), -4 * (SCALE as int), 4 * (SCALE as int))
    }
}

/// The direction a dielectric chooses for a given uniform draw: the
/// Snell refraction when one exists and the draw exceeds the Schlick
/// reflectance, the mirror reflection otherwise.
pub open spec fn dielectric_pick_s(ri: int, ray: Ray, hit: HitInfo, draw: int) -> Float3 {
    let refr = refract_s(
        neg_s(ray.direction),
        dielectric_outward_s(ray, hit),
        dielectric_eta_s(ri, ray, hit),
    );
    match refr {
        Some(v) => if draw > schlick_s(dielectric_cosine_s(ri, ray, hit), ri) {
            v
        } else {
            reflect_s(ray.direction, hit.n)
        },
        None => reflect_s(ray.direction, hit.n),
    }
}

/// The fuzzed mirror direction of the metal: the reflection of the
/// normalized incoming ray about the normal, offset by a unit-ball
/// sample `w` scaled by the fuzz.
pub open spec fn metal_dir_s(fuzz: int, ray: Ray, hit: HitInfo, w: Float3) -> Float3 {
    let refl = reflect_s(unit_or_s(ray.direction, zaxis_s()), hit.n);
    Float3 {
        x: (refl.x + fxmul(w.x as int, fuzz)) as i64,
        y: (refl.y + fxmul(w.y as int, fuzz)) as i64,
        z: (refl.z + fxmul(w.z as int, fuzz)) as i64,
    }
}

/// The hit records materials accept: a direction-sized normal and a
/// world point within the renderer's coordinate range.
pub open spec fn hit_wf(hit: HitInfo) -> bool {
    bounded(hit.n, 2 * SCALE as int) && bounded(hit.p, 0x8_0000_0000)
}

impl Material {
    /// What this material emits toward `ray` at `hit`: only the
    /// diffuse light emits, and only on its front side.
    pub fn emitted(&self, ray: &Ray, hit: &HitInfo) -> (r: Color)
        requires
            material_wf(*self),
            hit_wf(*hit),
            bounded(ray.direction, 0x40_0000_0000),
        ensures
            r == emitted_s(*self, *ray, *hit),
    {
        match self {
            Material::DiffuseLight { emit } => {
                let c: i64 = ray.direction.dot(hit.n);
                if c < 0 {
                    emit.value(hit.u, hit.v, hit.p)
                } else {
                    Float3::zero()
                }
            },
            _ => Float3::zero(),
        }
    }

    /// The density with which this material would redistribute light
    /// along `ray` at `hit`.
    pub fn scattering_pdf(&self, ray: &Ray, hit: &HitInfo) -> (r: i64)
        requires
            material_wf(*self),
            hit_wf(*hit),
            bounded(ray.direction, 0x40_0000_0000),
        ensures
            r == scattering_pdf_s(*self, *ray, *hit),
    {
        match self {
            Material::Lambertian { albedo } => {
                let u: Float3 = ray.direction.normalize_or(Float3::zaxis());
                proof {
                    lemma_dot_raw_bound(u, hit.n, 2 * SCALE as int, 2 * SCALE as int);
                    lemma_tdiv_shrink(dot_raw(u, hit.n), SCALE as int, 12 * SCALE as int);
                }
                let c: i64 = u.dot(hit.n);
                if c > 0 {
                    proof {
                        lemma_abs_mul(c as int, FRAC_1_PI_FX as int, 12 * SCALE as int, 20861);
                    }
                    mul_fx(c, FRAC_1_PI_FX)
                } else {
                    0
                }
            },
            _ => 0,
        }
    }

    /// Simulate one scattering interaction. The diffuse material always
    /// scatters a cosine-weighted ray from the hit point carrying its
    /// texture color and its own density for that ray; the metal
    /// scatters only when the fuzzed mirror direction leaves the
    /// surface, with the specular density marker; the dielectric always
    /// scatters (splitting between reflection and refraction at random)
    /// with unit attenuation; the light never scatters.
    pub fn scatter(&self, ray: &Ray, hit: &HitInfo) -> (r: Option<ScatterInfo>)
        requires
            material_wf(*self),
            hit_wf(*hit),
            bounded(ray.direction, 0x400_0000),
        ensures
            (*self is DiffuseLight) ==> r is None,
            (*self is Lambertian) ==> (match r {
                Some(s) => s.ray.origin == hit.p && bounded(s.ray.direction, 2 * SCALE as int)
                    && (match *self {
                    Material::Lambertian { albedo } => s.albedo == texture_value_s(
                        albedo,
                        hit.u as int,
                        hit.v as int,
                        hit.p,
                    ),
                    _ => false,
                }) && s.pdf_value == scattering_pdf_s(*self, s.ray, *hit) && (exists|w: Float3|
                    bounded(w, 2 * SCALE as int) && !(w == zero_s()) && s.ray.direction
                        == #[trigger] unit_or_s(local_s(onb_s(hit.n), w), zaxis_s())),
                None => false,
            }),
            (*self is Metal) ==> (match r {
                Some(s) => s.ray.origin == hit.p && s.pdf_value == 0 && dot_s(
                    s.ray.direction,
                    hit.n,
                ) > 0 && (match *self {
                    Material::Metal { albedo, fuzz } => s.albedo == texture_value_s(
                        albedo,
                        hit.u as int,
                        hit.v as int,
                        hit.p,
                    ) && (exists|w: Float3|
                        bounded(w, SCALE as int) && 0 <= dot_s(w, w) < SCALE as int
                            && s.ray.direction == #[trigger] metal_dir_s(fuzz as int, *ray, *hit,
                            w,
                        )),
                    _ => false,
                }),
                None => (match *self {
                    Material::Metal { albedo, fuzz } => exists|w: Float3|
                        bounded(w, SCALE as int) && 0 <= dot_s(w, w) < SCALE as int && dot_s(
                            #[trigger] metal_dir_s(fuzz as int, *ray, *hit, w),
                            hit.n,
                        ) <= 0,
                    _ => false,
                }),
            }),
            (match *self {
                Material::Metal { albedo, fuzz } => fuzz == 0 ==> {
                    let refl = reflect_s(unit_or_s(ray.direction, zaxis_s()), hit.n);
                    &&& ((r is Some) <==> dot_s(refl, hit.n) > 0)
                    &&& (match r {
                        Some(s) => s.ray.direction == refl,
                        None => true,
                    })
                },
                _ => true,
            }),
            (*self is Dielectric) ==> (match r {
                Some(s) => s.ray.origin == hit.p && s.albedo == one_s() && s.pdf_value == 0 && (
                match *self {
                    Material::Dielectric { ri } => {
                        let refr = refract_s(
                            neg_s(ray.direction),
                            dielectric_outward_s(*ray, *hit),
                            dielectric_eta_s(ri as int, *ray, *hit),
                        );
                        &&& (s.ray.direction == reflect_s(ray.direction, hit.n) || Some(
                            s.ray.direction,
                        ) == refr)
                        &&& (refr is None ==> s.ray.direction == reflect_s(
                            ray.direction,
                            hit.n,
                        ))
                        &&& (exists|draw: int|
                            0 <= draw < SCALE as int && s.ray.direction
                                == #[trigger] dielectric_pick_s(ri as int, *ray, *hit, draw))
                    },
                    _ => false,
                }),
                None => false,
            }),
    {
        match self {
            Material::Lambertian { albedo } => {
                let basis = crate::onb::Onb::new(hit.n);
                let sampled: Float3 = Float3::random_cosine_direction();
                let d0: Float3 = basis.local(sampled);
                proof {
                    crate::onb::lemma_local_bound(basis, sampled);
                }
                let direction: Float3 = d0.normalize_or(Float3::zaxis());
                let new_ray: Ray = Ray::new(hit.p, direction);
                let albedo_c: Color = albedo.value(hit.u, hit.v, hit.p);
                let pdf_value: i64 = self.scattering_pdf(&new_ray, hit);
                Some(ScatterInfo::new(new_ray, albedo_c, pdf_value))
            },
            Material::Metal { albedo, fuzz } => {
                let u: Float3 = ray.direction.normalize_or(Float3::zaxis());
                let mirrored: Float3 = u.reflect(hit.n);
                let rsph: Float3 = Float3::random_in_unit_sphere();
                proof {
                    lemma_abs_mul(rsph.x as int, *fuzz as int, SCALE as int, SCALE as int);
                    lemma_abs_mul(rsph.y as int, *fuzz as int, SCALE as int, SCALE as int);
                    lemma_abs_mul(rsph.z as int, *fuzz as int, SCALE as int, SCALE as int);
                    lemma_tdiv_bound(rsph.x * (*fuzz as int), SCALE as int);
                    lemma_tdiv_bound(rsph.y * (*fuzz as int), SCALE as int);
                    lemma_tdiv_bound(rsph.z * (*fuzz as int), SCALE as int);
                }
                let fuzzed: Float3 = rsph.scale(*fuzz);
                let reflected: Float3 = mirrored.add(fuzzed);
                proof {
                    assert(reflected == metal_dir_s(*fuzz as int, *ray, *hit, rsph));
                    if *fuzz == 0 {
                        crate::fx::lemma_tdiv_exact(0, SCALE as int);
                        assert(rsph.x * 0 == 0 && rsph.y * 0 == 0 && rsph.z * 0 == 0)
                            by (nonlinear_arith);
                    }
                }
                let c: i64 = reflected.dot(hit.n);
                if c > 0 {
                    let albedo_c: Color = albedo.value(hit.u, hit.v, hit.p);
                    Some(ScatterInfo::new(Ray::new(hit.p, reflected), albedo_c, 0))
                } else {
                    None
                }
            },
            Material::Dielectric { ri } => {
                let reflected: Float3 = ray.direction.reflect(hit.n);
                let dn: i64 = ray.direction.dot(hit.n);
                let len: i64 = ray.direction.length();
                let len1: i64 = if len < 1 {
                    1
                } else {
                    len
                };
                proof {
                    lemma_dot_raw_bound(ray.direction, hit.n, 0x400_0000, 2 * SCALE as int);
                    lemma_tdiv_shrink(dot_raw(ray.direction, hit.n), SCALE as int,
                        0x6_0000_0000);
                }
                let outward: Float3;
                let eta: i64;
                let cosine_raw: i64;
                if dn > 0 {
                    outward = hit.n.neg();
                    eta = *ri;
                    proof {
                        lemma_abs_mul(*ri as int, dn as int, 0x10_0000, 0x6_0000_0000);
                        lemma_tdiv_bound((*ri as int) * dn, SCALE as int);
                    }
                    let rd: i64 = mul_fx(*ri, dn);
                    let rdc: i64 = clamp_fx(rd, -0x4000_0000_0000, 0x4000_0000_0000);
                    cosine_raw = div_fx(rdc, len1);
                } else {
                    outward = hit.n;
                    proof {
                        assert((SCALE as int) * (SCALE as int) <= 0x10_0000 * (*ri as int))
                            by (nonlinear_arith)
                            requires
                                *ri >= 0x1000,
                                SCALE == 65536,
                        ;
                        lemma_tdiv_shrink((SCALE as int) * (SCALE as int), *ri as int, 0x10_0000);
                        lemma_tdiv_bound((SCALE as int) * (SCALE as int), *ri as int);
                    }
                    eta = div_fx(SCALE, *ri);
                    cosine_raw = div_fx(-dn, len1);
                }
                let cosine: i64 = clamp_fx(cosine_raw, -4 * SCALE, 4 * SCALE);
                proof {
                    assert(cosine == dielectric_cosine_s(*ri as int, *ray, *hit));
                    assert(outward == dielectric_outward_s(*ray, *hit));
                    assert(eta == dielectric_eta_s(*ri as int, *ray, *hit));
                }
                let flipped: Float3 = ray.direction.neg();
                let refracted: Option<Float3> = flipped.refract(outward, eta);
                match refracted {
                    Some(refr) => {
                        let draw: Float3 = Float3::random_full();
                        if draw.x() > Self::schlick(cosine, *ri) {
                            proof {
                                assert(refr == dielectric_pick_s(*ri as int, *ray, *hit,
                                    draw.x as int));
                            }
                            Some(ScatterInfo::new(Ray::new(hit.p, refr), Float3::one(), 0))
                        } else {
                            proof {
                                assert(reflected == dielectric_pick_s(*ri as int, *ray, *hit,
                                    draw.x as int));
                            }
                            Some(ScatterInfo::new(Ray::new(hit.p, reflected), Float3::one(), 0))
                        }
                    },
                    None => {
                        proof {
                            assert(reflected == dielectric_pick_s(*ri as int, *ray, *hit, 0));
                        }
                        Some(ScatterInfo::new(Ray::new(hit.p, reflected), Float3::one(), 0))
                    },
                }
            },
            Material::DiffuseLight { emit } => None,
        }
    }

    /// The Schlick reflectance approximation for a view cosine and a
    /// refractive index.
    pub fn schlick(cosine: i64, ri: i64) -> (r: i64)
        requires
            -4 * SCALE <= cosine <= 4 * SCALE,
            0x1000 <= ri <= 0x10_0000,
        ensures
            r == schlick_s(cosine as int, ri as int),
    {
        proof {
            lemma_schlick_bounds(cosine as int, ri as int);
        }
        let q: i64 = div_fx(SCALE - ri, SCALE + ri);
        let r0: i64 = mul_fx(q, q);
        let c1: i64 = SCALE - cosine;
        let c2: i64 = mul_fx(c1, c1);
        let c4: i64 = mul_fx(c2, c2);
        let p5: i64 = mul_fx(c4, c1);
        r0 + mul_fx(SCALE - r0, p5)
    }
}

/// The Fresnel law of the Schlick term: for an index above one, the
/// reflectance never decreases as the view cosine falls from one toward
/// zero.
pub proof fn lemma_schlick_monotone(c_low: int, c_high: int, ri: int)
    requires
        0 <= c_low <= c_high <= SCALE as int,
        (SCALE as int) < ri <= 0x10_0000,
    ensures
        schlick_s(c_high, ri) <= schlick_s(c_low, ri),
{
    lemma_schlick_bounds(c_low, ri);
    lemma_schlick_bounds(c_high, ri);
    let s = SCALE as int;
    let q = fxdiv(s - ri, s + ri);
    let r0 = fxmul(q, q);
    let x_lo = s - c_high;
    let x_hi = s - c_low;
    crate::fx::lemma_fxmul_mono_nonneg(x_lo, x_hi, x_lo, x_hi);
    let sq_lo = fxmul(x_lo, x_lo);
    let sq_hi = fxmul(x_hi, x_hi);
    crate::fx::lemma_fxmul_mono_nonneg(sq_lo, sq_hi, sq_lo, sq_hi);
    let q4_lo = fxmul(sq_lo, sq_lo);
    let q4_hi = fxmul(sq_hi, sq_hi);
    crate::fx::lemma_fxmul_mono_nonneg(q4_lo, q4_hi, x_lo, x_hi);
    let p5_lo = fxmul(q4_lo, x_lo);
    let p5_hi = fxmul(q4_hi, x_hi);
    crate::fx::lemma_fxmul_mono_nonneg(s - r0, s - r0, p5_lo, p5_hi);
}

/// Stepwise magnitude bounds for the Schlick computation.
proof fn lemma_schlick_bounds(cosine: int, ri: int)
    requires
        -4 * (SCALE as int) <= cosine <= 4 * (SCALE as int),
        0x1000 <= ri <= 0x10_0000,
    ensures
        -(SCALE as int) <= fxdiv(SCALE as int - ri, SCALE as int + ri) <= SCALE as int,
        0 <= fxmul(
            fxdiv(SCALE as int - ri, SCALE as int + ri),
            fxdiv(SCALE as int - ri, SCALE as int + ri),
        ) <= SCALE as int,
        0 <= fxmul(SCALE as int - cosine, SCALE as int - cosine) <= 25 * (SCALE as int),
        0 <= fxmul(
            fxmul(SCALE as int - cosine, SCALE as int - cosine),
            fxmul(SCALE as int - cosine, SCALE as int - cosine),
        ) <= 625 * (SCALE as int),
        -3125 * (SCALE as int) <= fxmul(
            fxmul(
                fxmul(SCALE as int - cosine, SCALE as int - cosine),
                fxmul(SCALE as int - cosine, SCALE as int - cosine),
            ),
            SCALE as int - cosine,
        ) <= 3125 * (SCALE as int),
        -3125 * (SCALE as int) <= fxmul(
            SCALE as int - fxmul(
                fxdiv(SCALE as int - ri, SCALE as int + ri),
                fxdiv(SCALE as int - ri, SCALE as int + ri),
            ),
            fxmul(
                fxmul(
                    fxmul(SCALE as int - cosine, SCALE as int - cosine),
                    fxmul(SCALE as int - cosine, SCALE as int - cosine),
                ),
                SCALE as int - cosine,
            ),
        ) <= 3125 * (SCALE as int),
{
    let s = SCALE as int;
    let q = fxdiv(s - ri, s + ri);
    assert(-((s) * (s + ri)) <= (s - ri) * s <= (s) * (s + ri)) by (nonlinear_arith)
        requires
            0 < ri,
            s == 65536,
    ;
    lemma_tdiv_shrink((s - ri) * s, s + ri, s);
    assert(0 <= q * q <= s * s) by (nonlinear_arith)
        requires
            -s <= q <= s,
    ;
    lemma_tdiv_shrink(q * q, s, s);
    lemma_tdiv_bound(q * q, s);
    let r0 = fxmul(q, q);
    let c1 = s - cosine;
    assert(0 <= c1 * c1 <= (25 * s) * s) by (nonlinear_arith)
        requires
            -3 * s <= c1 <= 5 * s,
            s == 65536,
    ;
    lemma_tdiv_shrink(c1 * c1, s, 25 * s);
    lemma_tdiv_bound(c1 * c1, s);
    let c2 = fxmul(c1, c1);
    assert(0 <= c2 * c2 <= (625 * s) * s) by (nonlinear_arith)
        requires
            0 <= c2 <= 25 * s,
            s == 65536,
    ;
    lemma_tdiv_shrink(c2 * c2, s, 625 * s);
    lemma_tdiv_bound(c2 * c2, s);
    let c4 = fxmul(c2, c2);
    assert(-((3125 * s) * s) <= c4 * c1 <= (3125 * s) * s) by (nonlinear_arith)
        requires
            0 <= c4 <= 625 * s,
            -3 * s <= c1 <= 5 * s,
            s == 65536,
    ;
    lemma_tdiv_shrink(c4 * c1, s, 3125 * s);
    let p5 = fxmul(c4, c1);
    assert(-((3125 * s) * s) <= (s - r0) * p5 <= (3125 * s) * s) by (nonlinear_arith)
        requires
            0 <= r0 <= s,
            -3125 * s <= p5 <= 3125 * s,
            s == 65536,
    ;
    lemma_tdiv_shrink((s - r0) * p5, s, 3125 * s);
}

} // verus!
