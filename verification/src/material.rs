//! Material variants and their emission behaviour.
//!
//! A material is a small stateless value copied into every hit record. The
//! scattering rules live here as well; the parts that depend on a random
//! draw take the drawn value as an argument, so their contracts pin the
//! outcome exactly for every possible draw.

use vstd::prelude::*;

verus! {

use crate::fx::{
    Fx, FX_ONE, FX_ARG_LIMIT, fx_mul, fx_div, fx_sqrt, abs_i, mul_fx, div_fx, sqrt_fx,
    lemma_abs_mul, lemma_tdiv_bound, lemma_tdiv_any_bound,
};
use crate::vec::{
    Vector3, Vec3i, vec_in, vadd, vneg, vscale, dot_spec, near_zero_spec, reflect_spec,
    refract_spec, unit_or_spec, unit_draw_ok, vunit_spec, FX_UNIT_LIMIT, FX_DIR_LIMIT,
    dot_product, lemma_dot_bound, lemma_vscale_bound,
};
use crate::ray::{Ray, ray_wf, HitRecord, HitI, hit_wf};

/// Magnitude bound on emitted light per channel (2^32).
pub const FX_EMIT_LIMIT: i128 = 4294967296;

/// Magnitude bound on the relative refraction index: 256.0.
pub const FX_INDEX_LIMIT: i128 = 16777216;

#[derive(Clone, Copy, Debug, PartialEq, Eq, Structural)]
pub struct Lambertian {
    pub albedo: Vector3,
}

#[derive(Clone, Copy, Debug, PartialEq, Eq, Structural)]
pub struct Metal {
    pub albedo: Vector3,
    pub fuzz: Fx,
}

#[derive(Clone, Copy, Debug, PartialEq, Eq, Structural)]
pub struct Dielectric {
    pub refraction_index: Fx,
}

#[derive(Clone, Copy, Debug, PartialEq, Eq, Structural)]
pub struct Light {
    pub color: Vector3,
}

#[derive(Clone, Copy, Debug, PartialEq, Eq, Structural)]
pub enum Material {
    Lambertian(Lambertian),
    Metal(Metal),
    Dielectric(Dielectric),
    Light(Light),
}

/// Each channel of a reflective color lies in [0, 1].
pub open spec fn color01(c: Vec3i) -> bool {
    &&& 0 <= c.x <= FX_ONE as int
    &&& 0 <= c.y <= FX_ONE as int
    &&& 0 <= c.z <= FX_ONE as int
}

/// Well-formedness of a material's parameters.
pub open spec fn material_wf(m: Material) -> bool {
    match m {
        Material::Lambertian(l) => color01(l.albedo@),
        Material::Metal(mt) => color01(mt.albedo@) && 0 <= mt.fuzz <= FX_ONE,
        Material::Dielectric(d) => 4096 <= d.refraction_index <= FX_INDEX_LIMIT,
        Material::Light(l) => vec_in(l.color@, FX_EMIT_LIMIT as int) && l.color@.x >= 0
            && l.color@.y >= 0 && l.color@.z >= 0,
    }
}

/// What a material emits: its fixed color for a light, black otherwise.
pub open spec fn emitted_spec(m: Material) -> Vec3i {
    match m {
        Material::Light(l) => l.color@,
        _ => Vec3i { x: 0, y: 0, z: 0 },
    }
}

impl Lambertian {
    pub fn new(albedo: Vector3) -> (r: Lambertian)
        requires
            color01(albedo@),
        ensures
            r.albedo == albedo,
    {
        Lambertian { albedo }
    }
}

impl Metal {
    pub fn new(albedo: Vector3, fuzz: Fx) -> (r: Metal)
        requires
            color01(albedo@),
            0 <= fuzz <= FX_ONE,
        ensures
            r.albedo == albedo,
            r.fuzz == fuzz,
    {
        Metal { albedo, fuzz }
    }
}

impl Dielectric {
    pub fn new(refraction_index: Fx) -> (r: Dielectric)
        requires
            4096 <= refraction_index <= FX_INDEX_LIMIT,
        ensures
            r.refraction_index == refraction_index,
    {
        Dielectric { refraction_index }
    }
}

impl Light {
    pub fn new(color: Vector3) -> (r: Light)
        requires
            vec_in(color@, FX_EMIT_LIMIT as int),
            color@.x >= 0,
            color@.y >= 0,
            color@.z >= 0,
        ensures
            r.color == color,
    {
        Light { color }
    }

    /// A light emits its fixed color regardless of the point.
    pub fn emitted(&self, _point: Vector3) -> (r: Vector3)
        ensures
            r == self.color,
    {
        self.color
    }
}

/// The diffuse bounce direction: surface normal plus a random unit vector,
/// falling back to the bare normal when the sum is numerically zero.
pub open spec fn lambertian_dir_spec(h: HitI, unit: Vec3i) -> Vec3i {
    let d = vadd(h.normal, unit);
    if near_zero_spec(d) {
        h.normal
    } else {
        d
    }
}

/// The metallic bounce: the mirror reflection, normalized and perturbed by
/// the fuzz-scaled random unit vector; absorbed (no direction) when the
/// reflection degenerates or the perturbed direction does not point away
/// from the surface.
pub open spec fn metal_dir_spec(m: Metal, r: Ray, h: HitI, unit: Vec3i) -> Option<Vec3i> {
    let reflected = reflect_spec(r.direction@, h.normal);
    if dot_spec(reflected, reflected) < 1 {
        None
    } else {
        let dir = vadd(
            unit_or_spec(reflected, Vec3i { x: 0, y: 0, z: FX_ONE as int }),
            vscale(unit, m.fuzz as int),
        );
        if dot_spec(dir, h.normal) > 0 {
            Some(dir)
        } else {
            None
        }
    }
}

/// The result of a metal scatter matches its deterministic rule for the
/// drawn unit vector.
pub open spec fn metal_scatter_ok(
    r: Option<(Ray, Vector3)>,
    m: Metal,
    ray: Ray,
    h: HitI,
    unit: Vec3i,
) -> bool {
    match metal_dir_spec(m, ray, h, unit) {
        Some(dir) => match r {
            Some(p) => p.0.origin@ == h.point && p.0.direction@ == dir && p.1 == m.albedo,
            None => false,
        },
        None => r is None,
    }
}

/// The incoming direction normalized, with a fixed fallback for a
/// degenerate direction.
pub open spec fn dielectric_unit_spec(v: Vec3i) -> Vec3i {
    if dot_spec(v, v) < 1 {
        Vec3i { x: 0, y: 0, z: FX_ONE as int }
    } else {
        unit_or_spec(v, Vec3i { x: 0, y: 0, z: FX_ONE as int })
    }
}

/// The Schlick approximation of reflectance.
pub open spec fn schlick_spec(cosine: int, refraction_index: int) -> int {
    let t = fx_div(FX_ONE as int - refraction_index, FX_ONE as int + refraction_index);
    let r0 = fx_mul(t, t);
    let p = FX_ONE as int - cosine;
    let p2 = fx_mul(p, p);
    let p4 = fx_mul(p2, p2);
    r0 + fx_mul(FX_ONE as int - r0, fx_mul(p4, p))
}

/// The effective relative refraction index at a hit.
pub open spec fn dielectric_index_spec(d: Dielectric, h: HitI) -> int {
    if h.front_face {
        fx_div(FX_ONE as int, d.refraction_index as int)
    } else {
        d.refraction_index as int
    }
}

/// The clamped incidence cosine at a hit.
pub open spec fn dielectric_cos_spec(r: Ray, h: HitI) -> int {
    let ud = dielectric_unit_spec(r.direction@);
    let cos0 = dot_spec(vneg(ud), h.normal);
    if cos0 > FX_ONE as int {
        FX_ONE as int
    } else {
        cos0
    }
}

/// Whether the dielectric reflects: either Snell's law has no solution, or
/// the Schlick reflectance exceeds the uniform draw.
pub open spec fn dielectric_reflects(d: Dielectric, r: Ray, h: HitI, draw: int) -> bool {
    let ri = dielectric_index_spec(d, h);
    let cos = dielectric_cos_spec(r, h);
    let sin2 = FX_ONE as int - fx_mul(cos, cos);
    let sin = fx_sqrt(
        if sin2 >= 0 {
            sin2
        } else {
            0
        },
    );
    fx_mul(ri, sin) > FX_ONE as int || schlick_spec(cos, ri) > draw
}

/// The dielectric bounce: reflection or refraction of the normalized
/// incoming direction, chosen by `dielectric_reflects`.
pub open spec fn dielectric_dir_spec(d: Dielectric, r: Ray, h: HitI, draw: int) -> Vec3i {
    let ri = dielectric_index_spec(d, h);
    let ud = dielectric_unit_spec(r.direction@);
    if dielectric_reflects(d, r, h, draw) {
        reflect_spec(ud, h.normal)
    } else {
        refract_spec(ud, h.normal, ri)
    }
}

impl Lambertian {
    /// The deterministic part of the diffuse bounce, for a given drawn unit
    /// vector: always scatters, attenuated by the albedo.
    pub fn scatter_with(&self, hit_record: &HitRecord, unit: Vector3) -> (r: (Ray, Vector3))
        requires
            hit_wf(*hit_record),
            vec_in(unit@, 4294967296),
        ensures
            r.0.origin == hit_record.point,
            r.0.direction@ == lambertian_dir_spec(hit_record@, unit@),
            r.1 == self.albedo,
            ray_wf(r.0),
    {
        let scatter_direction = hit_record.normal.add(unit);
        let direction = if scatter_direction.near_zero() {
            hit_record.normal
        } else {
            scatter_direction
        };
        (Ray::new(hit_record.point, direction), self.albedo)
    }

    /// The diffuse bounce: draws the random unit vector and applies the
    /// deterministic rule; never absorbs.
    pub fn scatter(&self, _ray_in: &Ray, hit_record: &HitRecord) -> (r: Option<(Ray, Vector3)>)
        requires
            hit_wf(*hit_record),
        ensures
            r is Some,
            r->Some_0.0.origin == hit_record.point,
            r->Some_0.1 == self.albedo,
            ray_wf(r->Some_0.0),
            exists|u: Vec3i|
                unit_draw_ok(u) && r->Some_0.0.direction@ == #[trigger] lambertian_dir_spec(
                    hit_record@,
                    u,
                ),
    {
        let unit = Vector3::random_unit_vector();
        let pair = self.scatter_with(hit_record, unit);
        proof {
            assert(pair.0.direction@ == lambertian_dir_spec(hit_record@, unit@));
        }
        Some(pair)
    }
}

impl Metal {
    /// The deterministic part of the metallic bounce, for a given drawn
    /// unit vector: scatters exactly when the perturbed reflection points
    /// away from the surface.
    pub fn scatter_with(&self, ray_in: &Ray, hit_record: &HitRecord, unit: Vector3) -> (r: Option<
        (Ray, Vector3),
    >)
        requires
            material_wf(Material::Metal(*self)),
            ray_wf(*ray_in),
            hit_wf(*hit_record),
            vec_in(unit@, 4294967296),
        ensures
            metal_scatter_ok(r, *self, *ray_in, hit_record@, unit@),
            r is Some ==> ray_wf(r->Some_0.0),
    {
        let reflected = Vector3::reflect(ray_in.direction, hit_record.normal);
        let ls = reflected.length_squared();
        if ls < 1 {
            return None;
        }
        let unit_reflected = Vector3::unit_or(reflected, Vector3::new(0, 0, FX_ONE));
        let fuzzed = unit.mul_s(self.fuzz);
        proof {
            lemma_vscale_bound(unit@, self.fuzz as int, 4294967296, FX_ONE as int);
        }
        let direction = unit_reflected.add(fuzzed);
        if dot_product(direction, hit_record.normal) > 0 {
            Some((Ray::new(hit_record.point, direction), self.albedo))
        } else {
            None
        }
    }

    /// The metallic bounce: draws the random unit vector and applies the
    /// deterministic rule.
    pub fn scatter(&self, ray_in: &Ray, hit_record: &HitRecord) -> (r: Option<(Ray, Vector3)>)
        requires
            material_wf(Material::Metal(*self)),
            ray_wf(*ray_in),
            hit_wf(*hit_record),
        ensures
            exists|u: Vec3i|
                unit_draw_ok(u) && #[trigger] metal_scatter_ok(
                    r,
                    *self,
                    *ray_in,
                    hit_record@,
                    u,
                ),
            r is Some ==> ray_wf(r->Some_0.0),
    {
        let unit = Vector3::random_unit_vector();
        let res = self.scatter_with(ray_in, hit_record, unit);
        proof {
            assert(metal_scatter_ok(res, *self, *ray_in, hit_record@, unit@));
        }
        res
    }
}

impl Dielectric {
    /// The Schlick approximation of reflectance.
    pub fn reflectance(cosine: Fx, refraction_index: Fx) -> (r: Fx)
        requires
            -3145728 <= cosine <= FX_ONE,
            0 < refraction_index <= 4294967296,
        ensures
            r == schlick_spec(cosine as int, refraction_index as int),
    {
        let t = div_fx(FX_ONE - refraction_index, FX_ONE + refraction_index);
        proof {
            let num = (FX_ONE as int - refraction_index) * 65536;
            let den = FX_ONE as int + refraction_index;
            crate::fx::lemma_tdiv_cancel(num, den);
            assert(abs_i(num) <= den * 65536) by (nonlinear_arith)
                requires
                    0 < refraction_index,
                    num == (65536 - refraction_index) * 65536,
                    den == 65536 + refraction_index,
            ;
            vstd::arithmetic::div_mod::lemma_div_is_ordered(abs_i(num), den * 65536, den);
            vstd::arithmetic::div_mod::lemma_div_by_multiple(65536, den);
            assert(abs_i(t as int) <= 65536);
            lemma_abs_mul(t as int, t as int, 65536, 65536);
            lemma_tdiv_bound(t as int * t as int, 65536, 65536int * 65536int);
        }
        let r0 = mul_fx(t, t);
        let p = FX_ONE - cosine;
        proof {
            lemma_abs_mul(p as int, p as int, 4194304, 4194304);
            lemma_tdiv_bound(p as int * p as int, 65536, 4194304int * 4194304int);
        }
        let p2 = mul_fx(p, p);
        proof {
            lemma_abs_mul(p2 as int, p2 as int, 268435456, 268435456);
            lemma_tdiv_bound(p2 as int * p2 as int, 65536, 268435456int * 268435456int);
        }
        let p4 = mul_fx(p2, p2);
        proof {
            lemma_abs_mul(p4 as int, p as int, 1099511627776, 4194304);
            lemma_tdiv_bound(p4 as int * p as int, 65536, 1099511627776int * 4194304int);
            lemma_abs_mul(
                FX_ONE as int - r0 as int,
                fx_mul(p4 as int, p as int),
                131072,
                70368744177664,
            );
            lemma_tdiv_bound(
                (FX_ONE as int - r0 as int) * fx_mul(p4 as int, p as int),
                65536,
                131072int * 70368744177664int,
            );
        }
        r0 + mul_fx(FX_ONE - r0, mul_fx(p4, p))
    }

    /// The deterministic part of the dielectric bounce, for a given uniform
    /// draw: always scatters, with opaque white attenuation.
    #[verifier::rlimit(100)]
    pub fn scatter_with(&self, ray_in: &Ray, hit_record: &HitRecord, draw: Fx) -> (r: (
        Ray,
        Vector3,
    ))
        requires
            material_wf(Material::Dielectric(*self)),
            ray_wf(*ray_in),
            hit_wf(*hit_record),
            0 <= draw < FX_ONE,
        ensures
            r.0.origin == hit_record.point,
            r.0.direction@ == dielectric_dir_spec(*self, *ray_in, hit_record@, draw as int),
            r.1@ == (Vec3i { x: FX_ONE as int, y: FX_ONE as int, z: FX_ONE as int }),
            ray_wf(r.0),
    {
        let normal = hit_record.normal;
        let refraction_index = if hit_record.front_face {
            let q = div_fx(FX_ONE, self.refraction_index);
            proof {
                vstd::arithmetic::div_mod::lemma_div_non_zero(
                    (FX_ONE as int) * 65536,
                    self.refraction_index as int,
                );
                crate::fx::lemma_tdiv_cancel(
                    (FX_ONE as int) * 65536,
                    self.refraction_index as int,
                );
                vstd::arithmetic::div_mod::lemma_div_is_ordered_by_denominator(
                    (FX_ONE as int) * 65536,
                    4096,
                    self.refraction_index as int,
                );
            }
            q
        } else {
            self.refraction_index
        };

        let ls = ray_in.direction.length_squared();
        let unit_direction = if ls < 1 {
            Vector3::new(0, 0, FX_ONE)
        } else {
            Vector3::unit_or(ray_in.direction, Vector3::new(0, 0, FX_ONE))
        };
        let cos0 = dot_product(unit_direction.neg(), normal);
        proof {
            lemma_dot_bound(vneg(unit_direction@), normal@, FX_UNIT_LIMIT as int, FX_UNIT_LIMIT as int);
        }
        let cos_theta = if cos0 > FX_ONE {
            FX_ONE
        } else {
            cos0
        };
        proof {
            lemma_abs_mul(cos_theta as int, cos_theta as int, 3145728, 3145728);
            lemma_tdiv_bound(cos_theta as int * cos_theta as int, 65536, 3145728int * 3145728int);
        }
        let sin2 = FX_ONE - mul_fx(cos_theta, cos_theta);
        let sin_theta = sqrt_fx(if sin2 >= 0 {
            sin2
        } else {
            0
        });
        proof {
            lemma_abs_mul(
                refraction_index as int,
                sin_theta as int,
                16777216,
                9223372036854775808int,
            );
            lemma_tdiv_bound(
                refraction_index as int * sin_theta as int,
                65536,
                16777216int * 9223372036854775808int,
            );
        }
        let cannot_refract = mul_fx(refraction_index, sin_theta) > FX_ONE;

        let direction = if cannot_refract || Dielectric::reflectance(cos_theta, refraction_index)
            > draw {
            Vector3::reflect(unit_direction, normal)
        } else {
            Vector3::refract(unit_direction, normal, refraction_index)
        };
        proof {
            if dielectric_reflects(*self, *ray_in, hit_record@, draw as int) {
                lemma_dot_bound(unit_direction@, normal@, FX_UNIT_LIMIT as int, FX_UNIT_LIMIT as int);
                lemma_vscale_bound(normal@, 2 * (FX_ONE as int), FX_UNIT_LIMIT as int, 131072);
                lemma_vscale_bound(
                    vscale(normal@, 2 * (FX_ONE as int)),
                    dot_spec(unit_direction@, normal@),
                    524288,
                    3145728,
                );
            }
        }
        (Ray::new(hit_record.point, direction), Vector3::new(FX_ONE, FX_ONE, FX_ONE))
    }

    /// The dielectric bounce: draws the uniform reflectance sample and
    /// applies the deterministic rule; never absorbs.
    pub fn scatter(&self, ray_in: &Ray, hit_record: &HitRecord) -> (r: Option<(Ray, Vector3)>)
        requires
            material_wf(Material::Dielectric(*self)),
            ray_wf(*ray_in),
            hit_wf(*hit_record),
        ensures
            r is Some,
            r->Some_0.0.origin == hit_record.point,
            r->Some_0.1@ == (Vec3i { x: FX_ONE as int, y: FX_ONE as int, z: FX_ONE as int }),
            ray_wf(r->Some_0.0),
            exists|draw: int|
                0 <= draw < FX_ONE as int && r->Some_0.0.direction@ == #[trigger] dielectric_dir_spec(
                    *self,
                    *ray_in,
                    hit_record@,
                    draw,
                ),
    {
        let draw = crate::util::random_unit_float();
        let pair = self.scatter_with(ray_in, hit_record, draw);
        proof {
            assert(pair.0.direction@ == dielectric_dir_spec(
                *self,
                *ray_in,
                hit_record@,
                draw as int,
            ));
        }
        Some(pair)
    }
}

impl Material {
    /// Emission at a point: the light's color for a light, black otherwise.
    pub fn emitted(&self, point: Vector3) -> (r: Vector3)
        ensures
            r@ == emitted_spec(*self),
    {
        match self {
            Material::Light(light) => light.emitted(point),
            _ => Vector3::zero(),
        }
    }

    /// Scattering at a hit: never for a light, always for a diffuse or
    /// dielectric surface, and for a metal exactly when the fuzz-perturbed
    /// reflection leaves the surface.
    pub fn scatter(&self, ray_in: &Ray, hit_record: &HitRecord) -> (r: Option<(Ray, Vector3)>)
        requires
            material_wf(*self),
            ray_wf(*ray_in),
            hit_wf(*hit_record),
        ensures
            *self is Lambertian ==> r is Some,
            *self is Dielectric ==> r is Some,
            *self is Light ==> r is None,
            r is Some ==> ray_wf(r->Some_0.0) && r->Some_0.0.origin == hit_record.point && color01(
                r->Some_0.1@,
            ),
            scatter_admits(*self, *ray_in, hit_record@, r),
            match *self {
                Material::Lambertian(l) => r is Some && r->Some_0.1 == l.albedo && exists|u: Vec3i|
                    unit_draw_ok(u) && r->Some_0.0.direction@ == #[trigger] lambertian_dir_spec(
                        hit_record@,
                        u,
                    ),
                Material::Metal(m) => exists|u: Vec3i|
                    unit_draw_ok(u) && #[trigger] metal_scatter_ok(
                        r,
                        m,
                        *ray_in,
                        hit_record@,
                        u,
                    ),
                Material::Dielectric(d) => r is Some && r->Some_0.1@ == (Vec3i {
                    x: FX_ONE as int,
                    y: FX_ONE as int,
                    z: FX_ONE as int,
                }) && exists|draw: int|
                    0 <= draw < FX_ONE as int && r->Some_0.0.direction@
                        == #[trigger] dielectric_dir_spec(d, *ray_in, hit_record@, draw),
                Material::Light(_) => r is None,
            },
    {
        match self {
            Material::Lambertian(lambertian) => lambertian.scatter(ray_in, hit_record),
            Material::Metal(metal) => metal.scatter(ray_in, hit_record),
            Material::Dielectric(dielectric) => dielectric.scatter(ray_in, hit_record),
            _ => None,
        }
    }
}

/// What the scattering relation admits at a hit: for each variant, the
/// exact outcome determined by some admissible draw — a normalized
/// in-sphere direction for diffuse and metallic surfaces, a uniform unit
/// draw for a dielectric — and no outcome at all for a light.
pub open spec fn scatter_admits(
    m: Material,
    ray: Ray,
    h: HitI,
    res: Option<(Ray, Vector3)>,
) -> bool {
    match m {
        Material::Lambertian(l) => exists|u: Vec3i|
            unit_draw_ok(u) && (match res {
                Some(p) => p.0.origin@ == h.point && p.0.direction@
                    == #[trigger] lambertian_dir_spec(h, u) && p.1 == l.albedo,
                None => false,
            }),
        Material::Metal(mt) => exists|u: Vec3i|
            unit_draw_ok(u) && #[trigger] metal_scatter_ok(res, mt, ray, h, u),
        Material::Dielectric(d) => exists|draw: int|
            0 <= draw < FX_ONE as int && (match res {
                Some(p) => p.0.origin@ == h.point && p.0.direction@
                    == #[trigger] dielectric_dir_spec(d, ray, h, draw) && p.1@ == (Vec3i {
                    x: FX_ONE as int,
                    y: FX_ONE as int,
                    z: FX_ONE as int,
                }),
                None => false,
            }),
        Material::Light(_) => res is None,
    }
}

/// A metal absorbs the ray exactly when its reflection degenerates or the
/// fuzz-perturbed reflection does not point away from the surface.
pub proof fn lemma_metal_absorbs(m: Metal, r: Ray, h: HitI, unit: Vec3i)
    ensures
        (metal_dir_spec(m, r, h, unit) is None) <==> ({
            let reflected = reflect_spec(r.direction@, h.normal);
            dot_spec(reflected, reflected) < 1 || dot_spec(
                vadd(
                    unit_or_spec(reflected, Vec3i { x: 0, y: 0, z: FX_ONE as int }),
                    vscale(unit, m.fuzz as int),
                ),
                h.normal,
            ) <= 0
        }),
{
}

/// The dielectric's choice between reflecting and refracting is fully
/// determined by whether Snell's law fails or the Schlick reflectance
/// exceeds the uniform draw.
pub proof fn lemma_dielectric_choice(d: Dielectric, r: Ray, h: HitI, draw: int)
    ensures
        dielectric_dir_spec(d, r, h, draw) == if dielectric_reflects(d, r, h, draw) {
            reflect_spec(dielectric_unit_spec(r.direction@), h.normal)
        } else {
            refract_spec(
                dielectric_unit_spec(r.direction@),
                h.normal,
                dielectric_index_spec(d, h),
            )
        },
{
}

} // verus!
