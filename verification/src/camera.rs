//! The camera and renderer: immutable view parameters derived once, per-
//! pixel jittered ray generation, the recursive path-tracing integrator,
//! and tone-mapped packing of pixels.

use vstd::prelude::*;

verus! {

use crate::fx::{
    Fx, FX_ONE, FX_HALF, FX_HUGE, FX_ARG_LIMIT, FX_COORD_LIMIT, fx_mul, fx_div, fx_sqrt, tdiv,
    abs_i, mul_fx, div_fx, sqrt_fx, lemma_abs_mul, lemma_tdiv_bound, lemma_tdiv_any_bound,
    lemma_fx_square_nonneg,
};
use crate::vec::{
    Vector3, Vec3i, vec_in, vadd, vsub, vneg, vscale, vdivs, vmulv, dot_spec, cross_spec,
    unit_dir_spec, unit_dir, FX_UNIT_LIMIT, FX_DIR_LIMIT, cross_product, lemma_vscale_bound,
    lemma_vdivs_bound, lemma_cross_bound, lemma_dot_bound,
};
use crate::ray::{Ray, ray_wf, Interval, IvlI, ivl_wf, HitRecord, HitI, hiti_wf, WorldObject};
use crate::material::{Material, material_wf, color01, emitted_spec, scatter_admits, FX_EMIT_LIMIT};
use crate::world::{World, world_wf, scan_hit_spec};
use crate::util::sample_square;

/// Lower bound of the integrator's validity interval (about 0.001),
/// avoiding self-intersection at the previous bounce's exit point.
pub const FX_SHADOW_EPS: i128 = 66;

/// Half a degree in radians, in fixed point (pi / 360).
pub const FX_HALF_DEG_RAD: i128 = 572;

/// Magnitude cap on the tangent helper: 256.0.
pub const FX_TAN_MAX: i128 = 16777216;

/// The fixed 16:9 aspect ratio in fixed point.
pub const FX_ASPECT: i128 = 116508;

/// The tangent of half the angle given in degrees, by a fifth-order
/// sine/cosine series, clamped to [0, FX_TAN_MAX].
pub open spec fn tan_half_deg_spec(degrees: int) -> int {
    let x = fx_mul(degrees, FX_HALF_DEG_RAD as int);
    let x2 = fx_mul(x, x);
    let x3 = fx_mul(x2, x);
    let x4 = fx_mul(x2, x2);
    let x5 = fx_mul(x4, x);
    let s = x - fx_div(x3, 393216) + fx_div(x5, 7864320);
    let c = FX_ONE as int - fx_div(x2, 131072) + fx_div(x4, 1572864);
    if c < 1 {
        FX_TAN_MAX as int
    } else {
        let t = fx_div(s, c);
        if t < 0 {
            0
        } else if t > FX_TAN_MAX as int {
            FX_TAN_MAX as int
        } else {
            t
        }
    }
}

/// Computes the tangent of half the given angle in degrees.
pub fn tan_half_deg(degrees: Fx) -> (r: Fx)
    requires
        0 <= degrees <= 11796480,
    ensures
        r == tan_half_deg_spec(degrees as int),
        0 <= r <= FX_TAN_MAX,
{
    proof {
        lemma_abs_mul(degrees as int, FX_HALF_DEG_RAD as int, 11796480, 572);
        lemma_tdiv_bound(degrees as int * FX_HALF_DEG_RAD as int, 65536, 11796480int * 572int);
    }
    let x = mul_fx(degrees, FX_HALF_DEG_RAD);
    proof {
        lemma_abs_mul(x as int, x as int, 131072, 131072);
        lemma_tdiv_bound(x as int * x as int, 65536, 131072int * 131072int);
    }
    let x2 = mul_fx(x, x);
    proof {
        lemma_abs_mul(x2 as int, x as int, 262144, 131072);
        lemma_tdiv_bound(x2 as int * x as int, 65536, 262144int * 131072int);
        lemma_abs_mul(x2 as int, x2 as int, 262144, 262144);
        lemma_tdiv_bound(x2 as int * x2 as int, 65536, 262144int * 262144int);
    }
    let x3 = mul_fx(x2, x);
    let x4 = mul_fx(x2, x2);
    proof {
        lemma_abs_mul(x4 as int, x as int, 1048576, 131072);
        lemma_tdiv_bound(x4 as int * x as int, 65536, 1048576int * 131072int);
        lemma_tdiv_any_bound(x3 as int * 65536, 393216, 524288int * 65536int);
        lemma_tdiv_any_bound(fx_mul(x4 as int, x as int) * 65536, 7864320, 2097152int * 65536int);
        lemma_tdiv_any_bound(x2 as int * 65536, 131072, 262144int * 65536int);
        lemma_tdiv_any_bound(x4 as int * 65536, 1572864, 1048576int * 65536int);
    }
    let x5 = mul_fx(x4, x);
    let s = x - div_fx(x3, 393216) + div_fx(x5, 7864320);
    let c = FX_ONE - div_fx(x2, 131072) + div_fx(x4, 1572864);
    if c < 1 {
        FX_TAN_MAX
    } else {
        proof {
            lemma_tdiv_any_bound(s as int * 65536, c as int, 0x400000000000000000000000int);
        }
        let t = div_fx(s, c);
        if t < 0 {
            0
        } else if t > FX_TAN_MAX {
            FX_TAN_MAX
        } else {
            t
        }
    }
}

/// One tone-mapped channel: scale, gamma-correct by square root, clamp to
/// the unit range, and widen to an 8-bit value, rounding toward zero.
pub open spec fn channel_spec(v: int, scale: int) -> int {
    let scaled = fx_mul(v, scale);
    let g = fx_sqrt(scaled);
    let clamped = if g < 0 {
        0
    } else if g > FX_ONE as int {
        FX_ONE as int
    } else {
        g
    };
    tdiv(clamped * 255, 65536)
}

/// The packed pixel: red in the high byte of the low 24 bits, then green,
/// then blue.
pub open spec fn pack_spec(c: Vec3i, scale: int) -> int {
    channel_spec(c.x, scale) * 65536 + channel_spec(c.y, scale) * 256 + channel_spec(c.z, scale)
}

/// One tone-mapped channel of a pixel.
fn channel(v: Fx, scale: Fx) -> (r: u32)
    requires
        0 <= v <= 1125899906842624,
        0 <= scale <= FX_ONE,
    ensures
        r == channel_spec(v as int, scale as int),
        r <= 255,
{
    proof {
        lemma_abs_mul(v as int, scale as int, 1125899906842624, 65536);
        lemma_tdiv_bound(v as int * scale as int, 65536, 1125899906842624int * 65536int);
        assert(v as int * scale as int >= 0) by (nonlinear_arith)
            requires
                v >= 0,
                scale >= 0,
        ;
    }
    let scaled = mul_fx(v, scale);
    let g = sqrt_fx(scaled);
    let clamped = if g < 0 {
        0
    } else if g > FX_ONE {
        FX_ONE
    } else {
        g
    };
    let wide: u128 = (clamped as u128) * 255;
    (wide / 65536) as u32
}

/// Tone-maps and packs one accumulated pixel color.
pub fn pack_color(color: Vector3, scale: Fx) -> (r: u32)
    requires
        0 <= color@.x <= 1125899906842624,
        0 <= color@.y <= 1125899906842624,
        0 <= color@.z <= 1125899906842624,
        0 <= scale <= FX_ONE,
    ensures
        r == pack_spec(color@, scale as int),
        r <= 16777215,
{
    let red = channel(color.x, scale);
    let green = channel(color.y, scale);
    let blue = channel(color.z, scale);
    red * 65536 + green * 256 + blue
}

pub struct Camera {
    pub width: u32,
    pub height: u32,
    pub center: Vector3,
    pub samples_per_pixel: u32,
    pub max_depth: u32,
    pub background: Vector3,
    pub pixel_delta_u: Vector3,
    pub pixel_delta_v: Vector3,
    pub pixel00_loc: Vector3,
    pub pixel_samples_scale: Fx,
    pub defocus: bool,
    pub defocus_disk_u: Vector3,
    pub defocus_disk_v: Vector3,
}

/// Each component of a pixel delta, scaled by the pixel count, stays within
/// the sampling budget.
pub open spec fn delta_ok(d: Vec3i, n: int) -> bool {
    &&& abs_i(d.x) * n <= 8589934592
    &&& abs_i(d.y) * n <= 8589934592
    &&& abs_i(d.z) * n <= 8589934592
}

pub open spec fn camera_wf(c: Camera) -> bool {
    &&& 16 <= c.width <= 4096
    &&& 1 <= c.height <= c.width
    &&& 1 <= c.samples_per_pixel <= 4096
    &&& 1 <= c.max_depth <= 64
    &&& vec_in(c.center@, FX_COORD_LIMIT as int)
    &&& 0 <= c.background@.x <= FX_EMIT_LIMIT as int
    &&& 0 <= c.background@.y <= FX_EMIT_LIMIT as int
    &&& 0 <= c.background@.z <= FX_EMIT_LIMIT as int
    &&& vec_in(c.pixel_delta_u@, 8589934592)
    &&& vec_in(c.pixel_delta_v@, 8589934592)
    &&& delta_ok(c.pixel_delta_u@, c.width as int)
    &&& delta_ok(c.pixel_delta_v@, c.width as int)
    &&& vec_in(c.pixel00_loc@, 34359738368)
    &&& 0 <= c.pixel_samples_scale <= FX_ONE
    &&& vec_in(c.defocus_disk_u@, 1073741824)
    &&& vec_in(c.defocus_disk_v@, 1073741824)
}

/// The view parameters derived once at construction.
pub ghost struct CameraDerived {
    pub height: int,
    pub pixel_delta_u: Vec3i,
    pub pixel_delta_v: Vec3i,
    pub pixel00_loc: Vec3i,
    pub pixel_samples_scale: int,
    pub defocus_disk_u: Vec3i,
    pub defocus_disk_v: Vec3i,
}

/// The whole derivation: viewport size from the field of view and focus
/// distance, the orthonormal basis from the look direction, per-pixel
/// deltas, the first pixel's location, and the defocus disk.
pub open spec fn camera_derive_spec(
    width: u32,
    look_from: Vector3,
    look_at: Vector3,
    vertical_fov: int,
    focus_distance: int,
    defocus_angle: int,
    samples_per_pixel: u32,
) -> CameraDerived {
    let width_fx = (width as int) * 65536;
    let height_fx = fx_div(width_fx, FX_ASPECT as int);
    let h = tan_half_deg_spec(vertical_fov);
    let viewport_height = fx_mul(fx_mul(131072, h), focus_distance);
    let viewport_width = fx_mul(viewport_height, fx_div(width_fx, height_fx));
    let w = unit_dir_spec(
        vsub(look_from@, look_at@),
        Vec3i { x: 0, y: 0, z: FX_ONE as int },
    );
    let u = unit_dir_spec(
        cross_spec(Vec3i { x: 0, y: FX_ONE as int, z: 0 }, w),
        Vec3i { x: FX_ONE as int, y: 0, z: 0 },
    );
    let v = cross_spec(w, u);
    let viewport_u = vscale(u, viewport_width);
    let viewport_v = vscale(vneg(v), viewport_height);
    let pixel_delta_u = vdivs(viewport_u, width_fx);
    let pixel_delta_v = vdivs(viewport_v, height_fx);
    let viewport_upper_left = vsub(
        vsub(vsub(look_from@, vscale(w, focus_distance)), vdivs(viewport_u, 131072)),
        vdivs(viewport_v, 131072),
    );
    let pixel00_loc = vadd(
        viewport_upper_left,
        vscale(vadd(pixel_delta_u, pixel_delta_v), FX_HALF as int),
    );
    let defocus_radius = fx_mul(focus_distance, tan_half_deg_spec(defocus_angle));
    CameraDerived {
        height: tdiv(height_fx, 65536),
        pixel_delta_u,
        pixel_delta_v,
        pixel00_loc,
        pixel_samples_scale: fx_div(FX_ONE as int, (samples_per_pixel as int) * 65536),
        defocus_disk_u: vscale(u, defocus_radius),
        defocus_disk_v: vscale(v, defocus_radius),
    }
}

/// The derived parameters pass the construction guard: sane image height,
/// bounded deltas and first-pixel location, bounded defocus disk, and a
/// sub-unit sample scale. Every ordinary configuration passes.
pub open spec fn camera_derived_ok(d: CameraDerived, width: int) -> bool {
    &&& 1 <= d.height <= width
    &&& vec_in(d.pixel_delta_u, 8589934592)
    &&& vec_in(d.pixel_delta_v, 8589934592)
    &&& delta_ok(d.pixel_delta_u, width)
    &&& delta_ok(d.pixel_delta_v, width)
    &&& vec_in(d.pixel00_loc, 34359738368)
    &&& 0 <= d.pixel_samples_scale <= FX_ONE as int
    &&& vec_in(d.defocus_disk_u, 1073741824)
    &&& vec_in(d.defocus_disk_v, 1073741824)
}

impl Camera {
    /// Derives the immutable view parameters once. A configuration whose
    /// derived parameters fail the range guard collapses to a small default
    /// viewport; every ordinary configuration passes the guard.
    #[verifier::loop_isolation(false)]
    #[verifier::rlimit(100)]
    pub fn new(
        width: u32,
        look_from: Vector3,
        look_at: Vector3,
        vertical_fov: Fx,
        focus_distance: Fx,
        defocus_angle: Fx,
        samples_per_pixel: u32,
        background: Vector3,
    ) -> (r: Camera)
        requires
            16 <= width <= 4096,
            vec_in(look_from@, 268435456),
            vec_in(look_at@, 268435456),
            0 <= vertical_fov <= 11796480,
            1 <= focus_distance <= 16777216,
            0 <= defocus_angle <= 11796480,
            1 <= samples_per_pixel <= 4096,
            0 <= background@.x <= FX_EMIT_LIMIT as int,
            0 <= background@.y <= FX_EMIT_LIMIT as int,
            0 <= background@.z <= FX_EMIT_LIMIT as int,
        ensures
            camera_wf(r),
            r.samples_per_pixel == samples_per_pixel,
            r.max_depth == 50,
            r.background == background,
            r.center == look_from,
            ({
                let d = camera_derive_spec(
                    width,
                    look_from,
                    look_at,
                    vertical_fov as int,
                    focus_distance as int,
                    defocus_angle as int,
                    samples_per_pixel,
                );
                if camera_derived_ok(d, width as int) {
                    &&& r.width == width
                    &&& r.height as int == d.height
                    &&& r.pixel_delta_u@ == d.pixel_delta_u
                    &&& r.pixel_delta_v@ == d.pixel_delta_v
                    &&& r.pixel00_loc@ == d.pixel00_loc
                    &&& r.pixel_samples_scale as int == d.pixel_samples_scale
                    &&& r.defocus_disk_u@ == d.defocus_disk_u
                    &&& r.defocus_disk_v@ == d.defocus_disk_v
                    &&& r.defocus == (defocus_angle > 0)
                } else {
                    &&& r.width == 16
                    &&& r.height == 9
                    &&& !r.defocus
                }
            }),
    {
        let width_fx: i128 = (width as i128) * 65536;
        let height_fx = div_fx(width_fx, FX_ASPECT);
        proof {
            lemma_tdiv_any_bound(width_fx as int * 65536, FX_ASPECT as int, 268435456int * 65536int);
        }
        let h = tan_half_deg(vertical_fov);
        proof {
            lemma_abs_mul(131072, h as int, 131072, FX_TAN_MAX as int);
            lemma_tdiv_bound(131072 * h as int, 65536, 131072int * 16777216int);
            lemma_abs_mul(
                fx_mul(131072, h as int),
                focus_distance as int,
                33554432,
                16777216,
            );
            lemma_tdiv_bound(
                fx_mul(131072, h as int) * focus_distance as int,
                65536,
                33554432int * 16777216int,
            );
        }
        let viewport_height = mul_fx(mul_fx(2 * FX_ONE, h), focus_distance);
        proof {
            crate::fx::lemma_tdiv_ordered(
                1048576int * 65536,
                width_fx as int * 65536,
                FX_ASPECT as int,
            );
            assert(tdiv(1048576int * 65536, FX_ASPECT as int) >= 1);
        }
        let ratio = div_fx(width_fx, height_fx);
        proof {
            lemma_tdiv_any_bound(
                width_fx as int * 65536,
                height_fx as int,
                268435456int * 65536int,
            );
            lemma_abs_mul(
                viewport_height as int,
                ratio as int,
                8589934592,
                268435456int * 65536int,
            );
            lemma_tdiv_bound(
                viewport_height as int * ratio as int,
                65536,
                8589934592int * (268435456int * 65536int),
            );
        }
        let viewport_width = mul_fx(viewport_height, ratio);

        let camera_up = Vector3::new(0, FX_ONE, 0);
        let w = unit_dir(look_from.sub(look_at), Vector3::new(0, 0, FX_ONE));
        let u = unit_dir(cross_product(camera_up, w), Vector3::new(FX_ONE, 0, 0));
        let v = cross_product(w, u);
        proof {
            lemma_cross_bound(w@, u@, FX_UNIT_LIMIT as int, FX_UNIT_LIMIT as int);
            lemma_vscale_bound(u@, viewport_width as int, FX_UNIT_LIMIT as int, 2305843009213693952);
            lemma_vscale_bound(vneg(v@), viewport_height as int, 2097152, 8589934592);
        }
        let viewport_u = u.mul_s(viewport_width);
        let viewport_v = v.neg().mul_s(viewport_height);
        proof {
            crate::vec::lemma_vdivs_denom_bound(
                viewport_u@,
                width_fx as int,
                9223372036854775808int,
                1048576,
            );
            crate::vec::lemma_vdivs_denom_bound(
                viewport_v@,
                height_fx as int,
                281474976710656int,
                65536,
            );
            lemma_vdivs_bound(viewport_u@, 131072, 9223372036854775808int);
            lemma_vdivs_bound(viewport_v@, 131072, 281474976710656int);
            lemma_vscale_bound(w@, focus_distance as int, FX_UNIT_LIMIT as int, 16777216);
        }
        let pixel_delta_u = viewport_u.div_s(width_fx);
        let pixel_delta_v = viewport_v.div_s(height_fx);
        let viewport_upper_left = look_from.sub(w.mul_s(focus_distance)).sub(
            viewport_u.div_s(2 * FX_ONE),
        ).sub(viewport_v.div_s(2 * FX_ONE));
        proof {
            lemma_vscale_bound(
                vadd(pixel_delta_u@, pixel_delta_v@),
                FX_HALF as int,
                618970019642690137449562112int,
                32768,
            );
        }
        let pixel00_loc = viewport_upper_left.add(
            (pixel_delta_u.add(pixel_delta_v)).mul_s(FX_HALF),
        );
        let tan_defocus = tan_half_deg(defocus_angle);
        proof {
            lemma_abs_mul(focus_distance as int, tan_defocus as int, 16777216, FX_TAN_MAX as int);
            lemma_tdiv_bound(
                focus_distance as int * tan_defocus as int,
                65536,
                16777216int * 16777216int,
            );
        }
        let defocus_radius = mul_fx(focus_distance, tan_defocus);
        proof {
            lemma_vscale_bound(u@, defocus_radius as int, FX_UNIT_LIMIT as int, 4294967296);
            lemma_vscale_bound(v@, defocus_radius as int, 2097152, 4294967296);
        }
        let defocus_disk_u = u.mul_s(defocus_radius);
        let defocus_disk_v = v.mul_s(defocus_radius);
        let spp_fx: i128 = (samples_per_pixel as i128) * 65536;
        let pixel_samples_scale = div_fx(FX_ONE, spp_fx);
        proof {
            lemma_tdiv_any_bound(65536int * 65536, spp_fx as int, 65536int * 65536int);
        }

        let height_candidate: i128 = if height_fx >= 0 {
            ((height_fx as u128) / 65536) as i128
        } else {
            0
        };

        let guard_ok = 1 <= height_candidate && height_candidate <= width as i128
            && pixel_delta_u.within(8589934592)
            && pixel_delta_v.within(8589934592)
            && delta_check(pixel_delta_u, width)
            && delta_check(pixel_delta_v, width)
            && pixel00_loc.within(34359738368)
            && 0 <= pixel_samples_scale && pixel_samples_scale <= FX_ONE
            && defocus_disk_u.within(1073741824)
            && defocus_disk_v.within(1073741824);

        if guard_ok {
            Camera {
                width,
                height: height_candidate as u32,
                center: look_from,
                samples_per_pixel,
                max_depth: 50,
                background,
                pixel_delta_u,
                pixel_delta_v,
                pixel00_loc,
                pixel_samples_scale,
                defocus: defocus_angle > 0,
                defocus_disk_u,
                defocus_disk_v,
            }
        } else {
            Camera {
                width: 16,
                height: 9,
                center: look_from,
                samples_per_pixel,
                max_depth: 50,
                background,
                pixel_delta_u: Vector3::zero(),
                pixel_delta_v: Vector3::zero(),
                pixel00_loc: Vector3::zero(),
                pixel_samples_scale: FX_ONE,
                defocus: false,
                defocus_disk_u: Vector3::zero(),
                defocus_disk_v: Vector3::zero(),
            }
        }
    }

    pub fn width(&self) -> (r: u32)
        ensures
            r == self.width,
    {
        self.width
    }

    pub fn height(&self) -> (r: u32)
        ensures
            r == self.height,
    {
        self.height
    }
}

/// The integrator's fixed validity range: from just past the bounce origin
/// out to the sentinel.
pub open spec fn shadow_interval() -> IvlI {
    IvlI { min: FX_SHADOW_EPS as int, max: FX_HUGE as int }
}

/// The integrator relation: the colors `ray_color` may return at a given
/// depth. At depth zero only black; on a miss only the background; on a hit,
/// the emission plus the attenuated color of a bounce that the material's
/// scattering relation admits, recursively admissible one level shallower —
/// or the emission alone where the material absorbs.
pub open spec fn ray_color_rel(
    cam: Camera,
    objs: Seq<WorldObject>,
    ray: Ray,
    depth: nat,
    out: Vec3i,
) -> bool
    decreases depth, 1int,
{
    if depth == 0 {
        out == (Vec3i { x: 0, y: 0, z: 0 })
    } else {
        match scan_hit_spec(objs, ray, shadow_interval()) {
            None => out == cam.background@,
            Some(h) => {
                ||| (scatter_admits(h.material, ray, h, None::<(Ray, Vector3)>) && out
                    == emitted_spec(h.material))
                ||| exists|b: Ray, a: Vector3, sub: Vec3i|
                    #![trigger scatter_admits(h.material, ray, h, Some((b, a))), vmulv(sub, a@)]
                    ray_color_bounce(cam, objs, ray, depth, h, b, a, sub, out)
            },
        }
    }
}

/// One admitted scattering bounce: the material admits the bounce ray and
/// attenuation, the sub-color is admissible one level shallower, and the
/// output is the emission plus the attenuated sub-color.
pub open spec fn ray_color_bounce(
    cam: Camera,
    objs: Seq<WorldObject>,
    ray: Ray,
    depth: nat,
    h: HitI,
    b: Ray,
    a: Vector3,
    sub: Vec3i,
    out: Vec3i,
) -> bool
    decreases depth, 0int,
{
    &&& depth >= 1
    &&& scatter_admits(h.material, ray, h, Some((b, a)))
    &&& ray_color_rel(cam, objs, b, (depth - 1) as nat, sub)
    &&& out == vadd(emitted_spec(h.material), vmulv(sub, a@))
}

/// A color one integrator sample may produce: admissible for some ray at
/// the camera's depth budget.
pub open spec fn sample_admissible(cam: Camera, objs: Seq<WorldObject>, s: Vec3i) -> bool {
    exists|ray: Ray| #[trigger] ray_color_rel(cam, objs, ray, cam.max_depth as nat, s)
}

/// A color that is the sum of `n` admissible integrator samples.
pub open spec fn sample_sum_ok(cam: Camera, objs: Seq<WorldObject>, n: nat, c: Vec3i) -> bool
    decreases n,
{
    if n == 0 {
        c == (Vec3i { x: 0, y: 0, z: 0 })
    } else {
        exists|prev: Vec3i, sample: Vec3i|
            #![trigger vadd(prev, sample)]
            sample_sum_ok(cam, objs, (n - 1) as nat, prev) && sample_admissible(cam, objs, sample)
                && c == vadd(prev, sample)
    }
}

/// The color accumulated over the background alone: every sample is the
/// background, so the sum is the sample count times each channel.
pub open spec fn background_sum(cam: Camera, n: int) -> Vec3i {
    Vec3i { x: n * cam.background@.x, y: n * cam.background@.y, z: n * cam.background@.z }
}

/// What every rendered pixel satisfies: the packed, tone-mapped value of a
/// sum of admissible samples under the camera's sample scale — pinned to
/// the packed background exactly when the scene is empty.
pub open spec fn pixel_ok(cam: Camera, objs: Seq<WorldObject>, pixel: u32) -> bool {
    &&& pixel <= 16777215
    &&& exists|c: Vec3i|
        sample_sum_ok(cam, objs, cam.samples_per_pixel as nat, c) && pixel
            == #[trigger] pack_spec(c, cam.pixel_samples_scale as int)
    &&& objs.len() == 0 ==> pixel == pack_spec(
        background_sum(cam, cam.samples_per_pixel as int),
        cam.pixel_samples_scale as int,
    )
}

/// One unfolding step of the integrator relation: a hit whose scatter
/// outcome is admitted, combined with an admissible sub-color, is
/// admissible one level deeper.
#[verifier::rlimit(100)]
proof fn lemma_ray_color_step(
    cam: Camera,
    objs: Seq<WorldObject>,
    ray: Ray,
    depth: nat,
    h: HitI,
    res: Option<(Ray, Vector3)>,
    sub: Vec3i,
    out: Vec3i,
)
    requires
        depth >= 1,
        scan_hit_spec(objs, ray, shadow_interval()) == Some(h),
        scatter_admits(h.material, ray, h, res),
        match res {
            Some(p) => ray_color_rel(cam, objs, p.0, (depth - 1) as nat, sub) && out == vadd(
                emitted_spec(h.material),
                vmulv(sub, p.1@),
            ),
            None => out == emitted_spec(h.material),
        },
    ensures
        ray_color_rel(cam, objs, ray, depth, out),
{
    let sh = scan_hit_spec(objs, ray, shadow_interval())->Some_0;
    assert(sh == h);
    match res {
        Some(p) => {
            assert(res == Some((p.0, p.1)));
            assert(scatter_admits(sh.material, ray, sh, Some((p.0, p.1))));
            assert(ray_color_bounce(cam, objs, ray, depth, sh, p.0, p.1, sub, out));
            assert(out == vadd(emitted_spec(sh.material), vmulv(sub, p.1@)));
            assert(ray_color_rel(cam, objs, ray, depth, out));
        },
        None => {
            assert(scatter_admits(sh.material, ray, sh, None::<(Ray, Vector3)>));
            assert(out == emitted_spec(sh.material));
            assert(ray_color_rel(cam, objs, ray, depth, out));
        },
    }
}

/// At a depth budget of one, a hit on a non-emissive material contributes
/// nothing: the bounce is cut off at depth zero, so the sample is the
/// emission alone — black. This is the integrator's own base case; the
/// attenuation color becomes visible only one bounce deeper, against a
/// lit background.
pub proof fn lemma_depth_one_is_emission(
    cam: Camera,
    objs: Seq<WorldObject>,
    ray: Ray,
    out: Vec3i,
)
    requires
        ray_color_rel(cam, objs, ray, 1, out),
        scan_hit_spec(objs, ray, shadow_interval()) is Some,
    ensures
        out == emitted_spec(scan_hit_spec(objs, ray, shadow_interval())->Some_0.material),
{
    let h = scan_hit_spec(objs, ray, shadow_interval())->Some_0;
    if !(scatter_admits(h.material, ray, h, None::<(Ray, Vector3)>) && out == emitted_spec(
        h.material,
    )) {
        let (b, a, sub) = choose|b: Ray, a: Vector3, sub: Vec3i|
            #![trigger scatter_admits(h.material, ray, h, Some((b, a))), vmulv(sub, a@)]
            ray_color_bounce(cam, objs, ray, 1, h, b, a, sub, out);
        assert(sub == (Vec3i { x: 0, y: 0, z: 0 }));
        assert(vmulv(sub, a@) == (Vec3i { x: 0, y: 0, z: 0 })) by {
            assert(tdiv(0, 65536) == 0);
        }
    }
}

/// A pixel delta scaled by an in-range sample coordinate stays within the
/// sampling budget.
proof fn lemma_delta_scale(d: Vec3i, n: int, t: int)
    requires
        vec_in(d, 8589934592),
        delta_ok(d, n),
        1 <= n <= 4096,
        -65536 <= t,
        t <= n * 65536,
    ensures
        vec_in(vscale(d, t), 8589934592),
{
    assert(abs_i(d.x * t) <= (abs_i(d.x) * n) * 65536 && abs_i(d.y * t) <= (abs_i(d.y) * n) * 65536
        && abs_i(d.z * t) <= (abs_i(d.z) * n) * 65536) by (nonlinear_arith)
        requires
            1 <= n,
            -65536 <= t <= n * 65536,
            -8589934592 <= d.x <= 8589934592,
            -8589934592 <= d.y <= 8589934592,
            -8589934592 <= d.z <= 8589934592,
    ;
    lemma_tdiv_bound(d.x * t, 65536, 8589934592int * 65536int);
    lemma_tdiv_bound(d.y * t, 65536, 8589934592int * 65536int);
    lemma_tdiv_bound(d.z * t, 65536, 8589934592int * 65536int);
}

/// An attenuated nonnegative color stays nonnegative and within its bound.
proof fn lemma_attenuate(c: Vec3i, a: Vec3i, bound: int)
    requires
        0 <= bound,
        0 <= c.x <= bound,
        0 <= c.y <= bound,
        0 <= c.z <= bound,
        color01(a),
    ensures
        0 <= vmulv(c, a).x <= bound,
        0 <= vmulv(c, a).y <= bound,
        0 <= vmulv(c, a).z <= bound,
{
    assert(0 <= c.x * a.x <= bound * 65536 && 0 <= c.y * a.y <= bound * 65536 && 0 <= c.z * a.z
        <= bound * 65536) by (nonlinear_arith)
        requires
            0 <= c.x <= bound,
            0 <= c.y <= bound,
            0 <= c.z <= bound,
            0 <= a.x <= 65536,
            0 <= a.y <= 65536,
            0 <= a.z <= 65536,
    ;
    lemma_tdiv_bound(c.x * a.x, 65536, bound * 65536);
    lemma_tdiv_bound(c.y * a.y, 65536, bound * 65536);
    lemma_tdiv_bound(c.z * a.z, 65536, bound * 65536);
    vstd::arithmetic::div_mod::lemma_div_pos_is_pos(c.x * a.x, 65536);
    vstd::arithmetic::div_mod::lemma_div_pos_is_pos(c.y * a.y, 65536);
    vstd::arithmetic::div_mod::lemma_div_pos_is_pos(c.z * a.z, 65536);
}

/// A drawn planar offset lies strictly inside the unit disk.
pub open spec fn in_unit_disk(px: int, py: int) -> bool {
    &&& -(FX_ONE as int) <= px <= FX_ONE as int
    &&& -(FX_ONE as int) <= py <= FX_ONE as int
    &&& dot_spec(Vec3i { x: px, y: py, z: 0 }, Vec3i { x: px, y: py, z: 0 }) < FX_ONE as int
}

/// The camera origin displaced along the defocus disk by an in-disk draw.
pub open spec fn disk_origin_spec(c: Camera, px: int, py: int) -> Vec3i {
    vadd(vadd(c.center@, vscale(c.defocus_disk_u@, px)), vscale(c.defocus_disk_v@, py))
}

impl Camera {
    /// A point on the defocus disk around the camera center.
    fn defocus_disk_sample(&self) -> (r: Vector3)
        requires
            camera_wf(*self),
        ensures
            vec_in(r@, 8589934592),
            exists|px: int, py: int|
                in_unit_disk(px, py) && r@ == #[trigger] disk_origin_spec(*self, px, py),
    {
        let point = crate::vec::random_in_unit_disk();
        proof {
            lemma_vscale_bound(self.defocus_disk_u@, point@.x, 1073741824, 65536);
            lemma_vscale_bound(self.defocus_disk_v@, point@.y, 1073741824, 65536);
        }
        let r = self.center.add(self.defocus_disk_u.mul_s(point.x())).add(
            self.defocus_disk_v.mul_s(point.y()),
        );
        proof {
            assert(r@ == disk_origin_spec(*self, point@.x, point@.y));
        }
        r
    }

    /// The jittered camera ray through pixel (i, j): the pixel center is
    /// offset by a uniform draw in [-0.5, 0.5) on each image axis, and the
    /// origin sits on the defocus disk when depth of field is enabled.
    pub fn get_ray(&self, i: u32, j: u32) -> (r: Ray)
        requires
            camera_wf(*self),
            i < self.width,
            j < self.height,
        ensures
            ray_wf(r),
            !self.defocus ==> r.origin == self.center,
            self.defocus ==> exists|px: int, py: int|
                in_unit_disk(px, py) && r.origin@ == #[trigger] disk_origin_spec(*self, px, py),
            exists|ox: int, oy: int|
                -(FX_HALF as int) <= ox < FX_HALF as int && -(FX_HALF as int) <= oy < FX_HALF as int
                    && r.direction@ == #[trigger] vsub(
                    vadd(
                        vadd(
                            self.pixel00_loc@,
                            vscale(self.pixel_delta_u@, (i as int) * 65536 + ox),
                        ),
                        vscale(self.pixel_delta_v@, (j as int) * 65536 + oy),
                    ),
                    r.origin@,
                ),
    {
        let offset = sample_square();
        let ti: i128 = (i as i128) * 65536 + offset.x();
        let tj: i128 = (j as i128) * 65536 + offset.y();
        proof {
            lemma_delta_scale(self.pixel_delta_u@, self.width as int, ti as int);
            lemma_delta_scale(self.pixel_delta_v@, self.width as int, tj as int);
        }
        let pixel_sample_center = self.pixel00_loc.add(self.pixel_delta_u.mul_s(ti)).add(
            self.pixel_delta_v.mul_s(tj),
        );
        let origin = if self.defocus {
            self.defocus_disk_sample()
        } else {
            self.center
        };
        Ray::new(origin, pixel_sample_center.sub(origin))
    }

    /// One path-traced sample: the nearest hit's emission plus the
    /// attenuated recursive bounce, black at the depth budget, and the
    /// background where the ray escapes the scene.
    #[verifier::rlimit(100)]
    pub fn ray_color(&self, world: &World, ray: &Ray, depth: u32) -> (r: Vector3)
        requires
            camera_wf(*self),
            world_wf(*world),
            ray_wf(*ray),
            depth <= 64,
        ensures
            0 <= r@.x <= depth * (FX_EMIT_LIMIT as int),
            0 <= r@.y <= depth * (FX_EMIT_LIMIT as int),
            0 <= r@.z <= depth * (FX_EMIT_LIMIT as int),
            depth == 0 ==> r@ == (Vec3i { x: 0, y: 0, z: 0 }),
            depth > 0 && scan_hit_spec(
                world.objects@,
                *ray,
                IvlI { min: FX_SHADOW_EPS as int, max: FX_HUGE as int },
            ) is None ==> r == self.background,
            depth > 0 ==> match scan_hit_spec(
                world.objects@,
                *ray,
                IvlI { min: FX_SHADOW_EPS as int, max: FX_HUGE as int },
            ) {
                Some(h) => h.material is Light ==> r@ == emitted_spec(h.material),
                None => r == self.background,
            },
            ray_color_rel(*self, world.objects@, *ray, depth as nat, r@),
        decreases depth,
    {
        if depth == 0 {
            return Vector3::zero();
        }
        let interval = Interval::new(FX_SHADOW_EPS, FX_HUGE);
        let hit = world.hit(ray, interval);
        match hit {
            Some(hit) => {
                let material = hit.material();
                let emitted = material.emitted(hit.point());
                let bounce = material.scatter(ray, &hit);
                match bounce {
                    Some((bounce_ray, attenuation)) => {
                        let rec = self.ray_color(world, &bounce_ray, depth - 1);
                        proof {
                            lemma_attenuate(
                                rec@,
                                attenuation@,
                                (depth - 1) * (FX_EMIT_LIMIT as int),
                            );
                        }
                        let out = emitted.add(rec.mul_v(attenuation));
                        proof {
                            assert(bounce->Some_0.0 == bounce_ray);
                            assert(bounce->Some_0.1 == attenuation);
                            lemma_ray_color_step(
                                *self,
                                world.objects@,
                                *ray,
                                depth as nat,
                                hit@,
                                bounce,
                                rec@,
                                out@,
                            );
                        }
                        out
                    },
                    None => {
                        proof {
                            lemma_ray_color_step(
                                *self,
                                world.objects@,
                                *ray,
                                depth as nat,
                                hit@,
                                bounce,
                                Vec3i { x: 0, y: 0, z: 0 },
                                emitted@,
                            );
                        }
                        emitted
                    },
                }
            },
            None => self.background,
        }
    }

    /// Renders one image row: each pixel is the packed, tone-mapped value
    /// of a sum of admissible integrator samples — and exactly the packed
    /// background where the scene is empty.
    #[verifier::loop_isolation(false)]
    pub fn render_row(&self, world: &World, j: u32) -> (r: Vec<u32>)
        requires
            camera_wf(*self),
            world_wf(*world),
            j < self.height,
        ensures
            r@.len() == self.width,
            forall|k: int| 0 <= k < r@.len() ==> pixel_ok(*self, world.objects@, #[trigger] r@[k]),
    {
        let mut row: Vec<u32> = Vec::new();
        let mut i: u32 = 0;
        while i < self.width
            invariant
                i <= self.width,
                row@.len() == i,
                forall|k: int|
                    0 <= k < row@.len() ==> pixel_ok(*self, world.objects@, #[trigger] row@[k]),
            decreases self.width - i,
        {
            let mut color = Vector3::zero();
            let mut s: u32 = 0;
            while s < self.samples_per_pixel
                invariant
                    s <= self.samples_per_pixel,
                    i < self.width,
                    0 <= color@.x <= (s as int) * (64 * (FX_EMIT_LIMIT as int)),
                    0 <= color@.y <= (s as int) * (64 * (FX_EMIT_LIMIT as int)),
                    0 <= color@.z <= (s as int) * (64 * (FX_EMIT_LIMIT as int)),
                    sample_sum_ok(*self, world.objects@, s as nat, color@),
                    world.objects@.len() == 0 ==> color@ == background_sum(*self, s as int),
                decreases self.samples_per_pixel - s,
            {
                let ray = self.get_ray(i, j);
                let sample = self.ray_color(world, &ray, self.max_depth);
                proof {
                    assert(sample_admissible(*self, world.objects@, sample@));
                }
                let ghost prev = color@;
                color = color.add(sample);
                proof {
                    assert(color@ == vadd(prev, sample@));
                    assert(sample_sum_ok(*self, world.objects@, (s + 1) as nat, color@));
                    if world.objects@.len() == 0 {
                        assert(sample == self.background);
                        assert((s as int + 1) * self.background@.x == (s as int)
                            * self.background@.x + self.background@.x && (s as int + 1)
                            * self.background@.y == (s as int) * self.background@.y
                            + self.background@.y && (s as int + 1) * self.background@.z == (
                        s as int) * self.background@.z + self.background@.z) by (nonlinear_arith);
                        assert(color@ == background_sum(*self, s as int + 1));
                    }
                }
                s += 1;
            }
            let pixel = pack_color(color, self.pixel_samples_scale);
            proof {
                assert(pixel == pack_spec(color@, self.pixel_samples_scale as int));
                assert(pixel_ok(*self, world.objects@, pixel));
            }
            row.push(pixel);
            i += 1;
        }
        row
    }

    /// Renders the whole image into the row-major frame buffer: one packed
    /// pixel per entry, each the tone-mapped value of a sum of admissible
    /// integrator samples — and exactly the packed background where the
    /// scene is empty.
    #[verifier::loop_isolation(false)]
    pub fn render(&self, world: &World, frame_buffer: &mut Vec<u32>)
        requires
            camera_wf(*self),
            world_wf(*world),
            old(frame_buffer)@.len() == (self.width as int) * (self.height as int),
        ensures
            final(frame_buffer)@.len() == old(frame_buffer)@.len(),
            forall|k: int|
                0 <= k < final(frame_buffer)@.len() ==> pixel_ok(
                    *self,
                    world.objects@,
                    #[trigger] final(frame_buffer)@[k],
                ),
    {
        let mut buffer: Vec<u32> = Vec::new();
        let mut j: u32 = 0;
        while j < self.height
            invariant
                j <= self.height,
                buffer@.len() == (j as int) * (self.width as int),
                forall|k: int|
                    0 <= k < buffer@.len() ==> pixel_ok(
                        *self,
                        world.objects@,
                        #[trigger] buffer@[k],
                    ),
            decreases self.height - j,
        {
            let ghost before = buffer@;
            let mut row = self.render_row(world, j);
            let ghost row_view = row@;
            buffer.append(&mut row);
            proof {
                assert((j as int + 1) * (self.width as int) == (j as int) * (self.width as int)
                    + self.width as int) by (nonlinear_arith);
                assert(forall|k: int|
                    0 <= k < buffer@.len() ==> pixel_ok(
                        *self,
                        world.objects@,
                        #[trigger] buffer@[k],
                    )) by {
                    assert(forall|k: int|
                        0 <= k < buffer@.len() ==> buffer@[k] == if k < before.len() {
                            before[k]
                        } else {
                            row_view[k - before.len()]
                        });
                }
            }
            j += 1;
        }
        proof {
            assert((self.height as int) * (self.width as int) == (self.width as int) * (
            self.height as int)) by (nonlinear_arith);
        }
        *frame_buffer = buffer;
    }
}

/// Range check for one pixel delta against the pixel count.
fn delta_check(d: Vector3, width: u32) -> (r: bool)
    requires
        vec_in(d@, 9223372036854775808int * 65536),
        width <= 4096,
    ensures
        r == delta_ok(d@, width as int),
{
    let w = width as i128;
    let ax = if d.x >= 0 { d.x } else { -d.x };
    let ay = if d.y >= 0 { d.y } else { -d.y };
    let az = if d.z >= 0 { d.z } else { -d.z };
    proof {
        lemma_abs_mul(ax as int, w as int, 9223372036854775808int * 65536, 4096);
        lemma_abs_mul(ay as int, w as int, 9223372036854775808int * 65536, 4096);
        lemma_abs_mul(az as int, w as int, 9223372036854775808int * 65536, 4096);
    }
    ax * w <= 8589934592 && ay * w <= 8589934592 && az * w <= 8589934592
}

} // verus!
