//! The camera: viewport and lens derivation from configuration, and
//! per-sample jittered ray generation.

use vstd::prelude::*;
use crate::fixed::{
    SCALE, div_tz, fxabs, fx_mul_spec, fx_div_spec, fx_mul, fx_div, div_count,
    lemma_fx_mul_bounded, lemma_fx_mul_nonneg, lemma_fx_div_ratio_bound, lemma_fx_div_shrinks,
    lemma_delta_span, lemma_span_term, lemma_div_tz_bounded,
};
use crate::point3d::{
    Point3D, Vec3S, vadd, vsub, vneg, vscale, vdot, vdiv, vcross, vunit, vbounded,
    };
use crate::ray::{Ray, RayS};
use crate::rng::{Rng, rng_next_spec, rng_unit_spec};
use crate::hittable::{COORD_MAX, ray_wf};
use crate::trig::{d2r_spec, tan_fx_spec, degrees_to_radians as d2r_fn, tan_fx};
use vstd::arithmetic::div_mod::{
    lemma_fundamental_div_mod, lemma_div_pos_is_pos, lemma_multiply_divide_lt,
};

verus! {

/// Half of one, at the fixed scale.
pub const HALF_FX: i64 = 524288;

/// The mathematical value of the camera's counting data.
pub ghost struct StatsS {
    pub aspect_ratio: int,
    pub image_height: int,
    pub image_width: int,
    pub samples_per_pixel: int,
    pub max_depth: int,
}

/// The mathematical value of the camera's viewport data.
pub ghost struct ViewS {
    pub center: Vec3S,
    pub pixel00_loc: Vec3S,
    pub pixel_delta_u: Vec3S,
    pub pixel_delta_v: Vec3S,
    pub vfov: int,
    pub lookfrom: Vec3S,
    pub lookat: Vec3S,
    pub vup: Vec3S,
    pub focus_dist: int,
}

/// The mathematical value of the camera's lens data.
pub ghost struct FocusS {
    pub defocus_angle: int,
    pub defocus_disk_u: Vec3S,
    pub defocus_disk_v: Vec3S,
}

/// The mathematical value of a camera.
pub ghost struct CamS {
    pub stats: StatsS,
    pub view: ViewS,
    pub focus: FocusS,
}

/// What the counting data satisfies: bounded dimensions and counts, and the
/// height consistent with the width and aspect ratio, so that the viewport
/// ratio stays bounded.
pub open spec fn stats_wf(s: StatsS) -> bool {
    &&& 131072 <= s.aspect_ratio <= 8388608
    &&& 1 <= s.image_width <= 4096
    &&& 1 <= s.image_height <= 32768
    &&& 1 <= s.samples_per_pixel <= 65536
    &&& 0 <= s.max_depth
    &&& s.image_width * (SCALE as int) < s.aspect_ratio * (s.image_height + 2)
}

/// What the viewport data satisfies: the configuration within the scene
/// bounds, a genuine viewing direction and up vector, and the derived points
/// small enough for ray generation.
pub open spec fn view_wf(v: ViewS) -> bool {
    &&& vbounded(v.center, 0x80000000)
    &&& vbounded(v.pixel00_loc, 0x1000000000)
    &&& SCALE as int <= v.vfov <= 120 * (SCALE as int)
    &&& vbounded(v.lookfrom, COORD_MAX as int)
    &&& vbounded(v.lookat, COORD_MAX as int)
    &&& vbounded(v.vup, COORD_MAX as int)
    &&& 65536 <= v.focus_dist <= 0x8000000
    &&& vdot(vsub(v.lookfrom, v.lookat), vsub(v.lookfrom, v.lookat)) > 0
    &&& vdot(
        vcross(v.vup, vunit(vsub(v.lookfrom, v.lookat))),
        vcross(v.vup, vunit(vsub(v.lookfrom, v.lookat))),
    ) > 0
}

/// The pixel deltas, multiplied across the whole image, stay within the
/// span a ray may use.
pub open spec fn view_spans(v: ViewS, width: int, height: int) -> bool {
    &&& fxabs(v.pixel_delta_u.x) * width <= 0x1000000000
    &&& fxabs(v.pixel_delta_u.y) * width <= 0x1000000000
    &&& fxabs(v.pixel_delta_u.z) * width <= 0x1000000000
    &&& fxabs(v.pixel_delta_v.x) * height <= 0x1000000000
    &&& fxabs(v.pixel_delta_v.y) * height <= 0x1000000000
    &&& fxabs(v.pixel_delta_v.z) * height <= 0x1000000000
}

/// What the lens data satisfies.
pub open spec fn focus_wf(f: FocusS) -> bool {
    &&& 0 <= f.defocus_angle <= 120 * (SCALE as int)
    &&& vbounded(f.defocus_disk_u, 0x100000000)
    &&& vbounded(f.defocus_disk_v, 0x100000000)
}

/// What a whole camera satisfies.
pub open spec fn camera_wf(c: CamS) -> bool {
    &&& stats_wf(c.stats)
    &&& view_wf(c.view)
    &&& view_spans(c.view, c.stats.image_width, c.stats.image_height)
    &&& focus_wf(c.focus)
}

/// The image height derived from width and aspect ratio: the floor of their
/// quotient, at least one.
pub open spec fn height_spec(aspect: int, width: int) -> int {
    let hfx = fx_div_spec(width * (SCALE as int), aspect);
    let h = div_tz(hfx, SCALE as int);
    if h < 1 {
        1
    } else {
        h
    }
}

/// The derived height is consistent with the aspect ratio: the width at full
/// scale stays under `aspect * (height + 2)`.
proof fn lemma_height_fits(wfx: int, aspect: int, hfx: int, hq: int)
    requires
        aspect > 0,
        wfx >= 0,
        hfx == fx_div_spec(wfx, aspect),
        hq == div_tz(hfx, SCALE as int),
    ensures
        0 <= hq,
        wfx < aspect * (hq + 2),
{
    let s = SCALE as int;
    assert(0 <= wfx * s) by (nonlinear_arith)
        requires
            wfx >= 0,
            s == 1048576,
    ;
    lemma_div_pos_is_pos(wfx * s, aspect);
    lemma_div_pos_is_pos(hfx, s);
    lemma_fundamental_div_mod(wfx * s, aspect);
    lemma_fundamental_div_mod(hfx, s);
    assert(wfx * s < aspect * (hfx + 1)) by (nonlinear_arith)
        requires
            aspect > 0,
            wfx * s == aspect * ((wfx * s) / aspect) + (wfx * s) % aspect,
            0 <= (wfx * s) % aspect < aspect,
            hfx == (wfx * s) / aspect,
    ;
    assert(hfx + 1 <= s * (hq + 1)) by (nonlinear_arith)
        requires
            s == 1048576,
            hfx == s * (hfx / s) + hfx % s,
            0 <= hfx % s < s,
            hq == hfx / s,
    ;
    assert(wfx < aspect * (hq + 2)) by (nonlinear_arith)
        requires
            s == 1048576,
            aspect > 0,
            wfx * s < aspect * (hfx + 1),
            hfx + 1 <= s * (hq + 1),
    ;
}

/// Counting data: image dimensions, sampling and bounce budget.
#[derive(Clone, Copy)]
pub struct CameraStats {
    aspect_ratio: i64,
    image_height: usize,
    image_width: usize,
    samples_per_pixel: usize,
    max_depth: usize,
}

impl View for CameraStats {
    type V = StatsS;

    closed spec fn view(&self) -> StatsS {
        StatsS {
            aspect_ratio: self.aspect_ratio as int,
            image_height: self.image_height as int,
            image_width: self.image_width as int,
            samples_per_pixel: self.samples_per_pixel as int,
            max_depth: self.max_depth as int,
        }
    }
}

impl CameraStats {
    /// Counting data from configuration: the height is the width over the
    /// aspect ratio, floored, and at least one.
    pub fn new(aspect_ratio: i64, image_width: usize, samples_per_pixel: usize, max_depth: usize)
        -> (r: CameraStats)
        requires
            131072 <= aspect_ratio <= 8388608,
            1 <= image_width <= 4096,
            1 <= samples_per_pixel <= 65536,
        ensures
            r@ == (StatsS {
                aspect_ratio: aspect_ratio as int,
                image_height: height_spec(aspect_ratio as int, image_width as int),
                image_width: image_width as int,
                samples_per_pixel: samples_per_pixel as int,
                max_depth: max_depth as int,
            }),
            stats_wf(r@),
    {
        let wfx: i64 = (image_width as i64) * SCALE;
        proof {
            assert(fxabs(wfx as int) <= 32768 * (aspect_ratio as int)) by (nonlinear_arith)
                requires
                    wfx == (image_width as int) * 1048576,
                    1 <= image_width <= 4096,
                    aspect_ratio >= 131072,
            ;
            lemma_fx_div_ratio_bound(wfx as int, aspect_ratio as int, 32768);
        }
        let hfx = fx_div(wfx, aspect_ratio);
        proof {
            assert(0 <= (wfx as int) * (SCALE as int)) by (nonlinear_arith)
                requires
                    wfx >= 0,
            ;
            lemma_div_pos_is_pos((wfx as int) * (SCALE as int), aspect_ratio as int);
            lemma_div_tz_bounded(hfx as int, SCALE as int, 32768 * (SCALE as int));
            assert((32768 * (SCALE as int)) / (SCALE as int) == 32768) by (nonlinear_arith)
                requires
                    SCALE == 1048576,
            ;
            lemma_height_fits(wfx as int, aspect_ratio as int, hfx as int, div_tz(hfx as int, SCALE as int));
        }
        let hq = div_count(hfx, SCALE);
        let image_height = if hq < 1 {
            1
        } else {
            hq as usize
        };
        proof {
            assert((image_width as int) * (SCALE as int) < (aspect_ratio as int) * (
            image_height as int + 2)) by (nonlinear_arith)
                requires
                    wfx == (image_width as int) * 1048576,
                    SCALE == 1048576,
                    aspect_ratio > 0,
                    wfx < (aspect_ratio as int) * (hq + 2),
                    image_height as int >= hq,
            ;
        }
        CameraStats { aspect_ratio, image_height, image_width, samples_per_pixel, max_depth }
    }

    pub fn max_depth(&self) -> (r: usize)
        ensures
            r == self@.max_depth,
    {
        self.max_depth
    }

    pub fn height(&self) -> (r: usize)
        ensures
            r == self@.image_height,
    {
        self.image_height
    }

    pub fn width(&self) -> (r: usize)
        ensures
            r == self@.image_width,
    {
        self.image_width
    }

    pub fn samples_per_pixel(&self) -> (r: usize)
        ensures
            r == self@.samples_per_pixel,
    {
        self.samples_per_pixel
    }
}

/// The derived viewport of a camera, mirrored over the mathematical values:
/// basis from the look direction, viewport edges from the field of view and
/// focus distance, pixel deltas and the first pixel's center from those.
pub open spec fn view_new_spec(
    stats: StatsS,
    vfov: int,
    lookfrom: Vec3S,
    lookat: Vec3S,
    vup: Vec3S,
    focus_dist: int,
) -> ViewS {
    let s = SCALE as int;
    let theta = d2r_spec(vfov);
    let h = tan_fx_spec(div_tz(theta, 2));
    let viewport_height = fx_mul_spec(fx_mul_spec(2 * s, h), focus_dist);
    let ratio = fx_div_spec(stats.image_width * s, stats.image_height * s);
    let viewport_width = fx_mul_spec(viewport_height, ratio);
    let w = vunit(vsub(lookfrom, lookat));
    let u = vunit(vcross(vup, w));
    let v = vcross(w, u);
    let viewport_u = vscale(u, viewport_width);
    let viewport_v = vscale(vneg(v), viewport_height);
    let du = vdiv(viewport_u, stats.image_width * s);
    let dv = vdiv(viewport_v, stats.image_height * s);
    let upper_left = vsub(
        vsub(vsub(lookfrom, vscale(w, focus_dist)), vdiv(viewport_u, 2 * s)),
        vdiv(viewport_v, 2 * s),
    );
    let pixel00 = vadd(upper_left, vscale(vadd(du, dv), HALF_FX as int));
    ViewS {
        center: lookfrom,
        pixel00_loc: pixel00,
        pixel_delta_u: du,
        pixel_delta_v: dv,
        vfov: vfov,
        lookfrom: lookfrom,
        lookat: lookat,
        vup: vup,
        focus_dist: focus_dist,
    }
}

/// Viewport data: camera center, pixel grid and the configuration it came
/// from.
#[derive(Clone, Copy)]
pub struct CameraView {
    center: Point3D,
    pixel00_loc: Point3D,
    pixel_delta_u: Point3D,
    pixel_delta_v: Point3D,
    vfov: i64,
    lookfrom: Point3D,
    lookat: Point3D,
    vup: Point3D,
    focus_dist: i64,
}

impl View for CameraView {
    type V = ViewS;

    closed spec fn view(&self) -> ViewS {
        ViewS {
            center: self.center@,
            pixel00_loc: self.pixel00_loc@,
            pixel_delta_u: self.pixel_delta_u@,
            pixel_delta_v: self.pixel_delta_v@,
            vfov: self.vfov as int,
            lookfrom: self.lookfrom@,
            lookat: self.lookat@,
            vup: self.vup@,
            focus_dist: self.focus_dist as int,
        }
    }
}

impl CameraView {
    /// The viewport derived once from configuration. The camera must look
    /// somewhere (`lookfrom != lookat` at this scale) and the up direction
    /// must not be parallel to the viewing direction.
    pub fn new(
        stats: CameraStats,
        vfov: i64,
        lookfrom: Point3D,
        lookat: Point3D,
        vup: Point3D,
        focus_dist: i64,
    ) -> (r: CameraView)
        requires
            stats_wf(stats@),
            SCALE as int <= vfov as int <= 120 * (SCALE as int),
            vbounded(lookfrom@, COORD_MAX as int),
            vbounded(lookat@, COORD_MAX as int),
            vbounded(vup@, COORD_MAX as int),
            65536 <= focus_dist <= 0x8000000,
            vdot(vsub(lookfrom@, lookat@), vsub(lookfrom@, lookat@)) > 0,
            vdot(
                vcross(vup@, vunit(vsub(lookfrom@, lookat@))),
                vcross(vup@, vunit(vsub(lookfrom@, lookat@))),
            ) > 0,
        ensures
            r@ == view_new_spec(
                stats@,
                vfov as int,
                lookfrom@,
                lookat@,
                vup@,
                focus_dist as int,
            ),
            view_wf(r@),
            view_spans(r@, stats@.image_width, stats@.image_height),
    {
        let center = lookfrom;

        // Viewport dimensions from the field of view and the focus distance.
        let theta = d2r_fn(vfov);
        let half_theta = div_count(theta, 2);
        proof {
            crate::fixed::lemma_div_tz_bounded(theta as int, 2, 2196133);
        }
        let h = tan_fx(half_theta);
        proof {
            let s = SCALE as int;
            lemma_fx_mul_nonneg(2 * s, h as int);
            lemma_fx_mul_bounded(2 * s, h as int, 2 * s, 2445912);
            assert(((2 * s) * 2445912) / s == 4891824) by (nonlinear_arith)
                requires
                    s == 1048576,
            ;
        }
        let vh2 = fx_mul(2 * SCALE, h);
        proof {
            let s = SCALE as int;
            lemma_fx_mul_nonneg(vh2 as int, focus_dist as int);
            lemma_fx_mul_bounded(vh2 as int, focus_dist as int, 4891824, 0x8000000);
            assert((4891824int * 0x8000000) / s == 626153472) by (nonlinear_arith)
                requires
                    s == 1048576,
            ;
        }
        let viewport_height = fx_mul(vh2, focus_dist);
        let wpx: i64 = stats.width() as i64;
        let hpx: i64 = stats.height() as i64;
        proof {
            let s = SCALE as int;
            let a = stats@.aspect_ratio;
            assert(0 <= ((wpx as int) * s) * s) by (nonlinear_arith)
                requires
                    wpx >= 1,
                    s == 1048576,
            ;
            lemma_div_pos_is_pos(((wpx as int) * s) * s, (hpx as int) * s);
            assert(((wpx as int) * s) * s < ((hpx as int) * s) * (3 * a)) by (nonlinear_arith)
                requires
                    s == 1048576,
                    (wpx as int) * s < a * ((hpx as int) + 2),
                    hpx >= 1,
                    a > 0,
            ;
            lemma_multiply_divide_lt(((wpx as int) * s) * s, (hpx as int) * s, 3 * a);
            assert(3 * a <= 25165824);
        }
        let ratio = fx_div(wpx * SCALE, hpx * SCALE);
        proof {
            let s = SCALE as int;
            lemma_fx_mul_nonneg(viewport_height as int, ratio as int);
            lemma_fx_mul_bounded(viewport_height as int, ratio as int, 626153472, 25165824);
            assert((626153472int * 25165824) / s == 15027683328) by (nonlinear_arith)
                requires
                    s == 1048576,
            ;
        }
        let viewport_width = fx_mul(viewport_height, ratio);

        // The orthonormal-ish camera frame.
        let w = lookfrom.sub(&lookat).unit_vector();
        let cr = vup.cross(&w);
        proof {
            let s = SCALE as int;
            let c = COORD_MAX as int;
            lemma_fx_mul_bounded(vup@.x, w@.y, c, 2 * s);
            lemma_fx_mul_bounded(vup@.x, w@.z, c, 2 * s);
            lemma_fx_mul_bounded(vup@.y, w@.x, c, 2 * s);
            lemma_fx_mul_bounded(vup@.y, w@.z, c, 2 * s);
            lemma_fx_mul_bounded(vup@.z, w@.x, c, 2 * s);
            lemma_fx_mul_bounded(vup@.z, w@.y, c, 2 * s);
            assert((c * (2 * s)) / s == 0x80000000) by (nonlinear_arith)
                requires
                    s == 1048576,
                    c == 0x40000000,
            ;
        }
        let u = cr.unit_vector();
        let v = w.cross(&u);
        proof {
            let s = SCALE as int;
            lemma_fx_mul_bounded(u@.x, viewport_width as int, 2 * s, 15027683328);
            lemma_fx_mul_bounded(u@.y, viewport_width as int, 2 * s, 15027683328);
            lemma_fx_mul_bounded(u@.z, viewport_width as int, 2 * s, 15027683328);
            assert(((2 * s) * 15027683328) / s == 30055366656) by (nonlinear_arith)
                requires
                    s == 1048576,
            ;
            // the cross of two unit-ish vectors stays within nine
            lemma_fx_mul_bounded(w@.x, u@.y, 2 * s, 2 * s);
            lemma_fx_mul_bounded(w@.x, u@.z, 2 * s, 2 * s);
            lemma_fx_mul_bounded(w@.y, u@.x, 2 * s, 2 * s);
            lemma_fx_mul_bounded(w@.y, u@.z, 2 * s, 2 * s);
            lemma_fx_mul_bounded(w@.z, u@.x, 2 * s, 2 * s);
            lemma_fx_mul_bounded(w@.z, u@.y, 2 * s, 2 * s);
            assert(((2 * s) * (2 * s)) / s == 4 * s) by (nonlinear_arith)
                requires
                    s == 1048576,
            ;
            lemma_fx_mul_bounded(-v@.x, viewport_height as int, 9 * s, 626153472);
            lemma_fx_mul_bounded(-v@.y, viewport_height as int, 9 * s, 626153472);
            lemma_fx_mul_bounded(-v@.z, viewport_height as int, 9 * s, 626153472);
            assert(((9 * s) * 626153472) / s == 5635381248) by (nonlinear_arith)
                requires
                    s == 1048576,
            ;
        }

        // Viewport edge vectors, pixel deltas, and the first pixel's center.
        let viewport_u = u.scale(viewport_width);
        let viewport_v = v.neg().scale(viewport_height);
        proof {
            lemma_fx_div_shrinks(viewport_u@.x, (wpx as int) * (SCALE as int));
            lemma_fx_div_shrinks(viewport_u@.y, (wpx as int) * (SCALE as int));
            lemma_fx_div_shrinks(viewport_u@.z, (wpx as int) * (SCALE as int));
            lemma_fx_div_shrinks(viewport_v@.x, (hpx as int) * (SCALE as int));
            lemma_fx_div_shrinks(viewport_v@.y, (hpx as int) * (SCALE as int));
            lemma_fx_div_shrinks(viewport_v@.z, (hpx as int) * (SCALE as int));
            lemma_delta_span(viewport_u@.x, wpx as int);
            lemma_delta_span(viewport_u@.y, wpx as int);
            lemma_delta_span(viewport_u@.z, wpx as int);
            lemma_delta_span(viewport_v@.x, hpx as int);
            lemma_delta_span(viewport_v@.y, hpx as int);
            lemma_delta_span(viewport_v@.z, hpx as int);
            assert((wpx as int) * (SCALE as int) >= SCALE as int) by (nonlinear_arith)
                requires
                    wpx >= 1,
                    SCALE == 1048576,
            ;
            assert((hpx as int) * (SCALE as int) >= SCALE as int) by (nonlinear_arith)
                requires
                    hpx >= 1,
                    SCALE == 1048576,
            ;
        }
        let pixel_delta_u = viewport_u.div(wpx * SCALE);
        let pixel_delta_v = viewport_v.div(hpx * SCALE);
        proof {
            let s = SCALE as int;
            lemma_fx_mul_bounded(w@.x, focus_dist as int, 2 * s, 0x8000000);
            lemma_fx_mul_bounded(w@.y, focus_dist as int, 2 * s, 0x8000000);
            lemma_fx_mul_bounded(w@.z, focus_dist as int, 2 * s, 0x8000000);
            assert(((2 * s) * 0x8000000) / s == 0x10000000) by (nonlinear_arith)
                requires
                    s == 1048576,
            ;
            lemma_fx_div_ratio_bound(viewport_u@.x, 2 * s, 14332);
            lemma_fx_div_ratio_bound(viewport_u@.y, 2 * s, 14332);
            lemma_fx_div_ratio_bound(viewport_u@.z, 2 * s, 14332);
            lemma_fx_div_ratio_bound(viewport_v@.x, 2 * s, 2688);
            lemma_fx_div_ratio_bound(viewport_v@.y, 2 * s, 2688);
            lemma_fx_div_ratio_bound(viewport_v@.z, 2 * s, 2688);
            assert(14332 * (2 * s) == 30056382464int && 2688 * (2 * s) == 5637144576int
                && 14332 * s == 15028191232int && 2688 * s == 2818572288int) by (nonlinear_arith)
                requires
                    s == 1048576,
            ;
        }
        let viewport_upper_left = center.sub(&w.scale(focus_dist)).sub(
            &viewport_u.div(2 * SCALE),
        ).sub(&viewport_v.div(2 * SCALE));
        proof {
            let s = SCALE as int;
            let dd = vadd(pixel_delta_u@, pixel_delta_v@);
            lemma_fx_mul_bounded(dd.x, HALF_FX as int, 35690747904, HALF_FX as int);
            lemma_fx_mul_bounded(dd.y, HALF_FX as int, 35690747904, HALF_FX as int);
            lemma_fx_mul_bounded(dd.z, HALF_FX as int, 35690747904, HALF_FX as int);
            assert((35690747904int * 524288) / s == 17845373952) by (nonlinear_arith)
                requires
                    s == 1048576,
            ;
        }
        let pixel00_loc = viewport_upper_left.add(
            &pixel_delta_u.add(&pixel_delta_v).scale(HALF_FX),
        );
        CameraView {
            center,
            pixel00_loc,
            pixel_delta_u,
            pixel_delta_v,
            vfov,
            lookfrom,
            lookat,
            vup,
            focus_dist,
        }
    }
}

/// The derived lens of a camera, mirrored over the mathematical values: the
/// defocus disk's basis is the camera frame's `u` and `v` scaled by the disk
/// radius `focus_dist * tan(angle / 2)`.
pub open spec fn focus_new_spec(view: ViewS, defocus_angle: int) -> FocusS {
    let w = vunit(vsub(view.lookfrom, view.lookat));
    let u = vunit(vcross(view.vup, w));
    let v = vcross(w, u);
    let radius = fx_mul_spec(view.focus_dist, tan_fx_spec(d2r_spec(div_tz(defocus_angle, 2))));
    FocusS {
        defocus_angle: defocus_angle,
        defocus_disk_u: vscale(u, radius),
        defocus_disk_v: vscale(v, radius),
    }
}

/// Lens data: the defocus angle and the disk basis vectors.
#[derive(Clone, Copy)]
pub struct CameraFocus {
    defocus_angle: i64,
    defocus_disk_u: Point3D,
    defocus_disk_v: Point3D,
}

impl View for CameraFocus {
    type V = FocusS;

    closed spec fn view(&self) -> FocusS {
        FocusS {
            defocus_angle: self.defocus_angle as int,
            defocus_disk_u: self.defocus_disk_u@,
            defocus_disk_v: self.defocus_disk_v@,
        }
    }
}

impl CameraFocus {
    /// The lens derived once from the view and the defocus angle.
    pub fn new(view: CameraView, defocus_angle: i64) -> (r: CameraFocus)
        requires
            view_wf(view@),
            0 <= defocus_angle <= 120 * (SCALE as int),
        ensures
            r@ == focus_new_spec(view@, defocus_angle as int),
            focus_wf(r@),
    {
        let w = view.lookfrom.sub(&view.lookat).unit_vector();
        let cr = view.vup.cross(&w);
        proof {
            let s = SCALE as int;
            let c = COORD_MAX as int;
            lemma_fx_mul_bounded(view@.vup.x, w@.y, c, 2 * s);
            lemma_fx_mul_bounded(view@.vup.x, w@.z, c, 2 * s);
            lemma_fx_mul_bounded(view@.vup.y, w@.x, c, 2 * s);
            lemma_fx_mul_bounded(view@.vup.y, w@.z, c, 2 * s);
            lemma_fx_mul_bounded(view@.vup.z, w@.x, c, 2 * s);
            lemma_fx_mul_bounded(view@.vup.z, w@.y, c, 2 * s);
            assert((c * (2 * s)) / s == 0x80000000) by (nonlinear_arith)
                requires
                    s == 1048576,
                    c == 0x40000000,
            ;
        }
        let u = cr.unit_vector();
        proof {
            let s = SCALE as int;
            lemma_fx_mul_bounded(w@.x, u@.y, 2 * s, 2 * s);
            lemma_fx_mul_bounded(w@.x, u@.z, 2 * s, 2 * s);
            lemma_fx_mul_bounded(w@.y, u@.x, 2 * s, 2 * s);
            lemma_fx_mul_bounded(w@.y, u@.z, 2 * s, 2 * s);
            lemma_fx_mul_bounded(w@.z, u@.x, 2 * s, 2 * s);
            lemma_fx_mul_bounded(w@.z, u@.y, 2 * s, 2 * s);
            assert(((2 * s) * (2 * s)) / s == 4 * s) by (nonlinear_arith)
                requires
                    s == 1048576,
            ;
        }
        let v = w.cross(&u);
        let half_angle = div_count(defocus_angle, 2);
        proof {
            lemma_div_tz_bounded(defocus_angle as int, 2, 120 * (SCALE as int));
        }
        let rad_angle = d2r_fn(half_angle);
        let tan_half = tan_fx(rad_angle);
        proof {
            let s = SCALE as int;
            lemma_fx_mul_nonneg(view@.focus_dist, tan_half as int);
            lemma_fx_mul_bounded(view@.focus_dist, tan_half as int, 0x8000000, 2445912);
            assert((0x8000000int * 2445912) / s == 313076736) by (nonlinear_arith)
                requires
                    s == 1048576,
            ;
        }
        let defocus_radius = fx_mul(view.focus_dist, tan_half);
        proof {
            let s = SCALE as int;
            lemma_fx_mul_bounded(u@.x, defocus_radius as int, 2 * s, 313076736);
            lemma_fx_mul_bounded(u@.y, defocus_radius as int, 2 * s, 313076736);
            lemma_fx_mul_bounded(u@.z, defocus_radius as int, 2 * s, 313076736);
            lemma_fx_mul_bounded(v@.x, defocus_radius as int, 9 * s, 313076736);
            lemma_fx_mul_bounded(v@.y, defocus_radius as int, 9 * s, 313076736);
            lemma_fx_mul_bounded(v@.z, defocus_radius as int, 9 * s, 313076736);
            assert(((2 * s) * 313076736) / s == 626153472 && ((9 * s) * 313076736) / s
                == 2817690624) by (nonlinear_arith)
                requires
                    s == 1048576,
            ;
        }
        let defocus_disk_u = u.scale(defocus_radius);
        let defocus_disk_v = v.scale(defocus_radius);
        CameraFocus { defocus_angle, defocus_disk_u, defocus_disk_v }
    }
}

/// A camera: counting data, viewport and lens, all fixed before rendering.
pub struct Camera {
    stats: CameraStats,
    view: CameraView,
    focus: CameraFocus,
}

impl Camera {
    /// The mathematical value of the camera.
    pub closed spec fn model(&self) -> CamS {
        CamS { stats: self.stats@, view: self.view@, focus: self.focus@ }
    }
}

/// The jitter offset for one sample: uniform in `[-1/2, 1/2)` in x and y.
pub open spec fn sample_square_spec(s: u64) -> (Vec3S, u64) {
    let s1 = rng_next_spec(s);
    let s2 = rng_next_spec(s1);
    (
        Vec3S {
            x: rng_unit_spec(s) - HALF_FX as int,
            y: rng_unit_spec(s1) - HALF_FX as int,
            z: 0,
        },
        s2,
    )
}

/// The origin of a lens ray: a point on the defocus disk.
pub open spec fn disk_sample_spec(c: CamS, s: u64) -> (Vec3S, u64) {
    let pr = crate::point3d::random_in_unit_disk_spec(s);
    (
        vadd(
            vadd(c.view.center, vscale(c.focus.defocus_disk_u, pr.0.x)),
            vscale(c.focus.defocus_disk_v, pr.0.y),
        ),
        pr.1,
    )
}

/// One sample ray for pixel `(i, j)`: from the camera center, or from the
/// defocus disk when the lens is open, toward a jittered point of the
/// pixel's cell.
pub open spec fn get_ray_spec(c: CamS, i: int, j: int, s: u64) -> (RayS, u64) {
    let off = sample_square_spec(s);
    let pixel_sample = vadd(
        vadd(
            c.view.pixel00_loc,
            vscale(c.view.pixel_delta_u, i * (SCALE as int) + off.0.x),
        ),
        vscale(c.view.pixel_delta_v, j * (SCALE as int) + off.0.y),
    );
    if c.focus.defocus_angle <= 0 {
        (RayS { orig: c.view.center, dir: vsub(pixel_sample, c.view.center) }, off.1)
    } else {
        let ds = disk_sample_spec(c, off.1);
        (RayS { orig: ds.0, dir: vsub(pixel_sample, ds.0) }, ds.1)
    }
}

impl Camera {
    pub fn new(stats: CameraStats, view: CameraView, focus: CameraFocus) -> (r: Camera)
        requires
            stats_wf(stats@),
            view_wf(view@),
            view_spans(view@, stats@.image_width, stats@.image_height),
            focus_wf(focus@),
        ensures
            r.model() == (CamS { stats: stats@, view: view@, focus: focus@ }),
            camera_wf(r.model()),
    {
        Camera { stats, view, focus }
    }

    pub fn stats(&self) -> (r: CameraStats)
        ensures
            r@ == self.model().stats,
    {
        self.stats
    }

    pub fn view(&self) -> (r: CameraView)
        ensures
            r@ == self.model().view,
    {
        self.view
    }

    pub fn focus(&self) -> (r: CameraFocus)
        ensures
            r@ == self.model().focus,
    {
        self.focus
    }

    /// Degrees to radians, for the angles the camera accepts.
    pub fn degrees_to_radians(deg: i64) -> (r: i64)
        requires
            0 <= deg <= 360 * (SCALE as int),
        ensures
            r == d2r_spec(deg as int),
    {
        d2r_fn(deg)
    }

    /// The jitter offset for one sample.
    fn sample_square(&self, rng: &mut Rng) -> (r: Point3D)
        ensures
            r@ == sample_square_spec(old(rng)@).0,
            final(rng)@ == sample_square_spec(old(rng)@).1,
            -HALF_FX as int <= r@.x <= HALF_FX as int,
            -HALF_FX as int <= r@.y <= HALF_FX as int,
            r@.z == 0,
    {
        let x = rng.next_unit();
        let y = rng.next_unit();
        Point3D::new(x - HALF_FX, y - HALF_FX, 0)
    }

    /// A point on the defocus disk around the camera center.
    fn defocus_disk_sample(&self, rng: &mut Rng) -> (r: Point3D)
        requires
            camera_wf(self.model()),
        ensures
            r@ == disk_sample_spec(self.model(), old(rng)@).0,
            final(rng)@ == disk_sample_spec(self.model(), old(rng)@).1,
            vbounded(r@, 0x280000000),
    {
        let p = Point3D::random_in_unit_disk(rng);
        proof {
            let s = SCALE as int;
            lemma_fx_mul_bounded(self.model().focus.defocus_disk_u.x, p@.x, 0x100000000, s);
            lemma_fx_mul_bounded(self.model().focus.defocus_disk_u.y, p@.x, 0x100000000, s);
            lemma_fx_mul_bounded(self.model().focus.defocus_disk_u.z, p@.x, 0x100000000, s);
            lemma_fx_mul_bounded(self.model().focus.defocus_disk_v.x, p@.y, 0x100000000, s);
            lemma_fx_mul_bounded(self.model().focus.defocus_disk_v.y, p@.y, 0x100000000, s);
            lemma_fx_mul_bounded(self.model().focus.defocus_disk_v.z, p@.y, 0x100000000, s);
            assert((0x100000000int * s) / s == 0x100000000) by (nonlinear_arith)
                requires
                    s == 1048576,
            ;
        }
        self.view.center.add(&self.focus.defocus_disk_u.scale(p.x())).add(
            &self.focus.defocus_disk_v.scale(p.y()),
        )
    }

    /// One sample ray toward pixel `(i, j)`, jittered for anti-aliasing,
    /// from the lens when it is open. The ray stays within the tracer's
    /// bounds.
    pub fn get_ray(&self, i: usize, j: usize, rng: &mut Rng) -> (r: Ray)
        requires
            camera_wf(self.model()),
            i < self.model().stats.image_width,
            j < self.model().stats.image_height,
        ensures
            r@ == get_ray_spec(self.model(), i as int, j as int, old(rng)@).0,
            final(rng)@ == get_ray_spec(self.model(), i as int, j as int, old(rng)@).1,
            ray_wf(r@),
    {
        let offset = self.sample_square(rng);
        let iarg = (i as i64) * SCALE + offset.x();
        let jarg = (j as i64) * SCALE + offset.y();
        proof {
            let s = SCALE as int;
            let w = self.model().stats.image_width;
            let h = self.model().stats.image_height;
            assert((i as int) * s + offset@.x <= w * s && -(w * s) <= (i as int) * s + offset@.x)
                by (nonlinear_arith)
                requires
                    s == 1048576,
                    0 <= i as int <= w - 1,
                    w >= 1,
                    -524288 <= offset@.x <= 524288,
            ;
            assert((j as int) * s + offset@.y <= h * s && -(h * s) <= (j as int) * s + offset@.y)
                by (nonlinear_arith)
                requires
                    s == 1048576,
                    0 <= j as int <= h - 1,
                    h >= 1,
                    -524288 <= offset@.y <= 524288,
            ;
            lemma_span_term(self.model().view.pixel_delta_u.x, iarg as int, w, 0x1000000000);
            lemma_span_term(self.model().view.pixel_delta_u.y, iarg as int, w, 0x1000000000);
            lemma_span_term(self.model().view.pixel_delta_u.z, iarg as int, w, 0x1000000000);
            lemma_span_term(self.model().view.pixel_delta_v.x, jarg as int, h, 0x1000000000);
            lemma_span_term(self.model().view.pixel_delta_v.y, jarg as int, h, 0x1000000000);
            lemma_span_term(self.model().view.pixel_delta_v.z, jarg as int, h, 0x1000000000);
        }
        let pixel_sample = self.view.pixel00_loc.add(&self.view.pixel_delta_u.scale(iarg)).add(
            &self.view.pixel_delta_v.scale(jarg),
        );
        let ray_origin = if self.focus.defocus_angle <= 0 {
            self.view.center
        } else {
            self.defocus_disk_sample(rng)
        };
        let ray_direction = pixel_sample.sub(&ray_origin);
        Ray::new(ray_origin, ray_direction)
    }
}

} // verus!
