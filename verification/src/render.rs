//! The recursive color evaluation and the full-frame render loop.
//!
//! The recursion of light transport is run as an explicit loop with a depth
//! counter: attenuations are collected on the way in and multiplied on the
//! way out, in the same right-to-left order the recursion defines, so the
//! loop computes exactly the recursive value while the call stack stays flat.

use vstd::prelude::*;
use crate::fixed::{SCALE, div_tz, fx_mul_spec, fx_mul, div_count, lemma_fx_mul_bounded, lemma_div_tz_shrinks};
use crate::point3d::{Point3D, Vec3S, vadd, vscale, vmul, vdot, vunit, vbounded};
use crate::ray::{Ray, RayS};
use crate::rng::{Rng, row_seed, row_seed_spec, seed_fix_spec};
use crate::hittable::{Hittable, HittableList, list_hit_spec, ray_wf, T_MAX};
use crate::material::{Scatterable, mat_scatter_spec, color_wf};
use crate::sphere::SphereS;
use crate::camera::{Camera, CamS, camera_wf, get_ray_spec, HALF_FX};
use crate::color::{color_line_spec, dec_nat_spec, write_color, push_dec_usize};

verus! {

/// The least ray parameter an intersection may have: a small positive bound
/// that suppresses self-intersection at the surface a ray starts on.
pub const T_MIN_HIT: i64 = 1048;

/// The sky: a vertical gradient from white to light blue over the unit
/// direction's height.
pub open spec fn background_spec(ud: Vec3S) -> Vec3S {
    let s = SCALE as int;
    let a = fx_mul_spec(HALF_FX as int, ud.y + s);
    vadd(
        vscale(Vec3S { x: s, y: s, z: s }, s - a),
        vscale(Vec3S { x: 524288, y: 734003, z: s }, a),
    )
}

/// The color carried back by a ray, and the random state after its bounces:
/// black when the bounce budget is spent, when the direction vanishes at
/// this scale, or when a bounce is absorbed; the sky on a miss; otherwise
/// the scattered color filtered by the attenuation.
pub open spec fn ray_color_spec(ss: Seq<SphereS>, ray: RayS, depth: nat, s: u64) -> (Vec3S, u64)
    decreases depth,
{
    let black = Vec3S { x: 0, y: 0, z: 0 };
    if depth == 0 {
        (black, s)
    } else if vdot(ray.dir, ray.dir) <= 0 {
        (black, s)
    } else {
        match list_hit_spec(ss, ray, T_MIN_HIT as int, T_MAX as int) {
            Option::Some(rec) => {
                let sc = mat_scatter_spec(rec.material, ray, rec, s);
                match sc.out {
                    Option::Some(pair) => {
                        let rc = ray_color_spec(ss, pair.0, (depth - 1) as nat, sc.state);
                        (vmul(pair.1, rc.0), rc.1)
                    },
                    Option::None => (black, sc.state),
                }
            },
            Option::None => (background_spec(vunit(ray.dir)), s),
        }
    }
}

/// The product of a stack of attenuations applied to a base color, from the
/// innermost bounce outward: `a1 * (a2 * (... * (an * base)))`.
pub open spec fn atten_fold(attens: Seq<Vec3S>, base: Vec3S) -> Vec3S
    decreases attens.len(),
{
    if attens.len() == 0 {
        base
    } else {
        vmul(attens[0], atten_fold(attens.subrange(1, attens.len() as int), base))
    }
}

/// Appending an attenuation to the stack is the same as filtering the base.
proof fn lemma_atten_fold_push(attens: Seq<Vec3S>, a: Vec3S, base: Vec3S)
    ensures
        atten_fold(attens.push(a), base) == atten_fold(attens, vmul(a, base)),
    decreases attens.len(),
{
    if attens.len() == 0 {
        assert(attens.push(a).subrange(1, 1) =~= Seq::<Vec3S>::empty());
        assert(attens.push(a)[0] == a);
        assert(atten_fold(attens.push(a), base) == vmul(
            attens.push(a)[0],
            atten_fold(attens.push(a).subrange(1, 1), base),
        ));
        assert(atten_fold(Seq::<Vec3S>::empty(), base) == base);
        assert(atten_fold(attens, vmul(a, base)) == vmul(a, base));
    } else {
        assert(attens.push(a).subrange(1, attens.len() as int + 1) =~= attens.subrange(
            1,
            attens.len() as int,
        ).push(a));
        lemma_atten_fold_push(attens.subrange(1, attens.len() as int), a, base);
        assert(attens.push(a)[0] == attens[0]);
        assert(atten_fold(attens.push(a), base) == vmul(
            attens[0],
            atten_fold(attens.subrange(1, attens.len() as int).push(a), base),
        ));
        assert(atten_fold(attens, vmul(a, base)) == vmul(
            attens[0],
            atten_fold(attens.subrange(1, attens.len() as int), vmul(a, base)),
        ));
    }
}

/// The sum of the first `n` sample colors for pixel `(i, j)`, and the state
/// after them.
pub open spec fn pixel_sum_spec(
    ss: Seq<SphereS>,
    c: CamS,
    i: int,
    j: int,
    n: nat,
    s: u64,
) -> (Vec3S, u64)
    decreases n,
{
    if n == 0 {
        (Vec3S { x: 0, y: 0, z: 0 }, s)
    } else {
        let prev = pixel_sum_spec(ss, c, i, j, (n - 1) as nat, s);
        let ray = get_ray_spec(c, i, j, prev.1);
        let col = ray_color_spec(ss, ray.0, c.stats.max_depth as nat, ray.1);
        (vadd(prev.0, col.0), col.1)
    }
}

/// The finished color of pixel `(i, j)`: the sample average, and the state
/// after the pixel.
pub open spec fn pixel_color_spec(ss: Seq<SphereS>, c: CamS, i: int, j: int, s: u64) -> (
    Vec3S,
    u64,
) {
    let ps = pixel_sum_spec(ss, c, i, j, c.stats.samples_per_pixel as nat, s);
    (
        Vec3S {
            x: div_tz(ps.0.x, c.stats.samples_per_pixel),
            y: div_tz(ps.0.y, c.stats.samples_per_pixel),
            z: div_tz(ps.0.z, c.stats.samples_per_pixel),
        },
        ps.1,
    )
}

/// The ASCII lines of the first `i` pixels of row `j`, and the state after.
pub open spec fn row_bytes_spec(
    ss: Seq<SphereS>,
    c: CamS,
    j: int,
    i: nat,
    s: u64,
) -> (Seq<u8>, u64)
    decreases i,
{
    if i == 0 {
        (Seq::<u8>::empty(), s)
    } else {
        let prev = row_bytes_spec(ss, c, j, (i - 1) as nat, s);
        let pc = pixel_color_spec(ss, c, i - 1, j, prev.1);
        (prev.0 + color_line_spec(pc.0), pc.1)
    }
}

/// The bytes of one image row, rendered with its own source seeded from
/// `(seed, row)`.
pub open spec fn render_row_spec(ss: Seq<SphereS>, c: CamS, seed: u64, j: int) -> Seq<u8> {
    row_bytes_spec(
        ss,
        c,
        j,
        c.stats.image_width as nat,
        seed_fix_spec(row_seed_spec(seed, j as u64)),
    ).0
}

/// The bytes of the first `j` rows, in order.
pub open spec fn rows_spec(ss: Seq<SphereS>, c: CamS, seed: u64, j: nat) -> Seq<u8>
    decreases j,
{
    if j == 0 {
        Seq::<u8>::empty()
    } else {
        rows_spec(ss, c, seed, (j - 1) as nat) + render_row_spec(ss, c, seed, j - 1)
    }
}

/// The PPM header: `P3`, the dimensions, and the channel ceiling 255.
pub open spec fn header_spec(w: nat, h: nat) -> Seq<u8> {
    seq![80u8, 51u8, 10u8] + dec_nat_spec(w) + seq![32u8] + dec_nat_spec(h) + seq![
        10u8,
        50u8,
        53u8,
        53u8,
        10u8,
    ]
}

/// The whole image: the header, then every row top to bottom.
pub open spec fn render_spec(ss: Seq<SphereS>, c: CamS, seed: u64) -> Seq<u8> {
    header_spec(c.stats.image_width as nat, c.stats.image_height as nat) + rows_spec(
        ss,
        c,
        seed,
        c.stats.image_height as nat,
    )
}

impl Camera {
    /// The color carried back by a ray, evaluated iteratively to the bounce
    /// budget. The result lies within three units per channel, and the
    /// random source advances exactly as the model says.
    #[verifier::loop_isolation(true)]
    pub fn ray_color(&self, r: &Ray, max_depth: usize, world: &HittableList, rng: &mut Rng) -> (res:
        Point3D)
        requires
            world.geom_wf(),
            ray_wf(r@),
        ensures
            res@ == ray_color_spec(world@, r@, max_depth as nat, old(rng)@).0,
            final(rng)@ == ray_color_spec(world@, r@, max_depth as nat, old(rng)@).1,
            vbounded(res@, 3 * (SCALE as int)),
    {
        let ghost s0 = old(rng)@;
        let ghost total = ray_color_spec(world@, r@, max_depth as nat, s0);
        let mut gen: Rng = *rng;
        let mut cur: Ray = *r;
        let mut k: usize = max_depth;
        let mut attens: Vec<Point3D> = Vec::new();
        let mut base = Point3D::new(0, 0, 0);
        loop
            invariant_except_break
                base@ == (Vec3S { x: 0, y: 0, z: 0 }),
                total.0 == atten_fold(
                    attens@.map_values(|p: Point3D| p@),
                    ray_color_spec(world@, cur@, k as nat, gen@).0,
                ),
                total.1 == ray_color_spec(world@, cur@, k as nat, gen@).1,
            invariant
                world.geom_wf(),
                ray_wf(cur@),
                forall|i: int| 0 <= i < attens@.len() ==> color_wf(#[trigger] attens@[i]@),
            ensures
                total.0 == atten_fold(attens@.map_values(|p: Point3D| p@), base@),
                total.1 == gen@,
                vbounded(base@, 3 * (SCALE as int)),
                forall|i: int| 0 <= i < attens@.len() ==> color_wf(#[trigger] attens@[i]@),
            decreases k,
        {
            if k == 0 {
                break ;
            }
            let d = cur.direction();
            let dd = d.dot(&d);
            if dd <= 0 {
                break ;
            }
            let hit = world.hit(&cur, T_MIN_HIT, T_MAX);
            match hit {
                None => {
                    let ud = cur.direction().unit_vector();
                    proof {
                        let s = SCALE as int;
                        lemma_fx_mul_bounded(HALF_FX as int, ud@.y + s, HALF_FX as int, 3 * s);
                        assert((524288 * (3 * s)) / s == 1572864) by (nonlinear_arith)
                            requires
                                s == 1048576,
                        ;
                        let a = fx_mul_spec(HALF_FX as int, ud@.y + s);
                        lemma_fx_mul_bounded(s, s - a, s, 3 * s);
                        lemma_fx_mul_bounded(524288, a, s, 2 * s);
                        lemma_fx_mul_bounded(734003, a, s, 2 * s);
                        lemma_fx_mul_bounded(s, a, s, 2 * s);
                        assert((s * (3 * s)) / s == 3 * s && (s * (2 * s)) / s == 2 * s)
                            by (nonlinear_arith)
                            requires
                                s == 1048576,
                        ;
                    }
                    let a = fx_mul(HALF_FX, ud.y() + SCALE);
                    let white = Point3D::new(SCALE, SCALE, SCALE);
                    let sky = Point3D::new(524288, 734003, SCALE);
                    base = white.scale(SCALE - a).add(&sky.scale(a));
                    break ;
                },
                Some(rec) => {
                    let sc = rec.material.scatter(&cur, &rec, &mut gen);
                    match sc {
                        Some(pair) => {
                            proof {
                                lemma_atten_fold_push(
                                    attens@.map_values(|p: Point3D| p@),
                                    pair.1@,
                                    ray_color_spec(
                                        world@,
                                        pair.0@,
                                        (k - 1) as nat,
                                        gen@,
                                    ).0,
                                );
                                assert(attens@.push(pair.1).map_values(|p: Point3D| p@)
                                    =~= attens@.map_values(|p: Point3D| p@).push(pair.1@));
                            }
                            attens.push(pair.1);
                            cur = pair.0;
                            k = k - 1;
                        },
                        None => {
                            break ;
                        },
                    }
                },
            }
        }
        let ghost base_s = base@;
        let ghost mapped = attens@.map_values(|p: Point3D| p@);
        let mut color = base;
        let mut idx: usize = attens.len();
        while idx > 0
            invariant
                idx <= attens@.len(),
                mapped == attens@.map_values(|p: Point3D| p@),
                forall|i: int| 0 <= i < attens@.len() ==> color_wf(#[trigger] attens@[i]@),
                vbounded(color@, 3 * (SCALE as int)),
                color@ == atten_fold(mapped.subrange(idx as int, mapped.len() as int), base_s),
            decreases idx,
        {
            idx = idx - 1;
            proof {
                let s = SCALE as int;
                let av = attens@[idx as int]@;
                lemma_fx_mul_bounded(av.x, color@.x, s, 3 * s);
                lemma_fx_mul_bounded(av.y, color@.y, s, 3 * s);
                lemma_fx_mul_bounded(av.z, color@.z, s, 3 * s);
                assert((s * (3 * s)) / s == 3 * s) by (nonlinear_arith)
                    requires
                        s == 1048576,
                ;
                assert(mapped.subrange(idx as int, mapped.len() as int)[0] == mapped[idx as int]);
                assert(mapped.subrange(idx as int, mapped.len() as int).subrange(
                    1,
                    mapped.len() - idx,
                ) =~= mapped.subrange(idx + 1, mapped.len() as int));
            }
            color = attens[idx].mul(&color);
        }
        proof {
            assert(mapped.subrange(0, mapped.len() as int) =~= mapped);
        }
        *rng = gen;
        color
    }

    /// The bytes of one image row: `width` ASCII pixel lines, each the
    /// gamma-corrected, clamped and quantized average of the pixel's
    /// samples, drawn from a source seeded by `(seed, row)`.
    pub fn render_row(&self, world: &HittableList, seed: u64, j: usize) -> (res: Vec<u8>)
        requires
            camera_wf(self.model()),
            world.geom_wf(),
            j < self.model().stats.image_height,
        ensures
            res@ == render_row_spec(world@, self.model(), seed, j as int),
    {
        let seed_j = row_seed(seed, j as u64);
        let mut gen = Rng::new(seed_j);
        let ghost srow = gen@;
        let mut out: Vec<u8> = Vec::new();
        let w = self.stats().width();
        let spp = self.stats().samples_per_pixel();
        let depth = self.stats().max_depth();
        let mut i: usize = 0;
        while i < w
            invariant
                camera_wf(self.model()),
                world.geom_wf(),
                i <= w,
                w == self.model().stats.image_width,
                spp == self.model().stats.samples_per_pixel,
                depth == self.model().stats.max_depth,
                j < self.model().stats.image_height,
                out@ == row_bytes_spec(world@, self.model(), j as int, i as nat, srow).0,
                gen@ == row_bytes_spec(world@, self.model(), j as int, i as nat, srow).1,
            decreases w - i,
        {
            let ghost spixel = gen@;
            let mut sum = Point3D::new(0, 0, 0);
            let mut sct: usize = 0;
            while sct < spp
                invariant
                    camera_wf(self.model()),
                    world.geom_wf(),
                    sct <= spp,
                    spp == self.model().stats.samples_per_pixel,
                    depth == self.model().stats.max_depth,
                    i < self.model().stats.image_width,
                    j < self.model().stats.image_height,
                    sum@ == pixel_sum_spec(
                        world@,
                        self.model(),
                        i as int,
                        j as int,
                        sct as nat,
                        spixel,
                    ).0,
                    gen@ == pixel_sum_spec(
                        world@,
                        self.model(),
                        i as int,
                        j as int,
                        sct as nat,
                        spixel,
                    ).1,
                    vbounded(sum@, (sct as int) * 3 * (SCALE as int)),
                decreases spp - sct,
            {
                let ray = self.get_ray(i, j, &mut gen);
                let col = self.ray_color(&ray, depth, world, &mut gen);
                proof {
                    let s = SCALE as int;
                    assert((sct as int) * 3 * s + 3 * s == ((sct as int) + 1) * 3 * s)
                        by (nonlinear_arith);
                    assert(((sct as int) + 1) * 3 * s <= 65536 * 3 * s) by (nonlinear_arith)
                        requires
                            sct as int + 1 <= 65536,
                            s == 1048576,
                    ;
                }
                sum = sum.add(&col);
                sct = sct + 1;
            }
            let sppc = spp as i64;
            proof {
                lemma_div_tz_shrinks(sum@.x, sppc as int);
                lemma_div_tz_shrinks(sum@.y, sppc as int);
                lemma_div_tz_shrinks(sum@.z, sppc as int);
            }
            let avg = Point3D::new(
                div_count(sum.x(), sppc),
                div_count(sum.y(), sppc),
                div_count(sum.z(), sppc),
            );
            write_color(&mut out, &avg);
            i = i + 1;
        }
        out
    }

    /// The whole image as PPM text: the header, then every pixel line in
    /// row-major order. A fixed seed reproduces the image byte for byte.
    pub fn render(&self, world: &HittableList, seed: u64) -> (res: Vec<u8>)
        requires
            camera_wf(self.model()),
            world.geom_wf(),
        ensures
            res@ == render_spec(world@, self.model(), seed),
    {
        let w = self.stats().width();
        let h = self.stats().height();
        let mut out: Vec<u8> = Vec::new();
        out.push(80);
        out.push(51);
        out.push(10);
        push_dec_usize(&mut out, w);
        out.push(32);
        push_dec_usize(&mut out, h);
        out.push(10);
        out.push(50);
        out.push(53);
        out.push(53);
        out.push(10);
        proof {
            assert(out@ =~= header_spec(w as nat, h as nat));
        }
        let mut j: usize = 0;
        while j < h
            invariant
                camera_wf(self.model()),
                world.geom_wf(),
                j <= h,
                w == self.model().stats.image_width,
                h == self.model().stats.image_height,
                out@ == header_spec(w as nat, h as nat) + rows_spec(
                    world@,
                    self.model(),
                    seed,
                    j as nat,
                ),
            decreases h - j,
        {
            let mut row = self.render_row(world, seed, j);
            out.append(&mut row);
            j = j + 1;
        }
        out
    }
}

} // verus!
