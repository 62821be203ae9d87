//! The intersection interface: hit records, the `Hittable` capability, and
//! the scene as an ordered list scanned linearly for the closest hit.

use vstd::prelude::*;
use crate::point3d::{Point3D, Vec3S, vbounded, vdot};
use crate::ray::{Ray, RayS};
use crate::material::{Material, MatS, mat_wf};
use crate::sphere::{Sphere, SphereS, sphere_wf, sphere_hit_spec};
use crate::fixed::SCALE;

verus! {

/// The widest coordinate scene geometry may use: 1024 at the fixed scale.
pub const COORD_MAX: i64 = 0x40000000;

/// The widest component a traced ray's origin or direction may have.
pub const RAY_MAX: i64 = 0x8000000000;

/// The upper bound on ray parameters, standing in for infinity: far beyond
/// any intersection a bounded scene can produce.
pub const T_MAX: i64 = 0x80000000000;

/// A ray the tracer can work on: origin and direction within `RAY_MAX`.
pub open spec fn ray_wf(r: RayS) -> bool {
    vbounded(r.orig, RAY_MAX as int) && vbounded(r.dir, RAY_MAX as int)
}

/// The mathematical value of a hit record.
pub ghost struct HitRecS {
    pub p: Vec3S,
    pub normal: Vec3S,
    pub t: int,
    pub front_face: bool,
    pub material: MatS,
}

/// What every record handed out by an intersection satisfies: the point near
/// the scene, the normal of roughly unit length, the parameter positive and
/// finite, the material well formed.
pub open spec fn rec_wf(h: HitRecS) -> bool {
    &&& vbounded(h.p, 3 * (COORD_MAX as int))
    &&& vbounded(h.normal, 2 * (SCALE as int))
    &&& 0 < h.t <= T_MAX as int
    &&& mat_wf(h.material)
}

/// The result of a successful ray/geometry intersection.
#[derive(Clone, Copy, Debug, PartialEq, Eq, Structural)]
pub struct HitRecord {
    pub p: Point3D,
    pub normal: Point3D,
    pub t: i64,
    pub front_face: bool,
    pub material: Material,
}

impl View for HitRecord {
    type V = HitRecS;

    open spec fn view(&self) -> HitRecS {
        HitRecS {
            p: self.p@,
            normal: self.normal@,
            t: self.t as int,
            front_face: self.front_face,
            material: self.material@,
        }
    }
}

impl HitRecord {
    pub fn new(p: Point3D, normal: Point3D, t: i64, front_face: bool, material: Material) -> (r:
        HitRecord)
        ensures
            r@ == (HitRecS {
                p: p@,
                normal: normal@,
                t: t as int,
                front_face,
                material: material@,
            }),
    {
        HitRecord { p, normal, t, front_face, material }
    }
}

/// The optional record as its mathematical value.
pub open spec fn opt_rec_view(o: Option<HitRecord>) -> Option<HitRecS> {
    match o {
        Option::Some(h) => Option::Some(h@),
        Option::None => Option::None,
    }
}

/// Geometry a ray can be tested against. The contract returns the model's
/// answer exactly, and every record handed out is well formed, lies strictly
/// inside the open parameter interval, and carries a stored normal that
/// opposes the ray.
pub trait Hittable {
    /// The mathematical answer of this geometry for a ray and an interval.
    spec fn hit_model(&self, r: RayS, tmin: int, tmax: int) -> Option<HitRecS>;

    /// What this geometry's data satisfies.
    spec fn geom_wf(&self) -> bool;

    fn hit(&self, r: &Ray, ray_tmin: i64, ray_tmax: i64) -> (res: Option<HitRecord>)
        requires
            self.geom_wf(),
            ray_wf(r@),
            0 <= ray_tmin,
            ray_tmax <= T_MAX,
        ensures
            opt_rec_view(res) == self.hit_model(r@, ray_tmin as int, ray_tmax as int),
            match res {
                Option::Some(h) => {
                    &&& rec_wf(h@)
                    &&& ray_tmin < h@.t < ray_tmax
                    &&& vdot(r@.dir, h@.normal) <= 0
                    &&& vdot(r@.dir, r@.dir) > 0
                },
                Option::None => true,
            },
    ;
}

/// The closest hit among the first `n` members of a scene: each member is
/// tested against an upper bound shrunk to the best parameter found so far,
/// so a later member wins only by being strictly closer.
pub open spec fn list_hit_upto(
    ss: Seq<SphereS>,
    r: RayS,
    tmin: int,
    tmax: int,
    n: nat,
) -> Option<HitRecS>
    decreases n,
{
    if n == 0 {
        Option::None
    } else {
        let prev = list_hit_upto(ss, r, tmin, tmax, (n - 1) as nat);
        let bound = match prev {
            Option::Some(h) => h.t,
            Option::None => tmax,
        };
        match sphere_hit_spec(ss[n - 1], r, tmin, bound) {
            Option::Some(h) => Option::Some(h),
            Option::None => prev,
        }
    }
}

/// The closest hit in the whole scene.
pub open spec fn list_hit_spec(ss: Seq<SphereS>, r: RayS, tmin: int, tmax: int) -> Option<
    HitRecS,
> {
    list_hit_upto(ss, r, tmin, tmax, ss.len())
}

/// An ordered scene: hittable objects scanned in order.
pub struct HittableList {
    pub list: Vec<Sphere>,
}

impl View for HittableList {
    type V = Seq<SphereS>;

    open spec fn view(&self) -> Seq<SphereS> {
        self.list@.map_values(|s: Sphere| s@)
    }
}

impl HittableList {
    pub fn new(list: Vec<Sphere>) -> (r: HittableList)
        ensures
            r@ == list@.map_values(|s: Sphere| s@),
            r.list == list,
    {
        HittableList { list }
    }
}

impl Hittable for HittableList {
    open spec fn hit_model(&self, r: RayS, tmin: int, tmax: int) -> Option<HitRecS> {
        list_hit_spec(self@, r, tmin, tmax)
    }

    /// Every member is well formed.
    open spec fn geom_wf(&self) -> bool {
        forall|i: int| 0 <= i < self@.len() ==> #[trigger] sphere_wf(self@[i])
    }

    fn hit(&self, r: &Ray, ray_tmin: i64, ray_tmax: i64) -> (res: Option<HitRecord>) {
        let mut best: Option<HitRecord> = None;
        let mut closest: i64 = ray_tmax;
        let n = self.list.len();
        let mut i: usize = 0;
        while i < n
            invariant
                0 <= i <= n,
                opt_rec_view(best) == list_hit_upto(self@, r@, ray_tmin as int, ray_tmax as int, i as nat),
                match best {
                    Option::Some(h) => {
                        &&& closest == h@.t
                        &&& rec_wf(h@)
                        &&& ray_tmin < h@.t < ray_tmax
                        &&& vdot(r@.dir, h@.normal) <= 0
                        &&& vdot(r@.dir, r@.dir) > 0
                    },
                    Option::None => closest == ray_tmax,
                },
            decreases n - i,
        {
            assert(self@[i as int] == self.list@[i as int]@);
            let member_hit = self.list[i].hit(r, ray_tmin, closest);
            if let Some(h) = member_hit {
                closest = h.t;
                best = Some(h);
            }
            i = i + 1;
        }
        best
    }
}

} // verus!
