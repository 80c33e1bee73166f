//! The scene as a flat primitive list with a brute-force nearest-hit scan.
//!
//! The scan is the reference the hierarchy is measured against: it queries
//! every primitive in list order, each over the range up to the best hit so
//! far, so it returns the nearest intersection across the list.

use vstd::prelude::*;

verus! {

use crate::ray::{
    Ray, ray_wf, Interval, IvlI, ivl_wf, ivl_contains, HitRecord, HitI, hiti_wf, opt_hit_view,
    WorldObject,
};
use crate::bvh::{wo_wf, wo_hit_spec};

pub struct World {
    pub objects: Vec<WorldObject>,
}

pub open spec fn world_wf(w: World) -> bool {
    forall|k: int| 0 <= k < w.objects@.len() ==> wo_wf(#[trigger] w.objects@[k])
}

/// The brute-force scan in list order: each primitive is queried over the
/// range narrowed to the best hit so far, and a reported hit replaces it.
pub open spec fn scan_hit_spec(objs: Seq<WorldObject>, r: Ray, itv: IvlI) -> Option<HitI>
    decreases objs.len(),
{
    if objs.len() == 0 {
        None
    } else {
        let prev = scan_hit_spec(objs.drop_last(), r, itv);
        let current_itv = match prev {
            Some(h) => IvlI { min: itv.min, max: h.t },
            None => itv,
        };
        match wo_hit_spec(objs.last(), r, current_itv) {
            Some(h) => Some(h),
            None => prev,
        }
    }
}

impl World {
    pub fn new() -> (r: World)
        ensures
            r.objects@.len() == 0,
            world_wf(r),
    {
        World { objects: Vec::new() }
    }

    pub fn add(&mut self, object: WorldObject)
        requires
            wo_wf(object),
            world_wf(*old(self)),
        ensures
            final(self).objects@ == old(self).objects@.push(object),
            world_wf(*final(self)),
    {
        self.objects.push(object);
        proof {
            assert(forall|k: int|
                0 <= k < self.objects@.len() - 1 ==> self.objects@[k] == old(self).objects@[k]);
        }
    }

    /// The nearest intersection across the whole list, by linear scan.
    #[verifier::loop_isolation(false)]
    pub fn hit(&self, ray: &Ray, t: Interval) -> (r: Option<HitRecord>)
        requires
            world_wf(*self),
            ray_wf(*ray),
            ivl_wf(t@),
        ensures
            opt_hit_view(r) == scan_hit_spec(self.objects@, *ray, t@),
            r is Some ==> hiti_wf(r->Some_0@) && ivl_contains(t@, r->Some_0@.t),
    {
        let mut hit: Option<HitRecord> = None;
        let mut i: usize = 0;
        while i < self.objects.len()
            invariant
                i <= self.objects@.len(),
                opt_hit_view(hit) == scan_hit_spec(self.objects@.take(i as int), *ray, t@),
                hit is Some ==> hiti_wf(hit->Some_0@) && ivl_contains(t@, hit->Some_0@.t),
            decreases self.objects@.len() - i,
        {
            let closest_so_far = match &hit {
                Some(hit_record) => hit_record.t,
                None => t.max,
            };
            let interval = Interval::new(t.min, closest_so_far);
            let potential_hit = self.objects[i].hit(ray, &interval);
            proof {
                assert(self.objects@.take(i as int + 1).drop_last() =~= self.objects@.take(
                    i as int,
                ));
                assert(self.objects@.take(i as int + 1).last() == self.objects@[i as int]);
            }
            if potential_hit.is_some() {
                hit = potential_hit;
            }
            i += 1;
        }
        proof {
            assert(self.objects@.take(self.objects@.len() as int) =~= self.objects@);
        }
        hit
    }
}

} // verus!
