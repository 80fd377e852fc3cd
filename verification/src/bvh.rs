//! Bounding volume hierarchy: nodes, and construction by randomized median
//! partition.

use vstd::prelude::*;
use vstd::seq_lib::{group_to_multiset_ensures, lemma_multiset_commutative};
use crate::fixed::{Fx, mag};
use crate::vec3::WORLD_MAX;
use crate::ray::Ray;
use crate::aabb::{Aabb, aabb_ordered, aabb_hit_spec};
use crate::hittable::{Surface, HitRecord, surf_wf, surf_hit_det, surf_bbox_spec};
use crate::hittable_list::{HittableList, list_wf, list_hit_det, scan_hit};

verus! {

/// An inner node of the hierarchy: two children and the cached box that
/// covers both subtrees, computed once at construction.
pub struct BvhNode {
    pub left: Box<Surface>,
    pub right: Box<Surface>,
    pub abox: Aabb,
}

/// Why hierarchy construction failed.  A surface without a bounding box
/// cannot be placed in the hierarchy: continuing silently would corrupt the
/// tree's pruning invariant, so construction fails loudly.
#[derive(Clone, Copy, PartialEq, Eq, Structural, Debug)]
pub enum BuildError {
    MissingBoundingBox,
    EmptyScene,
}

/// The sequence of non-node surfaces at the fringe of a tree, left to
/// right.  A surface that is not a hierarchy node is its own single leaf.
pub open spec fn leaves(s: Surface) -> Seq<Surface>
    decreases s,
{
    match s {
        Surface::Bvh(n) => leaves(*n.left) + leaves(*n.right),
        _ => seq![s],
    }
}

/// Every surface in the list reports a bounding box over the shutter
/// interval — the condition under which hierarchy construction succeeds.
pub open spec fn all_boxed(objs: Seq<Surface>, t0: int, t1: int) -> bool {
    forall|i: int| 0 <= i < objs.len() ==> (#[trigger] surf_bbox_spec(objs[i], t0, t1)) is Some
}

/// A surface that is not itself a hierarchy node.
pub open spec fn is_leaf_surface(s: Surface) -> bool {
    !(s matches Surface::Bvh(_))
}

/// Every surface in the list is a non-node surface.
pub open spec fn list_leafy(objs: Seq<Surface>) -> bool {
    forall|i: int| 0 <= i < objs.len() ==> is_leaf_surface(#[trigger] objs[i])
}

/// Reorders a list of surfaces by ascending box minimum along `axis`
/// (selection sort, drawing from `rest`).  Only the reordering itself is
/// promised: the result holds exactly the input surfaces.  Fails if some
/// surface has no bounding box.
fn sort_by_axis(objects: Vec<Surface>, axis: usize, time0: Fx, time1: Fx) -> (res: Result<
    Vec<Surface>,
    BuildError,
>)
    requires
        list_wf(objects@),
        mag(time0@) <= WORLD_MAX as int,
        mag(time1@) <= WORLD_MAX as int,
    ensures
        res matches Ok(sorted) ==> sorted@.to_multiset() == objects@.to_multiset() && sorted@.len()
            == objects@.len() && list_wf(sorted@) && (list_leafy(objects@) ==> list_leafy(
        sorted@)) && all_boxed(objects@, time0@, time1@) && all_boxed(sorted@, time0@, time1@),
        res is Err ==> !all_boxed(objects@, time0@, time1@),
        res matches Err(e) ==> e == BuildError::MissingBoundingBox,
{
    proof {
        broadcast use group_to_multiset_ensures;

    }
    let ghost orig = objects@;
    let mut rest = objects;
    let mut out: Vec<Surface> = Vec::new();
    while rest.len() > 0
        invariant
            orig == objects@,
            list_wf(rest@),
            list_wf(out@),
            out@.to_multiset().add(rest@.to_multiset()) =~= orig.to_multiset(),
            out@.len() + rest@.len() == orig.len(),
            list_leafy(orig) ==> list_leafy(rest@) && list_leafy(out@),
            all_boxed(out@, time0@, time1@),
            mag(time0@) <= WORLD_MAX as int,
            mag(time1@) <= WORLD_MAX as int,
        decreases rest@.len(),
    {
        proof {
            broadcast use group_to_multiset_ensures;

        }
        let mut min_idx: usize = 0;
        let mut min_key: i64 = match rest[0].bounding_box(time0, time1) {
            Some(b) => axis_component(&b, axis),
            None => {
                proof {
                    broadcast use group_to_multiset_ensures;
                    broadcast use vstd::multiset::group_multiset_axioms;

                    assert(rest@.contains(rest@[0]));
                    assert(rest@.to_multiset().count(rest@[0]) > 0);
                    assert(orig.to_multiset().count(rest@[0]) == out@.to_multiset().count(
                        rest@[0],
                    ) + rest@.to_multiset().count(rest@[0]));
                    assert(orig.contains(rest@[0]));
                    let i = choose|i: int| 0 <= i < orig.len() && orig[i] == rest@[0];
                    assert(surf_bbox_spec(orig[i], time0@, time1@) is None);
                    assert(!all_boxed(orig, time0@, time1@));
                }
                return Err(BuildError::MissingBoundingBox);
            },
        };
        let mut j: usize = 1;
        while j < rest.len()
            invariant
                orig == objects@,
                list_wf(rest@),
                rest@.len() > 0,
                min_idx < rest@.len(),
                j <= rest@.len(),
                forall|k: int|
                    0 <= k < j ==> (#[trigger] surf_bbox_spec(rest@[k], time0@, time1@)) is Some,
                out@.to_multiset().add(rest@.to_multiset()) =~= orig.to_multiset(),
                mag(time0@) <= WORLD_MAX as int,
                mag(time1@) <= WORLD_MAX as int,
            decreases rest@.len() - j,
        {
            match rest[j].bounding_box(time0, time1) {
                Some(b) => {
                    let key = axis_component(&b, axis);
                    if key < min_key {
                        min_key = key;
                        min_idx = j;
                    }
                },
                None => {
                    proof {
                        broadcast use group_to_multiset_ensures;
                        broadcast use vstd::multiset::group_multiset_axioms;

                        assert(rest@.contains(rest@[j as int]));
                        assert(rest@.to_multiset().count(rest@[j as int]) > 0);
                        assert(orig.to_multiset().count(rest@[j as int]) == out@.to_multiset()
                            .count(rest@[j as int]) + rest@.to_multiset().count(rest@[j as int]));
                        assert(orig.contains(rest@[j as int]));
                        let i = choose|i: int|
                            0 <= i < orig.len() && orig[i] == rest@[j as int];
                        assert(surf_bbox_spec(orig[i], time0@, time1@) is None);
                        assert(!all_boxed(orig, time0@, time1@));
                    }
                    return Err(BuildError::MissingBoundingBox);
                },
            }
            j = j + 1;
        }
        let picked = rest.remove(min_idx);
        out.push(picked);
    }
    proof {
        broadcast use group_to_multiset_ensures;
        broadcast use vstd::multiset::group_multiset_axioms;

        assert forall|i: int| 0 <= i < orig.len() implies (#[trigger] surf_bbox_spec(
            orig[i],
            time0@,
            time1@,
        )) is Some by {
            assert(orig.contains(orig[i]));
            assert(orig.to_multiset().count(orig[i]) > 0);
            assert(!rest@.contains(orig[i]));
            assert(rest@.to_multiset().count(orig[i]) == 0);
            assert(orig.to_multiset().count(orig[i]) == out@.to_multiset().count(orig[i])
                + rest@.to_multiset().count(orig[i]));
            assert(out@.to_multiset().count(orig[i]) > 0);
            assert(out@.contains(orig[i]));
            let k = choose|k: int| 0 <= k < out@.len() && out@[k] == orig[i];
            assert(surf_bbox_spec(out@[k], time0@, time1@) is Some);
        }
    }
    Ok(out)
}

/// The `axis`-th component of the box's minimum corner (any axis
/// beyond the third falls back to the last).
fn axis_component(b: &Aabb, axis: usize) -> (r: i64) {
    if axis == 0 {
        b.min.x.raw
    } else if axis == 1 {
        b.min.y.raw
    } else {
        b.min.z.raw
    }
}

impl BvhNode {
    /// Builds a hierarchy over the given surfaces: a random axis is drawn,
    /// the surfaces are ordered by box minimum along it, and the halves are
    /// built recursively; a single surface stands for itself.  Each node
    /// caches the union of its children's boxes.  The tree holds exactly
    /// the input surfaces as its fringe; construction succeeds exactly when
    /// every input surface yields a bounding box, and fails loudly
    /// otherwise.  (Traversal equivalence, `lemma_bvh_equals_list`, needs
    /// one thing more: that each cached box semantically *covers* its
    /// subtrees.  Fixed-point rounding at box faces keeps that a stated
    /// premise, `bvh_sound`, rather than a construction guarantee.)
    pub fn from_objects(
        objects: Vec<Surface>,
        time0: Fx,
        time1: Fx,
        rng: &mut rand::rngs::ThreadRng,
    ) -> (res: Result<Surface, BuildError>)
        requires
            objects@.len() >= 1,
            list_wf(objects@),
            list_leafy(objects@),
            mag(time0@) <= WORLD_MAX as int,
            mag(time1@) <= WORLD_MAX as int,
        ensures
            res is Ok <==> all_boxed(objects@, time0@, time1@),
            res matches Ok(s) ==> surf_wf(s) && leaves(s).to_multiset() == objects@.to_multiset()
                && surf_bbox_spec(s, time0@, time1@) is Some,
            res matches Ok(s) ==> (s matches Surface::Bvh(n) ==> surf_bbox_spec(
                *n.left,
                time0@,
                time1@,
            ) is Some && surf_bbox_spec(*n.right, time0@, time1@) is Some && n.abox
                == crate::aabb::union_box(
                surf_bbox_spec(*n.left, time0@, time1@).unwrap(),
                surf_bbox_spec(*n.right, time0@, time1@).unwrap(),
            )),
            res matches Err(e) ==> e == BuildError::MissingBoundingBox,
        decreases objects@.len(),
    {
        proof {
            broadcast use group_to_multiset_ensures;

        }
        let ghost orig0 = objects@;
        let axis = crate::rng::rand_index(rng, 3);
        let mut objects = objects;
        if objects.len() == 1 {
            let s = objects.pop().unwrap();
            proof {
                assert(orig0 =~= seq![s]);
                assert(leaves(s) =~= seq![s]);
            }
            match s.bounding_box(time0, time1) {
                None => {
                    proof {
                        assert(surf_bbox_spec(orig0[0], time0@, time1@) is None);
                    }
                    return Err(BuildError::MissingBoundingBox);
                },
                Some(_) => {
                    proof {
                        assert forall|i: int| 0 <= i < orig0.len() implies (
                        #[trigger] surf_bbox_spec(orig0[i], time0@, time1@)) is Some by {
                            assert(orig0[i] == s);
                        }
                    }
                    return Ok(s);
                },
            }
        }
        let mut sorted = match sort_by_axis(objects, axis, time0, time1) {
            Ok(v) => v,
            Err(e) => {
                return Err(e);
            },
        };
        let ghost sorted0 = sorted@;
        let (l, r) = if sorted.len() == 2 {
            let b = sorted.pop().unwrap();
            let a = sorted.pop().unwrap();
            proof {
                assert(sorted0 =~= seq![a, b]);
                assert(seq![a, b] =~= seq![a] + seq![b]);
                lemma_multiset_commutative(seq![a], seq![b]);
                assert(leaves(a) =~= seq![a]);
                assert(leaves(b) =~= seq![b]);
            }
            (a, b)
        } else {
            let mid = sorted.len() / 2;
            let back = sorted.split_off(mid);
            proof {
                assert(sorted@ + back@ =~= sorted0);
                lemma_multiset_commutative(sorted@, back@);
            }
            let lres = match BvhNode::from_objects(sorted, time0, time1, rng) {
                Ok(s) => s,
                Err(e) => {
                    return Err(e);
                },
            };
            let rres = match BvhNode::from_objects(back, time0, time1, rng) {
                Ok(s) => s,
                Err(e) => {
                    return Err(e);
                },
            };
            (lres, rres)
        };
        let lb = match l.bounding_box(time0, time1) {
            Some(b) => b,
            None => {
                return Err(BuildError::MissingBoundingBox);
            },
        };
        let rb = match r.bounding_box(time0, time1) {
            Some(b) => b,
            None => {
                return Err(BuildError::MissingBoundingBox);
            },
        };
        let abox = Aabb::surrounding_box(&lb, &rb);
        let node = BvhNode { left: Box::new(l), right: Box::new(r), abox };
        proof {
            lemma_multiset_commutative(leaves(*node.left), leaves(*node.right));
        }
        Ok(Surface::Bvh(node))
    }

    /// Builds the hierarchy over a whole scene list.  An empty scene is a
    /// construction error.
    pub fn from_list(list: HittableList, time0: Fx, time1: Fx) -> (res: Result<
        Surface,
        BuildError,
    >)
        requires
            list_wf(list.objects@),
            list_leafy(list.objects@),
            mag(time0@) <= WORLD_MAX as int,
            mag(time1@) <= WORLD_MAX as int,
        ensures
            res matches Ok(s) ==> surf_wf(s) && leaves(s).to_multiset()
                == list.objects@.to_multiset() && surf_bbox_spec(s, time0@, time1@) is Some,
            list.objects@.len() == 0 ==> res == Result::<Surface, BuildError>::Err(
                BuildError::EmptyScene,
            ),
            list.objects@.len() > 0 ==> (res is Ok <==> all_boxed(
                list.objects@,
                time0@,
                time1@,
            )),
            list.objects@.len() > 0 ==> (res matches Err(e) ==> e
                == BuildError::MissingBoundingBox),
    {
        if list.objects.len() == 0 {
            return Err(BuildError::EmptyScene);
        }
        let mut rng = crate::rng::fresh_rng();
        BvhNode::from_objects(list.objects, time0, time1, &mut rng)
    }
}


// The equivalence of hierarchy traversal with the flat nearest-hit scan.

/// Compares two surfaces by the minimum corner of their boxes along the
/// given axis, or answers none if either box is missing.
pub fn box_compare(a: &Surface, b: &Surface, axis: usize, time0: Fx, time1: Fx) -> (r: Option<
    bool,
>)
    requires
        surf_wf(*a),
        surf_wf(*b),
        mag(time0@) <= WORLD_MAX as int,
        mag(time1@) <= WORLD_MAX as int,
{
    match (a.bounding_box(time0, time1), b.bounding_box(time0, time1)) {
        (Some(ba), Some(bb)) => Some(axis_component(&ba, axis) < axis_component(&bb, axis)),
        _ => None,
    }
}

/// Comparison along the first axis.
pub fn box_x_compare(a: &Surface, b: &Surface, time0: Fx, time1: Fx) -> (r: Option<bool>)
    requires
        surf_wf(*a),
        surf_wf(*b),
        mag(time0@) <= WORLD_MAX as int,
        mag(time1@) <= WORLD_MAX as int,
{
    box_compare(a, b, 0, time0, time1)
}

/// Comparison along the second axis.
pub fn box_y_compare(a: &Surface, b: &Surface, time0: Fx, time1: Fx) -> (r: Option<bool>)
    requires
        surf_wf(*a),
        surf_wf(*b),
        mag(time0@) <= WORLD_MAX as int,
        mag(time1@) <= WORLD_MAX as int,
{
    box_compare(a, b, 1, time0, time1)
}

/// Comparison along the third axis.
pub fn box_z_compare(a: &Surface, b: &Surface, time0: Fx, time1: Fx) -> (r: Option<bool>)
    requires
        surf_wf(*a),
        surf_wf(*b),
        mag(time0@) <= WORLD_MAX as int,
        mag(time1@) <= WORLD_MAX as int,
{
    box_compare(a, b, 2, time0, time1)
}

/// The nearest-hit scan, recast structurally: probe the first surface,
/// tighten the bound on a hit, continue on the rest.
pub open spec fn scan_rec(objs: Seq<Surface>, r: Ray, t0: int, cur: int, best: Option<
    HitRecord,
>) -> Option<HitRecord>
    decreases objs.len(),
{
    if objs.len() == 0 {
        best
    } else {
        match surf_hit_det(objs[0], r, t0, cur) {
            Some(rec) => scan_rec(objs.drop_first(), r, t0, rec.t@, Some(rec)),
            None => scan_rec(objs.drop_first(), r, t0, cur, best),
        }
    }
}

/// The indexed scan equals the structural scan of the remaining suffix.
pub proof fn lemma_scan_skip(objs: Seq<Surface>, i: int, r: Ray, t0: int, cur: int, best: Option<
    HitRecord,
>)
    requires
        0 <= i <= objs.len(),
    ensures
        scan_hit(objs, i, r, t0, cur, best) == scan_rec(objs.skip(i), r, t0, cur, best),
    decreases objs.len() - i,
{
    if i < objs.len() {
        assert(objs.skip(i)[0] == objs[i]);
        assert(objs.skip(i).drop_first() =~= objs.skip(i + 1));
        match surf_hit_det(objs[i], r, t0, cur) {
            Some(rec) => {
                lemma_scan_skip(objs, i + 1, r, t0, rec.t@, Some(rec));
            },
            None => {
                lemma_scan_skip(objs, i + 1, r, t0, cur, best);
            },
        }
    } else {
        assert(objs.skip(i).len() == 0);
    }
}

/// A scan that already holds a best hit always answers some hit.
proof fn lemma_scan_rec_some(objs: Seq<Surface>, r: Ray, t0: int, cur: int, b: HitRecord)
    ensures
        scan_rec(objs, r, t0, cur, Some(b)) is Some,
    decreases objs.len(),
{
    if objs.len() > 0 {
        match surf_hit_det(objs[0], r, t0, cur) {
            Some(rec) => {
                lemma_scan_rec_some(objs.drop_first(), r, t0, rec.t@, rec);
            },
            None => {
                lemma_scan_rec_some(objs.drop_first(), r, t0, cur, b);
            },
        }
    }
}

/// Carrying a best hit into a scan only changes the answer where the scan
/// alone finds nothing.
proof fn lemma_scan_rec_with_best(objs: Seq<Surface>, r: Ray, t0: int, cur: int, b: HitRecord)
    ensures
        scan_rec(objs, r, t0, cur, Some(b)) == match scan_rec(objs, r, t0, cur, None) {
            Some(x) => Some(x),
            None => Some(b),
        },
    decreases objs.len(),
{
    if objs.len() > 0 {
        match surf_hit_det(objs[0], r, t0, cur) {
            Some(rec) => {
                lemma_scan_rec_some(objs.drop_first(), r, t0, rec.t@, rec);
            },
            None => {
                lemma_scan_rec_with_best(objs.drop_first(), r, t0, cur, b);
            },
        }
    }
}

/// Scanning a concatenation is scanning the first part, then the second
/// with the bound tightened by the first part's hit.
proof fn lemma_scan_rec_append(a: Seq<Surface>, b: Seq<Surface>, r: Ray, t0: int, cur: int)
    ensures
        scan_rec(a + b, r, t0, cur, None) == match scan_rec(a, r, t0, cur, None) {
            None => scan_rec(b, r, t0, cur, None),
            Some(la) => match scan_rec(b, r, t0, la.t@, None) {
                Some(x) => Some(x),
                None => Some(la),
            },
        },
    decreases a.len(),
{
    if a.len() == 0 {
        assert(a + b =~= b);
    } else {
        assert((a + b)[0] == a[0]);
        assert((a + b).drop_first() =~= a.drop_first() + b);
        match surf_hit_det(a[0], r, t0, cur) {
            Some(rec) => {
                lemma_scan_rec_with_best(a.drop_first() + b, r, t0, rec.t@, rec);
                lemma_scan_rec_append(a.drop_first(), b, r, t0, rec.t@);
                lemma_scan_rec_with_best(a.drop_first(), r, t0, rec.t@, rec);
                match scan_rec(a.drop_first(), r, t0, rec.t@, None) {
                    Some(la) => {
                        lemma_scan_rec_with_best(b, r, t0, la.t@, la);
                    },
                    None => {
                    },
                }
            },
            None => {
                lemma_scan_rec_append(a.drop_first(), b, r, t0, cur);
            },
        }
    }
}

/// A box semantically covers a surface when every hit of the surface also
/// passes the box's slab test.
pub open spec fn covered_by(s: Surface, bx: Aabb) -> bool {
    forall|r: Ray, t0: int, t1: int|
        (#[trigger] surf_hit_det(s, r, t0, t1)) is Some ==> aabb_hit_spec(bx, r, t0, t1)
}

/// Every hierarchy node's cached box covers both its subtrees — the
/// pruning invariant.  Construction cannot establish it (fixed-point
/// rounding leaves a sliver of doubt at box faces), so equivalence takes
/// it as a premise.
pub open spec fn bvh_sound(s: Surface) -> bool
    decreases s,
{
    match s {
        Surface::Bvh(n) => covered_by(*n.left, n.abox) && covered_by(*n.right, n.abox)
            && bvh_sound(*n.left) && bvh_sound(*n.right),
        _ => true,
    }
}

/// Hierarchy traversal is observationally the flat nearest-hit scan of
/// its fringe: box pruning loses no hit (under the covering premise), and
/// the left-then-tightened-right probe order is the scan's own order.
pub proof fn lemma_bvh_flatten(s: Surface, r: Ray, t0: int, t1: int)
    requires
        bvh_sound(s),
    ensures
        surf_hit_det(s, r, t0, t1) == scan_rec(leaves(s), r, t0, t1, None),
    decreases s,
{
    match s {
        Surface::Bvh(n) => {
            assert(leaves(s) == leaves(*n.left) + leaves(*n.right));
            lemma_bvh_flatten(*n.left, r, t0, t1);
            lemma_scan_rec_append(leaves(*n.left), leaves(*n.right), r, t0, t1);
            if !aabb_hit_spec(n.abox, r, t0, t1) {
                assert(surf_hit_det(*n.left, r, t0, t1) is None);
                assert(surf_hit_det(*n.right, r, t0, t1) is None);
                lemma_bvh_flatten(*n.right, r, t0, t1);
            } else {
                match surf_hit_det(*n.left, r, t0, t1) {
                    Some(lr) => {
                        lemma_bvh_flatten(*n.right, r, t0, lr.t@);
                    },
                    None => {
                        lemma_bvh_flatten(*n.right, r, t0, t1);
                    },
                }
            }
        },
        _ => {
            assert(leaves(s) =~= seq![s]);
            assert(leaves(s).drop_first() =~= Seq::<Surface>::empty());
            assert(leaves(s)[0] == s);
            match surf_hit_det(s, r, t0, t1) {
                Some(rec) => {
                    assert(scan_rec(leaves(s), r, t0, t1, None) == scan_rec(
                        Seq::<Surface>::empty(),
                        r,
                        t0,
                        rec.t@,
                        Some(rec),
                    ));
                    assert(surf_hit_det(s, r, t0, t1) == scan_rec(leaves(s), r, t0, t1, None));
                },
                None => {
                    assert(scan_rec(leaves(s), r, t0, t1, None) == scan_rec(
                        Seq::<Surface>::empty(),
                        r,
                        t0,
                        t1,
                        None::<HitRecord>,
                    ));
                    assert(surf_hit_det(s, r, t0, t1) == scan_rec(leaves(s), r, t0, t1, None));
                },
            }
        },
    }
}

/// The acceleration structure is observationally equivalent to the brute
/// force scan: a sound hierarchy whose fringe is a surface list answers,
/// for every ray and interval, exactly what the linear nearest-hit scan of
/// that list answers.
pub proof fn lemma_bvh_equals_list(s: Surface, objs: Seq<Surface>, r: Ray, t0: int, t1: int)
    requires
        bvh_sound(s),
        leaves(s) == objs,
    ensures
        surf_hit_det(s, r, t0, t1) == list_hit_det(objs, r, t0, t1),
{
    lemma_bvh_flatten(s, r, t0, t1);
    lemma_scan_skip(objs, 0, r, t0, t1, None);
    assert(objs.skip(0) =~= objs);
}

/// A subtree covered by a box is covered by every larger box: the slab
/// test only widens when the box grows, so the union box a node caches
/// covers whatever its children's boxes cover.
pub proof fn lemma_covered_by_grows(s: Surface, inner: Aabb, outer: Aabb)
    requires
        covered_by(s, inner),
        crate::aabb::box_contains(outer, inner),
        aabb_ordered(inner),
    ensures
        covered_by(s, outer),
{
    assert forall|r: Ray, t0: int, t1: int|
        (#[trigger] surf_hit_det(s, r, t0, t1)) is Some implies aabb_hit_spec(
        outer,
        r,
        t0,
        t1,
    ) by {
        crate::aabb::lemma_aabb_hit_monotone(inner, outer, r, t0, t1);
    }
}

} // verus!
