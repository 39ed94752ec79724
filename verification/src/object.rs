//! The things a ray can hit, and the nearest of the hits.
use crate::material::Material;
use crate::ray::Range;
use crate::scalar::Scalar;
use crate::vector::Vec3;
use vstd::prelude::*;

mod sphere;

pub use sphere::Sphere;

verus! {

/// One place where a ray's line meets a surface, as the arithmetic found it.
#[derive(Clone, Copy, Debug, PartialEq, Eq, Structural)]
pub struct Crossing {
    /// The ray parameter of the place.
    pub t: Scalar,
    /// The place itself, `origin + t * direction`.
    pub point: Vec3,
    /// The unit normal there that points away from the object.
    pub outward_normal: Vec3,
    /// The dot product of the ray's direction and `outward_normal`.
    pub facing: Scalar,
}

/// The two places where a ray's line meets one object: the roots of the
/// quadratic `|origin + t * direction - center|^2 = radius^2`.
#[derive(Clone, Copy, Debug, PartialEq, Eq, Structural)]
pub struct Intersection {
    /// The quarter discriminant, `half_b^2 - a * c`. The line meets the
    /// object in two places exactly where it is above zero.
    pub discriminant: Scalar,
    /// The place at the smaller root, `(-half_b - sqrt(discriminant)) / a`.
    pub near: Crossing,
    /// The place at the larger root, `(-half_b + sqrt(discriminant)) / a`.
    pub far: Crossing,
}

impl Intersection {
    /// The smaller root is not above the larger one, unless one is a NaN.
    pub open spec fn ordered(self) -> bool {
        self.near.t.nan() || self.far.t.nan() || self.near.t.value() <= self.far.t.value()
    }
}

/// A hit: where a ray met a surface, and how the surface faces the ray.
#[derive(Clone, Copy, Debug)]
pub struct HitRecord<'m> {
    pub point: Vec3,
    /// The unit normal on the side the ray came from.
    pub normal: Vec3,
    pub t: Scalar,
    pub material: &'m Material,
    /// Whether the ray met the surface from outside the object.
    pub front_face: bool,
}

impl<'m> HitRecord<'m> {
    /// The hit at a crossing of a surface of the given material. The ray
    /// comes from outside where it runs against the outward normal, and the
    /// hit's normal is the one of the two that the ray runs against.
    pub open spec fn at(crossing: Crossing, material: &'m Material) -> HitRecord<'m> {
        let front_face = crossing.facing.lt_spec(Scalar::zero_spec());
        HitRecord {
            point: crossing.point,
            normal: if front_face {
                crossing.outward_normal
            } else {
                crossing.outward_normal.neg_spec()
            },
            t: crossing.t,
            material,
            front_face,
        }
    }

    /// The hit at `point`, at ray parameter `t`, of a ray whose direction has
    /// the dot product `facing` with the outward normal there.
    pub fn new(
        facing: Scalar,
        point: Vec3,
        outward_normal: Vec3,
        t: Scalar,
        material: &'m Material,
    ) -> (r: Self)
        ensures
            r == Self::at(Crossing { t, point, outward_normal, facing }, material),
            r.front_face <==> !facing.nan() && facing.value() < 0,
            r.front_face ==> r.normal == outward_normal,
            !r.front_face ==> r.normal == outward_normal.neg_spec(),
    {
        let front_face = facing.lt(Scalar::zero());
        let normal = if front_face {
            outward_normal
        } else {
            outward_normal.neg()
        };
        HitRecord { point, normal, t, material, front_face }
    }
}

/// A thing in the scene.
#[derive(Clone, Copy, Debug, PartialEq, Eq, Structural)]
pub enum Object {
    Sphere(Sphere),
}

impl Object {
    /// The object's hit within a range, from its two crossings.
    pub open spec fn hit_spec(&self, found: Intersection, t_range: Range) -> Option<HitRecord<'_>> {
        match self {
            Object::Sphere(sphere) => sphere.hit_spec(found, t_range),
        }
    }

    /// The object's hit within a range, from its two crossings.
    pub fn hit(&self, found: &Intersection, t_range: Range) -> (r: Option<HitRecord<'_>>)
        ensures
            r == self.hit_spec(*found, t_range),
    {
        match self {
            Object::Sphere(sphere) => sphere.hit(found, t_range),
        }
    }
}

/// The range that is left to search once a hit was found: it ends at the
/// hit, so that only a nearer hit can take its place.
pub open spec fn narrowed(t_range: Range, best: Option<HitRecord<'_>>) -> Range {
    match best {
        Some(record) => Range { start: t_range.start, end: record.t },
        None => t_range,
    }
}

/// The hit that a scan of the first `n` objects ends with. Each object is
/// asked for its hit in the range that the hits before it have left.
pub open spec fn scan<'o>(
    objects: Seq<Object>,
    found: Seq<Intersection>,
    t_range: Range,
    n: nat,
) -> Option<HitRecord<'o>>
    decreases n,
{
    if n == 0 {
        None
    } else {
        let before = scan(objects, found, t_range, (n - 1) as nat);
        match objects[n - 1].hit_spec(found[n - 1], narrowed(t_range, before)) {
            Some(record) => Some(record),
            None => before,
        }
    }
}

/// Whether object `i` has the nearest of the hits that the first `n` objects
/// have in `t_range`, each taken alone: no hit is nearer than its hit, and no
/// object before it has a hit as near.
pub open spec fn nearest_at(
    objects: Seq<Object>,
    found: Seq<Intersection>,
    t_range: Range,
    n: nat,
    i: int,
) -> bool {
    &&& 0 <= i < n
    &&& objects[i].hit_spec(found[i], t_range) matches Some(record)
    &&& forall|j: int|
        0 <= j < n ==> (#[trigger] objects[j].hit_spec(found[j], t_range) matches Some(other)
            ==> if j < i {
            record.t.value() < other.t.value()
        } else {
            record.t.value() <= other.t.value()
        })
}

/// The lesser of two lengths.
pub open spec fn shorter(a: nat, b: nat) -> nat {
    if a <= b {
        a
    } else {
        b
    }
}

/// The nearest hit of a ray among the objects, within `t_range`.
/// `found[i]` holds the two crossings of the ray with `objects[i]`; objects
/// without crossings of their own are left out of the scan.
/// The objects are tried in order, and each must beat the nearest hit so
/// far, so that of two hits at one distance the earlier object's stays.
pub fn hit_iter<'o>(objects: &'o [Object], found: &[Intersection], t_range: Range) -> (r: Option<
    HitRecord<'o>,
>)
    ensures
        r == scan(objects@, found@, t_range, shorter(objects@.len(), found@.len())),
        (forall|i: int| 0 <= i < found@.len() ==> (#[trigger] found@[i]).ordered()) ==> {
            let n = shorter(objects@.len(), found@.len());
            &&& r is None <==> forall|i: int|
                0 <= i < n ==> #[trigger] objects@[i].hit_spec(found@[i], t_range) is None
            &&& r matches Some(record) ==> t_range.contains_spec(record.t) && exists|i: int|
                #[trigger] nearest_at(objects@, found@, t_range, n, i) && objects@[i].hit_spec(
                    found@[i],
                    t_range,
                ) == Some(record)
        },
{
    proof {
        if forall|i: int| 0 <= i < found@.len() ==> (#[trigger] found@[i]).ordered() {
            lemma_scan_is_nearest(
                objects@,
                found@,
                t_range,
                shorter(objects@.len(), found@.len()),
            );
        }
    }
    let n: usize = if objects.len() <= found.len() {
        objects.len()
    } else {
        found.len()
    };
    let mut hit_record: Option<HitRecord<'o>> = None;
    let mut closest_so_far = t_range.end;
    let mut i: usize = 0;
    while i < n
        invariant
            i <= n,
            n <= objects@.len(),
            n <= found@.len(),
            hit_record == scan(objects@, found@, t_range, i as nat),
            narrowed(t_range, hit_record) == (Range { start: t_range.start, end: closest_so_far }),
        decreases n - i,
    {
        let left = Range { start: t_range.start, end: closest_so_far };
        if let Some(rec) = objects[i].hit(&found[i], left) {
            closest_so_far = rec.t;
            hit_record = Some(rec);
        }
        i += 1;
    }
    hit_record
}

/// A sphere's hit in a range that ends earlier is its hit in the whole
/// range, if that one lies before the new end, and none otherwise.
proof fn lemma_narrow(object: Object, found: Intersection, t_range: Range, end: Scalar)
    requires
        found.ordered(),
        end.le_spec(t_range.end),
    ensures
        object.hit_spec(found, (Range { start: t_range.start, end })) == (match object.hit_spec(
            found,
            t_range,
        ) {
            Some(record) => if record.t.lt_spec(end) {
                Some(record)
            } else {
                None
            },
            None => None,
        }),
{
}

/// A scan ends with the nearest of the hits that the objects have one by
/// one: with none exactly when no object has a hit in the range, and
/// otherwise with the hit of the first object whose own hit no other
/// object's hit is nearer than.
pub proof fn lemma_scan_is_nearest(
    objects: Seq<Object>,
    found: Seq<Intersection>,
    t_range: Range,
    n: nat,
)
    requires
        n <= objects.len(),
        n <= found.len(),
        forall|i: int| 0 <= i < n ==> (#[trigger] found[i]).ordered(),
    ensures
        scan(objects, found, t_range, n) is None <==> forall|i: int|
            0 <= i < n ==> #[trigger] objects[i].hit_spec(found[i], t_range) is None,
        scan(objects, found, t_range, n) matches Some(record) ==> t_range.contains_spec(record.t)
            && exists|i: int|
            #[trigger] nearest_at(objects, found, t_range, n, i) && objects[i].hit_spec(
                found[i],
                t_range,
            ) == Some(record),
    decreases n,
{
    if n > 0 {
        let k = (n - 1) as nat;
        lemma_scan_is_nearest(objects, found, t_range, k);
        let before = scan(objects, found, t_range, k);
        let alone = objects[k as int].hit_spec(found[k as int], t_range);
        assert(found[k as int].ordered());
        match before {
            Some(best) => {
                lemma_narrow(objects[k as int], found[k as int], t_range, best.t);
                let i = choose|i: int|
                    #[trigger] nearest_at(objects, found, t_range, k, i) && objects[i].hit_spec(
                        found[i],
                        t_range,
                    ) == Some(best);
                match objects[k as int].hit_spec(found[k as int], narrowed(t_range, before)) {
                    Some(record) => {
                        assert(alone == Some(record));
                        assert(nearest_at(objects, found, t_range, n, k as int));
                    },
                    None => {
                        assert(nearest_at(objects, found, t_range, n, i));
                    },
                }
            },
            None => {
                match alone {
                    Some(record) => {
                        assert(nearest_at(objects, found, t_range, n, k as int));
                    },
                    None => {},
                }
            },
        }
    }
}

} // verus!
