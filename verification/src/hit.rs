//! Intersections: the query interval, the two crossings of a ray with a
//! sphere, the oriented hit record, and the search for the nearest hit.

use vstd::prelude::*;
use crate::arithmetic::Arithmetic;
use crate::material::Material;
use crate::ray::Ray;
use crate::scalar::Scalar;
use crate::vec3::Vec3;

verus! {

/// The half-open interval of ray parameters `start <= t < end`.
#[derive(Clone, Copy, Debug, PartialEq, Eq, Structural)]
pub struct Interval {
    pub start: Scalar,
    pub end: Scalar,
}

impl Interval {
    /// Whether `t` lies in the interval. A NaN lies in none, and an interval
    /// with a NaN bound holds nothing.
    pub open spec fn holds(self, t: Scalar) -> bool {
        self.start.at_most(t) && t.below(self.end)
    }

    pub fn new(start: Scalar, end: Scalar) -> (r: Interval)
        ensures
            r.start == start,
            r.end == end,
    {
        Interval { start, end }
    }

    /// The interval from just above the ray's origin to infinity, in which
    /// a traced ray looks for surfaces: a surface nearer than `0.000001` is
    /// taken for the one the ray has just left.
    pub open spec fn spec_forward() -> Interval {
        Interval { start: Scalar::epsilon(), end: Scalar::infinity() }
    }

    /// The interval from just above the ray's origin to infinity.
    #[verifier::when_used_as_spec(spec_forward)]
    pub fn forward() -> (r: Interval)
        ensures
            r == Self::spec_forward(),
    {
        Interval { start: Scalar::epsilon(), end: Scalar::infinity() }
    }

    pub fn contains(&self, t: Scalar) -> (r: bool)
        ensures
            r == self.holds(t),
    {
        self.start.le(t) && t.lt(self.end)
    }

    /// The same interval cut off at `end`.
    pub fn ending_at(&self, end: Scalar) -> (r: Interval)
        ensures
            r.start == self.start,
            r.end == end,
    {
        Interval { start: self.start, end }
    }
}

/// One point where a ray crosses a sphere, with what the caller computed
/// there: the ray parameter `t`, the point, the outward normal
/// `(point - center) / radius`, and `facing`, the scalar product of the ray's
/// direction and that normal.
#[derive(Clone, Copy, Debug, PartialEq, Eq, Structural)]
pub struct Crossing {
    pub t: Scalar,
    pub point: Vec3,
    pub outward_normal: Vec3,
    pub facing: Scalar,
}

/// The solution of a ray's quadratic for one sphere: the discriminant
/// `half_b^2 - a*c`, the crossing at the smaller root `(-half_b - sqrt) / a`
/// and the crossing at the larger root `(-half_b + sqrt) / a`.
#[derive(Clone, Copy, Debug, PartialEq, Eq, Structural)]
pub struct Crossings {
    pub discriminant: Scalar,
    pub near: Crossing,
    pub far: Crossing,
}

impl Crossings {
    /// The near root is not above the far root, as far as both are numbers.
    pub open spec fn ordered(self) -> bool {
        self.near.t.nan() || self.far.t.nan() || self.near.t.at_most(self.far.t)
    }

    /// Whether the ray meets the sphere at all: the discriminant is above
    /// zero.
    pub open spec fn meets(self) -> bool {
        Scalar::zero().below(self.discriminant)
    }

    /// The crossing that counts within `range`: the near one if its root
    /// lies in the interval, else the far one if its root does, else none.
    pub open spec fn pick(self, range: Interval) -> Option<Crossing> {
        if !self.meets() {
            None
        } else if range.holds(self.near.t) {
            Some(self.near)
        } else if range.holds(self.far.t) {
            Some(self.far)
        } else {
            None
        }
    }

    pub fn first_in(&self, range: &Interval) -> (r: Option<Crossing>)
        ensures
            r == self.pick(*range),
    {
        if self.discriminant.gt(Scalar::zero()) {
            if range.contains(self.near.t) {
                return Some(self.near);
            }
            if range.contains(self.far.t) {
                return Some(self.far);
            }
        }
        None
    }
}

/// What a ray found at a surface. The normal is turned against the ray.
#[derive(Clone, Copy, Debug, PartialEq, Eq, Structural)]
pub struct Hit {
    pub point: Vec3,
    pub normal: Vec3,
    pub t: Scalar,
    pub front_face: bool,
    pub material: Material,
}

impl Hit {
    /// The hit record for a surface point with outward normal
    /// `outward_normal`, where `facing` is the scalar product of the ray's
    /// direction and that normal: below zero, the ray struck the outer side
    /// and the normal is kept; otherwise it is turned round.
    pub open spec fn oriented(
        point: Vec3,
        outward_normal: Vec3,
        t: Scalar,
        facing: Scalar,
        material: Material,
    ) -> Hit {
        let front_face = facing.below(Scalar::zero());
        Hit {
            point,
            normal: if front_face {
                outward_normal
            } else {
                outward_normal.negated()
            },
            t,
            front_face,
            material,
        }
    }

    /// The hit record that a crossing gives on a surface of `material`.
    pub open spec fn at(crossing: Crossing, material: Material) -> Hit {
        Self::oriented(
            crossing.point,
            crossing.outward_normal,
            crossing.t,
            crossing.facing,
            material,
        )
    }

    /// The scalar product of the ray's direction and the stored normal:
    /// `facing` itself for a hit on the outer side, its negation otherwise
    /// (turning a vector round negates its scalar products exactly).
    pub open spec fn incidence(facing: Scalar) -> Scalar {
        if facing.below(Scalar::zero()) {
            facing
        } else {
            facing.negated()
        }
    }

    pub fn new(
        point: Vec3,
        outward_normal: Vec3,
        t: Scalar,
        facing: Scalar,
        material: Material,
    ) -> (hit: Hit)
        ensures
            hit == Self::oriented(point, outward_normal, t, facing, material),
    {
        let front_face = facing.lt(Scalar::zero());
        Hit {
            point,
            normal: if front_face {
                outward_normal
            } else {
                outward_normal.neg()
            },
            t,
            front_face,
            material,
        }
    }
}

/// The stored normal never points along the ray: whenever the scalar product
/// of direction and outward normal is a number, the scalar product of
/// direction and stored normal (`facing` itself on the outer side, its
/// negation on the inner side, where the normal is turned round) is at most
/// zero.
pub proof fn normal_opposes_ray(
    point: Vec3,
    outward_normal: Vec3,
    t: Scalar,
    facing: Scalar,
    material: Material,
)
    requires
        !facing.nan(),
    ensures
        ({
            let hit = Hit::oriented(point, outward_normal, t, facing, material);
            &&& hit.front_face ==> hit.normal == outward_normal && Hit::incidence(facing) == facing
            &&& !hit.front_face ==> hit.normal == outward_normal.negated() && Hit::incidence(facing)
                == facing.negated()
            &&& Hit::incidence(facing).at_most(Scalar::zero())
        }),
{
}

/// A sphere. A negative radius turns the normals inward and makes a hollow
/// shell.
#[derive(Clone, Copy, Debug, PartialEq, Eq, Structural)]
pub struct Sphere {
    pub center: Vec3,
    pub radius: Scalar,
    pub material: Material,
}

impl Sphere {
    /// The hit of a ray with crossings `crossings` on this sphere within
    /// `t_range`.
    pub open spec fn hit_within(self, crossings: Crossings, t_range: Interval) -> Option<Hit> {
        match crossings.pick(t_range) {
            Some(c) => Some(Hit::at(c, self.material)),
            None => None,
        }
    }

    /// The nearest hit on this sphere within `t_range`, for a ray with the
    /// crossings `crossings`: at the smaller root if it lies in the
    /// interval, else at the larger if that does, and none where the
    /// discriminant is not above zero.
    pub fn hit_with(&self, crossings: &Crossings, t_range: &Interval) -> (r: Option<Hit>)
        ensures
            r == self.hit_within(*crossings, *t_range),
    {
        match crossings.first_in(t_range) {
            Some(c) => Some(Hit::new(c.point, c.outward_normal, c.t, c.facing, self.material)),
            None => None,
        }
    }

    /// The nearest hit of `ray` on this sphere within `t_range`.
    pub fn hit<A: Arithmetic>(&self, ray: Ray, t_range: Interval, ops: &A) -> (r: Option<Hit>)
        ensures
            exists|crossings: Crossings| #[trigger]
                call_ensures(A::solve, (ops, *self, ray), crossings) && r == self.hit_within(
                    crossings,
                    t_range,
                ),
    {
        let crossings = ops.solve(*self, ray);
        self.hit_with(&crossings, &t_range)
    }
}

/// An interval whose start is not below its end, or has a NaN for a bound,
/// holds nothing, so no sphere is hit within it.
pub proof fn empty_interval_hits_nothing(sphere: Sphere, crossings: Crossings, range: Interval)
    requires
        !range.start.below(range.end),
    ensures
        forall|t: Scalar| !range.holds(t),
        crossings.pick(range).is_none(),
        sphere.hit_within(crossings, range).is_none(),
{
}

/// Whether `hit`, on the sphere at `index`, is the nearest hit among the
/// first `count` spheres within `range`: it lies in the interval, it is a
/// crossing of that sphere (the one that counts on it, where its roots are
/// ordered), no sphere among them is hit before it, and none in front of
/// `index` at the same parameter.
pub open spec fn nearest_among(
    spheres: Seq<Sphere>,
    crossings: Seq<Crossings>,
    range: Interval,
    count: int,
    index: int,
    hit: Hit,
) -> bool {
    &&& 0 <= index < count
    &&& range.holds(hit.t)
    &&& crossings[index].meets()
    &&& (hit == Hit::at(crossings[index].near, spheres[index].material) || hit == Hit::at(
        crossings[index].far,
        spheres[index].material,
    ))
    &&& (crossings[index].ordered() ==> Some(hit) == spheres[index].hit_within(
        crossings[index],
        range,
    ))
    &&& forall|k: int|
        0 <= k < count ==> match #[trigger] crossings[k].pick(range) {
            Some(c) => hit.t.at_most(c.t),
            None => true,
        }
    &&& forall|k: int|
        0 <= k < index ==> match #[trigger] crossings[k].pick(range) {
            Some(c) => hit.t.below(c.t),
            None => true,
        }
}

/// There is one nearest hit at most: where the roots of the spheres that
/// are hit are ordered, two answers that both meet `nearest_among` name the
/// same sphere and hold the same record.
pub proof fn nearest_is_unique(
    spheres: Seq<Sphere>,
    crossings: Seq<Crossings>,
    range: Interval,
    first: (int, Hit),
    second: (int, Hit),
)
    requires
        spheres.len() == crossings.len(),
        nearest_among(spheres, crossings, range, spheres.len() as int, first.0, first.1),
        nearest_among(spheres, crossings, range, spheres.len() as int, second.0, second.1),
        crossings[first.0].ordered(),
        crossings[second.0].ordered(),
    ensures
        first == second,
{
    let a = crossings[first.0].pick(range);
    let b = crossings[second.0].pick(range);
    assert(a.is_some() && b.is_some());
    assert(first.1.t == a.unwrap().t);
    assert(second.1.t == b.unwrap().t);
    if first.0 < second.0 {
        assert(second.1.t.below(first.1.t));
        assert(first.1.t.at_most(second.1.t));
    } else if second.0 < first.0 {
        assert(first.1.t.below(second.1.t));
        assert(second.1.t.at_most(first.1.t));
    }
}

/// Whether `best` is the outcome of trying the first `count` spheres within
/// `range`: nothing, where none of them is hit; else the nearest hit among
/// them, on the sphere at `index`.
pub open spec fn scanned(
    spheres: Seq<Sphere>,
    crossings: Seq<Crossings>,
    range: Interval,
    count: int,
    best: Option<Hit>,
    index: int,
) -> bool {
    match best {
        None => forall|k: int|
            0 <= k < count ==> (#[trigger] crossings[k].pick(range)).is_none(),
        Some(hit) => nearest_among(spheres, crossings, range, count, index, hit),
    }
}

/// Whether `crossings` holds, for each of `spheres` in order, crossings that
/// the arithmetic gives for that sphere and `ray`.
pub open spec fn solved<A: Arithmetic>(
    ops: &A,
    spheres: Seq<Sphere>,
    ray: Ray,
    crossings: Seq<Crossings>,
) -> bool {
    &&& crossings.len() == spheres.len()
    &&& forall|k: int|
        0 <= k < spheres.len() ==> call_ensures(
            A::solve,
            (ops, spheres[k], ray),
            #[trigger] crossings[k],
        )
}

/// Whether `r` is the answer to a query within `range` on `spheres` with
/// crossings `crossings`: nothing exactly when no sphere is hit in the
/// interval, else the nearest hit.
pub open spec fn answers(
    spheres: Seq<Sphere>,
    crossings: Seq<Crossings>,
    range: Interval,
    r: Option<Hit>,
) -> bool {
    &&& r.is_none() <==> forall|k: int|
        0 <= k < spheres.len() ==> (#[trigger] crossings[k].pick(range)).is_none()
    &&& r matches Some(hit) ==> exists|index: int|
        nearest_among(spheres, crossings, range, spheres.len() as int, index, hit)
}

/// Tries one more sphere, the one at place `n`, within what is left of
/// `range` in front of the best hit so far. Returns its hit where it is
/// strictly nearer than the best so far.
fn try_next(
    sphere: &Sphere,
    here: &Crossings,
    range: Interval,
    best: Option<Hit>,
    Ghost(n): Ghost<int>,
    Ghost(index): Ghost<int>,
    Ghost(spheres): Ghost<Seq<Sphere>>,
    Ghost(crossings): Ghost<Seq<Crossings>>,
) -> (found: Option<Hit>)
    requires
        0 <= n < spheres.len(),
        n < crossings.len(),
        spheres[n] == *sphere,
        crossings[n] == *here,
        scanned(spheres, crossings, range, n, best, index),
    ensures
        match found {
            Some(hit) => scanned(spheres, crossings, range, n + 1, Some(hit), n),
            None => scanned(spheres, crossings, range, n + 1, best, index),
        },
{
    let current = match best {
        None => range,
        Some(hit) => range.ending_at(hit.t),
    };
    let found = sphere.hit_with(here, &current);
    proof {
        match here.pick(current) {
            Some(c) => {
                assert(range.holds(c.t));
                assert(here.ordered() ==> here.pick(range) == Some(c));
                assert(match here.pick(range) {
                    Some(x) => c.t.at_most(x.t),
                    None => true,
                });
            },
            None => {
                assert(match best {
                    None => here.pick(range).is_none(),
                    Some(hit) => match here.pick(range) {
                        Some(x) => hit.t.at_most(x.t),
                        None => true,
                    },
                });
            },
        }
    }
    found
}

/// Where all spheres have been tried, nothing was found exactly when no
/// sphere is hit.
proof fn scan_answers(
    spheres: Seq<Sphere>,
    crossings: Seq<Crossings>,
    range: Interval,
    best: Option<Hit>,
    index: int,
)
    requires
        spheres.len() == crossings.len(),
        scanned(spheres, crossings, range, spheres.len() as int, best, index),
    ensures
        answers(spheres, crossings, range, best),
{
    if let Some(hit) = best {
        assert(crossings[index].pick(range).is_some());
    }
}

/// The nearest hit of one ray among `spheres` within `range`, with the index
/// of the sphere that is hit. `crossings[k]` holds the ray's crossings with
/// `spheres[k]`.
///
/// The spheres are tried in order, each within an interval that ends at the
/// best hit so far, so that a later sphere wins only if it is strictly
/// nearer. Nothing is returned exactly when no sphere is hit within `range`.
pub fn nearest_hit(
    spheres: &Vec<Sphere>,
    crossings: &Vec<Crossings>,
    range: Interval,
) -> (r: Option<(usize, Hit)>)
    requires
        spheres.len() == crossings.len(),
    ensures
        r.is_none() <==> forall|k: int|
            0 <= k < spheres.len() ==> (#[trigger] crossings@[k].pick(range)).is_none(),
        r matches Some((index, hit)) ==> nearest_among(
            spheres@,
            crossings@,
            range,
            spheres.len() as int,
            index as int,
            hit,
        ),
{
    let mut best: Option<Hit> = None;
    let mut index: usize = 0;
    let mut n: usize = 0;
    while n < spheres.len()
        invariant
            n <= spheres.len(),
            spheres.len() == crossings.len(),
            scanned(spheres@, crossings@, range, n as int, best, index as int),
        decreases spheres.len() - n,
    {
        let found = try_next(
            &spheres[n],
            &crossings[n],
            range,
            best,
            Ghost(n as int),
            Ghost(index as int),
            Ghost(spheres@),
            Ghost(crossings@),
        );
        if found.is_some() {
            best = found;
            index = n;
        }
        n = n + 1;
    }
    proof {
        scan_answers(spheres@, crossings@, range, best, index as int);
    }
    match best {
        Some(hit) => Some((index, hit)),
        None => None,
    }
}

/// What a scan has reached: the best hit so far, and, for the proof, the
/// place it stands at, the place of the best hit, and the crossings solved
/// so far.
struct Progress {
    best: Option<Hit>,
    place: Ghost<int>,
    index: Ghost<int>,
    crossings: Ghost<Seq<Crossings>>,
}

impl Progress {
    /// Whether the scan of `spheres` stands at `place`, with every sphere in
    /// front of it solved and tried.
    spec fn valid<A: Arithmetic>(
        self,
        ops: &A,
        spheres: Seq<Sphere>,
        ray: Ray,
        range: Interval,
    ) -> bool {
        &&& 0 <= self.place@ <= spheres.len()
        &&& solved(ops, spheres.subrange(0, self.place@), ray, self.crossings@)
        &&& scanned(spheres, self.crossings@, range, self.place@, self.best, self.index@)
    }
}

/// The closed set of things a ray can hit: a sphere, or a list of things.
#[derive(Debug)]
pub enum Hittable {
    Sphere(Sphere),
    List(HittableList),
}

/// An ordered list of things, which owns them: a tree without sharing.
#[derive(Debug)]
pub struct HittableList {
    pub hittables: Vec<Hittable>,
}

impl Hittable {
    /// The spheres of the tree, in the order in which a ray tries them.
    pub open spec fn leaves(self) -> Seq<Sphere>
        decreases self, 0nat,
    {
        match self {
            Hittable::Sphere(s) => seq![s],
            Hittable::List(list) => list.leaves(),
        }
    }

    /// Appends the spheres of the tree to `out`.
    pub fn collect_spheres(&self, out: &mut Vec<Sphere>)
        ensures
            final(out)@ == old(out)@ + self.leaves(),
        decreases self, 0nat,
    {
        match self {
            Hittable::Sphere(s) => {
                out.push(*s);
            },
            Hittable::List(list) => {
                list.collect_spheres(out);
            },
        }
    }

    /// The spheres of the tree, in the order in which a ray tries them.
    pub fn spheres(&self) -> (out: Vec<Sphere>)
        ensures
            out@ == self.leaves(),
    {
        let mut out: Vec<Sphere> = Vec::new();
        self.collect_spheres(&mut out);
        out
    }

    /// Tries the spheres of this tree, which stand at the places from
    /// `so_far.place` on among `spheres`.
    fn scan<A: Arithmetic>(
        &self,
        ray: Ray,
        range: Interval,
        ops: &A,
        so_far: Progress,
        Ghost(spheres): Ghost<Seq<Sphere>>,
    ) -> (r: Progress)
        requires
            so_far.valid(ops, spheres, ray, range),
            so_far.place@ + self.leaves().len() <= spheres.len(),
            spheres.subrange(so_far.place@, so_far.place@ + self.leaves().len()) == self.leaves(),
        ensures
            r.valid(ops, spheres, ray, range),
            r.place@ == so_far.place@ + self.leaves().len(),
        decreases self, 0nat,
    {
        match self {
            Hittable::Sphere(sphere) => {
                let here = ops.solve(*sphere, ray);
                let ghost n = so_far.place@;
                let ghost crossings = so_far.crossings@.push(here);
                proof {
                    assert(spheres[n] == spheres.subrange(n, n + 1)[0]);
                    assert forall|k: int| 0 <= k < n implies crossings[k]
                        == so_far.crossings@[k] by {}
                    assert(scanned(spheres, crossings, range, n, so_far.best, so_far.index@));
                    assert(solved(ops, spheres.subrange(0, n + 1), ray, crossings)) by {
                        assert forall|k: int| 0 <= k < n + 1 implies call_ensures(
                            A::solve,
                            (ops, spheres.subrange(0, n + 1)[k], ray),
                            #[trigger] crossings[k],
                        ) by {
                            if k < n {
                                assert(spheres.subrange(0, n)[k] == spheres[k]);
                            }
                        }
                    }
                }
                let found = try_next(
                    sphere,
                    &here,
                    range,
                    so_far.best,
                    Ghost(n),
                    Ghost(so_far.index@),
                    Ghost(spheres),
                    Ghost(crossings),
                );
                match found {
                    Some(hit) => Progress {
                        best: Some(hit),
                        place: Ghost(n + 1),
                        index: Ghost(n),
                        crossings: Ghost(crossings),
                    },
                    None => Progress {
                        best: so_far.best,
                        place: Ghost(n + 1),
                        index: so_far.index,
                        crossings: Ghost(crossings),
                    },
                }
            },
            Hittable::List(list) => list.scan(ray, range, ops, so_far, Ghost(spheres)),
        }
    }

    /// The nearest hit of `ray` in the tree within `t_range`. The spheres are
    /// tried in order, a list within a list where it stands, each within the
    /// interval that the hits in front of it have left.
    ///
    /// Nothing is returned exactly when no sphere is hit within the
    /// interval; of the spheres that are hit, the one with the least
    /// parameter wins, and the earliest of those.
    pub fn hit<A: Arithmetic>(&self, ray: Ray, t_range: Interval, ops: &A) -> (r: Option<Hit>)
        ensures
            exists|crossings: Seq<Crossings>|
                solved(ops, self.leaves(), ray, crossings) && #[trigger] answers(
                    self.leaves(),
                    crossings,
                    t_range,
                    r,
                ),
    {
        let ghost spheres = self.leaves();
        let start = Progress {
            best: None,
            place: Ghost(0),
            index: Ghost(0),
            crossings: Ghost(Seq::empty()),
        };
        assert(spheres.subrange(0, spheres.len() as int) == spheres);
        let end = self.scan(ray, t_range, ops, start, Ghost(spheres));
        proof {
            scan_answers(spheres, end.crossings@, t_range, end.best, end.index@);
            assert(solved(ops, spheres, ray, end.crossings@));
        }
        end.best
    }
}

impl HittableList {
    /// The spheres below the first `count` children, in order.
    pub open spec fn leaves_of_first(self, count: nat) -> Seq<Sphere>
        decreases self, count,
    {
        if count == 0 || count > self.hittables@.len() {
            Seq::empty()
        } else {
            self.leaves_of_first((count - 1) as nat) + self.hittables@[count - 1].leaves()
        }
    }

    /// The spheres of the list, in the order in which a ray tries them:
    /// those of the first child, then those of the second, and so on.
    pub open spec fn leaves(self) -> Seq<Sphere>
        decreases self, self.hittables@.len() + 1,
    {
        self.leaves_of_first(self.hittables@.len())
    }

    /// The spheres below the first children are the first spheres of the
    /// list.
    pub proof fn leaves_of_first_is_prefix(self, count: nat)
        requires
            count <= self.hittables@.len(),
        ensures
            self.leaves_of_first(count).len() <= self.leaves().len(),
            self.leaves().subrange(0, self.leaves_of_first(count).len() as int)
                == self.leaves_of_first(count),
        decreases self.hittables@.len() - count,
    {
        if count < self.hittables@.len() {
            self.leaves_of_first_is_prefix(count + 1);
            let longer = self.leaves_of_first(count + 1);
            assert(longer == self.leaves_of_first(count) + self.hittables@[count as int].leaves());
            assert(self.leaves().subrange(0, self.leaves_of_first(count).len() as int)
                =~= longer.subrange(0, self.leaves_of_first(count).len() as int));
            assert(longer.subrange(0, self.leaves_of_first(count).len() as int)
                =~= self.leaves_of_first(count));
        } else {
            assert(self.leaves().subrange(0, self.leaves().len() as int) =~= self.leaves());
        }
    }

    /// Appends the spheres of the list to `out`.
    pub fn collect_spheres(&self, out: &mut Vec<Sphere>)
        ensures
            final(out)@ == old(out)@ + self.leaves(),
        decreases self, 1nat,
    {
        let mut i: usize = 0;
        while i < self.hittables.len()
            invariant
                i <= self.hittables.len(),
                out@ == old(out)@ + self.leaves_of_first(i as nat),
            decreases self.hittables.len() - i,
        {
            self.hittables[i].collect_spheres(out);
            i = i + 1;
        }
    }

    /// The spheres of the list, in the order in which a ray tries them.
    pub fn spheres(&self) -> (out: Vec<Sphere>)
        ensures
            out@ == self.leaves(),
    {
        let mut out: Vec<Sphere> = Vec::new();
        self.collect_spheres(&mut out);
        out
    }

    /// Tries the children in order, each within the interval that the hits
    /// in front of it have left.
    fn scan<A: Arithmetic>(
        &self,
        ray: Ray,
        range: Interval,
        ops: &A,
        so_far: Progress,
        Ghost(spheres): Ghost<Seq<Sphere>>,
    ) -> (r: Progress)
        requires
            so_far.valid(ops, spheres, ray, range),
            so_far.place@ + self.leaves().len() <= spheres.len(),
            spheres.subrange(so_far.place@, so_far.place@ + self.leaves().len()) == self.leaves(),
        ensures
            r.valid(ops, spheres, ray, range),
            r.place@ == so_far.place@ + self.leaves().len(),
        decreases self, 1nat,
    {
        let ghost first = so_far.place@;
        let mut progress = so_far;
        let mut i: usize = 0;
        while i < self.hittables.len()
            invariant
                i <= self.hittables.len(),
                0 <= first,
                first + self.leaves().len() <= spheres.len(),
                spheres.subrange(first, first + self.leaves().len()) == self.leaves(),
                progress.valid(ops, spheres, ray, range),
                progress.place@ == first + self.leaves_of_first(i as nat).len(),
            decreases self.hittables.len() - i,
        {
            let child = &self.hittables[i];
            proof {
                self.leaves_of_first_is_prefix(i as nat);
                self.leaves_of_first_is_prefix((i + 1) as nat);
                let before = self.leaves_of_first(i as nat);
                let after = self.leaves_of_first((i + 1) as nat);
                let place = progress.place@;
                assert(after == before + child.leaves());
                assert(spheres.subrange(place, place + child.leaves().len())
                    =~= self.leaves().subrange(before.len() as int, after.len() as int));
                assert(self.leaves().subrange(before.len() as int, after.len() as int)
                    =~= self.leaves().subrange(0, after.len() as int).subrange(
                    before.len() as int,
                    after.len() as int,
                ));
                assert(after.subrange(before.len() as int, after.len() as int)
                    =~= child.leaves());
            }
            progress = child.scan(ray, range, ops, progress, Ghost(spheres));
            i = i + 1;
        }
        progress
    }

    /// The nearest hit of `ray` in the list within `t_range`. The children
    /// are tried in order, each within the interval that the hits in front
    /// of it have left, so that the outcome is the nearest hit among all
    /// spheres of the list.
    pub fn hit<A: Arithmetic>(&self, ray: Ray, t_range: Interval, ops: &A) -> (r: Option<Hit>)
        ensures
            exists|crossings: Seq<Crossings>|
                solved(ops, self.leaves(), ray, crossings) && #[trigger] answers(
                    self.leaves(),
                    crossings,
                    t_range,
                    r,
                ),
    {
        let ghost spheres = self.leaves();
        let start = Progress {
            best: None,
            place: Ghost(0),
            index: Ghost(0),
            crossings: Ghost(Seq::empty()),
        };
        assert(spheres.subrange(0, spheres.len() as int) == spheres);
        let end = self.scan(ray, t_range, ops, start, Ghost(spheres));
        proof {
            scan_answers(spheres, end.crossings@, t_range, end.best, end.index@);
            assert(solved(ops, spheres, ray, end.crossings@));
        }
        end.best
    }
}

} // verus!
