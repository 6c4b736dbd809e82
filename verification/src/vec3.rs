//! Triples of scalars: points, directions and colours.

use vstd::prelude::*;
use crate::scalar::Scalar;

verus! {

/// Three scalars `(x, y, z)`, used alike as point, direction and RGB colour.
#[derive(Clone, Copy, Debug, PartialEq, Eq, Structural)]
pub struct Vec3(pub Scalar, pub Scalar, pub Scalar);

impl Vec3 {
    /// The component at `index`: 0 for `x`, 1 for `y`, 2 for `z`.
    pub open spec fn component(self, index: int) -> Scalar
        recommends
            0 <= index < 3,
    {
        if index == 0 {
            self.0
        } else if index == 1 {
            self.1
        } else {
            self.2
        }
    }

    /// The components in order.
    pub open spec fn components(self) -> Seq<Scalar> {
        seq![self.0, self.1, self.2]
    }

    /// The vector with the sign of every component flipped.
    pub open spec fn negated(self) -> Vec3 {
        Vec3(self.0.negated(), self.1.negated(), self.2.negated())
    }

    /// The vector `(0, 0, 0)`: black, as a colour.
    pub open spec fn spec_zero() -> Vec3 {
        Vec3(Scalar::zero(), Scalar::zero(), Scalar::zero())
    }

    /// The vector `(0, 0, 0)`: black, as a colour.
    #[verifier::when_used_as_spec(spec_zero)]
    pub fn zero() -> (v: Vec3)
        ensures
            v == Self::spec_zero(),
    {
        Vec3(Scalar::zero(), Scalar::zero(), Scalar::zero())
    }

    /// The vector `(1, 1, 1)`: white, as a colour.
    pub open spec fn spec_one() -> Vec3 {
        Vec3(Scalar::one(), Scalar::one(), Scalar::one())
    }

    /// The vector `(1, 1, 1)`: white, as a colour.
    #[verifier::when_used_as_spec(spec_one)]
    pub fn one() -> (v: Vec3)
        ensures
            v == Self::spec_one(),
    {
        Vec3(Scalar::one(), Scalar::one(), Scalar::one())
    }

    /// Component-wise negation, which is exact.
    pub fn neg(self) -> (v: Vec3)
        ensures
            v == self.negated(),
    {
        Vec3(self.0.neg(), self.1.neg(), self.2.neg())
    }

    /// Whether a vector of squared magnitude `mag_squared` lies in the unit
    /// sphere: the squared magnitude is at most one.
    pub open spec fn in_unit_sphere(mag_squared: Scalar) -> bool {
        mag_squared.at_most(Scalar::one())
    }

    /// Rejection sampling in the unit sphere: of the candidates, each drawn
    /// uniformly from the cube `[-1, 1]^3` and given with its squared
    /// magnitude, the first that lies in the unit sphere; none where all lie
    /// outside, and the caller draws again.
    pub fn random_in_unit_sphere(candidates: &Vec<(Vec3, Scalar)>) -> (found: Option<Vec3>)
        ensures
            found.is_none() <==> forall|k: int|
                0 <= k < candidates.len() ==> !Self::in_unit_sphere((#[trigger] candidates@[k]).1),
            found matches Some(v) ==> exists|k: int|
                0 <= k < candidates.len() && (#[trigger] candidates@[k]).0 == v
                    && Self::in_unit_sphere(candidates@[k].1) && forall|n: int|
                    0 <= n < k ==> !Self::in_unit_sphere((#[trigger] candidates@[n]).1),
    {
        let mut k: usize = 0;
        while k < candidates.len()
            invariant
                k <= candidates.len(),
                forall|n: int|
                    0 <= n < k ==> !Self::in_unit_sphere((#[trigger] candidates@[n]).1),
            decreases candidates.len() - k,
        {
            if candidates[k].1.le(Scalar::one()) {
                return Some(candidates[k].0);
            }
            k = k + 1;
        }
        None
    }

    /// Rejection sampling in the unit disk of the plane `z = 0`: of the
    /// candidates `(x, y)`, each drawn uniformly from the square `[-1, 1]^2`
    /// and given with its squared magnitude, the first that lies in the
    /// unit disk, as the vector `(x, y, 0)`.
    pub fn random_in_unit_disk(
        candidates: &Vec<(Scalar, Scalar, Scalar)>,
    ) -> (found: Option<Vec3>)
        ensures
            found.is_none() <==> forall|k: int|
                0 <= k < candidates.len() ==> !Self::in_unit_sphere((#[trigger] candidates@[k]).2),
            found matches Some(v) ==> exists|k: int|
                0 <= k < candidates.len() && v == Vec3(
                    (#[trigger] candidates@[k]).0,
                    candidates@[k].1,
                    Scalar::zero(),
                ) && Self::in_unit_sphere(candidates@[k].2) && forall|n: int|
                    0 <= n < k ==> !Self::in_unit_sphere((#[trigger] candidates@[n]).2),
    {
        let mut k: usize = 0;
        while k < candidates.len()
            invariant
                k <= candidates.len(),
                forall|n: int|
                    0 <= n < k ==> !Self::in_unit_sphere((#[trigger] candidates@[n]).2),
            decreases candidates.len() - k,
        {
            if candidates[k].2.le(Scalar::one()) {
                return Some(Vec3(candidates[k].0, candidates[k].1, Scalar::zero()));
            }
            k = k + 1;
        }
        None
    }

    /// Walks over the components of a borrowed vector.
    pub fn iter(&self) -> (it: Vec3Iterator<'_>)
        ensures
            it.source() == *self,
            it.position() == 0,
    {
        Vec3Iterator { v: self, index: 0 }
    }

    /// Walks over the components of the vector itself.
    pub fn into_iter(self) -> (it: Vec3IntoIterator)
        ensures
            it.source() == self,
            it.position() == 0,
    {
        Vec3IntoIterator { v: self, index: 0 }
    }

    /// All three components, as the two walks hand them out.
    pub fn to_vec(self) -> (out: Vec<Scalar>)
        ensures
            out@ == self.components(),
    {
        let mut out: Vec<Scalar> = Vec::new();
        let mut it = self.into_iter();
        let mut n: u8 = 0;
        while n < 3
            invariant
                n <= 3,
                it.source() == self,
                it.position() == n,
                out@ == self.components().take(n as int),
            decreases 3 - n,
        {
            let next = it.next();
            match next {
                Some(x) => {
                    out.push(x);
                },
                None => {},
            }
            n = n + 1;
        }
        out
    }
}

/// A walk over the components of a borrowed vector.
pub struct Vec3Iterator<'a> {
    v: &'a Vec3,
    index: u8,
}

impl<'a> Vec3Iterator<'a> {
    /// The vector that is walked over.
    pub closed spec fn source(&self) -> Vec3 {
        *self.v
    }

    /// How many components have been handed out.
    pub closed spec fn position(&self) -> u8 {
        self.index
    }

    /// Hands out `x`, then `y`, then `z`, then nothing for ever.
    pub fn next(&mut self) -> (item: Option<Scalar>)
        ensures
            final(self).source() == old(self).source(),
            old(self).position() < 3 ==> item == Some(
                old(self).source().component(old(self).position() as int),
            ) && final(self).position() == old(self).position() + 1,
            old(self).position() >= 3 ==> item.is_none() && final(self).position() == old(
                self,
            ).position(),
    {
        let result = if self.index == 0 {
            self.v.0
        } else if self.index == 1 {
            self.v.1
        } else if self.index == 2 {
            self.v.2
        } else {
            return None;
        };
        self.index += 1;
        Some(result)
    }
}

/// A walk over the components of a vector that the walk owns.
pub struct Vec3IntoIterator {
    v: Vec3,
    index: u8,
}

impl Vec3IntoIterator {
    /// The vector that is walked over.
    pub closed spec fn source(&self) -> Vec3 {
        self.v
    }

    /// How many components have been handed out.
    pub closed spec fn position(&self) -> u8 {
        self.index
    }

    /// Hands out `x`, then `y`, then `z`, then nothing for ever.
    pub fn next(&mut self) -> (item: Option<Scalar>)
        ensures
            final(self).source() == old(self).source(),
            old(self).position() < 3 ==> item == Some(
                old(self).source().component(old(self).position() as int),
            ) && final(self).position() == old(self).position() + 1,
            old(self).position() >= 3 ==> item.is_none() && final(self).position() == old(
                self,
            ).position(),
    {
        let result = if self.index == 0 {
            self.v.0
        } else if self.index == 1 {
            self.v.1
        } else if self.index == 2 {
            self.v.2
        } else {
            return None;
        };
        self.index += 1;
        Some(result)
    }
}

} // verus!
