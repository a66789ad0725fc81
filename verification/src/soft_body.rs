//! A soft body: point masses, the constraints between them and the border
//! that outlines them.

use crate::cyclic::lemma_lap;
use vstd::prelude::*;

verus! {

/// A point mass. `initial` is its place in the rest shape.
#[derive(Clone, Copy, Debug, PartialEq)]
pub struct Point<V, S> {
    pub initial: V,
    pub position: V,
    pub velocity: V,
    pub mass: S,
}

/// A rest distance to be kept between two points of a body.
#[derive(Clone, Copy, Debug, PartialEq)]
pub struct Constraint<S> {
    pub points: [usize; 2],
    pub distance: S,
}

/// Point masses in a fixed order, the constraints between them, and the
/// points that make up the border, in the order in which it is walked.
///
/// Besides the stored constraints a body has its ring: every point is tied to
/// the next one in order, and the last point to the first.
#[derive(Clone, Debug)]
pub struct SoftBody<V, S> {
    pub points: Vec<Point<V, S>>,
    pub constraints: Vec<Constraint<S>>,
    pub border: Vec<usize>,
}

/// The point that lies half way round a ring of `n` points from point `i`.
pub open spec fn antipode(i: int, n: int) -> int {
    (i + n / 2) % n
}

impl<S> Constraint<S> {
    /// The constraint ties two different points out of `n`.
    pub open spec fn ties_two_of(&self, n: nat) -> bool {
        &&& self.points@[0] < n
        &&& self.points@[1] < n
        &&& self.points@[0] != self.points@[1]
    }
}

impl<V, S> SoftBody<V, S> {
    /// Every entry of the border names a point of the body.
    pub open spec fn border_in_range(&self) -> bool {
        forall|i: int| 0 <= i < self.border@.len() ==> self.border@[i] < self.points@.len()
    }

    /// Every spring of the body, stored or of the ring, ties two different
    /// points of the body. A lone point would be tied to itself by the ring.
    pub open spec fn springs_tie_distinct_points(&self) -> bool {
        &&& self.points@.len() != 1
        &&& forall|k: int|
            0 <= k < self.constraints@.len() ==> (#[trigger] self.constraints@[k]).ties_two_of(
                self.points@.len(),
            )
    }

    /// The body is fit for every operation of this crate.
    pub open spec fn well_formed(&self) -> bool {
        &&& self.springs_tie_distinct_points()
        &&& self.border_in_range()
    }

    /// Every point sits where the rest shape has it.
    pub open spec fn in_rest_shape(&self) -> bool {
        forall|i: int|
            0 <= i < self.points@.len() ==> (#[trigger] self.points@[i]).position
                == self.points@[i].initial
    }

    /// `self` is `before` after some motion: positions and velocities may
    /// differ, but the rest shape, the masses, the constraints and the border
    /// are the same.
    pub open spec fn moved_from(&self, before: &Self) -> bool {
        &&& self.points@.len() == before.points@.len()
        &&& forall|i: int|
            0 <= i < self.points@.len() ==> (#[trigger] self.points@[i]).initial
                == before.points@[i].initial && self.points@[i].mass == before.points@[i].mass
        &&& self.constraints@ == before.constraints@
        &&& self.border@ == before.border@
    }

    /// Whether every spring ties two different points of the body, decided
    /// at run time.
    pub fn springs_are_sound(&self) -> (ok: bool)
        ensures
            ok == self.springs_tie_distinct_points(),
    {
        let n = self.points.len();
        if n == 1 {
            return false;
        }
        let mut k: usize = 0;
        while k < self.constraints.len()
            invariant
                n == self.points@.len(),
                k <= self.constraints@.len(),
                forall|j: int| 0 <= j < k ==> (#[trigger] self.constraints@[j]).ties_two_of(n as nat),
            decreases self.constraints.len() - k,
        {
            let a = self.constraints[k].points[0];
            let b = self.constraints[k].points[1];
            if a >= n || b >= n || a == b {
                assert(!self.constraints@[k as int].ties_two_of(n as nat));
                return false;
            }
            k += 1;
        }
        true
    }

    /// Whether every entry of the border names a point of the body, decided
    /// at run time.
    pub fn border_is_sound(&self) -> (ok: bool)
        ensures
            ok == self.border_in_range(),
    {
        let n = self.points.len();
        let mut i: usize = 0;
        while i < self.border.len()
            invariant
                n == self.points@.len(),
                i <= self.border@.len(),
                forall|j: int| 0 <= j < i ==> self.border@[j] < n,
            decreases self.border.len() - i,
        {
            if self.border[i] >= n {
                return false;
            }
            i += 1;
        }
        true
    }

    /// Whether the body is well formed, decided at run time.
    pub fn is_well_formed(&self) -> (ok: bool)
        ensures
            ok == self.well_formed(),
    {
        self.springs_are_sound() && self.border_is_sound()
    }
}

impl<V: Copy, S: Copy> SoftBody<V, S> {
    /// A closed loop of points of equal mass at rest at the given corners,
    /// all moving at `velocity`. Each point gets a constraint of rest length
    /// `distance` to the point half way round, and the border walks the
    /// points in order.
    pub fn circle(corners: Vec<V>, velocity: V, mass: S, distance: S) -> (body: Self)
        requires
            corners@.len() > 0,
        ensures
            body.points@.len() == corners@.len(),
            forall|i: int|
                #![trigger body.points@[i]]
                0 <= i < corners@.len() ==> body.points@[i] == (Point {
                    initial: corners@[i],
                    position: corners@[i],
                    velocity,
                    mass,
                }),
            body.constraints@.len() == corners@.len(),
            forall|i: int|
                #![trigger body.constraints@[i]]
                0 <= i < corners@.len() ==> body.constraints@[i].points@ == seq![
                    i as usize,
                    antipode(i, corners@.len() as int) as usize,
                ] && body.constraints@[i].distance == distance,
            body.border@ == Seq::new(corners@.len(), |i: int| i as usize),
            body.in_rest_shape(),
            body.well_formed() <==> corners@.len() >= 2,
    {
        let n = corners.len();
        let half = n / 2;
        let mut points: Vec<Point<V, S>> = Vec::new();
        let mut constraints: Vec<Constraint<S>> = Vec::new();
        let mut i: usize = 0;
        while i < n
            invariant
                0 < n == corners@.len(),
                half == n / 2,
                i <= n,
                points@.len() == i,
                forall|k: int|
                    #![trigger points@[k]]
                    0 <= k < i ==> points@[k] == (Point {
                        initial: corners@[k],
                        position: corners@[k],
                        velocity,
                        mass,
                    }),
                constraints@.len() == i,
                forall|k: int|
                    #![trigger constraints@[k]]
                    0 <= k < i ==> {
                        &&& constraints@[k].points@ == seq![k as usize, antipode(k, n as int) as usize]
                        &&& constraints@[k].distance == distance
                        &&& antipode(k, n as int) < n
                        &&& n >= 2 ==> antipode(k, n as int) != k
                    },
            decreases n - i,
        {
            let pos = corners[i];
            points.push(Point { initial: pos, position: pos, velocity, mass });

            let j = if i < n - half {
                i + half
            } else {
                i - (n - half)
            };
            proof {
                lemma_lap(i + half, n as int);
            }
            let tie = Constraint { points: [i, j], distance };
            assert(tie.points@ =~= seq![i, j]);
            constraints.push(tie);
            i += 1;
        }
        let mut border: Vec<usize> = Vec::new();
        let mut k: usize = 0;
        while k < points.len()
            invariant
                k <= points@.len(),
                border@ == Seq::new(k as nat, |i: int| i as usize),
            decreases points.len() - k,
        {
            border.push(k);
            k += 1;
        }
        let body = SoftBody { border, points, constraints };
        proof {
            if n >= 2 {
                assert forall|k: int| 0 <= k < body.constraints@.len() implies (
                #[trigger] body.constraints@[k]).ties_two_of(n as nat) by {
                    assert(body.constraints@[k].points@[0] == k);
                    assert(body.constraints@[k].points@[1] == antipode(k, n as int));
                }
            } else {
                assert(!body.well_formed());
            }
        }
        body
    }

    /// Copies of the two points that a spring ties.
    pub fn pair(&self, a: usize, b: usize) -> (ends: (Point<V, S>, Point<V, S>))
        requires
            a < self.points@.len(),
            b < self.points@.len(),
            a != b,
        ensures
            ends == (self.points@[a as int], self.points@[b as int]),
    {
        (self.points[a], self.points[b])
    }

    /// Gives the two points that a spring ties their new velocities and
    /// leaves everything else as it is.
    pub fn set_velocities(&mut self, a: usize, b: usize, velocities: (V, V))
        requires
            a < old(self).points@.len(),
            b < old(self).points@.len(),
            a != b,
        ensures
            final(self).points@ == old(self).points@.update(
                a as int,
                (Point { velocity: velocities.0, ..old(self).points@[a as int] }),
            ).update(b as int, (Point { velocity: velocities.1, ..old(self).points@[b as int] })),
            final(self).moved_from(old(self)),
    {
        self.points[a].velocity = velocities.0;
        self.points[b].velocity = velocities.1;
    }

    /// Gives one point a new velocity and leaves everything else as it is.
    pub fn set_velocity(&mut self, i: usize, velocity: V)
        requires
            i < old(self).points@.len(),
        ensures
            final(self).points@ == old(self).points@.update(
                i as int,
                (Point { velocity, ..old(self).points@[i as int] }),
            ),
            final(self).moved_from(old(self)),
    {
        self.points[i].velocity = velocity;
    }

    /// Moves one point to a new position and leaves everything else as it is.
    pub fn set_position(&mut self, i: usize, position: V)
        requires
            i < old(self).points@.len(),
        ensures
            final(self).points@ == old(self).points@.update(
                i as int,
                (Point { position, ..old(self).points@[i as int] }),
            ),
            final(self).moved_from(old(self)),
    {
        self.points[i].position = position;
    }
}

/// In a ring of at least two points the point half way round is another
/// point of the ring, and in a ring of even size the way half round leads
/// back: the long diagonals pair the points up.
pub proof fn lemma_antipode(i: int, n: int)
    requires
        n >= 2,
        0 <= i < n,
    ensures
        0 <= antipode(i, n) < n,
        antipode(i, n) != i,
        n % 2 == 0 ==> antipode(antipode(i, n), n) == i,
{
    lemma_lap(i + n / 2, n);
    lemma_lap(antipode(i, n) + n / 2, n);
}

/// Motion keeps a body fit: what was well formed before it moved is well
/// formed after.
pub proof fn lemma_motion_keeps_well_formed<V, S>(before: &SoftBody<V, S>, after: &SoftBody<V, S>)
    requires
        after.moved_from(before),
    ensures
        after.well_formed() == before.well_formed(),
        after.springs_tie_distinct_points() == before.springs_tie_distinct_points(),
        after.border_in_range() == before.border_in_range(),
{
}

/// Motion follows motion: a body that moved and moved again has still the
/// rest shape, masses, constraints and border it set out with.
pub proof fn lemma_motion_composes<V, S>(
    first: &SoftBody<V, S>,
    second: &SoftBody<V, S>,
    third: &SoftBody<V, S>,
)
    requires
        second.moved_from(first),
        third.moved_from(second),
    ensures
        third.moved_from(first),
{
}

} // verus!
