//! What one step of a body consists of, and in which order it is done.

use crate::cyclic::lemma_lap;
use crate::soft_body::Constraint;
use crate::soft_body::SoftBody;
use crate::windows::product;
use vstd::prelude::*;

verus! {

/// One piece of the work of a step, left to whoever does the arithmetic.
#[derive(Clone, Copy, Debug, PartialEq)]
pub enum Action<S> {
    /// Spring between the ring neighbours `a` and `b`, at rest where they are
    /// as far apart as in the rest shape.
    Ring { a: usize, b: usize },
    /// Spring between `a` and `b`, at rest at the stored `distance`.
    Auxiliary { a: usize, b: usize, distance: S },
    /// Pull every point toward the rest shape, laid over the body as well as
    /// turning and shifting allow.
    ShapeMatch,
    /// Move every point by its velocity.
    Integrate,
    /// Hold every point back at each wall it has passed.
    Clamp,
}

impl<S> Action<S> {
    /// Where the action is a spring, it ties two different points out of `n`.
    pub open spec fn ties_two_of(&self, n: nat) -> bool {
        match *self {
            Action::Ring { a, b } => a < n && b < n && a != b,
            Action::Auxiliary { a, b, .. } => a < n && b < n && a != b,
            _ => true,
        }
    }
}

/// The springs of the ring of `n` points, from each point to the next and
/// from the last to the first.
pub open spec fn ring_of<S>(n: nat) -> Seq<Action<S>> {
    Seq::new(n, |i: int| Action::Ring { a: i as usize, b: ((i + 1) % (n as int)) as usize })
}

/// The springs of the stored constraints, as they stand.
pub open spec fn stored_of<S>(constraints: Seq<Constraint<S>>) -> Seq<Action<S>> {
    Seq::new(
        constraints.len(),
        |k: int|
            Action::Auxiliary {
                a: constraints[k].points@[0],
                b: constraints[k].points@[1],
                distance: constraints[k].distance,
            },
    )
}

/// The work of one step of a body of `n` points, in order: the ring, the
/// stored constraints, then shape matching, integration and the walls.
pub open spec fn plan_of<S>(n: nat, constraints: Seq<Constraint<S>>) -> Seq<Action<S>> {
    ring_of(n) + stored_of(constraints) + seq![
        Action::ShapeMatch,
        Action::Integrate,
        Action::Clamp,
    ]
}

impl<V, S: Copy> SoftBody<V, S> {
    /// The work of one step, in the order in which it has to be done. Each
    /// piece builds on what the pieces before it left behind. Forces from
    /// outside the body are no part of it: they are applied before the step.
    pub fn tick_plan(&self) -> (plan: Vec<Action<S>>)
        requires
            self.springs_tie_distinct_points(),
        ensures
            plan@ == plan_of(self.points@.len(), self.constraints@),
            forall|k: int|
                0 <= k < plan@.len() ==> (#[trigger] plan@[k]).ties_two_of(self.points@.len()),
    {
        let n = self.points.len();
        let mut plan: Vec<Action<S>> = Vec::new();
        let mut i: usize = 0;
        while i < n
            invariant
                n == self.points@.len(),
                n != 1,
                i <= n,
                plan@ == ring_of::<S>(n as nat).take(i as int),
                forall|k: int| 0 <= k < plan@.len() ==> (#[trigger] plan@[k]).ties_two_of(n as nat),
            decreases n - i,
        {
            let next = if i + 1 == n {
                0
            } else {
                i + 1
            };
            proof {
                lemma_lap(i + 1, n as int);
            }
            plan.push(Action::Ring { a: i, b: next });
            i += 1;
            assert(plan@ =~= ring_of::<S>(n as nat).take(i as int));
        }
        assert(plan@ =~= ring_of::<S>(n as nat) + stored_of(self.constraints@).take(0));
        let mut k: usize = 0;
        while k < self.constraints.len()
            invariant
                n == self.points@.len(),
                self.springs_tie_distinct_points(),
                k <= self.constraints@.len(),
                plan@ == ring_of::<S>(n as nat) + stored_of(self.constraints@).take(k as int),
                forall|j: int| 0 <= j < plan@.len() ==> (#[trigger] plan@[j]).ties_two_of(n as nat),
            decreases self.constraints.len() - k,
        {
            let a = self.constraints[k].points[0];
            let b = self.constraints[k].points[1];
            let distance = self.constraints[k].distance;
            assert(self.constraints@[k as int].ties_two_of(n as nat));
            plan.push(Action::Auxiliary { a, b, distance });
            k += 1;
            assert(plan@ =~= ring_of::<S>(n as nat) + stored_of(self.constraints@).take(k as int));
        }
        plan.push(Action::ShapeMatch);
        plan.push(Action::Integrate);
        plan.push(Action::Clamp);
        assert(plan@ =~= plan_of(self.points@.len(), self.constraints@));
        plan
    }
}

/// The walls of the box a body lives in, each as an axis and the side of the
/// origin it stands on.
pub fn walls() -> (walls: Vec<(usize, i8)>)
    ensures
        walls@ == seq![(0usize, -1i8), (0usize, 1i8), (1usize, -1i8), (1usize, 1i8)],
{
    let mut axes: Vec<usize> = Vec::new();
    let mut signs: Vec<i8> = Vec::new();
    let mut x: i8 = 0;
    while x <= 1
        invariant
            0 <= x <= 2,
            axes@ == Seq::new(x as nat, |i: int| i as usize),
            signs@ == Seq::new(x as nat, |i: int| (i * 2 - 1) as i8),
        decreases 2 - x,
    {
        axes.push(x as usize);
        signs.push(x * 2 - 1);
        x += 1;
    }
    assert(axes@.len() * signs@.len() == 4) by (nonlinear_arith)
        requires
            axes@.len() == 2,
            signs@.len() == 2,
    ;
    let walls = product(axes, signs);
    proof {
        assert(walls@.len() == 4) by (nonlinear_arith)
            requires
                walls@.len() == axes@.len() * signs@.len(),
                axes@.len() == 2,
                signs@.len() == 2,
        ;
        assert(axes@[0] == 0 && axes@[1] == 1 && signs@[0] == -1 && signs@[1] == 1);
        assert(walls@[0 * 2 + 0int] == (0usize, -1i8));
        assert(walls@[0 * 2 + 1int] == (0usize, 1i8));
        assert(walls@[1 * 2 + 0int] == (1usize, -1i8));
        assert(walls@[1 * 2 + 1int] == (1usize, 1i8));
        assert(walls@ =~= seq![(0usize, -1i8), (0usize, 1i8), (1usize, -1i8), (1usize, 1i8)]);
    }
    walls
}

/// A step plans one spring for every point and one for every stored
/// constraint, and three pieces of work after them.
pub proof fn lemma_plan_shape<S>(n: nat, constraints: Seq<Constraint<S>>)
    ensures
        plan_of(n, constraints).len() == n + constraints.len() + 3,
        forall|i: int| 0 <= i < n ==> (#[trigger] plan_of(n, constraints)[i]) is Ring,
        forall|k: int|
            n <= k < n + constraints.len() ==> (#[trigger] plan_of(n, constraints)[k]) is Auxiliary,
        plan_of(n, constraints)[(n + constraints.len()) as int] == Action::<S>::ShapeMatch,
        plan_of(n, constraints)[(n + constraints.len() + 1) as int] == Action::<S>::Integrate,
        plan_of(n, constraints)[(n + constraints.len() + 2) as int] == Action::<S>::Clamp,
{
}

} // verus!
