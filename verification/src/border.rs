//! The border of a body: its outline for drawing and its lines for
//! hit-testing.

use crate::cyclic::lemma_lap;
use crate::cyclic::lemma_start_again;
use crate::repeat_first::closes_path;
use crate::repeat_first::IteratorRepeatFirst;
use crate::soft_body::Point;
use crate::soft_body::SoftBody;
use crate::windows::pair_windows;
use vstd::prelude::*;

verus! {

/// Where the border points are, in the border's order.
pub open spec fn walk_of<V, S>(points: Seq<Point<V, S>>, border: Seq<usize>) -> Seq<V> {
    Seq::new(border.len(), |i: int| points[border[i] as int].position)
}

/// The border as a closed polyline: one line from each border point to the
/// next, the last one leading back to the first.
pub open spec fn lines_of<V, S>(points: Seq<Point<V, S>>, border: Seq<usize>) -> Seq<(V, V)> {
    Seq::new(
        border.len(),
        |i: int|
            (walk_of(points, border)[i], walk_of(points, border)[(i + 1) % (border.len() as int)]),
    )
}

/// The border as control points for a curve through windows of four: the
/// walk starts one point before the first border point and runs on three
/// points past the last, so that it covers the seam.
pub open spec fn outline_of<V, S>(points: Seq<Point<V, S>>, border: Seq<usize>) -> Seq<V> {
    Seq::new(
        border.len() + 4,
        |k: int| walk_of(points, border)[(k + border.len() - 1) % (border.len() as int)],
    )
}

/// How many of the lines are crossed.
pub open spec fn crossings(crossed: Seq<bool>) -> nat
    decreases crossed.len(),
{
    if crossed.len() == 0 {
        0
    } else {
        crossings(crossed.drop_last()) + if crossed.last() {
            1nat
        } else {
            0nat
        }
    }
}

impl<V, S> SoftBody<V, S> {
    /// Whether a point lies inside the border, by the even-odd rule. `crossed`
    /// says of each line of `border_lines`, in their order, whether a ray
    /// from the point crosses it; the point lies inside where that holds of
    /// an odd number of lines.
    pub fn is_inside(&self, crossed: &[bool]) -> (inside: bool)
        ensures
            inside == (crossings(crossed@) % 2 == 1),
    {
        let mut count: usize = 0;
        let mut i: usize = 0;
        while i < crossed.len()
            invariant
                i <= crossed@.len(),
                count == crossings(crossed@.take(i as int)),
                count <= i,
            decreases crossed.len() - i,
        {
            assert(crossed@.take(i + 1).drop_last() == crossed@.take(i as int));
            if crossed[i] {
                count += 1;
            }
            i += 1;
        }
        assert(crossed@.take(i as int) == crossed@);
        assert((count & 1 == 1) == (count % 2 == 1)) by (bit_vector);
        count & 1 == 1
    }
}

impl<V: Copy, S> SoftBody<V, S> {
    /// The control points of the body's outline: where the border points
    /// are, in order, with the last one put in front and the first three
    /// repeated behind, so that a curve drawn through each window of four
    /// closes on itself.
    pub fn outline(&self) -> (control: Vec<V>)
        requires
            self.border_in_range(),
            self.border@.len() > 0,
        ensures
            control@ == outline_of(self.points@, self.border@),
            control@.len() == self.border@.len() + 4,
            forall|k: int| 0 <= k < 4 ==> control@[self.border@.len() + k] == #[trigger] control@[k],
    {
        let mut control: Vec<V> = Vec::new();
        let mut i: usize = 0;
        while i < self.border.len()
            invariant
                self.border_in_range(),
                i <= self.border@.len(),
                control@ == walk_of(self.points@, self.border@).take(i as int),
            decreases self.border.len() - i,
        {
            control.push(self.points[self.border[i]].position);
            i += 1;
        }
        let ghost walk = control@;
        let ghost n = walk.len() as int;
        assert(walk == walk_of(self.points@, self.border@));

        let last = control[control.len() - 1];
        control.insert(0, last);
        let first = control[1];
        control.push(first);
        let second = control[2];
        control.push(second);
        let third = control[3];
        control.push(third);

        proof {
            assert forall|k: int| 0 <= k <= n implies control@[k] == walk[(k + n - 1) % n] by {
                lemma_lap(k + n - 1, n);
            }
            assert(control@[n + 1] == walk[(n + 1 + n - 1) % n]) by {
                assert(control@[n + 1] == control@[1]);
                lemma_start_again(n, n);
            }
            assert(control@[n + 2] == walk[(n + 2 + n - 1) % n]) by {
                assert(control@[n + 2] == control@[2]);
                lemma_start_again(n + 1, n);
            }
            assert(control@[n + 3] == walk[(n + 3 + n - 1) % n]) by {
                assert(control@[n + 3] == control@[3]);
                lemma_start_again(n + 2, n);
            }
            assert(control@ =~= outline_of(self.points@, self.border@));
        }
        control
    }

    /// The lines of the border, closed back onto its first point.
    pub fn border_lines(&self) -> (lines: Vec<(V, V)>)
        requires
            self.border_in_range(),
        ensures
            lines@ == lines_of(self.points@, self.border@),
    {
        let walk: Vec<usize> = self.border.clone();
        assert(walk@ == self.border@);
        let closed: Vec<usize> = walk.into_iter().repeat_first().collect();
        assert(closes_path(None, self.border@, closed@));
        let edges = pair_windows(closed);
        assert forall|i: int| 0 <= i < edges@.len() implies edges@[i] == (
            self.border@[i],
            self.border@[(i + 1) % (self.border@.len() as int)],
        ) by {
            lemma_lap(i + 1, self.border@.len() as int);
        }

        let mut lines: Vec<(V, V)> = Vec::new();
        let mut k: usize = 0;
        while k < edges.len()
            invariant
                k <= edges.len(),
                edges@.len() == self.border@.len(),
                self.border_in_range(),
                forall|i: int|
                    0 <= i < edges@.len() ==> edges@[i] == (
                        self.border@[i],
                        self.border@[(i + 1) % (self.border@.len() as int)],
                    ),
                lines@ == lines_of(self.points@, self.border@).take(k as int),
            decreases edges.len() - k,
        {
            let (a, b) = edges[k];
            proof {
                lemma_lap(k + 1, self.border@.len() as int);
            }
            lines.push((self.points[a].position, self.points[b].position));
            k += 1;
        }
        lines
    }
}

/// The border is a closed polyline: every line starts where the one before
/// it ended, and the first line starts where the last one ended.
pub proof fn lemma_border_closes<V, S>(points: Seq<Point<V, S>>, border: Seq<usize>, i: int)
    requires
        0 <= i < border.len(),
    ensures
        0 <= (i + 1) % (border.len() as int) < border.len(),
        lines_of(points, border)[i].1 == lines_of(points, border)[(i + 1) % (border.len() as int)].0,
{
    lemma_lap(i + 1, border.len() as int);
}

/// The outline comes round to where it began: it has four control points
/// more than the border has points, and the last four are the first four
/// again.
pub proof fn lemma_outline_wraps<V, S>(points: Seq<Point<V, S>>, border: Seq<usize>, k: int)
    requires
        border.len() > 0,
        0 <= k < 4,
    ensures
        outline_of(points, border).len() == border.len() + 4,
        outline_of(points, border)[border.len() + k] == outline_of(points, border)[k],
{
    lemma_start_again(k + border.len() - 1, border.len() as int);
}

/// Every line of the border lies in the middle of a window of four control
/// points of the outline, so a curve drawn window by window covers the whole
/// border, the seam included.
pub proof fn lemma_outline_covers_border<V, S>(
    points: Seq<Point<V, S>>,
    border: Seq<usize>,
    i: int,
)
    requires
        0 <= i < border.len(),
    ensures
        i + 3 < outline_of(points, border).len(),
        (outline_of(points, border)[i + 1], outline_of(points, border)[i + 2]) == lines_of(
            points,
            border,
        )[i],
{
    let n = border.len() as int;
    lemma_start_again(i, n);
    lemma_start_again(i + 1, n);
    lemma_lap(i, n);
    lemma_lap(i + 1, n);
}

} // verus!
