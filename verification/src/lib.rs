//! A one-dimensional piecewise-linear function: an immutable, non-empty
//! sequence of (x, y) control points, sorted by x, with no two points
//! sharing an x unless they also share a y. Construction validates and
//! canonicalizes an arbitrary point list; evaluation resolves a query by
//! binary search to either the exact stored value or the two bracketing
//! control points, between which the caller interpolates in its own
//! arithmetic.
//!
//! Coordinate components are 64-bit order-preserving keys of the underlying
//! numeric values; see [`coord`] for the key encoding and its real range.

use vstd::prelude::*;

pub mod coord;
pub mod errors;
pub mod laws;
mod sort;

pub use crate::coord::Coord;
pub use crate::errors::PiecewiseErr;

verus! {

use crate::coord::{is_real, key_is_real, coord_of_pair, coords_of, pair_of};

/// The points are in non-decreasing x order.
pub open spec fn sorted_by_x(s: Seq<Coord>) -> bool {
    forall|i: int, j: int|
        0 <= i <= j < s.len() ==> #[trigger] s[i].x_key() <= #[trigger] s[j].x_key()
}

/// Every x that occurs among the points is paired with a single y: the
/// points describe a function.
pub open spec fn functional(s: Seq<Coord>) -> bool {
    forall|i: int, j: int|
        0 <= i < s.len() && 0 <= j < s.len() && #[trigger] s[i].x_key() == #[trigger] s[j].x_key()
            ==> s[i].y_key() == s[j].y_key()
}

/// Both keys of every pair denote real values.
pub open spec fn all_real_pairs(s: Seq<(u64, u64)>) -> bool {
    forall|i: int| 0 <= i < s.len() ==> is_real((#[trigger] s[i]).0) && is_real(s[i].1)
}

/// Some stored point has exactly the given x key.
pub open spec fn has_point_at(s: Seq<Coord>, q: u64) -> bool {
    exists|i: int| 0 <= i < s.len() && (#[trigger] s[i]).x_key() == q
}

/// Every adjacent pair either strictly increases in x or is an exact
/// duplicate point.
spec fn adjacent_functional(s: Seq<Coord>) -> bool {
    forall|i: int|
        0 < i < s.len() ==> ((#[trigger] s[i]).x_key() != s[i - 1].x_key() || s[i].y_key() == s[i
            - 1].y_key())
}

/// The outcome of a successful evaluation query.
#[derive(Clone, Copy, Debug, PartialEq, Eq)]
pub enum Eval {
    /// A stored point has exactly the query x: its y key, returned without
    /// any arithmetic.
    Exact(u64),
    /// The query falls strictly between these two adjacent control points;
    /// the value is found by interpolating linearly between them.
    Segment(Coord, Coord),
}

/// A piecewise-linear function. Immutable once constructed; its points are
/// non-empty, sorted by x and functional (see [`Piecewise::wf`]).
#[derive(Clone, Debug)]
pub struct Piecewise {
    points: Vec<Coord>,
}

impl View for Piecewise {
    type V = Seq<Coord>;

    closed spec fn view(&self) -> Seq<Coord> {
        self.points@
    }
}

impl Piecewise {
    /// Well-formedness: non-empty, every point has real components, the
    /// points are sorted by x, and they describe a function.
    pub open spec fn wf(&self) -> bool {
        &&& self@.len() > 0
        &&& forall|i: int| 0 <= i < self@.len() ==> (#[trigger] self@[i]).wf()
        &&& sorted_by_x(self@)
        &&& functional(self@)
    }

    /// Smallest x key of the domain.
    pub open spec fn min_x_key(&self) -> u64 {
        self@[0].x_key()
    }

    /// Largest x key of the domain.
    pub open spec fn max_x_key(&self) -> u64 {
        self@[self@.len() - 1].x_key()
    }

    /// A query key lies in the domain exactly when it is between the
    /// smallest and the largest stored x.
    pub open spec fn in_domain(&self, q: u64) -> bool {
        self.min_x_key() <= q && q <= self.max_x_key()
    }

    /// Builds a piecewise function from control points in arbitrary order:
    /// rejects an empty list and a list that maps one x to two different
    /// y values; otherwise sorts the points by x and keeps exactly them.
    /// By [`laws::lemma_canonical_points`], keeping exactly the supplied
    /// points pins the stored sequence down completely.
    pub fn try_from(points: Vec<Coord>) -> (r: Result<Piecewise, PiecewiseErr>)
        requires
            forall|i: int| 0 <= i < points@.len() ==> (#[trigger] points@[i]).wf(),
        ensures
            r is Ok <==> (points@.len() > 0 && functional(points@)),
            r == Err::<Piecewise, PiecewiseErr>(PiecewiseErr::InputEmpty) <==> points@.len() == 0,
            r == Err::<Piecewise, PiecewiseErr>(PiecewiseErr::InputUndefined) <==> (points@.len()
                > 0 && !functional(points@)),
            r matches Ok(p) ==> p.wf() && p@.to_multiset() == points@.to_multiset(),
    {
        let ghost orig = points@;
        if points.len() == 0 {
            return Err(PiecewiseErr::InputEmpty);
        }
        if points.len() == 1 {
            return Ok(Piecewise { points });
        }
        let sorted = crate::sort::sort_points(points);
        let mut k: usize = 1;
        while k < sorted.len()
            invariant
                orig == points@,
                orig.len() >= 2,
                sorted@.len() == orig.len(),
                1 <= k <= sorted@.len(),
                forall|t: int|
                    0 < t < k ==> ((#[trigger] sorted@[t]).x_key() != sorted@[t - 1].x_key()
                        || sorted@[t].y_key() == sorted@[t - 1].y_key()),
                sorted@.to_multiset() == orig.to_multiset(),
                sorted_by_x(sorted@),
            decreases sorted@.len() - k,
        {
            let a = sorted[k - 1];
            let b = sorted[k];
            if a.x() == b.x() && a.y() != b.y() {
                proof {
                    assert(!functional(sorted@));
                    if functional(orig) {
                        lemma_functional_permutation(orig, sorted@);
                    }
                }
                return Err(PiecewiseErr::InputUndefined);
            }
            k += 1;
        }
        proof {
            assert(adjacent_functional(sorted@));
            lemma_adjacent_functional(sorted@);
            lemma_functional_permutation(sorted@, orig);
            lemma_wf_permutation(orig, sorted@);
        }
        Ok(Piecewise { points: sorted })
    }

    /// Rebuilds a piecewise function from raw component-key pairs, running
    /// the full validation: every key must denote a real value, the list
    /// must be non-empty, and it must describe a function. This is the
    /// deserialization path; [`Piecewise::to_pairs`] is its inverse.
    pub fn from_pairs(pairs: Vec<(u64, u64)>) -> (r: Result<Piecewise, PiecewiseErr>)
        ensures
            r == Err::<Piecewise, PiecewiseErr>(PiecewiseErr::InputNaN) <==> !all_real_pairs(
                pairs@,
            ),
            r == Err::<Piecewise, PiecewiseErr>(PiecewiseErr::InputEmpty) <==> (all_real_pairs(
                pairs@,
            ) && pairs@.len() == 0),
            r == Err::<Piecewise, PiecewiseErr>(PiecewiseErr::InputUndefined) <==> (all_real_pairs(
                pairs@,
            ) && pairs@.len() > 0 && !functional(coords_of(pairs@))),
            r is Ok <==> (all_real_pairs(pairs@) && pairs@.len() > 0 && functional(
                coords_of(pairs@),
            )),
            r matches Ok(p) ==> p.wf() && p@.to_multiset() == coords_of(pairs@).to_multiset(),
    {
        let mut coords: Vec<Coord> = Vec::new();
        let mut i: usize = 0;
        while i < pairs.len()
            invariant
                i <= pairs@.len(),
                coords@.len() == i as int,
                forall|t: int| 0 <= t < i ==> is_real((#[trigger] pairs@[t]).0) && is_real(
                    pairs@[t].1,
                ),
                forall|t: int| 0 <= t < i ==> #[trigger] coords@[t] == coord_of_pair(pairs@[t]),
            decreases pairs@.len() - i,
        {
            let pr = pairs[i];
            match Coord::new(pr.0, pr.1) {
                Ok(c) => {
                    proof {
                        crate::coord::lemma_coord_of_pair(pairs@[i as int]);
                        Coord::lemma_eq(c, coord_of_pair(pairs@[i as int]));
                    }
                    coords.push(c);
                },
                Err(_) => {
                    return Err(PiecewiseErr::InputNaN);
                },
            }
            i += 1;
        }
        proof {
            assert(coords@ =~= coords_of(pairs@));
            assert forall|t: int| 0 <= t < coords@.len() implies (#[trigger] coords@[t]).wf() by {
                crate::coord::lemma_coord_of_pair(pairs@[t]);
            }
        }
        Self::try_from(coords)
    }

    /// The control points in ascending-x order, as component-key pairs:
    /// the canonical serialization form.
    pub fn to_pairs(&self) -> (r: Vec<(u64, u64)>)
        ensures
            r@.len() == self@.len(),
            forall|i: int| 0 <= i < self@.len() ==> #[trigger] r@[i] == pair_of(self@[i]),
    {
        let mut out: Vec<(u64, u64)> = Vec::new();
        let mut i: usize = 0;
        while i < self.points.len()
            invariant
                i <= self@.len(),
                out@.len() == i as int,
                self.points@ == self@,
                forall|t: int| 0 <= t < i ==> #[trigger] out@[t] == pair_of(self@[t]),
            decreases self@.len() - i,
        {
            let c = self.points[i];
            out.push((c.x(), c.y()));
            i += 1;
        }
        out
    }

    /// Resolves a query key against the function. A key that denotes no
    /// real value is rejected as `InputNaN`; a real query outside the
    /// domain fails with `NotInDomain`. Inside the domain the result is
    /// `Eval::Exact` with the stored y key when a control point has
    /// exactly the query x, and otherwise `Eval::Segment` with the two
    /// adjacent control points that bracket the query.
    pub fn y_at_x(&self, q: u64) -> (r: Result<Eval, PiecewiseErr>)
        requires
            self.wf(),
        ensures
            r == Err::<Eval, PiecewiseErr>(PiecewiseErr::InputNaN) <==> !is_real(q),
            r == Err::<Eval, PiecewiseErr>(PiecewiseErr::NotInDomain) <==> (is_real(q)
                && !self.in_domain(q)),
            r is Ok <==> (is_real(q) && self.in_domain(q)),
            forall|i: int|
                0 <= i < self@.len() && (#[trigger] self@[i]).x_key() == q ==> r == Ok::<
                    Eval,
                    PiecewiseErr,
                >(Eval::Exact(self@[i].y_key())),
            (r is Ok && !has_point_at(self@, q)) ==> exists|k: int|
                0 < k < self@.len() && (#[trigger] self@[k]).x_key() > q && self@[k - 1].x_key()
                    < q && r == Ok::<Eval, PiecewiseErr>(
                    Eval::Segment(self@[k - 1], self@[k]),
                ),
    {
        if !key_is_real(q) {
            return Err(PiecewiseErr::InputNaN);
        }
        let n = self.points.len();
        let mut lo: usize = 0;
        let mut hi: usize = n;
        while lo < hi
            invariant
                lo <= hi <= n,
                n == self@.len(),
                self.points@ == self@,
                sorted_by_x(self@),
                forall|i: int| 0 <= i < lo ==> (#[trigger] self@[i]).x_key() < q,
                forall|i: int| hi <= i < n ==> (#[trigger] self@[i]).x_key() >= q,
            decreases hi - lo,
        {
            let mid = lo + (hi - lo) / 2;
            if self.points[mid].x() < q {
                lo = mid + 1;
            } else {
                hi = mid;
            }
        }
        if lo < n {
            let at = self.points[lo];
            if at.x() == q {
                return Ok(Eval::Exact(at.y()));
            }
        }
        if lo == 0 || lo >= n {
            return Err(PiecewiseErr::NotInDomain);
        }
        Ok(Eval::Segment(self.points[lo - 1], self.points[lo]))
    }
}

/// A permutation of a functional point sequence is functional.
proof fn lemma_functional_permutation(a: Seq<Coord>, b: Seq<Coord>)
    requires
        a.to_multiset() == b.to_multiset(),
        functional(a),
    ensures
        functional(b),
{
    broadcast use vstd::seq_lib::group_to_multiset_ensures;

    assert forall|i: int, j: int|
        0 <= i < b.len() && 0 <= j < b.len() && #[trigger] b[i].x_key() == #[trigger] b[j].x_key()
        implies b[i].y_key() == b[j].y_key() by {
        assert(b.contains(b[i]));
        assert(b.contains(b[j]));
        assert(b.to_multiset().count(b[i]) > 0);
        assert(b.to_multiset().count(b[j]) > 0);
        assert(a.to_multiset().count(b[i]) > 0);
        assert(a.to_multiset().count(b[j]) > 0);
        assert(a.contains(b[i]));
        assert(a.contains(b[j]));
        let ii = choose|ii: int| 0 <= ii < a.len() && a[ii] == b[i];
        let jj = choose|jj: int| 0 <= jj < a.len() && a[jj] == b[j];
        assert(a[ii].x_key() == a[jj].x_key());
    }
}

/// A permutation of well-formed points is well-formed.
proof fn lemma_wf_permutation(a: Seq<Coord>, b: Seq<Coord>)
    requires
        a.to_multiset() == b.to_multiset(),
        forall|i: int| 0 <= i < a.len() ==> (#[trigger] a[i]).wf(),
    ensures
        forall|i: int| 0 <= i < b.len() ==> (#[trigger] b[i]).wf(),
{
    broadcast use vstd::seq_lib::group_to_multiset_ensures;

    assert forall|i: int| 0 <= i < b.len() implies (#[trigger] b[i]).wf() by {
        assert(b.contains(b[i]));
        assert(b.to_multiset().count(b[i]) > 0);
        assert(a.to_multiset().count(b[i]) > 0);
        assert(a.contains(b[i]));
        let ii = choose|ii: int| 0 <= ii < a.len() && a[ii] == b[i];
        assert(a[ii].wf());
    }
}

/// In a sorted sequence, equal x keys at the ends force equal y keys,
/// stepping through the adjacent duplicates in between.
proof fn lemma_y_chain(s: Seq<Coord>, i: int, j: int)
    requires
        sorted_by_x(s),
        adjacent_functional(s),
        0 <= i <= j < s.len(),
        s[i].x_key() == s[j].x_key(),
    ensures
        s[i].y_key() == s[j].y_key(),
    decreases j - i,
{
    if i < j {
        assert(s[i].x_key() <= s[j - 1].x_key());
        assert(s[j - 1].x_key() <= s[j].x_key());
        assert(s[j].x_key() == s[j - 1].x_key());
        lemma_y_chain(s, i, j - 1);
    }
}

/// A sorted sequence whose adjacent pairs are functional is functional.
proof fn lemma_adjacent_functional(s: Seq<Coord>)
    requires
        sorted_by_x(s),
        adjacent_functional(s),
    ensures
        functional(s),
{
    assert forall|i: int, j: int|
        0 <= i < s.len() && 0 <= j < s.len() && #[trigger] s[i].x_key() == #[trigger] s[j].x_key()
        implies s[i].y_key() == s[j].y_key() by {
        if i <= j {
            lemma_y_chain(s, i, j);
        } else {
            lemma_y_chain(s, j, i);
        }
    }
}

} // verus!
