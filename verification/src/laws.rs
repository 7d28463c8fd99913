//! The library-wide laws, each stated and proved over the same spec
//! functions that the executable contracts use.

use vstd::prelude::*;

use vstd::relations::{sorted_by, total_ordering};
use vstd::seq_lib::lemma_sorted_unique;

use crate::coord::Coord;
use crate::{sorted_by_x, Piecewise};

verus! {

/// Sortedness: the points of a well-formed piecewise function are in
/// non-decreasing x order.
pub proof fn lemma_sorted(p: &Piecewise)
    requires
        p.wf(),
    ensures
        forall|i: int, j: int|
            0 <= i <= j < p@.len() ==> #[trigger] p@[i].x_key() <= #[trigger] p@[j].x_key(),
{
    assert(sorted_by_x(p@));
}

/// Function invariant: any two adjacent stored points either strictly
/// increase in x, or agree in both x and y.
pub proof fn lemma_adjacent_points(p: &Piecewise)
    requires
        p.wf(),
    ensures
        forall|i: int|
            0 < i < p@.len() ==> ((#[trigger] p@[i]).x_key() > p@[i - 1].x_key() || (p@[i].x_key()
                == p@[i - 1].x_key() && p@[i].y_key() == p@[i - 1].y_key())),
{
    assert forall|i: int|
        0 < i < p@.len() implies ((#[trigger] p@[i]).x_key() > p@[i - 1].x_key() || (p@[i].x_key()
        == p@[i - 1].x_key() && p@[i].y_key() == p@[i - 1].y_key())) by {
        assert(p@[i - 1].x_key() <= p@[i].x_key());
    }
}

/// Canonical form: a well-formed piecewise function is determined by the
/// multiset of its points. Construction keeps exactly the supplied points
/// and serialization emits exactly the stored ones, so with this law a
/// serialize/construct round trip recovers the identical point sequence,
/// whatever the order the points were first supplied in.
pub proof fn lemma_canonical_points(p1: &Piecewise, p2: &Piecewise)
    requires
        p1.wf(),
        p2.wf(),
        p1@.to_multiset() == p2@.to_multiset(),
    ensures
        p1@ == p2@,
{
    let leq = |a: Coord, b: Coord|
        a.x_key() < b.x_key() || (a.x_key() == b.x_key() && a.y_key() <= b.y_key());
    assert(total_ordering(leq)) by {
        assert forall|x: Coord, y: Coord| #[trigger] leq(x, y) && #[trigger] leq(y, x) implies x
            == y by {
            Coord::lemma_eq(x, y);
        }
    }
    assert(sorted_by(p1@, leq)) by {
        lemma_wf_is_sorted_by_leq(p1, leq);
    }
    assert(sorted_by(p2@, leq)) by {
        lemma_wf_is_sorted_by_leq(p2, leq);
    }
    lemma_sorted_unique(p1@, p2@, leq);
    assert(p1@ =~= p2@);
}

/// A well-formed point sequence is sorted under the (x, then y) order.
proof fn lemma_wf_is_sorted_by_leq(p: &Piecewise, leq: spec_fn(Coord, Coord) -> bool)
    requires
        p.wf(),
        forall|a: Coord, b: Coord| #[trigger] leq(a, b) == (a.x_key() < b.x_key() || (a.x_key()
            == b.x_key() && a.y_key() <= b.y_key())),
    ensures
        sorted_by(p@, leq),
{
    assert forall|i: int, j: int| 0 <= i < j < p@.len() implies #[trigger] leq(p@[i], p@[j]) by {
        assert(p@[i].x_key() <= p@[j].x_key());
    }
}

/// Single-point domain: a function built from one control point contains a
/// query in its domain exactly at that point's x.
pub proof fn lemma_single_point_domain(p: &Piecewise, q: u64)
    requires
        p.wf(),
        p@.len() == 1,
    ensures
        p.in_domain(q) <==> q == p@[0].x_key(),
{
}

} // verus!
