//! Sorting of control points by x key.

use vstd::prelude::*;

use crate::coord::Coord;
use crate::sorted_by_x;

verus! {

/// Sorts the points into non-decreasing x order by repeated insertion,
/// keeping exactly the given points (as a multiset).
pub(crate) fn sort_points(points: Vec<Coord>) -> (r: Vec<Coord>)
    ensures
        sorted_by_x(r@),
        r@.to_multiset() == points@.to_multiset(),
        r@.len() == points@.len(),
{
    broadcast use vstd::seq_lib::group_to_multiset_ensures;

    let mut out: Vec<Coord> = Vec::new();
    let mut i: usize = 0;
    while i < points.len()
        invariant
            i <= points@.len(),
            out@.len() == i as int,
            sorted_by_x(out@),
            out@.to_multiset() == points@.subrange(0, i as int).to_multiset(),
        decreases points@.len() - i,
    {
        let c = points[i];
        let cx = c.x();
        let mut j: usize = 0;
        while j < out.len()
            invariant
                j <= out@.len(),
                forall|k: int| 0 <= k < j ==> #[trigger] out@[k].x_key() <= cx,
                cx == c.x_key(),
            ensures
                j <= out@.len(),
                forall|k: int| 0 <= k < j ==> #[trigger] out@[k].x_key() <= cx,
                j < out@.len() ==> out@[j as int].x_key() > cx,
            decreases out@.len() - j,
        {
            if out[j].x() > cx {
                break ;
            }
            j += 1;
        }
        let ghost prev = out@;
        out.insert(j, c);
        proof {
            broadcast use vstd::seq_lib::group_to_multiset_ensures;

            prev.insert_ensures(j as int, c);
            assert(out@ == prev.insert(j as int, c));
            assert forall|a: int, b: int|
                0 <= a <= b < out@.len() implies #[trigger] out@[a].x_key()
                <= #[trigger] out@[b].x_key() by {
                if b < j {
                    assert(out@[a] == prev[a] && out@[b] == prev[b]);
                } else if a > j {
                    assert(out@[a] == prev[a - 1] && out@[b] == prev[b - 1]);
                } else if a < j && b == j {
                    assert(out@[a] == prev[a]);
                } else if a == j && b > j {
                    assert(out@[b] == prev[b - 1]);
                    assert(prev[j as int].x_key() > cx);
                    assert(prev[j as int].x_key() <= prev[b - 1].x_key());
                } else if a < j && b > j {
                    assert(out@[a] == prev[a] && out@[b] == prev[b - 1]);
                }
            }
            assert(points@.subrange(0, i as int + 1) =~= points@.subrange(0, i as int).push(
                points@[i as int],
            ));
        }
        i += 1;
    }
    proof {
        assert(points@.subrange(0, points@.len() as int) =~= points@);
    }
    out
}

} // verus!
