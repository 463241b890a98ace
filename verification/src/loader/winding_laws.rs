//! What holds of every winding.

use crate::algebra::{
    lemma_cross_relation, lemma_negated_product, lemma_positive_factor, lemma_product_nonnegative,
    lemma_product_positive, lemma_zero_factor, lemma_zero_product, lemma_zero_right,
};
use crate::loader::utils::{
    centroid, insert_wound, offset, precedes, sector, sum_points, wound, wound_before,
    wound_prefix,
};
use crate::vector::{Real2, Real3};
use vstd::prelude::*;

verus! {

/// Whether no point of the list comes strictly before the point in front of it.
pub open spec fn in_winding_order(points: Seq<Real3>, u: Real3, v: Real3, center: Real3) -> bool {
    forall|t: int|
        0 <= t < points.len() - 1 ==> !wound_before(
            u,
            v,
            center,
            #[trigger] points[t + 1],
            points[t],
        )
}

/// Of two offsets at most one comes strictly before the other.
pub proof fn lemma_precedes_asymmetric(a: Real2, b: Real2)
    requires
        precedes(a, b),
    ensures
        !precedes(b, a),
{
    assert(b.cross(a) == -a.cross(b));
}

proof fn lemma_insert_wound_sum(sorted: Seq<Real3>, point: Real3, u: Real3, v: Real3, center: Real3)
    ensures
        insert_wound(sorted, point, u, v, center).len() == sorted.len() + 1,
        sum_points(insert_wound(sorted, point, u, v, center)) == sum_points(sorted).plus(point),
        insert_wound(sorted, point, u, v, center).to_multiset() == sorted.to_multiset().insert(
            point,
        ),
    decreases sorted.len(),
{
    broadcast use vstd::seq_lib::group_to_multiset_ensures;

    if sorted.len() > 0 && wound_before(u, v, center, point, sorted.last()) {
        let inner = insert_wound(sorted.drop_last(), point, u, v, center);
        lemma_insert_wound_sum(sorted.drop_last(), point, u, v, center);
        assert(inner.push(sorted.last()).drop_last() =~= inner);
        assert(sorted.drop_last().push(sorted.last()) =~= sorted);
        assert(sorted.to_multiset() =~= sorted.drop_last().to_multiset().insert(sorted.last()));
        assert(inner.push(sorted.last()).to_multiset() =~= sorted.to_multiset().insert(point));
    } else {
        assert(sorted.push(point).drop_last() =~= sorted);
    }
}

proof fn lemma_wound_prefix_sum(points: Seq<Real3>, n: nat, u: Real3, v: Real3, center: Real3)
    requires
        n <= points.len(),
    ensures
        wound_prefix(points, n, u, v, center).len() == n,
        sum_points(wound_prefix(points, n, u, v, center)) == sum_points(points.take(n as int)),
        wound_prefix(points, n, u, v, center).to_multiset() == points.take(n as int).to_multiset(),
    decreases n,
{
    broadcast use vstd::seq_lib::group_to_multiset_ensures;

    if n > 0 {
        lemma_wound_prefix_sum(points, (n - 1) as nat, u, v, center);
        lemma_insert_wound_sum(
            wound_prefix(points, (n - 1) as nat, u, v, center),
            points[n - 1],
            u,
            v,
            center,
        );
        let head = points.take(n as int);
        assert(head.drop_last() =~= points.take(n - 1));
        assert(head.last() == points[n - 1]);
        assert(head =~= points.take(n - 1).push(points[n - 1]));
    } else {
        assert(points.take(0) =~= Seq::<Real3>::empty());
    }
}

proof fn lemma_insert_wound_keeps_order(
    sorted: Seq<Real3>,
    point: Real3,
    u: Real3,
    v: Real3,
    center: Real3,
)
    requires
        in_winding_order(sorted, u, v, center),
    ensures
        in_winding_order(insert_wound(sorted, point, u, v, center), u, v, center),
        insert_wound(sorted, point, u, v, center).len() == sorted.len() + 1,
        insert_wound(sorted, point, u, v, center).last() == if sorted.len() > 0 && wound_before(
            u,
            v,
            center,
            point,
            sorted.last(),
        ) {
            sorted.last()
        } else {
            point
        },
    decreases sorted.len(),
{
    let result = insert_wound(sorted, point, u, v, center);
    if sorted.len() > 0 && wound_before(u, v, center, point, sorted.last()) {
        let shorter = sorted.drop_last();
        assert forall|t: int| 0 <= t < shorter.len() - 1 implies !wound_before(
            u,
            v,
            center,
            #[trigger] shorter[t + 1],
            shorter[t],
        ) by {
            assert(shorter[t + 1] == sorted[t + 1]);
        }
        lemma_insert_wound_keeps_order(shorter, point, u, v, center);
        let inner = insert_wound(shorter, point, u, v, center);
        assert forall|t: int| 0 <= t < result.len() - 1 implies !wound_before(
            u,
            v,
            center,
            #[trigger] result[t + 1],
            result[t],
        ) by {
            if t + 1 < inner.len() {
                assert(result[t + 1] == inner[t + 1]);
            } else {
                assert(result[t + 1] == sorted.last());
                assert(result[t] == inner.last());
                if shorter.len() > 0 && wound_before(u, v, center, point, shorter.last()) {
                    assert(inner.last() == shorter.last());
                    assert(shorter.last() == sorted[sorted.len() - 2]);
                    assert(sorted.last() == sorted[(sorted.len() - 2) + 1]);
                } else {
                    assert(inner.last() == point);
                    lemma_precedes_asymmetric(
                        offset(u, v, center, point),
                        offset(u, v, center, sorted.last()),
                    );
                }
            }
        }
    } else {
        assert forall|t: int| 0 <= t < result.len() - 1 implies !wound_before(
            u,
            v,
            center,
            #[trigger] result[t + 1],
            result[t],
        ) by {
            if t + 1 < sorted.len() {
                assert(result[t + 1] == sorted[t + 1]);
            }
        }
    }
}

proof fn lemma_wound_prefix_ordered(points: Seq<Real3>, n: nat, u: Real3, v: Real3, center: Real3)
    requires
        n <= points.len(),
    ensures
        in_winding_order(wound_prefix(points, n, u, v, center), u, v, center),
    decreases n,
{
    if n > 0 {
        lemma_wound_prefix_ordered(points, (n - 1) as nat, u, v, center);
        lemma_insert_wound_keeps_order(
            wound_prefix(points, (n - 1) as nat, u, v, center),
            points[n - 1],
            u,
            v,
            center,
        );
    }
}

proof fn lemma_ordered_prefix_fixed(points: Seq<Real3>, n: nat, u: Real3, v: Real3, center: Real3)
    requires
        n <= points.len(),
        in_winding_order(points, u, v, center),
    ensures
        wound_prefix(points, n, u, v, center) == points.take(n as int),
    decreases n,
{
    if n > 0 {
        lemma_ordered_prefix_fixed(points, (n - 1) as nat, u, v, center);
        let head = points.take(n - 1);
        if n > 1 {
            assert(head.last() == points[n - 2]);
            assert(points[n - 1] == points[(n - 2) + 1]);
        }
        assert(head.push(points[n - 1]) =~= points.take(n as int));
    } else {
        assert(points.take(0) =~= Seq::<Real3>::empty());
    }
}

/// Winding moves points and neither adds nor drops any: the result holds
/// each point as often as the list did.
pub proof fn lemma_wound_is_permutation(u: Real3, v: Real3, points: Seq<Real3>)
    ensures
        wound(u, v, points).len() == points.len(),
        wound(u, v, points).to_multiset() == points.to_multiset(),
{
    lemma_wound_prefix_sum(points, points.len(), u, v, centroid(points));
    assert(points.take(points.len() as int) =~= points);
}

/// In a wound list no point comes strictly before the point in front of it.
pub proof fn lemma_wound_is_ordered(u: Real3, v: Real3, points: Seq<Real3>)
    ensures
        in_winding_order(wound(u, v, points), u, v, centroid(points)),
{
    lemma_wound_prefix_ordered(points, points.len(), u, v, centroid(points));
}

/// Winding keeps the centroid.
pub proof fn lemma_wound_keeps_centroid(u: Real3, v: Real3, points: Seq<Real3>)
    ensures
        centroid(wound(u, v, points)) == centroid(points),
{
    lemma_wound_prefix_sum(points, points.len(), u, v, centroid(points));
    assert(points.take(points.len() as int) =~= points);
}

/// Winding a list that is already wound gives the same list again.
pub proof fn lemma_wind_idempotent(u: Real3, v: Real3, points: Seq<Real3>)
    ensures
        wound(u, v, wound(u, v, points)) == wound(u, v, points),
{
    let once = wound(u, v, points);
    lemma_wound_is_permutation(u, v, points);
    lemma_wound_keeps_centroid(u, v, points);
    lemma_wound_is_ordered(u, v, points);
    lemma_ordered_prefix_fixed(once, once.len(), u, v, centroid(points));
    assert(once.take(once.len() as int) =~= once);
}

/// Whether a flat vector points into the half of the plane that starts at
/// the positive first axis and ends before the negative one.
pub open spec fn points_up(v: Real2) -> bool {
    v.y > 0real || (v.y == 0real && v.x > 0real)
}

/// The flat vector that points the other way.
pub open spec fn reversed(v: Real2) -> Real2 {
    Real2 { x: -v.x, y: -v.y }
}

proof fn lemma_chain_in_upper_half(a: Real2, b: Real2, c: Real2)
    requires
        points_up(a),
        points_up(b),
        points_up(c),
        a.cross(b) >= 0real,
        b.cross(c) >= 0real,
    ensures
        a.cross(c) >= 0real,
        a.cross(c) == 0real ==> a.cross(b) == 0real && b.cross(c) == 0real,
{
    if b.y > 0real {
        lemma_cross_relation(a, b, c);
        lemma_product_nonnegative(a.y, b.cross(c));
        lemma_product_nonnegative(c.y, a.cross(b));
        lemma_positive_factor(b.y, a.cross(c));
        if a.cross(c) == 0real {
            lemma_zero_right(b.y, a.cross(c));
            lemma_zero_factor(a.y, b.cross(c));
            lemma_zero_factor(c.y, a.cross(b));
            if a.y == 0real {
                lemma_product_positive(a.x, b.y);
                lemma_zero_right(b.x, a.y);
            }
            if c.y == 0real {
                lemma_product_positive(c.x, b.y);
                lemma_zero_right(b.x, c.y);
            }
        }
    } else {
        lemma_zero_right(a.x, b.y);
        lemma_zero_right(c.x, b.y);
        if a.y > 0real {
            lemma_product_positive(b.x, a.y);
        }
        lemma_zero_right(c.x, a.y);
        lemma_zero_right(b.x, a.y);
        lemma_product_nonnegative(a.x, c.y);
        lemma_product_nonnegative(b.x, c.y);
        if a.cross(c) == 0real {
            lemma_zero_factor(a.x, c.y);
            lemma_zero_right(b.x, c.y);
        }
    }
}

proof fn lemma_reversed_products(a: Real2, b: Real2)
    ensures
        reversed(a).cross(reversed(b)) == a.cross(b),
        reversed(a).norm_squared() == a.norm_squared(),
{
    lemma_negated_product(a.x, b.y);
    lemma_negated_product(b.x, a.y);
    lemma_negated_product(a.x, a.x);
    lemma_negated_product(a.y, a.y);
}

proof fn lemma_chain_in_one_sector(a: Real2, b: Real2, c: Real2)
    requires
        sector(a) == sector(b),
        sector(b) == sector(c),
        a.cross(b) >= 0real,
        b.cross(c) >= 0real,
    ensures
        a.cross(c) >= 0real,
        a.cross(c) == 0real ==> a.cross(b) == 0real && b.cross(c) == 0real,
{
    if sector(a) == 0 {
        lemma_zero_product(a.x, c.y);
        lemma_zero_right(c.x, a.y);
        lemma_zero_product(a.x, b.y);
        lemma_zero_right(b.x, a.y);
        lemma_zero_product(b.x, c.y);
        lemma_zero_right(c.x, b.y);
    } else if sector(a) == 1 {
        lemma_chain_in_upper_half(a, b, c);
    } else {
        lemma_reversed_products(a, b);
        lemma_reversed_products(b, c);
        lemma_reversed_products(a, c);
        lemma_chain_in_upper_half(reversed(a), reversed(b), reversed(c));
    }
}

/// Coming no later is passed on: if `a` comes no later than `b` and `b` no
/// later than `c`, then `a` comes no later than `c`.
pub proof fn lemma_precedes_chain(a: Real2, b: Real2, c: Real2)
    requires
        !precedes(b, a),
        !precedes(c, b),
    ensures
        !precedes(c, a),
{
    assert(b.cross(a) == -a.cross(b));
    assert(c.cross(b) == -b.cross(c));
    assert(c.cross(a) == -a.cross(c));
    if sector(a) == sector(b) && sector(b) == sector(c) {
        lemma_chain_in_one_sector(a, b, c);
    }
}

proof fn lemma_ordered_pairs(
    points: Seq<Real3>,
    u: Real3,
    v: Real3,
    center: Real3,
    s: int,
    t: int,
)
    requires
        in_winding_order(points, u, v, center),
        0 <= s < t < points.len(),
    ensures
        !wound_before(u, v, center, points[t], points[s]),
    decreases t - s,
{
    if t == s + 1 {
        assert(points[t] == points[s + 1]);
    } else {
        lemma_ordered_pairs(points, u, v, center, s, t - 1);
        assert(points[t] == points[(t - 1) + 1]);
        lemma_precedes_chain(
            offset(u, v, center, points[s]),
            offset(u, v, center, points[t - 1]),
            offset(u, v, center, points[t]),
        );
    }
}

/// A wound list is in order throughout: none of its points comes strictly
/// before any point in front of it.
pub proof fn lemma_wound_is_sorted(u: Real3, v: Real3, points: Seq<Real3>)
    ensures
        forall|s: int, t: int|
            0 <= s < t < wound(u, v, points).len() ==> !wound_before(
                u,
                v,
                centroid(points),
                #[trigger] wound(u, v, points)[t],
                #[trigger] wound(u, v, points)[s],
            ),
{
    lemma_wound_is_ordered(u, v, points);
    let out = wound(u, v, points);
    assert forall|s: int, t: int| 0 <= s < t < out.len() implies !wound_before(
        u,
        v,
        centroid(points),
        #[trigger] out[t],
        #[trigger] out[s],
    ) by {
        lemma_ordered_pairs(out, u, v, centroid(points), s, t);
    }
}

} // verus!
