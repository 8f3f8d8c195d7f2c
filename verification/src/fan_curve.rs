//! Fan curves: putting the points in order, and what holds of every curve.
use crate::double::{law_order_is_numeric, Double};
use crate::formula::Formula;
use crate::gpu_control::{curve_speed, line_speed, segment_speed, sorted, CurvePoint};
use vstd::prelude::*;

verus! {

/// On a segment the straight line stays between the two speeds, starts at the first and ends
/// at the second.
proof fn lemma_line_between(low: CurvePoint, high: CurvePoint, temp_c: Double)
    requires
        low.temp_c.le(temp_c),
        temp_c.le(high.temp_c),
        low.temp_c.units() < high.temp_c.units(),
    ensures
        ({
            let speed = line_speed(low, high, temp_c).value();
            let (x0, x1, x) = (low.temp_c.value(), high.temp_c.value(), temp_c.value());
            let (y0, y1) = (low.speed_pct.value(), high.speed_pct.value());
            &&& x0 < x1
            &&& speed == y0 + (x - x0) / (x1 - x0) * (y1 - y0)
            &&& y0 <= y1 ==> y0 <= speed <= y1
            &&& y1 <= y0 ==> y1 <= speed <= y0
            &&& x == x0 ==> speed == y0
            &&& x == x1 ==> speed == y1
        }),
{
    reveal_with_fuel(Formula::value, 6);
    law_order_is_numeric(low.temp_c, temp_c);
    law_order_is_numeric(temp_c, high.temp_c);
    law_order_is_numeric(low.temp_c, high.temp_c);
    let (x0, x1, x) = (low.temp_c.value(), high.temp_c.value(), temp_c.value());
    let (y0, y1) = (low.speed_pct.value(), high.speed_pct.value());
    let t = (x - x0) / (x1 - x0);
    assert(0 as real <= t <= 1 as real) by (nonlinear_arith)
        requires
            x0 <= x <= x1,
            x0 < x1,
            t == (x - x0) / (x1 - x0),
    ;
    assert(y0 <= y1 ==> y0 <= y0 + t * (y1 - y0) <= y1) by (nonlinear_arith)
        requires
            0 as real <= t <= 1 as real,
    ;
    assert(y1 <= y0 ==> y1 <= y0 + t * (y1 - y0) <= y0) by (nonlinear_arith)
        requires
            0 as real <= t <= 1 as real,
    ;
    assert(x == x0 ==> t == 0 as real) by (nonlinear_arith)
        requires
            x0 < x1,
            t == (x - x0) / (x1 - x0),
    ;
    assert(x == x1 ==> t == 1 as real) by (nonlinear_arith)
        requires
            x0 < x1,
            t == (x - x0) / (x1 - x0),
    ;
    assert(0 as real * (y1 - y0) == 0 as real) by (nonlinear_arith);
    assert(1 as real * (y1 - y0) == y1 - y0) by (nonlinear_arith);
}

/// Strictly inside the curve's range, the speed comes from the one segment that the
/// temperature has entered and not left.
proof fn lemma_inside(curve: Seq<CurvePoint>, i: int, temp_c: Double) -> (k: int)
    requires
        sorted(curve),
        0 <= i < curve.len() - 1,
        curve[i].temp_c.lt(temp_c),
        temp_c.lt(curve.last().temp_c),
    ensures
        i <= k < curve.len() - 1,
        curve[k].temp_c.lt(temp_c),
        temp_c.le(curve[k + 1].temp_c),
        segment_speed(curve, i, temp_c) == line_speed(curve[k], curve[k + 1], temp_c),
    decreases curve.len() - i,
{
    assert(curve[i].temp_c.le(curve[i + 1].temp_c));
    if temp_c.le(curve[i + 1].temp_c) {
        i
    } else {
        assert(i + 1 < curve.len() - 1);
        lemma_inside(curve, i + 1, temp_c)
    }
}

/// Below the first point the first speed holds, from the last point on the last speed.
pub proof fn law_curve_clamps(curve: Seq<CurvePoint>, temp_c: Double)
    requires
        curve.len() > 0,
        sorted(curve),
    ensures
        temp_c.le(curve[0].temp_c) ==> curve_speed(curve, temp_c) == Formula::Value(
            curve[0].speed_pct,
        ),
        curve[0].temp_c.lt(temp_c) && curve.last().temp_c.le(temp_c) ==> curve_speed(curve, temp_c)
            == Formula::Value(curve.last().speed_pct),
{
}

/// In exact arithmetic, no temperature drives the fan outside the range of the curve's own
/// speeds.
pub proof fn law_curve_stays_in_range(
    curve: Seq<CurvePoint>,
    temp_c: Double,
    low: real,
    high: real,
)
    requires
        curve.len() > 0,
        sorted(curve),
        !temp_c.nan(),
        forall|i: int|
            0 <= i < curve.len() ==> low <= (#[trigger] curve[i]).speed_pct.value() <= high,
    ensures
        low <= curve_speed(curve, temp_c).value() <= high,
{
    let n = curve.len() as int;
    assert(curve[0].temp_c.le(curve[n - 1].temp_c));
    if n > 1 && !temp_c.le(curve[0].temp_c) && !curve[n - 1].temp_c.le(temp_c) {
        let k = lemma_inside(curve, 0, temp_c);
        lemma_line_between(curve[k], curve[k + 1], temp_c);
    } else {
        assert(low <= curve[0].speed_pct.value() <= high);
        assert(low <= curve[n - 1].speed_pct.value() <= high);
    }
}

/// In exact arithmetic, a curve whose temperatures all differ passes through its points.
pub proof fn law_curve_meets_its_points(curve: Seq<CurvePoint>, i: int)
    requires
        sorted(curve),
        0 <= i < curve.len(),
        forall|a: int, b: int|
            0 <= a < b < curve.len() ==> (#[trigger] curve[a]).temp_c.lt(
                (#[trigger] curve[b]).temp_c,
            ),
    ensures
        curve_speed(curve, curve[i].temp_c).value() == curve[i].speed_pct.value(),
{
    let n = curve.len() as int;
    let temp_c = curve[i].temp_c;
    assert(temp_c.le(temp_c));
    if 0 < i && i < n - 1 {
        assert(curve[0].temp_c.lt(temp_c));
        assert(temp_c.lt(curve[n - 1].temp_c));
        let k = lemma_inside(curve, 0, temp_c);
        assert(k + 1 == i) by {
            if k >= i {
                assert(curve[i].temp_c.le(curve[k].temp_c));
            }
            if k + 1 < i {
                assert(curve[k + 1].temp_c.lt(curve[i].temp_c));
            }
        }
        lemma_line_between(curve[k], curve[k + 1], temp_c);
        law_order_is_numeric(temp_c, curve[k + 1].temp_c);
    }
}

/// In exact arithmetic, between two neighbouring points of a curve whose temperatures all differ
/// the speed lies on the straight line through them.
pub proof fn law_curve_is_straight_between_points(curve: Seq<CurvePoint>, i: int, temp_c: Double)
    requires
        sorted(curve),
        0 <= i < curve.len() - 1,
        forall|a: int, b: int|
            0 <= a < b < curve.len() ==> (#[trigger] curve[a]).temp_c.lt(
                (#[trigger] curve[b]).temp_c,
            ),
        curve[i].temp_c.le(temp_c),
        temp_c.le(curve[i + 1].temp_c),
    ensures
        ({
            let (x0, x1) = (curve[i].temp_c.value(), curve[i + 1].temp_c.value());
            let (y0, y1) = (curve[i].speed_pct.value(), curve[i + 1].speed_pct.value());
            &&& x0 < x1
            &&& curve_speed(curve, temp_c).value() == y0 + (temp_c.value() - x0) / (x1 - x0) * (y1
                - y0)
        }),
{
    let n = curve.len() as int;
    assert(curve[i].temp_c.lt(curve[i + 1].temp_c));
    lemma_line_between(curve[i], curve[i + 1], temp_c);
    if temp_c.le(curve[0].temp_c) {
        if i > 0 {
            assert(curve[0].temp_c.lt(curve[i].temp_c));
        }
        law_order_is_numeric(temp_c, curve[0].temp_c);
        law_order_is_numeric(curve[0].temp_c, temp_c);
    } else if curve[n - 1].temp_c.le(temp_c) {
        if i + 1 < n - 1 {
            assert(curve[i + 1].temp_c.lt(curve[n - 1].temp_c));
        }
        law_order_is_numeric(temp_c, curve[n - 1].temp_c);
        law_order_is_numeric(curve[n - 1].temp_c, temp_c);
    } else {
        let k = lemma_inside(curve, 0, temp_c);
        if k > i {
            assert(curve[i + 1].temp_c.le(curve[k].temp_c));
        }
        if k < i {
            assert(curve[k + 1].temp_c.le(curve[i].temp_c));
            if k + 1 < i {
                assert(curve[k + 1].temp_c.lt(curve[i].temp_c));
            }
            lemma_line_between(curve[k], curve[k + 1], temp_c);
            law_order_is_numeric(temp_c, curve[i].temp_c);
        }
    }
}

/// In exact arithmetic, a curve whose speeds do not fall never slows the fan down when it gets
/// hotter.
pub proof fn law_rising_curve_never_slows(curve: Seq<CurvePoint>, cool: Double, hot: Double)
    requires
        sorted(curve),
        cool.le(hot),
        forall|i: int, j: int|
            0 <= i <= j < curve.len() ==> (#[trigger] curve[i]).speed_pct.value() <= (
            #[trigger] curve[j]).speed_pct.value(),
    ensures
        curve_speed(curve, cool).value() <= curve_speed(curve, hot).value(),
{
    let n = curve.len() as int;
    if n > 1 {
        assert(curve[0].temp_c.le(curve[n - 1].temp_c));
        let first = curve[0].speed_pct.value();
        let last = curve[n - 1].speed_pct.value();
        assert forall|i: int| 0 <= i < n implies first <= (
        #[trigger] curve[i]).speed_pct.value() <= last by {
            assert(curve[0].speed_pct.value() <= curve[i].speed_pct.value());
            assert(curve[i].speed_pct.value() <= curve[n - 1].speed_pct.value());
        }
        law_curve_stays_in_range(curve, cool, first, last);
        law_curve_stays_in_range(curve, hot, first, last);
        if !cool.le(curve[0].temp_c) && !curve[n - 1].temp_c.le(hot) {
            let a = lemma_inside(curve, 0, cool);
            let b = lemma_inside(curve, 0, hot);
            lemma_line_between(curve[a], curve[a + 1], cool);
            lemma_line_between(curve[b], curve[b + 1], hot);
            if a < b {
                assert(curve[a + 1].speed_pct.value() <= curve[b].speed_pct.value());
                assert(curve[a].speed_pct.value() <= curve[a + 1].speed_pct.value());
                assert(curve[b].speed_pct.value() <= curve[b + 1].speed_pct.value());
            } else if a == b {
                law_order_is_numeric(cool, hot);
                let (x0, x1) = (curve[a].temp_c.value(), curve[a + 1].temp_c.value());
                let (y0, y1) = (curve[a].speed_pct.value(), curve[a + 1].speed_pct.value());
                assert(y0 <= y1);
                let (c, h) = (cool.value(), hot.value());
                assert((c - x0) / (x1 - x0) <= (h - x0) / (x1 - x0)) by (nonlinear_arith)
                    requires
                        c <= h,
                        x0 < x1,
                ;
                let (s, t) = ((c - x0) / (x1 - x0), (h - x0) / (x1 - x0));
                assert(s * (y1 - y0) <= t * (y1 - y0)) by (nonlinear_arith)
                    requires
                        s <= t,
                        y0 <= y1,
                ;
            } else {
                assert(curve[b + 1].temp_c.le(curve[a].temp_c));
            }
        }
    }
}

// ---- Order ----

/// Adds a point to a curve, behind every point that is not hotter.
pub open spec fn with_point(curve: Seq<CurvePoint>, point: CurvePoint) -> Seq<CurvePoint>
    decreases curve.len(),
{
    if curve.len() > 0 && point.temp_c.lt(curve.last().temp_c) {
        with_point(curve.drop_last(), point).push(curve.last())
    } else {
        curve.push(point)
    }
}

/// The points in order of temperature; points of one temperature keep their order.
pub open spec fn by_temperature(curve: Seq<CurvePoint>) -> Seq<CurvePoint>
    decreases curve.len(),
{
    if curve.len() == 0 {
        curve
    } else {
        with_point(by_temperature(curve.drop_last()), curve.last())
    }
}

/// Puts the points in order of temperature; points of one temperature keep their order.
pub fn sort_by_temperature(curve: &[CurvePoint]) -> (r: Vec<CurvePoint>)
    ensures
        r@ == by_temperature(curve@),
{
    let mut r: Vec<CurvePoint> = Vec::new();
    let mut i: usize = 0;
    while i < curve.len()
        invariant
            i <= curve.len(),
            r@ == by_temperature(curve@.take(i as int)),
        decreases curve.len() - i,
    {
        let point: CurvePoint = curve[i];
        let mut at: usize = r.len();
        let ghost before = r@;
        assert(before.take(at as int) =~= before);
        assert(before.skip(at as int) =~= Seq::<CurvePoint>::empty());
        assert(with_point(before, point) =~= with_point(before.take(at as int), point)
            + before.skip(at as int));
        while at > 0 && point.temp_c.less(r[at - 1].temp_c)
            invariant
                at <= r.len(),
                r@ == before,
                with_point(before, point) == with_point(before.take(at as int), point)
                    + before.skip(at as int),
            decreases at,
        {
            assert(before.take(at as int).drop_last() =~= before.take(at - 1));
            assert(before.skip(at - 1) =~= seq![before[at - 1]] + before.skip(at as int));
            assert(with_point(before.take(at - 1), point).push(before[at - 1]) + before.skip(
                at as int,
            ) =~= with_point(before.take(at - 1), point) + before.skip(at - 1));
            at = at - 1;
        }
        r.insert(at, point);
        assert(r@ =~= before.take(at as int).push(point) + before.skip(at as int));
        assert(curve@.take(i + 1).drop_last() =~= curve@.take(i as int));
        i = i + 1;
    }
    assert(curve@.take(i as int) =~= curve@);
    r
}

pub open spec fn temperatures_are_numbers(curve: Seq<CurvePoint>) -> bool {
    forall|i: int| 0 <= i < curve.len() ==> !(#[trigger] curve[i]).temp_c.nan()
}

/// The points of one temperature, in their order.
pub open spec fn at_temperature(curve: Seq<CurvePoint>, units: int) -> Seq<CurvePoint> {
    curve.filter(|p: CurvePoint| p.temp_c.units() == units)
}

proof fn lemma_filter_push(curve: Seq<CurvePoint>, point: CurvePoint, units: int)
    ensures
        at_temperature(curve.push(point), units) == if point.temp_c.units() == units {
            at_temperature(curve, units).push(point)
        } else {
            at_temperature(curve, units)
        },
{
    reveal(Seq::filter);
    assert(curve.push(point).drop_last() =~= curve);
}

proof fn lemma_with_point(curve: Seq<CurvePoint>, point: CurvePoint, units: int)
    ensures
        with_point(curve, point).to_multiset() == curve.to_multiset().insert(point),
        with_point(curve, point).len() == curve.len() + 1,
        sorted(curve) && !point.temp_c.nan() ==> {
            &&& sorted(with_point(curve, point))
            &&& at_temperature(with_point(curve, point), units) == at_temperature(
                curve.push(point),
                units,
            )
        },
    decreases curve.len(),
{
    broadcast use vstd::seq_lib::group_to_multiset_ensures;

    let r = with_point(curve, point);
    if curve.len() > 0 && point.temp_c.lt(curve.last().temp_c) {
        let (rest, top) = (curve.drop_last(), curve.last());
        lemma_with_point(rest, point, units);
        assert(r.drop_last() =~= with_point(rest, point));
        assert(rest.push(top) =~= curve);
        assert(r.to_multiset() =~= curve.to_multiset().insert(point));
        if sorted(curve) && !point.temp_c.nan() {
            assert forall|i: int, j: int| 0 <= i <= j < r.len() implies (
            #[trigger] r[i]).temp_c.le((#[trigger] r[j]).temp_c) by {
                if i < r.len() - 1 {
                    lemma_members_at_most(rest, point, top.temp_c, i);
                    assert(r[i] == with_point(rest, point)[i]);
                    if j < r.len() - 1 {
                        assert(r[j] == with_point(rest, point)[j]);
                    }
                }
            }
            lemma_filter_push(with_point(rest, point), top, units);
            lemma_filter_push(rest, point, units);
            lemma_filter_push(rest, top, units);
            lemma_filter_push(curve, point, units);
        }
    } else {
        assert(r.to_multiset() =~= curve.to_multiset().insert(point));
        if sorted(curve) && !point.temp_c.nan() {
            assert forall|i: int, j: int| 0 <= i <= j < r.len() implies (
            #[trigger] r[i]).temp_c.le((#[trigger] r[j]).temp_c) by {
                if j == curve.len() && i < j {
                    assert(curve[i].temp_c.le(curve.last().temp_c));
                }
            }
        }
    }
}

proof fn lemma_members_at_most(curve: Seq<CurvePoint>, point: CurvePoint, bound: Double, i: int)
    requires
        forall|j: int| 0 <= j < curve.len() ==> (#[trigger] curve[j]).temp_c.le(bound),
        point.temp_c.le(bound),
        0 <= i < curve.len() + 1,
    ensures
        with_point(curve, point).len() == curve.len() + 1,
        with_point(curve, point)[i].temp_c.le(bound),
    decreases curve.len(),
{
    if curve.len() > 0 && point.temp_c.lt(curve.last().temp_c) {
        let rest = curve.drop_last();
        assert forall|j: int| 0 <= j < rest.len() implies (#[trigger] rest[j]).temp_c.le(bound) by {
            assert(rest[j] == curve[j]);
        }
        lemma_members_at_most(rest, point, bound, if i < curve.len() { i } else { 0 });
        if i == curve.len() {
            assert(curve[i - 1].temp_c.le(bound));
        }
    }
}

/// Putting a curve in order keeps its points.
pub proof fn law_sorting_keeps_points(curve: Seq<CurvePoint>)
    ensures
        by_temperature(curve).to_multiset() == curve.to_multiset(),
    decreases curve.len(),
{
    broadcast use vstd::seq_lib::group_to_multiset_ensures;

    if curve.len() > 0 {
        let rest = curve.drop_last();
        law_sorting_keeps_points(rest);
        lemma_with_point(by_temperature(rest), curve.last(), 0);
        assert(rest.push(curve.last()) =~= curve);
        assert(by_temperature(curve).to_multiset() =~= curve.to_multiset());
    }
}

/// Putting a curve in order sorts it, and leaves points of one temperature in the order in which
/// they came.
pub proof fn law_sorting_is_stable(curve: Seq<CurvePoint>, units: int)
    requires
        temperatures_are_numbers(curve),
    ensures
        sorted(by_temperature(curve)),
        at_temperature(by_temperature(curve), units) == at_temperature(curve, units),
    decreases curve.len(),
{
    if curve.len() > 0 {
        let rest = curve.drop_last();
        assert(temperatures_are_numbers(rest));
        law_sorting_is_stable(rest, units);
        lemma_with_point(by_temperature(rest), curve.last(), units);
        assert(rest.push(curve.last()) =~= curve);
        lemma_filter_push(by_temperature(rest), curve.last(), units);
        lemma_filter_push(rest, curve.last(), units);
    }
}

// ---- What a curve gives, for every curve and every temperature ----

/// Without points the speed is 50 percent; a single point gives its speed everywhere; what is not a
/// number gives the last point's speed.
pub proof fn law_curve_without_segments(curve: Seq<CurvePoint>, temp_c: Double)
    ensures
        curve.len() == 0 ==> curve_speed(curve, temp_c).value() == 50 as real,
        curve.len() == 1 ==> curve_speed(curve, temp_c) == Formula::Value(curve[0].speed_pct),
        curve.len() > 1 && temp_c.nan() ==> curve_speed(curve, temp_c) == Formula::Value(
            curve[curve.len() - 1].speed_pct,
        ),
{
    if curve.len() > 1 && temp_c.nan() {
        lemma_no_segment(curve, 0, temp_c);
    }
}

proof fn lemma_no_segment(curve: Seq<CurvePoint>, i: int, temp_c: Double)
    requires
        0 <= i,
        curve.len() > 0,
        forall|j: int|
            i <= j < curve.len() - 1 ==> !((#[trigger] curve[j]).temp_c.le(temp_c) && temp_c.le(
                curve[j + 1].temp_c,
            )),
    ensures
        segment_speed(curve, i, temp_c) == Formula::Value(curve[curve.len() - 1].speed_pct),
    decreases curve.len() - i,
{
    if i < curve.len() - 1 {
        assert(!(curve[i].temp_c.le(temp_c) && temp_c.le(curve[i + 1].temp_c)));
        lemma_no_segment(curve, i + 1, temp_c);
    }
}

proof fn lemma_first_segment(curve: Seq<CurvePoint>, i: int, k: int, temp_c: Double)
    requires
        0 <= i <= k < curve.len() - 1,
        curve[k].temp_c.le(temp_c),
        temp_c.le(curve[k + 1].temp_c),
        forall|j: int|
            i <= j < k ==> !((#[trigger] curve[j]).temp_c.le(temp_c) && temp_c.le(
                curve[j + 1].temp_c,
            )),
    ensures
        segment_speed(curve, i, temp_c) == line_speed(curve[k], curve[k + 1], temp_c),
    decreases k - i,
{
    if i < k {
        assert(!(curve[i].temp_c.le(temp_c) && temp_c.le(curve[i + 1].temp_c)));
        lemma_first_segment(curve, i + 1, k, temp_c);
    }
}

/// In exact arithmetic, within the range of any curve, in order or not, the first segment that
/// holds the temperature gives the speed: that of the straight line through its points, or of its
/// first point where both have the same temperature.
pub proof fn law_first_segment_gives_the_speed(curve: Seq<CurvePoint>, k: int, temp_c: Double)
    requires
        0 <= k < curve.len() - 1,
        !temp_c.le(curve[0].temp_c),
        !curve[curve.len() - 1].temp_c.le(temp_c),
        curve[k].temp_c.finite(),
        curve[k].temp_c.le(temp_c),
        temp_c.le(curve[k + 1].temp_c),
        forall|j: int|
            0 <= j < k ==> !((#[trigger] curve[j]).temp_c.le(temp_c) && temp_c.le(
                curve[j + 1].temp_c,
            )),
    ensures
        ({
            let (x0, x1) = (curve[k].temp_c.value(), curve[k + 1].temp_c.value());
            let (y0, y1) = (curve[k].speed_pct.value(), curve[k + 1].speed_pct.value());
            curve_speed(curve, temp_c).value() == if x0 == x1 {
                y0
            } else {
                y0 + (temp_c.value() - x0) / (x1 - x0) * (y1 - y0)
            }
        }),
{
    lemma_first_segment(curve, 0, k, temp_c);
    law_order_is_numeric(curve[k].temp_c, curve[k + 1].temp_c);
    if curve[k].temp_c.units() < curve[k + 1].temp_c.units() {
        lemma_line_between(curve[k], curve[k + 1], temp_c);
    }
}

/// Within the range of a curve, a temperature that no segment holds gives the last point's speed.
pub proof fn law_no_segment_gives_the_last_speed(curve: Seq<CurvePoint>, temp_c: Double)
    requires
        curve.len() > 1,
        !temp_c.le(curve[0].temp_c),
        forall|j: int|
            0 <= j < curve.len() - 1 ==> !((#[trigger] curve[j]).temp_c.le(temp_c) && temp_c.le(
                curve[j + 1].temp_c,
            )),
    ensures
        curve_speed(curve, temp_c) == Formula::Value(curve[curve.len() - 1].speed_pct),
{
    lemma_no_segment(curve, 0, temp_c);
}

/// Any curve gives its first speed up to its first point, and its last speed from its last point
/// on.
pub proof fn law_any_curve_clamps(curve: Seq<CurvePoint>, temp_c: Double)
    requires
        curve.len() > 0,
        !temp_c.nan(),
        !curve[0].temp_c.nan(),
        !curve[curve.len() - 1].temp_c.nan(),
    ensures
        temp_c.value() <= curve[0].temp_c.value() ==> curve_speed(curve, temp_c) == Formula::Value(
            curve[0].speed_pct,
        ),
        curve[0].temp_c.value() < temp_c.value() && curve[curve.len() - 1].temp_c.value()
            <= temp_c.value() ==> curve_speed(curve, temp_c) == Formula::Value(
            curve[curve.len() - 1].speed_pct,
        ),
{
    law_order_is_numeric(temp_c, curve[0].temp_c);
    law_order_is_numeric(curve[0].temp_c, temp_c);
    law_order_is_numeric(temp_c, curve[curve.len() - 1].temp_c);
    law_order_is_numeric(curve[curve.len() - 1].temp_c, temp_c);
}

/// Which operations give the speed between two points of different temperatures.
pub proof fn law_operations_on_a_line(low: CurvePoint, high: CurvePoint, temp_c: Double)
    requires
        low.temp_c.lt(high.temp_c),
    ensures
        line_speed(low, high, temp_c) == Formula::Value(low.speed_pct).plus(
            Formula::Value(temp_c).minus(Formula::Value(low.temp_c)).over(
                Formula::Value(high.temp_c).minus(Formula::Value(low.temp_c)),
            ).times(Formula::Value(high.speed_pct).minus(Formula::Value(low.speed_pct))),
        ),
{
}

} // verus!
