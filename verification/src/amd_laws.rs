//! What holds of every AMD card: how its fan is driven, what is set on it and what is reported of
//! it.
use crate::amd::{
    above_greatest, below_least, curve_fault, driver_mode_in, duty, duty_max_in, fan_denied,
    fan_in, fan_max_in, in_bounds, invalid, is_default_curve, is_greatest, is_least, override_of,
    sets_mode, shown_mode, speed_in, valid_curve, AmdState, ControlFile, ControlReadings,
    SysfsWrite,
};
use crate::amd_files::voltage_offset_of;
use crate::double::{
    law_between_is_numeric, law_comparisons_are_numeric, law_order_is_numeric,
    law_whole_is_numeric, Double, LARGEST_BITS,
};
use crate::fan_curve::{
    at_temperature, by_temperature, law_any_curve_clamps, law_curve_is_straight_between_points,
    law_curve_without_segments, law_first_segment_gives_the_speed, law_sorting_is_stable,
    law_sorting_keeps_points, temperatures_are_numbers,
};
use crate::file_laws::law_units_are_converted;
use crate::formula::{law_rounding_is_near, round_half_away, Count, Formula};
use crate::gpu_control::{ControlError, ControlInfo, CurvePoint, FanMode};
use crate::sysfs::{law_number_reads_back, number_in};
use crate::text::decimal_form;
use vstd::arithmetic::power2::{lemma_pow2_adds, lemma_pow2_pos, pow2};
use vstd::prelude::*;

verus! {

// ---- The tick ----

/// In exact arithmetic, below 95 degrees a fan in curve mode is asked for the speed of the card's
/// curve. Between two neighbouring points it lies on the straight line through them, where all
/// temperatures differ; up to the first point it is the first speed, and from the last point on
/// the last.
pub proof fn law_tick_follows_the_curve(card: AmdState, temp_c: Double, i: int)
    requires
        card.wf(),
        card.fan_mode_override == Some(FanMode::Curve),
        !temp_c.nan(),
        temp_c.value() < 95 as real,
    ensures
        ({
            let curve = card.fan_curve;
            let t = temp_c.value();
            let last = curve[curve.len() - 1];
            &&& card.tick_speed(Some(temp_c)) is Some
            &&& t <= curve[0].temp_c.value() ==> card.tick_speed(Some(temp_c))->Some_0.value()
                == curve[0].speed_pct.value()
            &&& curve[0].temp_c.value() < t && last.temp_c.value() <= t ==> card.tick_speed(
                Some(temp_c),
            )->Some_0.value() == last.speed_pct.value()
            &&& (0 <= i < curve.len() - 1 && curve[i].temp_c.value() <= t
                <= curve[i + 1].temp_c.value() && forall|a: int, b: int|
                0 <= a < b < curve.len() ==> (#[trigger] curve[a]).temp_c.value() < (
                #[trigger] curve[b]).temp_c.value()) ==> {
                let (x0, x1) = (curve[i].temp_c.value(), curve[i + 1].temp_c.value());
                let (y0, y1) = (curve[i].speed_pct.value(), curve[i + 1].speed_pct.value());
                card.tick_speed(Some(temp_c))->Some_0.value() == y0 + (t - x0) / (x1 - x0) * (y1
                    - y0)
            }
        }),
{
    let curve = card.fan_curve;
    let n = curve.len() as int;
    law_between_is_numeric(temp_c, 95, 95);
    assert(in_bounds(curve[0]));
    assert(in_bounds(curve[n - 1]));
    law_any_curve_clamps(curve, temp_c);
    if 0 <= i < n - 1 && curve[i].temp_c.value() <= temp_c.value() <= curve[i + 1].temp_c.value()
        && forall|a: int, b: int|
        0 <= a < b < curve.len() ==> (#[trigger] curve[a]).temp_c.value() < (
        #[trigger] curve[b]).temp_c.value() {
        assert forall|a: int, b: int| 0 <= a < b < curve.len() implies (
        #[trigger] curve[a]).temp_c.lt((#[trigger] curve[b]).temp_c) by {
            assert(in_bounds(curve[a]));
            assert(in_bounds(curve[b]));
            assert(curve[a].temp_c.value() < curve[b].temp_c.value());
            law_comparisons_are_numeric(curve[a].temp_c, curve[b].temp_c);
        }
        assert(in_bounds(curve[i]));
        assert(in_bounds(curve[i + 1]));
        law_comparisons_are_numeric(curve[i].temp_c, temp_c);
        law_comparisons_are_numeric(temp_c, curve[i + 1].temp_c);
        law_curve_is_straight_between_points(curve, i, temp_c);
    }
}

/// In exact arithmetic, where points share a temperature, the speed strictly inside the range of
/// the curve still lies on the straight line through the two points that the temperature has
/// passed and not passed.
pub proof fn law_tick_between_any_points(card: AmdState, temp_c: Double, i: int)
    requires
        card.wf(),
        card.fan_mode_override == Some(FanMode::Curve),
        !temp_c.nan(),
        temp_c.value() < 95 as real,
        0 <= i < card.fan_curve.len() - 1,
        card.fan_curve[i].temp_c.value() < temp_c.value(),
        temp_c.value() <= card.fan_curve[i + 1].temp_c.value(),
        temp_c.value() < card.fan_curve[card.fan_curve.len() - 1].temp_c.value(),
    ensures
        ({
            let curve = card.fan_curve;
            let (x0, x1) = (curve[i].temp_c.value(), curve[i + 1].temp_c.value());
            let (y0, y1) = (curve[i].speed_pct.value(), curve[i + 1].speed_pct.value());
            card.tick_speed(Some(temp_c)) matches Some(speed) && speed.value() == y0 + (
            temp_c.value() - x0) / (x1 - x0) * (y1 - y0)
        }),
{
    let curve = card.fan_curve;
    let n = curve.len() as int;
    law_between_is_numeric(temp_c, 95, 95);
    assert forall|j: int| 0 <= j < n implies {
        &&& !(#[trigger] curve[j]).temp_c.nan()
        &&& curve[j].temp_c.finite()
        &&& curve[j].temp_c.le(temp_c) <==> curve[j].temp_c.value() <= temp_c.value()
        &&& temp_c.le(curve[j].temp_c) <==> temp_c.value() <= curve[j].temp_c.value()
    } by {
        assert(in_bounds(curve[j]));
        law_comparisons_are_numeric(curve[j].temp_c, temp_c);
        law_comparisons_are_numeric(temp_c, curve[j].temp_c);
        lemma_bounded_is_finite(curve[j].temp_c);
    }
    assert(curve[0].temp_c.le(curve[i].temp_c));
    law_comparisons_are_numeric(curve[0].temp_c, curve[i].temp_c);
    assert(!temp_c.le(curve[0].temp_c));
    assert(!curve[n - 1].temp_c.le(temp_c));
    assert forall|j: int| 0 <= j < i implies !((#[trigger] curve[j]).temp_c.le(temp_c) && temp_c.le(
        curve[j + 1].temp_c,
    )) by {
        assert(curve[j + 1].temp_c.le(curve[i].temp_c));
        law_comparisons_are_numeric(curve[j + 1].temp_c, curve[i].temp_c);
    }
    law_first_segment_gives_the_speed(curve, i, temp_c);
}

proof fn lemma_bounded_is_finite(d: Double)
    requires
        d.between(0, 110),
    ensures
        d.finite(),
{
    if !d.finite() {
        assert(d.magnitude() == 0x7FF0_0000_0000_0000);
        assert(0x7FF0_0000_0000_0000nat / 0x10_0000_0000_0000nat == 2047);
        assert(0x7FF0_0000_0000_0000nat % 0x10_0000_0000_0000nat == 0);
        lemma_pow2_pos(2046);
        lemma_pow2_adds(1074, 972);
        lemma_pow2_pos(972);
        lemma_pow2_pos(1074);
        let (a, b) = (pow2(1074) as int, pow2(972) as int);
        assert(0x10_0000_0000_0000 * (a * b) > 110 * a) by (nonlinear_arith)
            requires
                a > 0,
                b > 0,
        ;
    }
}

/// The curve drives the fan in curve mode only, and only when the temperature is known. From 95
/// degrees on, and in exact arithmetic, the speed is 100 percent. What is not a number gives the
/// last point's speed.
pub proof fn law_when_the_curve_drives(card: AmdState, temp_c: Double)
    ensures
        card.tick_speed(None) is None,
        card.fan_mode_override != Some(FanMode::Curve) ==> card.tick_speed(Some(temp_c)) is None,
        card.fan_mode_override == Some(FanMode::Curve) ==> {
            &&& card.tick_speed(Some(temp_c)) is Some
            &&& !temp_c.nan() && temp_c.value() >= 95 as real ==> card.tick_speed(
                Some(temp_c),
            )->Some_0.value() == 100 as real
            &&& temp_c.nan() && card.fan_curve.len() > 0 ==> card.tick_speed(Some(temp_c))->Some_0
                == Formula::Value(card.fan_curve[card.fan_curve.len() - 1].speed_pct)
        },
{
    law_between_is_numeric(temp_c, 95, 95);
    law_curve_without_segments(card.fan_curve, temp_c);
}

// ---- Curves ----

/// A curve that has been set is the curve that is reported: every point of it and no other, from
/// cold to hot, and points of one temperature in the order in which they were given.
pub proof fn law_set_curve_is_reported(
    curve: Seq<CurvePoint>,
    card: AmdState,
    readings: ControlReadings,
    r: ControlInfo,
    units: int,
)
    requires
        temperatures_are_numbers(curve),
        card.fan_curve == by_temperature(curve),
        card.shows(readings, r),
    ensures
        r.fan_curve matches Some(points) && {
            &&& points@.to_multiset() == curve.to_multiset()
            &&& points@.len() == curve.len()
            &&& forall|i: int, j: int|
                0 <= i <= j < points@.len() ==> (#[trigger] points@[i]).temp_c.value() <= (
                #[trigger] points@[j]).temp_c.value()
            &&& at_temperature(points@, units) == at_temperature(curve, units)
        },
{
    law_sorting_keeps_points(curve);
    law_sorting_is_stable(curve, units);
    vstd::seq_lib::to_multiset_len(curve);
    vstd::seq_lib::to_multiset_len(by_temperature(curve));
    let points = r.fan_curve->Some_0@;
    assert forall|i: int, j: int| 0 <= i <= j < points.len() implies (
    #[trigger] points[i]).temp_c.value() <= (#[trigger] points[j]).temp_c.value() by {
        assert(points[i].temp_c.le(points[j].temp_c));
        law_order_is_numeric(points[i].temp_c, points[j].temp_c);
    }
}

/// A point is taken exactly if its temperature is a number from 0 to 110 and its speed a number
/// from 0 to 100.
pub proof fn law_points_within_bounds(point: CurvePoint)
    ensures
        in_bounds(point) <==> {
            &&& !point.temp_c.nan()
            &&& 0 as real <= point.temp_c.value() <= 110 as real
            &&& !point.speed_pct.nan()
            &&& 0 as real <= point.speed_pct.value() <= 100 as real
        },
{
    law_between_is_numeric(point.temp_c, 0, 110);
    law_between_is_numeric(point.speed_pct, 0, 100);
}

/// What a card holds as its curve has a point, runs from cold to hot, and stays within bounds.
pub proof fn law_held_curves(curve: Seq<CurvePoint>, i: int, j: int)
    requires
        valid_curve(curve),
        0 <= i <= j < curve.len(),
    ensures
        curve[i].temp_c.value() <= curve[j].temp_c.value(),
        0 as real <= curve[i].temp_c.value() <= 110 as real,
        0 as real <= curve[i].speed_pct.value() <= 100 as real,
{
    assert(curve[i].temp_c.le(curve[j].temp_c));
    law_order_is_numeric(curve[i].temp_c, curve[j].temp_c);
    assert(in_bounds(curve[i]));
    law_points_within_bounds(curve[i]);
}

proof fn lemma_fault(curve: Seq<CurvePoint>, i: int, k: int)
    requires
        0 <= i <= k < curve.len(),
        forall|j: int| i <= j < k ==> in_bounds(#[trigger] curve[j]),
        !in_bounds(curve[k]),
    ensures
        curve_fault(curve, i) == Some(
            if curve[k].temp_c.between(0, 110) {
                "fan speed must be 0-100%"@
            } else {
                "temperature must be 0-110°C"@
            },
        ),
    decreases k - i,
{
    if i < k {
        assert(in_bounds(curve[i]));
        lemma_fault(curve, i + 1, k);
    }
}

/// The complaint about a curve is about its first bad point: about its temperature if that is not
/// a number from 0 to 110, and else about its speed.
pub proof fn law_first_bad_point(curve: Seq<CurvePoint>, k: int)
    requires
        0 <= k < curve.len(),
        forall|j: int| 0 <= j < k ==> in_bounds(#[trigger] curve[j]),
        !in_bounds(curve[k]),
    ensures
        ({
            let t = curve[k].temp_c;
            let good = !t.nan() && 0 as real <= t.value() <= 110 as real;
            &&& good ==> curve_fault(curve, 0) == Some("fan speed must be 0-100%"@)
            &&& !good ==> curve_fault(curve, 0) == Some("temperature must be 0-110°C"@)
        }),
{
    lemma_fault(curve, 0, k);
    law_between_is_numeric(curve[k].temp_c, 0, 110);
}

/// A card starts with 25 percent at 30 degrees, 35 at 50, 70 at 70 and 100 at 85.
pub proof fn law_default_curve(curve: Seq<CurvePoint>)
    requires
        is_default_curve(curve),
    ensures
        curve.len() == 4,
        curve[0].temp_c.value() == 30 as real && curve[0].speed_pct.value() == 25 as real,
        curve[1].temp_c.value() == 50 as real && curve[1].speed_pct.value() == 35 as real,
        curve[2].temp_c.value() == 70 as real && curve[2].speed_pct.value() == 70 as real,
        curve[3].temp_c.value() == 85 as real && curve[3].speed_pct.value() == 100 as real,
{
    law_whole_is_numeric(curve[0].temp_c, 30);
    law_whole_is_numeric(curve[0].speed_pct, 25);
    law_whole_is_numeric(curve[1].temp_c, 50);
    law_whole_is_numeric(curve[1].speed_pct, 35);
    law_whole_is_numeric(curve[2].temp_c, 70);
    law_whole_is_numeric(curve[2].speed_pct, 70);
    law_whole_is_numeric(curve[3].temp_c, 85);
    law_whole_is_numeric(curve[3].speed_pct, 100);
}

// ---- Power ----

/// A power cap is refused exactly if it is a number beyond a limit: below the least cap, which is
/// zero where none is given, or above the greatest, which is the largest number where none is
/// given. A limit that is not a number refuses nothing.
pub proof fn law_power_caps_keep_within_limits(
    cap: Double,
    min_watts: Option<Double>,
    max_watts: Option<Double>,
)
    ensures
        cap.nan() ==> !below_least(cap, min_watts) && !above_greatest(cap, max_watts),
        !cap.nan() ==> (below_least(cap, min_watts) <==> match min_watts {
            Some(w) => !w.nan() && cap.value() < w.value(),
            None => cap.value() < 0 as real,
        }),
        !cap.nan() ==> (above_greatest(cap, max_watts) <==> match max_watts {
            Some(w) => !w.nan() && cap.value() > w.value(),
            None => cap.value() > (Double { bits: LARGEST_BITS }).value(),
        }),
{
    law_between_is_numeric(cap, 0, 0);
    if !cap.nan() {
        if let Some(w) = min_watts {
            if !w.nan() {
                law_comparisons_are_numeric(cap, w);
            }
        }
        if let Some(w) = max_watts {
            if !w.nan() {
                law_comparisons_are_numeric(w, cap);
            }
        }
        law_comparisons_are_numeric(Double { bits: LARGEST_BITS }, cap);
    }
}

/// A refusal names the limits that held: those that the card gave, and else zero and the largest
/// number.
pub proof fn law_refused_caps_name_their_limits(
    least: Double,
    greatest: Double,
    min_watts: Option<Double>,
    max_watts: Option<Double>,
)
    requires
        is_least(least, min_watts),
        is_greatest(greatest, max_watts),
    ensures
        match min_watts {
            Some(w) => least == w,
            None => least.value() == 0 as real,
        },
        match max_watts {
            Some(w) => greatest == w,
            None => greatest.bits == LARGEST_BITS,
        },
{
    if min_watts is None {
        law_whole_is_numeric(least, 0);
    }
}

// ---- Fans ----

/// The greatest duty cycle is what its file holds, or 255; the fan's greatest speed is the low 32
/// bits of what its file holds, or 3000.
pub proof fn law_greatest_speeds(content: Option<String>)
    ensures
        match number_in(content) {
            Some(n) => duty_max_in(content) == n && fan_max_in(content) == n % 4294967296,
            None => duty_max_in(content) == 255 && fan_max_in(content) == 3000,
        },
{
}

proof fn lemma_duty(speed_pct: Formula, max: u64) -> (n: int)
    ensures
        n == round_half_away(speed_pct.value() / 100 as real * max as real),
        duty(speed_pct, max).value() == n as real,
{
    reveal_with_fuel(Formula::value, 4);
    round_half_away(speed_pct.value() / 100 as real * max as real)
}

/// In exact arithmetic, the duty cycle for a speed is an integer, no further than a half from that
/// part of the greatest one.
pub proof fn law_duty_is_the_nearest_integer(speed_pct: Formula, max: u64) -> (n: int)
    ensures
        duty(speed_pct, max).value() == n as real,
        ({
            let part = speed_pct.value() * max as real / 100 as real;
            part - 1 as real / 2 as real <= n as real <= part + 1 as real / 2 as real
        }),
{
    let n = lemma_duty(speed_pct, max);
    let (s, m) = (speed_pct.value(), max as real);
    law_rounding_is_near(s / 100 as real * m);
    assert(s / 100 as real * m == s * m / 100 as real) by (nonlinear_arith);
    n
}

/// In exact arithmetic, a fan is reported at the low 32 bits of the revolutions that its file holds,
/// and at their part of its greatest speed in percent, to one decimal place. A greatest speed of
/// zero makes it zero percent.
pub proof fn law_fan_is_reported(input: Option<String>, max: Option<String>)
    ensures
        fan_in(input, max) is Some <==> number_in(input) is Some,
        fan_in(input, max) matches Some(fan) ==> {
            let rpm = number_in(input)->Some_0 % 4294967296;
            &&& fan.speed_rpm == Count::Exact(rpm)
            &&& fan.max_rpm == fan_max_in(max)
            &&& fan.max_rpm == 0 ==> fan.speed_pct.value() == 0 as real
            &&& fan.max_rpm > 0 ==> {
                let part = rpm as real * 100 as real / fan.max_rpm as real;
                part - 1 as real / 20 as real <= fan.speed_pct.value() <= part + 1 as real
                    / 20 as real
            }
        },
{
    reveal_with_fuel(Formula::value, 6);
    if let Some(fan) = fan_in(input, max) {
        let (rpm, m) = (
            (number_in(input)->Some_0 % 4294967296) as real,
            fan.max_rpm as real,
        );
        if fan.max_rpm > 0 {
            lemma_tenths_of_part(rpm, m);
            let tens = rpm / m * 100 as real * 10 as real;
            assert(fan.speed_pct.value() == round_half_away(tens) as real / 10 as real);
        } else {
            assert(0 as real * 10 as real == 0 as real) by (nonlinear_arith);
            assert(round_half_away(0 as real) == 0);
            assert(0 as real / 10 as real == 0 as real) by (nonlinear_arith);
        }
    }
}

proof fn lemma_tenths_of_part(n: real, m: real)
    requires
        m > 0 as real,
    ensures
        ({
            let part = n * 100 as real / m;
            let shown = round_half_away(n / m * 100 as real * 10 as real) as real / 10 as real;
            part - 1 as real / 20 as real <= shown <= part + 1 as real / 20 as real
        }),
{
    let tens = n / m * 100 as real * 10 as real;
    let part = n * 100 as real / m;
    law_rounding_is_near(tens);
    let rounded = round_half_away(tens) as real;
    assert(tens == part * 10 as real) by (nonlinear_arith)
        requires
            m > 0 as real,
            tens == n / m * 100 as real * 10 as real,
            part == n * 100 as real / m,
    ;
    assert(part - 1 as real / 20 as real <= rounded / 10 as real <= part + 1 as real / 20 as real)
        by (nonlinear_arith)
        requires
            tens == part * 10 as real,
            tens - 1 as real / 2 as real <= rounded <= tens + 1 as real / 2 as real,
    ;
}

/// In exact arithmetic, a duty cycle is reported as its part of the greatest one in percent, to one
/// decimal place; there is no report where it cannot be read.
pub proof fn law_duty_is_reported(pwm1: Option<String>, pwm1_max: Option<String>)
    ensures
        speed_in(pwm1, pwm1_max) is Some <==> number_in(pwm1) is Some,
        number_in(pwm1) is Some && duty_max_in(pwm1_max) > 0 ==> {
            let part = number_in(pwm1)->Some_0 as real * 100 as real / duty_max_in(
                pwm1_max,
            ) as real;
            part - 1 as real / 20 as real <= speed_in(pwm1, pwm1_max)->Some_0.value() <= part
                + 1 as real / 20 as real
        },
{
    reveal_with_fuel(Formula::value, 6);
    if number_in(pwm1) is Some && duty_max_in(pwm1_max) > 0 {
        let (n, m) = (number_in(pwm1)->Some_0 as real, duty_max_in(pwm1_max) as real);
        lemma_tenths_of_part(n, m);
        let tens = n / m * 100 as real * 10 as real;
        assert(speed_in(pwm1, pwm1_max)->Some_0.value() == round_half_away(tens) as real
            / 10 as real);
    }
}

// ---- What is reported ----

/// The driver is in manual mode where its file holds 1, in a mode of its own where it holds another
/// number, and in no known mode else; a mode that the program set itself goes before that.
pub proof fn law_reported_mode(own_mode: FanMode, pwm1_enable: Option<String>)
    ensures
        driver_mode_in(pwm1_enable) == match number_in(pwm1_enable) {
            Some(n) => Some(
                if n == 1 {
                    FanMode::Manual
                } else {
                    FanMode::Auto
                },
            ),
            None => None,
        },
        shown_mode(Some(own_mode), pwm1_enable) == Some(own_mode),
        shown_mode(None, pwm1_enable) == driver_mode_in(pwm1_enable),
{
}

/// A report gives what may be set, the mode, the speed where the driver is in manual mode, the
/// curve, the cap with its limits, in watts, and the voltage offset, each as the files behind it
/// hold it; what cannot be read is absent.
pub proof fn law_report_of_the_settings(card: AmdState, readings: ControlReadings, r: ControlInfo)
    requires
        card.shows(readings, r),
    ensures
        r.fan_control_available == card.fan_control_writable,
        r.power_cap_available == card.power_cap_writable,
        r.voltage_offset_available == card.voltage_offset_writable,
        r.fan_curve matches Some(points) && points@ == card.fan_curve,
        card.fan_mode_override is Some ==> r.fan_mode == card.fan_mode_override,
        card.fan_mode_override is None ==> r.fan_mode == driver_mode_in(readings.pwm1_enable),
        number_in(readings.pwm1_enable) == Some(1u64) ==> r.fan_manual_speed_pct == speed_in(
            readings.pwm1,
            readings.pwm1_max,
        ),
        number_in(readings.pwm1_enable) != Some(1u64) ==> r.fan_manual_speed_pct is None,
        r.voltage_offset_mv == voltage_offset_of(readings.pp_od_clk_voltage),
        in_watts(readings.power1_cap, r.power_cap_watts),
        in_watts(readings.power1_cap_min, r.power_cap_min_watts),
        in_watts(readings.power1_cap_max, r.power_cap_max_watts),
        in_watts(readings.power1_cap_default, r.power_cap_default_watts),
{
    law_units_are_converted(readings.power1_cap);
    law_units_are_converted(readings.power1_cap_min);
    law_units_are_converted(readings.power1_cap_max);
    law_units_are_converted(readings.power1_cap_default);
}

/// Whether the watts are those of the microwatts, in exact arithmetic.
pub open spec fn in_watts(microwatts: Option<Double>, shown: Option<Formula>) -> bool {
    match microwatts {
        Some(d) => shown matches Some(w) && w.value() * 1_000_000 as real == d.value(),
        None => shown is None,
    }
}

/// The reading of a sensor lies in the file that is named by its number.
pub proof fn law_files_of_sensors(card: AmdState, label: Seq<char>)
    ensures
        card.temp_labels.dom().contains(label) ==> card.input_of(label) == Some(
            "temp"@ + decimal_form(card.temp_labels[label] as int) + "_input"@,
        ),
        !card.temp_labels.dom().contains(label) ==> card.input_of(label) is None,
{
}

// ---- Writes ----

/// A failed write is reported as a failure of the driver, with what it was for and the reason.
pub proof fn law_failed_writes(write: SysfsWrite, reason: Seq<char>, e: ControlError)
    ensures
        write.fails_with(reason, e) <==> e is BackendError && e.detail() == "failed to "@
            + write.purpose@ + ": "@ + reason,
{
}

/// A duty cycle or a power cap that has been written reads back as the number that was written.
pub proof fn law_written_numbers_read_back(content: String, n: u64)
    requires
        content@ == decimal_form(n as int),
    ensures
        number_in(Some(content)) == Some(n),
{
    law_number_reads_back(content, n, Seq::empty());
}

/// A refusal is of its kind and has its sentence: a value that is not taken, or a fan that may not be
/// written.
pub proof fn law_sentences_of_refusals(e: ControlError, detail: Seq<char>)
    ensures
        invalid(e, detail) <==> e is InvalidValue && e.detail() == detail,
        fan_denied(e) <==> e is PermissionDenied && e.detail()
            == "fan control not writable (need root?)"@,
{
}

/// A write is to its file, with its text, for its purpose.
pub proof fn law_writes_say_what_they_write(
    write: SysfsWrite,
    file: ControlFile,
    text: Seq<char>,
    purpose: Seq<char>,
)
    ensures
        write.says(file, text, purpose) <==> write.file == file && write.text@ == text
            && write.purpose@ == purpose,
{
}

/// The mode is written to the driver's file for it: 2 for its own control, and 1 for the program's.
/// The program remembers a mode of its own.
pub proof fn law_modes_are_written(write: SysfsWrite, mode: FanMode)
    ensures
        sets_mode(write, mode) ==> write.file == ControlFile::Pwm1Enable && write.text@ == if mode
            == FanMode::Auto {
            "2"@
        } else {
            "1"@
        },
        override_of(mode) == if mode == FanMode::Auto {
            None
        } else {
            Some(mode)
        },
{
}

/// Which operations give the duty cycle for a speed and the speed for a duty cycle.
pub proof fn law_operations_on_speeds(
    speed_pct: Formula,
    max: u64,
    pwm1: Option<String>,
    pwm1_max: Option<String>,
)
    ensures
        duty(speed_pct, max) == speed_pct.over(Formula::Int(100)).times(Formula::Int(max)).rounded(),
        number_in(pwm1) matches Some(n) ==> speed_in(pwm1, pwm1_max) == Some(
            Formula::Int(n).over(Formula::Int(duty_max_in(pwm1_max))).times(
                Formula::Int(100),
            ).times(Formula::Int(10)).rounded().over(Formula::Int(10)),
        ),
{
}

} // verus!
