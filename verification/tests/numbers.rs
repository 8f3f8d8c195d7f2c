use gpupeek::double::Double;
use gpupeek::fan_curve::sort_by_temperature;
use gpupeek::formula::{exactly, exactly_clock, plainly, scaled_by, Count, Formula};
use gpupeek::gpu_control::{evaluate_fan_curve, CurvePoint};

fn double(x: f64) -> Double {
    Double { bits: x.to_bits() }
}

fn point(temp_c: f64, speed_pct: f64) -> CurvePoint {
    CurvePoint { temp_c: double(temp_c), speed_pct: double(speed_pct) }
}

fn eval(formula: &Formula) -> f64 {
    match formula {
        Formula::Value(d) => f64::from_bits(d.bits),
        Formula::Int(n) => *n as f64,
        Formula::Neg(a) => -eval(a),
        Formula::Add(a, b) => eval(a) + eval(b),
        Formula::Sub(a, b) => eval(a) - eval(b),
        Formula::Mul(a, b) => eval(a) * eval(b),
        Formula::Div(a, b) => eval(a) / eval(b),
        Formula::Round(a) => eval(a).round(),
        Formula::Clamp(a, low, high) => eval(a).clamp(eval(low), eval(high)),
    }
}

/// Interpolation as it is done in plain arithmetic.
fn plain_interpolation(curve: &[(f64, f64)], temp: f64) -> f64 {
    if curve.is_empty() {
        return 50.0;
    }
    let last = curve.len() - 1;
    if curve.len() == 1 || temp <= curve[0].0 {
        return curve[0].1;
    }
    if temp >= curve[last].0 {
        return curve[last].1;
    }
    for i in 0..last {
        let (a, b) = (curve[i], curve[i + 1]);
        if temp >= a.0 && temp <= b.0 {
            let range = b.0 - a.0;
            if range == 0.0 {
                return a.1;
            }
            return a.1 + (temp - a.0) / range * (b.1 - a.1);
        }
    }
    curve[last].1
}

fn speed(curve: &[(f64, f64)], temp: f64) -> f64 {
    let points: Vec<CurvePoint> = curve.iter().map(|p| point(p.0, p.1)).collect();
    eval(&evaluate_fan_curve(&points, double(temp)))
}

const SAMPLES: [f64; 21] = [
    0.0,
    -0.0,
    1.0,
    -1.0,
    0.1,
    -0.1,
    2.5,
    94.99999999999999,
    95.0,
    100.0,
    100.00000000000001,
    110.0,
    255.0,
    -255.0,
    f64::MIN_POSITIVE,
    5e-324,
    -5e-324,
    f64::MAX,
    f64::INFINITY,
    f64::NEG_INFINITY,
    f64::NAN,
];

#[test]
fn whole_numbers_are_exact() {
    for n in [0u32, 1, 2, 3, 25, 50, 95, 100, 110, 255, 3000, 65535, 65536, u32::MAX] {
        assert_eq!(f64::from_bits(Double::whole(n).bits), n as f64);
    }
}

#[test]
fn order_is_that_of_the_machine() {
    for a in SAMPLES {
        for b in SAMPLES {
            assert_eq!(double(a).at_most(double(b)), a <= b, "{} {}", a, b);
            assert_eq!(double(a).less(double(b)), a < b, "{} {}", a, b);
        }
        assert_eq!(double(a).is_nan(), a.is_nan());
        assert_eq!(double(a).is_finite(), a.is_finite());
        assert_eq!(double(a).in_range(0, 100), (0.0..=100.0).contains(&a));
        assert_eq!(double(a).in_range(1, 110), (1.0..=110.0).contains(&a));
    }
}

#[test]
fn not_a_number_lies_in_no_range() {
    assert!(!double(f64::NAN).in_range(0, 110));
    assert!(!double(-f64::NAN).in_range(0, 110));
    assert!(double(-0.0).in_range(0, 110));
    assert!(!double(110.00000000000001).in_range(0, 110));
}

#[test]
fn formulas_are_built_as_they_read() {
    let f = Formula::Int(7).plus(Formula::Int(1)).times(Formula::Int(3)).minus(Formula::Int(4));
    assert_eq!(eval(&f.over(Formula::Int(8))), 2.5);
    assert_eq!(eval(&Formula::ratio(5, 100)), 0.05);
    assert_eq!(eval(&Formula::ratio(3, 10)), 0.3);
    assert_eq!(eval(&Formula::ratio(8, 100)), 0.08);
    assert_eq!(eval(&Formula::ratio(2, 100).negated()), -0.02);
    assert_eq!(eval(&Formula::Int(5).over(Formula::Int(2)).rounded()), 3.0);
    assert_eq!(eval(&Formula::Value(double(33.349)).to_tenths()), 33.3);
    assert_eq!(eval(&Formula::Int(9).clamped_to(Formula::Int(2), Formula::Int(5))), 5.0);
    assert_eq!(eval(&Formula::Int(1).clamped_to(Formula::Int(2), Formula::Int(5))), 2.0);
    assert_eq!(eval(&Formula::Int(3).clamped_to(Formula::Int(2), Formula::Int(5))), 3.0);
}

#[test]
fn optional_numbers() {
    assert!(plainly(None).is_none());
    assert_eq!(eval(&plainly(Some(double(4.5))).unwrap()), 4.5);
    assert!(scaled_by(None, 1000).is_none());
    assert_eq!(eval(&scaled_by(Some(double(61500.0)), 1000).unwrap()), 61.5);
    assert!(exactly(None).is_none());
    assert!(matches!(exactly(Some(9)), Some(Count::Exact(9))));
    assert!(exactly_clock(None).is_none());
    assert!(matches!(exactly_clock(Some(2500)), Some(Count::Exact(2500))));
}

#[test]
fn curve_is_interpolated() {
    let curve = [(30.0, 25.0), (50.0, 35.0), (70.0, 70.0), (85.0, 100.0)];
    assert_eq!(speed(&curve, 40.0), 30.0);
    assert_eq!(speed(&curve, 60.0), 52.5);
    assert_eq!(speed(&curve, 50.0), 35.0);
    assert_eq!(speed(&curve, 77.5), 85.0);
    let mut t = 20.0;
    while t < 100.0 {
        assert_eq!(speed(&curve, t), plain_interpolation(&curve, t));
        t += 0.7;
    }
}

#[test]
fn curve_clamps_at_its_ends() {
    let curve = [(30.0, 25.0), (85.0, 100.0)];
    assert_eq!(speed(&curve, -10.0), 25.0);
    assert_eq!(speed(&curve, 30.0), 25.0);
    assert_eq!(speed(&curve, 85.0), 100.0);
    assert_eq!(speed(&curve, 140.0), 100.0);
    assert_eq!(speed(&curve, f64::INFINITY), 100.0);
    assert_eq!(speed(&curve, f64::NAN), 100.0);
}

#[test]
fn short_curves() {
    assert_eq!(speed(&[], 60.0), 50.0);
    assert_eq!(speed(&[(40.0, 33.0)], 10.0), 33.0);
    assert_eq!(speed(&[(40.0, 33.0)], 90.0), 33.0);
}

#[test]
fn equal_temperatures_take_the_first_speed() {
    let curve = [(30.0, 10.0), (50.0, 20.0), (50.0, 80.0), (70.0, 90.0)];
    assert_eq!(speed(&curve, 50.0), 20.0);
    assert_eq!(speed(&curve, 60.0), 85.0);
    let flat = [(50.0, 20.0), (50.0, 80.0)];
    assert_eq!(speed(&flat, 50.0), 20.0);
}

#[test]
fn curves_out_of_order_follow_the_first_fitting_segment() {
    let curve = [(50.0, 10.0), (50.0, 30.0), (20.0, 40.0), (90.0, 60.0)];
    for t in [49.0, 50.0, 51.0, 60.0, 89.0, 91.0] {
        assert_eq!(speed(&curve, t), plain_interpolation(&curve, t));
    }
}

#[test]
fn a_curve_is_straight_between_its_points() {
    let curve = [(0.0, 10.0), (32.0, 42.0), (64.0, 26.0)];
    for step in 0..=32 {
        let part = step as f64 / 32.0;
        assert_eq!(speed(&curve, 32.0 * part), 10.0 + part * 32.0);
        assert_eq!(speed(&curve, 32.0 + 32.0 * part), 42.0 - part * 16.0);
    }
}

#[test]
fn a_rising_curve_never_slows() {
    let curve = [(10.0, 5.0), (40.0, 5.0), (41.0, 60.0), (90.0, 61.0)];
    let mut last = 0.0;
    let mut t = 0.0;
    while t < 100.0 {
        let now = speed(&curve, t);
        assert!(last <= now && (5.0..=61.0).contains(&now));
        last = now;
        t += 0.5;
    }
}

#[test]
fn sorting_is_stable() {
    let points = [point(70.0, 1.0), point(30.0, 2.0), point(70.0, 3.0), point(30.0, 4.0)];
    let sorted = sort_by_temperature(&points);
    let order: Vec<f64> = sorted.iter().map(|p| f64::from_bits(p.speed_pct.bits)).collect();
    assert_eq!(order, vec![2.0, 4.0, 1.0, 3.0]);
    assert!(sort_by_temperature(&[]).is_empty());
}
