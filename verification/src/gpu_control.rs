//! What can be set on a graphics card, and what the settings mean.
use crate::double::Double;
use crate::formula::Formula;
use crate::text::joined;
use vstd::prelude::*;

verus! {

#[derive(Clone, Copy, Debug, PartialEq, Eq, Structural)]
pub enum FanMode {
    Auto,
    Manual,
    Curve,
}

/// A single point on a fan curve: temperature in degrees Celsius, fan speed in percent.
#[derive(Clone, Copy, Debug, PartialEq, Eq, Structural)]
pub struct CurvePoint {
    pub temp_c: Double,
    pub speed_pct: Double,
}

/// Whether the temperatures are numbers that do not fall along the curve.
pub open spec fn sorted(curve: Seq<CurvePoint>) -> bool {
    forall|i: int, j: int|
        0 <= i <= j < curve.len() ==> (#[trigger] curve[i]).temp_c.le((#[trigger] curve[j]).temp_c)
}

/// Whether the temperature lies between point `i` and its successor.
pub open spec fn in_segment(curve: Seq<CurvePoint>, i: int, temp_c: Double) -> bool {
    curve[i].temp_c.le(temp_c) && temp_c.le(curve[i + 1].temp_c)
}

/// The speed on the straight line through two points. Where both have the same temperature
/// there is no line, and the first point's speed holds.
pub open spec fn line_speed(low: CurvePoint, high: CurvePoint, temp_c: Double) -> Formula {
    if low.temp_c.finite() && low.temp_c.units() == high.temp_c.units() {
        Formula::Value(low.speed_pct)
    } else {
        let start = Formula::Value(low.speed_pct);
        let range = Formula::Value(high.temp_c).minus(Formula::Value(low.temp_c));
        let t = Formula::Value(temp_c).minus(Formula::Value(low.temp_c)).over(range);
        start.plus(t.times(Formula::Value(high.speed_pct).minus(Formula::Value(low.speed_pct))))
    }
}

/// The speed on the first segment from point `i` on that holds the temperature; the last
/// point's speed if there is none.
pub open spec fn segment_speed(curve: Seq<CurvePoint>, i: int, temp_c: Double) -> Formula
    decreases curve.len() - i,
{
    if i >= curve.len() - 1 {
        Formula::Value(curve.last().speed_pct)
    } else if in_segment(curve, i, temp_c) {
        line_speed(curve[i], curve[i + 1], temp_c)
    } else {
        segment_speed(curve, i + 1, temp_c)
    }
}

/// The speed that a fan curve gives for a temperature.
pub open spec fn curve_speed(curve: Seq<CurvePoint>, temp_c: Double) -> Formula {
    if curve.len() == 0 {
        Formula::Int(50)
    } else if curve.len() == 1 || temp_c.le(curve[0].temp_c) {
        Formula::Value(curve[0].speed_pct)
    } else if curve.last().temp_c.le(temp_c) {
        Formula::Value(curve.last().speed_pct)
    } else {
        segment_speed(curve, 0, temp_c)
    }
}

/// Evaluates a fan curve for a given temperature using linear interpolation. Points must be
/// sorted by temperature. Clamps to the first and last point outside their range.
pub fn evaluate_fan_curve(curve: &[CurvePoint], temp_c: Double) -> (r: Formula)
    ensures
        r == curve_speed(curve@, temp_c),
{
    if curve.len() == 0 {
        return Formula::Int(50);
    }
    if curve.len() == 1 || temp_c.at_most(curve[0].temp_c) {
        return Formula::Value(curve[0].speed_pct);
    }
    let last: usize = curve.len() - 1;
    if curve[last].temp_c.at_most(temp_c) {
        return Formula::Value(curve[last].speed_pct);
    }
    let mut i: usize = 0;
    while i < last
        invariant
            i <= last,
            last + 1 == curve.len(),
            curve_speed(curve@, temp_c) == segment_speed(curve@, i as int, temp_c),
        decreases last - i,
    {
        let low: CurvePoint = curve[i];
        let high: CurvePoint = curve[i + 1];
        if low.temp_c.at_most(temp_c) && temp_c.at_most(high.temp_c) {
            if low.temp_c.is_finite() && high.temp_c.at_most(low.temp_c) {
                return Formula::Value(low.speed_pct);
            }
            let range: Formula = Formula::Value(high.temp_c).minus(Formula::Value(low.temp_c));
            let t: Formula = Formula::Value(temp_c).minus(Formula::Value(low.temp_c)).over(range);
            let rise: Formula = Formula::Value(high.speed_pct).minus(Formula::Value(low.speed_pct));
            return Formula::Value(low.speed_pct).plus(t.times(rise));
        }
        i = i + 1;
    }
    Formula::Value(curve[last].speed_pct)
}

/// The state of the settings, as it is reported. Numbers that were read in other units are
/// given by the conversion.
#[derive(Clone, Debug)]
pub struct ControlInfo {
    pub fan_control_available: bool,
    pub fan_mode: Option<FanMode>,
    pub fan_manual_speed_pct: Option<Formula>,
    pub fan_curve: Option<Vec<CurvePoint>>,
    pub power_cap_available: bool,
    pub power_cap_watts: Option<Formula>,
    pub power_cap_min_watts: Option<Formula>,
    pub power_cap_max_watts: Option<Formula>,
    pub power_cap_default_watts: Option<Formula>,
    pub voltage_offset_available: bool,
    pub voltage_offset_mv: Option<i32>,
}

/// Why a request was not carried out, with a sentence for the reader.
#[derive(Debug)]
pub enum ControlError {
    Unsupported(String),
    PermissionDenied(String),
    InvalidValue(String),
    BackendError(String),
}

impl ControlError {
    /// The sentence that the error carries.
    pub open spec fn detail(self) -> Seq<char> {
        match self {
            ControlError::Unsupported(text) => text@,
            ControlError::PermissionDenied(text) => text@,
            ControlError::InvalidValue(text) => text@,
            ControlError::BackendError(text) => text@,
        }
    }

    /// What the error is announced with.
    pub open spec fn heading(self) -> Seq<char> {
        match self {
            ControlError::Unsupported(_) => "unsupported: "@,
            ControlError::PermissionDenied(_) => "permission denied: "@,
            ControlError::InvalidValue(_) => "invalid value: "@,
            ControlError::BackendError(_) => "backend error: "@,
        }
    }

    /// The error as one line of text: its kind and its sentence.
    pub fn to_string(&self) -> (r: String)
        ensures
            r@ == self.heading() + self.detail(),
            match *self {
                ControlError::Unsupported(text) => r@ == "unsupported: "@ + text@,
                ControlError::PermissionDenied(text) => r@ == "permission denied: "@ + text@,
                ControlError::InvalidValue(text) => r@ == "invalid value: "@ + text@,
                ControlError::BackendError(text) => r@ == "backend error: "@ + text@,
            },
    {
        match self {
            ControlError::Unsupported(text) => joined("unsupported: ", text.as_str()),
            ControlError::PermissionDenied(text) => joined("permission denied: ", text.as_str()),
            ControlError::InvalidValue(text) => joined("invalid value: ", text.as_str()),
            ControlError::BackendError(text) => joined("backend error: ", text.as_str()),
        }
    }
}

/// The sentence of an error is the one that it was made with.
pub proof fn law_errors_keep_their_sentence(text: String)
    ensures
        ControlError::Unsupported(text).detail() == text@,
        ControlError::PermissionDenied(text).detail() == text@,
        ControlError::InvalidValue(text).detail() == text@,
        ControlError::BackendError(text).detail() == text@,
{
}

} // verus!
