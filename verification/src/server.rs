//! What the server decides: which card to use, what to set on it at the start, what to tell its
//! clients.
use crate::amd::AmdState;
use crate::config::{FanConfig, GpuConfig};
use crate::double::{law_whole_is_numeric, Double};
use crate::formula::Formula;
use crate::gpu_control::{ControlError, CurvePoint, FanMode};
use crate::gpu_data::GpuVendor;
use crate::text::same_text;
use vstd::prelude::*;

verus! {

// ---- Starting ----

pub open spec fn is_daemon_flag(arg: Seq<char>) -> bool {
    arg == "--daemon"@ || arg == "-d"@
}

/// Whether the program is to stay in the background and open no browser.
pub fn wants_daemon(args: &Vec<String>) -> (r: bool)
    ensures
        r == exists|i: int| 0 <= i < args.len() && is_daemon_flag((#[trigger] args[i])@),
        r == exists|i: int|
            0 <= i < args.len() && ((#[trigger] args[i])@ == "--daemon"@ || args[i]@ == "-d"@),
{
    let mut i: usize = 0;
    while i < args.len()
        invariant
            i <= args.len(),
            forall|j: int| 0 <= j < i ==> !is_daemon_flag((#[trigger] args[j])@),
        decreases args.len() - i,
    {
        if same_text(args[i].as_str(), "--daemon") || same_text(args[i].as_str(), "-d") {
            assert(is_daemon_flag(args[i as int]@));
            return true;
        }
        i = i + 1;
    }
    false
}

/// The kind of card to try after the one that was not there: NVIDIA first, then AMD, then
/// Intel, and in the end the made-up card.
pub open spec fn candidate_after(missing: Option<GpuVendor>) -> GpuVendor {
    match missing {
        None => GpuVendor::Nvidia,
        Some(GpuVendor::Nvidia) => GpuVendor::Amd,
        Some(GpuVendor::Amd) => GpuVendor::Intel,
        _ => GpuVendor::Mock,
    }
}

/// The kind of card to try after the one that was not there; nothing was tried yet at the
/// start.
pub fn next_candidate(missing: Option<GpuVendor>) -> (r: GpuVendor)
    ensures
        r == candidate_after(missing),
{
    match missing {
        None => GpuVendor::Nvidia,
        Some(GpuVendor::Nvidia) => GpuVendor::Amd,
        Some(GpuVendor::Amd) => GpuVendor::Intel,
        _ => GpuVendor::Mock,
    }
}

/// The kind of card that the search settles on when it tries one kind after the other until one
/// is there. The made-up card always is.
pub open spec fn settles_on(
    missing: Option<GpuVendor>,
    there: spec_fn(GpuVendor) -> bool,
    tries: nat,
) -> GpuVendor
    decreases tries,
{
    let candidate = candidate_after(missing);
    if tries == 0 || candidate == GpuVendor::Mock || there(candidate) {
        candidate
    } else {
        settles_on(Some(candidate), there, (tries - 1) as nat)
    }
}

/// The search prefers NVIDIA to AMD and AMD to Intel, and falls back to the made-up card if
/// none of them is there.
pub proof fn law_detection_order(there: spec_fn(GpuVendor) -> bool, tries: nat)
    requires
        tries >= 3,
    ensures
        settles_on(None, there, tries) == if there(GpuVendor::Nvidia) {
            GpuVendor::Nvidia
        } else if there(GpuVendor::Amd) {
            GpuVendor::Amd
        } else if there(GpuVendor::Intel) {
            GpuVendor::Intel
        } else {
            GpuVendor::Mock
        },
{
    reveal_with_fuel(settles_on, 4);
}

/// What the program prints when it has settled on a kind of card.
pub open spec fn detection_line(vendor: GpuVendor) -> Seq<char> {
    match vendor {
        GpuVendor::Nvidia => "  ✓ NVIDIA GPU detected"@,
        GpuVendor::Amd => "  ✓ AMD GPU detected"@,
        GpuVendor::Intel => "  ✓ Intel GPU detected"@,
        GpuVendor::Mock => "  ⚡ No supported GPU found — using mock data"@,
    }
}

/// What the program prints when it has settled on a kind of card.
pub fn announce(vendor: GpuVendor) -> (r: String)
    ensures
        r@ == detection_line(vendor),
{
    match vendor {
        GpuVendor::Nvidia => "  ✓ NVIDIA GPU detected".to_owned(),
        GpuVendor::Amd => "  ✓ AMD GPU detected".to_owned(),
        GpuVendor::Intel => "  ✓ Intel GPU detected".to_owned(),
        GpuVendor::Mock => "  ⚡ No supported GPU found — using mock data".to_owned(),
    }
}

// ---- Saved settings ----

/// A request to set something on a card.
#[derive(Debug)]
pub enum ControlRequest {
    FanMode(FanMode),
    FanSpeed(Double),
    FanCurve(Vec<CurvePoint>),
    PowerCap(Double),
    VoltageOffset(i32),
}

/// What to do about saved settings.
#[derive(Debug)]
pub enum SavedPlan {
    /// They belong to another card.
    Skip { saved_id: String, current_id: String },
    /// Make these requests in turn. One that is refused does not stop the others.
    Apply(Vec<ControlRequest>),
}

/// Whether the settings were saved for another card. Without an identity on either side they
/// are taken to fit.
pub open spec fn other_card(saved: Option<String>, current: Option<String>) -> bool {
    saved is Some && current is Some && saved->Some_0@ != current->Some_0@
}

pub open spec fn fan_request(fan: FanConfig) -> ControlRequest {
    match fan {
        FanConfig::Auto => ControlRequest::FanMode(FanMode::Auto),
        FanConfig::Manual { speed_pct } => ControlRequest::FanSpeed(speed_pct),
        FanConfig::Curve { points } => ControlRequest::FanCurve(points),
    }
}

/// The requests that put saved settings into effect: the fan, then the power cap and the voltage
/// offset where they were saved.
pub open spec fn requests_of(cfg: GpuConfig) -> Seq<ControlRequest> {
    let fan = seq![fan_request(cfg.fan)];
    let power = match cfg.power_cap_watts {
        Some(watts) => seq![ControlRequest::PowerCap(watts)],
        None => Seq::empty(),
    };
    let voltage = match cfg.voltage_offset_mv {
        Some(mv) => seq![ControlRequest::VoltageOffset(mv)],
        None => Seq::empty(),
    };
    fan + power + voltage
}

/// Decides what to do about saved settings, given the identity of the card at hand.
pub fn apply_saved_config(cfg: GpuConfig, current_id: Option<String>) -> (r: SavedPlan)
    ensures
        r is Skip <==> other_card(cfg.gpu_id, current_id),
        match r {
            SavedPlan::Skip { saved_id, current_id: id } => cfg.gpu_id == Some(saved_id)
                && current_id == Some(id),
            SavedPlan::Apply(requests) => requests@ == requests_of(cfg),
        },
        cfg.gpu_id matches Some(saved) ==> (current_id matches Some(current) ==> (r is Apply
            <==> saved@ == current@) && (r is Skip <==> saved@ != current@)),
        cfg.gpu_id is None || current_id is None ==> r is Apply,
        r matches SavedPlan::Apply(requests) ==> {
            &&& requests.len() == 1 + (if cfg.power_cap_watts is Some {
                1int
            } else {
                0
            }) + (if cfg.voltage_offset_mv is Some {
                1int
            } else {
                0
            })
            &&& match cfg.fan {
                FanConfig::Auto => requests[0] == ControlRequest::FanMode(FanMode::Auto),
                FanConfig::Manual { speed_pct } => requests[0] == ControlRequest::FanSpeed(
                    speed_pct,
                ),
                FanConfig::Curve { points } => requests[0] matches ControlRequest::FanCurve(curve)
                    && curve@ == points@,
            }
            &&& cfg.power_cap_watts matches Some(watts) ==> requests[1] == ControlRequest::PowerCap(
                watts,
            )
            &&& cfg.voltage_offset_mv matches Some(mv) ==> requests[requests.len() - 1]
                == ControlRequest::VoltageOffset(mv)
        },
{
    let mut requests: Vec<ControlRequest> = Vec::new();
    let GpuConfig { version: _, gpu_id, fan, power_cap_watts, voltage_offset_mv } = cfg;
    if let Some(saved_id) = gpu_id {
        if let Some(id) = current_id {
            if !same_text(saved_id.as_str(), id.as_str()) {
                return SavedPlan::Skip { saved_id, current_id: id };
            }
        }
    }
    requests.push(
        match fan {
            FanConfig::Auto => ControlRequest::FanMode(FanMode::Auto),
            FanConfig::Manual { speed_pct } => ControlRequest::FanSpeed(speed_pct),
            FanConfig::Curve { points } => ControlRequest::FanCurve(points),
        },
    );
    if let Some(watts) = power_cap_watts {
        requests.push(ControlRequest::PowerCap(watts));
    }
    if let Some(mv) = voltage_offset_mv {
        requests.push(ControlRequest::VoltageOffset(mv));
    }
    assert(requests@ =~= requests_of(cfg));
    SavedPlan::Apply(requests)
}

/// Saved settings bring back what they were saved from: the fan's mode with its speed or curve,
/// the power cap and the voltage offset.
pub proof fn law_saved_settings_come_back(
    cfg: GpuConfig,
    mode: Option<FanMode>,
    speed_pct: Option<Double>,
    curve: Option<Seq<CurvePoint>>,
)
    requires
        cfg.fan.saves(mode, speed_pct, curve),
    ensures
        mode == Some(FanMode::Manual) && speed_pct is Some ==> requests_of(cfg)[0]
            == ControlRequest::FanSpeed(speed_pct->Some_0),
        mode == Some(FanMode::Curve) && curve is Some ==> (requests_of(
            cfg,
        )[0] matches ControlRequest::FanCurve(points) && points@ == curve->Some_0),
        mode != Some(FanMode::Manual) && mode != Some(FanMode::Curve) ==> requests_of(cfg)[0]
            == ControlRequest::FanMode(FanMode::Auto),
        forall|watts: Double|
            cfg.power_cap_watts == Some(watts) <==> #[trigger] requests_of(cfg).contains(
                ControlRequest::PowerCap(watts),
            ),
        forall|mv: i32|
            cfg.voltage_offset_mv == Some(mv) <==> #[trigger] requests_of(cfg).contains(
                ControlRequest::VoltageOffset(mv),
            ),
{
    let all = requests_of(cfg);
    assert forall|watts: Double| cfg.power_cap_watts == Some(watts) implies #[trigger] all.contains(
        ControlRequest::PowerCap(watts),
    ) by {
        assert(all[1] == ControlRequest::PowerCap(watts));
    }
    assert forall|mv: i32| cfg.voltage_offset_mv == Some(mv) implies #[trigger] all.contains(
        ControlRequest::VoltageOffset(mv),
    ) by {
        assert(all.last() == ControlRequest::VoltageOffset(mv));
    }
}

// ---- Answers ----

/// How a refused request is answered.
#[derive(Clone, Copy, Debug, PartialEq, Eq, Structural)]
pub enum ErrorStatus {
    Conflict,
    Forbidden,
    BadRequest,
    InternalServerError,
}

pub open spec fn status_of(e: ControlError) -> ErrorStatus {
    match e {
        ControlError::Unsupported(_) => ErrorStatus::Conflict,
        ControlError::PermissionDenied(_) => ErrorStatus::Forbidden,
        ControlError::InvalidValue(_) => ErrorStatus::BadRequest,
        ControlError::BackendError(_) => ErrorStatus::InternalServerError,
    }
}

/// The status and the text that a refused request is answered with.
pub fn control_error_response(e: &ControlError) -> (r: (ErrorStatus, String))
    ensures
        r.0 == status_of(*e),
        r.1@ == e.heading() + e.detail(),
        match *e {
            ControlError::Unsupported(text) => r.0 == ErrorStatus::Conflict && r.1@
                == "unsupported: "@ + text@,
            ControlError::PermissionDenied(text) => r.0 == ErrorStatus::Forbidden && r.1@
                == "permission denied: "@ + text@,
            ControlError::InvalidValue(text) => r.0 == ErrorStatus::BadRequest && r.1@
                == "invalid value: "@ + text@,
            ControlError::BackendError(text) => r.0 == ErrorStatus::InternalServerError && r.1@
                == "backend error: "@ + text@,
        },
{
    let status: ErrorStatus = match e {
        ControlError::Unsupported(_) => ErrorStatus::Conflict,
        ControlError::PermissionDenied(_) => ErrorStatus::Forbidden,
        ControlError::InvalidValue(_) => ErrorStatus::BadRequest,
        ControlError::BackendError(_) => ErrorStatus::InternalServerError,
    };
    (status, e.to_string())
}

/// How a request to set something is answered.
#[derive(Debug)]
pub enum Reply {
    /// It was carried out. The settings are to be saved before the answer.
    Done,
    Refused { status: ErrorStatus, message: String },
}

/// Answers a request by its outcome.
pub fn reply_to(outcome: &Result<(), ControlError>) -> (r: Reply)
    ensures
        match *outcome {
            Ok(_) => r is Done,
            Err(e) => r matches Reply::Refused { status, message } && status == status_of(e)
                && message@ == e.heading() + e.detail(),
        },
{
    match outcome {
        Ok(_) => Reply::Done,
        Err(e) => {
            let (status, message): (ErrorStatus, String) = control_error_response(e);
            Reply::Refused { status, message }
        },
    }
}

// ---- Measuring in turn ----

/// How a measurement went: the temperatures that matter for the fan, or that there are none.
#[derive(Clone, Copy, Debug)]
pub enum Measured {
    Good { hotspot: Option<Double>, edge: Option<Double> },
    Failed,
}

/// Whether this is the temperature to hold the fan curve against: the hot spot's, or the edge's
/// where that is not known. After a failed measurement it is one at which the fan runs at full
/// speed.
pub open spec fn is_curve_temp(measured: Measured, temp_c: Option<Double>) -> bool {
    match measured {
        Measured::Good { hotspot, edge } => temp_c == if hotspot is Some {
            hotspot
        } else {
            edge
        },
        Measured::Failed => temp_c matches Some(t) && t.is_whole(100),
    }
}

/// The temperature to hold the fan curve against.
pub fn curve_temp(measured: Measured) -> (r: Option<Double>)
    ensures
        is_curve_temp(measured, r),
        match measured {
            Measured::Good { hotspot: Some(t), edge: _ } => r == Some(t),
            Measured::Good { hotspot: None, edge } => r == edge,
            Measured::Failed => r matches Some(t) && t.is_whole(100),
        },
{
    match measured {
        Measured::Good { hotspot, edge } => match hotspot {
            Some(t) => Some(t),
            None => edge,
        },
        Measured::Failed => Some(Double::whole(100)),
    }
}

/// When temperatures cannot be read, a fan in curve mode runs at full speed.
pub proof fn law_failed_measurement_cools(card: AmdState, temp_c: Option<Double>)
    requires
        card.fan_mode_override == Some(FanMode::Curve),
        is_curve_temp(Measured::Failed, temp_c),
    ensures
        card.tick_speed(temp_c) == Some(Formula::Int(100)),
{
}

/// What goes out after a measurement: the text that new clients are greeted with, if it changes,
/// and the text that clients are sent.
#[derive(Debug)]
pub struct Publication {
    pub greeting: Option<String>,
    pub update: Option<String>,
}

/// The last good measurement, as text.
#[derive(Debug)]
pub struct Producer {
    pub last_good: Option<String>,
}

impl Producer {
    /// No measurement yet.
    pub fn new() -> (r: Producer)
        ensures
            r.last_good is None,
    {
        Producer { last_good: None }
    }

    /// Takes the text of a good measurement, or the news that there is none. A good one goes to
    /// everyone; after a failure the clients are sent the last good one again, if there was one.
    pub fn publish(&mut self, measurement: Option<String>) -> (r: Publication)
        ensures
            match measurement {
                Some(text) => {
                    &&& final(self).last_good == Some(text)
                    &&& r.greeting == Some(text)
                    &&& r.update == Some(text)
                },
                None => {
                    &&& final(self).last_good == old(self).last_good
                    &&& r.greeting is None
                    &&& r.update == old(self).last_good
                },
            },
    {
        match measurement {
            Some(text) => {
                self.last_good = Some(text.clone());
                Publication { greeting: Some(text.clone()), update: Some(text) }
            },
            None => {
                let update: Option<String> = match &self.last_good {
                    Some(text) => Some(text.clone()),
                    None => None,
                };
                Publication { greeting: None, update }
            },
        }
    }
}

/// Settings fit a card unless both identities are known and differ.
pub proof fn law_settings_fit_their_own_card(saved: String, current: String)
    ensures
        other_card(Some(saved), Some(current)) <==> saved@ != current@,
        !other_card(None, Some(current)),
        !other_card(Some(saved), None),
        !other_card(None, None),
{
}

/// A refused request is answered by the kind of its error, with a text that begins with the kind
/// and ends with the error's own sentence.
pub proof fn law_refusals_are_answered(text: String)
    ensures
        status_of(ControlError::Unsupported(text)) == ErrorStatus::Conflict,
        status_of(ControlError::PermissionDenied(text)) == ErrorStatus::Forbidden,
        status_of(ControlError::InvalidValue(text)) == ErrorStatus::BadRequest,
        status_of(ControlError::BackendError(text)) == ErrorStatus::InternalServerError,
        ControlError::Unsupported(text).heading() + ControlError::Unsupported(text).detail()
            == "unsupported: "@ + text@,
        ControlError::PermissionDenied(text).heading() + ControlError::PermissionDenied(
            text,
        ).detail() == "permission denied: "@ + text@,
        ControlError::InvalidValue(text).heading() + ControlError::InvalidValue(text).detail()
            == "invalid value: "@ + text@,
        ControlError::BackendError(text).heading() + ControlError::BackendError(text).detail()
            == "backend error: "@ + text@,
{
}

/// The fan follows the hot spot where it is known, and the edge where it is not; a failed
/// measurement counts as 100 degrees.
pub proof fn law_temperature_for_the_curve(
    hotspot: Option<Double>,
    edge: Option<Double>,
    temp_c: Option<Double>,
)
    ensures
        is_curve_temp(Measured::Good { hotspot, edge }, temp_c) <==> (if hotspot is Some {
            temp_c == hotspot
        } else {
            temp_c == edge
        }),
        is_curve_temp(Measured::Failed, temp_c) ==> (temp_c matches Some(t) && t.value()
            == 100 as real),
{
    if is_curve_temp(Measured::Failed, temp_c) {
        law_whole_is_numeric(temp_c->Some_0, 100);
    }
}

} // verus!
