//! What is measured on a graphics card.
use crate::formula::{Count, Formula};
use vstd::prelude::*;

verus! {

/// One set of measurements. A measurement that the card does not offer is absent.
#[derive(Clone, Debug)]
pub struct GpuSnapshot {
    pub gpu_name: String,
    pub gpu_vendor: GpuVendor,
    pub gpu_utilization: Option<Formula>,
    pub vram_used_mb: Option<Count>,
    pub vram_total_mb: Option<u64>,
    pub temperatures: Temperatures,
    pub fan: Option<FanData>,
    pub power_watts: Option<Formula>,
    pub power_cap_watts: Option<Formula>,
    pub gpu_clock_mhz: Option<Count>,
    pub gpu_clock_max_mhz: Option<u32>,
    pub vram_clock_mhz: Option<Count>,
    pub vram_clock_max_mhz: Option<u32>,
    pub timestamp_ms: u64,
}

/// The fan's speed, in revolutions per minute and as a part of its maximum.
#[derive(Clone, Debug)]
pub struct FanData {
    pub speed_rpm: Count,
    pub speed_pct: Formula,
    pub max_rpm: u32,
}

/// Temperatures in degrees Celsius.
#[derive(Clone, Debug)]
pub struct Temperatures {
    pub edge: Option<Formula>,
    pub hotspot: Option<Formula>,
    pub memory: Option<Formula>,
}

#[derive(Clone, Copy, Debug, PartialEq, Eq, Structural)]
pub enum GpuVendor {
    Nvidia,
    Amd,
    Intel,
    Mock,
}

impl GpuVendor {
    /// The vendor's name as it is shown.
    pub open spec fn name(self) -> Seq<char> {
        match self {
            GpuVendor::Nvidia => "NVIDIA"@,
            GpuVendor::Amd => "AMD"@,
            GpuVendor::Intel => "Intel"@,
            GpuVendor::Mock => "Mock"@,
        }
    }

    /// The vendor's name as it is shown.
    pub fn to_string(&self) -> (r: String)
        ensures
            r@ == self.name(),
    {
        match self {
            GpuVendor::Nvidia => "NVIDIA".to_owned(),
            GpuVendor::Amd => "AMD".to_owned(),
            GpuVendor::Intel => "Intel".to_owned(),
            GpuVendor::Mock => "Mock".to_owned(),
        }
    }
}

/// A moment of the machine's clock.
#[verifier::external_type_specification]
#[verifier::external_body]
pub struct ExSystemTime(std::time::SystemTime);

/// The report that a moment lies before another.
#[verifier::external_type_specification]
#[verifier::external_body]
pub struct ExSystemTimeError(std::time::SystemTimeError);

/// `SystemTime::now`: the present moment, of which nothing is known beforehand.
pub assume_specification[ std::time::SystemTime::now ]() -> std::time::SystemTime;

/// What `Duration::as_millis` makes of a span.
pub uninterp spec fn whole_millis(span: std::time::Duration) -> u128;

/// `Duration::as_millis`: the whole milliseconds of a span, which depend on the span alone. The
/// span itself is opaque, so its seconds and nanoseconds are not stated.
pub assume_specification[ std::time::Duration::as_millis ](span: &std::time::Duration) -> (r: u128)
    ensures
        r == whole_millis(*span),
;

/// What `SystemTime::duration_since` makes of a moment and the start of the Unix epoch: the span
/// between them, or nothing where the moment lies before the epoch.
pub uninterp spec fn span_since_epoch(moment: std::time::SystemTime) -> Option<
    std::time::Duration,
>;

/// `SystemTime::duration_since`, from the start of the Unix epoch. Whether it succeeds, and with
/// which span, depends on the moment alone. The moment itself is opaque, so where it lies is not
/// stated.
#[verifier::external_body]
fn since_epoch(moment: std::time::SystemTime) -> (r: Result<
    std::time::Duration,
    std::time::SystemTimeError,
>)
    ensures
        match r {
            Ok(span) => span_since_epoch(moment) == Some(span),
            Err(_) => span_since_epoch(moment) is None,
        },
{
    moment.duration_since(std::time::UNIX_EPOCH)
}

/// The low 64 bits of a count of milliseconds.
pub fn timestamp_of(millis: u128) -> (r: u64)
    ensures
        r == millis % 0x1_0000_0000_0000_0000,
{
    (millis % 0x1_0000_0000_0000_0000) as u64
}

/// The milliseconds from the start of the Unix epoch to a moment, their low 64 bits; nothing for
/// a moment before the epoch.
pub open spec fn stamp(moment: std::time::SystemTime) -> Option<u64> {
    match span_since_epoch(moment) {
        Some(span) => Some((whole_millis(span) % 0x1_0000_0000_0000_0000) as u64),
        None => None,
    }
}

/// Milliseconds from the start of the Unix epoch to a moment; nothing if it lies before the
/// epoch.
pub fn ms_at(moment: std::time::SystemTime) -> (r: Option<u64>)
    ensures
        r == stamp(moment),
        r is Some <==> span_since_epoch(moment) is Some,
        span_since_epoch(moment) matches Some(span) ==> r->Some_0 == whole_millis(span)
            % 0x1_0000_0000_0000_0000,
{
    match since_epoch(moment) {
        Ok(span) => Some(timestamp_of(span.as_millis())),
        Err(_) => None,
    }
}

/// Milliseconds since the start of the Unix epoch; nothing if the machine's clock stands before
/// it. Which moment the clock gives is not known beforehand.
pub fn now_ms() -> (r: Option<u64>)
    ensures
        exists|moment: std::time::SystemTime| r == #[trigger] stamp(moment),
{
    ms_at(std::time::SystemTime::now())
}

} // verus!
