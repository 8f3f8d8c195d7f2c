//! AMD cards, by the files of the amdgpu driver.
use crate::amd_files::{
    clock_max_of, clock_of, input_file, read_amd_clock, read_amd_clock_max, read_voltage_offset,
    sensor_file, voltage_offset_of, TempLabels,
};
use crate::double::{law_whole_bounds, Double, LARGEST_BITS};
use crate::fan_curve::{
    by_temperature, law_curve_stays_in_range, law_sorting_is_stable, law_sorting_keeps_points,
    sort_by_temperature,
};
use crate::formula::{
    exact, exact_clock, exactly, exactly_clock, law_rounding_is_near, law_rounding_keeps_integers,
    plain, plainly, round_half_away, scaled_by, Count, Formula,
};
use crate::gpu_control::{
    curve_speed, evaluate_fan_curve, sorted, ControlError, ControlInfo, CurvePoint, FanMode,
};
use crate::gpu_data::{FanData, GpuSnapshot, GpuVendor, Temperatures};
use crate::sysfs::{
    degrees, find_card, law_number_reads_back, mebibytes_in, number_in, read_mebibytes,
    read_sysfs_u64, watts, DirEntry, DrmEntry, SourceError,
};
use crate::text::{decimal_form, format_signed, format_unsigned, joined, text_of, white};
use vstd::prelude::*;

verus! {

/// A card, with what it lets the program set and what has been set. Its curve is sorted, within
/// bounds and not empty.
#[derive(Debug)]
pub struct AmdSource {
    card_path: String,
    gpu_name: String,
    temp_labels: TempLabels,
    fan_control_writable: bool,
    power_cap_writable: bool,
    voltage_offset_writable: bool,
    fan_curve: Vec<CurvePoint>,
    fan_mode_override: Option<FanMode>,
}

/// What a card is.
pub struct AmdState {
    pub card_path: Seq<char>,
    pub gpu_name: Seq<char>,
    pub temp_labels: Map<Seq<char>, usize>,
    pub fan_control_writable: bool,
    pub power_cap_writable: bool,
    pub voltage_offset_writable: bool,
    pub fan_curve: Seq<CurvePoint>,
    /// The mode that the program has set itself, where it is not the driver's own.
    pub fan_mode_override: Option<FanMode>,
}

impl View for AmdSource {
    type V = AmdState;

    closed spec fn view(&self) -> AmdState {
        AmdState {
            card_path: self.card_path@,
            gpu_name: self.gpu_name@,
            temp_labels: self.temp_labels@,
            fan_control_writable: self.fan_control_writable,
            power_cap_writable: self.power_cap_writable,
            voltage_offset_writable: self.voltage_offset_writable,
            fan_curve: self.fan_curve@,
            fan_mode_override: self.fan_mode_override,
        }
    }
}

/// What was found out about a card before it is used.
#[derive(Debug)]
pub struct AmdProbe {
    pub card_path: String,
    pub gpu_name: String,
    pub temp_labels: TempLabels,
    /// Whether the card reports how busy it is.
    pub has_util: bool,
    /// Whether the card reports how much of its memory is used.
    pub has_vram: bool,
    pub fan_control_writable: bool,
    pub power_cap_writable: bool,
    pub voltage_offset_writable: bool,
}

pub open spec fn is_point(point: CurvePoint, temp_c: nat, speed_pct: nat) -> bool {
    point.temp_c.is_whole(temp_c) && point.speed_pct.is_whole(speed_pct)
}

/// The curve that a card starts with: 25 percent at 30 degrees, 35 at 50, 70 at 70 and all of it
/// at 85.
pub open spec fn is_default_curve(curve: Seq<CurvePoint>) -> bool {
    &&& curve.len() == 4
    &&& is_point(curve[0], 30, 25)
    &&& is_point(curve[1], 50, 35)
    &&& is_point(curve[2], 70, 70)
    &&& is_point(curve[3], 85, 100)
}

fn default_curve() -> (r: Vec<CurvePoint>)
    ensures
        is_default_curve(r@),
{
    let mut r: Vec<CurvePoint> = Vec::new();
    r.push(CurvePoint { temp_c: Double::whole(30), speed_pct: Double::whole(25) });
    r.push(CurvePoint { temp_c: Double::whole(50), speed_pct: Double::whole(35) });
    r.push(CurvePoint { temp_c: Double::whole(70), speed_pct: Double::whole(70) });
    r.push(CurvePoint { temp_c: Double::whole(85), speed_pct: Double::whole(100) });
    r
}

/// Whether the point is one that a card takes: a temperature from 0 to 110 degrees and a speed
/// from 0 to 100 percent.
pub open spec fn in_bounds(point: CurvePoint) -> bool {
    point.temp_c.between(0, 110) && point.speed_pct.between(0, 100)
}

/// Whether the curve is one that a card can be driven by.
pub open spec fn valid_curve(curve: Seq<CurvePoint>) -> bool {
    &&& curve.len() > 0
    &&& sorted(curve)
    &&& forall|i: int| 0 <= i < curve.len() ==> in_bounds(#[trigger] curve[i])
}

/// What is wrong with the first point from place `i` on that a card does not take.
pub open spec fn curve_fault(curve: Seq<CurvePoint>, i: int) -> Option<Seq<char>>
    decreases curve.len() - i,
{
    if i >= curve.len() {
        None
    } else if !curve[i].temp_c.between(0, 110) {
        Some("temperature must be 0-110°C"@)
    } else if !curve[i].speed_pct.between(0, 100) {
        Some("fan speed must be 0-100%"@)
    } else {
        curve_fault(curve, i + 1)
    }
}

fn check_curve(curve: &Vec<CurvePoint>) -> (r: Result<(), ControlError>)
    ensures
        match r {
            Ok(_) => curve_fault(curve@, 0) is None && forall|i: int|
                0 <= i < curve.len() ==> in_bounds(#[trigger] curve[i]),
            Err(e) => e is InvalidValue && curve_fault(curve@, 0) == Some(e.detail()) && exists|
                i: int,
            |
                0 <= i < curve.len() && !in_bounds(#[trigger] curve[i]),
        },
{
    let mut i: usize = 0;
    while i < curve.len()
        invariant
            i <= curve.len(),
            curve_fault(curve@, 0) == curve_fault(curve@, i as int),
            forall|j: int| 0 <= j < i ==> in_bounds(#[trigger] curve[j]),
        decreases curve.len() - i,
    {
        if !curve[i].temp_c.in_range(0, 110) {
            assert(!in_bounds(curve[i as int]));
            return Err(ControlError::InvalidValue("temperature must be 0-110°C".to_owned()));
        }
        if !curve[i].speed_pct.in_range(0, 100) {
            assert(!in_bounds(curve[i as int]));
            return Err(ControlError::InvalidValue("fan speed must be 0-100%".to_owned()));
        }
        i = i + 1;
    }
    Ok(())
}

// ---- Finding a card ----

/// The vendor identity of AMD, as a card's vendor file gives it.
pub open spec fn amd_vendor() -> Seq<char> {
    "0x1002"@
}

/// The first AMD card of the listing, by its place.
pub fn find_amd_card(entries: &Vec<DrmEntry>) -> (r: Result<usize, SourceError>)
    ensures
        match r {
            Ok(i) => {
                &&& i < entries.len()
                &&& entries[i as int].is_card_of(amd_vendor())
                &&& forall|j: int| 0 <= j < i ==> !(#[trigger] entries[j]).ends_search(amd_vendor())
            },
            Err(SourceError::Io(text)) => exists|i: int|
                {
                    &&& 0 <= i < entries.len()
                    &&& (#[trigger] entries[i]) == DrmEntry::Unreadable(text)
                    &&& forall|j: int|
                        0 <= j < i ==> !(#[trigger] entries[j]).ends_search(amd_vendor())
                },
            Err(e) => e == SourceError::NoAmdCard && forall|j: int|
                0 <= j < entries.len() ==> !(#[trigger] entries[j]).ends_search(amd_vendor()),
        },
{
    match find_card(entries, "0x1002") {
        Ok(Some(i)) => Ok(i),
        Ok(None) => Err(SourceError::NoAmdCard),
        Err(e) => Err(e),
    }
}

/// The first directory of sensors of an AMD card, by its place.
pub fn find_hwmon(entries: &Vec<DirEntry>) -> (r: Result<usize, SourceError>)
    ensures
        match r {
            Ok(i) => {
                &&& i < entries.len()
                &&& entries[i as int].is_hwmon()
                &&& forall|j: int| 0 <= j < i ==> !(#[trigger] entries[j]).ends_search()
            },
            Err(SourceError::Io(text)) => exists|i: int|
                {
                    &&& 0 <= i < entries.len()
                    &&& (#[trigger] entries[i]) == DirEntry::Unreadable(text)
                    &&& forall|j: int| 0 <= j < i ==> !(#[trigger] entries[j]).ends_search()
                },
            Err(e) => e == SourceError::NoAmdHwmon && forall|j: int|
                0 <= j < entries.len() ==> !(#[trigger] entries[j]).ends_search(),
        },
{
    match crate::sysfs::find_hwmon(entries) {
        Ok(Some(i)) => Ok(i),
        Ok(None) => Err(SourceError::NoAmdHwmon),
        Err(e) => Err(e),
    }
}

impl AmdState {
    /// What holds of every card.
    pub open spec fn wf(self) -> bool {
        valid_curve(self.fan_curve)
    }
}

impl AmdSource {
    #[verifier::type_invariant]
    spec fn wf(self) -> bool {
        valid_curve(self.fan_curve@)
    }

    /// A card with the given features, unless it reports nothing.
    pub fn new(probe: AmdProbe) -> (r: Result<AmdSource, SourceError>)
        ensures
            match r {
                Ok(card) => {
                    &&& probe.has_util || probe.has_vram
                    &&& card@.wf()
                    &&& card@.card_path == probe.card_path@
                    &&& card@.gpu_name == probe.gpu_name@
                    &&& card@.temp_labels == probe.temp_labels@
                    &&& card@.fan_control_writable == probe.fan_control_writable
                    &&& card@.power_cap_writable == probe.power_cap_writable
                    &&& card@.voltage_offset_writable == probe.voltage_offset_writable
                    &&& is_default_curve(card@.fan_curve)
                    &&& card@.fan_mode_override is None
                },
                Err(e) => !probe.has_util && !probe.has_vram && e == SourceError::NoAmdMetrics,
            },
    {
        if !probe.has_util && !probe.has_vram {
            return Err(SourceError::NoAmdMetrics);
        }
        let fan_curve: Vec<CurvePoint> = default_curve();
        proof {
            lemma_default_curve_is_valid(fan_curve@);
        }
        Ok(
            AmdSource {
                card_path: probe.card_path,
                gpu_name: probe.gpu_name,
                temp_labels: probe.temp_labels,
                fan_control_writable: probe.fan_control_writable,
                power_cap_writable: probe.power_cap_writable,
                voltage_offset_writable: probe.voltage_offset_writable,
                fan_curve,
                fan_mode_override: None,
            },
        )
    }
}

proof fn lemma_default_curve_is_valid(curve: Seq<CurvePoint>)
    requires
        is_default_curve(curve),
    ensures
        valid_curve(curve),
{
    assert forall|i: int| 0 <= i < curve.len() implies in_bounds(#[trigger] curve[i]) by {
        assert(i == 0 || i == 1 || i == 2 || i == 3);
    }
    assert forall|i: int, j: int| 0 <= i <= j < curve.len() implies (
    #[trigger] curve[i]).temp_c.le((#[trigger] curve[j]).temp_c) by {
        assert(i == 0 || i == 1 || i == 2 || i == 3);
        assert(j == 0 || j == 1 || j == 2 || j == 3);
    }
}

// ---- Measuring ----

/// What the card's files held at one moment. Files of one integer and tables are given as they
/// were read; other numbers are given by their values, temperatures in thousandths of a degree
/// and power in millionths of a watt. What could not be read is absent.
#[derive(Debug)]
pub struct AmdReadings {
    pub gpu_busy_percent: Option<Double>,
    pub mem_info_vram_used: Option<String>,
    pub mem_info_vram_total: Option<String>,
    /// The reading of the sensor labelled "edge".
    pub edge: Option<Double>,
    /// The reading of the sensor labelled "junction".
    pub junction: Option<Double>,
    /// The reading of the sensor labelled "hotspot".
    pub hotspot: Option<Double>,
    /// The reading of the sensor labelled "mem".
    pub mem: Option<Double>,
    pub power1_average: Option<Double>,
    pub power1_cap: Option<Double>,
    pub fan1_input: Option<String>,
    pub fan1_max: Option<String>,
    pub pp_dpm_sclk: Option<String>,
    pub pp_dpm_mclk: Option<String>,
}

/// The files with the readings of the sensors that count, each absent where no sensor has its
/// label.
#[derive(Debug)]
pub struct TempInputs {
    pub edge: Option<String>,
    pub junction: Option<String>,
    pub hotspot: Option<String>,
    pub mem: Option<String>,
}

impl AmdState {
    /// The file that holds the reading of the sensor with the given label.
    pub open spec fn input_of(self, label: Seq<char>) -> Option<Seq<char>> {
        if self.temp_labels.dom().contains(label) {
            Some(sensor_file(self.temp_labels[label], "_input"@))
        } else {
            None
        }
    }
}

/// The low 32 bits of a number.
pub open spec fn low_half(n: u64) -> u32 {
    (n % 0x1_0000_0000) as u32
}

/// The fan's greatest speed: what its file holds, or 3000.
pub open spec fn fan_max_in(content: Option<String>) -> u32 {
    match number_in(content) {
        Some(n) => low_half(n),
        None => 3000,
    }
}

/// The fan's speed, with its part of the maximum in percent to one decimal place. A maximum of
/// zero makes every speed zero percent.
pub open spec fn fan_in(input: Option<String>, max: Option<String>) -> Option<FanData> {
    match number_in(input) {
        Some(n) => {
            let rpm = low_half(n);
            let max_rpm = fan_max_in(max);
            let pct = if max_rpm > 0 {
                Formula::Int(rpm as u64).over(Formula::Int(max_rpm as u64)).times(Formula::Int(100))
            } else {
                Formula::Int(0)
            };
            Some(
                FanData {
                    speed_rpm: Count::Exact(rpm as u64),
                    speed_pct: pct.to_tenths(),
                    max_rpm,
                },
            )
        },
        None => None,
    }
}

fn read_fan(input: &Option<String>, max: &Option<String>) -> (r: Option<FanData>)
    ensures
        r == fan_in(*input, *max),
{
    let max_rpm: u32 = match read_sysfs_u64(max) {
        Some(n) => (n % 0x1_0000_0000) as u32,
        None => 3000,
    };
    match read_sysfs_u64(input) {
        Some(n) => {
            let rpm: u32 = (n % 0x1_0000_0000) as u32;
            let pct: Formula = if max_rpm > 0 {
                Formula::Int(rpm as u64).over(Formula::Int(max_rpm as u64)).times(Formula::Int(100))
            } else {
                Formula::Int(0)
            };
            Some(
                FanData {
                    speed_rpm: Count::Exact(rpm as u64),
                    speed_pct: pct.to_tenths(),
                    max_rpm,
                },
            )
        },
        None => None,
    }
}

impl AmdSource {
    /// The file that holds the reading of the sensor with the given label.
    pub fn temp_input(&self, label: &str) -> (r: Option<String>)
        ensures
            match r {
                Some(file) => self@.input_of(label@) == Some(file@),
                None => self@.input_of(label@) is None,
            },
    {
        match self.temp_labels.get(label) {
            Some(sensor) => Some(input_file(sensor)),
            None => None,
        }
    }

    /// The files that the temperatures of a measurement come from.
    pub fn temp_inputs(&self) -> (r: TempInputs)
        ensures
            text_of(r.edge) == self@.input_of("edge"@),
            text_of(r.junction) == self@.input_of("junction"@),
            text_of(r.hotspot) == self@.input_of("hotspot"@),
            text_of(r.mem) == self@.input_of("mem"@),
    {
        TempInputs {
            edge: self.temp_input("edge"),
            junction: self.temp_input("junction"),
            hotspot: self.temp_input("hotspot"),
            mem: self.temp_input("mem"),
        }
    }

    /// The measurements that the card's files amount to. The hot spot is the junction's
    /// temperature, or that of the sensor which carries its own name.
    pub fn snapshot(&self, readings: &AmdReadings, now: u64) -> (r: GpuSnapshot)
        ensures
            r.gpu_name@ == self@.gpu_name,
            r.gpu_vendor == GpuVendor::Amd,
            r.gpu_utilization == plain(readings.gpu_busy_percent),
            r.vram_used_mb == exact(mebibytes_in(readings.mem_info_vram_used)),
            r.vram_total_mb == mebibytes_in(readings.mem_info_vram_total),
            r.temperatures.edge == degrees(readings.edge),
            r.temperatures.hotspot == if readings.junction is Some {
                degrees(readings.junction)
            } else {
                degrees(readings.hotspot)
            },
            r.temperatures.memory == degrees(readings.mem),
            r.fan == fan_in(readings.fan1_input, readings.fan1_max),
            r.power_watts == watts(readings.power1_average),
            r.power_cap_watts == watts(readings.power1_cap),
            r.gpu_clock_mhz == exact_clock(clock_of(readings.pp_dpm_sclk)),
            r.gpu_clock_max_mhz == clock_max_of(readings.pp_dpm_sclk),
            r.vram_clock_mhz == exact_clock(clock_of(readings.pp_dpm_mclk)),
            r.vram_clock_max_mhz == clock_max_of(readings.pp_dpm_mclk),
            r.timestamp_ms == now,
    {
        let hotspot: Option<Double> = if readings.junction.is_some() {
            readings.junction
        } else {
            readings.hotspot
        };
        GpuSnapshot {
            gpu_name: self.gpu_name.clone(),
            gpu_vendor: GpuVendor::Amd,
            gpu_utilization: plainly(readings.gpu_busy_percent),
            vram_used_mb: exactly(read_mebibytes(&readings.mem_info_vram_used)),
            vram_total_mb: read_mebibytes(&readings.mem_info_vram_total),
            temperatures: Temperatures {
                edge: scaled_by(readings.edge, 1000),
                hotspot: scaled_by(hotspot, 1000),
                memory: scaled_by(readings.mem, 1000),
            },
            fan: read_fan(&readings.fan1_input, &readings.fan1_max),
            power_watts: scaled_by(readings.power1_average, 1_000_000),
            power_cap_watts: scaled_by(readings.power1_cap, 1_000_000),
            gpu_clock_mhz: exactly_clock(read_amd_clock(&readings.pp_dpm_sclk)),
            gpu_clock_max_mhz: read_amd_clock_max(&readings.pp_dpm_sclk),
            vram_clock_mhz: exactly_clock(read_amd_clock(&readings.pp_dpm_mclk)),
            vram_clock_max_mhz: read_amd_clock_max(&readings.pp_dpm_mclk),
            timestamp_ms: now,
        }
    }
}

// ---- Setting ----

/// A file of the driver that settings are written to.
#[derive(Clone, Copy, Debug, PartialEq, Eq, Structural)]
pub enum ControlFile {
    Pwm1Enable,
    Pwm1,
    Power1Cap,
    PpOdClkVoltage,
}

impl ControlFile {
    /// Whether the file lies in the directory of sensors, and not in the card's own.
    pub fn is_hwmon_file(self) -> (r: bool)
        ensures
            r == (self != ControlFile::PpOdClkVoltage),
    {
        match self {
            ControlFile::PpOdClkVoltage => false,
            _ => true,
        }
    }

    pub open spec fn file_name(self) -> Seq<char> {
        match self {
            ControlFile::Pwm1Enable => "pwm1_enable"@,
            ControlFile::Pwm1 => "pwm1"@,
            ControlFile::Power1Cap => "power1_cap"@,
            ControlFile::PpOdClkVoltage => "pp_od_clk_voltage"@,
        }
    }

    /// The file's name in its directory.
    pub fn name(self) -> (r: String)
        ensures
            r@ == self.file_name(),
    {
        match self {
            ControlFile::Pwm1Enable => "pwm1_enable".to_owned(),
            ControlFile::Pwm1 => "pwm1".to_owned(),
            ControlFile::Power1Cap => "power1_cap".to_owned(),
            ControlFile::PpOdClkVoltage => "pp_od_clk_voltage".to_owned(),
        }
    }
}

/// A text to be written to one of the driver's files, and what the writing is for.
#[derive(Clone, Debug)]
pub struct SysfsWrite {
    pub file: ControlFile,
    pub text: String,
    pub purpose: String,
}

impl SysfsWrite {
    pub open spec fn says(self, file: ControlFile, text: Seq<char>, purpose: Seq<char>) -> bool {
        self.file == file && self.text@ == text && self.purpose@ == purpose
    }

    /// Whether the error is the one to report when the writing failed for the given reason.
    pub open spec fn fails_with(self, reason: Seq<char>, e: ControlError) -> bool {
        e is BackendError && e.detail() == "failed to "@ + self.purpose@ + ": "@ + reason
    }

    /// The error to report when the writing failed for the given reason.
    pub fn failed(&self, reason: &str) -> (r: ControlError)
        ensures
            self.fails_with(reason@, r),
            r is BackendError,
            r.detail() == "failed to "@ + self.purpose@ + ": "@ + reason@,
    {
        let start: String = joined("failed to ", self.purpose.as_str());
        ControlError::BackendError(joined(joined(start.as_str(), ": ").as_str(), reason))
    }

    /// What a request comes to when the writing had the given outcome.
    pub fn after(&self, outcome: Result<(), String>) -> (r: Result<(), ControlError>)
        ensures
            r is Ok <==> outcome is Ok,
            r is Err ==> self.fails_with(outcome->Err_0@, r->Err_0),
            r is Err ==> r->Err_0 is BackendError && r->Err_0.detail() == "failed to "@
                + self.purpose@ + ": "@ + outcome->Err_0@,
    {
        match outcome {
            Ok(_) => Ok(()),
            Err(reason) => Err(self.failed(reason.as_str())),
        }
    }
}

/// Where a request of two writes stands. The second write is made only when the first has
/// succeeded.
#[derive(Debug)]
pub enum WriteStep {
    /// Make the first write.
    First,
    /// Make the second write.
    Second,
    Done,
    Failed(ControlError),
}

impl WriteStep {
    pub open spec fn ended(self) -> bool {
        self is Done || self is Failed
    }

    /// Which step follows when the write of this one has the given outcome.
    pub open spec fn leads_to(
        self,
        write: SysfsWrite,
        outcome: Result<(), String>,
        next: WriteStep,
    ) -> bool {
        match (self, outcome) {
            (WriteStep::First, Ok(_)) => next is Second,
            (WriteStep::Second, Ok(_)) => next is Done,
            (WriteStep::First | WriteStep::Second, Err(reason)) => next matches WriteStep::Failed(e)
                && write.fails_with(reason@, e),
            _ => next == self,
        }
    }

    /// The step that follows when this one's write had the given outcome.
    pub fn next(self, write: &SysfsWrite, outcome: Result<(), String>) -> (r: WriteStep)
        ensures
            self.leads_to(*write, outcome, r),
    {
        match self {
            WriteStep::First => match write.after(outcome) {
                Ok(_) => WriteStep::Second,
                Err(e) => WriteStep::Failed(e),
            },
            WriteStep::Second => match write.after(outcome) {
                Ok(_) => WriteStep::Done,
                Err(e) => WriteStep::Failed(e),
            },
            ended => ended,
        }
    }
}

/// A request of two writes is refused with the first write's error when that fails, and the
/// second write is then never made; it is refused with the second write's error when only that
/// fails, and done exactly if both succeed.
pub proof fn law_second_write_follows_success(
    first: SysfsWrite,
    second: SysfsWrite,
    first_outcome: Result<(), String>,
    second_outcome: Result<(), String>,
    middle: WriteStep,
    last: WriteStep,
)
    requires
        WriteStep::First.leads_to(first, first_outcome, middle),
        middle.leads_to(second, second_outcome, last),
    ensures
        middle is Second <==> first_outcome is Ok,
        first_outcome is Err ==> last == middle && (middle matches WriteStep::Failed(e)
            && first.fails_with(first_outcome->Err_0@, e)),
        first_outcome is Ok && second_outcome is Err ==> (last matches WriteStep::Failed(e)
            && second.fails_with(second_outcome->Err_0@, e)),
        last is Done <==> first_outcome is Ok && second_outcome is Ok,
        last.ended(),
{
}

/// How a fan speed is set, by [`WriteStep`]: the mode is the first write, then [`fan_duty`] and
/// [`pwm_write`] turn the speed into the second.
#[derive(Debug)]
pub struct SpeedPlan {
    pub mode: SysfsWrite,
    pub speed_pct: Formula,
}

/// What the driver's file for the fan mode is to hold: 2 for its own control, 1 for the
/// program's.
pub open spec fn enable_text(mode: FanMode) -> Seq<char> {
    match mode {
        FanMode::Auto => "2"@,
        _ => "1"@,
    }
}

/// What the program remembers of a fan mode: nothing of the driver's own.
pub open spec fn override_of(mode: FanMode) -> Option<FanMode> {
    match mode {
        FanMode::Auto => None,
        _ => Some(mode),
    }
}

pub open spec fn sets_mode(write: SysfsWrite, mode: FanMode) -> bool {
    write.says(ControlFile::Pwm1Enable, enable_text(mode), "write pwm1_enable"@)
}

pub open spec fn fan_denied(e: ControlError) -> bool {
    e is PermissionDenied && e.detail() == "fan control not writable (need root?)"@
}

pub open spec fn invalid(e: ControlError, detail: Seq<char>) -> bool {
    e is InvalidValue && e.detail() == detail
}

/// Why a power cap is not set.
#[derive(Debug)]
pub enum PowerCapRefusal {
    Denied(ControlError),
    /// The value lies outside the range from `min_watts` to `max_watts`.
    OutOfRange { min_watts: Double, max_watts: Double },
}

/// The least power cap: the given one, or zero.
pub open spec fn is_least(watts: Double, min_watts: Option<Double>) -> bool {
    match min_watts {
        Some(w) => watts == w,
        None => watts.is_whole(0),
    }
}

/// The greatest power cap: the given one, or the largest number there is.
pub open spec fn is_greatest(watts: Double, max_watts: Option<Double>) -> bool {
    match max_watts {
        Some(w) => watts == w,
        None => watts.bits == LARGEST_BITS,
    }
}

/// Whether the power is a number below the least cap.
pub open spec fn below_least(watts: Double, min_watts: Option<Double>) -> bool {
    match min_watts {
        Some(w) => watts.lt(w),
        None => !watts.nan() && watts.units() < 0,
    }
}

/// Whether the power is a number above the greatest cap.
pub open spec fn above_greatest(watts: Double, max_watts: Option<Double>) -> bool {
    match max_watts {
        Some(w) => w.lt(watts),
        None => (Double { bits: LARGEST_BITS }).lt(watts),
    }
}

/// The duty cycle at full speed: what its file holds, or 255.
pub open spec fn duty_max_in(content: Option<String>) -> u64 {
    match number_in(content) {
        Some(n) => n,
        None => 255,
    }
}

/// The duty cycle for a speed in percent: its part of the greatest one, rounded.
pub open spec fn duty(speed_pct: Formula, max: u64) -> Formula {
    speed_pct.over(Formula::Int(100)).times(Formula::Int(max)).rounded()
}

impl AmdState {
    /// The speed in percent that the curve asks for, in curve mode. From 95 degrees on the fan
    /// runs at full speed whatever the curve says.
    pub open spec fn tick_speed(self, current_temp_c: Option<Double>) -> Option<Formula> {
        if self.fan_mode_override != Some(FanMode::Curve) {
            None
        } else {
            match current_temp_c {
                Some(temp_c) => if temp_c.at_least(95) {
                    Some(Formula::Int(100))
                } else {
                    Some(curve_speed(self.fan_curve, temp_c))
                },
                None => None,
            }
        }
    }
}

impl AmdSource {
    /// Hands the fan to the driver or takes it over. The card remembers the mode; the write
    /// tells the driver.
    pub fn set_fan_mode(&mut self, mode: FanMode) -> (r: Result<SysfsWrite, ControlError>)
        ensures
            final(self)@.wf(),
            r is Ok <==> old(self)@.fan_control_writable,
            r is Err ==> final(self)@ == old(self)@ && fan_denied(r->Err_0),
            r is Ok ==> sets_mode(r->Ok_0, mode) && final(self)@ == (AmdState {
                fan_mode_override: override_of(mode),
                ..old(self)@
            }),
    {
        proof {
            use_type_invariant(&*self);
        }
        if !self.fan_control_writable {
            return Err(
                ControlError::PermissionDenied("fan control not writable (need root?)".to_owned()),
            );
        }
        let text: String = match mode {
            FanMode::Auto => {
                self.fan_mode_override = None;
                "2".to_owned()
            },
            FanMode::Manual => {
                self.fan_mode_override = Some(FanMode::Manual);
                "1".to_owned()
            },
            FanMode::Curve => {
                self.fan_mode_override = Some(FanMode::Curve);
                "1".to_owned()
            },
        };
        Ok(
            SysfsWrite {
                file: ControlFile::Pwm1Enable,
                text,
                purpose: "write pwm1_enable".to_owned(),
            },
        )
    }

    /// Accepts a fan speed from 0 to 100 percent and switches to manual mode.
    pub fn set_fan_speed(&mut self, pct: Double) -> (r: Result<SpeedPlan, ControlError>)
        ensures
            final(self)@.wf(),
            r is Ok <==> old(self)@.fan_control_writable && pct.between(0, 100),
            r is Err ==> final(self)@ == old(self)@ && if !old(self)@.fan_control_writable {
                fan_denied(r->Err_0)
            } else {
                invalid(r->Err_0, "fan speed must be 0-100%"@)
            },
            r is Ok ==> {
                &&& sets_mode(r->Ok_0.mode, FanMode::Manual)
                &&& r->Ok_0.speed_pct == Formula::Value(pct)
                &&& final(self)@ == (AmdState {
                    fan_mode_override: Some(FanMode::Manual),
                    ..old(self)@
                })
            },
    {
        proof {
            use_type_invariant(&*self);
        }
        if !self.fan_control_writable {
            return Err(
                ControlError::PermissionDenied("fan control not writable (need root?)".to_owned()),
            );
        }
        if !pct.in_range(0, 100) {
            return Err(ControlError::InvalidValue("fan speed must be 0-100%".to_owned()));
        }
        match self.set_fan_mode(FanMode::Manual) {
            Ok(mode) => Ok(SpeedPlan { mode, speed_pct: Formula::Value(pct) }),
            Err(e) => Err(e),
        }
    }

    /// Takes a fan curve, sorted by temperature, and switches to curve mode.
    pub fn set_fan_curve(&mut self, curve: Vec<CurvePoint>) -> (r: Result<SysfsWrite, ControlError>)
        ensures
            final(self)@.wf(),
            r is Ok <==> {
                &&& old(self)@.fan_control_writable
                &&& curve.len() > 0
                &&& forall|i: int| 0 <= i < curve.len() ==> in_bounds(#[trigger] curve[i])
            },
            r is Err ==> final(self)@ == old(self)@ && if !old(self)@.fan_control_writable {
                fan_denied(r->Err_0)
            } else if curve.len() == 0 {
                invalid(r->Err_0, "curve must have at least one point"@)
            } else {
                curve_fault(by_temperature(curve@), 0) is Some && invalid(
                    r->Err_0,
                    curve_fault(by_temperature(curve@), 0)->Some_0,
                )
            },
            r is Ok ==> {
                &&& sets_mode(r->Ok_0, FanMode::Curve)
                &&& final(self)@ == (AmdState {
                    fan_curve: by_temperature(curve@),
                    fan_mode_override: Some(FanMode::Curve),
                    ..old(self)@
                })
            },
    {
        proof {
            use_type_invariant(&*self);
        }
        if !self.fan_control_writable {
            return Err(
                ControlError::PermissionDenied("fan control not writable (need root?)".to_owned()),
            );
        }
        if curve.len() == 0 {
            return Err(ControlError::InvalidValue("curve must have at least one point".to_owned()));
        }
        let points: Vec<CurvePoint> = sort_by_temperature(curve.as_slice());
        proof {
            lemma_sorted_bounds(curve@);
        }
        match check_curve(&points) {
            Ok(_) => {},
            Err(e) => {
                return Err(e);
            },
        }
        self.fan_curve = points;
        self.set_fan_mode(FanMode::Curve)
    }

    /// Accepts a power cap within the limits that the card gives, both in watts. The result is
    /// the cap in microwatts, for [`power_cap_write`].
    pub fn set_power_cap(
        &self,
        watts: Double,
        min_watts: Option<Double>,
        max_watts: Option<Double>,
    ) -> (r: Result<Count, PowerCapRefusal>)
        ensures
            r is Ok <==> self@.power_cap_writable && !below_least(watts, min_watts)
                && !above_greatest(watts, max_watts),
            r is Ok ==> self@.power_cap_writable,
            r is Ok ==> (max_watts matches Some(w) ==> watts.nan() || w.nan() || watts.le(w)),
            r is Ok ==> (min_watts matches Some(w) ==> watts.nan() || w.nan() || w.le(watts)),
            r is Ok && max_watts is None ==> watts.nan() || watts.le(Double { bits: LARGEST_BITS }),
            r is Ok && min_watts is None ==> watts.nan() || watts.at_least(0),
            self@.power_cap_writable && (match min_watts {
                Some(w) => watts.nan() || w.nan() || w.le(watts),
                None => watts.nan() || watts.at_least(0),
            }) && (match max_watts {
                Some(w) => watts.nan() || w.nan() || watts.le(w),
                None => watts.nan() || watts.le(Double { bits: LARGEST_BITS }),
            }) ==> r is Ok,
            match r {
                Ok(microwatts) => microwatts == Count::Truncated(
                    Formula::Value(watts).times(Formula::Int(1_000_000)),
                ),
                Err(PowerCapRefusal::Denied(e)) => {
                    &&& !self@.power_cap_writable
                    &&& e is PermissionDenied
                    &&& e.detail() == "power cap not writable (need root?)"@
                },
                Err(PowerCapRefusal::OutOfRange { min_watts: least, max_watts: greatest }) => {
                    &&& self@.power_cap_writable
                    &&& is_least(least, min_watts)
                    &&& is_greatest(greatest, max_watts)
                },
            },
    {
        if !self.power_cap_writable {
            return Err(
                PowerCapRefusal::Denied(
                    ControlError::PermissionDenied(
                        "power cap not writable (need root?)".to_owned(),
                    ),
                ),
            );
        }
        let least: Double = match min_watts {
            Some(w) => w,
            None => Double::whole(0),
        };
        let greatest: Double = match max_watts {
            Some(w) => w,
            None => Double { bits: LARGEST_BITS },
        };
        if watts.less(least) || greatest.less(watts) {
            return Err(PowerCapRefusal::OutOfRange { min_watts: least, max_watts: greatest });
        }
        Ok(Count::Truncated(Formula::Value(watts).times(Formula::Int(1_000_000))))
    }

    /// Accepts a voltage offset from -250 to 250 millivolts. By [`WriteStep`], the first write
    /// gives it, and the second one puts it into effect.
    pub fn set_voltage_offset(&self, mv: i32) -> (r: Result<
        (SysfsWrite, SysfsWrite),
        ControlError,
    >)
        ensures
            r is Ok <==> self@.voltage_offset_writable && -250 <= mv <= 250,
            r is Err ==> if !self@.voltage_offset_writable {
                r->Err_0 is PermissionDenied && r->Err_0.detail()
                    == "voltage offset not writable (need root and amdgpu.ppfeaturemask?)"@
            } else {
                invalid(r->Err_0, "voltage offset must be between -250 and +250 mV"@)
            },
            r is Ok ==> {
                &&& r->Ok_0.0.says(
                    ControlFile::PpOdClkVoltage,
                    "vo "@ + decimal_form(mv as int),
                    "write voltage offset"@,
                )
                &&& r->Ok_0.1.says(ControlFile::PpOdClkVoltage, "c"@, "commit voltage offset"@)
                &&& r->Ok_0.0.text@ == "vo "@ + decimal_form(mv as int)
                &&& r->Ok_0.1.text@ == "c"@
            },
    {
        if !self.voltage_offset_writable {
            return Err(
                ControlError::PermissionDenied(
                    "voltage offset not writable (need root and amdgpu.ppfeaturemask?)".to_owned(),
                ),
            );
        }
        if mv < -250 || mv > 250 {
            return Err(
                ControlError::InvalidValue(
                    "voltage offset must be between -250 and +250 mV".to_owned(),
                ),
            );
        }
        Ok(
            (
                SysfsWrite {
                    file: ControlFile::PpOdClkVoltage,
                    text: joined("vo ", format_signed(mv).as_str()),
                    purpose: "write voltage offset".to_owned(),
                },
                SysfsWrite {
                    file: ControlFile::PpOdClkVoltage,
                    text: "c".to_owned(),
                    purpose: "commit voltage offset".to_owned(),
                },
            ),
        )
    }

    /// Called each tick: the speed in percent to apply, if the fan is in curve mode and the
    /// temperature is known. [`fan_duty`] and [`pwm_write`] set it.
    pub fn apply_curve_tick(&self, current_temp_c: Option<Double>) -> (r: Option<Formula>)
        ensures
            r == self@.tick_speed(current_temp_c),
    {
        match self.fan_mode_override {
            Some(FanMode::Curve) => {},
            _ => {
                return None;
            },
        }
        match current_temp_c {
            Some(temp_c) => if Double::whole(95).at_most(temp_c) {
                Some(Formula::Int(100))
            } else {
                Some(evaluate_fan_curve(self.fan_curve.as_slice(), temp_c))
            },
            None => None,
        }
    }

    /// A stable identifier of the card: the path of its device.
    pub fn gpu_id(&self) -> (r: Option<String>)
        ensures
            r matches Some(id) && id@ == self@.card_path,
    {
        Some(self.card_path.clone())
    }
}

/// The duty cycle for a speed in percent, given the file with the greatest one.
pub fn fan_duty(speed_pct: Formula, pwm1_max: &Option<String>) -> (r: Count)
    ensures
        r == Count::Truncated(duty(speed_pct, duty_max_in(*pwm1_max))),
{
    let max: u64 = match read_sysfs_u64(pwm1_max) {
        Some(n) => n,
        None => 255,
    };
    Count::Truncated(speed_pct.over(Formula::Int(100)).times(Formula::Int(max)).rounded())
}

/// The write that sets the fan's duty cycle.
pub fn pwm_write(value: u64) -> (r: SysfsWrite)
    ensures
        r.says(ControlFile::Pwm1, decimal_form(value as int), "write pwm1"@),
        r.file == ControlFile::Pwm1,
        r.text@ == decimal_form(value as int),
{
    SysfsWrite {
        file: ControlFile::Pwm1,
        text: format_unsigned(value),
        purpose: "write pwm1".to_owned(),
    }
}

/// A limit of the power cap in watts, from what its file holds, in millionths of a watt.
pub fn power_limit(microwatts: Option<Double>) -> (r: Option<Formula>)
    ensures
        r == watts(microwatts),
{
    scaled_by(microwatts, 1_000_000)
}

/// The write that sets the power cap.
pub fn power_cap_write(microwatts: u64) -> (r: SysfsWrite)
    ensures
        r.says(ControlFile::Power1Cap, decimal_form(microwatts as int), "write power1_cap"@),
        r.file == ControlFile::Power1Cap,
        r.text@ == decimal_form(microwatts as int),
{
    SysfsWrite {
        file: ControlFile::Power1Cap,
        text: format_unsigned(microwatts),
        purpose: "write power1_cap".to_owned(),
    }
}

/// The error for a power cap outside the limits, which are given in decimal form.
pub fn power_cap_range_error(min_watts: &str, max_watts: &str) -> (r: ControlError)
    ensures
        invalid(r, "power cap must be between "@ + min_watts@ + " and "@ + max_watts@ + " W"@),
{
    let mut text: String = joined("power cap must be between ", min_watts);
    text.append(" and ");
    text.append(max_watts);
    text.append(" W");
    ControlError::InvalidValue(text)
}

proof fn lemma_same_members(a: Seq<CurvePoint>, b: Seq<CurvePoint>)
    requires
        a.to_multiset() == b.to_multiset(),
    ensures
        a.len() == b.len(),
        (forall|i: int| 0 <= i < b.len() ==> in_bounds(#[trigger] b[i])) ==> forall|i: int|
            0 <= i < a.len() ==> in_bounds(#[trigger] a[i]),
{
    broadcast use vstd::seq_lib::group_to_multiset_ensures;

    vstd::seq_lib::to_multiset_len(a);
    vstd::seq_lib::to_multiset_len(b);
    if forall|i: int| 0 <= i < b.len() ==> in_bounds(#[trigger] b[i]) {
        assert forall|i: int| 0 <= i < a.len() implies in_bounds(#[trigger] a[i]) by {
            assert(a.to_multiset().count(a[i]) > 0);
            assert(b.contains(a[i]));
            let j = choose|j: int| 0 <= j < b.len() && b[j] == a[i];
            assert(in_bounds(b[j]));
        }
    }
}

proof fn lemma_sorted_bounds(curve: Seq<CurvePoint>)
    ensures
        by_temperature(curve).len() == curve.len(),
        (forall|i: int| 0 <= i < curve.len() ==> in_bounds(#[trigger] curve[i])) <==> (forall|i: int|
            0 <= i < by_temperature(curve).len() ==> in_bounds(#[trigger] by_temperature(curve)[i])),
        (forall|i: int| 0 <= i < curve.len() ==> in_bounds(#[trigger] curve[i])) ==> sorted(
            by_temperature(curve),
        ),
{
    law_sorting_keeps_points(curve);
    lemma_same_members(curve, by_temperature(curve));
    lemma_same_members(by_temperature(curve), curve);
    if forall|i: int| 0 <= i < curve.len() ==> in_bounds(#[trigger] curve[i]) {
        law_sorting_is_stable(curve, 0);
    }
}

// ---- Reporting ----

/// What the files behind the settings held at one moment; power in millionths of a watt.
#[derive(Debug)]
pub struct ControlReadings {
    pub pwm1_enable: Option<String>,
    pub pwm1: Option<String>,
    pub pwm1_max: Option<String>,
    pub power1_cap: Option<Double>,
    pub power1_cap_min: Option<Double>,
    pub power1_cap_max: Option<Double>,
    pub power1_cap_default: Option<Double>,
    pub pp_od_clk_voltage: Option<String>,
}

/// The fan mode that the driver reports: manual, or one of its own.
pub open spec fn driver_mode_in(pwm1_enable: Option<String>) -> Option<FanMode> {
    match number_in(pwm1_enable) {
        Some(1) => Some(FanMode::Manual),
        Some(_) => Some(FanMode::Auto),
        None => None,
    }
}

/// The fan mode that is reported: the one that the program set itself, or the one that the driver
/// reports.
pub open spec fn shown_mode(
    own_mode: Option<FanMode>,
    pwm1_enable: Option<String>,
) -> Option<FanMode> {
    if own_mode is Some {
        own_mode
    } else {
        driver_mode_in(pwm1_enable)
    }
}

/// The speed in percent that a duty cycle amounts to, to one decimal place.
pub open spec fn speed_in(pwm1: Option<String>, pwm1_max: Option<String>) -> Option<Formula> {
    match number_in(pwm1) {
        Some(pwm) => Some(
            Formula::Int(pwm).over(Formula::Int(duty_max_in(pwm1_max))).times(
                Formula::Int(100),
            ).to_tenths(),
        ),
        None => None,
    }
}

fn copy_points(points: &Vec<CurvePoint>) -> (r: Vec<CurvePoint>)
    ensures
        r@ == points@,
{
    let mut r: Vec<CurvePoint> = Vec::new();
    let mut i: usize = 0;
    while i < points.len()
        invariant
            i <= points.len(),
            r@ == points@.take(i as int),
        decreases points.len() - i,
    {
        r.push(points[i]);
        i = i + 1;
    }
    r
}

impl AmdState {
    /// Whether this is the state of the settings, with the files behind them as read. The mode that
    /// the program set itself goes before the one that the driver reports; a manual speed is
    /// reported only where the driver is in manual mode.
    pub open spec fn shows(self, readings: ControlReadings, r: ControlInfo) -> bool {
        &&& r.fan_control_available == self.fan_control_writable
        &&& r.fan_mode == shown_mode(self.fan_mode_override, readings.pwm1_enable)
        &&& r.fan_manual_speed_pct == if driver_mode_in(readings.pwm1_enable) == Some(
            FanMode::Manual,
        ) {
            speed_in(readings.pwm1, readings.pwm1_max)
        } else {
            None
        }
        &&& r.fan_curve matches Some(points) && points@ == self.fan_curve
        &&& r.power_cap_available == self.power_cap_writable
        &&& r.power_cap_watts == watts(readings.power1_cap)
        &&& r.power_cap_min_watts == watts(readings.power1_cap_min)
        &&& r.power_cap_max_watts == watts(readings.power1_cap_max)
        &&& r.power_cap_default_watts == watts(readings.power1_cap_default)
        &&& r.voltage_offset_available == self.voltage_offset_writable
        &&& r.voltage_offset_mv == voltage_offset_of(readings.pp_od_clk_voltage)
    }
}

impl AmdSource {
    /// The state of the settings, with the files behind them as read.
    pub fn get_control_info(&self, readings: &ControlReadings) -> (r: ControlInfo)
        ensures
            self@.shows(*readings, r),
            self@.wf(),
            r.fan_curve matches Some(points) && points@ == self@.fan_curve,
            r.fan_control_available == self@.fan_control_writable,
            r.power_cap_available == self@.power_cap_writable,
            r.voltage_offset_available == self@.voltage_offset_writable,
            r.voltage_offset_mv == voltage_offset_of(readings.pp_od_clk_voltage),
            r.power_cap_watts == watts(readings.power1_cap),
            r.power_cap_min_watts == watts(readings.power1_cap_min),
            r.power_cap_max_watts == watts(readings.power1_cap_max),
            r.power_cap_default_watts == watts(readings.power1_cap_default),
            r.fan_manual_speed_pct is Some <==> number_in(readings.pwm1_enable) == Some(1u64)
                && number_in(readings.pwm1) is Some,
    {
        proof {
            use_type_invariant(self);
        }
        let driver_mode: Option<FanMode> = match read_sysfs_u64(&readings.pwm1_enable) {
            Some(n) => if n == 1 {
                Some(FanMode::Manual)
            } else {
                Some(FanMode::Auto)
            },
            None => None,
        };
        let fan_mode: Option<FanMode> = match self.fan_mode_override {
            Some(mode) => Some(mode),
            None => driver_mode,
        };
        let manual_speed: Option<Formula> = match driver_mode {
            Some(FanMode::Manual) => match read_sysfs_u64(&readings.pwm1) {
                Some(pwm) => {
                    let max: u64 = match read_sysfs_u64(&readings.pwm1_max) {
                        Some(n) => n,
                        None => 255,
                    };
                    let part: Formula = Formula::Int(pwm).over(Formula::Int(max));
                    Some(part.times(Formula::Int(100)).to_tenths())
                },
                None => None,
            },
            _ => None,
        };
        ControlInfo {
            fan_control_available: self.fan_control_writable,
            fan_mode,
            fan_manual_speed_pct: manual_speed,
            fan_curve: Some(copy_points(&self.fan_curve)),
            power_cap_available: self.power_cap_writable,
            power_cap_watts: scaled_by(readings.power1_cap, 1_000_000),
            power_cap_min_watts: scaled_by(readings.power1_cap_min, 1_000_000),
            power_cap_max_watts: scaled_by(readings.power1_cap_max, 1_000_000),
            power_cap_default_watts: scaled_by(readings.power1_cap_default, 1_000_000),
            voltage_offset_available: self.voltage_offset_writable,
            voltage_offset_mv: read_voltage_offset(&readings.pp_od_clk_voltage),
        }
    }
}

// ---- What holds of every card ----

proof fn lemma_no_fault(curve: Seq<CurvePoint>, i: int)
    requires
        0 <= i,
        forall|j: int| 0 <= j < curve.len() ==> in_bounds(#[trigger] curve[j]),
    ensures
        curve_fault(curve, i) is None,
    decreases curve.len() - i,
{
    if i < curve.len() {
        assert(in_bounds(curve[i]));
        lemma_no_fault(curve, i + 1);
    }
}

proof fn lemma_sorted_stays(curve: Seq<CurvePoint>)
    requires
        sorted(curve),
    ensures
        by_temperature(curve) == curve,
    decreases curve.len(),
{
    if curve.len() > 0 {
        let rest = curve.drop_last();
        assert forall|i: int, j: int| 0 <= i <= j < rest.len() implies (
        #[trigger] rest[i]).temp_c.le((#[trigger] rest[j]).temp_c) by {
            assert(curve[i].temp_c.le(curve[j].temp_c));
        }
        lemma_sorted_stays(rest);
        if rest.len() > 0 {
            assert(curve[curve.len() - 2].temp_c.le(curve[curve.len() - 1].temp_c));
        }
        assert(rest.push(curve.last()) =~= curve);
    }
}

/// A curve that a card holds is one that it takes back unchanged: saving it and setting it again
/// loses nothing.
pub proof fn law_held_curve_is_taken_back(card: AmdState)
    requires
        card.wf(),
    ensures
        by_temperature(card.fan_curve) == card.fan_curve,
        curve_fault(card.fan_curve, 0) is None,
{
    lemma_sorted_stays(card.fan_curve);
    lemma_no_fault(card.fan_curve, 0);
}

/// A mode that has been set is the mode that is reported, once the driver's file holds what was
/// written to it.
pub proof fn law_mode_reads_back(content: String, mode: FanMode, tail: Seq<char>)
    requires
        content@ == enable_text(mode) + tail,
        forall|i: int| 0 <= i < tail.len() ==> white(#[trigger] tail[i]),
    ensures
        shown_mode(override_of(mode), Some(content)) == Some(mode),
        driver_mode_in(Some(content)) == Some(
            if mode == FanMode::Auto {
                FanMode::Auto
            } else {
                FanMode::Manual
            },
        ),
{
    reveal_strlit("1");
    reveal_strlit("2");
    if mode == FanMode::Auto {
        assert(enable_text(mode) =~= decimal_form(2));
        law_number_reads_back(content, 2, tail);
    } else {
        assert(enable_text(mode) =~= decimal_form(1));
        law_number_reads_back(content, 1, tail);
    }
}

/// In exact arithmetic, a fan speed that has been set is the speed that is reported, to within
/// half a step of the duty cycle and half a tenth of a percent.
pub proof fn law_speed_reads_back(
    speed_pct: Formula,
    pwm1: Option<String>,
    pwm1_max: Option<String>,
    n: u64,
)
    requires
        duty_max_in(pwm1_max) > 0,
        Count::Truncated(duty(speed_pct, duty_max_in(pwm1_max))).counts(n),
        number_in(pwm1) == Some(n),
    ensures
        ({
            let slack = 50 as real / duty_max_in(pwm1_max) as real + 1 as real / 20 as real;
            speed_in(pwm1, pwm1_max) matches Some(shown) && speed_pct.value() - slack
                <= shown.value() <= speed_pct.value() + slack
        }),
{
    reveal_with_fuel(Formula::value, 6);
    let max = duty_max_in(pwm1_max);
    let (s, m, d) = (speed_pct.value(), max as real, n as real);
    let part = s / 100 as real * m;
    law_rounding_is_near(part);
    assert(duty(speed_pct, max).value() == round_half_away(part) as real);
    assert(round_half_away(part) == n as int);
    let back = d / m * 100 as real;
    assert(s - 50 as real / m <= back <= s + 50 as real / m) by (nonlinear_arith)
        requires
            m > 0 as real,
            part == s / 100 as real * m,
            part - 1 as real / 2 as real <= d <= part + 1 as real / 2 as real,
            back == d / m * 100 as real,
    ;
    let tens = back * 10 as real;
    law_rounding_is_near(tens);
    let rounded = round_half_away(tens) as real;
    assert(back - 1 as real / 20 as real <= rounded / 10 as real <= back + 1 as real
        / 20 as real) by (nonlinear_arith)
        requires
            tens == back * 10 as real,
            tens - 1 as real / 2 as real <= rounded <= tens + 1 as real / 2 as real,
    ;
}

/// In exact arithmetic, a duty cycle within its maximum is reported as a speed from 0 to 100
/// percent.
pub proof fn law_manual_speed_is_a_percentage(
    pwm1: Option<String>,
    pwm1_max: Option<String>,
    n: u64,
)
    requires
        number_in(pwm1) == Some(n),
        n <= duty_max_in(pwm1_max),
        duty_max_in(pwm1_max) > 0,
    ensures
        speed_in(pwm1, pwm1_max) matches Some(shown) && 0 as real <= shown.value() <= 100 as real,
{
    reveal_with_fuel(Formula::value, 6);
    let (d, m) = (n as real, duty_max_in(pwm1_max) as real);
    let tens = d / m * 100 as real * 10 as real;
    assert(0 as real <= tens <= 1000 as real) by (nonlinear_arith)
        requires
            0 as real <= d <= m,
            m > 0 as real,
            tens == d / m * 100 as real * 10 as real,
    ;
    law_rounding_keeps_integers(tens, 0, 1000);
    let rounded = round_half_away(tens) as real;
    assert(0 as real <= rounded / 10 as real <= 100 as real) by (nonlinear_arith)
        requires
            0 as real <= rounded <= 1000 as real,
    ;
}

/// In exact arithmetic, once the driver's files hold what setting a fan speed wrote, the mode is
/// reported as manual and the speed as a percentage: with a greatest duty cycle of 255, which is
/// also taken where its file cannot be read, within a quarter of a percent of the speed that was
/// set.
pub proof fn law_set_speed_is_reported(
    card: AmdState,
    pct: Double,
    n: u64,
    readings: ControlReadings,
    tail: Seq<char>,
    r: ControlInfo,
)
    requires
        card.fan_mode_override == Some(FanMode::Manual),
        pct.between(0, 100),
        readings.pwm1_enable matches Some(text) && text@ == enable_text(FanMode::Manual) + tail,
        forall|i: int| 0 <= i < tail.len() ==> white(#[trigger] tail[i]),
        duty_max_in(readings.pwm1_max) > 0,
        Count::Truncated(duty(Formula::Value(pct), duty_max_in(readings.pwm1_max))).counts(n),
        number_in(readings.pwm1) == Some(n),
        card.shows(readings, r),
    ensures
        r.fan_mode == Some(FanMode::Manual),
        r.fan_manual_speed_pct matches Some(shown) && 0 as real <= shown.value() <= 100 as real,
        duty_max_in(readings.pwm1_max) == 255 ==> pct.value() - 1 as real / 4 as real
            <= r.fan_manual_speed_pct->Some_0.value() <= pct.value() + 1 as real / 4 as real,
{
    let max = duty_max_in(readings.pwm1_max);
    law_mode_reads_back(readings.pwm1_enable->Some_0, FanMode::Manual, tail);
    law_whole_bounds(pct, 0, 100);
    assert(Formula::Value(pct).value() == pct.value());
    law_duty_in_range(Formula::Value(pct), max);
    law_manual_speed_is_a_percentage(readings.pwm1, readings.pwm1_max, n);
    law_speed_reads_back(Formula::Value(pct), readings.pwm1, readings.pwm1_max, n);
    assert(50 as real / 255 as real + 1 as real / 20 as real <= 1 as real / 4 as real)
        by (nonlinear_arith);
}

/// In exact arithmetic, a power cap that has been set is the cap that is reported, to within a
/// microwatt.
pub proof fn law_power_cap_reads_back(cap: Double, n: u64, held: Double)
    requires
        Count::Truncated(Formula::Value(cap).times(Formula::Int(1_000_000))).counts(n),
        held.value() == n as real,
    ensures
        watts(Some(held)) matches Some(shown) && cap.value() - (1 as real
            / 1_000_000 as real) < shown.value() <= cap.value(),
{
    reveal_with_fuel(Formula::value, 3);
    let (w, d) = (cap.value(), n as real);
    assert(w - (1 as real / 1_000_000 as real) < d / 1_000_000 as real <= w) by (nonlinear_arith)
        requires
            d <= w * (1_000_000 as real) < d + 1 as real,
    ;
}

/// At 95 degrees and above a fan in curve mode runs at full speed, whatever the curve says.
pub proof fn law_critical_temperature(card: AmdState, temp_c: Double)
    requires
        card.fan_mode_override == Some(FanMode::Curve),
        temp_c.at_least(95),
    ensures
        card.tick_speed(Some(temp_c)) == Some(Formula::Int(100)),
{
}

/// In exact arithmetic, a fan in curve mode is asked for a speed from 0 to 100 percent.
pub proof fn law_curve_speed_is_a_percentage(card: AmdState, temp_c: Double)
    requires
        card.wf(),
        !temp_c.nan(),
    ensures
        card.tick_speed(Some(temp_c)) matches Some(speed) ==> 0 as real <= speed.value()
            <= 100 as real,
{
    let curve = card.fan_curve;
    assert forall|i: int| 0 <= i < curve.len() implies 0 as real <= (
    #[trigger] curve[i]).speed_pct.value() <= 100 as real by {
        assert(in_bounds(curve[i]));
        law_whole_bounds(curve[i].speed_pct, 0, 100);
    }
    law_curve_stays_in_range(curve, temp_c, 0 as real, 100 as real);
}

/// In exact arithmetic, a speed from 0 to 100 percent needs a duty cycle from zero to the
/// greatest one.
pub proof fn law_duty_in_range(speed_pct: Formula, max: u64)
    requires
        0 as real <= speed_pct.value() <= 100 as real,
    ensures
        0 as real <= duty(speed_pct, max).value() <= max as real,
{
    reveal_with_fuel(Formula::value, 4);
    let (s, m) = (speed_pct.value(), max as real);
    let part = s / 100 as real * m;
    assert(0 as real <= part <= m) by (nonlinear_arith)
        requires
            0 as real <= s <= 100 as real,
            m >= 0 as real,
            part == s / 100 as real * m,
    ;
    law_rounding_keeps_integers(part, 0, max as int);
}

/// In exact arithmetic, a fan within its maximum is reported at 0 to 100 percent.
pub proof fn law_fan_percentage(input: Option<String>, max: Option<String>)
    requires
        number_in(input) is Some,
        low_half(number_in(input)->Some_0) <= fan_max_in(max),
    ensures
        fan_in(input, max) matches Some(fan) && 0 as real <= fan.speed_pct.value() <= 100 as real,
{
    reveal_with_fuel(Formula::value, 6);
    let fan = fan_in(input, max)->Some_0;
    let (rpm, max_rpm) = (low_half(number_in(input)->Some_0) as real, fan.max_rpm as real);
    let tens = if fan.max_rpm > 0 {
        rpm / max_rpm * 100 as real * 10 as real
    } else {
        0 as real
    };
    if fan.max_rpm > 0 {
        assert(0 as real <= tens <= 1000 as real) by (nonlinear_arith)
            requires
                0 as real <= rpm <= max_rpm,
                max_rpm > 0 as real,
                tens == rpm / max_rpm * 100 as real * 10 as real,
        ;
    }
    law_rounding_keeps_integers(tens, 0, 1000);
    let rounded = round_half_away(tens) as real;
    assert(0 as real <= rounded / 10 as real <= 100 as real) by (nonlinear_arith)
        requires
            0 as real <= rounded <= 1000 as real,
    ;
    assert(0 as real * 10 as real == 0 as real) by (nonlinear_arith);
    assert(fan.speed_pct.value() == rounded / 10 as real);
}

} // verus!
