//! NVIDIA cards, by what the management library and the driver's own interface report.
use crate::formula::{exact, exact_clock, exactly, exactly_clock, Count, Formula};
use crate::gpu_data::{FanData, GpuSnapshot, GpuVendor, Temperatures};
use crate::sysfs::{SourceError, MEBIBYTE};
use vstd::arithmetic::power2::{lemma2_to64, lemma_pow2_adds, pow2};
use vstd::layout::{size_of, size_of_as_usize};
use vstd::prelude::*;

verus! {

/// The slot of the hot spot's temperature among the driver's thermal readings.
pub const NVAPI_SENSOR_HOTSPOT: usize = 9;

/// The slot of the memory's temperature among the driver's thermal readings.
pub const NVAPI_SENSOR_VRAM: usize = 15;

/// The driver's thermal readings, in 256ths of a degree.
#[derive(Debug)]
pub struct NvApiThermals {
    pub values: [i32; 40],
}

impl NvApiThermals {
    /// The whole degrees of a slot, if they are above 0 and below 255.
    pub open spec fn temp(self, index: int) -> Option<Formula> {
        if 0 <= index < 40 && 256 <= self.values@[index] < 255 * 256 {
            Some(Formula::Int((self.values@[index] as int / 256) as u64))
        } else {
            None
        }
    }

    /// Extracts a temperature from a raw sensor slot. Raw values are fixed-point; readings that
    /// are out of range are rejected.
    pub fn get_temp(&self, index: usize) -> (r: Option<Formula>)
        ensures
            r == self.temp(index as int),
    {
        if index >= 40 {
            return None;
        }
        let value: i32 = self.values[index];
        if value < 256 {
            return None;
        }
        let degrees: u32 = value as u32 / 256;
        if degrees < 255 {
            Some(Formula::Int(degrees as u64))
        } else {
            None
        }
    }
}

/// The tag that the driver's interface wants in its structures: the low 16 bits give the size,
/// the high 16 bits the version.
pub fn nvapi_version<T>(v: usize) -> (r: u32)
    ensures
        r == (size_of_as_usize::<T>() | (v << 16)) as u32,
        size_of::<T>() < 0x1_0000 && v < 0x1_0000 ==> r == size_of::<T>() + v * 0x1_0000,
{
    let size: usize = std::mem::size_of::<T>();
    assert(size < 0x1_0000 && v < 0x1_0000 ==> (size | (v << 16)) as u32 == size + v * 0x1_0000)
        by (bit_vector);
    (size | (v << 16)) as u32
}

// ---- Finding the device and its sensors ----

/// How far the driver's own interface has been taken into use. Each step makes one call; where a
/// function is not offered or its call is refused, the interface cannot be used.
#[derive(Clone, Copy, Debug, PartialEq, Eq, Structural)]
pub enum NvApiStep {
    Initialize,
    /// List the handles of the cards.
    Enumerate,
    /// Ask the handles for their buses.
    FindBus,
    /// Read the first sensor.
    ProbeThermals,
    Ready,
    Unavailable,
}

impl NvApiStep {
    pub open spec fn ended(self) -> bool {
        self == NvApiStep::Ready || self == NvApiStep::Unavailable
    }

    /// Whether the step's call went well: it gave zero, and listing gave a handle as well. For the
    /// buses it is enough that they can be asked for.
    pub open spec fn went_well(self, status: Option<i32>, count: u32) -> bool {
        match self {
            NvApiStep::Enumerate => status == Some(0i32) && count > 0,
            NvApiStep::FindBus => status is Some,
            _ => status == Some(0i32),
        }
    }

    /// The step that follows.
    pub open spec fn follower(self, status: Option<i32>, count: u32) -> NvApiStep {
        if self.ended() {
            self
        } else if !self.went_well(status, count) {
            NvApiStep::Unavailable
        } else {
            match self {
                NvApiStep::Initialize => NvApiStep::Enumerate,
                NvApiStep::Enumerate => NvApiStep::FindBus,
                NvApiStep::FindBus => NvApiStep::ProbeThermals,
                _ => NvApiStep::Ready,
            }
        }
    }

    /// The step that follows, given what this one's call returned, which is nothing where the
    /// function is not offered, and how many handles were listed.
    pub fn next(self, status: Option<i32>, count: u32) -> (r: NvApiStep)
        ensures
            r == self.follower(status, count),
    {
        let zero: bool = match status {
            Some(code) => code == 0,
            None => false,
        };
        match self {
            NvApiStep::Initialize => if zero {
                NvApiStep::Enumerate
            } else {
                NvApiStep::Unavailable
            },
            NvApiStep::Enumerate => if zero && count > 0 {
                NvApiStep::FindBus
            } else {
                NvApiStep::Unavailable
            },
            NvApiStep::FindBus => if status.is_some() {
                NvApiStep::ProbeThermals
            } else {
                NvApiStep::Unavailable
            },
            NvApiStep::ProbeThermals => if zero {
                NvApiStep::Ready
            } else {
                NvApiStep::Unavailable
            },
            ended => ended,
        }
    }
}

/// The interface is taken into use exactly if it could be initialised, lists a handle, can tell
/// buses, and answers for its first sensor.
pub proof fn law_nvapi_needs_every_step(
    init: Option<i32>,
    listed: Option<i32>,
    count: u32,
    bus: Option<i32>,
    thermals: Option<i32>,
)
    ensures
        ({
            let enumerate = NvApiStep::Initialize.follower(init, count);
            let find_bus = enumerate.follower(listed, count);
            let probe = find_bus.follower(bus, count);
            let end = probe.follower(thermals, count);
            &&& end.ended()
            &&& end == NvApiStep::Ready <==> init == Some(0i32) && listed == Some(0i32) && count > 0
                && bus is Some && thermals == Some(0i32)
        }),
{
}

/// The handle whose bus is the wanted one, by its place among the handles; the first handle if
/// there is none. A handle whose bus could not be had is passed over.
pub fn select_handle(buses: &Vec<Option<u32>>, pci_bus: u32) -> (r: usize)
    ensures
        (exists|i: int| 0 <= i < buses.len() && #[trigger] buses[i] == Some(pci_bus)) ==> {
            &&& r < buses.len()
            &&& buses[r as int] == Some(pci_bus)
            &&& forall|i: int| 0 <= i < r ==> #[trigger] buses[i] != Some(pci_bus)
        },
        !(exists|i: int| 0 <= i < buses.len() && #[trigger] buses[i] == Some(pci_bus)) ==> r == 0,
{
    let mut i: usize = 0;
    while i < buses.len()
        invariant
            i <= buses.len(),
            forall|j: int| 0 <= j < i ==> #[trigger] buses[j] != Some(pci_bus),
        decreases buses.len() - i,
    {
        if let Some(bus) = buses[i] {
            if bus == pci_bus {
                assert(buses[i as int] == Some(pci_bus));
                return i;
            }
        }
        i = i + 1;
    }
    0
}

/// The 32-bit pattern with one bit set, as a signed number.
pub open spec fn single_bit(bit: nat) -> int {
    if bit < 31 {
        pow2(bit) as int
    } else {
        i32::MIN as int
    }
}

/// The search for the sensors that the driver answers for. It asks for one sensor after the
/// other, each by a mask of its own bit, until one is refused or all 32 have been answered.
#[derive(Debug)]
pub struct MaskScan {
    bit: u32,
    trial: i32,
    mask: i32,
}

impl MaskScan {
    /// How many sensors have been answered.
    pub closed spec fn answered(self) -> nat {
        self.bit as nat
    }

    /// Whether one has been refused.
    pub closed spec fn refused(self) -> bool {
        self.trial == 0
    }

    /// The mask to read the sensors with: the bits below the refused one, or the bit that was
    /// answered last.
    pub open spec fn result(self) -> int {
        if self.refused() {
            pow2(self.answered()) - 1
        } else if self.answered() == 0 {
            1
        } else {
            single_bit((self.answered() - 1) as nat)
        }
    }

    #[verifier::type_invariant]
    spec fn wf(self) -> bool {
        &&& self.bit <= 32
        &&& self.trial != 0 && self.bit < 32 ==> self.trial == single_bit(self.bit as nat)
        &&& self.mask == self.result()
    }

    pub open spec fn ended(self) -> bool {
        self.refused() || self.answered() >= 32
    }

    /// The search before its first question.
    pub fn new() -> (r: MaskScan)
        ensures
            r.answered() == 0,
            !r.refused(),
    {
        proof {
            lemma2_to64();
        }
        MaskScan { bit: 0, trial: 1, mask: 1 }
    }

    /// The mask to ask for next; nothing when the search has ended.
    pub fn next_trial(&self) -> (r: Option<i32>)
        ensures
            r is Some <==> !self.ended(),
            r is Some ==> r->Some_0 == single_bit(self.answered()),
    {
        proof {
            use_type_invariant(self);
        }
        if self.trial == 0 || self.bit >= 32 {
            None
        } else {
            Some(self.trial)
        }
    }

    /// Takes the driver's answer to the last question: zero for a reading, anything else for a
    /// refusal.
    pub fn report(&mut self, status: i32)
        ensures
            old(self).ended() ==> *final(self) == *old(self),
            !old(self).ended() && status == 0 ==> {
                &&& final(self).answered() == old(self).answered() + 1
                &&& !final(self).refused()
            },
            !old(self).ended() && status != 0 ==> {
                &&& final(self).answered() == old(self).answered()
                &&& final(self).refused()
            },
    {
        proof {
            use_type_invariant(&*self);
            lemma2_to64();
            lemma_pow2_adds(1, self.bit as nat);
            if self.bit < 31 {
                vstd::arithmetic::power2::lemma_pow2_strictly_increases(self.bit as nat, 31);
            }
        }
        if self.trial == 0 || self.bit >= 32 {
            return ;
        }
        if status != 0 {
            let mask: i32 = if self.bit == 31 {
                i32::MAX
            } else {
                self.trial - 1
            };
            *self = MaskScan { bit: self.bit, trial: 0, mask };
        } else {
            let trial: i32 = if self.bit < 30 {
                self.trial * 2
            } else {
                i32::MIN
            };
            *self = MaskScan { bit: self.bit + 1, trial, mask: self.trial };
        }
    }

    /// The mask to read the sensors with.
    pub fn mask(&self) -> (r: i32)
        ensures
            r == self.result(),
    {
        proof {
            use_type_invariant(self);
        }
        self.mask
    }
}

// ---- Measuring ----

#[derive(Debug)]
pub struct NvidiaSource {
    pub device_index: u32,
}

/// The bytes of the card's memory.
#[derive(Clone, Copy, Debug)]
pub struct MemoryInfo {
    pub used: u64,
    pub total: u64,
}

/// What the interfaces reported at one moment: power in thousandths of a watt, temperature in
/// degrees, the fan's speed in percent. What they did not report is absent.
#[derive(Debug)]
pub struct NvidiaReadings {
    pub name: String,
    pub gpu_utilization: Option<u32>,
    pub memory_info: Option<MemoryInfo>,
    pub temperature: Option<u32>,
    pub thermals: Option<NvApiThermals>,
    pub num_fans: Option<u32>,
    pub fan_speed: Option<u32>,
    pub power_usage: Option<u32>,
    pub enforced_power_limit: Option<u32>,
    pub graphics_clock: Option<u32>,
    pub max_graphics_clock: Option<u32>,
    pub memory_clock: Option<u32>,
    pub max_memory_clock: Option<u32>,
}

pub open spec fn converted(value: Option<u32>) -> Option<Formula> {
    match value {
        Some(n) => Some(Formula::Int(n as u64)),
        None => None,
    }
}

fn convert(value: Option<u32>) -> (r: Option<Formula>)
    ensures
        r == converted(value),
{
    match value {
        Some(n) => Some(Formula::Int(n as u64)),
        None => None,
    }
}

/// Watts, from thousandths of a watt.
pub open spec fn watts_of(milliwatts: Option<u32>) -> Option<Formula> {
    match milliwatts {
        Some(n) => Some(Formula::Int(n as u64).over(Formula::Int(1000))),
        None => None,
    }
}

fn to_watts(milliwatts: Option<u32>) -> (r: Option<Formula>)
    ensures
        r == watts_of(milliwatts),
{
    match milliwatts {
        Some(n) => Some(Formula::Int(n as u64).over(Formula::Int(1000))),
        None => None,
    }
}

/// The first fan, if there is one and its speed is known. Its revolutions are worked out from an
/// assumed maximum of 3000.
pub open spec fn fan_of(num_fans: Option<u32>, fan_speed: Option<u32>) -> Option<FanData> {
    match (num_fans, fan_speed) {
        (Some(n), Some(pct)) => if n == 0 {
            None
        } else {
            let part = Formula::Int(pct as u64).over(Formula::Int(100));
            Some(
                FanData {
                    speed_rpm: Count::Truncated(part.times(Formula::Int(3000))),
                    speed_pct: Formula::Int(pct as u64),
                    max_rpm: 3000,
                },
            )
        },
        _ => None,
    }
}

fn read_fan(num_fans: Option<u32>, fan_speed: Option<u32>) -> (r: Option<FanData>)
    ensures
        r == fan_of(num_fans, fan_speed),
{
    match (num_fans, fan_speed) {
        (Some(n), Some(pct)) => {
            if n == 0 {
                return None;
            }
            let part: Formula = Formula::Int(pct as u64).over(Formula::Int(100));
            Some(
                FanData {
                    speed_rpm: Count::Truncated(part.times(Formula::Int(3000))),
                    speed_pct: Formula::Int(pct as u64),
                    max_rpm: 3000,
                },
            )
        },
        _ => None,
    }
}

pub open spec fn thermal(thermals: Option<NvApiThermals>, index: int) -> Option<Formula> {
    match thermals {
        Some(readings) => readings.temp(index),
        None => None,
    }
}

impl NvidiaSource {
    /// The first card, if there is any.
    pub fn new(device_count: u32) -> (r: Result<NvidiaSource, SourceError>)
        ensures
            r is Ok <==> device_count > 0,
            r is Ok ==> r->Ok_0.device_index == 0,
            r is Err ==> r->Err_0 == SourceError::NoNvidiaCard,
    {
        if device_count == 0 {
            return Err(SourceError::NoNvidiaCard);
        }
        Ok(NvidiaSource { device_index: 0 })
    }

    /// The bus by which the card is found among the driver's handles: its own, or zero.
    pub fn handle_bus(pci_bus: Option<u32>) -> (r: u32)
        ensures
            r == match pci_bus {
                Some(bus) => bus,
                None => 0,
            },
    {
        match pci_bus {
            Some(bus) => bus,
            None => 0,
        }
    }

    /// The measurements that the reports amount to.
    pub fn snapshot(&self, readings: NvidiaReadings, now: u64) -> (r: GpuSnapshot)
        ensures
            r.gpu_name == readings.name,
            r.gpu_vendor == GpuVendor::Nvidia,
            r.gpu_utilization == converted(readings.gpu_utilization),
            r.vram_used_mb == match readings.memory_info {
                Some(memory) => exact(Some(memory.used / MEBIBYTE)),
                None => None,
            },
            r.vram_total_mb == match readings.memory_info {
                Some(memory) => Some(memory.total / MEBIBYTE),
                None => None,
            },
            r.temperatures.edge == converted(readings.temperature),
            r.temperatures.hotspot == thermal(readings.thermals, NVAPI_SENSOR_HOTSPOT as int),
            r.temperatures.memory == thermal(readings.thermals, NVAPI_SENSOR_VRAM as int),
            r.fan == fan_of(readings.num_fans, readings.fan_speed),
            r.power_watts == watts_of(readings.power_usage),
            r.power_cap_watts == watts_of(readings.enforced_power_limit),
            r.gpu_clock_mhz == exact_clock(readings.graphics_clock),
            r.gpu_clock_max_mhz == readings.max_graphics_clock,
            r.vram_clock_mhz == exact_clock(readings.memory_clock),
            r.vram_clock_max_mhz == readings.max_memory_clock,
            r.timestamp_ms == now,
    {
        let (used, total): (Option<u64>, Option<u64>) = match readings.memory_info {
            Some(memory) => (Some(memory.used / MEBIBYTE), Some(memory.total / MEBIBYTE)),
            None => (None, None),
        };
        let (hotspot, memory): (Option<Formula>, Option<Formula>) = match &readings.thermals {
            Some(thermals) => (
                thermals.get_temp(NVAPI_SENSOR_HOTSPOT),
                thermals.get_temp(NVAPI_SENSOR_VRAM),
            ),
            None => (None, None),
        };
        GpuSnapshot {
            gpu_name: readings.name,
            gpu_vendor: GpuVendor::Nvidia,
            gpu_utilization: convert(readings.gpu_utilization),
            vram_used_mb: exactly(used),
            vram_total_mb: total,
            temperatures: Temperatures { edge: convert(readings.temperature), hotspot, memory },
            fan: read_fan(readings.num_fans, readings.fan_speed),
            power_watts: to_watts(readings.power_usage),
            power_cap_watts: to_watts(readings.enforced_power_limit),
            gpu_clock_mhz: exactly_clock(readings.graphics_clock),
            gpu_clock_max_mhz: readings.max_graphics_clock,
            vram_clock_mhz: exactly_clock(readings.memory_clock),
            vram_clock_max_mhz: readings.max_memory_clock,
            timestamp_ms: now,
        }
    }
}

/// In exact arithmetic, a fan at no more than 100 percent is reported at no more than its maximum
/// of revolutions.
pub proof fn law_fan_within_maximum(num_fans: u32, pct: u32, rpm: u64)
    requires
        num_fans > 0,
        pct <= 100,
        fan_of(Some(num_fans), Some(pct))->Some_0.speed_rpm.counts(rpm),
    ensures
        rpm <= fan_of(Some(num_fans), Some(pct))->Some_0.max_rpm,
{
    reveal_with_fuel(Formula::value, 4);
    let p = pct as real;
    assert(p / 100 as real * 3000 as real <= 3000 as real) by (nonlinear_arith)
        requires
            p <= 100 as real,
    ;
}

/// A slot gives the whole degrees of its reading, which counts 256ths, if they are above 0 and
/// below 255; a slot that is not there gives nothing.
pub proof fn law_slots_give_whole_degrees(thermals: NvApiThermals, index: int)
    ensures
        thermals.temp(index) matches Some(t) ==> 0 <= index < 40 && exists|d: u64|
            {
                &&& t.value() == d as real
                &&& 0 < d < 255
                &&& #[trigger] (d * 256) <= thermals.values@[index] < (d + 1) * 256
            },
        0 <= index < 40 && 256 <= thermals.values@[index] < 255 * 256 ==> thermals.temp(
            index,
        ) is Some,
        thermal(Some(thermals), index) == thermals.temp(index),
        thermal(None, index) is None,
{
    if let Some(t) = thermals.temp(index) {
        let d = (thermals.values@[index] as int / 256) as u64;
        assert(t.value() == d as real);
        assert(d * 256 <= thermals.values@[index] < (d + 1) * 256);
    }
}

/// In exact arithmetic, integers are reported as they are, and power in watts, a thousand
/// milliwatts to one.
pub proof fn law_reports_are_converted(value: Option<u32>)
    ensures
        match value {
            Some(n) => {
                &&& converted(value) matches Some(v) && v.value() == n as real
                &&& watts_of(value) matches Some(w) && w.value() * 1000 as real == n as real
            },
            None => converted(value) is None && watts_of(value) is None,
        },
{
    reveal_with_fuel(Formula::value, 3);
    if let Some(n) = value {
        let x = n as real;
        assert(x / 1000 as real * 1000 as real == x) by (nonlinear_arith);
    }
}

/// In exact arithmetic, the fan is reported at the speed that was read, and at as many whole
/// revolutions as that part of 3000; without a fan or its speed there is no report.
pub proof fn law_fan_is_reported(num_fans: Option<u32>, fan_speed: Option<u32>, rpm: u64)
    ensures
        fan_of(num_fans, fan_speed) is Some <==> num_fans is Some && num_fans->Some_0 > 0
            && fan_speed is Some,
        fan_of(num_fans, fan_speed) matches Some(fan) ==> {
            &&& fan.speed_pct.value() == fan_speed->Some_0 as real
            &&& fan.max_rpm == 3000
            &&& fan.speed_rpm.counts(rpm) <==> rpm == fan_speed->Some_0 * 30
        },
{
    reveal_with_fuel(Formula::value, 4);
    if let Some(fan) = fan_of(num_fans, fan_speed) {
        let pct = fan_speed->Some_0;
        let x = pct as real;
        assert(x / 100 as real * 3000 as real == x * 30 as real) by (nonlinear_arith);
        assert((pct * 30) as real == x * 30 as real);
    }
}

} // verus!
