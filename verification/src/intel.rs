//! Intel cards, by the files of their drivers.
use crate::double::Double;
use crate::formula::{exact, exactly, plain, plainly, scaled_by};
use crate::gpu_data::{GpuSnapshot, GpuVendor, Temperatures};
use crate::sysfs::{
    degrees, find_card, first_slot_of, mebibytes_in, pci_slot, read_mebibytes, watts, DirEntry,
    DrmEntry, SourceError,
};
use crate::text::joined;
use vstd::prelude::*;

verus! {

#[derive(Debug)]
pub struct IntelSource {
    pub card_path: String,
    pub hwmon_path: Option<String>,
    pub gpu_name: String,
}

/// The vendor identity of Intel, as a card's vendor file gives it.
pub open spec fn intel_vendor() -> Seq<char> {
    "0x8086"@
}

/// The first Intel card of the listing, by its place.
pub fn find_intel_card(entries: &Vec<DrmEntry>) -> (r: Result<usize, SourceError>)
    ensures
        match r {
            Ok(i) => {
                &&& i < entries.len()
                &&& entries[i as int].is_card_of(intel_vendor())
                &&& forall|j: int|
                    0 <= j < i ==> !(#[trigger] entries[j]).ends_search(intel_vendor())
            },
            Err(SourceError::Io(text)) => exists|i: int|
                {
                    &&& 0 <= i < entries.len()
                    &&& (#[trigger] entries[i]) == DrmEntry::Unreadable(text)
                    &&& forall|j: int|
                        0 <= j < i ==> !(#[trigger] entries[j]).ends_search(intel_vendor())
                },
            Err(e) => e == SourceError::NoIntelCard && forall|j: int|
                0 <= j < entries.len() ==> !(#[trigger] entries[j]).ends_search(intel_vendor()),
        },
{
    match find_card(entries, "0x8086") {
        Ok(Some(i)) => Ok(i),
        Ok(None) => Err(SourceError::NoIntelCard),
        Err(e) => Err(e),
    }
}

/// The first directory of sensors of an Intel card, by its place.
pub fn find_hwmon(entries: &Vec<DirEntry>) -> (r: Result<usize, SourceError>)
    ensures
        match r {
            Ok(i) => {
                &&& i < entries.len()
                &&& entries[i as int].is_hwmon()
                &&& forall|j: int| 0 <= j < i ==> !(#[trigger] entries[j]).ends_search()
            },
            Err(SourceError::Io(text)) => exists|i: int|
                {
                    &&& 0 <= i < entries.len()
                    &&& (#[trigger] entries[i]) == DirEntry::Unreadable(text)
                    &&& forall|j: int| 0 <= j < i ==> !(#[trigger] entries[j]).ends_search()
                },
            Err(e) => e == SourceError::NoIntelHwmon && forall|j: int|
                0 <= j < entries.len() ==> !(#[trigger] entries[j]).ends_search(),
        },
{
    match crate::sysfs::find_hwmon(entries) {
        Ok(Some(i)) => Ok(i),
        Ok(None) => Err(SourceError::NoIntelHwmon),
        Err(e) => Err(e),
    }
}

/// Names a card by its device's slot, as the event file gives it.
pub fn read_gpu_name(uevent: &Option<String>) -> (r: String)
    ensures
        r@ == match first_slot_of(*uevent) {
            Some(slot) => "Intel GPU ["@ + slot + "]"@,
            None => "Intel GPU"@,
        },
{
    match pci_slot(uevent) {
        Some(slot) => joined(joined("Intel GPU [", slot.as_str()).as_str(), "]"),
        None => "Intel GPU".to_owned(),
    }
}

/// What the card's files held at one moment: temperature in thousandths of a degree, power in
/// millionths of a watt. What could not be read is absent.
#[derive(Debug)]
pub struct IntelReadings {
    pub temp1_input: Option<Double>,
    pub power1_average: Option<Double>,
    pub power1_cap: Option<Double>,
    pub mem_info_vram_used: Option<String>,
    pub mem_info_vram_total: Option<String>,
    pub gpu_busy_percent: Option<Double>,
}

pub open spec fn from_hwmon(hwmon_path: Option<String>, value: Option<Double>) -> Option<Double> {
    if hwmon_path is Some {
        value
    } else {
        None
    }
}

impl IntelSource {
    /// A card with the given files, unless it has no sensors: temperatures come from those.
    pub fn new(card_path: String, hwmon_path: Option<String>, gpu_name: String) -> (r: Result<
        IntelSource,
        SourceError,
    >)
        ensures
            r is Ok <==> hwmon_path is Some,
            r is Ok ==> r->Ok_0 == (IntelSource { card_path, hwmon_path, gpu_name }),
            r is Err ==> r->Err_0 == SourceError::NoIntelMetrics,
    {
        if hwmon_path.is_none() {
            return Err(SourceError::NoIntelMetrics);
        }
        Ok(IntelSource { card_path, hwmon_path, gpu_name })
    }

    /// The measurements that the card's files amount to. There is no fan of its own, one
    /// temperature, and no clocks.
    pub fn snapshot(&self, readings: &IntelReadings, now: u64) -> (r: GpuSnapshot)
        ensures
            r.gpu_name@ == self.gpu_name@,
            r.gpu_vendor == GpuVendor::Intel,
            r.gpu_utilization == plain(readings.gpu_busy_percent),
            r.vram_used_mb == exact(mebibytes_in(readings.mem_info_vram_used)),
            r.vram_total_mb == mebibytes_in(readings.mem_info_vram_total),
            r.temperatures.edge == degrees(from_hwmon(self.hwmon_path, readings.temp1_input)),
            r.temperatures.hotspot is None,
            r.temperatures.memory is None,
            r.fan is None,
            r.power_watts == watts(from_hwmon(self.hwmon_path, readings.power1_average)),
            r.power_cap_watts == watts(from_hwmon(self.hwmon_path, readings.power1_cap)),
            r.gpu_clock_mhz is None,
            r.gpu_clock_max_mhz is None,
            r.vram_clock_mhz is None,
            r.vram_clock_max_mhz is None,
            r.timestamp_ms == now,
    {
        let mut edge: Option<Double> = None;
        let mut power: Option<Double> = None;
        let mut power_cap: Option<Double> = None;
        if self.hwmon_path.is_some() {
            edge = readings.temp1_input;
            power = readings.power1_average;
            power_cap = readings.power1_cap;
        }
        GpuSnapshot {
            gpu_name: self.gpu_name.clone(),
            gpu_vendor: GpuVendor::Intel,
            gpu_utilization: plainly(readings.gpu_busy_percent),
            vram_used_mb: exactly(read_mebibytes(&readings.mem_info_vram_used)),
            vram_total_mb: read_mebibytes(&readings.mem_info_vram_total),
            temperatures: Temperatures {
                edge: scaled_by(edge, 1000),
                hotspot: None,
                memory: None,
            },
            fan: None,
            power_watts: scaled_by(power, 1_000_000),
            power_cap_watts: scaled_by(power_cap, 1_000_000),
            gpu_clock_mhz: None,
            gpu_clock_max_mhz: None,
            vram_clock_mhz: None,
            vram_clock_max_mhz: None,
            timestamp_ms: now,
        }
    }
}

/// Temperature and power come from the directory of sensors, and are absent without one.
pub proof fn law_sensors_need_their_directory(path: String, value: Option<Double>)
    ensures
        from_hwmon(Some(path), value) == value,
        from_hwmon(None, value) is None,
{
}

} // verus!
