//! A made-up card, for machines without one.
use crate::double::{
    law_below_is_numeric, law_confined_lies_between, law_whole_bounds, law_width_bounds, Double,
};
use crate::formula::{
    law_rounding_is_near, law_rounding_keeps_integers, round_half_away, Count, Formula,
};
use crate::gpu_data::{FanData, GpuSnapshot, GpuVendor, Temperatures};
use vstd::arithmetic::power2::{lemma2_to64, lemma_pow2_adds, lemma_pow2_pos, pow2};
use vstd::prelude::*;

verus! {

/// The bit pattern of 0.3, the load that the card starts with.
pub const START_LOAD_BITS: u64 = 0x3FD3_3333_3333_3333;

/// The bit pattern of 0.02, the chance that the load jumps.
pub const JUMP_CHANCE_BITS: u64 = 0x3F94_7AE1_47AE_147B;

/// A made-up card. Each of its levels lies in its range, unless it was given no number.
#[derive(Debug)]
pub struct MockGpu {
    load: Double,
    vram_used: Double,
    edge_temp: Double,
    hotspot_temp: Double,
    mem_temp: Double,
}

/// The card's state: its load as a part of one, its used memory in mebibytes, and its
/// temperatures.
pub struct MockState {
    pub load: Double,
    pub vram_used: Double,
    pub edge_temp: Double,
    pub hotspot_temp: Double,
    pub mem_temp: Double,
}

impl View for MockGpu {
    type V = MockState;

    closed spec fn view(&self) -> MockState {
        MockState {
            load: self.load,
            vram_used: self.vram_used,
            edge_temp: self.edge_temp,
            hotspot_temp: self.hotspot_temp,
            mem_temp: self.mem_temp,
        }
    }
}

/// Whether a level lies in its range, or is no number.
pub open spec fn settled(level: Double, low: nat, high: nat) -> bool {
    level.nan() || level.between(low, high)
}

impl MockState {
    /// What holds of every card.
    pub open spec fn wf(self) -> bool {
        &&& settled(self.load, 0, 1)
        &&& settled(self.vram_used, 256, 7800)
        &&& settled(self.edge_temp, 25, 95)
        &&& settled(self.hotspot_temp, 30, 110)
        &&& settled(self.mem_temp, 25, 95)
    }

    /// Whether this is the state that a card starts in.
    pub open spec fn at_rest(self) -> bool {
        &&& self.load.bits == START_LOAD_BITS
        &&& self.vram_used.is_whole(2048)
        &&& self.edge_temp.is_whole(42)
        &&& self.hotspot_temp.is_whole(55)
        &&& self.mem_temp.is_whole(40)
    }

    /// Whether every level is a number in its range.
    pub open spec fn in_range(self) -> bool {
        &&& self.load.between(0, 1)
        &&& self.vram_used.between(256, 7800)
        &&& self.edge_temp.between(25, 95)
        &&& self.hotspot_temp.between(30, 110)
        &&& self.mem_temp.between(25, 95)
    }
}

/// A random number that the card is moved by.
#[derive(Clone, Copy, Debug, PartialEq, Eq, Structural)]
pub enum Draw {
    /// Decides whether the load jumps.
    Gate,
    /// Where the load jumps to.
    Jump,
    /// How far the load's aim wanders.
    Wander,
    Load,
    Vram,
    Edge,
    Hotspot,
    Memory,
    Power,
    GpuClock,
    VramClock,
}

/// The noise on the card's levels.
#[derive(Clone, Copy, Debug)]
pub struct LevelNoise {
    pub vram: Double,
    pub edge: Double,
    pub hotspot: Double,
    pub memory: Double,
}

/// The noise on what the card reports.
#[derive(Clone, Copy, Debug)]
pub struct ReportNoise {
    pub power: Double,
    pub gpu_clock: Double,
    pub vram_clock: Double,
}

impl ReportNoise {
    /// Whether each number is one that its draw gives.
    pub open spec fn in_range(self) -> bool {
        self.power.within(3) && self.gpu_clock.within(20) && self.vram_clock.within(10)
    }
}

/// The levels that the card moves to, before they are moved into their ranges.
#[derive(Debug)]
pub struct Levels {
    pub vram_used: Formula,
    pub edge_temp: Formula,
    pub hotspot_temp: Formula,
    pub mem_temp: Formula,
}

/// The numbers that the levels have been worked out to.
#[derive(Clone, Copy, Debug)]
pub struct LevelValues {
    pub vram_used: Double,
    pub edge_temp: Double,
    pub hotspot_temp: Double,
    pub mem_temp: Double,
}

impl Draw {
    /// How far a random number may lie from zero, to either side.
    pub open spec fn noise(self) -> Formula {
        match self {
            Draw::Wander => Formula::ratio(5, 100),
            Draw::Load => Formula::ratio(2, 100),
            Draw::Vram => Formula::Int(50),
            Draw::Edge => Formula::ratio(3, 10),
            Draw::Hotspot => Formula::ratio(4, 10),
            Draw::Memory => Formula::ratio(2, 10),
            Draw::Power => Formula::Int(3),
            Draw::GpuClock => Formula::Int(20),
            Draw::VramClock => Formula::Int(10),
            _ => Formula::Int(1),
        }
    }

    fn noise_width(self) -> (r: Formula)
        ensures
            r == self.noise(),
    {
        match self {
            Draw::Wander => Formula::ratio(5, 100),
            Draw::Load => Formula::ratio(2, 100),
            Draw::Vram => Formula::Int(50),
            Draw::Edge => Formula::ratio(3, 10),
            Draw::Hotspot => Formula::ratio(4, 10),
            Draw::Memory => Formula::ratio(2, 10),
            Draw::Power => Formula::Int(3),
            Draw::GpuClock => Formula::Int(20),
            Draw::VramClock => Formula::Int(10),
            _ => Formula::Int(1),
        }
    }

    /// The range that the random number is drawn from, its upper end excluded: from zero to one
    /// for a part of one, around zero for noise.
    pub fn range(self) -> (r: (Formula, Formula))
        ensures
            r.0 == if self == Draw::Gate || self == Draw::Jump {
                Formula::Int(0)
            } else {
                self.noise().negated()
            },
            r.1 == self.noise(),
    {
        let low: Formula = match self {
            Draw::Gate => Formula::Int(0),
            Draw::Jump => Formula::Int(0),
            _ => self.noise_width().negated(),
        };
        (low, self.noise_width())
    }
}

/// A value moved part of the way to a target, with noise.
pub open spec fn drifted(value: Double, target: Formula, speed: Formula, jitter: Double) -> Formula {
    let direction = target.minus(Formula::Value(value)).times(speed);
    Formula::Value(value).plus(direction).plus(Formula::Value(jitter))
}

fn drift(value: Double, target: Formula, speed: Formula, jitter: Double) -> (r: Formula)
    ensures
        r == drifted(value, target, speed, jitter),
{
    let direction: Formula = target.minus(Formula::Value(value)).times(speed);
    Formula::Value(value).plus(direction).plus(Formula::Value(jitter))
}

/// A level that grows with the load.
pub open spec fn level(base: u64, load: Double, rise: u64) -> Formula {
    Formula::Int(base).plus(Formula::Value(load).times(Formula::Int(rise)))
}

fn level_at(base: u64, load: Double, rise: u64) -> (r: Formula)
    ensures
        r == level(base, load, rise),
{
    Formula::Int(base).plus(Formula::Value(load).times(Formula::Int(rise)))
}

/// The straight line from one fan speed up, over a span of 20 degrees.
pub open spec fn ramp(base: u64, temp_c: Double, start: u64, rise: u64) -> Formula {
    Formula::Int(base).plus(
        Formula::Value(temp_c).minus(Formula::Int(start)).over(Formula::Int(20)).times(
            Formula::Int(rise),
        ),
    )
}

fn ramp_at(base: u64, temp_c: Double, start: u64, rise: u64) -> (r: Formula)
    ensures
        r == ramp(base, temp_c, start, rise),
{
    let part: Formula = Formula::Value(temp_c).minus(Formula::Int(start)).over(Formula::Int(20));
    Formula::Int(base).plus(part.times(Formula::Int(rise)))
}

/// The fan's speed in percent at a temperature of the hot spot: steady below 40 degrees, then
/// steeper and steeper.
pub open spec fn fan_speed(hotspot: Double) -> Formula {
    let speed = if hotspot.below(40) {
        Formula::Int(25)
    } else if hotspot.below(60) {
        ramp(25, hotspot, 40, 25)
    } else if hotspot.below(80) {
        ramp(50, hotspot, 60, 35)
    } else {
        ramp(85, hotspot, 80, 15)
    };
    speed.clamped_to(Formula::Int(0), Formula::Int(100))
}

fn fan_speed_at(hotspot: Double) -> (r: Formula)
    ensures
        r == fan_speed(hotspot),
{
    let speed: Formula = if hotspot.less(Double::whole(40)) {
        Formula::Int(25)
    } else if hotspot.less(Double::whole(60)) {
        ramp_at(25, hotspot, 40, 25)
    } else if hotspot.less(Double::whole(80)) {
        ramp_at(50, hotspot, 60, 35)
    } else {
        ramp_at(85, hotspot, 80, 15)
    };
    speed.clamped_to(Formula::Int(0), Formula::Int(100))
}

impl MockState {
    pub open spec fn load_target(self, aim: Draw, draw: Double) -> Formula {
        if aim == Draw::Jump {
            Formula::Value(draw)
        } else {
            Formula::Value(self.load).plus(Formula::Value(draw))
        }
    }

    /// The load that the card drifts to, given how it aims, the random number for that, and the
    /// noise.
    pub open spec fn drifted_load(self, aim: Draw, draw: Double, jitter: Double) -> Formula {
        drifted(self.load, self.load_target(aim, draw), Formula::ratio(1, 10), jitter)
    }

    /// The levels that the card drifts to under its load.
    pub open spec fn drifted_levels(self, noise: LevelNoise) -> Levels {
        Levels {
            vram_used: drifted(
                self.vram_used,
                level(1024, self.load, 6500),
                Formula::ratio(5, 100),
                noise.vram,
            ),
            edge_temp: drifted(
                self.edge_temp,
                level(35, self.load, 45),
                Formula::ratio(8, 100),
                noise.edge,
            ),
            hotspot_temp: drifted(
                self.hotspot_temp,
                level(45, self.load, 50),
                Formula::ratio(8, 100),
                noise.hotspot,
            ),
            mem_temp: drifted(
                self.mem_temp,
                level(32, self.load, 40),
                Formula::ratio(6, 100),
                noise.memory,
            ),
        }
    }

    /// Whether the card is in the state `next` when its load has been worked out.
    pub open spec fn takes_load(self, load: Double, next: MockState) -> bool {
        load.is_confined(0, 1, next.load) && next == (MockState { load: next.load, ..self })
    }

    /// Whether the card is in the state `next` when its levels have been worked out.
    pub open spec fn takes_levels(self, values: LevelValues, next: MockState) -> bool {
        &&& next.load == self.load
        &&& values.vram_used.is_confined(256, 7800, next.vram_used)
        &&& values.edge_temp.is_confined(25, 95, next.edge_temp)
        &&& values.hotspot_temp.is_confined(30, 110, next.hotspot_temp)
        &&& values.mem_temp.is_confined(25, 95, next.mem_temp)
    }

    /// Whether this is what the card reports of its state.
    pub open spec fn reports(self, noise: ReportNoise, now: u64, r: GpuSnapshot) -> bool {
        &&& r.gpu_name@ == "Mock GPU (RX 7900 XTX)"@
        &&& r.gpu_vendor == GpuVendor::Mock
        &&& r.gpu_utilization == Some(
            Formula::Value(self.load).times(Formula::Int(1000)).rounded().over(Formula::Int(10)),
        )
        &&& r.vram_used_mb == Some(Count::Truncated(Formula::Value(self.vram_used)))
        &&& r.vram_total_mb == Some(8192u64)
        &&& r.temperatures.edge == Some(Formula::Value(self.edge_temp).to_tenths())
        &&& r.temperatures.hotspot == Some(Formula::Value(self.hotspot_temp).to_tenths())
        &&& r.temperatures.memory == Some(Formula::Value(self.mem_temp).to_tenths())
        &&& r.fan == Some(
            FanData {
                speed_rpm: Count::Truncated(
                    fan_speed(self.hotspot_temp).over(Formula::Int(100)).times(Formula::Int(2400)),
                ),
                speed_pct: fan_speed(self.hotspot_temp).to_tenths(),
                max_rpm: 2400,
            },
        )
        &&& r.power_watts == Some(
            level(15, self.load, 230).plus(Formula::Value(noise.power)).to_tenths(),
        )
        &&& r.power_cap_watts == Some(Formula::Int(250))
        &&& r.gpu_clock_mhz == Some(
            Count::Truncated(level(1200, self.load, 1200).plus(Formula::Value(noise.gpu_clock))),
        )
        &&& r.gpu_clock_max_mhz == Some(2500u32)
        &&& r.vram_clock_mhz == Some(
            Count::Truncated(level(800, self.load, 1500).plus(Formula::Value(noise.vram_clock))),
        )
        &&& r.vram_clock_max_mhz == Some(2500u32)
        &&& r.timestamp_ms == now
    }
}

impl MockGpu {
    #[verifier::type_invariant]
    spec fn wf(self) -> bool {
        self@.wf()
    }

    /// A card at rest: a load of 0.3, 2048 mebibytes in use, 42, 55 and 40 degrees.
    pub fn new() -> (r: MockGpu)
        ensures
            r@.at_rest(),
            r@.in_range(),
    {
        let load: Double = Double { bits: START_LOAD_BITS };
        proof {
            lemma_start_load_is_a_part();
        }
        let vram_used: Double = Double::whole(2048);
        let edge_temp: Double = Double::whole(42);
        let hotspot_temp: Double = Double::whole(55);
        let mem_temp: Double = Double::whole(40);
        MockGpu { load, vram_used, edge_temp, hotspot_temp, mem_temp }
    }

    /// Which random number the load's aim is made from: rarely a jump, else a small change.
    pub fn aim(gate: Double) -> (r: Draw)
        ensures
            r == if gate.lt((Double { bits: JUMP_CHANCE_BITS })) {
                Draw::Jump
            } else {
                Draw::Wander
            },
    {
        if gate.less(Double { bits: JUMP_CHANCE_BITS }) {
            Draw::Jump
        } else {
            Draw::Wander
        }
    }

    /// The load that the card drifts to, given how it aims, the random number for that, and the
    /// noise. [`MockGpu::take_load`] takes it.
    pub fn next_load(&self, aim: Draw, draw: Double, jitter: Double) -> (r: Formula)
        ensures
            r == self@.drifted_load(aim, draw, jitter),
    {
        let target: Formula = match aim {
            Draw::Jump => Formula::Value(draw),
            _ => Formula::Value(self.load).plus(Formula::Value(draw)),
        };
        drift(self.load, target, Formula::ratio(1, 10), jitter)
    }

    /// Takes the load that has been worked out, moved into the range of a part of one.
    pub fn take_load(&mut self, load: Double)
        ensures
            old(self)@.takes_load(load, final(self)@),
            final(self)@.wf(),
    {
        proof {
            use_type_invariant(&*self);
        }
        let confined: Double = load.confined(0, 1);
        proof {
            lemma_settled(load, 0, 1, confined);
        }
        self.load = confined;
    }

    /// The levels that the card drifts to under its load. [`MockGpu::take_levels`] takes them.
    pub fn next_levels(&self, noise: &LevelNoise) -> (r: Levels)
        ensures
            r == self@.drifted_levels(*noise),
    {
        Levels {
            vram_used: drift(
                self.vram_used,
                level_at(1024, self.load, 6500),
                Formula::ratio(5, 100),
                noise.vram,
            ),
            edge_temp: drift(
                self.edge_temp,
                level_at(35, self.load, 45),
                Formula::ratio(8, 100),
                noise.edge,
            ),
            hotspot_temp: drift(
                self.hotspot_temp,
                level_at(45, self.load, 50),
                Formula::ratio(8, 100),
                noise.hotspot,
            ),
            mem_temp: drift(
                self.mem_temp,
                level_at(32, self.load, 40),
                Formula::ratio(6, 100),
                noise.memory,
            ),
        }
    }

    /// Takes the levels that have been worked out, each moved into its range.
    pub fn take_levels(&mut self, values: &LevelValues)
        ensures
            old(self)@.takes_levels(*values, final(self)@),
            final(self)@.wf(),
    {
        proof {
            use_type_invariant(&*self);
        }
        let vram_used: Double = values.vram_used.confined(256, 7800);
        let edge_temp: Double = values.edge_temp.confined(25, 95);
        let hotspot_temp: Double = values.hotspot_temp.confined(30, 110);
        let mem_temp: Double = values.mem_temp.confined(25, 95);
        proof {
            lemma_settled(values.vram_used, 256, 7800, vram_used);
            lemma_settled(values.edge_temp, 25, 95, edge_temp);
            lemma_settled(values.hotspot_temp, 30, 110, hotspot_temp);
            lemma_settled(values.mem_temp, 25, 95, mem_temp);
        }
        *self = MockGpu { load: self.load, vram_used, edge_temp, hotspot_temp, mem_temp };
    }

    /// What the card reports of its state.
    pub fn snapshot(&self, noise: &ReportNoise, now: u64) -> (r: GpuSnapshot)
        ensures
            self@.reports(*noise, now, r),
    {
        let part: Formula = fan_speed_at(self.hotspot_temp).over(Formula::Int(100));
        let power: Formula = level_at(15, self.load, 230).plus(Formula::Value(noise.power));
        let gpu_clock: Formula = level_at(1200, self.load, 1200).plus(
            Formula::Value(noise.gpu_clock),
        );
        let vram_clock: Formula = level_at(800, self.load, 1500).plus(
            Formula::Value(noise.vram_clock),
        );
        GpuSnapshot {
            gpu_name: "Mock GPU (RX 7900 XTX)".to_owned(),
            gpu_vendor: GpuVendor::Mock,
            gpu_utilization: Some(
                Formula::Value(self.load).times(Formula::Int(1000)).rounded().over(
                    Formula::Int(10),
                ),
            ),
            vram_used_mb: Some(Count::Truncated(Formula::Value(self.vram_used))),
            vram_total_mb: Some(8192),
            temperatures: Temperatures {
                edge: Some(Formula::Value(self.edge_temp).to_tenths()),
                hotspot: Some(Formula::Value(self.hotspot_temp).to_tenths()),
                memory: Some(Formula::Value(self.mem_temp).to_tenths()),
            },
            fan: Some(
                FanData {
                    speed_rpm: Count::Truncated(part.times(Formula::Int(2400))),
                    speed_pct: fan_speed_at(self.hotspot_temp).to_tenths(),
                    max_rpm: 2400,
                },
            ),
            power_watts: Some(power.to_tenths()),
            power_cap_watts: Some(Formula::Int(250)),
            gpu_clock_mhz: Some(Count::Truncated(gpu_clock)),
            gpu_clock_max_mhz: Some(2500),
            vram_clock_mhz: Some(Count::Truncated(vram_clock)),
            vram_clock_max_mhz: Some(2500),
            timestamp_ms: now,
        }
    }
}

// ---- What holds of every made-up card ----

proof fn lemma_settled(d: Double, low: nat, high: nat, r: Double)
    requires
        low <= high,
        d.is_confined(low, high, r),
    ensures
        settled(r, low, high),
{
    if !d.nan() {
        law_confined_lies_between(d, low, high, r);
    }
}

proof fn lemma_start_load_is_a_part()
    ensures
        (Double { bits: START_LOAD_BITS }).between(0, 1),
{
    lemma_pow2_adds(22, 32);
    lemma_pow2_adds(54, 1020);
    lemma2_to64();
    lemma_pow2_pos(1020);
    let step = pow2(1020);
    let load = Double { bits: START_LOAD_BITS };
    assert(load.units() == 0x13_3333_3333_3333 * step);
    assert(0x13_3333_3333_3333 * step <= pow2(54) * step) by (nonlinear_arith)
        requires
            pow2(54) >= 0x13_3333_3333_3333,
            step > 0,
    ;
}

/// A card that has been given numbers is in range: its load is a part of one, and its levels are
/// those of a card. It was so at rest, and whatever the numbers are, it stays so.
pub proof fn law_levels_stay_in_range(
    card: MockState,
    load: Double,
    values: LevelValues,
    loaded: MockState,
    next: MockState,
)
    requires
        card.takes_load(load, loaded),
        loaded.takes_levels(values, next),
        !load.nan(),
        !values.vram_used.nan(),
        !values.edge_temp.nan(),
        !values.hotspot_temp.nan(),
        !values.mem_temp.nan(),
    ensures
        card.in_range() ==> loaded.in_range(),
        next.in_range(),
{
    law_confined_lies_between(load, 0, 1, loaded.load);
    law_confined_lies_between(values.vram_used, 256, 7800, next.vram_used);
    law_confined_lies_between(values.edge_temp, 25, 95, next.edge_temp);
    law_confined_lies_between(values.hotspot_temp, 30, 110, next.hotspot_temp);
    law_confined_lies_between(values.mem_temp, 25, 95, next.mem_temp);
}

/// Rounding to one decimal place moves a number by no more than half a tenth, and not beyond an
/// integer.
proof fn lemma_tenths(formula: Formula, low: nat, high: nat)
    requires
        low as real <= formula.value() <= high as real,
    ensures
        low as real <= formula.to_tenths().value() <= high as real,
        formula.value() - 1 as real / 20 as real <= formula.to_tenths().value()
            <= formula.value() + 1 as real / 20 as real,
{
    reveal_with_fuel(Formula::value, 4);
    let x = formula.value();
    let tens = x * 10 as real;
    law_rounding_is_near(tens);
    law_rounding_keeps_integers(tens, (low * 10) as int, (high * 10) as int);
    let rounded = round_half_away(tens) as real;
    assert(x - 1 as real / 20 as real <= rounded / 10 as real <= x + 1 as real / 20 as real)
        by (nonlinear_arith)
        requires
            tens == x * 10 as real,
            tens - 1 as real / 2 as real <= rounded <= tens + 1 as real / 2 as real,
    ;
    let (a, b) = (low as real, high as real);
    assert(a <= rounded / 10 as real <= b) by (nonlinear_arith)
        requires
            a * 10 as real <= rounded <= b * 10 as real,
    ;
}

proof fn lemma_level(base: u64, load: Double, rise: u64, noise: Double, width: nat)
    requires
        load.between(0, 1),
        noise.within(width),
    ensures
        ({
            let value = level(base, load, rise).plus(Formula::Value(noise)).value();
            base as real - width as real <= value <= base as real + rise as real + width as real
        }),
{
    reveal_with_fuel(Formula::value, 4);
    law_whole_bounds(load, 0, 1);
    law_width_bounds(noise, width);
    let (x, k) = (load.value(), rise as real);
    assert(0 as real <= x * k <= k) by (nonlinear_arith)
        requires
            0 as real <= x <= 1 as real,
            k >= 0 as real,
    ;
}

/// What is read off a report: its integers, with the fractions cut off.
pub struct ReportedCounts {
    pub used: u64,
    pub gpu_clock: u64,
    pub vram_clock: u64,
    pub rpm: u64,
}

impl ReportedCounts {
    /// Whether these are the integers of the report, in exact arithmetic.
    pub open spec fn are_of(self, r: GpuSnapshot) -> bool {
        &&& r.vram_used_mb matches Some(count) && count.counts(self.used)
        &&& r.gpu_clock_mhz matches Some(count) && count.counts(self.gpu_clock)
        &&& r.vram_clock_mhz matches Some(count) && count.counts(self.vram_clock)
        &&& r.fan matches Some(fan) && fan.speed_rpm.counts(self.rpm)
    }
}

/// Whether a report of a made-up card is in range: a utilisation from 0 to 100 percent, 256 to
/// 7800 of 8192 mebibytes in use, 25 to 95 degrees at the edge and the memory and 30 to 110 at the
/// hot spot, a power from 12 to 248 watts under a cap of 250, and clocks from 1180 to 2420 and from
/// 790 to 2310 megahertz, of at most 2500.
pub open spec fn report_in_range(r: GpuSnapshot, counts: ReportedCounts) -> bool {
    &&& r.gpu_vendor == GpuVendor::Mock
    &&& r.gpu_utilization matches Some(part) && 0 as real <= part.value() <= 100 as real
    &&& 256 <= counts.used <= 7800
    &&& r.vram_total_mb == Some(8192u64)
    &&& r.temperatures.edge matches Some(t) && 25 as real <= t.value() <= 95 as real
    &&& r.temperatures.hotspot matches Some(t) && 30 as real <= t.value() <= 110 as real
    &&& r.temperatures.memory matches Some(t) && 25 as real <= t.value() <= 95 as real
    &&& r.power_watts matches Some(power) && 12 as real <= power.value() <= 248 as real
    &&& r.power_cap_watts matches Some(cap) && cap.value() == 250 as real
    &&& 1180 <= counts.gpu_clock <= 2420
    &&& r.gpu_clock_max_mhz == Some(2500u32)
    &&& 790 <= counts.vram_clock <= 2310
    &&& r.vram_clock_max_mhz == Some(2500u32)
}

/// In exact arithmetic, a card in range reports in range.
pub proof fn law_mock_reports_in_range(
    card: MockState,
    noise: ReportNoise,
    now: u64,
    r: GpuSnapshot,
    counts: ReportedCounts,
)
    requires
        card.in_range(),
        noise.in_range(),
        card.reports(noise, now, r),
        counts.are_of(r),
    ensures
        report_in_range(r, counts),
{
    reveal_with_fuel(Formula::value, 4);
    law_whole_bounds(card.load, 0, 1);
    law_whole_bounds(card.vram_used, 256, 7800);
    law_whole_bounds(card.edge_temp, 25, 95);
    law_whole_bounds(card.hotspot_temp, 30, 110);
    law_whole_bounds(card.mem_temp, 25, 95);
    lemma_tenths(Formula::Value(card.edge_temp), 25, 95);
    lemma_tenths(Formula::Value(card.hotspot_temp), 30, 110);
    lemma_tenths(Formula::Value(card.mem_temp), 25, 95);
    lemma_level(15, card.load, 230, noise.power, 3);
    lemma_tenths(level(15, card.load, 230).plus(Formula::Value(noise.power)), 12, 248);
    lemma_level(1200, card.load, 1200, noise.gpu_clock, 20);
    lemma_level(800, card.load, 1500, noise.vram_clock, 10);
    let thousands = card.load.value() * 1000 as real;
    law_rounding_keeps_integers(thousands, 0, 1000);
    let rounded = round_half_away(thousands) as real;
    assert(0 as real <= rounded / 10 as real <= 100 as real) by (nonlinear_arith)
        requires
            0 as real <= rounded <= 1000 as real,
    ;
}

/// The line that the made-up fan follows: 25 percent up to 40 degrees, 50 at 60, 85 at 80, and
/// all of it from 100 on.
pub open spec fn fan_line(temp_c: real) -> real {
    if temp_c <= 40 as real {
        25 as real
    } else if temp_c <= 60 as real {
        25 as real + (temp_c - 40 as real) / 20 as real * 25 as real
    } else if temp_c <= 80 as real {
        50 as real + (temp_c - 60 as real) / 20 as real * 35 as real
    } else if temp_c <= 100 as real {
        85 as real + (temp_c - 80 as real) / 20 as real * 15 as real
    } else {
        100 as real
    }
}

proof fn lemma_fan_follows_its_line(hotspot: Double)
    requires
        !hotspot.nan(),
    ensures
        fan_speed(hotspot).value() == fan_line(hotspot.value()),
        25 as real <= fan_line(hotspot.value()) <= 100 as real,
{
    reveal_with_fuel(Formula::value, 6);
    law_below_is_numeric(hotspot, 40);
    law_below_is_numeric(hotspot, 60);
    law_below_is_numeric(hotspot, 80);
    let x = hotspot.value();
    assert(40 as real <= x <= 60 as real ==> 25 as real <= 25 as real + (x - 40 as real)
        / 20 as real * 25 as real <= 50 as real) by (nonlinear_arith);
    assert(60 as real <= x <= 80 as real ==> 50 as real <= 50 as real + (x - 60 as real)
        / 20 as real * 35 as real <= 85 as real) by (nonlinear_arith);
    assert(80 as real <= x <= 100 as real ==> 85 as real <= 85 as real + (x - 80 as real)
        / 20 as real * 15 as real <= 100 as real) by (nonlinear_arith);
    assert(x >= 100 as real ==> 85 as real + (x - 80 as real) / 20 as real * 15 as real
        >= 100 as real) by (nonlinear_arith);
    assert(x == 40 as real ==> 25 as real + (x - 40 as real) / 20 as real * 25 as real
        == 25 as real) by (nonlinear_arith);
    assert(x == 60 as real ==> 25 as real + (x - 40 as real) / 20 as real * 25 as real == 50 as real
        + (x - 60 as real) / 20 as real * 35 as real) by (nonlinear_arith);
    assert(x == 80 as real ==> 50 as real + (x - 60 as real) / 20 as real * 35 as real == 85 as real
        + (x - 80 as real) / 20 as real * 15 as real) by (nonlinear_arith);
}

/// The line rises by no more than 1.75 percent per degree.
proof fn lemma_line_is_gentle(x: real, y: real)
    requires
        x <= y,
    ensures
        0 as real <= fan_line(y) - fan_line(x) <= (y - x) * (7 as real / 4 as real),
{
    assert(0 as real <= fan_line(y) - fan_line(x) <= (y - x) * (7 as real / 4 as real))
        by (nonlinear_arith)
        requires
            x <= y,
    ;
}

/// Whether the reported fan keeps to its line: 25 to 100 percent, within 0.15 percent of the speed
/// that the line gives for the reported hot spot, and at revolutions within 3 of that part of
/// their maximum of 2400, which they do not exceed.
pub open spec fn fan_keeps_to_its_line(r: GpuSnapshot, rpm: u64) -> bool {
    &&& r.fan is Some
    &&& r.temperatures.hotspot is Some
    &&& r.fan->Some_0.max_rpm == 2400
    &&& rpm <= 2400
    &&& ({
        let pct = r.fan->Some_0.speed_pct.value();
        let line = fan_line(r.temperatures.hotspot->Some_0.value());
        &&& 25 as real <= pct <= 100 as real
        &&& line - 15 as real / 100 as real <= pct <= line + 15 as real / 100 as real
        &&& 24 as real * pct - 3 as real <= rpm as real <= 24 as real * pct + 3 as real
    })
}

/// In exact arithmetic, the made-up fan keeps to its line.
pub proof fn law_mock_fan_follows_hot_spot(
    card: MockState,
    noise: ReportNoise,
    now: u64,
    r: GpuSnapshot,
    rpm: u64,
)
    requires
        card.in_range(),
        card.reports(noise, now, r),
        r.fan->Some_0.speed_rpm.counts(rpm),
    ensures
        fan_keeps_to_its_line(r, rpm),
{
    let speed = fan_speed(card.hotspot_temp);
    let hot = Formula::Value(card.hotspot_temp);
    law_whole_bounds(card.hotspot_temp, 30, 110);
    assert(hot.value() == card.hotspot_temp.value());
    lemma_fan_follows_its_line(card.hotspot_temp);
    lemma_tenths(speed, 25, 100);
    lemma_tenths(hot, 30, 110);
    let (h, shown) = (hot.value(), hot.to_tenths().value());
    if h <= shown {
        lemma_line_is_gentle(h, shown);
    } else {
        lemma_line_is_gentle(shown, h);
    }
    let v = speed.value();
    let revolutions = speed.over(Formula::Int(100)).times(Formula::Int(2400)).value();
    assert(revolutions == v / 100 as real * 2400 as real) by {
        reveal_with_fuel(Formula::value, 3);
    }
    assert(v / 100 as real * 2400 as real == 24 as real * v) by (nonlinear_arith);
}

/// One move of a card: the load and the levels that were worked out for it.
pub struct MockMove {
    pub load: Double,
    pub values: LevelValues,
}

impl MockMove {
    /// Whether all that was worked out are numbers.
    pub open spec fn has_numbers(self) -> bool {
        &&& !self.load.nan()
        &&& !self.values.vram_used.nan()
        &&& !self.values.edge_temp.nan()
        &&& !self.values.hotspot_temp.nan()
        &&& !self.values.mem_temp.nan()
    }

    /// Whether the move takes a card from one state to another: first its load, then its levels.
    pub open spec fn takes(self, from: MockState, to: MockState) -> bool {
        let loaded = MockState { load: to.load, ..from };
        from.takes_load(self.load, loaded) && loaded.takes_levels(self.values, to)
    }
}

/// Whether a card went through these states by these moves, from rest on.
pub open spec fn is_history(states: Seq<MockState>, moves: Seq<MockMove>) -> bool {
    &&& states.len() == moves.len() + 1
    &&& states[0].at_rest()
    &&& forall|i: int|
        0 <= i < moves.len() ==> (#[trigger] moves[i]).has_numbers() && moves[i].takes(
            states[i],
            states[i + 1],
        )
}

proof fn lemma_history_in_range(states: Seq<MockState>, moves: Seq<MockMove>, i: int)
    requires
        is_history(states, moves),
        0 <= i < states.len(),
    ensures
        states[i].in_range(),
{
    if i == 0 {
        lemma_start_load_is_a_part();
        assert(states[0].load == Double { bits: START_LOAD_BITS });
    } else {
        let step = moves[i - 1];
        let loaded = MockState { load: states[i].load, ..states[i - 1] };
        assert(step.takes(states[i - 1], states[i]));
        law_levels_stay_in_range(states[i - 1], step.load, step.values, loaded, states[i]);
    }
}

/// In every state that a made-up card reaches from rest, after any number of moves and whatever
/// numbers were worked out for them, its levels are in range, and in exact arithmetic its report
/// is in range and its fan keeps to its line.
pub proof fn law_mock_history_in_range(
    states: Seq<MockState>,
    moves: Seq<MockMove>,
    i: int,
    noise: ReportNoise,
    now: u64,
    r: GpuSnapshot,
    counts: ReportedCounts,
)
    requires
        is_history(states, moves),
        0 <= i < states.len(),
        noise.in_range(),
        states[i].reports(noise, now, r),
        counts.are_of(r),
    ensures
        states[i].in_range(),
        report_in_range(r, counts),
        fan_keeps_to_its_line(r, counts.rpm),
{
    lemma_history_in_range(states, moves, i);
    law_mock_reports_in_range(states[i], noise, now, r, counts);
    law_mock_fan_follows_hot_spot(states[i], noise, now, r, counts.rpm);
}

} // verus!
