//! How the made-up card moves and what it reports, in exact arithmetic.
use crate::double::{law_confined_is_nearest, Double};
use crate::formula::{clamped, law_rounding_is_near, round_half_away, Formula};
use crate::gpu_data::{GpuSnapshot, GpuVendor};
use crate::mock_data::{
    drifted, level, Draw, LevelNoise, LevelValues, MockState, ReportNoise, ReportedCounts,
};
use vstd::prelude::*;

verus! {

proof fn lemma_drift(value: Double, target: Formula, speed: Formula, jitter: Double)
    ensures
        drifted(value, target, speed, jitter).value() == value.value() + (target.value()
            - value.value()) * speed.value() + jitter.value(),
{
    reveal_with_fuel(Formula::value, 5);
}

proof fn lemma_level_value(base: u64, load: Double, rise: u64)
    ensures
        level(base, load, rise).value() == base as real + load.value() * rise as real,
{
    reveal_with_fuel(Formula::value, 3);
}

proof fn lemma_ratio(numerator: u64, denominator: u64)
    ensures
        Formula::ratio(numerator, denominator).value() == numerator as real / denominator as real,
{
    reveal_with_fuel(Formula::value, 2);
}

/// Where a value drifts to: a part of the way to its target, and the noise.
pub open spec fn on_the_way(value: real, target: real, part: real, noise: real) -> real {
    value + (target - value) * part + noise
}

/// The load drifts a tenth of the way to its aim: to the number that was drawn for a jump, and else
/// to its own value changed by that number.
pub proof fn law_load_drifts_to_its_aim(
    card: MockState,
    aim: Draw,
    draw: Double,
    jitter: Double,
)
    ensures
        card.drifted_load(aim, draw, jitter).value() == on_the_way(
            card.load.value(),
            if aim == Draw::Jump {
                draw.value()
            } else {
                card.load.value() + draw.value()
            },
            1 as real / 10 as real,
            jitter.value(),
        ),
{
    reveal_with_fuel(Formula::value, 2);
    lemma_drift(card.load, card.load_target(aim, draw), Formula::ratio(1, 10), jitter);
    lemma_ratio(1, 10);
}

/// Each level drifts a part of the way to what the load calls for.
pub proof fn law_levels_drift_with_the_load(card: MockState, noise: LevelNoise)
    ensures
        ({
            let next = card.drifted_levels(noise);
            let load = card.load.value();
            &&& next.vram_used.value() == on_the_way(
                card.vram_used.value(),
                1024 as real + load * 6500 as real,
                5 as real / 100 as real,
                noise.vram.value(),
            )
            &&& next.edge_temp.value() == on_the_way(
                card.edge_temp.value(),
                35 as real + load * 45 as real,
                8 as real / 100 as real,
                noise.edge.value(),
            )
            &&& next.hotspot_temp.value() == on_the_way(
                card.hotspot_temp.value(),
                45 as real + load * 50 as real,
                8 as real / 100 as real,
                noise.hotspot.value(),
            )
            &&& next.mem_temp.value() == on_the_way(
                card.mem_temp.value(),
                32 as real + load * 40 as real,
                6 as real / 100 as real,
                noise.memory.value(),
            )
        }),
{
    let load = card.load;
    lemma_drift(card.vram_used, level(1024, load, 6500), Formula::ratio(5, 100), noise.vram);
    lemma_drift(card.edge_temp, level(35, load, 45), Formula::ratio(8, 100), noise.edge);
    lemma_drift(card.hotspot_temp, level(45, load, 50), Formula::ratio(8, 100), noise.hotspot);
    lemma_drift(card.mem_temp, level(32, load, 40), Formula::ratio(6, 100), noise.memory);
    lemma_level_value(1024, load, 6500);
    lemma_level_value(35, load, 45);
    lemma_level_value(45, load, 50);
    lemma_level_value(32, load, 40);
    lemma_ratio(5, 100);
    lemma_ratio(8, 100);
    lemma_ratio(6, 100);
}

/// The load and the levels that a card takes are those that were worked out, moved into their
/// ranges; nothing else changes.
pub proof fn law_worked_out_levels_are_taken(
    card: MockState,
    load: Double,
    values: LevelValues,
    next: MockState,
)
    ensures
        card.takes_load(load, next) && !load.nan() ==> {
            &&& next.load.value() == clamped(load.value(), 0 as real, 1 as real)
            &&& next.vram_used == card.vram_used
            &&& next.edge_temp == card.edge_temp
            &&& next.hotspot_temp == card.hotspot_temp
            &&& next.mem_temp == card.mem_temp
        },
        card.takes_levels(values, next) ==> {
            &&& next.load == card.load
            &&& !values.vram_used.nan() ==> next.vram_used.value() == clamped(
                values.vram_used.value(),
                256 as real,
                7800 as real,
            )
            &&& !values.edge_temp.nan() ==> next.edge_temp.value() == clamped(
                values.edge_temp.value(),
                25 as real,
                95 as real,
            )
            &&& !values.hotspot_temp.nan() ==> next.hotspot_temp.value() == clamped(
                values.hotspot_temp.value(),
                30 as real,
                110 as real,
            )
            &&& !values.mem_temp.nan() ==> next.mem_temp.value() == clamped(
                values.mem_temp.value(),
                25 as real,
                95 as real,
            )
        },
{
    if card.takes_load(load, next) && !load.nan() {
        law_confined_is_nearest(load, 0, 1, next.load);
    }
    if card.takes_levels(values, next) {
        if !values.vram_used.nan() {
            law_confined_is_nearest(values.vram_used, 256, 7800, next.vram_used);
        }
        if !values.edge_temp.nan() {
            law_confined_is_nearest(values.edge_temp, 25, 95, next.edge_temp);
        }
        if !values.hotspot_temp.nan() {
            law_confined_is_nearest(values.hotspot_temp, 30, 110, next.hotspot_temp);
        }
        if !values.mem_temp.nan() {
            law_confined_is_nearest(values.mem_temp, 25, 95, next.mem_temp);
        }
    }
}

/// Whether a number is another one to one decimal place.
pub open spec fn to_one_place(shown: real, x: real) -> bool {
    x - 1 as real / 20 as real <= shown <= x + 1 as real / 20 as real
}

proof fn lemma_tenths_are_near(formula: Formula)
    ensures
        to_one_place(formula.to_tenths().value(), formula.value()),
{
    let x = formula.value();
    let tens = x * 10 as real;
    assert(formula.to_tenths().value() == round_half_away(tens) as real / 10 as real) by {
        reveal_with_fuel(Formula::value, 4);
    }
    law_rounding_is_near(tens);
    let rounded = round_half_away(tens) as real;
    assert(x - 1 as real / 20 as real <= rounded / 10 as real <= x + 1 as real / 20 as real)
        by (nonlinear_arith)
        requires
            tens == x * 10 as real,
            tens - 1 as real / 2 as real <= rounded <= tens + 1 as real / 2 as real,
    ;
}

/// The card reports its state: the load in percent, the temperatures and the power to one decimal
/// place, and memory and clocks as whole numbers.
pub proof fn law_mock_reports_its_state(
    card: MockState,
    noise: ReportNoise,
    now: u64,
    r: GpuSnapshot,
    counts: ReportedCounts,
)
    requires
        card.reports(noise, now, r),
        counts.are_of(r),
    ensures
        r.gpu_name@ == "Mock GPU (RX 7900 XTX)"@,
        r.gpu_vendor == GpuVendor::Mock,
        r.timestamp_ms == now,
        r.gpu_utilization matches Some(part) && to_one_place(
            part.value(),
            card.load.value() * 100 as real,
        ),
        r.temperatures.edge matches Some(t) && to_one_place(t.value(), card.edge_temp.value()),
        r.temperatures.hotspot matches Some(t) && to_one_place(
            t.value(),
            card.hotspot_temp.value(),
        ),
        r.temperatures.memory matches Some(t) && to_one_place(t.value(), card.mem_temp.value()),
        r.power_watts matches Some(power) && to_one_place(
            power.value(),
            15 as real + card.load.value() * 230 as real + noise.power.value(),
        ),
        counts.used as real <= card.vram_used.value() < counts.used as real + 1 as real,
        counts.gpu_clock as real <= 1200 as real + card.load.value() * 1200 as real
            + noise.gpu_clock.value() < counts.gpu_clock as real + 1 as real,
        counts.vram_clock as real <= 800 as real + card.load.value() * 1500 as real
            + noise.vram_clock.value() < counts.vram_clock as real + 1 as real,
{
    lemma_tenths_are_near(Formula::Value(card.edge_temp));
    lemma_tenths_are_near(Formula::Value(card.hotspot_temp));
    lemma_tenths_are_near(Formula::Value(card.mem_temp));
    let power = level(15, card.load, 230).plus(Formula::Value(noise.power));
    lemma_tenths_are_near(power);
    lemma_level_value(15, card.load, 230);
    lemma_level_value(1200, card.load, 1200);
    lemma_level_value(800, card.load, 1500);
    lemma_sum(level(15, card.load, 230), noise.power);
    lemma_sum(level(1200, card.load, 1200), noise.gpu_clock);
    lemma_sum(level(800, card.load, 1500), noise.vram_clock);
    let load = card.load.value();
    let thousands = load * 1000 as real;
    let shown = Formula::Value(card.load).times(Formula::Int(1000)).rounded().over(
        Formula::Int(10),
    );
    assert(shown.value() == round_half_away(thousands) as real / 10 as real) by {
        reveal_with_fuel(Formula::value, 4);
    }
    law_rounding_is_near(thousands);
    let rounded = round_half_away(thousands) as real;
    let hundred = load * 100 as real;
    assert(hundred - 1 as real / 20 as real <= rounded / 10 as real <= hundred + 1 as real
        / 20 as real) by (nonlinear_arith)
        requires
            thousands == load * 1000 as real,
            hundred == load * 100 as real,
            thousands - 1 as real / 2 as real <= rounded <= thousands + 1 as real / 2 as real,
    ;
}

proof fn lemma_sum(formula: Formula, d: Double)
    ensures
        formula.plus(Formula::Value(d)).value() == formula.value() + d.value(),
        Formula::Value(d).value() == d.value(),
{
    reveal_with_fuel(Formula::value, 2);
}

} // verus!
