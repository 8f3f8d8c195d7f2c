use gpupeek::amd::{
    fan_duty, power_cap_range_error, power_cap_write, power_limit, pwm_write, AmdProbe,
    AmdReadings, AmdSource, ControlFile, ControlReadings, PowerCapRefusal, WriteStep,
};
use gpupeek::amd_files::{build_temp_label_map, TempSensor};
use gpupeek::double::{Double, LARGEST_BITS};
use gpupeek::formula::{Count, Formula};
use gpupeek::gpu_control::{ControlError, CurvePoint, FanMode};
use gpupeek::gpu_data::GpuVendor;
use gpupeek::sysfs::SourceError;

fn double(x: f64) -> Double {
    Double { bits: x.to_bits() }
}

fn eval(formula: &Formula) -> f64 {
    match formula {
        Formula::Value(d) => f64::from_bits(d.bits),
        Formula::Int(n) => *n as f64,
        Formula::Neg(a) => -eval(a),
        Formula::Add(a, b) => eval(a) + eval(b),
        Formula::Sub(a, b) => eval(a) - eval(b),
        Formula::Mul(a, b) => eval(a) * eval(b),
        Formula::Div(a, b) => eval(a) / eval(b),
        Formula::Round(a) => eval(a).round(),
        Formula::Clamp(a, low, high) => eval(a).clamp(eval(low), eval(high)),
    }
}

fn number(formula: &Option<Formula>) -> Option<f64> {
    formula.as_ref().map(eval)
}

fn count(value: &Count) -> u64 {
    match value {
        Count::Exact(n) => *n,
        Count::Truncated(formula) => eval(formula) as u64,
    }
}

fn text(s: &str) -> Option<String> {
    Some(s.to_string())
}

fn point(temp_c: f64, speed_pct: f64) -> CurvePoint {
    CurvePoint { temp_c: double(temp_c), speed_pct: double(speed_pct) }
}

fn probe(has_util: bool, has_vram: bool, writable: bool) -> AmdProbe {
    AmdProbe {
        card_path: "/sys/class/drm/card1/device".to_string(),
        gpu_name: "Navi".to_string(),
        temp_labels: build_temp_label_map(&vec![
            TempSensor { label: text("edge\n"), has_input: true },
            TempSensor { label: text("junction\n"), has_input: true },
        ]),
        has_util,
        has_vram,
        fan_control_writable: writable,
        power_cap_writable: writable,
        voltage_offset_writable: writable,
    }
}

fn card(writable: bool) -> AmdSource {
    AmdSource::new(probe(true, true, writable)).unwrap()
}

fn no_readings() -> AmdReadings {
    AmdReadings {
        gpu_busy_percent: None,
        mem_info_vram_used: None,
        mem_info_vram_total: None,
        edge: None,
        junction: None,
        hotspot: None,
        mem: None,
        power1_average: None,
        power1_cap: None,
        fan1_input: None,
        fan1_max: None,
        pp_dpm_sclk: None,
        pp_dpm_mclk: None,
    }
}

fn no_control_readings() -> ControlReadings {
    ControlReadings {
        pwm1_enable: None,
        pwm1: None,
        pwm1_max: None,
        power1_cap: None,
        power1_cap_min: None,
        power1_cap_max: None,
        power1_cap_default: None,
        pp_od_clk_voltage: None,
    }
}

fn curve_of(card: &AmdSource) -> Vec<CurvePoint> {
    card.get_control_info(&no_control_readings()).fan_curve.unwrap()
}

fn own_mode(card: &AmdSource) -> Option<FanMode> {
    card.get_control_info(&no_control_readings()).fan_mode
}

fn temperatures(curve: &[CurvePoint]) -> Vec<f64> {
    curve.iter().map(|p| f64::from_bits(p.temp_c.bits)).collect()
}

#[test]
fn a_new_card_has_the_default_curve() {
    for (has_util, has_vram) in [(true, true), (true, false), (false, true)] {
        let card = AmdSource::new(probe(has_util, has_vram, true)).unwrap();
        assert_eq!(
            curve_of(&card),
            vec![point(30.0, 25.0), point(50.0, 35.0), point(70.0, 70.0), point(85.0, 100.0)]
        );
        assert!(own_mode(&card).is_none());
        let info = card.get_control_info(&no_control_readings());
        assert!(info.fan_control_available && info.power_cap_available);
        assert!(info.voltage_offset_available);
        assert_eq!(card.gpu_id().as_deref(), Some("/sys/class/drm/card1/device"));
    }
    let e = AmdSource::new(probe(false, false, true)).unwrap_err();
    assert!(matches!(e, SourceError::NoAmdMetrics));
    assert_eq!(e.to_string(), "AMD GPU found but no readable metrics");
}

#[test]
fn sensor_files() {
    let card = card(true);
    assert_eq!(card.temp_input("edge").as_deref(), Some("temp1_input"));
    assert_eq!(card.temp_input("junction").as_deref(), Some("temp2_input"));
    assert_eq!(card.temp_input("mem"), None);
    let inputs = card.temp_inputs();
    assert_eq!(inputs.edge.as_deref(), Some("temp1_input"));
    assert_eq!(inputs.junction.as_deref(), Some("temp2_input"));
    assert_eq!((inputs.hotspot, inputs.mem), (None, None));
}

#[test]
fn measurements() {
    let readings = AmdReadings {
        gpu_busy_percent: Some(double(37.0)),
        mem_info_vram_used: text("2147483648\n"),
        mem_info_vram_total: text("8589934592\n"),
        edge: Some(double(61000.0)),
        junction: Some(double(72500.0)),
        hotspot: Some(double(1.0)),
        mem: Some(double(58250.0)),
        power1_average: Some(double(123456789.0)),
        power1_cap: Some(double(250000000.0)),
        fan1_input: text("1234\n"),
        fan1_max: text("3300\n"),
        pp_dpm_sclk: text("0: 500Mhz\n1: 1200Mhz *\n2: 2500Mhz\n"),
        pp_dpm_mclk: text("0: 96Mhz *\n1: 1249Mhz\n"),
    };
    let snap = card(true).snapshot(&readings, 77);
    assert_eq!(snap.gpu_name, "Navi");
    assert_eq!(snap.gpu_vendor, GpuVendor::Amd);
    assert_eq!(number(&snap.gpu_utilization), Some(37.0));
    assert_eq!(count(&snap.vram_used_mb.unwrap()), 2048);
    assert_eq!(snap.vram_total_mb, Some(8192));
    assert_eq!(number(&snap.temperatures.edge), Some(61.0));
    assert_eq!(number(&snap.temperatures.hotspot), Some(72.5));
    assert_eq!(number(&snap.temperatures.memory), Some(58.25));
    let fan = snap.fan.unwrap();
    assert_eq!(count(&fan.speed_rpm), 1234);
    assert_eq!(eval(&fan.speed_pct), 37.4);
    assert_eq!(fan.max_rpm, 3300);
    assert_eq!(number(&snap.power_watts), Some(123.456789));
    assert_eq!(number(&snap.power_cap_watts), Some(250.0));
    assert_eq!(count(&snap.gpu_clock_mhz.unwrap()), 1200);
    assert_eq!(snap.gpu_clock_max_mhz, Some(2500));
    assert_eq!(count(&snap.vram_clock_mhz.unwrap()), 96);
    assert_eq!(snap.vram_clock_max_mhz, Some(1249));
    assert_eq!(snap.timestamp_ms, 77);
}

#[test]
fn what_is_missing_is_absent() {
    let snap = card(true).snapshot(&no_readings(), 0);
    assert!(snap.gpu_utilization.is_none() && snap.vram_used_mb.is_none());
    assert!(snap.vram_total_mb.is_none() && snap.fan.is_none());
    assert!(snap.temperatures.edge.is_none() && snap.temperatures.hotspot.is_none());
    assert!(snap.temperatures.memory.is_none() && snap.power_watts.is_none());
    assert!(snap.power_cap_watts.is_none() && snap.gpu_clock_mhz.is_none());
    assert!(snap.gpu_clock_max_mhz.is_none() && snap.vram_clock_mhz.is_none());
    assert!(snap.vram_clock_max_mhz.is_none());
    let readings = AmdReadings { hotspot: Some(double(70000.0)), ..no_readings() };
    assert_eq!(number(&card(true).snapshot(&readings, 0).temperatures.hotspot), Some(70.0));
}

#[test]
fn fans_without_a_maximum() {
    let fan = |input: &str, max: Option<String>| {
        let readings =
            AmdReadings { fan1_input: text(input), fan1_max: max, ..no_readings() };
        let fan = card(true).snapshot(&readings, 0).fan.unwrap();
        (count(&fan.speed_rpm), eval(&fan.speed_pct), fan.max_rpm)
    };
    assert_eq!(fan("1500", None), (1500, 50.0, 3000));
    assert_eq!(fan("1500", text("0")), (1500, 0.0, 0));
    assert_eq!(fan("1500", text("x")), (1500, 50.0, 3000));
    assert_eq!(fan("4294967297", text("4294967300")), (1, 25.0, 4));
    assert_eq!(fan("3000", None).1, 100.0);
}

#[test]
fn fan_modes_are_written_and_remembered() {
    for (mode, written, kept) in [
        (FanMode::Auto, "2", None),
        (FanMode::Manual, "1", Some(FanMode::Manual)),
        (FanMode::Curve, "1", Some(FanMode::Curve)),
    ] {
        let mut card = card(true);
        card.set_fan_mode(FanMode::Manual).unwrap();
        let write = card.set_fan_mode(mode).unwrap();
        assert_eq!(write.file, ControlFile::Pwm1Enable);
        assert_eq!(write.file.name(), "pwm1_enable");
        assert!(write.file.is_hwmon_file());
        assert_eq!(write.text, written);
        assert_eq!(own_mode(&card), kept);
        let readings =
            ControlReadings { pwm1_enable: Some(format!("{}\n", written)), ..no_control_readings() };
        assert_eq!(card.get_control_info(&readings).fan_mode, Some(mode));
        match write.failed("no space") {
            ControlError::BackendError(text) => {
                assert_eq!(text, "failed to write pwm1_enable: no space")
            }
            other => panic!("{:?}", other),
        }
    }
}

#[test]
fn a_card_that_cannot_be_written_refuses() {
    let mut card = card(false);
    let fan = "permission denied: fan control not writable (need root?)";
    assert_eq!(card.set_fan_mode(FanMode::Manual).unwrap_err().to_string(), fan);
    assert_eq!(card.set_fan_speed(double(500.0)).unwrap_err().to_string(), fan);
    assert_eq!(card.set_fan_curve(vec![]).unwrap_err().to_string(), fan);
    match card.set_power_cap(double(-1.0), None, None) {
        Err(PowerCapRefusal::Denied(e)) => assert_eq!(
            e.to_string(),
            "permission denied: power cap not writable (need root?)"
        ),
        other => panic!("{:?}", other),
    }
    assert_eq!(
        card.set_voltage_offset(900).unwrap_err().to_string(),
        "permission denied: voltage offset not writable (need root and amdgpu.ppfeaturemask?)"
    );
    assert!(own_mode(&card).is_none());
    assert_eq!(curve_of(&card).len(), 4);
}

#[test]
fn fan_speeds_become_duty_cycles() {
    let duty = |pct: f64, max: Option<String>| {
        let mut card = card(true);
        let plan = card.set_fan_speed(double(pct)).unwrap();
        assert_eq!(plan.mode.text, "1");
        assert_eq!(own_mode(&card), Some(FanMode::Manual));
        let write = pwm_write(count(&fan_duty(plan.speed_pct, &max)));
        assert_eq!(write.file, ControlFile::Pwm1);
        assert_eq!(write.file.name(), "pwm1");
        assert!(write.file.is_hwmon_file());
        assert_eq!(write.failed("x").to_string(), "backend error: failed to write pwm1: x");
        write.text
    };
    assert_eq!(duty(0.0, None), "0");
    assert_eq!(duty(50.0, None), "128");
    assert_eq!(duty(100.0, None), "255");
    assert_eq!(duty(50.0, text("200\n")), "100");
    assert_eq!(duty(33.3, text("1000\n")), "333");
    assert_eq!(duty(-0.0, text("0")), "0");
}

#[test]
fn fan_speeds_out_of_range_are_refused() {
    for pct in [-0.1, 100.1, f64::NAN, f64::INFINITY, f64::NEG_INFINITY] {
        let mut card = card(true);
        let e = card.set_fan_speed(double(pct)).unwrap_err();
        assert_eq!(e.to_string(), "invalid value: fan speed must be 0-100%");
        assert!(own_mode(&card).is_none());
    }
}

#[test]
fn a_set_speed_is_reported_again() {
    for tenths in 0..=1000 {
        let pct = tenths as f64 / 10.0;
        let mut card = card(true);
        let plan = card.set_fan_speed(double(pct)).unwrap();
        let write = pwm_write(count(&fan_duty(plan.speed_pct, &None)));
        let readings = ControlReadings {
            pwm1_enable: text("1\n"),
            pwm1: Some(write.text),
            ..no_control_readings()
        };
        let info = card.get_control_info(&readings);
        assert_eq!(info.fan_mode, Some(FanMode::Manual));
        let shown = number(&info.fan_manual_speed_pct).unwrap();
        assert!((shown - pct).abs() <= 0.25);
        assert!((0.0..=100.0).contains(&shown));
    }
}

#[test]
fn curves_are_sorted_and_kept() {
    let mut card = card(true);
    let write = card
        .set_fan_curve(vec![point(90.0, 100.0), point(20.0, 10.0), point(20.0, 5.0)])
        .unwrap();
    assert_eq!(write.text, "1");
    assert_eq!(own_mode(&card), Some(FanMode::Curve));
    assert_eq!(curve_of(&card), vec![point(20.0, 10.0), point(20.0, 5.0), point(90.0, 100.0)]);
    let held = curve_of(&card);
    assert!(card.set_fan_curve(held.clone()).is_ok());
    assert_eq!(curve_of(&card), held);
    let info = card.get_control_info(&no_control_readings());
    assert_eq!(info.fan_curve, Some(held));
}

#[test]
fn bad_curves_are_refused() {
    let refused = |curve: Vec<CurvePoint>| {
        let mut card = card(true);
        let e = card.set_fan_curve(curve).unwrap_err();
        assert_eq!(temperatures(&curve_of(&card)), vec![30.0, 50.0, 70.0, 85.0]);
        assert!(own_mode(&card).is_none());
        e.to_string()
    };
    assert_eq!(refused(vec![]), "invalid value: curve must have at least one point");
    let temperature = "invalid value: temperature must be 0-110°C";
    assert_eq!(refused(vec![point(110.5, 50.0)]), temperature);
    assert_eq!(refused(vec![point(-1.0, 50.0)]), temperature);
    assert_eq!(refused(vec![point(f64::NAN, 50.0)]), temperature);
    let speed = "invalid value: fan speed must be 0-100%";
    assert_eq!(refused(vec![point(50.0, 100.5)]), speed);
    assert_eq!(refused(vec![point(50.0, f64::NAN)]), speed);
    assert_eq!(refused(vec![point(120.0, 50.0), point(40.0, -1.0)]), speed);
    assert_eq!(refused(vec![point(120.0, -1.0), point(40.0, 1.0)]), temperature);
}

#[test]
fn power_caps_are_written_in_microwatts() {
    let card = card(true);
    let cap = card.set_power_cap(double(220.5), Some(double(100.0)), Some(double(300.0))).unwrap();
    assert_eq!(count(&cap), 220_500_000);
    let write = power_cap_write(count(&cap));
    assert_eq!(write.file, ControlFile::Power1Cap);
    assert_eq!(write.file.name(), "power1_cap");
    assert!(write.file.is_hwmon_file());
    assert_eq!(write.text, "220500000");
    assert_eq!(write.failed("x").to_string(), "backend error: failed to write power1_cap: x");
    for watts in [100.0, 300.0] {
        assert!(card
            .set_power_cap(double(watts), Some(double(100.0)), Some(double(300.0)))
            .is_ok());
    }
    assert_eq!(count(&card.set_power_cap(double(0.0), None, None).unwrap()), 0);
    assert_eq!(count(&card.set_power_cap(double(f64::NAN), None, None).unwrap()), 0);
    let readings = ControlReadings { power1_cap: Some(double(220_500_000.0)), ..no_control_readings() };
    assert_eq!(number(&card.get_control_info(&readings).power_cap_watts), Some(220.5));
}

#[test]
fn power_caps_out_of_range_are_refused() {
    let card = card(true);
    let limits = |watts: f64, min: Option<f64>, max: Option<f64>| {
        match card.set_power_cap(double(watts), min.map(double), max.map(double)) {
            Err(PowerCapRefusal::OutOfRange { min_watts, max_watts }) => {
                (f64::from_bits(min_watts.bits), f64::from_bits(max_watts.bits))
            }
            other => panic!("{:?}", other),
        }
    };
    assert_eq!(limits(99.9, Some(100.0), Some(300.0)), (100.0, 300.0));
    assert_eq!(limits(300.1, Some(100.0), Some(300.0)), (100.0, 300.0));
    assert_eq!(limits(-0.1, None, Some(300.0)), (0.0, 300.0));
    assert_eq!(limits(f64::INFINITY, None, None), (0.0, f64::MAX));
    assert_eq!(f64::from_bits(LARGEST_BITS), f64::MAX);
    assert_eq!(
        power_cap_range_error("100", "300.5").to_string(),
        "invalid value: power cap must be between 100 and 300.5 W"
    );
}

#[test]
fn voltage_offsets_are_written_and_committed() {
    let card = card(true);
    for mv in [-250, -1, 0, 17, 250] {
        let (write, commit) = card.set_voltage_offset(mv).unwrap();
        assert_eq!(write.file, ControlFile::PpOdClkVoltage);
        assert_eq!(write.file.name(), "pp_od_clk_voltage");
        assert!(!write.file.is_hwmon_file());
        assert_eq!(write.text, format!("vo {}", mv));
        assert_eq!(commit.file, ControlFile::PpOdClkVoltage);
        assert_eq!(commit.text, "c");
        assert_eq!(
            write.failed("x").to_string(),
            "backend error: failed to write voltage offset: x"
        );
        assert_eq!(
            commit.failed("x").to_string(),
            "backend error: failed to commit voltage offset: x"
        );
    }
    for mv in [-251, 251, i32::MIN, i32::MAX] {
        assert_eq!(
            card.set_voltage_offset(mv).unwrap_err().to_string(),
            "invalid value: voltage offset must be between -250 and +250 mV"
        );
    }
}

#[test]
fn the_curve_drives_the_fan() {
    let mut card = card(true);
    assert!(card.apply_curve_tick(Some(double(60.0))).is_none());
    card.set_fan_mode(FanMode::Manual).unwrap();
    assert!(card.apply_curve_tick(Some(double(60.0))).is_none());
    card.set_fan_mode(FanMode::Curve).unwrap();
    assert!(card.apply_curve_tick(None).is_none());
    assert_eq!(number(&card.apply_curve_tick(Some(double(60.0)))), Some(52.5));
    assert_eq!(number(&card.apply_curve_tick(Some(double(10.0)))), Some(25.0));
    let duty = fan_duty(card.apply_curve_tick(Some(double(60.0))).unwrap(), &None);
    assert_eq!(count(&duty), 134);
}

#[test]
fn critical_temperatures_override_the_curve() {
    let mut card = card(true);
    card.set_fan_curve(vec![point(0.0, 10.0)]).unwrap();
    assert_eq!(number(&card.apply_curve_tick(Some(double(94.9)))), Some(10.0));
    assert_eq!(number(&card.apply_curve_tick(Some(double(95.0)))), Some(100.0));
    assert_eq!(number(&card.apply_curve_tick(Some(double(120.0)))), Some(100.0));
    assert_eq!(number(&card.apply_curve_tick(Some(double(f64::NAN)))), Some(10.0));
}

#[test]
fn the_state_of_the_settings() {
    let mut card = card(true);
    let readings = ControlReadings {
        pwm1_enable: text("1\n"),
        pwm1: text("128\n"),
        pwm1_max: text("255\n"),
        power1_cap: Some(double(220_000_000.0)),
        power1_cap_min: Some(double(100_000_000.0)),
        power1_cap_max: Some(double(300_000_000.0)),
        power1_cap_default: Some(double(250_000_000.0)),
        pp_od_clk_voltage: text("OD_VDDGFX_OFFSET:\n-50mV\n"),
    };
    let info = card.get_control_info(&readings);
    assert!(info.fan_control_available && info.power_cap_available);
    assert!(info.voltage_offset_available);
    assert_eq!(info.fan_mode, Some(FanMode::Manual));
    assert_eq!(number(&info.fan_manual_speed_pct), Some(50.2));
    assert_eq!(number(&info.power_cap_watts), Some(220.0));
    assert_eq!(number(&info.power_cap_min_watts), Some(100.0));
    assert_eq!(number(&info.power_cap_max_watts), Some(300.0));
    assert_eq!(number(&info.power_cap_default_watts), Some(250.0));
    assert_eq!(info.voltage_offset_mv, Some(-50));
    card.set_fan_mode(FanMode::Curve).unwrap();
    let info = card.get_control_info(&readings);
    assert_eq!(info.fan_mode, Some(FanMode::Curve));
    assert_eq!(number(&info.fan_manual_speed_pct), Some(50.2));
    card.set_fan_mode(FanMode::Auto).unwrap();
    let info = card.get_control_info(&ControlReadings { pwm1_enable: text("2\n"), ..readings });
    assert_eq!(info.fan_mode, Some(FanMode::Auto));
    assert!(info.fan_manual_speed_pct.is_none());
    let info = card.get_control_info(&no_control_readings());
    assert!(info.fan_mode.is_none() && info.fan_manual_speed_pct.is_none());
    assert!(info.power_cap_watts.is_none() && info.voltage_offset_mv.is_none());
}

#[test]
fn power_limits_are_given_in_watts() {
    assert_eq!(number(&power_limit(Some(double(186_000_000.0)))), Some(186.0));
    assert!(power_limit(None).is_none());
}

#[test]
fn single_writes_report_their_failure() {
    let write = pwm_write(5);
    assert!(write.after(Ok(())).is_ok());
    let e = write.after(Err("busy".to_string())).unwrap_err();
    assert_eq!(e.to_string(), "backend error: failed to write pwm1: busy");
}

#[test]
fn the_second_write_follows_the_first() {
    let (write, commit) = card(true).set_voltage_offset(-50).unwrap();
    let step = WriteStep::First.next(&write, Ok(()));
    assert!(matches!(step, WriteStep::Second));
    assert!(matches!(step.next(&commit, Ok(())), WriteStep::Done));
    assert!(matches!(WriteStep::Done.next(&write, Ok(())), WriteStep::Done));
    match WriteStep::Second.next(&commit, Err("no".to_string())) {
        WriteStep::Failed(e) => {
            assert_eq!(e.to_string(), "backend error: failed to commit voltage offset: no")
        }
        other => panic!("{:?}", other),
    }
}

#[test]
fn a_failed_first_write_stops_the_second() {
    let plan = card(true).set_fan_speed(double(40.0)).unwrap();
    let step = WriteStep::First.next(&plan.mode, Err("no".to_string()));
    match step.next(&pwm_write(102), Ok(())) {
        WriteStep::Failed(e) => {
            assert_eq!(e.to_string(), "backend error: failed to write pwm1_enable: no")
        }
        other => panic!("{:?}", other),
    }
}
