use gpupeek::double::Double;
use gpupeek::formula::{Count, Formula};
use gpupeek::gpu_data::{ms_at, now_ms, timestamp_of, GpuVendor};
use gpupeek::intel::{IntelReadings, IntelSource};
use gpupeek::mock_data::{
    Draw, LevelNoise, LevelValues, MockGpu, ReportNoise, JUMP_CHANCE_BITS, START_LOAD_BITS,
};
use gpupeek::nvidia::{
    nvapi_version, select_handle, MaskScan, MemoryInfo, NvApiStep, NvApiThermals, NvidiaReadings,
    NvidiaSource, NVAPI_SENSOR_HOTSPOT, NVAPI_SENSOR_VRAM,
};
use gpupeek::sysfs::SourceError;

fn double(x: f64) -> Double {
    Double { bits: x.to_bits() }
}

fn eval(formula: &Formula) -> f64 {
    match formula {
        Formula::Value(d) => f64::from_bits(d.bits),
        Formula::Int(n) => *n as f64,
        Formula::Neg(a) => -eval(a),
        Formula::Add(a, b) => eval(a) + eval(b),
        Formula::Sub(a, b) => eval(a) - eval(b),
        Formula::Mul(a, b) => eval(a) * eval(b),
        Formula::Div(a, b) => eval(a) / eval(b),
        Formula::Round(a) => eval(a).round(),
        Formula::Clamp(a, low, high) => eval(a).clamp(eval(low), eval(high)),
    }
}

fn number(formula: &Option<Formula>) -> Option<f64> {
    formula.as_ref().map(eval)
}

fn count(value: &Count) -> u64 {
    match value {
        Count::Exact(n) => *n,
        Count::Truncated(formula) => eval(formula) as u64,
    }
}

fn text(s: &str) -> Option<String> {
    Some(s.to_string())
}

fn no_nvidia_readings() -> NvidiaReadings {
    NvidiaReadings {
        name: "RTX".to_string(),
        gpu_utilization: None,
        memory_info: None,
        temperature: None,
        thermals: None,
        num_fans: None,
        fan_speed: None,
        power_usage: None,
        enforced_power_limit: None,
        graphics_clock: None,
        max_graphics_clock: None,
        memory_clock: None,
        max_memory_clock: None,
    }
}

fn thermals(hotspot: i32, memory: i32) -> NvApiThermals {
    let mut values = [0; 40];
    values[NVAPI_SENSOR_HOTSPOT] = hotspot;
    values[NVAPI_SENSOR_VRAM] = memory;
    NvApiThermals { values }
}

fn mock(load: f64, vram_used: f64, edge: f64, hotspot: f64, memory: f64) -> MockGpu {
    let mut gpu = MockGpu::new();
    gpu.take_load(double(load));
    gpu.take_levels(&LevelValues {
        vram_used: double(vram_used),
        edge_temp: double(edge),
        hotspot_temp: double(hotspot),
        mem_temp: double(memory),
    });
    gpu
}

fn quiet() -> ReportNoise {
    ReportNoise { power: double(0.0), gpu_clock: double(0.0), vram_clock: double(0.0) }
}

/// A fan that is linear between its points and constant outside.
fn fan_line(temp: f64) -> f64 {
    let points = [(40.0, 25.0), (60.0, 50.0), (80.0, 85.0), (100.0, 100.0)];
    for i in 0..3 {
        let (a, b) = (points[i], points[i + 1]);
        if temp < a.0 {
            return a.1;
        }
        if temp < b.0 {
            return a.1 + (temp - a.0) / (b.0 - a.0) * (b.1 - a.1);
        }
    }
    100.0
}

#[test]
fn vendors_have_names() {
    assert_eq!(GpuVendor::Nvidia.to_string(), "NVIDIA");
    assert_eq!(GpuVendor::Amd.to_string(), "AMD");
    assert_eq!(GpuVendor::Intel.to_string(), "Intel");
    assert_eq!(GpuVendor::Mock.to_string(), "Mock");
}

#[test]
fn the_clock_runs() {
    let first = now_ms().unwrap();
    assert!(first > 1_577_836_800_000);
    assert_eq!(timestamp_of(1_700_000_000_123), 1_700_000_000_123);
    assert_eq!(timestamp_of(u64::MAX as u128 + 6), 5);
}

#[test]
fn moments_have_their_milliseconds() {
    let epoch = std::time::UNIX_EPOCH;
    let after = |span: std::time::Duration| ms_at(epoch + span);
    assert_eq!(ms_at(epoch), Some(0));
    assert_eq!(after(std::time::Duration::from_millis(1_700_000_000_123)), Some(1_700_000_000_123));
    assert_eq!(after(std::time::Duration::new(1, 999_999_999)), Some(1999));
    assert_eq!(after(std::time::Duration::from_micros(999)), Some(0));
    assert_eq!(ms_at(epoch - std::time::Duration::from_nanos(1)), None);
    let before = ms_at(std::time::SystemTime::now()).unwrap();
    let now = now_ms().unwrap();
    let after = ms_at(std::time::SystemTime::now()).unwrap();
    assert!(before <= now + 1000 && now <= after + 1000);
}

#[test]
fn intel_cards_need_sensors() {
    let e = IntelSource::new("/c".to_string(), None, "Intel GPU".to_string()).unwrap_err();
    assert!(matches!(e, SourceError::NoIntelMetrics));
    assert_eq!(e.to_string(), "Intel GPU found but no hwmon metrics available");
}

#[test]
fn intel_measurements() {
    let mut card = IntelSource::new("/c".to_string(), text("/h"), "Arc".to_string()).unwrap();
    let readings = IntelReadings {
        temp1_input: Some(double(45500.0)),
        power1_average: Some(double(12500000.0)),
        power1_cap: Some(double(30000000.0)),
        mem_info_vram_used: text("1048576\n"),
        mem_info_vram_total: text("4194304\n"),
        gpu_busy_percent: Some(double(12.0)),
    };
    let snap = card.snapshot(&readings, 5);
    assert_eq!(snap.gpu_name, "Arc");
    assert_eq!(snap.gpu_vendor, GpuVendor::Intel);
    assert_eq!(number(&snap.gpu_utilization), Some(12.0));
    assert_eq!(count(&snap.vram_used_mb.unwrap()), 1);
    assert_eq!(snap.vram_total_mb, Some(4));
    assert_eq!(number(&snap.temperatures.edge), Some(45.5));
    assert!(snap.temperatures.hotspot.is_none() && snap.temperatures.memory.is_none());
    assert!(snap.fan.is_none() && snap.gpu_clock_mhz.is_none());
    assert!(snap.gpu_clock_max_mhz.is_none() && snap.vram_clock_mhz.is_none());
    assert!(snap.vram_clock_max_mhz.is_none());
    assert_eq!(number(&snap.power_watts), Some(12.5));
    assert_eq!(number(&snap.power_cap_watts), Some(30.0));
    assert_eq!(snap.timestamp_ms, 5);
    card.hwmon_path = None;
    let snap = card.snapshot(&readings, 5);
    assert!(snap.temperatures.edge.is_none() && snap.power_watts.is_none());
    assert!(snap.power_cap_watts.is_none());
    assert_eq!(number(&snap.gpu_utilization), Some(12.0));
}

#[test]
fn nvidia_needs_a_device() {
    assert_eq!(NvidiaSource::new(2).unwrap().device_index, 0);
    let e = NvidiaSource::new(0).unwrap_err();
    assert!(matches!(e, SourceError::NoNvidiaCard));
    assert_eq!(e.to_string(), "No NVIDIA GPUs found");
    assert_eq!(NvidiaSource::handle_bus(Some(7)), 7);
    assert_eq!(NvidiaSource::handle_bus(None), 0);
}

#[test]
fn nvidia_measurements() {
    let card = NvidiaSource::new(1).unwrap();
    let readings = NvidiaReadings {
        name: "RTX".to_string(),
        gpu_utilization: Some(63),
        memory_info: Some(MemoryInfo { used: 3 << 20, total: (8 << 30) + 5 }),
        temperature: Some(64),
        thermals: Some(thermals(75 * 256 + 200, 82 * 256)),
        num_fans: Some(2),
        fan_speed: Some(47),
        power_usage: Some(123456),
        enforced_power_limit: Some(320000),
        graphics_clock: Some(1800),
        max_graphics_clock: Some(2100),
        memory_clock: Some(9501),
        max_memory_clock: Some(10501),
    };
    let snap = card.snapshot(readings, 9);
    assert_eq!(snap.gpu_name, "RTX");
    assert_eq!(snap.gpu_vendor, GpuVendor::Nvidia);
    assert_eq!(number(&snap.gpu_utilization), Some(63.0));
    assert_eq!(count(&snap.vram_used_mb.unwrap()), 3);
    assert_eq!(snap.vram_total_mb, Some(8192));
    assert_eq!(number(&snap.temperatures.edge), Some(64.0));
    assert_eq!(number(&snap.temperatures.hotspot), Some(75.0));
    assert_eq!(number(&snap.temperatures.memory), Some(82.0));
    let fan = snap.fan.unwrap();
    assert_eq!(count(&fan.speed_rpm), 1410);
    assert_eq!(eval(&fan.speed_pct), 47.0);
    assert_eq!(fan.max_rpm, 3000);
    assert_eq!(number(&snap.power_watts), Some(123.456));
    assert_eq!(number(&snap.power_cap_watts), Some(320.0));
    assert_eq!(count(&snap.gpu_clock_mhz.unwrap()), 1800);
    assert_eq!(snap.gpu_clock_max_mhz, Some(2100));
    assert_eq!(count(&snap.vram_clock_mhz.unwrap()), 9501);
    assert_eq!(snap.vram_clock_max_mhz, Some(10501));
    assert_eq!(snap.timestamp_ms, 9);
}

#[test]
fn nvidia_without_reports() {
    let card = NvidiaSource::new(1).unwrap();
    let snap = card.snapshot(no_nvidia_readings(), 0);
    assert!(snap.gpu_utilization.is_none() && snap.vram_used_mb.is_none());
    assert!(snap.vram_total_mb.is_none() && snap.temperatures.edge.is_none());
    assert!(snap.temperatures.hotspot.is_none() && snap.temperatures.memory.is_none());
    assert!(snap.fan.is_none() && snap.power_watts.is_none() && snap.power_cap_watts.is_none());
    for (num_fans, fan_speed) in [(Some(0), Some(50)), (Some(1), None), (None, Some(50))] {
        let readings = NvidiaReadings { num_fans, fan_speed, ..no_nvidia_readings() };
        assert!(card.snapshot(readings, 0).fan.is_none());
    }
}

#[test]
fn thermal_slots() {
    let mut values = [0; 40];
    values[0] = 255;
    values[1] = 256;
    values[2] = 254 * 256 + 255;
    values[3] = 255 * 256;
    values[4] = -256 * 40;
    values[5] = i32::MIN;
    values[6] = i32::MAX;
    values[39] = 50 * 256;
    let thermals = NvApiThermals { values };
    let degrees: Vec<Option<f64>> = (0..7).map(|i| number(&thermals.get_temp(i))).collect();
    assert_eq!(degrees, vec![None, Some(1.0), Some(254.0), None, None, None, None]);
    assert_eq!(number(&thermals.get_temp(39)), Some(50.0));
    assert!(thermals.get_temp(40).is_none());
    assert!(thermals.get_temp(usize::MAX).is_none());
}

#[test]
fn structure_versions() {
    assert_eq!(nvapi_version::<[i32; 42]>(2), 168 | (2 << 16));
    assert_eq!(nvapi_version::<u8>(1), 0x10001);
    assert_eq!(nvapi_version::<()>(0), 0);
}

#[test]
fn handles_are_found_by_their_bus() {
    let buses = vec![Some(1), None, Some(3), Some(3)];
    assert_eq!(select_handle(&buses, 3), 2);
    assert_eq!(select_handle(&buses, 1), 0);
    assert_eq!(select_handle(&buses, 9), 0);
    assert_eq!(select_handle(&vec![], 9), 0);
}

#[test]
fn the_driver_interface_is_taken_step_by_step() {
    let ok = Some(0);
    let step = NvApiStep::Initialize.next(ok, 0);
    assert_eq!(step, NvApiStep::Enumerate);
    let step = step.next(ok, 2);
    assert_eq!(step, NvApiStep::FindBus);
    let step = step.next(ok, 2);
    assert_eq!(step, NvApiStep::ProbeThermals);
    let step = step.next(ok, 2);
    assert_eq!(step, NvApiStep::Ready);
    assert_eq!(step.next(None, 0), NvApiStep::Ready);
}

#[test]
fn a_refusal_makes_the_driver_interface_unavailable() {
    for step in [NvApiStep::Initialize, NvApiStep::Enumerate, NvApiStep::ProbeThermals] {
        assert_eq!(step.next(None, 1), NvApiStep::Unavailable);
        assert_eq!(step.next(Some(-1), 1), NvApiStep::Unavailable);
    }
    assert_eq!(NvApiStep::Enumerate.next(Some(0), 0), NvApiStep::Unavailable);
    assert_eq!(NvApiStep::FindBus.next(None, 1), NvApiStep::Unavailable);
    assert_eq!(NvApiStep::Unavailable.next(Some(0), 1), NvApiStep::Unavailable);
}

#[test]
fn sensors_are_asked_one_by_one() {
    for refused in 0..32 {
        let mut scan = MaskScan::new();
        let mut asked = 0;
        while let Some(trial) = scan.next_trial() {
            assert_eq!(trial, 1i32 << asked);
            scan.report(if asked == refused { -5 } else { 0 });
            asked += 1;
        }
        assert_eq!(asked, refused + 1);
        assert_eq!(scan.mask(), (1i32 << refused).wrapping_sub(1));
        scan.report(0);
        assert_eq!(scan.mask(), (1i32 << refused).wrapping_sub(1));
    }
    let mut scan = MaskScan::new();
    assert_eq!(scan.mask(), 1);
    let mut asked = 0;
    while scan.next_trial().is_some() {
        scan.report(0);
        asked += 1;
    }
    assert_eq!(asked, 32);
    assert_eq!(scan.mask(), i32::MIN);
}

#[test]
fn a_new_mock_is_at_rest() {
    let snap = MockGpu::new().snapshot(&quiet(), 0);
    assert_eq!(number(&snap.gpu_utilization), Some(30.0));
    assert_eq!(count(&snap.vram_used_mb.unwrap()), 2048);
    assert_eq!(number(&snap.temperatures.edge), Some(42.0));
    assert_eq!(number(&snap.temperatures.hotspot), Some(55.0));
    assert_eq!(number(&snap.temperatures.memory), Some(40.0));
    assert_eq!(f64::from_bits(START_LOAD_BITS), 0.3);
    assert_eq!(f64::from_bits(JUMP_CHANCE_BITS), 0.02);
}

#[test]
fn random_numbers_have_their_ranges() {
    for (draw, low, high) in [
        (Draw::Gate, 0.0, 1.0),
        (Draw::Jump, 0.0, 1.0),
        (Draw::Wander, -0.05, 0.05),
        (Draw::Load, -0.02, 0.02),
        (Draw::Vram, -50.0, 50.0),
        (Draw::Edge, -0.3, 0.3),
        (Draw::Hotspot, -0.4, 0.4),
        (Draw::Memory, -0.2, 0.2),
        (Draw::Power, -3.0, 3.0),
        (Draw::GpuClock, -20.0, 20.0),
        (Draw::VramClock, -10.0, 10.0),
    ] {
        let range = draw.range();
        assert_eq!((eval(&range.0), eval(&range.1)), (low, high), "{:?}", draw);
    }
}

#[test]
fn the_mock_load_drifts() {
    assert_eq!(MockGpu::aim(double(0.019)), Draw::Jump);
    assert_eq!(MockGpu::aim(double(0.02)), Draw::Wander);
    assert_eq!(MockGpu::aim(double(0.9)), Draw::Wander);
    let gpu = MockGpu::new();
    let jump = gpu.next_load(Draw::Jump, double(0.9), double(0.01));
    assert_eq!(eval(&jump), 0.3 + (0.9 - 0.3) * 0.1 + 0.01);
    let wander = gpu.next_load(Draw::Wander, double(-0.04), double(-0.015));
    assert_eq!(eval(&wander), 0.3 + ((0.3 + -0.04) - 0.3) * 0.1 + -0.015);
    let mut idle = mock(0.0, 2048.0, 42.0, 55.0, 40.0);
    let below = eval(&idle.next_load(Draw::Wander, double(0.0), double(-0.02)));
    assert_eq!(below, -0.02);
    idle.take_load(double(below));
    assert_eq!(number(&idle.snapshot(&quiet(), 0).gpu_utilization), Some(0.0));
    let mut busy = mock(1.0, 2048.0, 42.0, 55.0, 40.0);
    let above = eval(&busy.next_load(Draw::Wander, double(0.05), double(0.02)));
    assert!(above > 1.0);
    busy.take_load(double(above));
    assert_eq!(number(&busy.snapshot(&quiet(), 0).gpu_utilization), Some(100.0));
}

#[test]
fn the_mock_levels_drift() {
    let gpu = MockGpu::new();
    let levels = gpu.next_levels(&LevelNoise {
        vram: double(12.0),
        edge: double(0.1),
        hotspot: double(-0.2),
        memory: double(0.05),
    });
    assert_eq!(
        eval(&levels.vram_used),
        2048.0 + ((1024.0 + 0.3 * 6500.0) - 2048.0) * 0.05 + 12.0
    );
    assert_eq!(eval(&levels.edge_temp), 42.0 + ((35.0 + 0.3 * 45.0) - 42.0) * 0.08 + 0.1);
    assert_eq!(eval(&levels.hotspot_temp), 55.0 + ((45.0 + 0.3 * 50.0) - 55.0) * 0.08 + -0.2);
    assert_eq!(eval(&levels.mem_temp), 40.0 + ((32.0 + 0.3 * 40.0) - 40.0) * 0.06 + 0.05);
}

#[test]
fn the_mock_levels_are_bounded() {
    let extreme = |x: f64| {
        let snap = mock(0.5, x, x, x, x).snapshot(&quiet(), 0);
        [
            count(&snap.vram_used_mb.unwrap()) as f64,
            number(&snap.temperatures.edge).unwrap(),
            number(&snap.temperatures.hotspot).unwrap(),
            number(&snap.temperatures.memory).unwrap(),
        ]
    };
    assert_eq!(extreme(-100000.0), [256.0, 25.0, 30.0, 25.0]);
    assert_eq!(extreme(100000.0), [7800.0, 95.0, 110.0, 95.0]);
}

#[test]
fn values_are_confined_as_the_machine_does() {
    for x in [-7.0, -0.0, 0.0, 0.5, 1.0, 1.5, f64::INFINITY, f64::NEG_INFINITY, 5e-324] {
        let confined = f64::from_bits(double(x).confined(0, 1).bits);
        assert_eq!(confined.to_bits(), x.clamp(0.0, 1.0).to_bits(), "{}", x);
        let confined = f64::from_bits(double(x * 100.0).confined(25, 95).bits);
        assert_eq!(confined, (x * 100.0).clamp(25.0, 95.0));
    }
    assert!(double(f64::NAN).confined(0, 1).is_nan());
}

#[test]
fn the_mock_reports_stay_in_range() {
    for (load, sign) in [(0.0, -1.0), (0.0, 1.0), (0.37, 1.0), (1.0, -1.0), (1.0, 1.0)] {
        let noise = ReportNoise {
            power: double(3.0 * sign),
            gpu_clock: double(20.0 * sign),
            vram_clock: double(10.0 * sign),
        };
        let snap = mock(load, 7800.0, 95.0, 110.0, 95.0).snapshot(&noise, 0);
        assert!((0.0..=100.0).contains(&number(&snap.gpu_utilization).unwrap()));
        assert!((12.0..=248.0).contains(&number(&snap.power_watts).unwrap()));
        assert!((1180..=2420).contains(&count(&snap.gpu_clock_mhz.unwrap())));
        assert!((790..=2310).contains(&count(&snap.vram_clock_mhz.unwrap())));
    }
}

#[test]
fn the_mock_stays_in_range_over_its_history() {
    let mut gpu = MockGpu::new();
    for step in 0..400 {
        let wave = ((step * 37) % 101) as f64 / 50.0 - 1.0;
        let aim = MockGpu::aim(double(if step % 50 == 0 { 0.0 } else { 0.5 }));
        let draw = if aim == Draw::Jump { (wave + 1.0) / 2.0 } else { 0.05 * wave };
        let load = eval(&gpu.next_load(aim, double(draw), double(0.02 * wave)));
        gpu.take_load(double(load));
        let levels = gpu.next_levels(&LevelNoise {
            vram: double(50.0 * wave),
            edge: double(0.3 * wave),
            hotspot: double(0.4 * wave),
            memory: double(0.2 * wave),
        });
        gpu.take_levels(&LevelValues {
            vram_used: double(eval(&levels.vram_used)),
            edge_temp: double(eval(&levels.edge_temp)),
            hotspot_temp: double(eval(&levels.hotspot_temp)),
            mem_temp: double(eval(&levels.mem_temp)),
        });
        let noise = ReportNoise {
            power: double(3.0 * wave),
            gpu_clock: double(20.0 * wave),
            vram_clock: double(10.0 * wave),
        };
        let snap = gpu.snapshot(&noise, 0);
        assert!((0.0..=100.0).contains(&number(&snap.gpu_utilization).unwrap()));
        assert!((256..=7800).contains(&count(&snap.vram_used_mb.unwrap())));
        assert!((25.0..=95.0).contains(&number(&snap.temperatures.edge).unwrap()));
        assert!((30.0..=110.0).contains(&number(&snap.temperatures.hotspot).unwrap()));
        assert!((25.0..=95.0).contains(&number(&snap.temperatures.memory).unwrap()));
        assert!((12.0..=248.0).contains(&number(&snap.power_watts).unwrap()));
        let pct = eval(&snap.fan.unwrap().speed_pct);
        let hotspot = number(&snap.temperatures.hotspot).unwrap();
        assert!((pct - fan_line(hotspot)).abs() <= 0.15);
    }
}

#[test]
fn the_mock_fan_keeps_to_its_line() {
    let mut temp = 30.0;
    while temp <= 110.0 {
        let snap = mock(0.3, 2048.0, 42.0, temp, 40.0).snapshot(&quiet(), 0);
        let fan = snap.fan.unwrap();
        let pct = eval(&fan.speed_pct);
        let shown = number(&snap.temperatures.hotspot).unwrap();
        assert!((25.0..=100.0).contains(&pct));
        assert!((pct - fan_line(shown)).abs() <= 0.15, "{}", temp);
        let rpm = count(&fan.speed_rpm) as f64;
        assert!(rpm <= 2400.0 && (rpm - 24.0 * pct).abs() <= 3.0);
        temp += 0.037;
    }
}

#[test]
fn the_mock_reports_its_state() {
    let gpu = mock(0.4567, 3000.9, 51.26, 70.0, 44.44);
    let noise =
        ReportNoise { power: double(1.5), gpu_clock: double(-7.25), vram_clock: double(3.5) };
    let snap = gpu.snapshot(&noise, 3);
    assert_eq!(snap.gpu_name, "Mock GPU (RX 7900 XTX)");
    assert_eq!(snap.gpu_vendor, GpuVendor::Mock);
    assert_eq!(number(&snap.gpu_utilization), Some(45.7));
    assert_eq!(count(&snap.vram_used_mb.unwrap()), 3000);
    assert_eq!(snap.vram_total_mb, Some(8192));
    assert_eq!(number(&snap.temperatures.edge), Some(51.3));
    assert_eq!(number(&snap.temperatures.hotspot), Some(70.0));
    assert_eq!(number(&snap.temperatures.memory), Some(44.4));
    let fan = snap.fan.unwrap();
    assert_eq!(eval(&fan.speed_pct), 67.5);
    assert_eq!(count(&fan.speed_rpm), 1620);
    assert_eq!(fan.max_rpm, 2400);
    assert_eq!(
        number(&snap.power_watts),
        Some(((15.0 + 0.4567 * 230.0 + 1.5) * 10.0f64).round() / 10.0)
    );
    assert_eq!(number(&snap.power_cap_watts), Some(250.0));
    assert_eq!(
        count(&snap.gpu_clock_mhz.unwrap()),
        (1200.0 + 0.4567 * 1200.0 + -7.25f64) as u64
    );
    assert_eq!(snap.gpu_clock_max_mhz, Some(2500));
    assert_eq!(count(&snap.vram_clock_mhz.unwrap()), (800.0 + 0.4567 * 1500.0 + 3.5f64) as u64);
    assert_eq!(snap.vram_clock_max_mhz, Some(2500));
    assert_eq!(snap.timestamp_ms, 3);
}

#[test]
fn the_mock_fan_follows_the_hot_spot() {
    let speed = |temp: f64| {
        let gpu = mock(0.3, 2048.0, 42.0, temp, 40.0);
        eval(&gpu.snapshot(&quiet(), 0).fan.unwrap().speed_pct)
    };
    assert_eq!(speed(30.0), 25.0);
    assert_eq!(speed(39.99), 25.0);
    assert_eq!(speed(50.0), 37.5);
    assert_eq!(speed(60.0), 50.0);
    assert_eq!(speed(80.0), 85.0);
    assert_eq!(speed(90.0), 92.5);
    assert_eq!(speed(100.0), 100.0);
    assert_eq!(speed(110.0), 100.0);
}

#[test]
fn nvidia_fans_stay_within_their_maximum() {
    let card = NvidiaSource::new(1).unwrap();
    for pct in 0..=100 {
        let readings =
            NvidiaReadings { num_fans: Some(1), fan_speed: Some(pct), ..no_nvidia_readings() };
        let fan = card.snapshot(readings, 0).fan.unwrap();
        assert_eq!(count(&fan.speed_rpm), (pct as f64 / 100.0 * 3000.0) as u64);
        assert!(count(&fan.speed_rpm) <= fan.max_rpm as u64);
    }
}

#[test]
fn measurements_can_be_copied() {
    let snap = mock(0.4, 3000.0, 50.0, 70.0, 44.0).snapshot(&quiet(), 8);
    let copy = snap.clone();
    assert_eq!(number(&copy.power_watts), number(&snap.power_watts));
    assert_eq!(eval(&copy.fan.unwrap().speed_pct), 67.5);
    assert_eq!(copy.timestamp_ms, 8);
}
