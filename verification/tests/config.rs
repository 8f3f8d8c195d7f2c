use gpupeek::config::{config_path, FanConfig, GpuConfig, SaveStep, SettingsPath};
use gpupeek::double::Double;
use gpupeek::gpu_control::{CurvePoint, FanMode};

fn double(x: f64) -> Double {
    Double { bits: x.to_bits() }
}

fn text(s: &str) -> Option<String> {
    Some(s.to_string())
}

#[test]
fn default_settings() {
    let cfg = GpuConfig::default();
    assert_eq!(cfg.version, 1);
    assert!(cfg.gpu_id.is_none());
    assert!(matches!(cfg.fan, FanConfig::Auto));
    assert!(cfg.power_cap_watts.is_none());
    assert!(cfg.voltage_offset_mv.is_none());
}

#[test]
fn settings_follow_the_state() {
    let curve = vec![CurvePoint { temp_c: double(40.0), speed_pct: double(20.0) }];
    let cfg = GpuConfig::from_control_state(
        Some(FanMode::Manual),
        Some(double(42.5)),
        Some(curve.clone()),
        Some(double(220.0)),
        Some(-50),
        text("/sys/class/drm/card1/device"),
    );
    assert_eq!(cfg.version, 1);
    assert_eq!(cfg.gpu_id.as_deref(), Some("/sys/class/drm/card1/device"));
    assert!(matches!(cfg.fan, FanConfig::Manual { speed_pct } if speed_pct == double(42.5)));
    assert_eq!(cfg.power_cap_watts, Some(double(220.0)));
    assert_eq!(cfg.voltage_offset_mv, Some(-50));

    let cfg = GpuConfig::from_control_state(Some(FanMode::Manual), None, None, None, None, None);
    assert!(matches!(cfg.fan, FanConfig::Manual { speed_pct } if speed_pct == double(50.0)));

    let cfg =
        GpuConfig::from_control_state(Some(FanMode::Curve), None, Some(curve.clone()), None, None, None);
    assert!(matches!(cfg.fan, FanConfig::Curve { points } if points == curve));

    let cfg = GpuConfig::from_control_state(Some(FanMode::Curve), None, None, None, None, None);
    assert!(matches!(cfg.fan, FanConfig::Curve { points } if points.is_empty()));

    for mode in [Some(FanMode::Auto), None] {
        let cfg =
            GpuConfig::from_control_state(mode, Some(double(1.0)), Some(curve.clone()), None, None, None);
        assert!(matches!(cfg.fan, FanConfig::Auto));
    }
}

#[test]
fn settings_file_is_looked_for_in_turn() {
    match config_path(text("/etc/g.json"), text("/x"), text("/home/u")) {
        SettingsPath::Named(path) => assert_eq!(path, "/etc/g.json"),
        other => panic!("{:?}", other),
    }
    let below = |place: SettingsPath| match place {
        SettingsPath::Below { dir, entries } => (dir, entries.join(" ")),
        other => panic!("{:?}", other),
    };
    let expected = |dir: &str, entries: &str| (dir.to_string(), entries.to_string());
    assert_eq!(
        below(config_path(None, text("/x"), text("/home/u"))),
        expected("/x", "gpupeek config.json")
    );
    assert_eq!(below(config_path(None, text(""), None)), expected("", "gpupeek config.json"));
    assert_eq!(
        below(config_path(None, None, text("/home/u"))),
        expected("/home/u", ".config gpupeek config.json")
    );
    assert_eq!(
        below(config_path(None, None, None)),
        expected("/tmp", ".config gpupeek config.json")
    );
}

#[test]
fn saving_goes_step_by_step() {
    let step = SaveStep::first(true);
    assert!(matches!(step, SaveStep::CreateDir));
    let step = step.next(Ok(()));
    assert!(matches!(step, SaveStep::Serialize));
    let step = step.next(Ok(()));
    assert!(matches!(step, SaveStep::WriteTemp));
    let step = step.next(Ok(()));
    assert!(matches!(step, SaveStep::Rename));
    let step = step.next(Ok(()));
    assert!(matches!(step, SaveStep::Saved));
    assert!(matches!(step.next(Err("late".to_string())), SaveStep::Saved));
    assert!(matches!(SaveStep::first(false), SaveStep::Serialize));
}

#[test]
fn saving_reports_what_failed() {
    for (step, complaint) in [
        (SaveStep::CreateDir, "failed to create config dir: no"),
        (SaveStep::Serialize, "failed to serialize config: no"),
        (SaveStep::WriteTemp, "failed to write temp config: no"),
        (SaveStep::Rename, "failed to rename config: no"),
    ] {
        match step.next(Err("no".to_string())) {
            SaveStep::Failed(text) => assert_eq!(text, complaint),
            other => panic!("{:?}", other),
        }
    }
    assert!(matches!(SaveStep::Failed("x".to_string()).next(Ok(())), SaveStep::Failed(_)));
}
