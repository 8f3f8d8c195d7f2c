use gpupeek::amd::{AmdProbe, AmdSource};
use gpupeek::amd_files::build_temp_label_map;
use gpupeek::config::{FanConfig, GpuConfig};
use gpupeek::double::Double;
use gpupeek::formula::Formula;
use gpupeek::gpu_control::{ControlError, CurvePoint, FanMode};
use gpupeek::gpu_data::GpuVendor;
use gpupeek::server::{
    announce, apply_saved_config, control_error_response, curve_temp, next_candidate, reply_to,
    wants_daemon, ControlRequest, ErrorStatus, Measured, Producer, Reply, SavedPlan,
};

fn double(x: f64) -> Double {
    Double { bits: x.to_bits() }
}

fn text(s: &str) -> Option<String> {
    Some(s.to_string())
}

fn args(list: &[&str]) -> Vec<String> {
    list.iter().map(|a| a.to_string()).collect()
}

fn config(gpu_id: Option<String>, fan: FanConfig) -> GpuConfig {
    GpuConfig { version: 1, gpu_id, fan, power_cap_watts: None, voltage_offset_mv: None }
}

#[test]
fn daemon_flags() {
    assert!(wants_daemon(&args(&["gpupeek", "--daemon"])));
    assert!(wants_daemon(&args(&["gpupeek", "x", "-d"])));
    assert!(!wants_daemon(&args(&["gpupeek", "--Daemon", "-dd", ""])));
    assert!(!wants_daemon(&args(&[])));
}

#[test]
fn cards_are_tried_in_turn() {
    let found = |there: &[GpuVendor]| {
        let mut vendor = next_candidate(None);
        while vendor != GpuVendor::Mock && !there.contains(&vendor) {
            vendor = next_candidate(Some(vendor));
        }
        vendor
    };
    assert_eq!(next_candidate(None), GpuVendor::Nvidia);
    assert_eq!(found(&[GpuVendor::Intel, GpuVendor::Amd, GpuVendor::Nvidia]), GpuVendor::Nvidia);
    assert_eq!(found(&[GpuVendor::Intel, GpuVendor::Amd]), GpuVendor::Amd);
    assert_eq!(found(&[GpuVendor::Intel]), GpuVendor::Intel);
    assert_eq!(found(&[]), GpuVendor::Mock);
    assert_eq!(next_candidate(Some(GpuVendor::Mock)), GpuVendor::Mock);
}

#[test]
fn findings_are_announced() {
    assert_eq!(announce(GpuVendor::Nvidia), "  ✓ NVIDIA GPU detected");
    assert_eq!(announce(GpuVendor::Amd), "  ✓ AMD GPU detected");
    assert_eq!(announce(GpuVendor::Intel), "  ✓ Intel GPU detected");
    assert_eq!(announce(GpuVendor::Mock), "  ⚡ No supported GPU found — using mock data");
}

#[test]
fn settings_of_another_card_are_skipped() {
    match apply_saved_config(config(text("/a"), FanConfig::Auto), text("/b")) {
        SavedPlan::Skip { saved_id, current_id } => {
            assert_eq!(saved_id, "/a");
            assert_eq!(current_id, "/b");
        }
        other => panic!("{:?}", other),
    }
    for (saved, current) in
        [(text("/a"), text("/a")), (None, text("/a")), (text("/a"), None), (None, None)]
    {
        let plan = apply_saved_config(config(saved, FanConfig::Auto), current);
        assert!(matches!(plan, SavedPlan::Apply(_)));
    }
}

#[test]
fn settings_become_requests() {
    let requests = |cfg: GpuConfig| match apply_saved_config(cfg, None) {
        SavedPlan::Apply(requests) => requests,
        other => panic!("{:?}", other),
    };
    let auto = requests(config(None, FanConfig::Auto));
    assert_eq!(auto.len(), 1);
    assert!(matches!(auto[0], ControlRequest::FanMode(FanMode::Auto)));
    let all = requests(GpuConfig {
        power_cap_watts: Some(double(200.0)),
        voltage_offset_mv: Some(-30),
        ..config(None, FanConfig::Manual { speed_pct: double(40.0) })
    });
    assert_eq!(all.len(), 3);
    assert!(matches!(all[0], ControlRequest::FanSpeed(s) if s == double(40.0)));
    assert!(matches!(all[1], ControlRequest::PowerCap(w) if w == double(200.0)));
    assert!(matches!(all[2], ControlRequest::VoltageOffset(-30)));
    let curve = vec![CurvePoint { temp_c: double(1.0), speed_pct: double(2.0) }];
    let some = requests(GpuConfig {
        voltage_offset_mv: Some(0),
        ..config(None, FanConfig::Curve { points: curve.clone() })
    });
    assert_eq!(some.len(), 2);
    assert!(matches!(&some[0], ControlRequest::FanCurve(points) if *points == curve));
    assert!(matches!(some[1], ControlRequest::VoltageOffset(0)));
}

#[test]
fn saved_settings_come_back() {
    let cfg = GpuConfig::from_control_state(
        Some(FanMode::Manual),
        Some(double(61.2)),
        None,
        Some(double(180.0)),
        Some(-75),
        text("/a"),
    );
    match apply_saved_config(cfg, text("/a")) {
        SavedPlan::Apply(requests) => {
            assert_eq!(requests.len(), 3);
            assert!(matches!(requests[0], ControlRequest::FanSpeed(s) if s == double(61.2)));
            assert!(matches!(requests[1], ControlRequest::PowerCap(w) if w == double(180.0)));
            assert!(matches!(requests[2], ControlRequest::VoltageOffset(-75)));
        }
        other => panic!("{:?}", other),
    }
}

#[test]
fn errors_have_their_status() {
    let sentence = || "because".to_string();
    for (e, status, message) in [
        (ControlError::Unsupported(sentence()), ErrorStatus::Conflict, "unsupported: because"),
        (
            ControlError::PermissionDenied(sentence()),
            ErrorStatus::Forbidden,
            "permission denied: because",
        ),
        (ControlError::InvalidValue(sentence()), ErrorStatus::BadRequest, "invalid value: because"),
        (
            ControlError::BackendError(sentence()),
            ErrorStatus::InternalServerError,
            "backend error: because",
        ),
    ] {
        assert_eq!(e.to_string(), message);
        assert_eq!(control_error_response(&e), (status, message.to_string()));
        match reply_to(&Err(e)) {
            Reply::Refused { status: s, message: m } => {
                assert_eq!(s, status);
                assert_eq!(m, message);
            }
            other => panic!("{:?}", other),
        }
    }
    assert!(matches!(reply_to(&Ok(())), Reply::Done));
}

#[test]
fn the_hot_spot_goes_first() {
    let (hot, edge) = (Some(double(80.0)), Some(double(60.0)));
    assert_eq!(curve_temp(Measured::Good { hotspot: hot, edge }), hot);
    assert_eq!(curve_temp(Measured::Good { hotspot: None, edge }), edge);
    assert_eq!(curve_temp(Measured::Good { hotspot: None, edge: None }), None);
    assert_eq!(curve_temp(Measured::Failed), Some(double(100.0)));
}

#[test]
fn a_failed_measurement_cools() {
    let mut card = AmdSource::new(AmdProbe {
        card_path: String::new(),
        gpu_name: String::new(),
        temp_labels: build_temp_label_map(&vec![]),
        has_util: true,
        has_vram: true,
        fan_control_writable: true,
        power_cap_writable: true,
        voltage_offset_writable: true,
    })
    .unwrap();
    card.set_fan_curve(vec![CurvePoint { temp_c: double(0.0), speed_pct: double(0.0) }]).unwrap();
    let speed = card.apply_curve_tick(curve_temp(Measured::Failed));
    assert!(matches!(speed, Some(Formula::Int(100))));
}

#[test]
fn measurements_are_published() {
    let mut producer = Producer::new();
    let out = producer.publish(None);
    assert_eq!((out.greeting, out.update), (None, None));
    let out = producer.publish(text("one"));
    assert_eq!((out.greeting, out.update), (text("one"), text("one")));
    let out = producer.publish(None);
    assert_eq!((out.greeting, out.update), (None, text("one")));
    let out = producer.publish(text("two"));
    assert_eq!((out.greeting, out.update), (text("two"), text("two")));
    assert_eq!(producer.last_good, text("two"));
}
