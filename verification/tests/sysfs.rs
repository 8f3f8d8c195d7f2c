use gpupeek::amd_files::{
    build_temp_label_map, input_file, label_file, lspci_slot, needs_lspci, read_amd_clock, read_amd_clock_max, read_gpu_name,
    read_lspci, read_voltage_offset, TempSensor, TEMP_SENSORS,
};
use gpupeek::sysfs::{
    find_card, find_hwmon, is_card_name, is_writable, pci_slot, read_mebibytes, read_sysfs_u64,
    DirEntry, DrmEntry, FileAccess, SourceError,
};

fn text(s: &str) -> Option<String> {
    Some(s.to_string())
}

fn device(name: &str, vendor: Option<&str>) -> DrmEntry {
    DrmEntry::Device { name: name.to_string(), vendor: vendor.map(|v| v.to_string()) }
}

fn named(name: &str) -> DirEntry {
    DirEntry::Named(name.to_string())
}

#[test]
fn integers_in_files() {
    assert_eq!(read_sysfs_u64(&text("42\n")), Some(42));
    assert_eq!(read_sysfs_u64(&text("  +7 \r\n")), Some(7));
    assert_eq!(read_sysfs_u64(&text("18446744073709551615")), Some(u64::MAX));
    assert_eq!(read_sysfs_u64(&text("18446744073709551616")), None);
    assert_eq!(read_sysfs_u64(&text("-1")), None);
    assert_eq!(read_sysfs_u64(&text("1.5")), None);
    assert_eq!(read_sysfs_u64(&text("")), None);
    assert_eq!(read_sysfs_u64(&None), None);
    assert_eq!(read_mebibytes(&text("8589934592\n")), Some(8192));
    assert_eq!(read_mebibytes(&text("1048575\n")), Some(0));
    assert_eq!(read_mebibytes(&None), None);
}

#[test]
fn cards_are_told_from_connectors() {
    assert!(is_card_name("card0"));
    assert!(is_card_name("card"));
    assert!(!is_card_name("card0-DP-1"));
    assert!(!is_card_name("renderD128"));
    assert!(!is_card_name("version"));
}

#[test]
fn first_card_of_the_vendor_is_found() {
    let entries = vec![
        device("version", None),
        device("card0-DP-1", Some("0x1002\n")),
        device("renderD128", Some("0x1002\n")),
        device("card0", Some("0x8086\n")),
        device("card2", Some(" 0x1002\n")),
        device("card1", Some("0x1002\n")),
        DrmEntry::Unreadable("gone".to_string()),
    ];
    assert!(matches!(find_card(&entries, "0x1002"), Ok(Some(4))));
    assert!(matches!(find_card(&entries, "0x8086"), Ok(Some(3))));
    assert!(matches!(gpupeek::amd::find_amd_card(&entries), Ok(4)));
    assert!(matches!(gpupeek::intel::find_intel_card(&entries), Ok(3)));
    match find_card(&entries, "0x10de") {
        Err(SourceError::Io(reason)) => assert_eq!(reason, "gone"),
        other => panic!("{:?}", other),
    }
}

#[test]
fn missing_cards_are_reported() {
    let entries = vec![device("card0", None), device("card1", Some("0x10de\n"))];
    assert!(matches!(find_card(&entries, "0x1002"), Ok(None)));
    let amd = gpupeek::amd::find_amd_card(&entries).unwrap_err();
    assert!(matches!(amd, SourceError::NoAmdCard));
    assert_eq!(amd.to_string(), "No AMD GPU found in /sys/class/drm");
    let intel = gpupeek::intel::find_intel_card(&entries).unwrap_err();
    assert!(matches!(intel, SourceError::NoIntelCard));
    assert_eq!(intel.to_string(), "No Intel GPU found in /sys/class/drm");
    let broken = vec![DrmEntry::Unreadable("no".to_string())];
    assert!(matches!(gpupeek::amd::find_amd_card(&broken), Err(SourceError::Io(_))));
    assert!(matches!(gpupeek::intel::find_intel_card(&broken), Err(SourceError::Io(_))));
}

#[test]
fn directories_of_sensors() {
    let entries = vec![named("power"), named("hwmon3"), named("hwmon4")];
    assert!(matches!(find_hwmon(&entries), Ok(Some(1))));
    assert!(matches!(gpupeek::amd::find_hwmon(&entries), Ok(1)));
    assert!(matches!(gpupeek::intel::find_hwmon(&entries), Ok(1)));
    let none = vec![named("power")];
    assert!(matches!(find_hwmon(&none), Ok(None)));
    let amd = gpupeek::amd::find_hwmon(&none).unwrap_err();
    assert_eq!(amd.to_string(), "No hwmon directory found for AMD GPU");
    let intel = gpupeek::intel::find_hwmon(&none).unwrap_err();
    assert_eq!(intel.to_string(), "No hwmon found");
    let broken = vec![DirEntry::Unreadable("bad".to_string()), named("hwmon0")];
    assert_eq!(find_hwmon(&broken).unwrap_err().to_string(), "bad");
}

#[test]
fn who_may_write() {
    let file = FileAccess { mode: 0o100644, uid: 5, gid: 6 };
    assert!(is_writable(Some(file), 0, 9));
    assert!(is_writable(Some(file), 5, 9));
    assert!(!is_writable(Some(file), 7, 6));
    assert!(!is_writable(Some(file), 7, 9));
    assert!(is_writable(Some(FileAccess { mode: 0o100664, ..file }), 7, 6));
    assert!(is_writable(Some(FileAccess { mode: 0o100646, ..file }), 7, 9));
    assert!(!is_writable(Some(FileAccess { mode: 0o100444, ..file }), 5, 6));
    assert!(is_writable(Some(FileAccess { mode: 0o100000, ..file }), 0, 0));
    assert!(!is_writable(None, 0, 0));
}

#[test]
fn slots_of_event_files() {
    let uevent = "DRIVER=amdgpu\nPCI_SLOT_NAME=0000:03:00.0\nPCI_SLOT_NAME=0000:04:00.0\n";
    assert_eq!(pci_slot(&text(uevent)).as_deref(), Some("0000:03:00.0"));
    assert_eq!(lspci_slot(&text(uevent)).as_deref(), Some("0000:04:00.0"));
    assert_eq!(pci_slot(&text("DRIVER=amdgpu\n X_PCI_SLOT_NAME=1\n")), None);
    assert_eq!(lspci_slot(&text("DRIVER=amdgpu\n")), None);
    assert_eq!(pci_slot(&text("PCI_SLOT_NAME=")).as_deref(), Some(""));
    assert_eq!(pci_slot(&None), None);
    assert_eq!(lspci_slot(&None), None);
}

#[test]
fn clock_tables() {
    let table = "0: 500Mhz\n1: 1200Mhz *\n2: 2500Mhz\n";
    assert_eq!(read_amd_clock(&text(table)), Some(1200));
    assert_eq!(read_amd_clock_max(&text(table)), Some(2500));
    assert_eq!(read_amd_clock(&text("0: 96MHz *")), Some(96));
    assert_eq!(read_amd_clock(&text("0: 500Mhz\n1: 700Mhz * \n")), None);
    assert_eq!(read_amd_clock(&text("0: 500 *\n1: 700Mhz *\n")), None);
    assert_eq!(read_amd_clock(&text("0: xMhz *\n1: 700Mhz *\n")), None);
    assert_eq!(read_amd_clock(&text("0: 4294967296Mhz *\n")), None);
    assert_eq!(read_amd_clock(&text("0: 500Mhz 600Mhz *\n")), Some(500));
    assert_eq!(read_amd_clock(&text("0: 500MHzMhz *\n")), Some(500));
    assert_eq!(read_amd_clock(&text("0: 500Mhz*\n")), None);
    assert_eq!(read_amd_clock_max(&text("0: 500Mhz\n\n")), None);
    assert_eq!(read_amd_clock_max(&text("0: 500Mhz *\r\n")), Some(500));
    assert_eq!(read_amd_clock_max(&text("")), None);
    assert_eq!(read_amd_clock(&None), None);
    assert_eq!(read_amd_clock_max(&None), None);
}

#[test]
fn overdrive_tables() {
    let table = "OD_SCLK:\n0: 500Mhz\n1: 2500Mhz\nOD_VDDGFX_OFFSET:\n-50mV\nOD_RANGE:\n";
    assert_eq!(read_voltage_offset(&text(table)), Some(-50));
    assert_eq!(read_voltage_offset(&text("OD_VDDGFX_OFFSET:\n0mV\n")), Some(0));
    assert_eq!(read_voltage_offset(&text("OD_VDDGFX_OFFSET:\n+12mv\n")), Some(12));
    assert_eq!(read_voltage_offset(&text("OD_VDDGFX_OFFSET:\n  7mVmV \n")), Some(7));
    assert_eq!(read_voltage_offset(&text("OD_VDDGFX_OFFSET:\nnoise\n9mV\n")), Some(9));
    assert_eq!(read_voltage_offset(&text("OD_VDDGFX_OFFSET:\nOD_RANGE:\n9mV\n")), None);
    assert_eq!(read_voltage_offset(&text("OD_RANGE:\n9mV\n")), None);
    assert_eq!(read_voltage_offset(&text("12mV\nOD_VDDGFX_OFFSET:\n3mV\n")), Some(3));
    assert_eq!(read_voltage_offset(&text("OD_VDDGFX_OFFSET:\n3000000000mV\n")), None);
    assert_eq!(read_voltage_offset(&text("")), None);
    assert_eq!(read_voltage_offset(&None), None);
}

#[test]
fn overdrive_tables_that_name_the_offset() {
    assert_eq!(read_voltage_offset(&text("VDDGFX_OFFSET: -25mV\n")), Some(-25));
    assert_eq!(read_voltage_offset(&text("OD_SCLK:\n  VDDGFX_OFFSET 30mV\n")), Some(30));
    assert_eq!(read_voltage_offset(&text("VDDGFX_OFFSET: 1mV\nVDDGFX_OFFSET: 2mV\n")), Some(1));
    let ended = "OD_VDDGFX_OFFSET:\nOD_RANGE:\nVDDGFX_OFFSET: 4mV\n";
    assert_eq!(read_voltage_offset(&text(ended)), Some(4));
}

#[test]
fn the_section_goes_before_a_named_offset() {
    let before = "VDDGFX_OFFSET: 10mV\nOD_VDDGFX_OFFSET:\n-50mV\n";
    assert_eq!(read_voltage_offset(&text(before)), Some(-50));
    let inside = "OD_VDDGFX_OFFSET:\nVDDGFX_OFFSET: 10mV\n-50mV\n";
    assert_eq!(read_voltage_offset(&text(inside)), Some(-50));
}

#[test]
fn a_name_without_a_number_is_passed_over() {
    for table in [
        "VDDGFX_OFFSET\n5mV\n",
        "VDDGFX_OFFSET:\n-10mV\n",
        "VDDGFX_OFFSET_MAX: 5mV\n",
        "VDDGFX_OFFSET5mV\n",
        "VDDGFX_OFFSET: 1mV 2mV\n6mV\n",
    ] {
        assert_eq!(read_voltage_offset(&text(table)), None, "{}", table);
    }
}

#[test]
fn every_offset_reads_back() {
    for mv in -250..=250 {
        let table = format!("OD_MCLK:\n0: 96Mhz\nOD_VDDGFX_OFFSET:\n{}mV\nOD_RANGE:\n", mv);
        assert_eq!(read_voltage_offset(&Some(table)), Some(mv));
    }
}

#[test]
fn lspci_lines() {
    let line = "03:00.0 \"VGA compatible controller\" \"AMD/ATI\" \" Navi 31 \" -rc8 \"Sapphire\" \"X\"\n";
    assert_eq!(read_lspci(line).as_deref(), Some("AMD/ATI Navi 31"));
    assert_eq!(read_lspci("03:00.0 \"VGA\" \"AMD\" \"\" \"\" \"\"\n"), None);
    assert_eq!(read_lspci("03:00.0 \"VGA\" \"AMD\"\n"), None);
    assert_eq!(read_lspci("03:00.0 \"VGA\" \"AMD\" \"Navi\"").as_deref(), Some("AMD Navi"));
    assert_eq!(read_lspci(""), None);
}

#[test]
fn names_of_amd_cards() {
    let uevent = text("PCI_SLOT_NAME=0000:03:00.0\n");
    let lspci = text("03:00.0 \"VGA\" \"AMD\" \"Navi 31\" \"\" \"\"\n");
    let name = read_gpu_name(&text(" Product \n"), &text("Label\n"), &uevent, &lspci, &uevent);
    assert_eq!(name, "Product");
    let name = read_gpu_name(&text(" \n"), &text("Label\n"), &uevent, &lspci, &uevent);
    assert_eq!(name, "Label");
    let name = read_gpu_name(&None, &None, &uevent, &lspci, &uevent);
    assert_eq!(name, "AMD Navi 31");
    let name = read_gpu_name(&None, &None, &uevent, &None, &uevent);
    assert_eq!(name, "AMD GPU [0000:03:00.0]");
    let name = read_gpu_name(&None, &None, &text("X=1\n"), &lspci, &text("X=1\n"));
    assert_eq!(name, "AMD GPU");
    assert!(!needs_lspci(&text("Product"), &None));
    assert!(!needs_lspci(&text(" \n"), &text("Label")));
    assert!(needs_lspci(&text(" \n"), &None));
    let name = read_gpu_name(&None, &None, &None, &None, &None);
    assert_eq!(name, "AMD GPU");
}

#[test]
fn names_of_intel_cards() {
    let uevent = text("PCI_SLOT_NAME=0000:00:02.0\n");
    assert_eq!(gpupeek::intel::read_gpu_name(&uevent), "Intel GPU [0000:00:02.0]");
    assert_eq!(gpupeek::intel::read_gpu_name(&text("DRIVER=i915\n")), "Intel GPU");
    assert_eq!(gpupeek::intel::read_gpu_name(&None), "Intel GPU");
}

#[test]
fn labels_are_known_in_small_letters() {
    let sensors = vec![
        TempSensor { label: text("Edge\n"), has_input: true },
        TempSensor { label: text("junction"), has_input: false },
        TempSensor { label: None, has_input: true },
        TempSensor { label: text(" MEM "), has_input: true },
        TempSensor { label: text("\u{130}"), has_input: true },
    ];
    let map = build_temp_label_map(&sensors);
    assert_eq!(map.get("edge"), Some(1));
    assert_eq!(map.get("Edge"), None);
    assert_eq!(map.get("junction"), None);
    assert_eq!(map.get("mem"), Some(4));
    assert_eq!(map.get("i\u{307}"), Some(5));
}

#[test]
fn the_last_sensor_has_the_label() {
    let sensors: Vec<TempSensor> = ["a", "b", "A", "b"]
        .iter()
        .map(|l| TempSensor { label: text(l), has_input: true })
        .collect();
    let map = build_temp_label_map(&sensors);
    assert_eq!(map.get("a"), Some(3));
    assert_eq!(map.get("b"), Some(4));
    assert_eq!(build_temp_label_map(&vec![]).get("a"), None);
}

#[test]
fn sensors_have_two_files() {
    assert_eq!(TEMP_SENSORS, 10);
    assert_eq!(label_file(1), "temp1_label");
    assert_eq!(input_file(10), "temp10_input");
}
