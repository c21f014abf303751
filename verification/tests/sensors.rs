use skywidget::fixed::VALUE_UNIT;
use skywidget::sensors::{determine_fan_status, determine_temp_status, determine_voltage_status,
    get_nominal_voltage, identify_disk_type, identify_fan_type, identify_sensor_type,
    identify_voltage_type, DiskType, FanStatus, FanType, MemoryErrors, SensorType, VoltageStatus,
    VoltageType, DEFAULT_SLOW_SPEED_THRESHOLD};

#[test]
fn test_identify_fan_type() {
    assert_eq!(identify_fan_type("CPU Fan"), FanType::CpuFan);
    assert_eq!(identify_fan_type("case_fan1"), FanType::CaseFan);
    assert_eq!(identify_fan_type("GPU Fan 1"), FanType::GpuFan);
    assert_eq!(identify_fan_type("Chipset Fan"), FanType::ChipsetFan);
    assert_eq!(identify_fan_type("PSU Fan"), FanType::PowerSupply);
}

#[test]
fn test_fan_status_determination() {
    assert_eq!(
        determine_fan_status(Some(0), DEFAULT_SLOW_SPEED_THRESHOLD),
        FanStatus::Stopped
    );
    assert_eq!(
        determine_fan_status(Some(300 * VALUE_UNIT), DEFAULT_SLOW_SPEED_THRESHOLD),
        FanStatus::SlowSpeed
    );
    assert_eq!(
        determine_fan_status(Some(1500 * VALUE_UNIT), DEFAULT_SLOW_SPEED_THRESHOLD),
        FanStatus::Running
    );
    assert_eq!(
        determine_fan_status(None, DEFAULT_SLOW_SPEED_THRESHOLD),
        FanStatus::Unknown
    );
}

#[test]
fn test_identify_voltage_type() {
    assert_eq!(identify_voltage_type("CPU Vcore"), VoltageType::Cpu);
    assert_eq!(identify_voltage_type("+12V"), VoltageType::V12);
    assert_eq!(identify_voltage_type("DIMM AB"), VoltageType::Memory);
}

#[test]
fn test_nominal_voltage() {
    assert_eq!(get_nominal_voltage(&VoltageType::V12), Some(12 * VALUE_UNIT));
    assert_eq!(get_nominal_voltage(&VoltageType::V5), Some(5 * VALUE_UNIT));
    assert_eq!(
        get_nominal_voltage(&VoltageType::V3_3),
        Some(33 * VALUE_UNIT / 10)
    );
}

#[test]
fn voltage_status_against_nominal() {
    let nominal = get_nominal_voltage(&VoltageType::V12);
    // On the nose: normal.
    assert_eq!(
        determine_voltage_status(12 * VALUE_UNIT, &VoltageType::V12, nominal),
        VoltageStatus::Normal
    );
    // 13.5 V is 12.5 percent over nominal: critical.
    assert_eq!(
        determine_voltage_status(135 * VALUE_UNIT / 10, &VoltageType::V12, nominal),
        VoltageStatus::Critical
    );
    // 12.8 V is about 6.7 percent over nominal: high.
    assert_eq!(
        determine_voltage_status(128 * VALUE_UNIT / 10, &VoltageType::V12, nominal),
        VoltageStatus::High
    );
    // 11.2 V is about 6.7 percent under nominal: low.
    assert_eq!(
        determine_voltage_status(112 * VALUE_UNIT / 10, &VoltageType::V12, nominal),
        VoltageStatus::Low
    );
}

#[test]
fn voltage_status_without_nominal() {
    assert_eq!(
        determine_voltage_status(16 * VALUE_UNIT / 10, &VoltageType::Cpu, None),
        VoltageStatus::Critical
    );
    assert_eq!(
        determine_voltage_status(12 * VALUE_UNIT / 10, &VoltageType::Cpu, None),
        VoltageStatus::Normal
    );
    assert_eq!(
        determine_voltage_status(24 * VALUE_UNIT / 10, &VoltageType::Vbat, None),
        VoltageStatus::Low
    );
    assert_eq!(
        determine_voltage_status(1 * VALUE_UNIT, &VoltageType::Other, None),
        VoltageStatus::Unknown
    );
}

#[test]
fn sensor_type_identification() {
    assert_eq!(identify_sensor_type("PCH Temp"), SensorType::Chipset);
    assert_eq!(identify_sensor_type("Core 0"), SensorType::Cpu);
    assert_eq!(identify_sensor_type("Radeon Edge"), SensorType::Gpu);
    assert_eq!(identify_sensor_type("nvme Composite"), SensorType::Disk);
    assert_eq!(identify_sensor_type("ambient"), SensorType::Other);
}

#[test]
fn disk_type_identification() {
    assert_eq!(identify_disk_type("nvme0n1"), DiskType::NVMe);
    assert_eq!(identify_disk_type("Samsung SSD 870"), DiskType::SSD);
    assert_eq!(identify_disk_type("ST4000DM004"), DiskType::HDD);
    assert_eq!(identify_disk_type("vda"), DiskType::Unknown);
}

#[test]
fn temp_status_thresholds() {
    assert_eq!(determine_temp_status(85 * VALUE_UNIT), "Critical");
    assert_eq!(determine_temp_status(75 * VALUE_UNIT), "Warning");
    assert_eq!(determine_temp_status(74 * VALUE_UNIT), "Normal");
}

#[test]
fn memory_errors_from_counts() {
    assert!(MemoryErrors::from_counts(None, None).is_none());
    let e = MemoryErrors::from_counts(Some(0), None).unwrap();
    assert!(!e.has_errors);
    assert_eq!(e.correctable_errors, Some(0));
    assert_eq!(e.uncorrectable_errors, None);
    let e = MemoryErrors::from_counts(Some(2), Some(1)).unwrap();
    assert!(e.has_errors);
}

use skywidget::sensors::{build_smart_info, summarize_fans, summarize_temperatures,
    summarize_voltages, DiskHealthStatus};

#[test]
fn temperature_summary_averages_cpu_and_tracks_maxima() {
    let readings = vec![
        ("Core 0".to_string(), 40 * VALUE_UNIT),
        ("Core 1".to_string(), 50 * VALUE_UNIT),
        ("PCH Temp".to_string(), 61 * VALUE_UNIT),
        ("PCH Aux".to_string(), 58 * VALUE_UNIT),
        ("ambient".to_string(), 30 * VALUE_UNIT),
    ];
    let s = summarize_temperatures(&readings);
    assert_eq!(s.cpu_avg_temp, Some(45 * VALUE_UNIT));
    assert_eq!(s.chipset_temp, Some(61 * VALUE_UNIT));
    assert_eq!(s.max_temp, Some(61 * VALUE_UNIT));

    let none = summarize_temperatures(&Vec::new());
    assert!(none.cpu_avg_temp.is_none());
    assert!(none.chipset_temp.is_none());
    assert!(none.max_temp.is_none());
}

#[test]
fn fan_summary_counts_stopped_and_slow() {
    let readings = vec![
        ("CPU Fan".to_string(), Some(0)),
        ("case_fan1".to_string(), Some(300 * VALUE_UNIT)),
        ("case_fan2".to_string(), Some(1500 * VALUE_UNIT)),
        ("rear fan".to_string(), None),
    ];
    let s = summarize_fans(&readings, DEFAULT_SLOW_SPEED_THRESHOLD);
    assert_eq!(s.total_count, 4);
    assert_eq!(s.stopped_count, 1);
    assert_eq!(s.slow_speed_count, 1);
}

#[test]
fn voltage_summary_counts_out_of_range_readings() {
    let readings = vec![
        ("+12V".to_string(), 12 * VALUE_UNIT),
        ("+12V rail".to_string(), 135 * VALUE_UNIT / 10),
        ("mystery".to_string(), 7 * VALUE_UNIT),
    ];
    let s = summarize_voltages(&readings);
    assert_eq!(s.sensor_count, 3);
    assert_eq!(s.abnormal_count, 1);
    assert!(s.has_issues);
}

#[test]
fn smart_info_assembly() {
    let with_temp = build_smart_info(&DiskType::HDD, Some(40 * VALUE_UNIT)).unwrap();
    assert!(with_temp.supported);
    assert_eq!(with_temp.health_status, DiskHealthStatus::Unknown);
    assert_eq!(with_temp.temperature, Some(40 * VALUE_UNIT));

    let ssd = build_smart_info(&DiskType::SSD, None).unwrap();
    assert!(!ssd.supported);

    assert!(build_smart_info(&DiskType::Unknown, None).is_none());
}

#[test]
fn fan_failures_follow_the_counts() {
    let healthy = summarize_fans(
        &vec![("CPU Fan".to_string(), Some(1200 * VALUE_UNIT))],
        DEFAULT_SLOW_SPEED_THRESHOLD,
    );
    assert!(!healthy.has_fan_failures());
    let failing = summarize_fans(
        &vec![("CPU Fan".to_string(), Some(0))],
        DEFAULT_SLOW_SPEED_THRESHOLD,
    );
    assert!(failing.has_fan_failures());
}
