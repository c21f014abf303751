//! Classification of hardware sensor readings.
//!
//! Sensor labels arrive as free-form text; the functions here map them onto
//! the closed vocabularies the rules speak about (fan kinds, voltage rails,
//! temperature sensors, disk kinds), and judge readings against fixed
//! thresholds. Labels are matched case-insensitively over ASCII. All
//! readings are fixed-point metric values (see [`crate::fixed`]).

use vstd::prelude::*;

use crate::bounded::{lemma_filter_empty, lemma_filter_take_step};
use crate::fixed::{div_trunc_sum, spec_div_trunc, VALUE_UNIT};
use crate::text::{ascii_lowercase, contains_substr, spec_ascii_lower, spec_contains_seq};

verus! {

/// Running state of one fan.
#[derive(Debug, Clone, Copy, PartialEq, Eq, Structural)]
pub enum FanStatus {
    /// Turning at a healthy speed.
    Running,
    /// Not turning at all.
    Stopped,
    /// Turning below the slow-speed threshold.
    SlowSpeed,
    /// No speed reading available.
    Unknown,
}

/// What a fan cools, judged from its label.
#[derive(Debug, Clone, Copy, PartialEq, Eq, Structural)]
pub enum FanType {
    CpuFan,
    CaseFan,
    GpuFan,
    ChipsetFan,
    PowerSupply,
    Other,
}

/// Which rail a voltage sensor reports, judged from its label.
#[derive(Debug, Clone, Copy, PartialEq, Eq, Structural)]
pub enum VoltageType {
    Cpu,
    Memory,
    Vcore,
    V12,
    V5,
    V3_3,
    Vbat,
    Other,
}

/// Judgement of one voltage reading.
#[derive(Debug, Clone, Copy, PartialEq, Eq, Structural)]
pub enum VoltageStatus {
    Normal,
    Low,
    High,
    Critical,
    Unknown,
}

/// What a temperature sensor measures, judged from its label.
#[derive(Debug, Clone, Copy, PartialEq, Eq, Structural)]
pub enum SensorType {
    Cpu,
    Gpu,
    Chipset,
    Disk,
    Other,
}

/// Kind of a disk, judged from its device name.
#[derive(Debug, Clone, Copy, PartialEq, Eq, Structural)]
pub enum DiskType {
    HDD,
    SSD,
    NVMe,
    Unknown,
}

/// Health judgement of one disk.
#[derive(Debug, Clone, Copy, PartialEq, Eq, Structural)]
pub enum DiskHealthStatus {
    Good,
    Warning,
    Critical,
    Failed,
    Unknown,
}

/// GPU vendors the monitor knows of.
#[derive(Debug, Clone, Copy, PartialEq, Eq, Structural)]
pub enum GpuVendor {
    Nvidia,
    Amd,
    Intel,
    Unknown,
}

/// Memory error counters read from the platform's error-detection
/// facility.
#[derive(Debug, Clone, Copy, PartialEq, Eq, Structural)]
pub struct MemoryErrors {
    /// Errors the hardware corrected, where counted.
    pub correctable_errors: Option<u64>,
    /// Errors the hardware could not correct, where counted.
    pub uncorrectable_errors: Option<u64>,
    /// Whether any error was counted at all.
    pub has_errors: bool,
}

impl MemoryErrors {
    /// Combines the two raw counters: no reading at all means the facility
    /// is absent; otherwise any positive count marks errors present.
    pub fn from_counts(correctable: Option<u64>, uncorrectable: Option<u64>) -> (r: Option<
        MemoryErrors,
    >)
        ensures
            correctable is None && uncorrectable is None ==> r is None,
            correctable is Some || uncorrectable is Some ==> r == Some(
                MemoryErrors {
                    correctable_errors: correctable,
                    uncorrectable_errors: uncorrectable,
                    has_errors: spec_unwrap_or_zero(correctable) > 0 || spec_unwrap_or_zero(
                        uncorrectable,
                    ) > 0,
                },
            ),
    {
        if correctable.is_none() && uncorrectable.is_none() {
            return None;
        }
        let ce: u64 = match correctable {
            Some(v) => v,
            None => 0,
        };
        let ue: u64 = match uncorrectable {
            Some(v) => v,
            None => 0,
        };
        Some(
            MemoryErrors {
                correctable_errors: correctable,
                uncorrectable_errors: uncorrectable,
                has_errors: ce > 0 || ue > 0,
            },
        )
    }
}

/// The count a counter reports, or zero where there is none.
pub open spec fn spec_unwrap_or_zero(c: Option<u64>) -> int {
    match c {
        Some(v) => v as int,
        None => 0,
    }
}

/// Whether the lowered label holds the lowered key.
pub open spec fn spec_label_has(label: Seq<char>, key: Seq<char>) -> bool {
    spec_contains_seq(spec_ascii_lower(label), key)
}

/// What a fan label describes.
pub open spec fn spec_identify_fan_type(label: Seq<char>) -> FanType {
    if spec_label_has(label, "cpu"@) || spec_label_has(label, "processor"@) || spec_label_has(
        label,
        "cpu_fan"@,
    ) || spec_label_has(label, "cpufan"@) {
        FanType::CpuFan
    } else if spec_label_has(label, "gpu"@) || spec_label_has(label, "video"@) || spec_label_has(
        label,
        "graphics"@,
    ) || spec_label_has(label, "gpu_fan"@) || spec_label_has(label, "vga"@) {
        FanType::GpuFan
    } else if spec_label_has(label, "chipset"@) || spec_label_has(label, "pch"@)
        || spec_label_has(label, "southbridge"@) || spec_label_has(label, "sb_fan"@) {
        FanType::ChipsetFan
    } else if spec_label_has(label, "psu"@) || spec_label_has(label, "power"@) || spec_label_has(
        label,
        "ps_fan"@,
    ) {
        FanType::PowerSupply
    } else if spec_label_has(label, "case"@) || spec_label_has(label, "chassis"@)
        || spec_label_has(label, "sys"@) || spec_label_has(label, "intake"@) || spec_label_has(
        label,
        "exhaust"@,
    ) || spec_label_has(label, "front"@) || spec_label_has(label, "rear"@) || spec_label_has(
        label,
        "top"@,
    ) || spec_label_has(label, "bottom"@) {
        FanType::CaseFan
    } else {
        FanType::Other
    }
}

/// Judges what a fan cools from its label.
pub fn identify_fan_type(label: &str) -> (r: FanType)
    ensures
        r == spec_identify_fan_type(label@),
{
    let l = ascii_lowercase(label);
    let l = l.as_str();
    if contains_substr(l, "cpu") || contains_substr(l, "processor") || contains_substr(
        l,
        "cpu_fan",
    ) || contains_substr(l, "cpufan") {
        FanType::CpuFan
    } else if contains_substr(l, "gpu") || contains_substr(l, "video") || contains_substr(
        l,
        "graphics",
    ) || contains_substr(l, "gpu_fan") || contains_substr(l, "vga") {
        FanType::GpuFan
    } else if contains_substr(l, "chipset") || contains_substr(l, "pch") || contains_substr(
        l,
        "southbridge",
    ) || contains_substr(l, "sb_fan") {
        FanType::ChipsetFan
    } else if contains_substr(l, "psu") || contains_substr(l, "power") || contains_substr(
        l,
        "ps_fan",
    ) {
        FanType::PowerSupply
    } else if contains_substr(l, "case") || contains_substr(l, "chassis") || contains_substr(
        l,
        "sys",
    ) || contains_substr(l, "intake") || contains_substr(l, "exhaust") || contains_substr(
        l,
        "front",
    ) || contains_substr(l, "rear") || contains_substr(l, "top") || contains_substr(l, "bottom") {
        FanType::CaseFan
    } else {
        FanType::Other
    }
}

/// The speed below which a turning fan counts as slow.
pub const DEFAULT_SLOW_SPEED_THRESHOLD: i64 = 500 * VALUE_UNIT;

/// What a speed reading says of a fan.
pub open spec fn spec_determine_fan_status(rpm: Option<i64>, slow_threshold: int) -> FanStatus {
    match rpm {
        Some(speed) => if speed <= 0 {
            FanStatus::Stopped
        } else if speed < slow_threshold {
            FanStatus::SlowSpeed
        } else {
            FanStatus::Running
        },
        None => FanStatus::Unknown,
    }
}

/// Judges a fan's state from its speed reading.
pub fn determine_fan_status(rpm: Option<i64>, slow_speed_threshold: i64) -> (r: FanStatus)
    ensures
        r == spec_determine_fan_status(rpm, slow_speed_threshold as int),
{
    match rpm {
        Some(speed) => {
            if speed <= 0 {
                FanStatus::Stopped
            } else if speed < slow_speed_threshold {
                FanStatus::SlowSpeed
            } else {
                FanStatus::Running
            }
        },
        None => FanStatus::Unknown,
    }
}

/// Which rail a voltage label names.
pub open spec fn spec_identify_voltage_type(label: Seq<char>) -> VoltageType {
    if spec_label_has(label, "cpu"@) || spec_label_has(label, "vcore"@) || spec_label_has(
        label,
        "processor"@,
    ) {
        VoltageType::Cpu
    } else if spec_label_has(label, "mem"@) || spec_label_has(label, "dimm"@) || spec_label_has(
        label,
        "dram"@,
    ) {
        VoltageType::Memory
    } else if spec_label_has(label, "12v"@) || spec_label_has(label, "+12"@) {
        VoltageType::V12
    } else if spec_label_has(label, "5v"@) || spec_label_has(label, "+5"@) {
        VoltageType::V5
    } else if spec_label_has(label, "3.3v"@) || spec_label_has(label, "3v3"@) || spec_label_has(
        label,
        "+3.3"@,
    ) {
        VoltageType::V3_3
    } else if spec_label_has(label, "bat"@) || spec_label_has(label, "cmos"@) {
        VoltageType::Vbat
    } else {
        VoltageType::Other
    }
}

/// Judges which rail a voltage sensor reports from its label.
pub fn identify_voltage_type(label: &str) -> (r: VoltageType)
    ensures
        r == spec_identify_voltage_type(label@),
{
    let l = ascii_lowercase(label);
    let l = l.as_str();
    if contains_substr(l, "cpu") || contains_substr(l, "vcore") || contains_substr(
        l,
        "processor",
    ) {
        VoltageType::Cpu
    } else if contains_substr(l, "mem") || contains_substr(l, "dimm") || contains_substr(
        l,
        "dram",
    ) {
        VoltageType::Memory
    } else if contains_substr(l, "12v") || contains_substr(l, "+12") {
        VoltageType::V12
    } else if contains_substr(l, "5v") || contains_substr(l, "+5") {
        VoltageType::V5
    } else if contains_substr(l, "3.3v") || contains_substr(l, "3v3") || contains_substr(
        l,
        "+3.3",
    ) {
        VoltageType::V3_3
    } else if contains_substr(l, "bat") || contains_substr(l, "cmos") {
        VoltageType::Vbat
    } else {
        VoltageType::Other
    }
}

/// The nominal voltage of a rail, where one is defined: the fixed rails
/// have their standard values, the battery its cell voltage; CPU and
/// memory rails vary by part and have none.
pub open spec fn spec_nominal_voltage(t: VoltageType) -> Option<int> {
    match t {
        VoltageType::V12 => Some(12 * VALUE_UNIT as int),
        VoltageType::V5 => Some(5 * VALUE_UNIT as int),
        VoltageType::V3_3 => Some((33 * VALUE_UNIT as int) / 10),
        VoltageType::Vbat => Some(3 * VALUE_UNIT as int),
        _ => None,
    }
}

/// The nominal voltage of a rail, where one is defined.
pub fn get_nominal_voltage(voltage_type: &VoltageType) -> (r: Option<i64>)
    ensures
        match r {
            Some(v) => spec_nominal_voltage(*voltage_type) == Some(v as int),
            None => spec_nominal_voltage(*voltage_type) is None,
        },
{
    match voltage_type {
        VoltageType::V12 => Some(12 * VALUE_UNIT),
        VoltageType::V5 => Some(5 * VALUE_UNIT),
        VoltageType::V3_3 => Some((33 * VALUE_UNIT) / 10),
        VoltageType::Vbat => Some(3 * VALUE_UNIT),
        _ => None,
    }
}

/// The judgement of a reading against a rail. With a nominal value, a
/// deviation over ten percent is critical and one over five percent is
/// high or low; without one, fixed per-rail ranges decide.
pub open spec fn spec_voltage_status(v: int, t: VoltageType, nominal: Option<int>) -> VoltageStatus {
    match nominal {
        Some(nom) => {
            let dev = if v >= nom {
                v - nom
            } else {
                nom - v
            };
            if dev * 10 > nom {
                VoltageStatus::Critical
            } else if dev * 20 > nom {
                if v > nom {
                    VoltageStatus::High
                } else {
                    VoltageStatus::Low
                }
            } else {
                VoltageStatus::Normal
            }
        },
        None => match t {
            VoltageType::Cpu | VoltageType::Vcore => if v > (15 * VALUE_UNIT) / 10 || v < (5
                * VALUE_UNIT) / 10 {
                VoltageStatus::Critical
            } else if v > (14 * VALUE_UNIT) / 10 || v < (7 * VALUE_UNIT) / 10 {
                VoltageStatus::High
            } else {
                VoltageStatus::Normal
            },
            VoltageType::Memory => if v > (15 * VALUE_UNIT) / 10 || v < VALUE_UNIT {
                VoltageStatus::Critical
            } else if v > (14 * VALUE_UNIT) / 10 || v < (11 * VALUE_UNIT) / 10 {
                VoltageStatus::High
            } else {
                VoltageStatus::Normal
            },
            VoltageType::Vbat => if v < (25 * VALUE_UNIT) / 10 {
                VoltageStatus::Low
            } else if v < (28 * VALUE_UNIT) / 10 {
                VoltageStatus::Critical
            } else {
                VoltageStatus::Normal
            },
            _ => VoltageStatus::Unknown,
        },
    }
}

/// Judges a voltage reading against its rail.
pub fn determine_voltage_status(
    voltage: i64,
    voltage_type: &VoltageType,
    nominal: Option<i64>,
) -> (r: VoltageStatus)
    ensures
        r == spec_voltage_status(
            voltage as int,
            *voltage_type,
            match nominal {
                Some(n) => Some(n as int),
                None => None,
            },
        ),
{
    match nominal {
        Some(nom) => {
            let v = voltage as i128;
            let n = nom as i128;
            let dev: i128 = if v >= n {
                v - n
            } else {
                n - v
            };
            if dev * 10 > n {
                VoltageStatus::Critical
            } else if dev * 20 > n {
                if v > n {
                    VoltageStatus::High
                } else {
                    VoltageStatus::Low
                }
            } else {
                VoltageStatus::Normal
            }
        },
        None => match voltage_type {
            VoltageType::Cpu | VoltageType::Vcore => {
                if voltage > (15 * VALUE_UNIT) / 10 || voltage < (5 * VALUE_UNIT) / 10 {
                    VoltageStatus::Critical
                } else if voltage > (14 * VALUE_UNIT) / 10 || voltage < (7 * VALUE_UNIT) / 10 {
                    VoltageStatus::High
                } else {
                    VoltageStatus::Normal
                }
            },
            VoltageType::Memory => {
                if voltage > (15 * VALUE_UNIT) / 10 || voltage < VALUE_UNIT {
                    VoltageStatus::Critical
                } else if voltage > (14 * VALUE_UNIT) / 10 || voltage < (11 * VALUE_UNIT) / 10 {
                    VoltageStatus::High
                } else {
                    VoltageStatus::Normal
                }
            },
            VoltageType::Vbat => {
                if voltage < (25 * VALUE_UNIT) / 10 {
                    VoltageStatus::Low
                } else if voltage < (28 * VALUE_UNIT) / 10 {
                    VoltageStatus::Critical
                } else {
                    VoltageStatus::Normal
                }
            },
            _ => VoltageStatus::Unknown,
        },
    }
}

/// What a temperature label measures. Chipset names take precedence, as
/// the most safety-relevant.
pub open spec fn spec_identify_sensor_type(label: Seq<char>) -> SensorType {
    if spec_label_has(label, "pch"@) || spec_label_has(label, "southbridge"@) || spec_label_has(
        label,
        "fch"@,
    ) || spec_label_has(label, "ich"@) || spec_label_has(label, "chipset"@) || spec_label_has(
        label,
        "sb"@,
    ) {
        SensorType::Chipset
    } else if spec_label_has(label, "cpu"@) || spec_label_has(label, "core"@) || spec_label_has(
        label,
        "processor"@,
    ) || spec_label_has(label, "package"@) {
        SensorType::Cpu
    } else if spec_label_has(label, "gpu"@) || spec_label_has(label, "video"@) || spec_label_has(
        label,
        "graphics"@,
    ) || spec_label_has(label, "nvidia"@) || spec_label_has(label, "amd"@) || spec_label_has(
        label,
        "radeon"@,
    ) {
        SensorType::Gpu
    } else if spec_label_has(label, "disk"@) || spec_label_has(label, "drive"@)
        || spec_label_has(label, "hdd"@) || spec_label_has(label, "ssd"@) || spec_label_has(
        label,
        "nvme"@,
    ) {
        SensorType::Disk
    } else {
        SensorType::Other
    }
}

/// Judges what a temperature sensor measures from its label.
pub fn identify_sensor_type(label: &str) -> (r: SensorType)
    ensures
        r == spec_identify_sensor_type(label@),
{
    let l = ascii_lowercase(label);
    let l = l.as_str();
    if contains_substr(l, "pch") || contains_substr(l, "southbridge") || contains_substr(
        l,
        "fch",
    ) || contains_substr(l, "ich") || contains_substr(l, "chipset") || contains_substr(l, "sb") {
        SensorType::Chipset
    } else if contains_substr(l, "cpu") || contains_substr(l, "core") || contains_substr(
        l,
        "processor",
    ) || contains_substr(l, "package") {
        SensorType::Cpu
    } else if contains_substr(l, "gpu") || contains_substr(l, "video") || contains_substr(
        l,
        "graphics",
    ) || contains_substr(l, "nvidia") || contains_substr(l, "amd") || contains_substr(
        l,
        "radeon",
    ) {
        SensorType::Gpu
    } else if contains_substr(l, "disk") || contains_substr(l, "drive") || contains_substr(
        l,
        "hdd",
    ) || contains_substr(l, "ssd") || contains_substr(l, "nvme") {
        SensorType::Disk
    } else {
        SensorType::Other
    }
}

/// What a device name says of a disk's kind.
pub open spec fn spec_identify_disk_type(name: Seq<char>) -> DiskType {
    if spec_label_has(name, "nvme"@) {
        DiskType::NVMe
    } else if spec_label_has(name, "ssd"@) {
        DiskType::SSD
    } else if spec_label_has(name, "hdd"@) || spec_label_has(name, "st"@) || spec_label_has(
        name,
        "wd"@,
    ) {
        DiskType::HDD
    } else {
        DiskType::Unknown
    }
}

/// Judges a disk's kind from its device name.
pub fn identify_disk_type(name: &str) -> (r: DiskType)
    ensures
        r == spec_identify_disk_type(name@),
{
    let l = ascii_lowercase(name);
    let l = l.as_str();
    if contains_substr(l, "nvme") {
        DiskType::NVMe
    } else if contains_substr(l, "ssd") {
        DiskType::SSD
    } else if contains_substr(l, "hdd") || contains_substr(l, "st") || contains_substr(l, "wd") {
        DiskType::HDD
    } else {
        DiskType::Unknown
    }
}

/// The judgement of a memory temperature: 85 degrees and above is
/// critical, 75 and above is a warning, anything below is normal.
pub open spec fn spec_temp_status(temp: int) -> Seq<char> {
    if temp >= 85 * VALUE_UNIT {
        "Critical"@
    } else if temp >= 75 * VALUE_UNIT {
        "Warning"@
    } else {
        "Normal"@
    }
}

/// Judges a memory temperature reading.
pub fn determine_temp_status(temp: i64) -> (r: String)
    ensures
        r@ == spec_temp_status(temp as int),
{
    if temp >= 85 * VALUE_UNIT {
        "Critical".to_owned()
    } else if temp >= 75 * VALUE_UNIT {
        "Warning".to_owned()
    } else {
        "Normal".to_owned()
    }
}

/// SMART-style information about one disk, as far as the platform exposes
/// it.
#[derive(Debug, Clone, Copy, PartialEq, Eq, Structural)]
pub struct SmartInfo {
    /// Whether any SMART-like reading could be obtained.
    pub supported: bool,
    /// Health judgement; unknown until a real SMART query backs it.
    pub health_status: DiskHealthStatus,
    /// Disk temperature, where readable.
    pub temperature: Option<i64>,
    /// Hours powered on, where readable.
    pub power_on_hours: Option<u64>,
    /// Read/write error count, where readable.
    pub error_count: Option<u64>,
    /// Reallocated sector count, where readable.
    pub reallocated_sectors: Option<u64>,
    /// Remaining life percentage, where readable.
    pub remaining_life: Option<i64>,
}

/// Assembles the SMART summary of a disk from its kind and an optional
/// temperature reading: a reading marks SMART as (partly) supported, and
/// solid-state disks get a summary even without one.
pub fn build_smart_info(disk_type: &DiskType, temperature: Option<i64>) -> (r: Option<SmartInfo>)
    ensures
        (temperature is Some || *disk_type == DiskType::NVMe || *disk_type == DiskType::SSD) ==> r
            == Some(
            SmartInfo {
                supported: temperature is Some,
                health_status: DiskHealthStatus::Unknown,
                temperature,
                power_on_hours: None,
                error_count: None,
                reallocated_sectors: None,
                remaining_life: None,
            },
        ),
        !(temperature is Some || *disk_type == DiskType::NVMe || *disk_type == DiskType::SSD)
            ==> r is None,
{
    let supported = temperature.is_some();
    if supported || matches!(disk_type, DiskType::NVMe | DiskType::SSD) {
        Some(
            SmartInfo {
                supported,
                health_status: DiskHealthStatus::Unknown,
                temperature,
                power_on_hours: None,
                error_count: None,
                reallocated_sectors: None,
                remaining_life: None,
            },
        )
    } else {
        None
    }
}

/// What one pass over labelled temperature readings accumulates.
#[verifier::ext_equal]
pub ghost struct TempFold {
    pub cpu_sum: int,
    pub cpu_count: int,
    pub chipset: Option<i64>,
    pub max: Option<i64>,
}

/// The accumulation over a reading list, in order: CPU readings are summed
/// for the average, the hottest chipset reading and the hottest reading of
/// all are kept.
pub open spec fn spec_temp_fold(readings: Seq<(String, i64)>) -> TempFold
    decreases readings.len(),
{
    if readings.len() == 0 {
        TempFold { cpu_sum: 0, cpu_count: 0, chipset: None, max: None }
    } else {
        let p = spec_temp_fold(readings.drop_last());
        let label = readings.last().0@;
        let t = readings.last().1;
        let kind = spec_identify_sensor_type(label);
        TempFold {
            cpu_sum: if kind == SensorType::Cpu {
                p.cpu_sum + t
            } else {
                p.cpu_sum
            },
            cpu_count: if kind == SensorType::Cpu {
                p.cpu_count + 1
            } else {
                p.cpu_count
            },
            chipset: if kind == SensorType::Chipset {
                match p.chipset {
                    Some(c) => if t > c {
                        Some(t)
                    } else {
                        Some(c)
                    },
                    None => Some(t),
                }
            } else {
                p.chipset
            },
            max: match p.max {
                Some(m) => if t > m {
                    Some(t)
                } else {
                    Some(m)
                },
                None => Some(t),
            },
        }
    }
}

/// The digest of one pass over a machine's temperature sensors.
#[derive(Debug, Clone, Copy, PartialEq, Eq, Structural)]
pub struct TemperatureSummary {
    /// Average over the CPU sensors, truncated, if there are any.
    pub cpu_avg_temp: Option<i64>,
    /// Hottest chipset reading, if there is one.
    pub chipset_temp: Option<i64>,
    /// Hottest reading of all, if there is any.
    pub max_temp: Option<i64>,
}

/// Summarises labelled temperature readings: the CPU average, the hottest
/// chipset reading, and the overall maximum.
pub fn summarize_temperatures(readings: &Vec<(String, i64)>) -> (r: TemperatureSummary)
    ensures
        ({
            let fold = spec_temp_fold(readings@);
            &&& r.chipset_temp == fold.chipset
            &&& r.max_temp == fold.max
            &&& fold.cpu_count == 0 ==> r.cpu_avg_temp is None
            &&& fold.cpu_count > 0 ==> (r.cpu_avg_temp matches Some(a) && a as int
                == spec_div_trunc(fold.cpu_sum, fold.cpu_count))
        }),
{
    let mut cpu_sum: i128 = 0;
    let mut cpu_count: usize = 0;
    let mut chipset: Option<i64> = None;
    let mut max: Option<i64> = None;
    let mut i: usize = 0;
    proof {
        assert(readings@.take(0) =~= Seq::<(String, i64)>::empty());
    }
    while i < readings.len()
        invariant
            i <= readings@.len(),
            cpu_count <= i,
            -(cpu_count as int * 0x8000_0000_0000_0000) <= cpu_sum as int,
            cpu_sum as int <= cpu_count as int * 0x7fff_ffff_ffff_ffff,
            spec_temp_fold(readings@.take(i as int)) == (TempFold {
                cpu_sum: cpu_sum as int,
                cpu_count: cpu_count as int,
                chipset,
                max,
            }),
        decreases readings@.len() - i,
    {
        proof {
            assert(readings@.take(i + 1).drop_last() =~= readings@.take(i as int));
            assert(readings@.take(i + 1).last() == readings@[i as int]);
        }
        let t: i64 = readings[i].1;
        match identify_sensor_type(readings[i].0.as_str()) {
            SensorType::Cpu => {
                cpu_sum = cpu_sum + t as i128;
                cpu_count = cpu_count + 1;
            },
            SensorType::Chipset => {
                chipset = match chipset {
                    Some(c) => if t > c {
                        Some(t)
                    } else {
                        Some(c)
                    },
                    None => Some(t),
                };
            },
            _ => {},
        }
        max = match max {
            Some(m) => if t > m {
                Some(t)
            } else {
                Some(m)
            },
            None => Some(t),
        };
        proof {
            assert(spec_temp_fold(readings@.take(i + 1)) =~= (TempFold {
                cpu_sum: cpu_sum as int,
                cpu_count: cpu_count as int,
                chipset,
                max,
            }));
        }
        i = i + 1;
    }
    proof {
        assert(readings@.take(readings@.len() as int) =~= readings@);
    }
    let cpu_avg_temp: Option<i64> = if cpu_count > 0 {
        Some(div_trunc_sum(cpu_sum, cpu_count))
    } else {
        None
    };
    TemperatureSummary { cpu_avg_temp, chipset_temp: chipset, max_temp: max }
}

/// The digest of one pass over a machine's fans.
#[derive(Debug, Clone, Copy, PartialEq, Eq, Structural)]
pub struct FanSummary {
    /// How many fans have stopped.
    pub stopped_count: usize,
    /// How many fans run below the slow-speed threshold.
    pub slow_speed_count: usize,
    /// How many fans were seen at all.
    pub total_count: usize,
}

impl FanSummary {
    /// Whether any fan is in trouble: stopped or running slow.
    pub fn has_fan_failures(&self) -> (r: bool)
        ensures
            r == (self.stopped_count > 0 || self.slow_speed_count > 0),
    {
        self.stopped_count > 0 || self.slow_speed_count > 0
    }
}

/// Summarises fan speed readings: how many fans are stopped, how many run
/// slow, and how many there are.
pub fn summarize_fans(readings: &Vec<(String, Option<i64>)>, slow_speed_threshold: i64) -> (r:
    FanSummary)
    ensures
        r.total_count == readings@.len(),
        r.stopped_count == readings@.filter(
            |rd: (String, Option<i64>)| spec_determine_fan_status(
                rd.1,
                slow_speed_threshold as int,
            ) == FanStatus::Stopped,
        ).len(),
        r.slow_speed_count == readings@.filter(
            |rd: (String, Option<i64>)| spec_determine_fan_status(
                rd.1,
                slow_speed_threshold as int,
            ) == FanStatus::SlowSpeed,
        ).len(),
{
    let ghost stopped_pred = |rd: (String, Option<i64>)| spec_determine_fan_status(
        rd.1,
        slow_speed_threshold as int,
    ) == FanStatus::Stopped;
    let ghost slow_pred = |rd: (String, Option<i64>)| spec_determine_fan_status(
        rd.1,
        slow_speed_threshold as int,
    ) == FanStatus::SlowSpeed;
    let mut stopped: usize = 0;
    let mut slow: usize = 0;
    let mut i: usize = 0;
    proof {
        lemma_filter_empty(stopped_pred);
        lemma_filter_empty(slow_pred);
        assert(readings@.take(0) =~= Seq::<(String, Option<i64>)>::empty());
    }
    while i < readings.len()
        invariant
            i <= readings@.len(),
            stopped_pred == (|rd: (String, Option<i64>)| spec_determine_fan_status(
                rd.1,
                slow_speed_threshold as int,
            ) == FanStatus::Stopped),
            slow_pred == (|rd: (String, Option<i64>)| spec_determine_fan_status(
                rd.1,
                slow_speed_threshold as int,
            ) == FanStatus::SlowSpeed),
            stopped == readings@.take(i as int).filter(stopped_pred).len(),
            slow == readings@.take(i as int).filter(slow_pred).len(),
            stopped <= i,
            slow <= i,
        decreases readings@.len() - i,
    {
        match determine_fan_status(readings[i].1, slow_speed_threshold) {
            FanStatus::Stopped => {
                stopped = stopped + 1;
            },
            FanStatus::SlowSpeed => {
                slow = slow + 1;
            },
            _ => {},
        }
        proof {
            lemma_filter_take_step(readings@, stopped_pred, i as int);
            lemma_filter_take_step(readings@, slow_pred, i as int);
        }
        i = i + 1;
    }
    proof {
        assert(readings@.take(readings@.len() as int) =~= readings@);
    }
    FanSummary { stopped_count: stopped, slow_speed_count: slow, total_count: readings.len() }
}

/// Whether a labelled voltage reading is outside its normal range.
pub open spec fn spec_voltage_abnormal(rd: (String, i64)) -> bool {
    let kind = spec_identify_voltage_type(rd.0@);
    let status = spec_voltage_status(rd.1 as int, kind, spec_nominal_voltage(kind));
    !(status == VoltageStatus::Normal || status == VoltageStatus::Unknown)
}

/// The digest of one pass over a machine's voltage sensors.
#[derive(Debug, Clone, Copy, PartialEq, Eq, Structural)]
pub struct PowerSummary {
    /// How many sensors were read.
    pub sensor_count: usize,
    /// How many readings are outside their normal range.
    pub abnormal_count: usize,
    /// Whether any reading is outside its normal range.
    pub has_issues: bool,
}

/// Summarises labelled voltage readings: each is judged against its rail,
/// and the out-of-range ones are counted.
pub fn summarize_voltages(readings: &Vec<(String, i64)>) -> (r: PowerSummary)
    ensures
        r.sensor_count == readings@.len(),
        r.abnormal_count == readings@.filter(|rd: (String, i64)| spec_voltage_abnormal(rd)).len(),
        r.has_issues == (r.abnormal_count > 0),
{
    let ghost pred = |rd: (String, i64)| spec_voltage_abnormal(rd);
    let mut abnormal: usize = 0;
    let mut i: usize = 0;
    proof {
        lemma_filter_empty(pred);
        assert(readings@.take(0) =~= Seq::<(String, i64)>::empty());
    }
    while i < readings.len()
        invariant
            i <= readings@.len(),
            pred == (|rd: (String, i64)| spec_voltage_abnormal(rd)),
            abnormal == readings@.take(i as int).filter(pred).len(),
            abnormal <= i,
        decreases readings@.len() - i,
    {
        let kind = identify_voltage_type(readings[i].0.as_str());
        let nominal = get_nominal_voltage(&kind);
        let status = determine_voltage_status(readings[i].1, &kind, nominal);
        let bad = match status {
            VoltageStatus::Normal | VoltageStatus::Unknown => false,
            _ => true,
        };
        proof {
            assert(bad == spec_voltage_abnormal(readings@[i as int]));
        }
        if bad {
            abnormal = abnormal + 1;
        }
        proof {
            lemma_filter_take_step(readings@, pred, i as int);
        }
        i = i + 1;
    }
    proof {
        assert(readings@.take(readings@.len() as int) =~= readings@);
    }
    PowerSummary {
        sensor_count: readings.len(),
        abnormal_count: abnormal,
        has_issues: abnormal > 0,
    }
}

} // verus!
