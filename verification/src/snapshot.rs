//! The readings of one moment, as the engine hands them over.
//!
//! Readings with a fraction are kept as numbers of 64 bits. What the engine says of its readings
//! in words, and what it has derived from them, is part of the snapshot.

use vstd::prelude::*;

use crate::number::Double;

verus! {

#[derive(Debug, Clone, Copy, PartialEq, Eq, Structural)]
pub enum SensorStatus {
    Unknown,
    Available,
    Partial,
    Unavailable,
    Error,
}

#[derive(Debug, Clone, Copy, PartialEq, Eq, Structural)]
pub enum FpsAvailability {
    Unknown,
    Waiting,
    Available,
    Unavailable,
    Error,
}

/// How well a part of the machine can be read, and why not better.
#[derive(Debug)]
pub struct SectionHealth {
    pub status: SensorStatus,
    pub reason: Option<String>,
}

#[derive(Debug)]
pub struct GpuStats {
    pub health: SectionHealth,
    pub has_any_value: bool,
    pub name: Option<String>,
    pub load_percent: Option<Double>,
    pub temperature_c: Option<Double>,
    pub core_clock_mhz: Option<Double>,
    pub memory_clock_mhz: Option<Double>,
    pub vram_used_bytes: Option<u64>,
    pub vram_total_bytes: Option<u64>,
    pub power_watts: Option<Double>,
    pub fan_rpm: Option<Double>,
    pub fan_percent: Option<Double>,
}

/// A logical core.
#[derive(Debug, Clone, Copy, PartialEq)]
pub struct CoreStats {
    pub load_percent: Option<Double>,
    pub clock_mhz: Option<Double>,
    pub efficiency_class: u8,
}

/// The clocks of a processor with two kinds of cores.
#[derive(Debug, Clone, Copy)]
pub struct HybridClocks {
    pub performance_mhz: Option<Double>,
    pub efficient_mhz: Option<Double>,
}

#[derive(Debug)]
pub struct CpuStats {
    pub health: SectionHealth,
    pub has_any_value: bool,
    pub name: Option<String>,
    pub load_percent: Option<Double>,
    pub temperature_c: Option<Double>,
    pub clock_mhz: Option<Double>,
    pub power_watts: Option<Double>,
    pub hybrid_clocks: Option<HybridClocks>,
    pub cores: Vec<CoreStats>,
}

#[derive(Debug)]
pub struct MemoryStats {
    pub health: SectionHealth,
    pub has_any_value: bool,
    pub load_percent: Option<Double>,
    pub used_bytes: Option<u64>,
    pub total_bytes: Option<u64>,
    pub speed_mhz: Option<u32>,
    pub process_bytes: Option<u64>,
}

#[derive(Debug, Clone, Copy)]
pub struct FrameStatistics {
    pub current_fps: Option<Double>,
    pub average_fps: Option<Double>,
    pub low_1_percent_fps: Option<Double>,
    pub low_0_1_percent_fps: Option<Double>,
    pub current_frametime_ms: Option<Double>,
}

/// The process whose frames are measured.
#[derive(Debug)]
pub struct TargetProcess {
    pub pid: u32,
    pub executable: String,
}

#[derive(Debug)]
pub struct FpsState {
    pub availability: FpsAvailability,
    pub target: Option<TargetProcess>,
    pub presentation: Option<String>,
    pub latency_ms: Option<Double>,
    pub statistics: FrameStatistics,
    /// The source's own words, for the page of the settings.
    pub detail: Option<String>,
    /// Why there are no frames.
    pub message: Option<String>,
    /// Whose frames these are, or why there are none.
    pub summary: Option<String>,
    /// How the target draws.
    pub api: Option<String>,
}

#[derive(Debug)]
pub struct Snapshot {
    pub gpu: GpuStats,
    pub cpu: CpuStats,
    pub memory: MemoryStats,
    pub fps: FpsState,
    pub hardware_status: SensorStatus,
    /// Before the first measurement.
    pub warming_up: bool,
}

impl SensorStatus {
    pub open spec fn words(self) -> Seq<char> {
        match self {
            SensorStatus::Unknown => "определяется"@,
            SensorStatus::Available => "всё читается"@,
            SensorStatus::Partial => "частично"@,
            SensorStatus::Unavailable => "недоступно"@,
            SensorStatus::Error => "ошибка"@,
        }
    }

    pub fn text(self) -> (r: &'static str)
        ensures
            r@ == self.words(),
    {
        match self {
            SensorStatus::Unknown => "определяется",
            SensorStatus::Available => "всё читается",
            SensorStatus::Partial => "частично",
            SensorStatus::Unavailable => "недоступно",
            SensorStatus::Error => "ошибка",
        }
    }
}

impl FpsAvailability {
    pub open spec fn words(self) -> Seq<char> {
        match self {
            FpsAvailability::Unknown => "определяется"@,
            FpsAvailability::Waiting => "ожидание"@,
            FpsAvailability::Available => "замер идёт"@,
            FpsAvailability::Unavailable => "недоступно"@,
            FpsAvailability::Error => "ошибка"@,
        }
    }

    pub fn text(self) -> (r: &'static str)
        ensures
            r@ == self.words(),
    {
        match self {
            FpsAvailability::Unknown => "определяется",
            FpsAvailability::Waiting => "ожидание",
            FpsAvailability::Available => "замер идёт",
            FpsAvailability::Unavailable => "недоступно",
            FpsAvailability::Error => "ошибка",
        }
    }

    /// The name that the journal has for it.
    pub open spec fn label(self) -> Seq<char> {
        match self {
            FpsAvailability::Unknown => "Unknown"@,
            FpsAvailability::Waiting => "Waiting"@,
            FpsAvailability::Available => "Available"@,
            FpsAvailability::Unavailable => "Unavailable"@,
            FpsAvailability::Error => "Error"@,
        }
    }

    pub fn name(self) -> (r: &'static str)
        ensures
            r@ == self.label(),
    {
        match self {
            FpsAvailability::Unknown => "Unknown",
            FpsAvailability::Waiting => "Waiting",
            FpsAvailability::Available => "Available",
            FpsAvailability::Unavailable => "Unavailable",
            FpsAvailability::Error => "Error",
        }
    }

    pub fn is_available(self) -> (r: bool)
        ensures
            r == (self is Available),
    {
        match self {
            FpsAvailability::Available => true,
            _ => false,
        }
    }
}

/// How well a part of the machine can be read, in words.
pub proof fn law_sensors_are_described(value: SensorStatus, r: &'static str)
    requires
        call_ensures(SensorStatus::text, (value,), r),
    ensures
        value is Unknown ==> r@ == "определяется"@,
        value is Available ==> r@ == "всё читается"@,
        value is Partial ==> r@ == "частично"@,
        value is Unavailable ==> r@ == "недоступно"@,
        value is Error ==> r@ == "ошибка"@,
{
}

/// Whether frames are measured, in words.
pub proof fn law_frames_are_described(value: FpsAvailability, r: &'static str)
    requires
        call_ensures(FpsAvailability::text, (value,), r),
    ensures
        value is Unknown ==> r@ == "определяется"@,
        value is Waiting ==> r@ == "ожидание"@,
        value is Available ==> r@ == "замер идёт"@,
        value is Unavailable ==> r@ == "недоступно"@,
        value is Error ==> r@ == "ошибка"@,
{
}

/// Whether frames are measured, as the journal names it.
pub proof fn law_journal_names_the_frames(value: FpsAvailability, r: &'static str)
    requires
        call_ensures(FpsAvailability::name, (value,), r),
    ensures
        value is Unknown ==> r@ == "Unknown"@,
        value is Waiting ==> r@ == "Waiting"@,
        value is Available ==> r@ == "Available"@,
        value is Unavailable ==> r@ == "Unavailable"@,
        value is Error ==> r@ == "Error"@,
{
}

} // verus!
