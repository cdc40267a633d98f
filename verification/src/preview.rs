//! The overlay in the window of the settings, as the drafts would have it.
//!
//! Its numbers are made up: without a game a snapshot holds dashes, and dashes do not show what is
//! switched on.

use vstd::arithmetic::power2::pow2;
use vstd::prelude::*;

use crate::hud::hud_of;
use crate::hud::hud_views;
use crate::hud::Extras;
use crate::hud::Picture;
use crate::hud::SeenRows;
use crate::number::Double;
use crate::number::Single;
use crate::paths::text_of;
use crate::settings::Metric;
use crate::settings::Settings;
use crate::snapshot::CoreStats;
use crate::snapshot::CpuStats;
use crate::snapshot::FpsAvailability;
use crate::snapshot::FpsState;
use crate::snapshot::FrameStatistics;
use crate::snapshot::GpuStats;
use crate::snapshot::HybridClocks;
use crate::snapshot::MemoryStats;
use crate::snapshot::SectionHealth;
use crate::snapshot::SensorStatus;
use crate::snapshot::Snapshot;
use crate::snapshot::TargetProcess;
use crate::strip::strip_of;
use crate::strip::strip_views;

verus! {

pub const GIB: u64 = 0x4000_0000;

/// The time in the preview.
pub const DEMO_CLOCK: (u8, u8) = (21, 37);

/// The size of the game's window in the preview.
pub const DEMO_RESOLUTION: (u32, u32) = (2560, 1440);

/// How many cores there are as long as the real ones are not known.
pub const DEMO_THREADS: usize = 16;

/// The bits of 7.1 milliseconds.
pub const DEMO_FRAMETIME: u64 = 0x401c_6666_6666_6666;

/// What the engine makes of the readings.
#[derive(Debug)]
pub struct Told {
    pub memory_load: Option<Double>,
    pub summary: Option<String>,
    pub api: Option<String>,
}

/// A reading is a whole number.
pub open spec fn counts(value: Double, n: nat) -> bool {
    value.finite() && !value.negative() && value.extent() == n * pow2(1074)
}

pub open spec fn reads(value: Option<Double>, n: nat) -> bool {
    value is Some && counts(value->0, n)
}

fn whole(n: u32) -> (r: Double)
    requires
        0 < n < 0x100_0000,
    ensures
        counts(r, n as nat),
{
    let single = Single::of_u64(n as u64);
    proof {
        crate::number::lemma_whole_single(n as nat);
        crate::number::lemma_wide(single);
        assert(n as nat * pow2(1074) * 1 == n as nat * pow2(1074));
        assert(single == crate::number::whole_single(n as nat));
    }
    single.widened()
}

/// The highest class of the cores: that of the fast ones.
pub open spec fn top_class(classes: Seq<u8>) -> u8
    decreases classes.len(),
{
    if classes.len() == 0 {
        0
    } else {
        let rest = top_class(classes.drop_last());
        if classes.last() > rest {
            classes.last()
        } else {
            rest
        }
    }
}

pub fn highest_class(classes: &Vec<u8>) -> (top: u8)
    ensures
        top == top_class(classes@),
{
    let mut top: u8 = 0;
    let mut i: usize = 0;
    while i < classes.len()
        invariant
            i <= classes.len(),
            top == top_class(classes@.take(i as int)),
        decreases classes.len() - i,
    {
        proof {
            assert(classes@.take(i + 1).drop_last() =~= classes@.take(i as int));
        }
        if classes[i] > top {
            top = classes[i];
        }
        i += 1;
    }
    proof {
        assert(classes@.take(i as int) =~= classes@);
    }
    top
}

/// A core of the preview. The fast ones are busier and clocked higher.
pub open spec fn demo_core(core: CoreStats, index: int, class: u8, top: u8) -> bool {
    let wave = (index * 37) % 11;
    &&& core.efficiency_class == class
    &&& reads(
        core.load_percent,
        if class == top {
            (30 + 6 * wave) as nat
        } else {
            (10 + 3 * wave) as nat
        },
    )
    &&& reads(
        core.clock_mhz,
        if class == top {
            (4550 + 12 * wave) as nat
        } else {
            (3700 + 8 * wave) as nat
        },
    )
}

/// Cores of these classes with loads and clocks that are made up.
pub fn demo_cores(classes: &Vec<u8>) -> (r: Vec<CoreStats>)
    ensures
        r.len() == classes.len(),
        forall|i: int|
            0 <= i < r.len() ==> demo_core(
                #[trigger] r@[i],
                i,
                classes@[i],
                top_class(classes@),
            ),
{
    let top: u8 = highest_class(classes);
    let mut cores: Vec<CoreStats> = Vec::new();
    let mut j: usize = 0;
    // The position times 37, modulo 11: every core adds 4.
    let mut wave: u32 = 0;
    while j < classes.len()
        invariant
            j <= classes.len(),
            cores.len() == j,
            wave == (j * 37) % 11,
            top == top_class(classes@),
            forall|i: int|
                0 <= i < j ==> demo_core(
                    #[trigger] cores@[i],
                    i,
                    classes@[i],
                    top_class(classes@),
                ),
        decreases classes.len() - j,
    {
        let class: u8 = classes[j];
        let (load, clock) = if class == top {
            (whole(30 + 6 * wave), whole(4550 + 12 * wave))
        } else {
            (whole(10 + 3 * wave), whole(3700 + 8 * wave))
        };
        cores.push(
            CoreStats {
                load_percent: Some(load),
                clock_mhz: Some(clock),
                efficiency_class: class,
            },
        );
        wave = (wave + 4) % 11;
        j += 1;
    }
    cores
}

/// The health of a section that has all its values.
pub open spec fn healthy(health: SectionHealth) -> bool {
    health.status is Available && health.reason is None
}

fn available() -> (r: SectionHealth)
    ensures
        healthy(r),
{
    SectionHealth { status: SensorStatus::Available, reason: None }
}

/// The graphics card of the preview.
pub open spec fn demo_gpu(gpu: GpuStats) -> bool {
    &&& healthy(gpu.health)
    &&& gpu.has_any_value
    &&& text_of(gpu.name) == Some("NVIDIA GeForce RTX"@)
    &&& reads(gpu.load_percent, 74)
    &&& reads(gpu.temperature_c, 66)
    &&& reads(gpu.core_clock_mhz, 1_687)
    &&& reads(gpu.memory_clock_mhz, 7_001)
    &&& gpu.vram_used_bytes == Some((7 * GIB + GIB / 2) as u64)
    &&& gpu.vram_total_bytes == Some((16 * GIB) as u64)
    &&& reads(gpu.power_watts, 214)
    &&& reads(gpu.fan_rpm, 1_450)
    &&& reads(gpu.fan_percent, 38)
}

fn gpu() -> (r: GpuStats)
    ensures
        demo_gpu(r),
{
    GpuStats {
        health: available(),
        has_any_value: true,
        name: Some("NVIDIA GeForce RTX".to_string()),
        load_percent: Some(whole(74)),
        temperature_c: Some(whole(66)),
        core_clock_mhz: Some(whole(1_687)),
        memory_clock_mhz: Some(whole(7_001)),
        vram_used_bytes: Some(7 * GIB + GIB / 2),
        vram_total_bytes: Some(16 * GIB),
        power_watts: Some(whole(214)),
        fan_rpm: Some(whole(1_450)),
        fan_percent: Some(whole(38)),
    }
}

/// The processor of the preview: cores of one kind.
pub open spec fn demo_cpu(cpu: CpuStats) -> bool {
    &&& healthy(cpu.health)
    &&& cpu.has_any_value
    &&& text_of(cpu.name) == Some("AMD Ryzen 7"@)
    &&& reads(cpu.load_percent, 38)
    &&& reads(cpu.temperature_c, 71)
    &&& reads(cpu.clock_mhz, 4_620)
    &&& reads(cpu.power_watts, 96)
    &&& cpu.hybrid_clocks is None
    &&& cpu.cores@.len() == DEMO_THREADS
    &&& forall|i: int|
        0 <= i < DEMO_THREADS ==> demo_core(#[trigger] cpu.cores@[i], i, 0, 0)
}

fn cpu() -> (r: CpuStats)
    ensures
        demo_cpu(r),
{
    let mut classes: Vec<u8> = Vec::new();
    let mut i: usize = 0;
    while i < DEMO_THREADS
        invariant
            i <= DEMO_THREADS,
            classes.len() == i,
            forall|j: int| 0 <= j < i ==> classes@[j] == 0,
        decreases DEMO_THREADS - i,
    {
        classes.push(0);
        i += 1;
    }
    proof {
        lemma_equal_classes(classes@, 0);
    }
    CpuStats {
        health: available(),
        has_any_value: true,
        name: Some("AMD Ryzen 7".to_string()),
        load_percent: Some(whole(38)),
        temperature_c: Some(whole(71)),
        clock_mhz: Some(whole(4_620)),
        power_watts: Some(whole(96)),
        hybrid_clocks: None,
        cores: demo_cores(&classes),
    }
}

proof fn lemma_equal_classes(classes: Seq<u8>, class: u8)
    requires
        forall|i: int| 0 <= i < classes.len() ==> classes[i] == class,
    ensures
        top_class(classes) == (if classes.len() == 0 {
            0
        } else {
            class
        }),
    decreases classes.len(),
{
    if classes.len() > 0 {
        lemma_equal_classes(classes.drop_last(), class);
    }
}

/// The memory of the preview.
pub open spec fn demo_memory(memory: MemoryStats, load: Option<Double>) -> bool {
    &&& healthy(memory.health)
    &&& memory.has_any_value
    &&& memory.load_percent == load
    &&& memory.used_bytes == Some((13 * GIB + GIB * 7 / 10) as u64)
    &&& memory.total_bytes == Some((32 * GIB) as u64)
    &&& memory.speed_mhz == Some(6_000u32)
    &&& memory.process_bytes == Some((4 * GIB + GIB * 3 / 10) as u64)
}

/// The frames of the preview.
pub open spec fn demo_fps(
    fps: FpsState,
    summary: Option<Seq<char>>,
    api: Option<Seq<char>>,
) -> bool {
    &&& fps.availability is Available
    &&& fps.target matches Some(target) && target.pid == 0 && target.executable@ == "game.exe"@
    &&& text_of(fps.presentation) == Some("DXGI · Hardware: Independent Flip"@)
    &&& reads(fps.latency_ms, 27)
    &&& reads(fps.statistics.current_fps, 143)
    &&& reads(fps.statistics.average_fps, 142)
    &&& reads(fps.statistics.low_1_percent_fps, 98)
    &&& reads(fps.statistics.low_0_1_percent_fps, 75)
    &&& fps.statistics.current_frametime_ms == Some(Double { bits: DEMO_FRAMETIME })
    &&& fps.detail is None
    &&& fps.message is None
    &&& text_of(fps.summary) == summary
    &&& text_of(fps.api) == api
}

fn fps(summary: Option<String>, api: Option<String>) -> (r: FpsState)
    ensures
        demo_fps(r, text_of(summary), text_of(api)),
{
    FpsState {
        availability: FpsAvailability::Available,
        target: Some(TargetProcess { pid: 0, executable: "game.exe".to_string() }),
        presentation: Some("DXGI · Hardware: Independent Flip".to_string()),
        latency_ms: Some(whole(27)),
        statistics: FrameStatistics {
            current_fps: Some(whole(143)),
            average_fps: Some(whole(142)),
            low_1_percent_fps: Some(whole(98)),
            low_0_1_percent_fps: Some(whole(75)),
            current_frametime_ms: Some(Double { bits: DEMO_FRAMETIME }),
        },
        detail: None,
        message: None,
        summary,
        api,
    }
}

/// A game is running: every row has a plausible value.
pub fn demo_snapshot(told: Told) -> (r: Snapshot)
    ensures
        demo_gpu(r.gpu),
        demo_cpu(r.cpu),
        demo_memory(r.memory, told.memory_load),
        demo_fps(r.fps, text_of(told.summary), text_of(told.api)),
        r.hardware_status is Available,
        !r.warming_up,
{
    Snapshot {
        gpu: gpu(),
        cpu: cpu(),
        memory: MemoryStats {
            health: available(),
            has_any_value: true,
            load_percent: told.memory_load,
            used_bytes: Some(13 * GIB + GIB * 7 / 10),
            total_bytes: Some(32 * GIB),
            speed_mhz: Some(6_000),
            process_bytes: Some(4 * GIB + GIB * 3 / 10),
        },
        fps: fps(told.summary, told.api),
        hardware_status: SensorStatus::Available,
        warming_up: false,
    }
}

/// The classes of some cores.
pub open spec fn classes_of(cores: Seq<CoreStats>) -> Seq<u8> {
    cores.map_values(|core: CoreStats| core.efficiency_class)
}

pub fn core_classes(cores: &Vec<CoreStats>) -> (r: Vec<u8>)
    ensures
        r@ == classes_of(cores@),
{
    let mut classes: Vec<u8> = Vec::new();
    let mut i: usize = 0;
    while i < cores.len()
        invariant
            i <= cores.len(),
            classes@ == classes_of(cores@).take(i as int),
        decreases cores.len() - i,
    {
        classes.push(cores[i].efficiency_class);
        i += 1;
    }
    proof {
        assert(classes@ =~= classes_of(cores@));
    }
    classes
}

fn same_classes(a: &Vec<u8>, b: &Vec<u8>) -> (r: bool)
    ensures
        r == (a@ == b@),
{
    if a.len() != b.len() {
        return false;
    }
    let mut i: usize = 0;
    while i < a.len()
        invariant
            i <= a.len(),
            a.len() == b.len(),
            forall|j: int| 0 <= j < i ==> a@[j] == b@[j],
        decreases a.len() - i,
    {
        if a[i] != b[i] {
            return false;
        }
        i += 1;
    }
    proof {
        assert(a@ =~= b@);
    }
    true
}

/// The devices are the real ones where the system tells of them: the names and the number of the
/// cores in the preview are those that the overlay will have. `hybrid` are the clocks that the
/// engine finds among the new cores.
pub fn use_live_devices(demo: &mut Snapshot, live: &Snapshot, hybrid: Option<HybridClocks>)
    ensures
        text_of(final(demo).gpu.name) == (match live.gpu.name {
            Some(name) => Some(name@),
            None => text_of(old(demo).gpu.name),
        }),
        text_of(final(demo).cpu.name) == (match live.cpu.name {
            Some(name) => Some(name@),
            None => text_of(old(demo).cpu.name),
        }),
        ({
            let classes = classes_of(live.cpu.cores@);
            let taken = classes.len() > 0 && classes != classes_of(old(demo).cpu.cores@);
            if taken {
                &&& final(demo).cpu.hybrid_clocks == hybrid
                &&& final(demo).cpu.cores@.len() == classes.len()
                &&& forall|i: int|
                    0 <= i < classes.len() ==> demo_core(
                        #[trigger] final(demo).cpu.cores@[i],
                        i,
                        classes[i],
                        top_class(classes),
                    )
            } else {
                &&& final(demo).cpu.hybrid_clocks == old(demo).cpu.hybrid_clocks
                &&& final(demo).cpu.cores == old(demo).cpu.cores
            }
        }),
        *final(demo) == (Snapshot {
            gpu: GpuStats { name: final(demo).gpu.name, ..old(demo).gpu },
            cpu: CpuStats {
                name: final(demo).cpu.name,
                hybrid_clocks: final(demo).cpu.hybrid_clocks,
                cores: final(demo).cpu.cores,
                ..old(demo).cpu
            },
            ..*old(demo)
        }),
{
    if let Some(name) = &live.gpu.name {
        demo.gpu.name = Some(name.clone());
    }
    if let Some(name) = &live.cpu.name {
        demo.cpu.name = Some(name.clone());
    }
    let classes = core_classes(&live.cpu.cores);
    let known = core_classes(&demo.cpu.cores);
    if classes.len() > 0 && !same_classes(&classes, &known) {
        demo.cpu.cores = demo_cores(&classes);
        demo.cpu.hybrid_clocks = hybrid;
    }
}

/// The overlay by the drafts. Its buttons do nothing, and nothing that it saw before counts.
pub fn show(snapshot: &Snapshot, settings: &Settings) -> (r: Picture)
    ensures
        ({
            let clock = if settings@.overlay.show_clock {
                Some(DEMO_CLOCK)
            } else {
                None
            };
            match r {
                Picture::Strip(items) => {
                    &&& settings@.overlay.mode is Strip
                    &&& strip_views(items@) == strip_of(*snapshot, settings@, seq![], clock)
                },
                Picture::Panel(items) => {
                    &&& !(settings@.overlay.mode is Strip)
                    &&& hud_views(items@) == hud_of(
                        Set::<Metric>::empty(),
                        *snapshot,
                        settings@,
                        seq![],
                        Some(DEMO_RESOLUTION),
                        clock,
                    ).items
                },
            }
        }),
{
    let mut seen = SeenRows::new();
    let extras = Extras {
        notes: Vec::new(),
        resolution: Some(DEMO_RESOLUTION),
        clock: if settings.overlay.show_clock {
            Some(DEMO_CLOCK)
        } else {
            None
        },
    };
    proof {
        assert(crate::text::views(extras.notes@) =~= seq![]);
    }
    crate::hud::show(snapshot, settings, &mut seen, &extras)
}

/// The highest class is that of a core, and no core has a higher one.
pub proof fn law_top_class_is_the_highest(classes: Seq<u8>)
    ensures
        forall|i: int| 0 <= i < classes.len() ==> #[trigger] classes[i] <= top_class(classes),
        classes.len() > 0 ==> classes.contains(top_class(classes)),
        classes.len() == 0 ==> top_class(classes) == 0,
    decreases classes.len(),
{
    if classes.len() > 0 {
        let front = classes.drop_last();
        law_top_class_is_the_highest(front);
        assert forall|i: int| 0 <= i < classes.len() implies #[trigger] classes[i] <= top_class(
            classes,
        ) by {
            if i < front.len() {
                assert(front[i] == classes[i]);
            }
        }
        assert(classes[classes.len() - 1] == classes.last());
        if front.len() > 0 {
            let i = choose|i: int| 0 <= i < front.len() && front[i] == top_class(front);
            assert(classes[i] == top_class(front));
        }
    }
}

} // verus!
