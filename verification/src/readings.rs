//! What stands in the overlay: each label with its own reading, and nothing else's.

use vstd::prelude::*;

use crate::blocks::level_of;
use crate::blocks::BlockKind;
use crate::hud::cpu_block;
use crate::hud::fps_block;
use crate::hud::gpu_block;
use crate::hud::hud_of;
use crate::hud::memory_block;
use crate::hud::separated;
use crate::hud::with_block;
use crate::hud::with_blocks;
use crate::hud::with_health;
use crate::hud::with_load;
use crate::hud::with_notes;
use crate::hud::with_row;
use crate::hud::FigureView;
use crate::hud::Hud;
use crate::hud::HudView;
use crate::hud::Look;
use crate::settings::Metric;
use crate::settings::SettingsView;
use crate::snapshot::SectionHealth;
use crate::snapshot::Snapshot;
use crate::theme::level_color;
use crate::theme::palette_of;
use crate::theme::Palette;
use crate::units::Frequency;

verus! {

/// An overlay with nothing in it yet.
pub open spec fn bare(seen: Set<Metric>) -> Hud {
    Hud { items: Seq::<HudView>::empty(), seen }
}

/// A row with a label.
pub open spec fn labelled(item: HudView, label: Seq<char>) -> bool {
    match item {
        HudView::Row { label: own, .. } => own == label,
        _ => false,
    }
}

/// No row has the label.
pub open spec fn unlabelled(items: Seq<HudView>, label: Seq<char>) -> bool {
    forall|i: int| 0 <= i < items.len() ==> !labelled(#[trigger] items[i], label)
}

/// A row with a value, in the colours of a block but for its own.
pub open spec fn row(
    label: Seq<char>,
    value: FigureView,
    palette: Palette,
    color: u32,
) -> HudView {
    HudView::Row { label, value, label_color: palette.labels, color }
}

/// The row stands there, and no other has its label.
pub open spec fn reads(items: Seq<HudView>, label: Seq<char>, item: HudView) -> bool {
    &&& exists|i: int| 0 <= i < items.len() && #[trigger] items[i] == item
    &&& forall|i: int|
        0 <= i < items.len() && labelled(#[trigger] items[i], label) ==> items[i] == item
}

broadcast proof fn lemma_row_of_another(
    hud: Hud,
    look: Look,
    metric: Metric,
    own: Seq<char>,
    value: Option<FigureView>,
    color: u32,
    always: bool,
    label: Seq<char>,
    item: HudView,
)
    requires
        own != label,
        reads(hud.items, label, item),
    ensures
        #[trigger] reads(
            with_row(hud, look, metric, own, value, color, always).items,
            label,
            item,
        ),
{
    let after = with_row(hud, look, metric, own, value, color, always).items;
    let i = choose|i: int| 0 <= i < hud.items.len() && #[trigger] hud.items[i] == item;
    assert(after[i] == item);
}

broadcast proof fn lemma_row_of_its_own(
    hud: Hud,
    look: Look,
    metric: Metric,
    label: Seq<char>,
    value: Option<FigureView>,
    color: u32,
    always: bool,
    item: HudView,
)
    requires
        look.metrics.shows(metric),
        value is Some,
        unlabelled(hud.items, label),
        item == row(label, value->0, look.palette, color),
    ensures
        #[trigger] reads(
            with_row(hud, look, metric, label, value, color, always).items,
            label,
            item,
        ),
{
    let after = with_row(hud, look, metric, label, value, color, always).items;
    assert(after[hud.items.len() as int] == item);
}

broadcast proof fn lemma_same_row_again(
    hud: Hud,
    look: Look,
    metric: Metric,
    label: Seq<char>,
    value: Option<FigureView>,
    color: u32,
    always: bool,
    item: HudView,
)
    requires
        value is Some,
        reads(hud.items, label, item),
        item == row(label, value->0, look.palette, color),
    ensures
        #[trigger] reads(
            with_row(hud, look, metric, label, value, color, always).items,
            label,
            item,
        ),
{
    let after = with_row(hud, look, metric, label, value, color, always).items;
    let i = choose|i: int| 0 <= i < hud.items.len() && #[trigger] hud.items[i] == item;
    assert(after[i] == item);
}

broadcast proof fn lemma_no_row(
    hud: Hud,
    look: Look,
    metric: Metric,
    own: Seq<char>,
    value: Option<FigureView>,
    color: u32,
    always: bool,
    label: Seq<char>,
)
    requires
        own != label || !look.metrics.shows(metric),
        unlabelled(hud.items, label),
    ensures
        #[trigger] unlabelled(
            with_row(hud, look, metric, own, value, color, always).items,
            label,
        ),
{
}

broadcast proof fn lemma_other_item(items: Seq<HudView>, other: HudView, label: Seq<char>, item: HudView)
    requires
        !labelled(other, label),
        reads(items, label, item),
    ensures
        #[trigger] reads(items.push(other), label, item),
{
    let i = choose|i: int| 0 <= i < items.len() && #[trigger] items[i] == item;
    assert(items.push(other)[i] == item);
}

broadcast proof fn lemma_no_other_item(items: Seq<HudView>, other: HudView, label: Seq<char>)
    requires
        !labelled(other, label),
        unlabelled(items, label),
    ensures
        #[trigger] unlabelled(items.push(other), label),
{
}

broadcast proof fn lemma_health(hud: Hud, health: SectionHealth, label: Seq<char>, item: HudView)
    requires
        reads(hud.items, label, item),
    ensures
        #[trigger] reads(with_health(hud, health).items, label, item),
{
    let i = choose|i: int| 0 <= i < hud.items.len() && #[trigger] hud.items[i] == item;
    assert(with_health(hud, health).items[i] == item);
}

broadcast proof fn lemma_health_has_no_row(hud: Hud, health: SectionHealth, label: Seq<char>)
    requires
        unlabelled(hud.items, label),
    ensures
        #[trigger] unlabelled(with_health(hud, health).items, label),
{
}

broadcast group group_rows {
    lemma_row_of_another,
    lemma_row_of_its_own,
    lemma_same_row_again,
    lemma_no_row,
    lemma_other_item,
    lemma_no_other_item,
    lemma_health,
    lemma_health_has_no_row,
}

/// A clock with its unit: by itself the unit changes at a thousand megahertz.
pub open spec fn clock_figure(megahertz: crate::number::Double, unit: Frequency) -> FigureView {
    match unit {
        Frequency::Mhz => FigureView::Megahertz(megahertz),
        Frequency::Ghz => FigureView::Gigahertz(megahertz),
        Frequency::Auto => if megahertz.not_below(
            crate::number::Double { bits: 0x408f_4000_0000_0000 },
        ) {
            FigureView::Gigahertz(megahertz)
        } else {
            FigureView::Megahertz(megahertz)
        },
    }
}

/// The rows of the graphics card show what was read of the card, each its own reading, and a row
/// that is switched off is not there.
pub proof fn law_gpu_rows_show_the_card(
    seen: Set<Metric>,
    snapshot: Snapshot,
    settings: SettingsView,
)
    ensures
        ({
            let items = gpu_block(bare(seen), snapshot, settings).items;
            let gpu = snapshot.gpu;
            let block = settings.blocks.gpu;
            let shows = settings.metrics;
            let palette = palette_of(block.colors);
            &&& shows.shows(Metric::GpuTemperature) && gpu.temperature_c is Some ==> reads(
                items,
                "Temp"@,
                row("Temp"@, FigureView::Temperature(gpu.temperature_c->0, settings.units.temperature), palette, level_color(
                        level_of(
                            gpu.temperature_c,
                            block.thresholds.warn_c.wide(),
                            block.thresholds.critical_c.wide(),
                        ),
                        palette.values,
                    )),
            )
            &&& !shows.shows(Metric::GpuTemperature) ==> unlabelled(items, "Temp"@)
            &&& shows.shows(Metric::GpuClock) && gpu.core_clock_mhz is Some ==> reads(
                items,
                "Clock"@,
                row("Clock"@, clock_figure(gpu.core_clock_mhz->0, settings.units.frequency), palette, palette.values),
            )
            &&& !shows.shows(Metric::GpuClock) ==> unlabelled(items, "Clock"@)
            &&& shows.shows(Metric::GpuMemoryClock) && gpu.memory_clock_mhz is Some ==> reads(
                items,
                "Mem Clock"@,
                row("Mem Clock"@, clock_figure(gpu.memory_clock_mhz->0, settings.units.frequency), palette, palette.values),
            )
            &&& !shows.shows(Metric::GpuMemoryClock) ==> unlabelled(items, "Mem Clock"@)
            &&& shows.shows(Metric::GpuVram) && (gpu.vram_used_bytes is Some || gpu.vram_total_bytes is Some) ==> reads(
                items,
                "VRAM"@,
                row("VRAM"@, FigureView::Text(crate::format::pair_text(gpu.vram_used_bytes, gpu.vram_total_bytes, settings.units.memory)->0), palette, palette.values),
            )
            &&& !shows.shows(Metric::GpuVram) ==> unlabelled(items, "VRAM"@)
            &&& shows.shows(Metric::GpuPower) && gpu.power_watts is Some ==> reads(
                items,
                "Power"@,
                row("Power"@, FigureView::Power(gpu.power_watts->0), palette, palette.values),
            )
            &&& !shows.shows(Metric::GpuPower) ==> unlabelled(items, "Power"@)
            &&& shows.shows(Metric::GpuFan) && gpu.fan_rpm is Some ==> reads(
                items,
                "Fan"@,
                row("Fan"@, FigureView::Rpm(gpu.fan_rpm->0), palette, palette.values),
            )
            &&& !shows.shows(Metric::GpuFan) ==> unlabelled(items, "Fan"@)
            &&& shows.shows(Metric::GpuFanPercent) && gpu.fan_percent is Some ==> reads(
                items,
                "Fan %"@,
                row("Fan %"@, FigureView::Percent(gpu.fan_percent->0), palette, palette.values),
            )
            &&& !shows.shows(Metric::GpuFanPercent) ==> unlabelled(items, "Fan %"@)
        }),
{
    broadcast use group_rows;

    reveal_strlit("Temp");
    reveal_strlit("Clock");
    reveal_strlit("Mem Clock");
    reveal_strlit("VRAM");
    reveal_strlit("Power");
    reveal_strlit("Fan");
    reveal_strlit("Fan %");
    assert("Temp"@.len() == 4);
    assert("Clock"@.len() == 5);
    assert("Mem Clock"@.len() == 9);
    assert("VRAM"@.len() == 4);
    assert("Power"@.len() == 5);
    assert("Fan"@.len() == 3);
    assert("Fan %"@.len() == 5);
    assert("Temp"@[0] == 'T');
    assert("Temp"@[1] == 'e');
    assert("VRAM"@[0] == 'V');
    assert("VRAM"@[1] == 'R');
    assert("Clock"@[0] == 'C');
    assert("Clock"@[1] == 'l');
    assert("Power"@[0] == 'P');
    assert("Power"@[1] == 'o');
    assert("Fan %"@[0] == 'F');
    assert("Fan %"@[1] == 'a');
}

/// The rows of the processor show what was read of the processor, each its own reading, and a row
/// that is switched off is not there. The two kinds of cores have rows where it has both.
pub proof fn law_cpu_rows_show_the_processor(
    seen: Set<Metric>,
    snapshot: Snapshot,
    settings: SettingsView,
)
    ensures
        ({
            let items = cpu_block(bare(seen), snapshot, settings).items;
            let cpu = snapshot.cpu;
            let block = settings.blocks.cpu;
            let shows = settings.metrics;
            let palette = palette_of(block.colors);
            &&& shows.shows(Metric::CpuTemperature) && cpu.temperature_c is Some ==> reads(
                items,
                "Temp"@,
                row("Temp"@, FigureView::Temperature(cpu.temperature_c->0, settings.units.temperature), palette, level_color(
                        level_of(
                            cpu.temperature_c,
                            block.thresholds.warn_c.wide(),
                            block.thresholds.critical_c.wide(),
                        ),
                        palette.values,
                    )),
            )
            &&& !shows.shows(Metric::CpuTemperature) ==> unlabelled(items, "Temp"@)
            &&& shows.shows(Metric::CpuClock) && cpu.clock_mhz is Some ==> reads(
                items,
                "Clock"@,
                row("Clock"@, clock_figure(cpu.clock_mhz->0, settings.units.frequency), palette, palette.values),
            )
            &&& !shows.shows(Metric::CpuClock) ==> unlabelled(items, "Clock"@)
            &&& shows.shows(Metric::CpuHybridClock) && cpu.hybrid_clocks is Some && cpu.hybrid_clocks->0.performance_mhz is Some ==> reads(
                items,
                "P-Clock"@,
                row("P-Clock"@, clock_figure(cpu.hybrid_clocks->0.performance_mhz->0, settings.units.frequency), palette, palette.values),
            )
            &&& !shows.shows(Metric::CpuHybridClock) ==> unlabelled(items, "P-Clock"@)
            &&& shows.shows(Metric::CpuHybridClock) && cpu.hybrid_clocks is Some && cpu.hybrid_clocks->0.efficient_mhz is Some ==> reads(
                items,
                "E-Clock"@,
                row("E-Clock"@, clock_figure(cpu.hybrid_clocks->0.efficient_mhz->0, settings.units.frequency), palette, palette.values),
            )
            &&& !shows.shows(Metric::CpuHybridClock) ==> unlabelled(items, "E-Clock"@)
            &&& shows.shows(Metric::CpuPower) && cpu.power_watts is Some ==> reads(
                items,
                "Power"@,
                row("Power"@, FigureView::Power(cpu.power_watts->0), palette, palette.values),
            )
            &&& !shows.shows(Metric::CpuPower) ==> unlabelled(items, "Power"@)
            &&& cpu.hybrid_clocks is None ==> unlabelled(items, "P-Clock"@) && unlabelled(items, "E-Clock"@)
        }),
{
    broadcast use group_rows;

    reveal_strlit("Temp");
    reveal_strlit("Clock");
    reveal_strlit("P-Clock");
    reveal_strlit("E-Clock");
    reveal_strlit("Power");
    assert("Temp"@.len() == 4);
    assert("Clock"@.len() == 5);
    assert("P-Clock"@.len() == 7);
    assert("E-Clock"@.len() == 7);
    assert("Power"@.len() == 5);
    assert("Clock"@[0] == 'C');
    assert("Clock"@[1] == 'l');
    assert("Power"@[0] == 'P');
    assert("Power"@[1] == 'o');
    assert("P-Clock"@[0] == 'P');
    assert("P-Clock"@[1] == '-');
    assert("E-Clock"@[0] == 'E');
    assert("E-Clock"@[1] == '-');
}

/// The rows of the memory show what was read of the memory, each its own reading, and a row that is
/// switched off is not there.
pub proof fn law_memory_rows_show_the_memory(
    seen: Set<Metric>,
    snapshot: Snapshot,
    settings: SettingsView,
)
    ensures
        ({
            let items = memory_block(bare(seen), snapshot, settings).items;
            let memory = snapshot.memory;
            let block = settings.blocks.ram;
            let shows = settings.metrics;
            let palette = palette_of(block.colors);
            &&& shows.shows(Metric::RamUsed) && (memory.used_bytes is Some || memory.total_bytes is Some) ==> reads(
                items,
                "Used"@,
                row("Used"@, FigureView::Text(crate::format::pair_text(memory.used_bytes, memory.total_bytes, settings.units.memory)->0), palette, palette.values),
            )
            &&& !shows.shows(Metric::RamUsed) ==> unlabelled(items, "Used"@)
            &&& shows.shows(Metric::RamProcess) && memory.process_bytes is Some ==> reads(
                items,
                "App"@,
                row("App"@, FigureView::Text(crate::format::amount_text(memory.process_bytes->0, settings.units.memory)), palette, palette.values),
            )
            &&& !shows.shows(Metric::RamProcess) ==> unlabelled(items, "App"@)
            &&& shows.shows(Metric::RamSpeed) && memory.speed_mhz is Some ==> reads(
                items,
                "Speed"@,
                row("Speed"@, FigureView::Text(crate::text::decimal(memory.speed_mhz->0 as nat) + " MHz"@), palette, palette.values),
            )
            &&& !shows.shows(Metric::RamSpeed) ==> unlabelled(items, "Speed"@)
        }),
{
    broadcast use group_rows;

    reveal_strlit("Used");
    reveal_strlit("App");
    reveal_strlit("Speed");
    assert("Used"@.len() == 4);
    assert("App"@.len() == 3);
    assert("Speed"@.len() == 5);
}

/// The rows of the frames show the statistics of the frames, each its own number, while frames are
/// delivered; a row that is switched off is not there.
pub proof fn law_frame_rows_show_the_frames(
    seen: Set<Metric>,
    snapshot: Snapshot,
    settings: SettingsView,
    resolution: Option<(u32, u32)>,
)
    ensures
        ({
            let items = fps_block(bare(seen), snapshot, settings, resolution).items;
            let fps = snapshot.fps;
            let block = settings.blocks.fps;
            let shows = settings.metrics;
            let palette = palette_of(block.colors);
            let stats = fps.statistics;
            let delivering = fps.availability is Available;
            &&& shows.shows(Metric::FpsAverage) && delivering && stats.average_fps is Some && stats.average_fps->0.finite() ==> reads(
                items,
                "AVG"@,
                row("AVG"@, FigureView::Fps(stats.average_fps->0), palette, palette.values),
            )
            &&& !shows.shows(Metric::FpsAverage) ==> unlabelled(items, "AVG"@)
            &&& shows.shows(Metric::FpsLow1) && delivering && stats.low_1_percent_fps is Some && stats.low_1_percent_fps->0.finite() ==> reads(
                items,
                "1% LOW"@,
                row("1% LOW"@, FigureView::Fps(stats.low_1_percent_fps->0), palette, palette.values),
            )
            &&& !shows.shows(Metric::FpsLow1) ==> unlabelled(items, "1% LOW"@)
            &&& shows.shows(Metric::FpsLow01) && delivering && stats.low_0_1_percent_fps is Some && stats.low_0_1_percent_fps->0.finite() ==> reads(
                items,
                "0.1% LOW"@,
                row("0.1% LOW"@, FigureView::Fps(stats.low_0_1_percent_fps->0), palette, palette.values),
            )
            &&& !shows.shows(Metric::FpsLow01) ==> unlabelled(items, "0.1% LOW"@)
            &&& shows.shows(Metric::FpsLatency) && delivering && fps.latency_ms is Some && fps.latency_ms->0.finite() ==> reads(
                items,
                "LAT"@,
                row("LAT"@, FigureView::Latency(fps.latency_ms->0), palette, palette.values),
            )
            &&& !shows.shows(Metric::FpsLatency) ==> unlabelled(items, "LAT"@)
            &&& shows.shows(Metric::FpsApi) && delivering && fps.api is Some && fps.target is None ==> reads(
                items,
                "API"@,
                row("API"@, FigureView::Text(fps.api->0@), palette, palette.values),
            )
            &&& !shows.shows(Metric::FpsApi) ==> unlabelled(items, "API"@)
        }),
{
    broadcast use group_rows;

    reveal_strlit("AVG");
    reveal_strlit("1% LOW");
    reveal_strlit("0.1% LOW");
    reveal_strlit("LAT");
    reveal_strlit("API");
    assert("AVG"@.len() == 3);
    assert("1% LOW"@.len() == 6);
    assert("0.1% LOW"@.len() == 8);
    assert("LAT"@.len() == 3);
    assert("API"@.len() == 3);
    assert("AVG"@[0] == 'A');
    assert("AVG"@[1] == 'V');
    assert("LAT"@[0] == 'L');
    assert("LAT"@[1] == 'A');
    assert("API"@[0] == 'A');
    assert("API"@[1] == 'P');
}

/// The overlay begins with an item.
pub open spec fn leads(items: Seq<HudView>, item: HudView) -> bool {
    items.len() > 0 && items[0] == item
}

broadcast proof fn lemma_leads_row(
    hud: Hud,
    look: Look,
    metric: Metric,
    label: Seq<char>,
    value: Option<FigureView>,
    color: u32,
    always: bool,
    item: HudView,
)
    requires
        leads(hud.items, item),
    ensures
        #[trigger] leads(with_row(hud, look, metric, label, value, color, always).items, item),
{
}

broadcast proof fn lemma_leads_push(items: Seq<HudView>, other: HudView, item: HudView)
    requires
        leads(items, item),
    ensures
        #[trigger] leads(items.push(other), item),
{
}

broadcast proof fn lemma_leads_health(hud: Hud, health: SectionHealth, item: HudView)
    requires
        leads(hud.items, item),
    ensures
        #[trigger] leads(with_health(hud, health).items, item),
{
}

broadcast group group_leads {
    lemma_leads_row,
    lemma_leads_push,
    lemma_leads_health,
}

/// A number in its place: the number, dots before the first measurement, a dash after it.
pub open spec fn in_place(value: Option<FigureView>, warming_up: bool) -> FigureView {
    if value is Some {
        value->0
    } else if warming_up {
        FigureView::Text("…"@)
    } else {
        FigureView::Text("—"@)
    }
}

/// A share in percent.
pub open spec fn in_percent(value: Option<crate::number::Double>) -> Option<FigureView> {
    match value {
        Some(v) => Some(FigureView::Percent(v)),
        None => None,
    }
}

/// The colour of a load, where loads are coloured: yellow from 80 percent, red from 95.
pub open spec fn load_colour(
    coloured: bool,
    load: Option<crate::number::Double>,
    header: u32,
) -> u32 {
    if !coloured || load is None {
        header
    } else if load->0.not_below(crate::number::Double { bits: 0x4057_c000_0000_0000 }) {
        0xe85c5c
    } else if load->0.not_below(crate::number::Double { bits: 0x4054_0000_0000_0000 }) {
        0xf2a33c
    } else {
        header
    }
}

/// The block of the graphics card begins with its heading and its load: a title of one's own, the
/// name of the card where it is wanted and known, or the usual one.
pub proof fn law_gpu_heading(seen: Set<Metric>, snapshot: Snapshot, settings: SettingsView)
    ensures
        ({
            let block = settings.blocks.gpu;
            let name = snapshot.gpu.name;
            let load = snapshot.gpu.load_percent;
            let header = palette_of(block.colors).header;
            let short = crate::format::short_name(name->0@);
            leads(
                gpu_block(bare(seen), snapshot, settings).items,
                HudView::Title {
                    title: if block.title.len() > 0 {
                        block.title
                    } else if block.device_name && name is Some && short.len() > 0 {
                        short
                    } else {
                        "GPU"@
                    },
                    value: in_place(in_percent(load), snapshot.warming_up),
                    title_color: header,
                    value_color: load_colour(block.thresholds.color_load, load, header),
                },
            )
        }),
{
    broadcast use group_leads;

    let block = settings.blocks.gpu;
    let look = crate::hud::look_of(settings, snapshot.warming_up, block);
    let heading = crate::hud::heading_of(block, "GPU"@, snapshot.gpu.name);
    let first = with_load(bare(seen), block, look, heading, snapshot.gpu.load_percent).items;
    assert(leads(first, first[0]));
}

/// The block of the processor begins with its heading and its load in the same way.
pub proof fn law_cpu_heading(seen: Set<Metric>, snapshot: Snapshot, settings: SettingsView)
    ensures
        ({
            let block = settings.blocks.cpu;
            let name = snapshot.cpu.name;
            let load = snapshot.cpu.load_percent;
            let header = palette_of(block.colors).header;
            let short = crate::format::short_name(name->0@);
            leads(
                cpu_block(bare(seen), snapshot, settings).items,
                HudView::Title {
                    title: if block.title.len() > 0 {
                        block.title
                    } else if block.device_name && name is Some && short.len() > 0 {
                        short
                    } else {
                        "CPU"@
                    },
                    value: in_place(in_percent(load), snapshot.warming_up),
                    title_color: header,
                    value_color: load_colour(block.thresholds.color_load, load, header),
                },
            )
        }),
{
    broadcast use group_leads;

    let block = settings.blocks.cpu;
    let look = crate::hud::look_of(settings, snapshot.warming_up, block);
    let heading = crate::hud::heading_of(block, "CPU"@, snapshot.cpu.name);
    let first = with_load(bare(seen), block, look, heading, snapshot.cpu.load_percent).items;
    assert(leads(first, first[0]));
}

/// The block of the memory begins with its heading and how much of it is taken.
pub proof fn law_memory_heading(seen: Set<Metric>, snapshot: Snapshot, settings: SettingsView)
    ensures
        ({
            let block = settings.blocks.ram;
            let header = palette_of(block.colors).header;
            leads(
                memory_block(bare(seen), snapshot, settings).items,
                HudView::Title {
                    title: if block.title.len() > 0 {
                        block.title
                    } else {
                        "RAM"@
                    },
                    value: in_place(
                        in_percent(snapshot.memory.load_percent),
                        snapshot.warming_up,
                    ),
                    title_color: header,
                    value_color: header,
                },
            )
        }),
{
    broadcast use group_leads;

    let block = settings.blocks.ram;
    let header = palette_of(block.colors).header;
    let title = HudView::Title {
        title: if block.title.len() > 0 {
            block.title
        } else {
            "RAM"@
        },
        value: in_place(in_percent(snapshot.memory.load_percent), snapshot.warming_up),
        title_color: header,
        value_color: header,
    };
    assert(leads(Seq::<HudView>::empty().push(title), title));
}

/// The block of the frames begins with its heading and, while frames are delivered, the frame rate
/// of the moment in large digits.
pub proof fn law_frames_heading(
    seen: Set<Metric>,
    snapshot: Snapshot,
    settings: SettingsView,
    resolution: Option<(u32, u32)>,
)
    ensures
        ({
            let block = settings.blocks.fps;
            let rate = snapshot.fps.statistics.current_fps;
            leads(
                fps_block(bare(seen), snapshot, settings, resolution).items,
                HudView::BigTitle {
                    title: if block.title.len() > 0 {
                        block.title
                    } else {
                        "FPS"@
                    },
                    value: if snapshot.fps.availability is Available && rate is Some
                        && rate->0.finite() {
                        FigureView::Fps(rate->0)
                    } else {
                        in_place(None, snapshot.warming_up)
                    },
                    title_color: palette_of(block.colors).header,
                    value_color: palette_of(block.colors).accent,
                },
            )
        }),
{
    broadcast use group_leads;

    let block = settings.blocks.fps;
    let rate = snapshot.fps.statistics.current_fps;
    let title = HudView::BigTitle {
        title: if block.title.len() > 0 {
            block.title
        } else {
            "FPS"@
        },
        value: if snapshot.fps.availability is Available && rate is Some && rate->0.finite() {
            FigureView::Fps(rate->0)
        } else {
            in_place(None, snapshot.warming_up)
        },
        title_color: palette_of(block.colors).header,
        value_color: palette_of(block.colors).accent,
    };
    assert(leads(Seq::<HudView>::empty().push(title), title));
}

/// A level colours a value by its thresholds: red from the critical one, yellow from the warning
/// on, and its usual colour below and where there is no value.
pub proof fn law_thresholds_colour_values(
    value: Option<crate::number::Double>,
    warn: crate::number::Double,
    critical: crate::number::Double,
    normal: u32,
)
    ensures
        level_color(level_of(value, warn, critical), normal) == (if value is None {
            normal
        } else if value->0.not_below(critical) {
            0xe85c5c
        } else if value->0.not_below(warn) {
            0xf2a33c
        } else {
            normal
        }),
{
}

/// A block is drawn in the colours that the user chose for it, and in those of the theme where
/// none was chosen.
pub proof fn law_blocks_have_the_chosen_colours(colors: crate::blocks::BlockColors)
    ensures
        ({
            let palette = palette_of(colors);
            let number = |c: crate::blocks::Rgb| 0x1_0000 * c.0[0] + 0x100 * c.0[1] + c.0[2];
            &&& colors.header is Some ==> palette.header == number(colors.header->0)
            &&& colors.labels is Some ==> palette.labels == number(colors.labels->0)
            &&& colors.values is Some ==> palette.values == number(colors.values->0)
            &&& colors.accent is Some ==> palette.accent == number(colors.accent->0)
            &&& colors.header is None ==> palette.header == 0xf1f1f1
            &&& colors.labels is None ==> palette.labels == 0xa9a9ad
            &&& colors.values is None ==> palette.values == 0xf1f1f1
            &&& colors.accent is None ==> palette.accent == 0x3fd0d8
        }),
{
}

// --- what is said beside the numbers ---

/// Some words stand at the end.
pub open spec fn ends_with_words(items: Seq<HudView>, words: Seq<char>) -> bool {
    items.len() > 0 && items.last() == HudView::Caption(words)
}

/// A part of the machine that cannot be read in full says why at the end of its block, and one
/// that can says nothing.
pub proof fn law_blocks_say_what_is_wrong(
    seen: Set<Metric>,
    snapshot: Snapshot,
    settings: SettingsView,
)
    ensures
        ({
            let health = snapshot.gpu.health;
            let items = gpu_block(bare(seen), snapshot, settings).items;
            &&& !(health.status is Available) && health.reason is Some ==> ends_with_words(
                items,
                health.reason->0@,
            )
            &&& health.status is Available || health.reason is None ==> !(items.last() is Caption)
        }),
        ({
            let health = snapshot.cpu.health;
            let items = cpu_block(bare(seen), snapshot, settings).items;
            &&& !(health.status is Available) && health.reason is Some ==> ends_with_words(
                items,
                health.reason->0@,
            )
            &&& health.status is Available || health.reason is None ==> !(items.last() is Caption)
        }),
        ({
            let health = snapshot.memory.health;
            let items = memory_block(bare(seen), snapshot, settings).items;
            &&& !(health.status is Available) && health.reason is Some ==> ends_with_words(
                items,
                health.reason->0@,
            )
            &&& health.status is Available || health.reason is None ==> !(items.last() is Caption)
        }),
{
}

/// Under the frames stands whose they are, or only why there are none where the name is switched
/// off; then the graph with the time of the last frame, where the graph is on.
pub proof fn law_frames_have_a_caption_and_a_graph(
    seen: Set<Metric>,
    snapshot: Snapshot,
    settings: SettingsView,
    resolution: Option<(u32, u32)>,
)
    ensures
        ({
            let items = fps_block(bare(seen), snapshot, settings, resolution).items;
            let fps = snapshot.fps;
            let time = fps.statistics.current_frametime_ms;
            let words = if settings.metrics.shows(Metric::FpsTarget) {
                fps.summary
            } else {
                fps.message
            };
            let palette = palette_of(settings.blocks.fps.colors);
            let above = if settings.overlay.show_graph {
                items.take(items.len() - 2)
            } else {
                items
            };
            &&& words is Some ==> ends_with_words(above, words->0@)
            &&& words is None ==> !(above.last() is Caption)
            &&& settings.overlay.show_graph ==> {
                &&& items.len() >= 2
                &&& items[items.len() - 2] == HudView::Graph { color: palette.accent }
                &&& items.last() is Frametime
                &&& items.last()->Frametime_color == palette.labels
                &&& fps.availability is Available && time is Some && time->0.finite()
                    ==> items.last()->Frametime_value == FigureView::Frametime(time->0)
                &&& !(fps.availability is Available) || time is None || !time->0.finite()
                    ==> items.last()->Frametime_value == FigureView::Text("—"@)
            }
            &&& !settings.overlay.show_graph ==> !(items.last() is Graph) && !(items.last() is Frametime)
        }),
{
}

/// An item tells a rate or a time of frames.
pub open spec fn tells_frames(item: HudView) -> bool {
    match item {
        HudView::Row { value, .. } => value is Fps || value is Latency || value is Frametime,
        HudView::BigTitle { value, .. } => value is Fps || value is Latency || value is Frametime,
        HudView::Title { value, .. } => value is Fps || value is Latency || value is Frametime,
        HudView::Frametime { value, .. } => value is Fps || value is Latency || value is Frametime,
        _ => false,
    }
}

/// No item tells a rate or a time of frames.
pub open spec fn tell_no_frames(items: Seq<HudView>) -> bool {
    forall|i: int| 0 <= i < items.len() ==> !tells_frames(#[trigger] items[i])
}

broadcast proof fn lemma_no_frames_row(
    hud: Hud,
    look: Look,
    metric: Metric,
    label: Seq<char>,
    value: Option<FigureView>,
    color: u32,
    always: bool,
)
    requires
        tell_no_frames(hud.items),
        value is None || value->0 is Text,
    ensures
        #[trigger] tell_no_frames(
            with_row(hud, look, metric, label, value, color, always).items,
        ),
{
}

broadcast proof fn lemma_no_frames_push(items: Seq<HudView>, item: HudView)
    requires
        tell_no_frames(items),
        !tells_frames(item),
    ensures
        #[trigger] tell_no_frames(items.push(item)),
{
}

/// While no frames are delivered, no rate and no time of frames is shown: an old number is worse
/// than a dash.
pub proof fn law_old_rates_are_not_shown(
    seen: Set<Metric>,
    snapshot: Snapshot,
    settings: SettingsView,
    resolution: Option<(u32, u32)>,
)
    requires
        !(snapshot.fps.availability is Available),
    ensures
        tell_no_frames(fps_block(bare(seen), snapshot, settings, resolution).items),
{
    broadcast use {lemma_no_frames_row, lemma_no_frames_push};

}

/// Whether an item is about the single cores.
pub open spec fn about_cores(item: HudView) -> bool {
    item is CoreBars || item is CoreClocks
}

/// The items about the single cores.
pub open spec fn core_items(items: Seq<HudView>) -> Seq<HudView>
    decreases items.len(),
{
    if items.len() == 0 {
        seq![]
    } else if about_cores(items.last()) {
        core_items(items.drop_last()).push(items.last())
    } else {
        core_items(items.drop_last())
    }
}

broadcast proof fn lemma_core_push(items: Seq<HudView>, item: HudView)
    ensures
        #[trigger] core_items(items.push(item)) == (if about_cores(item) {
            core_items(items).push(item)
        } else {
            core_items(items)
        }),
{
    assert(items.push(item).drop_last() =~= items);
}

broadcast proof fn lemma_core_row(
    hud: Hud,
    look: Look,
    metric: Metric,
    label: Seq<char>,
    value: Option<FigureView>,
    color: u32,
    always: bool,
)
    ensures
        #[trigger] core_items(with_row(hud, look, metric, label, value, color, always).items)
            == core_items(hud.items),
{
    broadcast use lemma_core_push;

}

broadcast proof fn lemma_core_health(hud: Hud, health: SectionHealth)
    ensures
        #[trigger] core_items(with_health(hud, health).items) == core_items(hud.items),
{
    broadcast use lemma_core_push;

}

/// The bars of the cores are there where they are on and there are cores; under them the clocks of
/// the cores, where they are on and the clock of some core is known, with their unit in the label.
/// Nothing else is said about single cores.
pub proof fn law_cores_are_shown(seen: Set<Metric>, snapshot: Snapshot, settings: SettingsView)
    ensures
        ({
            let palette = palette_of(settings.blocks.cpu.colors);
            let bars = HudView::CoreBars { color: palette.accent };
            let clocks = HudView::CoreClocks {
                label: if settings.units.frequency is Mhz {
                    "Cores, MHz"@
                } else {
                    "Cores, GHz"@
                },
                label_color: palette.labels,
                color: palette.values,
            };
            let cores = snapshot.cpu.cores@;
            let known = exists|i: int|
                0 <= i < cores.len() && (#[trigger] cores[i]).clock_mhz is Some;
            core_items(cpu_block(bare(seen), snapshot, settings).items) == (
            if settings.metrics.shows(Metric::CpuCoreLoad) && cores.len() > 0 {
                seq![bars]
            } else {
                seq![]
            }) + (if settings.metrics.shows(Metric::CpuCoreClock) && known {
                seq![clocks]
            } else {
                seq![]
            })
        }),
{
    broadcast use {lemma_core_push, lemma_core_row, lemma_core_health};

    let block = settings.blocks.cpu;
    let look = crate::hud::look_of(settings, snapshot.warming_up, block);
    let heading = crate::hud::heading_of(block, "CPU"@, snapshot.cpu.name);
    let first = with_load(bare(seen), block, look, heading, snapshot.cpu.load_percent);
    assert(core_items(first.items) == core_items(Seq::<HudView>::empty()));
}

// --- the whole panel ---

/// An overlay with something above it.
pub open spec fn below(above: Seq<HudView>, hud: Hud) -> Hud {
    Hud { items: above + hud.items, seen: hud.seen }
}

broadcast proof fn lemma_row_below(
    above: Seq<HudView>,
    hud: Hud,
    look: Look,
    metric: Metric,
    label: Seq<char>,
    value: Option<FigureView>,
    color: u32,
    always: bool,
)
    ensures
        #[trigger] with_row(below(above, hud), look, metric, label, value, color, always) == below(
            above,
            with_row(hud, look, metric, label, value, color, always),
        ),
{
    let a = with_row(below(above, hud), look, metric, label, value, color, always);
    let b = below(above, with_row(hud, look, metric, label, value, color, always));
    assert(a.items =~= b.items);
}

broadcast proof fn lemma_health_below(above: Seq<HudView>, hud: Hud, health: SectionHealth)
    ensures
        #[trigger] with_health(below(above, hud), health) == below(
            above,
            with_health(hud, health),
        ),
{
    assert(with_health(below(above, hud), health).items =~= below(
        above,
        with_health(hud, health),
    ).items);
}

broadcast proof fn lemma_item_below(above: Seq<HudView>, items: Seq<HudView>, item: HudView)
    ensures
        #[trigger] (above + items).push(item) == above + items.push(item),
{
    assert((above + items).push(item) =~= above + items.push(item));
}

broadcast group group_below {
    lemma_row_below,
    lemma_health_below,
    lemma_item_below,
}

proof fn lemma_gpu_below(above: Seq<HudView>, hud: Hud, snapshot: Snapshot, settings: SettingsView)
    ensures
        gpu_block(below(above, hud), snapshot, settings) == below(
            above,
            gpu_block(hud, snapshot, settings),
        ),
{
    broadcast use group_below;

    let block = settings.blocks.gpu;
    let look = crate::hud::look_of(settings, snapshot.warming_up, block);
    let heading = crate::hud::heading_of(block, "GPU"@, snapshot.gpu.name);
    let load = snapshot.gpu.load_percent;
    assert(with_load(below(above, hud), block, look, heading, load) == below(
        above,
        with_load(hud, block, look, heading, load),
    ));
}

proof fn lemma_cpu_below(above: Seq<HudView>, hud: Hud, snapshot: Snapshot, settings: SettingsView)
    ensures
        cpu_block(below(above, hud), snapshot, settings) == below(
            above,
            cpu_block(hud, snapshot, settings),
        ),
{
    broadcast use group_below;

    let block = settings.blocks.cpu;
    let look = crate::hud::look_of(settings, snapshot.warming_up, block);
    let heading = crate::hud::heading_of(block, "CPU"@, snapshot.cpu.name);
    let load = snapshot.cpu.load_percent;
    assert(with_load(below(above, hud), block, look, heading, load) == below(
        above,
        with_load(hud, block, look, heading, load),
    ));
    assert forall|h: Hud, item: HudView|
        (Hud { items: below(above, h).items.push(item), ..below(above, h) }) == #[trigger] below(
            above,
            Hud { items: h.items.push(item), ..h },
        ) by {}
}

proof fn lemma_memory_below(
    above: Seq<HudView>,
    hud: Hud,
    snapshot: Snapshot,
    settings: SettingsView,
)
    ensures
        memory_block(below(above, hud), snapshot, settings) == below(
            above,
            memory_block(hud, snapshot, settings),
        ),
{
    broadcast use group_below;

    assert forall|h: Hud, item: HudView|
        (Hud { items: below(above, h).items.push(item), ..below(above, h) }) == #[trigger] below(
            above,
            Hud { items: h.items.push(item), ..h },
        ) by {}
}

proof fn lemma_frames_below(
    above: Seq<HudView>,
    hud: Hud,
    snapshot: Snapshot,
    settings: SettingsView,
    resolution: Option<(u32, u32)>,
)
    ensures
        fps_block(below(above, hud), snapshot, settings, resolution) == below(
            above,
            fps_block(hud, snapshot, settings, resolution),
        ),
{
    let block = settings.blocks.fps;
    let state = snapshot.fps;
    let look = crate::hud::look_of(settings, snapshot.warming_up, block);
    let values = look.palette.values;
    let delivering = state.availability is Available;
    let stats = state.statistics;
    let title = HudView::BigTitle {
        title: block.heading_for("FPS"@, None),
        value: crate::hud::shown(
            crate::hud::rate_of(stats.current_fps, delivering),
            look.warming_up,
        ),
        title_color: look.palette.header,
        value_color: look.palette.accent,
    };
    let api = if delivering {
        crate::paths::text_of(state.api)
    } else {
        None
    };
    let size = if state.target is Some {
        resolution
    } else {
        None
    };
    let h0 = Hud { items: hud.items.push(title), ..hud };
    lemma_item_below(above, hud.items, title);
    let v0 = crate::hud::rate_of(stats.average_fps, delivering);
    lemma_row_below(above, h0, look, Metric::FpsAverage, "AVG"@, v0, values, true);
    let h1 = with_row(h0, look, Metric::FpsAverage, "AVG"@, v0, values, true);
    let v1 = crate::hud::rate_of(stats.low_1_percent_fps, delivering);
    lemma_row_below(above, h1, look, Metric::FpsLow1, "1% LOW"@, v1, values, true);
    let h2 = with_row(h1, look, Metric::FpsLow1, "1% LOW"@, v1, values, true);
    let v2 = crate::hud::rate_of(stats.low_0_1_percent_fps, delivering);
    lemma_row_below(above, h2, look, Metric::FpsLow01, "0.1% LOW"@, v2, values, true);
    let h3 = with_row(h2, look, Metric::FpsLow01, "0.1% LOW"@, v2, values, true);
    let v3 = crate::hud::latency_of(state.latency_ms, delivering);
    lemma_row_below(above, h3, look, Metric::FpsLatency, "LAT"@, v3, values, false);
    let h4 = with_row(h3, look, Metric::FpsLatency, "LAT"@, v3, values, false);
    let v4 = crate::hud::text_figure(crate::format::api_text(api, size));
    lemma_row_below(above, h4, look, Metric::FpsApi, "API"@, v4, values, false);
    let h5 = with_row(h4, look, Metric::FpsApi, "API"@, v4, values, false);
    lemma_frames_end_below(above, h5, snapshot, settings);
    assert(fps_block(hud, snapshot, settings, resolution) == frames_end(h5, snapshot, settings));
    assert(fps_block(below(above, hud), snapshot, settings, resolution) == frames_end(
        below(above, h5),
        snapshot,
        settings,
    ));
}

/// The end of the block of the frames.
spec fn frames_end(hud: Hud, snapshot: Snapshot, settings: SettingsView) -> Hud {
    let state = snapshot.fps;
    let look = crate::hud::look_of(settings, snapshot.warming_up, settings.blocks.fps);
    let delivering = state.availability is Available;
    let hud = match crate::hud::frames_caption(state, settings.metrics) {
        Some(text) => Hud { items: hud.items.push(HudView::Caption(text)), ..hud },
        None => hud,
    };
    if settings.overlay.show_graph {
        Hud {
            items: hud.items.push(HudView::Graph { color: look.palette.accent }).push(
                HudView::Frametime {
                    value: crate::hud::shown(
                        crate::hud::frametime_of(
                            state.statistics.current_frametime_ms,
                            delivering,
                        ),
                        false,
                    ),
                    color: look.palette.labels,
                },
            ),
            ..hud
        }
    } else {
        hud
    }
}

proof fn lemma_frames_end_below(
    above: Seq<HudView>,
    hud: Hud,
    snapshot: Snapshot,
    settings: SettingsView,
)
    ensures
        frames_end(below(above, hud), snapshot, settings) == below(
            above,
            frames_end(hud, snapshot, settings),
        ),
{
    broadcast use lemma_item_below;

}

/// A block looks the same wherever it stands: what is above it stays as it is.
pub proof fn law_blocks_do_not_touch_what_is_above(
    hud: Hud,
    snapshot: Snapshot,
    settings: SettingsView,
    resolution: Option<(u32, u32)>,
    kind: BlockKind,
)
    ensures
        with_block(hud, snapshot, settings, resolution, kind).items == hud.items + with_block(
            bare(hud.seen),
            snapshot,
            settings,
            resolution,
            kind,
        ).items,
        with_block(hud, snapshot, settings, resolution, kind).seen == with_block(
            bare(hud.seen),
            snapshot,
            settings,
            resolution,
            kind,
        ).seen,
{
    assert(below(hud.items, bare(hud.seen)) =~= hud);
    lemma_gpu_below(hud.items, bare(hud.seen), snapshot, settings);
    lemma_cpu_below(hud.items, bare(hud.seen), snapshot, settings);
    lemma_memory_below(hud.items, bare(hud.seen), snapshot, settings);
    lemma_frames_below(hud.items, bare(hud.seen), snapshot, settings, resolution);
}

/// A block stands at a place of a panel, with the rows that were known before it.
pub open spec fn stands_at(
    panel: Seq<HudView>,
    at: int,
    known: Set<Metric>,
    snapshot: Snapshot,
    settings: SettingsView,
    resolution: Option<(u32, u32)>,
    kind: BlockKind,
) -> bool {
    let own = match kind {
        BlockKind::Gpu => gpu_block(bare(known), snapshot, settings).items,
        BlockKind::Cpu => cpu_block(bare(known), snapshot, settings).items,
        BlockKind::Ram => memory_block(bare(known), snapshot, settings).items,
        BlockKind::Fps => fps_block(bare(known), snapshot, settings, resolution).items,
    };
    &&& 0 <= at
    &&& at + own.len() <= panel.len()
    &&& forall|i: int| 0 <= i < own.len() ==> #[trigger] panel[at + i] == own[i]
}

/// The second panel begins with the first.
pub open spec fn begins_with(panel: Seq<HudView>, beginning: Seq<HudView>) -> bool {
    &&& beginning.len() <= panel.len()
    &&& forall|i: int| 0 <= i < beginning.len() ==> #[trigger] panel[i] == beginning[i]
}

/// Whether a block is to be seen: it is switched on, and it has a value, or may be empty.
pub open spec fn wanted(snapshot: Snapshot, settings: SettingsView, kind: BlockKind) -> bool {
    let on = match kind {
        BlockKind::Gpu => settings.blocks.gpu.enabled,
        BlockKind::Cpu => settings.blocks.cpu.enabled,
        BlockKind::Ram => settings.blocks.ram.enabled,
        BlockKind::Fps => settings.blocks.fps.enabled,
    };
    let filled = match kind {
        BlockKind::Gpu => snapshot.gpu.has_any_value,
        BlockKind::Cpu => snapshot.cpu.has_any_value,
        BlockKind::Ram => snapshot.memory.has_any_value,
        BlockKind::Fps => true,
    };
    on && (filled || snapshot.warming_up || !settings.metrics.hide_unavailable)
}

proof fn lemma_blocks_stand(
    hud: Hud,
    first: bool,
    snapshot: Snapshot,
    settings: SettingsView,
    resolution: Option<(u32, u32)>,
    order: Seq<BlockKind>,
    kind: BlockKind,
) -> (r: (int, Set<Metric>))
    ensures
        ({
            let panel = with_blocks(hud, first, snapshot, settings, resolution, order).0.items;
            &&& begins_with(panel, hud.items)
            &&& order.contains(kind) && wanted(snapshot, settings, kind) ==> stands_at(
                panel,
                r.0,
                r.1,
                snapshot,
                settings,
                resolution,
                kind,
            ) && r.0 >= hud.items.len()
        }),
    decreases order.len(),
{
    if order.len() == 0 {
        (0, Set::empty())
    } else {
        let front = order.drop_last();
        let last = order.last();
        let (at, known) = lemma_blocks_stand(
            hud,
            first,
            snapshot,
            settings,
            resolution,
            front,
            kind,
        );
        let (rest, still) = with_blocks(hud, first, snapshot, settings, resolution, front);
        let ready = separated(rest, still);
        law_blocks_do_not_touch_what_is_above(ready, snapshot, settings, resolution, last);
        if order.contains(kind) && kind != last {
            let i = choose|i: int| 0 <= i < order.len() && order[i] == kind;
            assert(front[i] == kind);
        }
        if kind == last && wanted(snapshot, settings, kind) {
            (ready.items.len() as int, ready.seen)
        } else {
            (at, known)
        }
    }
}

proof fn lemma_notes_follow(hud: Hud, notes: Seq<Seq<char>>)
    ensures
        begins_with(with_notes(hud, notes).items, hud.items),
        with_notes(hud, notes).items.len() == hud.items.len() + notes.len(),
        forall|i: int|
            0 <= i < notes.len() ==> #[trigger] with_notes(hud, notes).items[hud.items.len() + i]
                == HudView::Caption(notes[i]),
    decreases notes.len(),
{
    if notes.len() > 0 {
        lemma_notes_follow(hud, notes.drop_last());
    }
}

/// Every block that is to be seen stands in the panel with all of its rows.
pub proof fn law_panel_shows_every_block(
    seen: Set<Metric>,
    snapshot: Snapshot,
    settings: SettingsView,
    notes: Seq<Seq<char>>,
    resolution: Option<(u32, u32)>,
    clock: Option<(u8, u8)>,
    kind: BlockKind,
)
    requires
        settings.blocks.order.contains(kind),
        wanted(snapshot, settings, kind),
    ensures
        exists|at: int, known: Set<Metric>| #[trigger]
            stands_at(
                hud_of(seen, snapshot, settings, notes, resolution, clock).items,
                at,
                known,
                snapshot,
                settings,
                resolution,
                kind,
            ),
{
    let empty = Hud { items: Seq::<HudView>::empty(), seen };
    let headed = if settings.overlay.show_header && !settings.overlay.locked {
        Hud { items: empty.items.push(HudView::Header), ..empty }
    } else {
        empty
    };
    let (timed, first) = match clock {
        Some((hour, minute)) => (
            Hud {
                items: headed.items.push(
                    HudView::Title {
                        title: "Time"@,
                        value: FigureView::Text(crate::format::clock_text(hour, minute)),
                        title_color: crate::theme::DEFAULT_HEADER,
                        value_color: crate::theme::DEFAULT_HEADER,
                    },
                ),
                ..headed
            },
            false,
        ),
        None => (headed, true),
    };
    let order = settings.blocks.order;
    let (at, known) = lemma_blocks_stand(
        timed,
        first,
        snapshot,
        settings,
        resolution,
        order,
        kind,
    );
    let (filled, still) = with_blocks(timed, first, snapshot, settings, resolution, order);
    let whole = hud_of(seen, snapshot, settings, notes, resolution, clock).items;
    lemma_notes_follow(separated(filled, still), notes);
    assert(begins_with(whole, filled.items));
    assert(stands_at(whole, at, known, snapshot, settings, resolution, kind));
}

/// Blocks that come one after another in the order stand one after another, and a block that is
/// not to be seen takes no place.
pub proof fn law_blocks_come_in_their_order(
    hud: Hud,
    first: bool,
    snapshot: Snapshot,
    settings: SettingsView,
    resolution: Option<(u32, u32)>,
    order: Seq<BlockKind>,
    next: BlockKind,
)
    ensures
        ({
            let before = with_blocks(hud, first, snapshot, settings, resolution, order).0;
            let after = with_blocks(
                hud,
                first,
                snapshot,
                settings,
                resolution,
                order.push(next),
            ).0;
            &&& begins_with(after.items, before.items)
            &&& !wanted(snapshot, settings, next) ==> after == before
            &&& wanted(snapshot, settings, next) ==> exists|at: int|
                before.items.len() <= at <= before.items.len() + 1 && #[trigger] stands_at(
                    after.items,
                    at,
                    before.seen,
                    snapshot,
                    settings,
                    resolution,
                    next,
                )
        }),
{
    assert(order.push(next).drop_last() =~= order);
    let (before, still) = with_blocks(hud, first, snapshot, settings, resolution, order);
    let after = with_blocks(hud, first, snapshot, settings, resolution, order.push(next)).0;
    let ready = separated(before, still);
    law_blocks_do_not_touch_what_is_above(ready, snapshot, settings, resolution, next);
    if wanted(snapshot, settings, next) {
        assert(stands_at(
            after.items,
            ready.items.len() as int,
            before.seen,
            snapshot,
            settings,
            resolution,
            next,
        ));
    }
}

/// The panel begins with the bar of buttons, unless it is off or the overlay is locked, then shows
/// the time where it is wanted, and ends with what the program has to say.
pub proof fn law_panel_has_its_bar_its_time_and_its_notes(
    seen: Set<Metric>,
    snapshot: Snapshot,
    settings: SettingsView,
    notes: Seq<Seq<char>>,
    resolution: Option<(u32, u32)>,
    clock: Option<(u8, u8)>,
)
    ensures
        ({
            let items = hud_of(seen, snapshot, settings, notes, resolution, clock).items;
            let bar = settings.overlay.show_header && !settings.overlay.locked;
            let next: int = if bar {
                1
            } else {
                0
            };
            &&& bar ==> leads(items, HudView::Header)
            &&& clock is Some ==> items.len() > next && items[next] == (HudView::Title {
                title: "Time"@,
                value: FigureView::Text(
                    crate::format::clock_text((clock->0).0, (clock->0).1),
                ),
                title_color: 0xf1f1f1,
                value_color: 0xf1f1f1,
            })
            &&& items.len() >= notes.len()
            &&& forall|i: int|
                0 <= i < notes.len() ==> #[trigger] items[items.len() - notes.len() + i]
                    == HudView::Caption(notes[i])
        }),
{
    let empty = Hud { items: Seq::<HudView>::empty(), seen };
    let headed = if settings.overlay.show_header && !settings.overlay.locked {
        Hud { items: empty.items.push(HudView::Header), ..empty }
    } else {
        empty
    };
    let (timed, first) = match clock {
        Some((hour, minute)) => (
            Hud {
                items: headed.items.push(
                    HudView::Title {
                        title: "Time"@,
                        value: FigureView::Text(crate::format::clock_text(hour, minute)),
                        title_color: crate::theme::DEFAULT_HEADER,
                        value_color: crate::theme::DEFAULT_HEADER,
                    },
                ),
                ..headed
            },
            false,
        ),
        None => (headed, true),
    };
    let order = settings.blocks.order;
    let r = lemma_blocks_stand(
        timed,
        first,
        snapshot,
        settings,
        resolution,
        order,
        BlockKind::Gpu,
    );
    let (filled, still) = with_blocks(timed, first, snapshot, settings, resolution, order);
    let whole = hud_of(seen, snapshot, settings, notes, resolution, clock).items;
    let ready = separated(filled, still);
    lemma_notes_follow(ready, notes);
    assert(begins_with(whole, filled.items));
    assert(begins_with(filled.items, timed.items));
    if notes.len() > 0 {
        assert forall|i: int| 0 <= i < notes.len() implies #[trigger] whole[whole.len()
            - notes.len() + i] == HudView::Caption(notes[i]) by {
            assert(whole[ready.items.len() + i] == HudView::Caption(notes[i]));
        }
    }
    if clock is Some {
        assert(timed.items[headed.items.len() as int] == filled.items[headed.items.len() as int]);
    }
    if settings.overlay.show_header && !settings.overlay.locked {
        assert(timed.items[0] == HudView::Header);
        assert(filled.items[0] == HudView::Header);
    }
}

/// A label that belongs to the frames alone.
pub open spec fn label_of_frames(label: Seq<char>) -> bool {
    label == "AVG"@ || label == "1% LOW"@ || label == "0.1% LOW"@ || label == "LAT"@
}

proof fn lemma_no_frames_elsewhere(
    hud: Hud,
    snapshot: Snapshot,
    settings: SettingsView,
    resolution: Option<(u32, u32)>,
    kind: BlockKind,
    label: Seq<char>,
    item: HudView,
)
    requires
        !(kind is Fps),
        label_of_frames(label),
    ensures
        unlabelled(hud.items, label) ==> unlabelled(
            with_block(hud, snapshot, settings, resolution, kind).items,
            label,
        ),
        reads(hud.items, label, item) ==> reads(
            with_block(hud, snapshot, settings, resolution, kind).items,
            label,
            item,
        ),
{
    broadcast use group_rows;

    reveal_strlit("Temp");
    reveal_strlit("Clock");
    reveal_strlit("Mem Clock");
    reveal_strlit("VRAM");
    reveal_strlit("Power");
    reveal_strlit("Fan");
    reveal_strlit("Fan %");
    reveal_strlit("P-Clock");
    reveal_strlit("E-Clock");
    reveal_strlit("Used");
    reveal_strlit("App");
    reveal_strlit("Speed");
    reveal_strlit("AVG");
    reveal_strlit("1% LOW");
    reveal_strlit("0.1% LOW");
    reveal_strlit("LAT");
    reveal_strlit("API");
    assert("Temp"@.len() == 4);
    assert("Clock"@.len() == 5);
    assert("Mem Clock"@.len() == 9);
    assert("VRAM"@.len() == 4);
    assert("Power"@.len() == 5);
    assert("Fan"@.len() == 3);
    assert("Fan %"@.len() == 5);
    assert("P-Clock"@.len() == 7);
    assert("E-Clock"@.len() == 7);
    assert("Used"@.len() == 4);
    assert("App"@.len() == 3);
    assert("Speed"@.len() == 5);
    assert("AVG"@.len() == 3);
    assert("1% LOW"@.len() == 6);
    assert("0.1% LOW"@.len() == 8);
    assert("LAT"@.len() == 3);
    assert("API"@.len() == 3);
    assert("Temp"@[0] == 'T');
    assert("Temp"@[1] == 'e');
    assert("Clock"@[0] == 'C');
    assert("Clock"@[1] == 'l');
    assert("Mem Clock"@[0] == 'M');
    assert("Mem Clock"@[1] == 'e');
    assert("VRAM"@[0] == 'V');
    assert("VRAM"@[1] == 'R');
    assert("Power"@[0] == 'P');
    assert("Power"@[1] == 'o');
    assert("Fan"@[0] == 'F');
    assert("Fan"@[1] == 'a');
    assert("Fan %"@[0] == 'F');
    assert("Fan %"@[1] == 'a');
    assert("P-Clock"@[0] == 'P');
    assert("P-Clock"@[1] == '-');
    assert("E-Clock"@[0] == 'E');
    assert("E-Clock"@[1] == '-');
    assert("Used"@[0] == 'U');
    assert("Used"@[1] == 's');
    assert("App"@[0] == 'A');
    assert("App"@[1] == 'p');
    assert("Speed"@[0] == 'S');
    assert("Speed"@[1] == 'p');
    assert("AVG"@[0] == 'A');
    assert("AVG"@[1] == 'V');
    assert("1% LOW"@[0] == '1');
    assert("1% LOW"@[1] == '%');
    assert("0.1% LOW"@[0] == '0');
    assert("0.1% LOW"@[1] == '.');
    assert("LAT"@[0] == 'L');
    assert("LAT"@[1] == 'A');
    assert("API"@[0] == 'A');
    assert("API"@[1] == 'P');
}

proof fn lemma_panel_reads(
    hud: Hud,
    first: bool,
    snapshot: Snapshot,
    settings: SettingsView,
    resolution: Option<(u32, u32)>,
    order: Seq<BlockKind>,
    label: Seq<char>,
    item: HudView,
)
    requires
        label_of_frames(label),
        unlabelled(hud.items, label),
        wanted(snapshot, settings, BlockKind::Fps),
        forall|h: Hud|
            unlabelled(h.items, label) || reads(h.items, label, item) ==> reads(
                #[trigger] fps_block(h, snapshot, settings, resolution).items,
                label,
                item,
            ),
    ensures
        ({
            let panel = with_blocks(hud, first, snapshot, settings, resolution, order).0.items;
            if order.contains(BlockKind::Fps) {
                reads(panel, label, item)
            } else {
                unlabelled(panel, label)
            }
        }),
    decreases order.len(),
{
    broadcast use {lemma_other_item, lemma_no_other_item};

    if order.len() > 0 {
        let front = order.drop_last();
        let last = order.last();
        lemma_panel_reads(hud, first, snapshot, settings, resolution, front, label, item);
        let (rest, still) = with_blocks(hud, first, snapshot, settings, resolution, front);
        let ready = separated(rest, still);
        if order.contains(BlockKind::Fps) && !(last is Fps) {
            let i = choose|i: int| 0 <= i < order.len() && order[i] == BlockKind::Fps;
            assert(front[i] == BlockKind::Fps);
        }
        if front.contains(BlockKind::Fps) {
            let i = choose|i: int| 0 <= i < front.len() && front[i] == BlockKind::Fps;
            assert(order[i] == BlockKind::Fps);
        }
        assert(order[order.len() - 1] == last);
        if !(last is Fps) {
            lemma_no_frames_elsewhere(
                ready,
                snapshot,
                settings,
                resolution,
                last,
                label,
                item,
            );
        }
    }
}

proof fn lemma_whole_panel_reads(
    seen: Set<Metric>,
    snapshot: Snapshot,
    settings: SettingsView,
    notes: Seq<Seq<char>>,
    resolution: Option<(u32, u32)>,
    clock: Option<(u8, u8)>,
    label: Seq<char>,
    item: HudView,
)
    requires
        label_of_frames(label),
        settings.blocks.order.contains(BlockKind::Fps),
        wanted(snapshot, settings, BlockKind::Fps),
        forall|h: Hud|
            unlabelled(h.items, label) || reads(h.items, label, item) ==> reads(
                #[trigger] fps_block(h, snapshot, settings, resolution).items,
                label,
                item,
            ),
    ensures
        reads(hud_of(seen, snapshot, settings, notes, resolution, clock).items, label, item),
{
    let empty = Hud { items: Seq::<HudView>::empty(), seen };
    let headed = if settings.overlay.show_header && !settings.overlay.locked {
        Hud { items: empty.items.push(HudView::Header), ..empty }
    } else {
        empty
    };
    let (timed, first) = match clock {
        Some((hour, minute)) => (
            Hud {
                items: headed.items.push(
                    HudView::Title {
                        title: "Time"@,
                        value: FigureView::Text(crate::format::clock_text(hour, minute)),
                        title_color: crate::theme::DEFAULT_HEADER,
                        value_color: crate::theme::DEFAULT_HEADER,
                    },
                ),
                ..headed
            },
            false,
        ),
        None => (headed, true),
    };
    let order = settings.blocks.order;
    lemma_panel_reads(timed, first, snapshot, settings, resolution, order, label, item);
    let (filled, still) = with_blocks(timed, first, snapshot, settings, resolution, order);
    let ready = separated(filled, still);
    lemma_other_item_kept(filled, still, label, item);
    lemma_notes_keep_rows(ready, notes, label, item);
}

proof fn lemma_other_item_kept(hud: Hud, first: bool, label: Seq<char>, item: HudView)
    requires
        reads(hud.items, label, item),
    ensures
        reads(separated(hud, first).items, label, item),
{
    broadcast use lemma_other_item;

}

proof fn lemma_notes_keep_rows(hud: Hud, notes: Seq<Seq<char>>, label: Seq<char>, item: HudView)
    requires
        reads(hud.items, label, item),
    ensures
        reads(with_notes(hud, notes).items, label, item),
    decreases notes.len(),
{
    broadcast use lemma_other_item;

    if notes.len() > 0 {
        lemma_notes_keep_rows(hud, notes.drop_last(), label, item);
    }
}

/// While frames are delivered, a panel with the block of the frames shows in the one row of each
/// label the number of that label and no other: the average, the two lows and the latency.
pub proof fn law_panel_shows_each_number_of_the_frames(
    seen: Set<Metric>,
    snapshot: Snapshot,
    settings: SettingsView,
    notes: Seq<Seq<char>>,
    resolution: Option<(u32, u32)>,
    clock: Option<(u8, u8)>,
    number: crate::number::Double,
)
    requires
        settings.blocks.order.contains(BlockKind::Fps),
        settings.blocks.fps.enabled,
        snapshot.fps.availability is Available,
        number.finite(),
    ensures
        ({
            let items = hud_of(seen, snapshot, settings, notes, resolution, clock).items;
            let stats = snapshot.fps.statistics;
            let shows = settings.metrics;
            let palette = palette_of(settings.blocks.fps.colors);
            let rate = FigureView::Fps(number);
            &&& shows.shows(Metric::FpsAverage) && stats.average_fps == Some(number) ==> reads(
                items,
                "AVG"@,
                row("AVG"@, rate, palette, palette.values),
            )
            &&& shows.shows(Metric::FpsLow1) && stats.low_1_percent_fps == Some(number) ==> reads(
                items,
                "1% LOW"@,
                row("1% LOW"@, rate, palette, palette.values),
            )
            &&& shows.shows(Metric::FpsLow01) && stats.low_0_1_percent_fps == Some(number)
                ==> reads(
                items,
                "0.1% LOW"@,
                row("0.1% LOW"@, rate, palette, palette.values),
            )
            &&& shows.shows(Metric::FpsLatency) && snapshot.fps.latency_ms == Some(number)
                ==> reads(
                items,
                "LAT"@,
                row("LAT"@, FigureView::Latency(number), palette, palette.values),
            )
        }),
{
    let stats = snapshot.fps.statistics;
    let shows = settings.metrics;
    let palette = palette_of(settings.blocks.fps.colors);
    let rate = FigureView::Fps(number);
    if shows.shows(Metric::FpsAverage) && stats.average_fps == Some(number) {
        let item = row("AVG"@, rate, palette, palette.values);
        lemma_frames_read(snapshot, settings, resolution, "AVG"@, item);
        lemma_whole_panel_reads(
            seen,
            snapshot,
            settings,
            notes,
            resolution,
            clock,
            "AVG"@,
            item,
        );
    }
    if shows.shows(Metric::FpsLow1) && stats.low_1_percent_fps == Some(number) {
        let item = row("1% LOW"@, rate, palette, palette.values);
        lemma_frames_read(snapshot, settings, resolution, "1% LOW"@, item);
        lemma_whole_panel_reads(
            seen,
            snapshot,
            settings,
            notes,
            resolution,
            clock,
            "1% LOW"@,
            item,
        );
    }
    if shows.shows(Metric::FpsLow01) && stats.low_0_1_percent_fps == Some(number) {
        let item = row("0.1% LOW"@, rate, palette, palette.values);
        lemma_frames_read(snapshot, settings, resolution, "0.1% LOW"@, item);
        lemma_whole_panel_reads(
            seen,
            snapshot,
            settings,
            notes,
            resolution,
            clock,
            "0.1% LOW"@,
            item,
        );
    }
    if shows.shows(Metric::FpsLatency) && snapshot.fps.latency_ms == Some(number) {
        let item = row("LAT"@, FigureView::Latency(number), palette, palette.values);
        lemma_frames_read(snapshot, settings, resolution, "LAT"@, item);
        lemma_whole_panel_reads(
            seen,
            snapshot,
            settings,
            notes,
            resolution,
            clock,
            "LAT"@,
            item,
        );
    }
}

proof fn lemma_frames_read(
    snapshot: Snapshot,
    settings: SettingsView,
    resolution: Option<(u32, u32)>,
    label: Seq<char>,
    item: HudView,
)
    requires
        snapshot.fps.availability is Available,
        ({
            let stats = snapshot.fps.statistics;
            let shows = settings.metrics;
            let palette = palette_of(settings.blocks.fps.colors);
            ||| label == "AVG"@ && shows.shows(Metric::FpsAverage) && stats.average_fps is Some
                && stats.average_fps->0.finite() && item == row(
                label,
                FigureView::Fps(stats.average_fps->0),
                palette,
                palette.values,
            )
            ||| label == "1% LOW"@ && shows.shows(Metric::FpsLow1) && stats.low_1_percent_fps is Some
                && stats.low_1_percent_fps->0.finite() && item == row(
                label,
                FigureView::Fps(stats.low_1_percent_fps->0),
                palette,
                palette.values,
            )
            ||| label == "0.1% LOW"@ && shows.shows(Metric::FpsLow01)
                && stats.low_0_1_percent_fps is Some && stats.low_0_1_percent_fps->0.finite()
                && item == row(
                label,
                FigureView::Fps(stats.low_0_1_percent_fps->0),
                palette,
                palette.values,
            )
            ||| label == "LAT"@ && shows.shows(Metric::FpsLatency) && snapshot.fps.latency_ms is Some
                && snapshot.fps.latency_ms->0.finite() && item == row(
                label,
                FigureView::Latency(snapshot.fps.latency_ms->0),
                palette,
                palette.values,
            )
        }),
    ensures
        forall|h: Hud|
            unlabelled(h.items, label) || reads(h.items, label, item) ==> reads(
                #[trigger] fps_block(h, snapshot, settings, resolution).items,
                label,
                item,
            ),
{
    broadcast use group_rows;

    reveal_strlit("AVG");
    reveal_strlit("1% LOW");
    reveal_strlit("0.1% LOW");
    reveal_strlit("LAT");
    reveal_strlit("API");
    assert("AVG"@.len() == 3);
    assert("1% LOW"@.len() == 6);
    assert("0.1% LOW"@.len() == 8);
    assert("LAT"@.len() == 3);
    assert("API"@.len() == 3);
    assert("AVG"@[0] == 'A');
    assert("AVG"@[1] == 'V');
    assert("1% LOW"@[0] == '1');
    assert("1% LOW"@[1] == '%');
    assert("0.1% LOW"@[0] == '0');
    assert("0.1% LOW"@[1] == '.');
    assert("LAT"@[0] == 'L');
    assert("LAT"@[1] == 'A');
    assert("API"@[0] == 'A');
    assert("API"@[1] == 'P');
}

} // verus!
