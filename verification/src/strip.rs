//! The overlay in one strip.
//!
//! A block has its heading, its main number and two or three of the values that are switched on:
//! the strip takes as little room over a game as it can. A value that is missing is left out, as
//! a row of dashes would only lengthen the strip. The main number keeps its place.

use vstd::prelude::*;

use crate::blocks::BlockKind;
use crate::hud::amount;
use crate::hud::amount_of;
use crate::hud::block_heading;
use crate::hud::block_visible;
use crate::hud::degrees;
use crate::hud::degrees_of;
use crate::hud::figure_view;
use crate::hud::heading_of;
use crate::hud::latency;
use crate::hud::latency_of;
use crate::hud::load_color;
use crate::hud::load_tint;
use crate::hud::percent;
use crate::hud::percent_of;
use crate::hud::power;
use crate::hud::power_of;
use crate::hud::rate;
use crate::hud::rate_of;
use crate::hud::shown;
use crate::hud::shows_block;
use crate::hud::temperature_color;
use crate::hud::temperature_tint;
use crate::hud::value_or_empty;
use crate::hud::Extras;
use crate::hud::Figure;
use crate::hud::FigureView;
use crate::settings::Metric;
use crate::settings::Settings;
use crate::settings::SettingsView;
use crate::snapshot::Snapshot;
use crate::theme::palette_of;
use crate::theme::Palette;
use crate::theme::TEXT_DISABLED;
use crate::theme::TEXT_PRIMARY;

verus! {

#[derive(Debug, PartialEq)]
pub enum StripItem {
    /// A line between two blocks.
    Separator,
    /// The name of a block.
    Title { text: String, color: u32 },
    /// The main number of a block, in large digits.
    Main { value: Figure, color: u32 },
    /// A further value with a short label, which may be empty.
    Extra { label: &'static str, value: Figure, label_color: u32, color: u32 },
    /// What the program has to say, under the strip.
    Note(String),
}

pub enum StripView {
    Separator,
    Title { text: Seq<char>, color: u32 },
    Main { value: FigureView, color: u32 },
    Extra { label: Seq<char>, value: FigureView, label_color: u32, color: u32 },
    Note(Seq<char>),
}

impl View for StripItem {
    type V = StripView;

    open spec fn view(&self) -> StripView {
        match self {
            StripItem::Separator => StripView::Separator,
            StripItem::Title { text, color } => StripView::Title { text: text@, color: *color },
            StripItem::Main { value, color } => StripView::Main { value: value@, color: *color },
            StripItem::Extra { label, value, label_color, color } => StripView::Extra {
                label: label@,
                value: value@,
                label_color: *label_color,
                color: *color,
            },
            StripItem::Note(text) => StripView::Note(text@),
        }
    }
}

pub open spec fn strip_views(items: Seq<StripItem>) -> Seq<StripView> {
    items.map_values(|item: StripItem| item@)
}

/// A strip that is being laid out.
struct Strip<'a> {
    settings: &'a Settings,
    warming_up: bool,
    items: Vec<StripItem>,
}

/// The heading and the main number of a block. A number that is missing keeps its place.
pub open spec fn with_main(
    strip: Seq<StripView>,
    heading: Seq<char>,
    heading_color: u32,
    value: Option<FigureView>,
    color: u32,
    warming_up: bool,
) -> Seq<StripView> {
    strip.push(StripView::Title { text: heading, color: heading_color }).push(
        StripView::Main { value: shown(value, warming_up), color },
    )
}

/// A further value: without one there is no label either.
pub open spec fn with_extra(
    strip: Seq<StripView>,
    enabled: bool,
    label: Seq<char>,
    value: Option<FigureView>,
    palette: Palette,
    color: u32,
) -> Seq<StripView> {
    match value {
        Some(value) if enabled => strip.push(
            StripView::Extra { label, value, label_color: palette.labels, color },
        ),
        _ => strip,
    }
}

/// The graphics card in the strip.
pub open spec fn gpu_part(
    strip: Seq<StripView>,
    snapshot: Snapshot,
    settings: SettingsView,
) -> Seq<StripView> {
    let block = settings.blocks.gpu;
    let palette = palette_of(block.colors);
    let gpu = snapshot.gpu;
    let units = settings.units;
    let strip = with_main(
        strip,
        heading_of(block, "GPU"@, gpu.name),
        palette.header,
        percent_of(gpu.load_percent),
        load_tint(block, gpu.load_percent, palette.header),
        snapshot.warming_up,
    );
    let strip = with_extra(
        strip,
        settings.metrics.shows(Metric::GpuTemperature),
        ""@,
        degrees_of(gpu.temperature_c, units.temperature),
        palette,
        temperature_tint(block, gpu.temperature_c, palette.values),
    );
    let strip = with_extra(
        strip,
        settings.metrics.shows(Metric::GpuPower),
        ""@,
        power_of(gpu.power_watts),
        palette,
        palette.values,
    );
    with_extra(
        strip,
        settings.metrics.shows(Metric::GpuVram),
        "VRAM"@,
        amount_of(gpu.vram_used_bytes, units.memory),
        palette,
        palette.values,
    )
}

/// The processor in the strip.
pub open spec fn cpu_part(
    strip: Seq<StripView>,
    snapshot: Snapshot,
    settings: SettingsView,
) -> Seq<StripView> {
    let block = settings.blocks.cpu;
    let palette = palette_of(block.colors);
    let cpu = snapshot.cpu;
    let strip = with_main(
        strip,
        heading_of(block, "CPU"@, cpu.name),
        palette.header,
        percent_of(cpu.load_percent),
        load_tint(block, cpu.load_percent, palette.header),
        snapshot.warming_up,
    );
    let strip = with_extra(
        strip,
        settings.metrics.shows(Metric::CpuTemperature),
        ""@,
        degrees_of(cpu.temperature_c, settings.units.temperature),
        palette,
        temperature_tint(block, cpu.temperature_c, palette.values),
    );
    with_extra(
        strip,
        settings.metrics.shows(Metric::CpuPower),
        ""@,
        power_of(cpu.power_watts),
        palette,
        palette.values,
    )
}

/// The memory in the strip.
pub open spec fn memory_part(
    strip: Seq<StripView>,
    snapshot: Snapshot,
    settings: SettingsView,
) -> Seq<StripView> {
    let block = settings.blocks.ram;
    let palette = palette_of(block.colors);
    let memory = snapshot.memory;
    let unit = settings.units.memory;
    let strip = with_main(
        strip,
        block.heading_for("RAM"@, None),
        palette.header,
        percent_of(memory.load_percent),
        palette.header,
        snapshot.warming_up,
    );
    let strip = with_extra(
        strip,
        settings.metrics.shows(Metric::RamUsed),
        ""@,
        amount_of(memory.used_bytes, unit),
        palette,
        palette.values,
    );
    with_extra(
        strip,
        settings.metrics.shows(Metric::RamProcess),
        "App"@,
        amount_of(memory.process_bytes, unit),
        palette,
        palette.values,
    )
}

/// The frames in the strip. Why there are no numbers is said shortly in the strip itself.
pub open spec fn fps_part(
    strip: Seq<StripView>,
    snapshot: Snapshot,
    settings: SettingsView,
) -> Seq<StripView> {
    let block = settings.blocks.fps;
    let palette = palette_of(block.colors);
    let state = snapshot.fps;
    let delivering = state.availability is Available;
    let stats = state.statistics;
    let strip = with_main(
        strip,
        block.heading_for("FPS"@, None),
        palette.header,
        rate_of(stats.current_fps, delivering),
        palette.accent,
        snapshot.warming_up,
    );
    let strip = with_extra(
        strip,
        settings.metrics.shows(Metric::FpsAverage),
        "AVG"@,
        rate_of(stats.average_fps, delivering),
        palette,
        palette.values,
    );
    let strip = with_extra(
        strip,
        settings.metrics.shows(Metric::FpsLow1),
        "1%"@,
        rate_of(stats.low_1_percent_fps, delivering),
        palette,
        palette.values,
    );
    let strip = with_extra(
        strip,
        settings.metrics.shows(Metric::FpsLatency),
        "LAT"@,
        latency_of(state.latency_ms, delivering),
        palette,
        palette.values,
    );
    with_extra(
        strip,
        !delivering,
        ""@,
        match state.message {
            Some(text) => Some(FigureView::Text(text@)),
            None => None,
        },
        palette,
        TEXT_DISABLED,
    )
}

pub open spec fn part(
    strip: Seq<StripView>,
    snapshot: Snapshot,
    settings: SettingsView,
    kind: BlockKind,
) -> Seq<StripView> {
    match kind {
        BlockKind::Gpu => gpu_part(strip, snapshot, settings),
        BlockKind::Cpu => cpu_part(strip, snapshot, settings),
        BlockKind::Ram => memory_part(strip, snapshot, settings),
        BlockKind::Fps => fps_part(strip, snapshot, settings),
    }
}

/// A line between two parts: none before the first.
pub open spec fn parted(strip: Seq<StripView>) -> Seq<StripView> {
    if strip.len() == 0 {
        strip
    } else {
        strip.push(StripView::Separator)
    }
}

/// The blocks in their order.
pub open spec fn with_parts(
    strip: Seq<StripView>,
    snapshot: Snapshot,
    settings: SettingsView,
    order: Seq<BlockKind>,
) -> Seq<StripView>
    decreases order.len(),
{
    if order.len() == 0 {
        strip
    } else {
        let rest = with_parts(strip, snapshot, settings, order.drop_last());
        if block_visible(snapshot, settings, order.last()) {
            part(parted(rest), snapshot, settings, order.last())
        } else {
            rest
        }
    }
}

/// The whole strip: the time, the blocks in their order, and under them what the program has to
/// say.
pub open spec fn strip_of(
    snapshot: Snapshot,
    settings: SettingsView,
    notes: Seq<Seq<char>>,
    clock: Option<(u8, u8)>,
) -> Seq<StripView> {
    let timed = match clock {
        Some((hour, minute)) => Seq::<StripView>::empty().push(
            StripView::Main {
                value: FigureView::Text(crate::format::clock_text(hour, minute)),
                color: TEXT_PRIMARY,
            },
        ),
        None => Seq::<StripView>::empty(),
    };
    with_parts(timed, snapshot, settings, settings.blocks.order) + notes.map_values(
        |note: Seq<char>| StripView::Note(note),
    )
}

impl<'a> Strip<'a> {
    spec fn view(&self) -> Seq<StripView> {
        strip_views(self.items@)
    }

    fn put(&mut self, item: StripItem)
        ensures
            final(self)@ == old(self)@.push(item@),
            final(self).settings == old(self).settings,
            final(self).warming_up == old(self).warming_up,
    {
        let ghost before = self.items@;
        self.items.push(item);
        proof {
            assert(strip_views(self.items@) =~= strip_views(before).push(item@));
        }
    }

    fn separate(&mut self)
        ensures
            final(self)@ == parted(old(self)@),
            final(self).settings == old(self).settings,
            final(self).warming_up == old(self).warming_up,
    {
        if self.items.len() > 0 {
            self.put(StripItem::Separator);
        }
    }

    fn main(&mut self, heading: String, heading_color: u32, value: Option<Figure>, color: u32)
        ensures
            final(self)@ == with_main(
                old(self)@,
                heading@,
                heading_color,
                figure_view(value),
                color,
                old(self).warming_up,
            ),
            final(self).settings == old(self).settings,
            final(self).warming_up == old(self).warming_up,
    {
        self.put(StripItem::Title { text: heading, color: heading_color });
        let value = value_or_empty(value, self.warming_up);
        self.put(StripItem::Main { value, color });
    }

    fn extra(
        &mut self,
        enabled: bool,
        label: &'static str,
        value: Option<Figure>,
        palette: Palette,
        color: u32,
    )
        ensures
            final(self)@ == with_extra(
                old(self)@,
                enabled,
                label@,
                figure_view(value),
                palette,
                color,
            ),
            final(self).settings == old(self).settings,
            final(self).warming_up == old(self).warming_up,
    {
        if let Some(value) = value {
            if enabled {
                self.put(StripItem::Extra { label, value, label_color: palette.labels, color });
            }
        }
    }

    fn enabled(&self, metric: Metric) -> (r: bool)
        ensures
            r == self.settings@.metrics.shows(metric),
    {
        self.settings.metrics.is_enabled(metric)
    }

    fn gpu(&mut self, snapshot: &Snapshot)
        requires
            old(self).warming_up == snapshot.warming_up,
        ensures
            final(self)@ == gpu_part(old(self)@, *snapshot, old(self).settings@),
            final(self).settings == old(self).settings,
            final(self).warming_up == old(self).warming_up,
    {
        let block = &self.settings.blocks.gpu;
        let palette = Palette::of(&block.colors);
        let gpu = &snapshot.gpu;
        let units = self.settings.units;
        let heading = block_heading(block, "GPU", &gpu.name);
        let color = load_color(block, gpu.load_percent, palette.header);
        let heat = temperature_color(block, gpu.temperature_c, palette.values);
        self.main(heading, palette.header, percent(gpu.load_percent), color);
        let temperature = self.enabled(Metric::GpuTemperature);
        self.extra(
            temperature,
            "",
            degrees(gpu.temperature_c, units.temperature),
            palette,
            heat,
        );
        let watts = self.enabled(Metric::GpuPower);
        self.extra(watts, "", power(gpu.power_watts), palette, palette.values);
        let vram = self.enabled(Metric::GpuVram);
        self.extra(
            vram,
            "VRAM",
            amount(gpu.vram_used_bytes, units.memory),
            palette,
            palette.values,
        );
    }

    fn cpu(&mut self, snapshot: &Snapshot)
        requires
            old(self).warming_up == snapshot.warming_up,
        ensures
            final(self)@ == cpu_part(old(self)@, *snapshot, old(self).settings@),
            final(self).settings == old(self).settings,
            final(self).warming_up == old(self).warming_up,
    {
        let block = &self.settings.blocks.cpu;
        let palette = Palette::of(&block.colors);
        let cpu = &snapshot.cpu;
        let unit = self.settings.units.temperature;
        let heading = block_heading(block, "CPU", &cpu.name);
        let color = load_color(block, cpu.load_percent, palette.header);
        let heat = temperature_color(block, cpu.temperature_c, palette.values);
        self.main(heading, palette.header, percent(cpu.load_percent), color);
        let temperature = self.enabled(Metric::CpuTemperature);
        self.extra(temperature, "", degrees(cpu.temperature_c, unit), palette, heat);
        let watts = self.enabled(Metric::CpuPower);
        self.extra(watts, "", power(cpu.power_watts), palette, palette.values);
    }

    fn memory(&mut self, snapshot: &Snapshot)
        requires
            old(self).warming_up == snapshot.warming_up,
        ensures
            final(self)@ == memory_part(old(self)@, *snapshot, old(self).settings@),
            final(self).settings == old(self).settings,
            final(self).warming_up == old(self).warming_up,
    {
        let block = &self.settings.blocks.ram;
        let palette = Palette::of(&block.colors);
        let memory = &snapshot.memory;
        let unit = self.settings.units.memory;
        let heading = block.heading("RAM", None);
        self.main(heading, palette.header, percent(memory.load_percent), palette.header);
        let used = self.enabled(Metric::RamUsed);
        self.extra(used, "", amount(memory.used_bytes, unit), palette, palette.values);
        let process = self.enabled(Metric::RamProcess);
        self.extra(process, "App", amount(memory.process_bytes, unit), palette, palette.values);
    }

    fn fps(&mut self, snapshot: &Snapshot)
        requires
            old(self).warming_up == snapshot.warming_up,
        ensures
            final(self)@ == fps_part(old(self)@, *snapshot, old(self).settings@),
            final(self).settings == old(self).settings,
            final(self).warming_up == old(self).warming_up,
    {
        let block = &self.settings.blocks.fps;
        let palette = Palette::of(&block.colors);
        let state = &snapshot.fps;
        let delivering = state.availability.is_available();
        let stats = state.statistics;
        let heading = block.heading("FPS", None);
        self.main(heading, palette.header, rate(stats.current_fps, delivering), palette.accent);
        let average = self.enabled(Metric::FpsAverage);
        self.extra(
            average,
            "AVG",
            rate(stats.average_fps, delivering),
            palette,
            palette.values,
        );
        let low = self.enabled(Metric::FpsLow1);
        self.extra(low, "1%", rate(stats.low_1_percent_fps, delivering), palette, palette.values);
        let delay = self.enabled(Metric::FpsLatency);
        self.extra(delay, "LAT", latency(state.latency_ms, delivering), palette, palette.values);
        let message = match &state.message {
            Some(text) => Some(Figure::Text(text.clone())),
            None => None,
        };
        self.extra(!delivering, "", message, palette, TEXT_DISABLED);
    }
}

/// Lays out the strip for a snapshot.
pub fn contents(snapshot: &Snapshot, settings: &Settings, extras: &Extras) -> (r: Vec<StripItem>)
    ensures
        strip_views(r@) == strip_of(
            *snapshot,
            settings@,
            crate::text::views(extras.notes@),
            extras.clock,
        ),
{
    let mut strip = Strip { settings, warming_up: snapshot.warming_up, items: Vec::new() };
    proof {
        assert(strip@ =~= Seq::<StripView>::empty());
    }
    if let Some(clock) = extras.clock {
        strip.put(
            StripItem::Main {
                value: Figure::Text(crate::format::clock(clock)),
                color: TEXT_PRIMARY,
            },
        );
    }
    let ghost timed = strip@;
    let ghost order = settings@.blocks.order;
    let blocks = &settings.blocks.order;
    let mut i: usize = 0;
    proof {
        assert(order.take(0) =~= seq![]);
    }
    while i < blocks.len()
        invariant
            i <= blocks.len(),
            strip.settings == settings,
            strip.warming_up == snapshot.warming_up,
            order == blocks@,
            strip@ == with_parts(timed, *snapshot, settings@, order.take(i as int)),
        decreases blocks.len() - i,
    {
        let kind = blocks[i];
        proof {
            assert(order.take(i + 1).drop_last() =~= order.take(i as int));
        }
        if shows_block(snapshot, settings, kind) {
            strip.separate();
            match kind {
                BlockKind::Gpu => strip.gpu(snapshot),
                BlockKind::Cpu => strip.cpu(snapshot),
                BlockKind::Ram => strip.memory(snapshot),
                BlockKind::Fps => strip.fps(snapshot),
            }
        }
        i += 1;
    }
    proof {
        assert(order.take(i as int) =~= order);
    }
    let ghost filled = strip@;
    let ghost notes = crate::text::views(extras.notes@).map_values(
        |note: Seq<char>| StripView::Note(note),
    );
    proof {
        assert(filled + notes.take(0) =~= filled);
    }
    let mut j: usize = 0;
    while j < extras.notes.len()
        invariant
            j <= extras.notes.len(),
            notes == crate::text::views(extras.notes@).map_values(
                |note: Seq<char>| StripView::Note(note),
            ),
            strip@ == filled + notes.take(j as int),
        decreases extras.notes.len() - j,
    {
        strip.put(StripItem::Note(extras.notes[j].clone()));
        proof {
            assert(filled + notes.take(j + 1) =~= (filled + notes.take(j as int)).push(
                notes[j as int],
            ));
        }
        j += 1;
    }
    proof {
        assert(notes.take(j as int) =~= notes);
    }
    strip.items
}

/// A value that is missing leaves nothing in the strip, whether it is switched on or not.
pub proof fn law_missing_values_take_no_room(
    strip: Seq<StripView>,
    enabled: bool,
    label: Seq<char>,
    palette: Palette,
    color: u32,
)
    ensures
        with_extra(strip, enabled, label, None, palette, color) == strip,
{
}

/// The main number of a block keeps its place, whatever is known of it.
pub proof fn law_main_numbers_keep_their_place(
    strip: Seq<StripView>,
    snapshot: Snapshot,
    settings: SettingsView,
    kind: BlockKind,
)
    ensures
        ({
            let after = part(strip, snapshot, settings, kind);
            &&& after.len() >= strip.len() + 2
            &&& after[strip.len() as int] is Title
            &&& after[strip.len() as int + 1] is Main
        }),
{
}

/// A further value of the strip.
pub open spec fn extra(label: Seq<char>, value: FigureView, palette: Palette, color: u32) -> StripView {
    StripView::Extra { label, value, label_color: palette.labels, color }
}

/// A value with its label, where it is switched on and known; else nothing.
pub open spec fn if_known(
    on: bool,
    label: Seq<char>,
    value: Option<FigureView>,
    palette: Palette,
    color: u32,
) -> Seq<StripView> {
    if on && value is Some {
        seq![extra(label, value->0, palette, color)]
    } else {
        seq![]
    }
}

proof fn lemma_extra_appends(
    strip: Seq<StripView>,
    enabled: bool,
    label: Seq<char>,
    value: Option<FigureView>,
    palette: Palette,
    color: u32,
)
    ensures
        with_extra(strip, enabled, label, value, palette, color) == strip + if_known(
            enabled,
            label,
            value,
            palette,
            color,
        ),
{
    assert(with_extra(strip, enabled, label, value, palette, color) =~= strip + if_known(
        enabled,
        label,
        value,
        palette,
        color,
    ));
}

/// The colour of a load, where loads are coloured: yellow from 80 percent, red from 95.
pub open spec fn load_colour_of(
    coloured: bool,
    load: Option<crate::number::Double>,
    header: u32,
) -> u32 {
    if !coloured || load is None {
        header
    } else if load->0.not_below(crate::number::Double { bits: 0x4057_c000_0000_0000 }) {
        0xe85c5c
    } else if load->0.not_below(crate::number::Double { bits: 0x4054_0000_0000_0000 }) {
        0xf2a33c
    } else {
        header
    }
}

/// A main number: the number, dots before the first measurement, a dash after it.
pub open spec fn main_value(value: Option<FigureView>, warming_up: bool) -> FigureView {
    if value is Some {
        value->0
    } else if warming_up {
        FigureView::Text("…"@)
    } else {
        FigureView::Text("—"@)
    }
}

/// The graphics card in the strip: its load, then its temperature, its power and how much of its
/// memory is used, each where it is switched on and known.
pub proof fn law_gpu_in_the_strip(
    strip: Seq<StripView>,
    snapshot: Snapshot,
    settings: SettingsView,
)
    ensures
        ({
            let block = settings.blocks.gpu;
            let gpu = snapshot.gpu;
            let palette = palette_of(block.colors);
            let shows = settings.metrics;
            gpu_part(strip, snapshot, settings) == strip + seq![
                StripView::Title {
                    text: if block.title.len() > 0 {
                        block.title
                    } else if block.device_name && gpu.name is Some && crate::format::short_name(
                        gpu.name->0@,
                    ).len() > 0 {
                        crate::format::short_name(gpu.name->0@)
                    } else {
                        "GPU"@
                    },
                    color: palette.header,
                },
                StripView::Main {
                    value: main_value(
                        match gpu.load_percent {
                            Some(v) => Some(FigureView::Percent(v)),
                            None => None,
                        },
                        snapshot.warming_up,
                    ),
                    color: load_colour_of(block.thresholds.color_load, gpu.load_percent, palette.header),
                },
            ] + if_known(
                shows.shows(Metric::GpuTemperature),
                ""@,
                match gpu.temperature_c {
                    Some(v) => Some(FigureView::Temperature(v, settings.units.temperature)),
                    None => None,
                },
                palette,
                crate::theme::level_color(
                    crate::blocks::level_of(
                        gpu.temperature_c,
                        block.thresholds.warn_c.wide(),
                        block.thresholds.critical_c.wide(),
                    ),
                    palette.values,
                ),
            ) + if_known(
                shows.shows(Metric::GpuPower),
                ""@,
                match gpu.power_watts {
                    Some(v) => Some(FigureView::Power(v)),
                    None => None,
                },
                palette,
                palette.values,
            ) + if_known(
                shows.shows(Metric::GpuVram),
                "VRAM"@,
                match gpu.vram_used_bytes {
                    Some(v) => Some(
                        FigureView::Text(crate::format::amount_text(v, settings.units.memory)),
                    ),
                    None => None,
                },
                palette,
                palette.values,
            )
        }),
{
    let block = settings.blocks.gpu;
    let gpu = snapshot.gpu;
    let palette = palette_of(block.colors);
    let shows = settings.metrics;
    let s0 = with_main(
        strip,
        heading_of(block, "GPU"@, gpu.name),
        palette.header,
        percent_of(gpu.load_percent),
        load_tint(block, gpu.load_percent, palette.header),
        snapshot.warming_up,
    );
    assert(s0 =~= strip + seq![s0[strip.len() as int], s0[strip.len() as int + 1]]);
    let v0 = degrees_of(gpu.temperature_c, settings.units.temperature);
    lemma_extra_appends(s0, shows.shows(Metric::GpuTemperature), ""@, v0, palette, temperature_tint(block, gpu.temperature_c, palette.values));
    let s1 = with_extra(s0, shows.shows(Metric::GpuTemperature), ""@, v0, palette, temperature_tint(block, gpu.temperature_c, palette.values));
    let v1 = power_of(gpu.power_watts);
    lemma_extra_appends(s1, shows.shows(Metric::GpuPower), ""@, v1, palette, palette.values);
    let s2 = with_extra(s1, shows.shows(Metric::GpuPower), ""@, v1, palette, palette.values);
    let v2 = amount_of(gpu.vram_used_bytes, settings.units.memory);
    lemma_extra_appends(s2, shows.shows(Metric::GpuVram), "VRAM"@, v2, palette, palette.values);
    let s3 = with_extra(s2, shows.shows(Metric::GpuVram), "VRAM"@, v2, palette, palette.values);
    assert(gpu_part(strip, snapshot, settings) == s3);
}

/// The processor in the strip: its load, then its temperature and its power, each where it is
/// switched on and known.
pub proof fn law_cpu_in_the_strip(
    strip: Seq<StripView>,
    snapshot: Snapshot,
    settings: SettingsView,
)
    ensures
        ({
            let block = settings.blocks.cpu;
            let cpu = snapshot.cpu;
            let palette = palette_of(block.colors);
            let shows = settings.metrics;
            cpu_part(strip, snapshot, settings) == strip + seq![
                StripView::Title {
                    text: if block.title.len() > 0 {
                        block.title
                    } else if block.device_name && cpu.name is Some && crate::format::short_name(
                        cpu.name->0@,
                    ).len() > 0 {
                        crate::format::short_name(cpu.name->0@)
                    } else {
                        "CPU"@
                    },
                    color: palette.header,
                },
                StripView::Main {
                    value: main_value(
                        match cpu.load_percent {
                            Some(v) => Some(FigureView::Percent(v)),
                            None => None,
                        },
                        snapshot.warming_up,
                    ),
                    color: load_colour_of(block.thresholds.color_load, cpu.load_percent, palette.header),
                },
            ] + if_known(
                shows.shows(Metric::CpuTemperature),
                ""@,
                match cpu.temperature_c {
                    Some(v) => Some(FigureView::Temperature(v, settings.units.temperature)),
                    None => None,
                },
                palette,
                crate::theme::level_color(
                    crate::blocks::level_of(
                        cpu.temperature_c,
                        block.thresholds.warn_c.wide(),
                        block.thresholds.critical_c.wide(),
                    ),
                    palette.values,
                ),
            ) + if_known(
                shows.shows(Metric::CpuPower),
                ""@,
                match cpu.power_watts {
                    Some(v) => Some(FigureView::Power(v)),
                    None => None,
                },
                palette,
                palette.values,
            )
        }),
{
    let block = settings.blocks.cpu;
    let cpu = snapshot.cpu;
    let palette = palette_of(block.colors);
    let shows = settings.metrics;
    let s0 = with_main(
        strip,
        heading_of(block, "CPU"@, cpu.name),
        palette.header,
        percent_of(cpu.load_percent),
        load_tint(block, cpu.load_percent, palette.header),
        snapshot.warming_up,
    );
    assert(s0 =~= strip + seq![s0[strip.len() as int], s0[strip.len() as int + 1]]);
    let v0 = degrees_of(cpu.temperature_c, settings.units.temperature);
    lemma_extra_appends(s0, shows.shows(Metric::CpuTemperature), ""@, v0, palette, temperature_tint(block, cpu.temperature_c, palette.values));
    let s1 = with_extra(s0, shows.shows(Metric::CpuTemperature), ""@, v0, palette, temperature_tint(block, cpu.temperature_c, palette.values));
    let v1 = power_of(cpu.power_watts);
    lemma_extra_appends(s1, shows.shows(Metric::CpuPower), ""@, v1, palette, palette.values);
    let s2 = with_extra(s1, shows.shows(Metric::CpuPower), ""@, v1, palette, palette.values);
    assert(cpu_part(strip, snapshot, settings) == s2);
}

/// The memory in the strip: how much of it is taken, then the amount, and what the program takes.
pub proof fn law_memory_in_the_strip(
    strip: Seq<StripView>,
    snapshot: Snapshot,
    settings: SettingsView,
)
    ensures
        ({
            let block = settings.blocks.ram;
            let memory = snapshot.memory;
            let palette = palette_of(block.colors);
            let shows = settings.metrics;
            memory_part(strip, snapshot, settings) == strip + seq![
                StripView::Title {
                    text: if block.title.len() > 0 {
                        block.title
                    } else {
                        "RAM"@
                    },
                    color: palette.header,
                },
                StripView::Main {
                    value: main_value(
                        match memory.load_percent {
                            Some(v) => Some(FigureView::Percent(v)),
                            None => None,
                        },
                        snapshot.warming_up,
                    ),
                    color: palette.header,
                },
            ] + if_known(
                shows.shows(Metric::RamUsed),
                ""@,
                match memory.used_bytes {
                    Some(v) => Some(
                        FigureView::Text(crate::format::amount_text(v, settings.units.memory)),
                    ),
                    None => None,
                },
                palette,
                palette.values,
            ) + if_known(
                shows.shows(Metric::RamProcess),
                "App"@,
                match memory.process_bytes {
                    Some(v) => Some(
                        FigureView::Text(crate::format::amount_text(v, settings.units.memory)),
                    ),
                    None => None,
                },
                palette,
                palette.values,
            )
        }),
{
    let block = settings.blocks.ram;
    let memory = snapshot.memory;
    let palette = palette_of(block.colors);
    let shows = settings.metrics;
    let s0 = with_main(
        strip,
        block.heading_for("RAM"@, None),
        palette.header,
        percent_of(memory.load_percent),
        palette.header,
        snapshot.warming_up,
    );
    assert(s0 =~= strip + seq![s0[strip.len() as int], s0[strip.len() as int + 1]]);
    let v0 = amount_of(memory.used_bytes, settings.units.memory);
    lemma_extra_appends(s0, shows.shows(Metric::RamUsed), ""@, v0, palette, palette.values);
    let s1 = with_extra(s0, shows.shows(Metric::RamUsed), ""@, v0, palette, palette.values);
    let v1 = amount_of(memory.process_bytes, settings.units.memory);
    lemma_extra_appends(s1, shows.shows(Metric::RamProcess), "App"@, v1, palette, palette.values);
    let s2 = with_extra(s1, shows.shows(Metric::RamProcess), "App"@, v1, palette, palette.values);
    assert(memory_part(strip, snapshot, settings) == s2);
}

/// A number of the frames, while frames are delivered.
pub open spec fn frames_number(
    delivering: bool,
    number: Option<crate::number::Double>,
    latency: bool,
) -> Option<FigureView> {
    if delivering && number is Some && number->0.finite() {
        Some(
            if latency {
                FigureView::Latency(number->0)
            } else {
                FigureView::Fps(number->0)
            },
        )
    } else {
        None
    }
}

/// The frames in the strip: the rate of the moment, then the average, the slowest percent and the
/// latency, each where it is switched on and known; where there are no frames, why not.
pub proof fn law_frames_in_the_strip(
    strip: Seq<StripView>,
    snapshot: Snapshot,
    settings: SettingsView,
)
    ensures
        ({
            let block = settings.blocks.fps;
            let fps = snapshot.fps;
            let stats = fps.statistics;
            let on = fps.availability is Available;
            let palette = palette_of(block.colors);
            let shows = settings.metrics;
            fps_part(strip, snapshot, settings) == strip + seq![
                StripView::Title {
                    text: if block.title.len() > 0 {
                        block.title
                    } else {
                        "FPS"@
                    },
                    color: palette.header,
                },
                StripView::Main {
                    value: main_value(
                        frames_number(on, stats.current_fps, false),
                        snapshot.warming_up,
                    ),
                    color: palette.accent,
                },
            ] + if_known(
                shows.shows(Metric::FpsAverage),
                "AVG"@,
                frames_number(on, stats.average_fps, false),
                palette,
                palette.values,
            ) + if_known(
                shows.shows(Metric::FpsLow1),
                "1%"@,
                frames_number(on, stats.low_1_percent_fps, false),
                palette,
                palette.values,
            ) + if_known(
                shows.shows(Metric::FpsLatency),
                "LAT"@,
                frames_number(on, fps.latency_ms, true),
                palette,
                palette.values,
            ) + (if !on && fps.message is Some {
                seq![extra(""@, FigureView::Text(fps.message->0@), palette, 0x6a6a70)]
            } else {
                seq![]
            })
        }),
{
    let block = settings.blocks.fps;
    let fps = snapshot.fps;
    let stats = fps.statistics;
    let on = fps.availability is Available;
    let palette = palette_of(block.colors);
    let shows = settings.metrics;
    let values = palette.values;
    let s0 = with_main(
        strip,
        block.heading_for("FPS"@, None),
        palette.header,
        rate_of(stats.current_fps, on),
        palette.accent,
        snapshot.warming_up,
    );
    assert(s0 =~= strip + seq![s0[strip.len() as int], s0[strip.len() as int + 1]]);
    let v0 = rate_of(stats.average_fps, on);
    lemma_extra_appends(s0, shows.shows(Metric::FpsAverage), "AVG"@, v0, palette, values);
    let s1 = with_extra(s0, shows.shows(Metric::FpsAverage), "AVG"@, v0, palette, values);
    let v1 = rate_of(stats.low_1_percent_fps, on);
    lemma_extra_appends(s1, shows.shows(Metric::FpsLow1), "1%"@, v1, palette, values);
    let s2 = with_extra(s1, shows.shows(Metric::FpsLow1), "1%"@, v1, palette, values);
    let v2 = latency_of(fps.latency_ms, on);
    lemma_extra_appends(s2, shows.shows(Metric::FpsLatency), "LAT"@, v2, palette, values);
    let s3 = with_extra(s2, shows.shows(Metric::FpsLatency), "LAT"@, v2, palette, values);
    let v3 = match fps.message {
        Some(text) => Some(FigureView::Text(text@)),
        None => None,
    };
    lemma_extra_appends(s3, !on, ""@, v3, palette, TEXT_DISABLED);
    assert(fps_part(strip, snapshot, settings) == with_extra(
        s3,
        !on,
        ""@,
        v3,
        palette,
        TEXT_DISABLED,
    ));
}

/// The strip shows the time where it is wanted, then the blocks that are to be seen in their order
/// with a line between two parts, and then what the program has to say.
pub proof fn law_strip_is_made_of_its_parts(
    snapshot: Snapshot,
    settings: SettingsView,
    notes: Seq<Seq<char>>,
    clock: Option<(u8, u8)>,
    strip: Seq<StripView>,
    order: Seq<BlockKind>,
    next: BlockKind,
)
    ensures
        strip_of(snapshot, settings, notes, clock).len() >= notes.len(),
        forall|i: int|
            0 <= i < notes.len() ==> #[trigger] strip_of(snapshot, settings, notes, clock)[strip_of(
                snapshot,
                settings,
                notes,
                clock,
            ).len() - notes.len() + i] == StripView::Note(notes[i]),
        clock is Some ==> strip_of(snapshot, settings, notes, clock)[0] == (StripView::Main {
            value: FigureView::Text(crate::format::clock_text((clock->0).0, (clock->0).1)),
            color: 0xf1f1f1,
        }),
        ({
            let before = with_parts(strip, snapshot, settings, order);
            let after = with_parts(strip, snapshot, settings, order.push(next));
            &&& !crate::readings::wanted(snapshot, settings, next) ==> after == before
            &&& crate::readings::wanted(snapshot, settings, next) ==> after == (
            if before.len() > 0 {
                before.push(StripView::Separator)
            } else {
                before
            }) + part(seq![], snapshot, settings, next)
        }),
{
    let timed = match clock {
        Some((hour, minute)) => Seq::<StripView>::empty().push(
            StripView::Main {
                value: FigureView::Text(crate::format::clock_text(hour, minute)),
                color: TEXT_PRIMARY,
            },
        ),
        None => Seq::<StripView>::empty(),
    };
    lemma_parts_follow(timed, snapshot, settings, settings.blocks.order);
    assert(order.push(next).drop_last() =~= order);
    let before = with_parts(strip, snapshot, settings, order);
    lemma_part_appends(parted(before), snapshot, settings, next);
}

proof fn lemma_part_appends(
    strip: Seq<StripView>,
    snapshot: Snapshot,
    settings: SettingsView,
    kind: BlockKind,
)
    ensures
        part(strip, snapshot, settings, kind) == strip + part(seq![], snapshot, settings, kind),
{
    match kind {
        BlockKind::Gpu => {
            law_gpu_in_the_strip(strip, snapshot, settings);
            law_gpu_in_the_strip(seq![], snapshot, settings);
        },
        BlockKind::Cpu => {
            law_cpu_in_the_strip(strip, snapshot, settings);
            law_cpu_in_the_strip(seq![], snapshot, settings);
        },
        BlockKind::Ram => {
            law_memory_in_the_strip(strip, snapshot, settings);
            law_memory_in_the_strip(seq![], snapshot, settings);
        },
        BlockKind::Fps => {
            law_frames_in_the_strip(strip, snapshot, settings);
            law_frames_in_the_strip(seq![], snapshot, settings);
        },
    }
    assert(part(strip, snapshot, settings, kind) =~= strip + part(
        seq![],
        snapshot,
        settings,
        kind,
    ));
}

proof fn lemma_parts_follow(
    strip: Seq<StripView>,
    snapshot: Snapshot,
    settings: SettingsView,
    order: Seq<BlockKind>,
)
    ensures
        with_parts(strip, snapshot, settings, order).len() >= strip.len(),
        forall|i: int|
            0 <= i < strip.len() ==> #[trigger] with_parts(strip, snapshot, settings, order)[i]
                == strip[i],
    decreases order.len(),
{
    if order.len() > 0 {
        lemma_parts_follow(strip, snapshot, settings, order.drop_last());
        let rest = with_parts(strip, snapshot, settings, order.drop_last());
        lemma_part_appends(parted(rest), snapshot, settings, order.last());
    }
}

} // verus!
