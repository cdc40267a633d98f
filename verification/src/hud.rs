//! What the overlay shows for a snapshot, from top to bottom.
//!
//! A block's heading shows its main number. Where a block is not filled, a line under it says
//! why: a dash without a word is not enough.

use vstd::prelude::*;

use crate::blocks::level;
use crate::blocks::level_of;
use crate::blocks::Block;
use crate::blocks::BlockKind;
use crate::blocks::BlockView;
use crate::blocks::LOAD_CRITICAL_PERCENT;
use crate::blocks::LOAD_WARN_PERCENT;
use crate::number::Double;
use crate::paths::text_of;
use crate::settings::Metric;
use crate::settings::MetricsView;
use crate::settings::OverlayMode;
use crate::settings::Settings;
use crate::settings::SettingsView;
use crate::snapshot::FpsState;
use crate::snapshot::SectionHealth;
use crate::snapshot::Snapshot;
use crate::strip::strip_of;
use crate::strip::strip_views;
use crate::strip::StripItem;
use crate::theme::for_level;
use crate::theme::level_color;
use crate::theme::palette_of;
use crate::theme::Palette;
use crate::theme::DEFAULT_HEADER;
use crate::units::Frequency;
use crate::units::Temperature;

verus! {

/// What the user did in the overlay.
#[derive(Debug, Clone, Copy, PartialEq, Eq, Structural)]
pub struct HudActions {
    pub toggle_lock: bool,
    pub hide: bool,
}

impl Default for HudActions {
    fn default() -> (r: HudActions)
        ensures
            r == (HudActions { toggle_lock: false, hide: false }),
    {
        HudActions { toggle_lock: false, hide: false }
    }
}

/// What the overlay shows besides the snapshot: the program knows it, not the engine.
#[derive(Debug)]
pub struct Extras {
    /// What the program has to say, at the bottom.
    pub notes: Vec<String>,
    /// The size of the game's window.
    pub resolution: Option<(u32, u32)>,
    /// The time of day, where it is shown.
    pub clock: Option<(u8, u8)>,
}

/// A value as it is shown. A reading is written with the digits that belong to its kind.
#[derive(Debug, PartialEq)]
pub enum Figure {
    Text(String),
    Percent(Double),
    Temperature(Double, Temperature),
    Megahertz(Double),
    /// Given in megahertz, shown in gigahertz.
    Gigahertz(Double),
    Power(Double),
    Rpm(Double),
    Fps(Double),
    Latency(Double),
    Frametime(Double),
}

pub enum FigureView {
    Text(Seq<char>),
    Percent(Double),
    Temperature(Double, Temperature),
    Megahertz(Double),
    Gigahertz(Double),
    Power(Double),
    Rpm(Double),
    Fps(Double),
    Latency(Double),
    Frametime(Double),
}

impl View for Figure {
    type V = FigureView;

    open spec fn view(&self) -> FigureView {
        match self {
            Figure::Text(text) => FigureView::Text(text@),
            Figure::Percent(v) => FigureView::Percent(*v),
            Figure::Temperature(v, unit) => FigureView::Temperature(*v, *unit),
            Figure::Megahertz(v) => FigureView::Megahertz(*v),
            Figure::Gigahertz(v) => FigureView::Gigahertz(*v),
            Figure::Power(v) => FigureView::Power(*v),
            Figure::Rpm(v) => FigureView::Rpm(*v),
            Figure::Fps(v) => FigureView::Fps(*v),
            Figure::Latency(v) => FigureView::Latency(*v),
            Figure::Frametime(v) => FigureView::Frametime(*v),
        }
    }
}

pub open spec fn figure_view(value: Option<Figure>) -> Option<FigureView> {
    match value {
        Some(value) => Some(value@),
        None => None,
    }
}

#[derive(Debug, PartialEq)]
pub enum HudItem {
    /// The bar with the buttons.
    Header,
    Divider,
    /// A heading with its number.
    Title { title: String, value: Figure, title_color: u32, value_color: u32 },
    /// A heading with its number in large digits.
    BigTitle { title: String, value: Figure, title_color: u32, value_color: u32 },
    Row { label: &'static str, value: Figure, label_color: u32, color: u32 },
    Caption(String),
    /// The loads of the cores.
    CoreBars { color: u32 },
    /// The clocks of the cores.
    CoreClocks { label: &'static str, label_color: u32, color: u32 },
    Graph { color: u32 },
    /// The time of the last frame, under the graph.
    Frametime { value: Figure, color: u32 },
}

pub enum HudView {
    Header,
    Divider,
    Title { title: Seq<char>, value: FigureView, title_color: u32, value_color: u32 },
    BigTitle { title: Seq<char>, value: FigureView, title_color: u32, value_color: u32 },
    Row { label: Seq<char>, value: FigureView, label_color: u32, color: u32 },
    Caption(Seq<char>),
    CoreBars { color: u32 },
    CoreClocks { label: Seq<char>, label_color: u32, color: u32 },
    Graph { color: u32 },
    Frametime { value: FigureView, color: u32 },
}

impl View for HudItem {
    type V = HudView;

    open spec fn view(&self) -> HudView {
        match self {
            HudItem::Header => HudView::Header,
            HudItem::Divider => HudView::Divider,
            HudItem::Title { title, value, title_color, value_color } => HudView::Title {
                title: title@,
                value: value@,
                title_color: *title_color,
                value_color: *value_color,
            },
            HudItem::BigTitle { title, value, title_color, value_color } => HudView::BigTitle {
                title: title@,
                value: value@,
                title_color: *title_color,
                value_color: *value_color,
            },
            HudItem::Row { label, value, label_color, color } => HudView::Row {
                label: label@,
                value: value@,
                label_color: *label_color,
                color: *color,
            },
            HudItem::Caption(text) => HudView::Caption(text@),
            HudItem::CoreBars { color } => HudView::CoreBars { color: *color },
            HudItem::CoreClocks { label, label_color, color } => HudView::CoreClocks {
                label: label@,
                label_color: *label_color,
                color: *color,
            },
            HudItem::Graph { color } => HudView::Graph { color: *color },
            HudItem::Frametime { value, color } => HudView::Frametime {
                value: value@,
                color: *color,
            },
        }
    }
}

pub open spec fn hud_views(items: Seq<HudItem>) -> Seq<HudView> {
    items.map_values(|item: HudItem| item@)
}

/// The rows that have shown a value. Such a row keeps its place when the value is gone, or the
/// layout would jump with every gap of a sensor.
#[derive(Debug, PartialEq)]
pub struct SeenRows {
    pub rows: Vec<Metric>,
}

impl View for SeenRows {
    type V = Set<Metric>;

    open spec fn view(&self) -> Set<Metric> {
        self.rows@.to_set()
    }
}

impl SeenRows {
    pub fn new() -> (r: SeenRows)
        ensures
            r@ == Set::<Metric>::empty(),
    {
        let r = SeenRows { rows: Vec::new() };
        proof {
            assert(r@ =~= Set::<Metric>::empty());
        }
        r
    }

    pub fn contains(&self, metric: Metric) -> (r: bool)
        ensures
            r == self@.contains(metric),
    {
        let mut i: usize = 0;
        while i < self.rows.len()
            invariant
                i <= self.rows.len(),
                forall|j: int| 0 <= j < i ==> self.rows@[j] != metric,
            decreases self.rows.len() - i,
        {
            if self.rows[i] == metric {
                proof {
                    assert(self.rows@.contains(metric));
                }
                return true;
            }
            i += 1;
        }
        false
    }

    pub fn insert(&mut self, metric: Metric)
        ensures
            final(self)@ == old(self)@.insert(metric),
    {
        let ghost before = self.rows@;
        if !self.contains(metric) {
            self.rows.push(metric);
            proof {
                assert(self.rows@ == before.push(metric));
                assert forall|m: Metric| self.rows@.contains(m) == (before.contains(m) || m
                    == metric) by {
                    if before.contains(m) {
                        let i = choose|i: int| 0 <= i < before.len() && before[i] == m;
                        assert(self.rows@[i] == m);
                    }
                    assert(self.rows@[before.len() as int] == metric);
                }
            }
        }
        proof {
            assert(self@ =~= old(self)@.insert(metric));
        }
    }
}

/// The overlay as far as it is laid out.
#[verifier::ext_equal]
pub struct Hud {
    pub items: Seq<HudView>,
    pub seen: Set<Metric>,
}

/// What the rows of a block go by.
pub struct Look {
    pub metrics: MetricsView,
    pub warming_up: bool,
    pub palette: Palette,
}

/// A value, or what stands in its place: dots before the first measurement, a dash after it.
pub open spec fn shown(value: Option<FigureView>, warming_up: bool) -> FigureView {
    match value {
        Some(value) => value,
        None => FigureView::Text(
            if warming_up {
                crate::format::WARMING_UP@
            } else {
                crate::format::EMPTY@
            },
        ),
    }
}

pub(crate) fn value_or_empty(value: Option<Figure>, warming_up: bool) -> (r: Figure)
    ensures
        r@ == shown(figure_view(value), warming_up),
{
    match value {
        Some(value) => value,
        None => Figure::Text(
            if warming_up {
                crate::format::WARMING_UP.to_string()
            } else {
                crate::format::EMPTY.to_string()
            },
        ),
    }
}

/// A row after the settings. With unavailable rows hidden, a row that never had a value is left
/// out, unless its value comes late by nature or nothing was measured yet.
pub open spec fn with_row(
    hud: Hud,
    look: Look,
    metric: Metric,
    label: Seq<char>,
    value: Option<FigureView>,
    color: u32,
    always_visible: bool,
) -> Hud {
    if !look.metrics.shows(metric) {
        hud
    } else {
        let seen = if value is Some {
            hud.seen.insert(metric)
        } else {
            hud.seen
        };
        let hidden = look.metrics.hide_unavailable && !always_visible && !look.warming_up
            && !seen.contains(metric);
        if value is None && hidden {
            Hud { seen, ..hud }
        } else {
            Hud {
                items: hud.items.push(
                    HudView::Row {
                        label,
                        value: shown(value, look.warming_up),
                        label_color: look.palette.labels,
                        color,
                    },
                ),
                seen,
            }
        }
    }
}

/// An overlay that is being laid out.
pub struct Layout {
    pub items: Vec<HudItem>,
    pub seen: SeenRows,
}

impl View for Layout {
    type V = Hud;

    open spec fn view(&self) -> Hud {
        Hud { items: hud_views(self.items@), seen: self.seen@ }
    }
}

/// What the rows of a block go by.
pub struct Rows<'a> {
    pub settings: &'a Settings,
    pub warming_up: bool,
    pub palette: Palette,
}

impl<'a> Rows<'a> {
    pub open spec fn look(self) -> Look {
        Look {
            metrics: self.settings@.metrics,
            warming_up: self.warming_up,
            palette: self.palette,
        }
    }
}

impl Layout {
    fn put(&mut self, item: HudItem)
        ensures
            final(self)@ == (Hud { items: old(self)@.items.push(item@), ..old(self)@ }),
    {
        let ghost before = self.items@;
        self.items.push(item);
        proof {
            assert(hud_views(self.items@) =~= hud_views(before).push(item@));
        }
    }

    fn colored_row(
        &mut self,
        rows: &Rows,
        metric: Metric,
        label: &'static str,
        value: Option<Figure>,
        color: u32,
        always_visible: bool,
    )
        ensures
            final(self)@ == with_row(
                old(self)@,
                rows.look(),
                metric,
                label@,
                figure_view(value),
                color,
                always_visible,
            ),
    {
        if !rows.settings.metrics.is_enabled(metric) {
            return ;
        }
        if value.is_some() {
            self.seen.insert(metric);
        }
        let hidden = rows.settings.metrics.hide_unavailable && !always_visible && !rows.warming_up
            && !self.seen.contains(metric);
        if value.is_none() && hidden {
            return ;
        }
        let text = value_or_empty(value, rows.warming_up);
        self.put(
            HudItem::Row { label, value: text, label_color: rows.palette.labels, color },
        );
    }

    fn row(&mut self, rows: &Rows, metric: Metric, label: &'static str, value: Option<Figure>)
        ensures
            final(self)@ == with_row(
                old(self)@,
                rows.look(),
                metric,
                label@,
                figure_view(value),
                rows.palette.values,
                false,
            ),
    {
        self.colored_row(rows, metric, label, value, rows.palette.values, false);
    }
}

/// A row that has shown a value stays, whatever becomes of the value: once seen, a row that is
/// switched on takes a place.
pub proof fn law_seen_rows_keep_their_place(
    hud: Hud,
    look: Look,
    metric: Metric,
    label: Seq<char>,
    value: Option<FigureView>,
    color: u32,
    always_visible: bool,
)
    requires
        look.metrics.shows(metric),
        hud.seen.contains(metric) || value is Some || look.warming_up || always_visible
            || !look.metrics.hide_unavailable,
    ensures
        ({
            let after = with_row(hud, look, metric, label, value, color, always_visible);
            &&& after.items.len() == hud.items.len() + 1
            &&& value is Some ==> after.seen.contains(metric)
        }),
{
}

/// A row that is switched off takes no place and leaves no trace.
pub proof fn law_switched_off_rows_leave_no_trace(
    hud: Hud,
    look: Look,
    metric: Metric,
    label: Seq<char>,
    value: Option<FigureView>,
    color: u32,
    always_visible: bool,
)
    requires
        !look.metrics.shows(metric),
    ensures
        with_row(hud, look, metric, label, value, color, always_visible) == hud,
{
}

/// What was seen stays seen.
pub proof fn law_seen_rows_only_grow(
    hud: Hud,
    look: Look,
    metric: Metric,
    label: Seq<char>,
    value: Option<FigureView>,
    color: u32,
    always_visible: bool,
    other: Metric,
)
    requires
        hud.seen.contains(other),
    ensures
        with_row(hud, look, metric, label, value, color, always_visible).seen.contains(other),
{
}

// --- values ---

/// The name of a device, shortened.
pub open spec fn device_name(name: Option<String>) -> Option<Seq<char>> {
    match name {
        Some(name) => Some(crate::format::short_name(name@)),
        None => None,
    }
}

/// The heading of a block with the name of its device.
pub open spec fn heading_of(block: BlockView, standard: Seq<char>, name: Option<String>) -> Seq<
    char,
> {
    block.heading_for(standard, device_name(name))
}

pub(crate) fn block_heading(block: &Block, standard: &str, name: &Option<String>) -> (r: String)
    ensures
        r@ == heading_of(block@, standard@, *name),
{
    match name {
        Some(name) => {
            let short = crate::format::short_device_name(name.as_str());
            block.heading(standard, Some(short.as_str()))
        },
        None => block.heading(standard, None),
    }
}

pub open spec fn percent_of(value: Option<Double>) -> Option<FigureView> {
    match value {
        Some(v) => Some(FigureView::Percent(v)),
        None => None,
    }
}

pub(crate) fn percent(value: Option<Double>) -> (r: Option<Figure>)
    ensures
        figure_view(r) == percent_of(value),
{
    match value {
        Some(v) => Some(Figure::Percent(v)),
        None => None,
    }
}

pub open spec fn degrees_of(value: Option<Double>, unit: Temperature) -> Option<FigureView> {
    match value {
        Some(v) => Some(FigureView::Temperature(v, unit)),
        None => None,
    }
}

pub(crate) fn degrees(value: Option<Double>, unit: Temperature) -> (r: Option<Figure>)
    ensures
        figure_view(r) == degrees_of(value, unit),
{
    match value {
        Some(v) => Some(Figure::Temperature(v, unit)),
        None => None,
    }
}

/// The clock from which the unit changes by itself: the bits of 1000 megahertz.
pub const AUTO_GIGAHERTZ: u64 = 0x408f_4000_0000_0000;

/// Whether a clock is shown in gigahertz. By itself the unit changes at a thousand megahertz.
pub open spec fn shows_gigahertz(value: Double, unit: Frequency) -> bool {
    match unit {
        Frequency::Auto => value.not_below(Double { bits: AUTO_GIGAHERTZ }),
        Frequency::Mhz => false,
        Frequency::Ghz => true,
    }
}

pub open spec fn frequency_of(value: Option<Double>, unit: Frequency) -> Option<FigureView> {
    match value {
        Some(v) => Some(
            if shows_gigahertz(v, unit) {
                FigureView::Gigahertz(v)
            } else {
                FigureView::Megahertz(v)
            },
        ),
        None => None,
    }
}

pub(crate) fn frequency(value: Option<Double>, unit: Frequency) -> (r: Option<Figure>)
    ensures
        figure_view(r) == frequency_of(value, unit),
{
    match value {
        Some(v) => {
            let gigahertz = match unit {
                Frequency::Auto => v.at_least(Double { bits: AUTO_GIGAHERTZ }),
                Frequency::Mhz => false,
                Frequency::Ghz => true,
            };
            Some(
                if gigahertz {
                    Figure::Gigahertz(v)
                } else {
                    Figure::Megahertz(v)
                },
            )
        },
        None => None,
    }
}

pub open spec fn power_of(value: Option<Double>) -> Option<FigureView> {
    match value {
        Some(v) => Some(FigureView::Power(v)),
        None => None,
    }
}

pub(crate) fn power(value: Option<Double>) -> (r: Option<Figure>)
    ensures
        figure_view(r) == power_of(value),
{
    match value {
        Some(v) => Some(Figure::Power(v)),
        None => None,
    }
}

fn rpm(value: Option<Double>) -> (r: Option<Figure>)
    ensures
        figure_view(r) == (match value {
            Some(v) => Some(FigureView::Rpm(v)),
            None => None,
        }),
{
    match value {
        Some(v) => Some(Figure::Rpm(v)),
        None => None,
    }
}

/// A text as a value.
pub open spec fn text_figure(text: Option<Seq<char>>) -> Option<FigureView> {
    match text {
        Some(text) => Some(FigureView::Text(text)),
        None => None,
    }
}

pub(crate) fn worded(text: Option<String>) -> (r: Option<Figure>)
    ensures
        figure_view(r) == text_figure(text_of(text)),
{
    match text {
        Some(text) => Some(Figure::Text(text)),
        None => None,
    }
}

/// An amount of memory as a value.
pub open spec fn amount_of(value: Option<u64>, unit: crate::units::Memory) -> Option<FigureView> {
    match value {
        Some(v) => Some(FigureView::Text(crate::format::amount_text(v, unit))),
        None => None,
    }
}

pub(crate) fn amount(value: Option<u64>, unit: crate::units::Memory) -> (r: Option<Figure>)
    ensures
        figure_view(r) == amount_of(value, unit),
{
    match value {
        Some(v) => Some(Figure::Text(crate::format::bytes(v, unit))),
        None => None,
    }
}

/// A frame rate that is a number, while frames are being delivered: an old average is worse than
/// a dash.
pub open spec fn rate_of(value: Option<Double>, delivering: bool) -> Option<FigureView> {
    match value {
        Some(v) if delivering && v.finite() => Some(FigureView::Fps(v)),
        _ => None,
    }
}

pub(crate) fn rate(value: Option<Double>, delivering: bool) -> (r: Option<Figure>)
    ensures
        figure_view(r) == rate_of(value, delivering),
{
    match value {
        Some(v) => if delivering && v.is_finite() {
            Some(Figure::Fps(v))
        } else {
            None
        },
        None => None,
    }
}

pub open spec fn latency_of(value: Option<Double>, delivering: bool) -> Option<FigureView> {
    match value {
        Some(v) if delivering && v.finite() => Some(FigureView::Latency(v)),
        _ => None,
    }
}

pub(crate) fn latency(value: Option<Double>, delivering: bool) -> (r: Option<Figure>)
    ensures
        figure_view(r) == latency_of(value, delivering),
{
    match value {
        Some(v) => if delivering && v.is_finite() {
            Some(Figure::Latency(v))
        } else {
            None
        },
        None => None,
    }
}

pub open spec fn frametime_of(value: Option<Double>, delivering: bool) -> Option<FigureView> {
    match value {
        Some(v) if delivering && v.finite() => Some(FigureView::Frametime(v)),
        _ => None,
    }
}

fn frametime(value: Option<Double>, delivering: bool) -> (r: Option<Figure>)
    ensures
        figure_view(r) == frametime_of(value, delivering),
{
    match value {
        Some(v) => if delivering && v.is_finite() {
            Some(Figure::Frametime(v))
        } else {
            None
        },
        None => None,
    }
}

/// The colour of a load: where loads are coloured it turns yellow and red.
pub open spec fn load_tint(block: BlockView, load: Option<Double>, normal: u32) -> u32 {
    if block.thresholds.color_load {
        level_color(
            level_of(
                load,
                Double { bits: LOAD_WARN_PERCENT },
                Double { bits: LOAD_CRITICAL_PERCENT },
            ),
            normal,
        )
    } else {
        normal
    }
}

pub(crate) fn load_color(block: &Block, load: Option<Double>, normal: u32) -> (r: u32)
    ensures
        r == load_tint(block@, load, normal),
{
    if block.thresholds.color_load {
        for_level(
            level(
                load,
                Double { bits: LOAD_WARN_PERCENT },
                Double { bits: LOAD_CRITICAL_PERCENT },
            ),
            normal,
        )
    } else {
        normal
    }
}

/// The colour of a temperature by the thresholds of its block.
pub open spec fn temperature_tint(block: BlockView, value: Option<Double>, normal: u32) -> u32 {
    level_color(
        level_of(value, block.thresholds.warn_c.wide(), block.thresholds.critical_c.wide()),
        normal,
    )
}

pub(crate) fn temperature_color(block: &Block, value: Option<Double>, normal: u32) -> (r: u32)
    ensures
        r == temperature_tint(block@, value, normal),
{
    for_level(
        level(value, block.thresholds.warn_c.widened(), block.thresholds.critical_c.widened()),
        normal,
    )
}

// --- blocks ---

/// Why a block is not filled, in one line.
pub open spec fn with_health(hud: Hud, health: SectionHealth) -> Hud {
    match health.reason {
        Some(reason) if !(health.status is Available) => Hud {
            items: hud.items.push(HudView::Caption(reason@)),
            ..hud
        },
        _ => hud,
    }
}

/// A heading with a load.
pub open spec fn with_load(
    hud: Hud,
    block: BlockView,
    look: Look,
    heading: Seq<char>,
    load: Option<Double>,
) -> Hud {
    Hud {
        items: hud.items.push(
            HudView::Title {
                title: heading,
                value: shown(percent_of(load), look.warming_up),
                title_color: look.palette.header,
                value_color: load_tint(block, load, look.palette.header),
            },
        ),
        ..hud
    }
}

/// The rows of a block go by its colours.
pub open spec fn look_of(settings: SettingsView, warming_up: bool, block: BlockView) -> Look {
    Look { metrics: settings.metrics, warming_up, palette: palette_of(block.colors) }
}

/// The block of the graphics card.
pub open spec fn gpu_block(hud: Hud, snapshot: Snapshot, settings: SettingsView) -> Hud {
    let block = settings.blocks.gpu;
    let gpu = snapshot.gpu;
    let units = settings.units;
    let look = look_of(settings, snapshot.warming_up, block);
    let values = look.palette.values;
    let hud = with_load(hud, block, look, heading_of(block, "GPU"@, gpu.name), gpu.load_percent);
    let hud = with_row(
        hud,
        look,
        Metric::GpuTemperature,
        "Temp"@,
        degrees_of(gpu.temperature_c, units.temperature),
        temperature_tint(block, gpu.temperature_c, values),
        false,
    );
    let hud = with_row(
        hud,
        look,
        Metric::GpuClock,
        "Clock"@,
        frequency_of(gpu.core_clock_mhz, units.frequency),
        values,
        false,
    );
    let hud = with_row(
        hud,
        look,
        Metric::GpuMemoryClock,
        "Mem Clock"@,
        frequency_of(gpu.memory_clock_mhz, units.frequency),
        values,
        false,
    );
    let hud = with_row(
        hud,
        look,
        Metric::GpuVram,
        "VRAM"@,
        text_figure(
            crate::format::pair_text(gpu.vram_used_bytes, gpu.vram_total_bytes, units.memory),
        ),
        values,
        false,
    );
    let hud = with_row(
        hud,
        look,
        Metric::GpuPower,
        "Power"@,
        power_of(gpu.power_watts),
        values,
        false,
    );
    let hud = with_row(
        hud,
        look,
        Metric::GpuFan,
        "Fan"@,
        match gpu.fan_rpm {
            Some(v) => Some(FigureView::Rpm(v)),
            None => None,
        },
        values,
        false,
    );
    let hud = with_row(
        hud,
        look,
        Metric::GpuFanPercent,
        "Fan %"@,
        percent_of(gpu.fan_percent),
        values,
        false,
    );
    with_health(hud, gpu.health)
}

/// A row of clocks of one kind of cores.
pub open spec fn clock_row(
    hud: Hud,
    look: Look,
    label: Seq<char>,
    clock: Option<Double>,
    unit: Frequency,
) -> Hud {
    with_row(
        hud,
        look,
        Metric::CpuHybridClock,
        label,
        frequency_of(clock, unit),
        look.palette.values,
        false,
    )
}

/// The block of the processor. The rows of the two kinds of cores are there only where a
/// processor has both.
pub open spec fn cpu_block(hud: Hud, snapshot: Snapshot, settings: SettingsView) -> Hud {
    let block = settings.blocks.cpu;
    let cpu = snapshot.cpu;
    let units = settings.units;
    let look = look_of(settings, snapshot.warming_up, block);
    let values = look.palette.values;
    let hud = with_load(hud, block, look, heading_of(block, "CPU"@, cpu.name), cpu.load_percent);
    let hud = with_row(
        hud,
        look,
        Metric::CpuTemperature,
        "Temp"@,
        degrees_of(cpu.temperature_c, units.temperature),
        temperature_tint(block, cpu.temperature_c, values),
        false,
    );
    let hud = with_row(
        hud,
        look,
        Metric::CpuClock,
        "Clock"@,
        frequency_of(cpu.clock_mhz, units.frequency),
        values,
        false,
    );
    let hud = match cpu.hybrid_clocks {
        Some(hybrid) => clock_row(
            clock_row(hud, look, "P-Clock"@, hybrid.performance_mhz, units.frequency),
            look,
            "E-Clock"@,
            hybrid.efficient_mhz,
            units.frequency,
        ),
        None => hud,
    };
    let hud = with_row(
        hud,
        look,
        Metric::CpuPower,
        "Power"@,
        power_of(cpu.power_watts),
        values,
        false,
    );
    let hud = if look.metrics.shows(Metric::CpuCoreLoad) && cpu.cores@.len() > 0 {
        Hud {
            items: hud.items.push(HudView::CoreBars { color: look.palette.accent }),
            ..hud
        }
    } else {
        hud
    };
    let hud = if look.metrics.shows(Metric::CpuCoreClock) && any_clock(cpu.cores@) {
        Hud {
            items: hud.items.push(
                HudView::CoreClocks {
                    label: core_label(units.frequency),
                    label_color: look.palette.labels,
                    color: values,
                },
            ),
            ..hud
        }
    } else {
        hud
    };
    with_health(hud, cpu.health)
}

/// Whether the clock of some core is known.
pub open spec fn any_clock(cores: Seq<crate::snapshot::CoreStats>) -> bool {
    exists|i: int| 0 <= i < cores.len() && (#[trigger] cores[i]).clock_mhz is Some
}

/// What the clocks of the cores are called: the unit stands in the label.
pub open spec fn core_label(unit: Frequency) -> Seq<char> {
    if unit is Mhz {
        "Cores, MHz"@
    } else {
        "Cores, GHz"@
    }
}

/// The block of the memory.
pub open spec fn memory_block(hud: Hud, snapshot: Snapshot, settings: SettingsView) -> Hud {
    let block = settings.blocks.ram;
    let memory = snapshot.memory;
    let unit = settings.units.memory;
    let look = look_of(settings, snapshot.warming_up, block);
    let values = look.palette.values;
    let hud = Hud {
        items: hud.items.push(
            HudView::Title {
                title: block.heading_for("RAM"@, None),
                value: shown(percent_of(memory.load_percent), look.warming_up),
                title_color: look.palette.header,
                value_color: look.palette.header,
            },
        ),
        ..hud
    };
    let hud = with_row(
        hud,
        look,
        Metric::RamUsed,
        "Used"@,
        text_figure(crate::format::pair_text(memory.used_bytes, memory.total_bytes, unit)),
        values,
        false,
    );
    let hud = with_row(
        hud,
        look,
        Metric::RamProcess,
        "App"@,
        amount_of(memory.process_bytes, unit),
        values,
        false,
    );
    let hud = with_row(
        hud,
        look,
        Metric::RamSpeed,
        "Speed"@,
        match memory.speed_mhz {
            Some(mhz) => Some(
                FigureView::Text(crate::text::decimal(mhz as nat) + " MHz"@),
            ),
            None => None,
        },
        values,
        false,
    );
    with_health(hud, memory.health)
}

/// Whose frames these are, or why there are none: the name of the process can be left out, the
/// reason cannot.
pub open spec fn frames_caption(fps: FpsState, metrics: MetricsView) -> Option<Seq<char>> {
    if metrics.shows(Metric::FpsTarget) {
        text_of(fps.summary)
    } else {
        text_of(fps.message)
    }
}

/// The block of the frames.
pub open spec fn fps_block(
    hud: Hud,
    snapshot: Snapshot,
    settings: SettingsView,
    resolution: Option<(u32, u32)>,
) -> Hud {
    let block = settings.blocks.fps;
    let state = snapshot.fps;
    let look = look_of(settings, snapshot.warming_up, block);
    let values = look.palette.values;
    let delivering = state.availability is Available;
    let stats = state.statistics;
    let hud = Hud {
        items: hud.items.push(
            HudView::BigTitle {
                title: block.heading_for("FPS"@, None),
                value: shown(rate_of(stats.current_fps, delivering), look.warming_up),
                title_color: look.palette.header,
                value_color: look.palette.accent,
            },
        ),
        ..hud
    };
    let hud = with_row(
        hud,
        look,
        Metric::FpsAverage,
        "AVG"@,
        rate_of(stats.average_fps, delivering),
        values,
        true,
    );
    let hud = with_row(
        hud,
        look,
        Metric::FpsLow1,
        "1% LOW"@,
        rate_of(stats.low_1_percent_fps, delivering),
        values,
        true,
    );
    let hud = with_row(
        hud,
        look,
        Metric::FpsLow01,
        "0.1% LOW"@,
        rate_of(stats.low_0_1_percent_fps, delivering),
        values,
        true,
    );
    let hud = with_row(
        hud,
        look,
        Metric::FpsLatency,
        "LAT"@,
        latency_of(state.latency_ms, delivering),
        values,
        false,
    );
    let api = if delivering {
        text_of(state.api)
    } else {
        None
    };
    let size = if state.target is Some {
        resolution
    } else {
        None
    };
    let hud = with_row(
        hud,
        look,
        Metric::FpsApi,
        "API"@,
        text_figure(crate::format::api_text(api, size)),
        values,
        false,
    );
    let hud = match frames_caption(state, settings.metrics) {
        Some(text) => Hud { items: hud.items.push(HudView::Caption(text)), ..hud },
        None => hud,
    };
    if settings.overlay.show_graph {
        Hud {
            items: hud.items.push(HudView::Graph { color: look.palette.accent }).push(
                HudView::Frametime {
                    value: shown(frametime_of(stats.current_frametime_ms, delivering), false),
                    color: look.palette.labels,
                },
            ),
            ..hud
        }
    } else {
        hud
    }
}

impl Layout {
    fn health_note(&mut self, health: &SectionHealth)
        ensures
            final(self)@ == with_health(old(self)@, *health),
    {
        if health.status == crate::snapshot::SensorStatus::Available {
            return ;
        }
        if let Some(reason) = &health.reason {
            self.put(HudItem::Caption(reason.clone()));
        }
    }

    fn load_title(&mut self, rows: &Rows, block: &Block, heading: String, load: Option<Double>)
        ensures
            final(self)@ == with_load(old(self)@, block@, rows.look(), heading@, load),
    {
        let value = value_or_empty(percent(load), rows.warming_up);
        let color = load_color(block, load, rows.palette.header);
        self.put(
            HudItem::Title {
                title: heading,
                value,
                title_color: rows.palette.header,
                value_color: color,
            },
        );
    }

    fn gpu(&mut self, snapshot: &Snapshot, settings: &Settings)
        ensures
            final(self)@ == gpu_block(old(self)@, *snapshot, settings@),
    {
        let block = &settings.blocks.gpu;
        let rows = Rows {
            settings,
            warming_up: snapshot.warming_up,
            palette: Palette::of(&block.colors),
        };
        let gpu = &snapshot.gpu;
        let units = settings.units;
        self.load_title(&rows, block, block_heading(block, "GPU", &gpu.name), gpu.load_percent);
        let color = temperature_color(block, gpu.temperature_c, rows.palette.values);
        self.colored_row(
            &rows,
            Metric::GpuTemperature,
            "Temp",
            degrees(gpu.temperature_c, units.temperature),
            color,
            false,
        );
        self.row(
            &rows,
            Metric::GpuClock,
            "Clock",
            frequency(gpu.core_clock_mhz, units.frequency),
        );
        self.row(
            &rows,
            Metric::GpuMemoryClock,
            "Mem Clock",
            frequency(gpu.memory_clock_mhz, units.frequency),
        );
        self.row(
            &rows,
            Metric::GpuVram,
            "VRAM",
            worded(
                crate::format::bytes_pair(
                    gpu.vram_used_bytes,
                    gpu.vram_total_bytes,
                    units.memory,
                ),
            ),
        );
        self.row(&rows, Metric::GpuPower, "Power", power(gpu.power_watts));
        self.row(&rows, Metric::GpuFan, "Fan", rpm(gpu.fan_rpm));
        self.row(&rows, Metric::GpuFanPercent, "Fan %", percent(gpu.fan_percent));
        self.health_note(&gpu.health);
    }

    fn cpu(&mut self, snapshot: &Snapshot, settings: &Settings)
        ensures
            final(self)@ == cpu_block(old(self)@, *snapshot, settings@),
    {
        let block = &settings.blocks.cpu;
        let rows = Rows {
            settings,
            warming_up: snapshot.warming_up,
            palette: Palette::of(&block.colors),
        };
        let cpu = &snapshot.cpu;
        let units = settings.units;
        self.load_title(&rows, block, block_heading(block, "CPU", &cpu.name), cpu.load_percent);
        let color = temperature_color(block, cpu.temperature_c, rows.palette.values);
        self.colored_row(
            &rows,
            Metric::CpuTemperature,
            "Temp",
            degrees(cpu.temperature_c, units.temperature),
            color,
            false,
        );
        self.row(&rows, Metric::CpuClock, "Clock", frequency(cpu.clock_mhz, units.frequency));
        if let Some(hybrid) = &cpu.hybrid_clocks {
            self.row(
                &rows,
                Metric::CpuHybridClock,
                "P-Clock",
                frequency(hybrid.performance_mhz, units.frequency),
            );
            self.row(
                &rows,
                Metric::CpuHybridClock,
                "E-Clock",
                frequency(hybrid.efficient_mhz, units.frequency),
            );
        }
        self.row(&rows, Metric::CpuPower, "Power", power(cpu.power_watts));
        if settings.metrics.is_enabled(Metric::CpuCoreLoad) && cpu.cores.len() > 0 {
            self.put(HudItem::CoreBars { color: rows.palette.accent });
        }
        if settings.metrics.is_enabled(Metric::CpuCoreClock) && clock_known(&cpu.cores) {
            let label = match units.frequency {
                Frequency::Mhz => "Cores, MHz",
                _ => "Cores, GHz",
            };
            self.put(
                HudItem::CoreClocks {
                    label,
                    label_color: rows.palette.labels,
                    color: rows.palette.values,
                },
            );
        }
        self.health_note(&cpu.health);
    }

    fn memory(&mut self, snapshot: &Snapshot, settings: &Settings)
        ensures
            final(self)@ == memory_block(old(self)@, *snapshot, settings@),
    {
        let block = &settings.blocks.ram;
        let rows = Rows {
            settings,
            warming_up: snapshot.warming_up,
            palette: Palette::of(&block.colors),
        };
        let memory = &snapshot.memory;
        let unit = settings.units.memory;
        let load = value_or_empty(percent(memory.load_percent), rows.warming_up);
        self.put(
            HudItem::Title {
                title: block.heading("RAM", None),
                value: load,
                title_color: rows.palette.header,
                value_color: rows.palette.header,
            },
        );
        self.row(
            &rows,
            Metric::RamUsed,
            "Used",
            worded(crate::format::bytes_pair(memory.used_bytes, memory.total_bytes, unit)),
        );
        self.row(&rows, Metric::RamProcess, "App", amount(memory.process_bytes, unit));
        let speed = match memory.speed_mhz {
            Some(mhz) => Some(Figure::Text(crate::format::memory_speed(mhz))),
            None => None,
        };
        self.row(&rows, Metric::RamSpeed, "Speed", speed);
        self.health_note(&memory.health);
    }

    fn fps(
        &mut self,
        snapshot: &Snapshot,
        settings: &Settings,
        resolution: Option<(u32, u32)>,
    )
        ensures
            final(self)@ == fps_block(old(self)@, *snapshot, settings@, resolution),
    {
        let block = &settings.blocks.fps;
        let rows = Rows {
            settings,
            warming_up: snapshot.warming_up,
            palette: Palette::of(&block.colors),
        };
        let palette = rows.palette;
        let state = &snapshot.fps;
        let delivering = state.availability.is_available();
        let stats = state.statistics;
        let current = value_or_empty(rate(stats.current_fps, delivering), rows.warming_up);
        self.put(
            HudItem::BigTitle {
                title: block.heading("FPS", None),
                value: current,
                title_color: palette.header,
                value_color: palette.accent,
            },
        );
        self.colored_row(
            &rows,
            Metric::FpsAverage,
            "AVG",
            rate(stats.average_fps, delivering),
            palette.values,
            true,
        );
        self.colored_row(
            &rows,
            Metric::FpsLow1,
            "1% LOW",
            rate(stats.low_1_percent_fps, delivering),
            palette.values,
            true,
        );
        self.colored_row(
            &rows,
            Metric::FpsLow01,
            "0.1% LOW",
            rate(stats.low_0_1_percent_fps, delivering),
            palette.values,
            true,
        );
        self.row(&rows, Metric::FpsLatency, "LAT", latency(state.latency_ms, delivering));
        let api: Option<&str> = match &state.api {
            Some(api) => if delivering {
                Some(api.as_str())
            } else {
                None
            },
            None => None,
        };
        let size = if state.target.is_some() {
            resolution
        } else {
            None
        };
        self.row(
            &rows,
            Metric::FpsApi,
            "API",
            worded(crate::format::api_and_resolution(api, size)),
        );
        let caption = if settings.metrics.is_enabled(Metric::FpsTarget) {
            crate::settings::copy_text(&state.summary)
        } else {
            crate::settings::copy_text(&state.message)
        };
        if let Some(text) = caption {
            self.put(HudItem::Caption(text));
        }
        if settings.overlay.show_graph {
            self.put(HudItem::Graph { color: palette.accent });
            let value = value_or_empty(
                frametime(stats.current_frametime_ms, delivering),
                false,
            );
            self.put(HudItem::Frametime { value, color: palette.labels });
        }
    }
}

fn clock_known(cores: &Vec<crate::snapshot::CoreStats>) -> (r: bool)
    ensures
        r == any_clock(cores@),
{
    let mut i: usize = 0;
    while i < cores.len()
        invariant
            i <= cores.len(),
            forall|j: int| 0 <= j < i ==> (#[trigger] cores@[j]).clock_mhz is None,
        decreases cores.len() - i,
    {
        if cores[i].clock_mhz.is_some() {
            return true;
        }
        i += 1;
    }
    false
}

// --- the whole ---

/// Whether a block has anything to show. The frames always have: that there are none is a
/// message too.
pub open spec fn has_values(snapshot: Snapshot, kind: BlockKind) -> bool {
    match kind {
        BlockKind::Gpu => snapshot.gpu.has_any_value,
        BlockKind::Cpu => snapshot.cpu.has_any_value,
        BlockKind::Ram => snapshot.memory.has_any_value,
        BlockKind::Fps => true,
    }
}

/// Whether a block is shown: with unavailable rows hidden, an empty block is left out.
pub open spec fn block_visible(snapshot: Snapshot, settings: SettingsView, kind: BlockKind) -> bool {
    settings.blocks.of(kind).enabled && (!settings.metrics.hide_unavailable || snapshot.warming_up
        || has_values(snapshot, kind))
}

pub(crate) fn shows_block(snapshot: &Snapshot, settings: &Settings, kind: BlockKind) -> (r: bool)
    ensures
        r == block_visible(*snapshot, settings@, kind),
{
    let any = match kind {
        BlockKind::Gpu => snapshot.gpu.has_any_value,
        BlockKind::Cpu => snapshot.cpu.has_any_value,
        BlockKind::Ram => snapshot.memory.has_any_value,
        BlockKind::Fps => true,
    };
    settings.blocks.get(kind).enabled && (!settings.metrics.hide_unavailable
        || snapshot.warming_up || any)
}

/// A line between two parts: none before the first.
pub open spec fn separated(hud: Hud, first: bool) -> Hud {
    if first {
        hud
    } else {
        Hud { items: hud.items.push(HudView::Divider), ..hud }
    }
}

pub open spec fn with_block(
    hud: Hud,
    snapshot: Snapshot,
    settings: SettingsView,
    resolution: Option<(u32, u32)>,
    kind: BlockKind,
) -> Hud {
    match kind {
        BlockKind::Gpu => gpu_block(hud, snapshot, settings),
        BlockKind::Cpu => cpu_block(hud, snapshot, settings),
        BlockKind::Ram => memory_block(hud, snapshot, settings),
        BlockKind::Fps => fps_block(hud, snapshot, settings, resolution),
    }
}

/// The blocks in their order, and whether anything stands above what follows.
pub open spec fn with_blocks(
    hud: Hud,
    first: bool,
    snapshot: Snapshot,
    settings: SettingsView,
    resolution: Option<(u32, u32)>,
    order: Seq<BlockKind>,
) -> (Hud, bool)
    decreases order.len(),
{
    if order.len() == 0 {
        (hud, first)
    } else {
        let (rest, first) = with_blocks(
            hud,
            first,
            snapshot,
            settings,
            resolution,
            order.drop_last(),
        );
        let kind = order.last();
        if block_visible(snapshot, settings, kind) {
            (
                with_block(separated(rest, first), snapshot, settings, resolution, kind),
                false,
            )
        } else {
            (rest, first)
        }
    }
}

/// Some notes one under another.
pub open spec fn with_notes(hud: Hud, notes: Seq<Seq<char>>) -> Hud
    decreases notes.len(),
{
    if notes.len() == 0 {
        hud
    } else {
        let rest = with_notes(hud, notes.drop_last());
        Hud { items: rest.items.push(HudView::Caption(notes.last())), ..rest }
    }
}

/// The whole overlay: the bar with the buttons unless it is off or the overlay is locked, the
/// time, the blocks in their order, and what the program has to say.
pub open spec fn hud_of(
    seen: Set<Metric>,
    snapshot: Snapshot,
    settings: SettingsView,
    notes: Seq<Seq<char>>,
    resolution: Option<(u32, u32)>,
    clock: Option<(u8, u8)>,
) -> Hud {
    let empty = Hud { items: Seq::<HudView>::empty(), seen };
    let headed = if settings.overlay.show_header && !settings.overlay.locked {
        Hud { items: empty.items.push(HudView::Header), ..empty }
    } else {
        empty
    };
    let (timed, first) = match clock {
        Some((hour, minute)) => (
            Hud {
                items: headed.items.push(
                    HudView::Title {
                        title: "Time"@,
                        value: FigureView::Text(crate::format::clock_text(hour, minute)),
                        title_color: DEFAULT_HEADER,
                        value_color: DEFAULT_HEADER,
                    },
                ),
                ..headed
            },
            false,
        ),
        None => (headed, true),
    };
    let (filled, first) = with_blocks(
        timed,
        first,
        snapshot,
        settings,
        resolution,
        settings.blocks.order,
    );
    if notes.len() == 0 {
        filled
    } else {
        with_notes(separated(filled, first), notes)
    }
}

/// Lays out the panel for a snapshot.
fn panel(
    snapshot: &Snapshot,
    settings: &Settings,
    seen: &mut SeenRows,
    extras: &Extras,
) -> (r: Vec<HudItem>)
    ensures
        (Hud { items: hud_views(r@), seen: final(seen)@ }) == hud_of(
            old(seen)@,
            *snapshot,
            settings@,
            crate::text::views(extras.notes@),
            extras.resolution,
            extras.clock,
        ),
{
    let ghost seen_before = seen@;
    let mut taken = SeenRows::new();
    std::mem::swap(seen, &mut taken);
    let mut hud = Layout { items: Vec::new(), seen: taken };
    proof {
        assert(hud_views(hud.items@) =~= Seq::<HudView>::empty());
    }
    if settings.overlay.show_header && !settings.overlay.locked {
        hud.put(HudItem::Header);
    }
    let mut first = true;
    if let Some(clock) = extras.clock {
        first = false;
        hud.put(
            HudItem::Title {
                title: "Time".to_string(),
                value: Figure::Text(crate::format::clock(clock)),
                title_color: DEFAULT_HEADER,
                value_color: DEFAULT_HEADER,
            },
        );
    }
    let ghost timed = hud@;
    let ghost was_first = first;
    let ghost order = settings@.blocks.order;
    let blocks = &settings.blocks.order;
    let mut i: usize = 0;
    proof {
        assert(order.take(0) =~= seq![]);
    }
    while i < blocks.len()
        invariant
            i <= blocks.len(),
            order == blocks@,
            (hud@, first) == with_blocks(
                timed,
                was_first,
                *snapshot,
                settings@,
                extras.resolution,
                order.take(i as int),
            ),
        decreases blocks.len() - i,
    {
        let kind = blocks[i];
        proof {
            assert(order.take(i + 1).drop_last() =~= order.take(i as int));
        }
        if shows_block(snapshot, settings, kind) {
            if !first {
                hud.put(HudItem::Divider);
            }
            first = false;
            match kind {
                BlockKind::Gpu => hud.gpu(snapshot, settings),
                BlockKind::Cpu => hud.cpu(snapshot, settings),
                BlockKind::Ram => hud.memory(snapshot, settings),
                BlockKind::Fps => hud.fps(snapshot, settings, extras.resolution),
            }
        }
        i += 1;
    }
    proof {
        assert(order.take(i as int) =~= order);
    }
    let ghost notes = crate::text::views(extras.notes@);
    if extras.notes.len() > 0 {
        if !first {
            hud.put(HudItem::Divider);
        }
        let ghost filled = hud@;
        let mut j: usize = 0;
        proof {
            assert(notes.take(0) =~= seq![]);
        }
        while j < extras.notes.len()
            invariant
                j <= extras.notes.len(),
                notes == crate::text::views(extras.notes@),
                hud@ == with_notes(filled, notes.take(j as int)),
            decreases extras.notes.len() - j,
        {
            proof {
                assert(notes.take(j + 1).drop_last() =~= notes.take(j as int));
            }
            hud.put(HudItem::Caption(extras.notes[j].clone()));
            j += 1;
        }
        proof {
            assert(notes.take(j as int) =~= notes);
        }
    }
    *seen = hud.seen;
    hud.items
}

/// The overlay in one of its two forms.
#[derive(Debug, PartialEq)]
pub enum Picture {
    Panel(Vec<HudItem>),
    Strip(Vec<StripItem>),
}

/// Lays out the overlay for a snapshot. The strip has no bar with buttons and keeps no rows.
pub fn show(
    snapshot: &Snapshot,
    settings: &Settings,
    seen: &mut SeenRows,
    extras: &Extras,
) -> (r: Picture)
    ensures
        match r {
            Picture::Strip(items) => {
                &&& settings@.overlay.mode is Strip
                &&& *final(seen) == *old(seen)
                &&& strip_views(items@) == strip_of(
                    *snapshot,
                    settings@,
                    crate::text::views(extras.notes@),
                    extras.clock,
                )
            },
            Picture::Panel(items) => {
                &&& !(settings@.overlay.mode is Strip)
                &&& (Hud { items: hud_views(items@), seen: final(seen)@ }) == hud_of(
                    old(seen)@,
                    *snapshot,
                    settings@,
                    crate::text::views(extras.notes@),
                    extras.resolution,
                    extras.clock,
                )
            },
        },
{
    match settings.overlay.mode {
        OverlayMode::Strip => Picture::Strip(crate::strip::contents(snapshot, settings, extras)),
        _ => Picture::Panel(panel(snapshot, settings, seen, extras)),
    }
}

} // verus!
