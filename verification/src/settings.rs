//! The settings of the program, their defaults and their repair.
//!
//! No file keeps the program from starting: absurd values are repaired after loading, and values
//! with which the overlay would be invisible or unreadable are replaced.

use vstd::prelude::*;

use crate::blocks::default_blocks;
use crate::blocks::Blocks;
use crate::blocks::BlocksView;
use crate::names::NameSet;
use crate::names::with_name;
use crate::names::without_name;
use crate::names::law_name_added;
use crate::names::law_name_removed;
use crate::games::answered;
use crate::games::candidate;
use crate::games::clean_name;
use crate::games::cleaned;
use crate::games::first_free;
use crate::games::name_from_path;
use crate::games::title_from_path;
use crate::games::unique_name;
use crate::games::LAST_NUMBER;
use crate::number::limited;
use crate::number::nearest_ratio;
use crate::number::of_twentieths;
use crate::number::product;
use crate::number::quotient;
use crate::number::single_extent;
use crate::number::times_twenty;
use crate::number::twentieths;
use crate::number::whole;
use crate::number::whole_single;
use crate::number::Single;
use crate::number::TWENTIETH;
use crate::paths::text_of;
use crate::placement::default_anchor;
use crate::placement::Anchor;
use crate::text::blank;
use crate::text::lowercase;
use crate::text::same_text;
use crate::text::to_lowercase;
use crate::text::trim;
use crate::text::trimmed;
use crate::text::views;
use crate::text::lemma_views_push;
use crate::units::default_units;
use crate::units::Units;

verus! {

/// The current version of the file's schema.
pub const CURRENT_VERSION: u32 = 3;

/// The limits of the overlay's scale, by their bits: a half and two.
pub const MIN_SCALE: u32 = 0x3f00_0000;

pub const MAX_SCALE: u32 = 0x4000_0000;

/// The least opacity of the background: the bits of 0.3.
pub const MIN_OPACITY: u32 = 0x3e99_999a;

/// The bits of one.
pub const ONE: u32 = 0x3f80_0000;

/// The limits of the overlay's width as a share of the usual one: the bits of 0.8 and 1.5.
pub const MIN_WIDTH_SCALE: u32 = 0x3f4c_cccd;

pub const MAX_WIDTH_SCALE: u32 = 0x3fc0_0000;

/// The limits of the height of the strip, in points.
pub const MIN_STRIP_HEIGHT: u32 = 20;

pub const MAX_STRIP_HEIGHT: u32 = 48;

/// The usual opacity: the bits of 0.85.
pub const DEFAULT_OPACITY: u32 = 0x3f59_999a;

/// The usual height of the strip: the bits of 28.
pub const DEFAULT_STRIP_HEIGHT: u32 = 0x41e0_0000;

/// How the overlay is laid out.
#[derive(Debug, Clone, Copy, PartialEq, Eq, Structural)]
pub enum OverlayMode {
    /// Blocks below each other, with all rows and the graph.
    Full,
    /// One horizontal strip: the main number of every block and a few values.
    Strip,
}

impl OverlayMode {
    pub const ALL: [OverlayMode; 2] = [OverlayMode::Full, OverlayMode::Strip];

    pub open spec fn name(self) -> Seq<char> {
        match self {
            OverlayMode::Full => "Полноразмерный"@,
            OverlayMode::Strip => "Строка"@,
        }
    }

    pub fn title(self) -> (r: &'static str)
        ensures
            r@ == self.name(),
    {
        match self {
            OverlayMode::Full => "Полноразмерный",
            OverlayMode::Strip => "Строка",
        }
    }
}

/// What to do with the overlay while a game is in exclusive full screen, where no window shows.
#[derive(Debug, Clone, Copy, PartialEq, Eq, Structural)]
pub enum FullscreenMode {
    /// Hide it.
    Hide,
    /// Move it to a monitor without the game; hide it where there is only one.
    OtherMonitor,
}

#[derive(Debug, Clone, Copy, PartialEq, Eq, Structural)]
pub struct OverlaySettings {
    /// The top left corner of the window in physical pixels of the screen.
    pub x: Option<i32>,
    pub y: Option<i32>,
    /// The opacity of the background alone; text is always opaque.
    pub opacity: Single,
    /// The scale on top of that of Windows.
    pub scale: Single,
    /// Locked: the mouse goes through to the game.
    pub locked: bool,
    pub visible: bool,
    pub always_on_top: bool,
    pub show_graph: bool,
    pub show_header: bool,
    pub fullscreen: FullscreenMode,
    /// The width as a share of the usual one.
    pub width_scale: Single,
    /// Pinned to a corner of a monitor, or standing where it was dragged.
    pub anchor: Anchor,
    pub mode: OverlayMode,
    pub strip_height: Single,
    /// A row with the time of day.
    pub show_clock: bool,
    /// Visible only while the measured game has the focus.
    pub game_only: bool,
}

pub open spec fn default_overlay() -> OverlaySettings {
    OverlaySettings {
        x: None,
        y: None,
        opacity: Single { bits: DEFAULT_OPACITY },
        scale: Single { bits: ONE },
        locked: false,
        visible: true,
        always_on_top: true,
        show_graph: true,
        show_header: true,
        fullscreen: FullscreenMode::Hide,
        width_scale: Single { bits: ONE },
        anchor: default_anchor(),
        mode: OverlayMode::Full,
        strip_height: Single { bits: DEFAULT_STRIP_HEIGHT },
        show_clock: false,
        game_only: false,
    }
}

impl Default for OverlaySettings {
    fn default() -> (r: OverlaySettings)
        ensures
            r == default_overlay(),
    {
        OverlaySettings {
            x: None,
            y: None,
            opacity: Single { bits: DEFAULT_OPACITY },
            scale: Single { bits: ONE },
            locked: false,
            visible: true,
            always_on_top: true,
            show_graph: true,
            show_header: true,
            fullscreen: FullscreenMode::Hide,
            width_scale: Single { bits: ONE },
            anchor: Anchor::default(),
            mode: OverlayMode::Full,
            strip_height: Single { bits: DEFAULT_STRIP_HEIGHT },
            show_clock: false,
            game_only: false,
        }
    }
}

/// The rows of the overlay that can be switched off.
#[derive(Debug, Clone, Copy, PartialEq, Eq, PartialOrd, Ord, Structural)]
pub enum Metric {
    GpuTemperature,
    GpuClock,
    GpuMemoryClock,
    GpuVram,
    GpuPower,
    GpuFan,
    GpuFanPercent,
    CpuTemperature,
    CpuClock,
    CpuHybridClock,
    CpuPower,
    CpuCoreLoad,
    CpuCoreClock,
    RamUsed,
    RamProcess,
    RamSpeed,
    FpsAverage,
    FpsLow1,
    FpsLow01,
    FpsLatency,
    FpsApi,
    FpsTarget,
}

impl Metric {
    pub const ALL: [Metric; 22] = [
        Metric::GpuTemperature,
        Metric::GpuClock,
        Metric::GpuMemoryClock,
        Metric::GpuVram,
        Metric::GpuPower,
        Metric::GpuFan,
        Metric::GpuFanPercent,
        Metric::CpuTemperature,
        Metric::CpuClock,
        Metric::CpuHybridClock,
        Metric::CpuPower,
        Metric::CpuCoreLoad,
        Metric::CpuCoreClock,
        Metric::RamUsed,
        Metric::RamProcess,
        Metric::RamSpeed,
        Metric::FpsAverage,
        Metric::FpsLow1,
        Metric::FpsLow01,
        Metric::FpsLatency,
        Metric::FpsApi,
        Metric::FpsTarget,
    ];

    /// Whether the row is on for those who never touched it. Bulky rows, and those that not
    /// everybody needs, are switched on by hand.
    pub open spec fn usual(self) -> bool {
        self != Metric::GpuFanPercent && self != Metric::CpuCoreLoad && self != Metric::CpuCoreClock
            && self != Metric::FpsApi
    }

    pub fn on_by_default(self) -> (r: bool)
        ensures
            r == self.usual(),
    {
        !matches!(
            self,
            Metric::GpuFanPercent | Metric::CpuCoreLoad | Metric::CpuCoreClock | Metric::FpsApi
        )
    }

    /// The name in the file.
    pub open spec fn name(self) -> Seq<char> {
        match self {
            Metric::GpuTemperature => "gpu_temperature"@,
            Metric::GpuClock => "gpu_clock"@,
            Metric::GpuMemoryClock => "gpu_memory_clock"@,
            Metric::GpuVram => "gpu_vram"@,
            Metric::GpuPower => "gpu_power"@,
            Metric::GpuFan => "gpu_fan"@,
            Metric::GpuFanPercent => "gpu_fan_percent"@,
            Metric::CpuTemperature => "cpu_temperature"@,
            Metric::CpuClock => "cpu_clock"@,
            Metric::CpuHybridClock => "cpu_hybrid_clock"@,
            Metric::CpuPower => "cpu_power"@,
            Metric::CpuCoreLoad => "cpu_core_load"@,
            Metric::CpuCoreClock => "cpu_core_clock"@,
            Metric::RamUsed => "ram_used"@,
            Metric::RamProcess => "ram_process"@,
            Metric::RamSpeed => "ram_speed"@,
            Metric::FpsAverage => "fps_average"@,
            Metric::FpsLow1 => "fps_low_1"@,
            Metric::FpsLow01 => "fps_low_0_1"@,
            Metric::FpsLatency => "fps_latency"@,
            Metric::FpsApi => "fps_api"@,
            Metric::FpsTarget => "fps_target"@,
        }
    }

    /// The name in the file. Names are kept as texts: one unknown name from another build then
    /// spoils nothing else.
    pub fn key(self) -> (r: &'static str)
        ensures
            r@ == self.name(),
    {
        match self {
            Metric::GpuTemperature => "gpu_temperature",
            Metric::GpuClock => "gpu_clock",
            Metric::GpuMemoryClock => "gpu_memory_clock",
            Metric::GpuVram => "gpu_vram",
            Metric::GpuPower => "gpu_power",
            Metric::GpuFan => "gpu_fan",
            Metric::GpuFanPercent => "gpu_fan_percent",
            Metric::CpuTemperature => "cpu_temperature",
            Metric::CpuClock => "cpu_clock",
            Metric::CpuHybridClock => "cpu_hybrid_clock",
            Metric::CpuPower => "cpu_power",
            Metric::CpuCoreLoad => "cpu_core_load",
            Metric::CpuCoreClock => "cpu_core_clock",
            Metric::RamUsed => "ram_used",
            Metric::RamProcess => "ram_process",
            Metric::RamSpeed => "ram_speed",
            Metric::FpsAverage => "fps_average",
            Metric::FpsLow1 => "fps_low_1",
            Metric::FpsLow01 => "fps_low_0_1",
            Metric::FpsLatency => "fps_latency",
            Metric::FpsApi => "fps_api",
            Metric::FpsTarget => "fps_target",
        }
    }
}

#[derive(Debug, PartialEq)]
pub struct MetricSettings {
    /// Rows switched off, of those that are usually on.
    pub disabled: NameSet,
    /// Rows switched on, of those that are usually off. A list of its own: a new row does not
    /// appear at everybody's who once switched something off.
    pub enabled: NameSet,
    /// A row that the machine never reported disappears instead of showing a dash.
    pub hide_unavailable: bool,
}

/// What [`MetricSettings`] hold: both sets as ordered names.
#[verifier::ext_equal]
pub struct MetricsView {
    pub disabled: Seq<Seq<char>>,
    pub enabled: Seq<Seq<char>>,
    pub hide_unavailable: bool,
}

impl View for MetricSettings {
    type V = MetricsView;

    open spec fn view(&self) -> MetricsView {
        MetricsView {
            disabled: self.disabled@,
            enabled: self.enabled@,
            hide_unavailable: self.hide_unavailable,
        }
    }
}

impl MetricsView {
    pub open spec fn valid(self) -> bool {
        crate::names::in_order(self.disabled) && crate::names::in_order(self.enabled)
    }

    pub open spec fn shows(self, metric: Metric) -> bool {
        if metric.usual() {
            !self.disabled.contains(metric.name())
        } else {
            self.enabled.contains(metric.name())
        }
    }

    /// The settings with a row switched on or off.
    pub open spec fn switched(self, metric: Metric, on: bool) -> MetricsView {
        if metric.usual() {
            MetricsView {
                disabled: if on {
                    without_name(self.disabled, metric.name())
                } else {
                    with_name(self.disabled, metric.name())
                },
                ..self
            }
        } else {
            MetricsView {
                enabled: if on {
                    with_name(self.enabled, metric.name())
                } else {
                    without_name(self.enabled, metric.name())
                },
                ..self
            }
        }
    }
}

pub open spec fn default_metrics() -> MetricsView {
    MetricsView { disabled: seq![], enabled: seq![], hide_unavailable: false }
}

impl Default for MetricSettings {
    fn default() -> (r: MetricSettings)
        ensures
            r@ == default_metrics(),
    {
        MetricSettings {
            disabled: NameSet::new(),
            enabled: NameSet::new(),
            hide_unavailable: false,
        }
    }
}

impl Clone for MetricSettings {
    fn clone(&self) -> (r: MetricSettings)
        ensures
            r@ == self@,
    {
        MetricSettings {
            disabled: self.disabled.copied(),
            enabled: self.enabled.copied(),
            hide_unavailable: self.hide_unavailable,
        }
    }
}

impl MetricSettings {
    pub fn is_enabled(&self, metric: Metric) -> (r: bool)
        ensures
            r == self@.shows(metric),
    {
        if metric.on_by_default() {
            !self.disabled.contains(metric.key())
        } else {
            self.enabled.contains(metric.key())
        }
    }

    pub fn set_enabled(&mut self, metric: Metric, enabled: bool)
        requires
            old(self)@.valid(),
        ensures
            final(self)@ == old(self)@.switched(metric, enabled),
            final(self)@.valid(),
    {
        if metric.on_by_default() {
            if enabled {
                self.disabled.remove(metric.key());
            } else {
                self.disabled.insert(metric.key());
            }
        } else if enabled {
            self.enabled.insert(metric.key());
        } else {
            self.enabled.remove(metric.key());
        }
    }
}

#[derive(Debug, Clone, Copy, PartialEq, Eq, Structural)]
pub enum TargetChoice {
    /// The window in focus.
    Auto,
    Manual,
}

/// How the measured process is found.
#[derive(Debug, Clone, Copy, PartialEq, Eq, Structural)]
pub enum TargetMode {
    Auto,
    Manual,
}

/// What the search for the measured process goes by.
#[derive(Debug, PartialEq)]
pub struct TargetSettings {
    pub mode: TargetMode,
    pub manual_process: Option<String>,
    pub manual_pid: Option<u32>,
}

impl TargetSettings {
    /// The window in focus, whatever it is.
    pub fn auto() -> (r: TargetSettings)
        ensures
            r.mode == TargetMode::Auto,
            r.manual_process is None,
            r.manual_pid is None,
    {
        TargetSettings { mode: TargetMode::Auto, manual_process: None, manual_pid: None }
    }
}

#[derive(Debug, PartialEq)]
pub struct FpsSettings {
    pub target: TargetChoice,
    pub manual_process: Option<String>,
    /// For several copies of one program; goes before the name.
    pub manual_pid: Option<u32>,
    /// A PresentMon of one's own in place of the bundled one. Takes effect after a restart.
    pub presentmon_path: Option<String>,
}

/// What [`FpsSettings`] hold.
#[verifier::ext_equal]
pub struct FpsView {
    pub target: TargetChoice,
    pub manual_process: Option<Seq<char>>,
    pub manual_pid: Option<u32>,
    pub presentmon_path: Option<Seq<char>>,
}

impl View for FpsSettings {
    type V = FpsView;

    open spec fn view(&self) -> FpsView {
        FpsView {
            target: self.target,
            manual_process: text_of(self.manual_process),
            manual_pid: self.manual_pid,
            presentmon_path: text_of(self.presentmon_path),
        }
    }
}

pub open spec fn default_fps() -> FpsView {
    FpsView {
        target: TargetChoice::Auto,
        manual_process: None,
        manual_pid: None,
        presentmon_path: None,
    }
}

impl Default for FpsSettings {
    fn default() -> (r: FpsSettings)
        ensures
            r@ == default_fps(),
    {
        FpsSettings {
            target: TargetChoice::Auto,
            manual_process: None,
            manual_pid: None,
            presentmon_path: None,
        }
    }
}

/// A copy of an optional text.
pub(crate) fn copy_text(text: &Option<String>) -> (r: Option<String>)
    ensures
        text_of(r) == text_of(*text),
{
    match text {
        Some(s) => Some(s.clone()),
        None => None,
    }
}

impl Clone for FpsSettings {
    fn clone(&self) -> (r: FpsSettings)
        ensures
            r@ == self@,
    {
        FpsSettings {
            target: self.target,
            manual_process: copy_text(&self.manual_process),
            manual_pid: self.manual_pid,
            presentmon_path: copy_text(&self.presentmon_path),
        }
    }
}

impl FpsSettings {
    /// What the search goes by. In automatic mode the manual fields do not matter.
    pub fn target_settings(&self) -> (r: TargetSettings)
        ensures
            self.target == TargetChoice::Auto ==> r.mode == TargetMode::Auto && r.manual_process
                is None && r.manual_pid is None,
            self.target == TargetChoice::Manual ==> r.mode == TargetMode::Manual && text_of(
                r.manual_process,
            ) == text_of(self.manual_process) && r.manual_pid == self.manual_pid,
    {
        match self.target {
            TargetChoice::Auto => TargetSettings::auto(),
            TargetChoice::Manual => TargetSettings {
                mode: TargetMode::Manual,
                manual_process: copy_text(&self.manual_process),
                manual_pid: self.manual_pid,
            },
        }
    }
}

/// A game that the program starts itself.
#[derive(Debug, PartialEq)]
pub struct GameProfile {
    /// The name in the settings and in `--launch "<name>"`. Unique.
    pub name: String,
    /// What to start: the game itself or its loader.
    pub path: String,
    /// Start arguments, such as `-window`.
    pub arguments: String,
    /// Take the frame off the game's window and stretch it over the monitor.
    pub borderless: bool,
    /// The file whose window loses its frame, where it is not `path`: some loaders start the
    /// game and quit.
    pub window_exe: Option<String>,
}

/// What a [`GameProfile`] holds.
#[verifier::ext_equal]
pub struct GameView {
    pub name: Seq<char>,
    pub path: Seq<char>,
    pub arguments: Seq<char>,
    pub borderless: bool,
    pub window_exe: Option<Seq<char>>,
}

impl View for GameProfile {
    type V = GameView;

    open spec fn view(&self) -> GameView {
        GameView {
            name: self.name@,
            path: self.path@,
            arguments: self.arguments@,
            borderless: self.borderless,
            window_exe: text_of(self.window_exe),
        }
    }
}

pub open spec fn default_game() -> GameView {
    GameView { name: seq![], path: seq![], arguments: seq![], borderless: false, window_exe: None }
}

impl Default for GameProfile {
    fn default() -> (r: GameProfile)
        ensures
            r@ == default_game(),
    {
        GameProfile {
            name: String::new(),
            path: String::new(),
            arguments: String::new(),
            borderless: false,
            window_exe: None,
        }
    }
}

impl Clone for GameProfile {
    fn clone(&self) -> (r: GameProfile)
        ensures
            r@ == self@,
    {
        GameProfile {
            name: self.name.clone(),
            path: self.path.clone(),
            arguments: self.arguments.clone(),
            borderless: self.borderless,
            window_exe: copy_text(&self.window_exe),
        }
    }
}

#[derive(Debug, PartialEq)]
pub struct HotkeySettings {
    pub toggle_visibility: String,
    pub toggle_lock: String,
}

/// What [`HotkeySettings`] hold.
#[verifier::ext_equal]
pub struct HotkeysView {
    pub toggle_visibility: Seq<char>,
    pub toggle_lock: Seq<char>,
}

impl View for HotkeySettings {
    type V = HotkeysView;

    open spec fn view(&self) -> HotkeysView {
        HotkeysView {
            toggle_visibility: self.toggle_visibility@,
            toggle_lock: self.toggle_lock@,
        }
    }
}

pub open spec fn default_hotkeys() -> HotkeysView {
    HotkeysView { toggle_visibility: "Ctrl+Shift+F11"@, toggle_lock: "Ctrl+Shift+F10"@ }
}

impl Default for HotkeySettings {
    fn default() -> (r: HotkeySettings)
        ensures
            r@ == default_hotkeys(),
    {
        HotkeySettings {
            toggle_visibility: "Ctrl+Shift+F11".to_owned(),
            toggle_lock: "Ctrl+Shift+F10".to_owned(),
        }
    }
}

impl Clone for HotkeySettings {
    fn clone(&self) -> (r: HotkeySettings)
        ensures
            r@ == self@,
    {
        HotkeySettings {
            toggle_visibility: self.toggle_visibility.clone(),
            toggle_lock: self.toggle_lock.clone(),
        }
    }
}

/// The least pause between two readings of the hardware, in milliseconds.
pub const MIN_HARDWARE_INTERVAL: u64 = 1_000;

/// How often the hardware is read; goes to the engine or the service.
#[derive(Debug, Clone, Copy, PartialEq, Eq, Structural)]
pub struct SensorOptions {
    pub hardware_interval_ms: u64,
}

pub open spec fn default_sensors() -> SensorOptions {
    SensorOptions { hardware_interval_ms: MIN_HARDWARE_INTERVAL }
}

impl Default for SensorOptions {
    fn default() -> (r: SensorOptions)
        ensures
            r == default_sensors(),
    {
        SensorOptions { hardware_interval_ms: MIN_HARDWARE_INTERVAL }
    }
}

impl SensorOptions {
    pub open spec fn repaired(self) -> SensorOptions {
        if self.hardware_interval_ms < MIN_HARDWARE_INTERVAL {
            default_sensors()
        } else {
            self
        }
    }

    /// An interval no shorter than allowed.
    pub fn sanitized(self) -> (r: SensorOptions)
        ensures
            r == self.repaired(),
    {
        if self.hardware_interval_ms < MIN_HARDWARE_INTERVAL {
            SensorOptions { hardware_interval_ms: MIN_HARDWARE_INTERVAL }
        } else {
            self
        }
    }
}

#[derive(Debug, PartialEq)]
pub struct Settings {
    pub version: u32,
    pub overlay: OverlaySettings,
    pub blocks: Blocks,
    pub metrics: MetricSettings,
    pub units: Units,
    pub sensors: SensorOptions,
    pub fps: FpsSettings,
    pub hotkeys: HotkeySettings,
    /// The window of the first start is done with: installation or work without rights was
    /// chosen.
    pub setup_done: bool,
    pub games: Vec<GameProfile>,
}

/// What [`Settings`] hold.
#[verifier::ext_equal]
pub struct SettingsView {
    pub version: u32,
    pub overlay: OverlaySettings,
    pub blocks: BlocksView,
    pub metrics: MetricsView,
    pub units: Units,
    pub sensors: SensorOptions,
    pub fps: FpsView,
    pub hotkeys: HotkeysView,
    pub setup_done: bool,
    pub games: Seq<GameView>,
}

/// The contents of a list of games.
pub open spec fn game_views(games: Seq<GameProfile>) -> Seq<GameView> {
    games.map_values(|game: GameProfile| game@)
}

pub proof fn lemma_game_views_push(games: Seq<GameProfile>, game: GameProfile)
    ensures
        game_views(games.push(game)) == game_views(games).push(game@),
{
    assert(game_views(games.push(game)) =~= game_views(games).push(game@));
}

impl View for Settings {
    type V = SettingsView;

    open spec fn view(&self) -> SettingsView {
        SettingsView {
            version: self.version,
            overlay: self.overlay,
            blocks: self.blocks@,
            metrics: self.metrics@,
            units: self.units,
            sensors: self.sensors,
            fps: self.fps@,
            hotkeys: self.hotkeys@,
            setup_done: self.setup_done,
            games: game_views(self.games@),
        }
    }
}

pub open spec fn default_settings() -> SettingsView {
    SettingsView {
        version: CURRENT_VERSION,
        overlay: default_overlay(),
        blocks: default_blocks(),
        metrics: default_metrics(),
        units: default_units(),
        sensors: default_sensors(),
        fps: default_fps(),
        hotkeys: default_hotkeys(),
        setup_done: false,
        games: seq![],
    }
}

impl Default for Settings {
    fn default() -> (r: Settings)
        ensures
            r@ == default_settings(),
    {
        Settings {
            version: CURRENT_VERSION,
            overlay: OverlaySettings::default(),
            blocks: Blocks::default(),
            metrics: MetricSettings::default(),
            units: Units::default(),
            sensors: SensorOptions::default(),
            fps: FpsSettings::default(),
            hotkeys: HotkeySettings::default(),
            setup_done: false,
            games: Vec::new(),
        }
    }
}

/// A list of the same games.
pub(crate) fn copy_games(games: &Vec<GameProfile>) -> (r: Vec<GameProfile>)
    ensures
        game_views(r@) == game_views(games@),
{
    let mut r: Vec<GameProfile> = Vec::new();
    let mut i: usize = 0;
    while i < games.len()
        invariant
            i <= games.len(),
            r.len() == i,
            forall|j: int| 0 <= j < i ==> (#[trigger] r@[j])@ == games@[j]@,
        decreases games.len() - i,
    {
        r.push(games[i].clone());
        i += 1;
    }
    proof {
        assert(game_views(r@) =~= game_views(games@));
    }
    r
}

impl Clone for Settings {
    fn clone(&self) -> (r: Settings)
        ensures
            r@ == self@,
    {
        Settings {
            version: self.version,
            overlay: self.overlay,
            blocks: self.blocks.clone(),
            metrics: self.metrics.clone(),
            units: self.units,
            sensors: self.sensors,
            fps: self.fps.clone(),
            hotkeys: self.hotkeys.clone(),
            setup_done: self.setup_done,
            games: copy_games(&self.games),
        }
    }
}

/// A text without white space around it; nothing where nothing is left.
pub open spec fn non_blank_text(text: Option<Seq<char>>) -> Option<Seq<char>> {
    match text {
        Some(t) => if blank(t) {
            None
        } else {
            Some(trimmed(t))
        },
        None => None,
    }
}

pub(crate) fn non_blank(text: &Option<String>) -> (r: Option<String>)
    ensures
        text_of(r) == non_blank_text(text_of(*text)),
{
    match text {
        Some(t) => {
            let rest = trim(t.as_str());
            if rest.as_str().is_empty() {
                None
            } else {
                Some(rest)
            }
        },
        None => None,
    }
}

/// A number of twentieths as the nearest single.
pub open spec fn in_twentieths(n: nat) -> Single {
    Single { bits: nearest_ratio(n, 20) as u32 }
}

/// How many steps of a twentieth a scale within its limits holds.
pub open spec fn scale_steps(scale: Single) -> nat {
    let kept = scale.kept_between(Single { bits: MIN_SCALE }, Single { bits: MAX_SCALE });
    whole(single_extent(quotient(kept, Single { bits: TWENTIETH })))
}

/// How many twentieths a width within its limits holds.
pub open spec fn width_steps(width: Single) -> nat {
    let kept = width.kept_between(
        Single { bits: MIN_WIDTH_SCALE },
        Single { bits: MAX_WIDTH_SCALE },
    );
    whole(single_extent(product(kept, 20)))
}

/// An opacity within its limits; the default one for what is no number.
#[verifier::opaque]
pub open spec fn mended_opacity(opacity: Single) -> Single {
    if opacity.finite() {
        opacity.kept_between(Single { bits: MIN_OPACITY }, Single { bits: ONE })
    } else {
        Single { bits: DEFAULT_OPACITY }
    }
}

/// A scale within its limits and on the grid of a twentieth.
#[verifier::opaque]
pub open spec fn mended_scale(scale: Single) -> Single {
    if scale.finite() {
        in_twentieths(scale_steps(scale))
    } else {
        Single { bits: ONE }
    }
}

/// A width within its limits and on the grid of a twentieth.
#[verifier::opaque]
pub open spec fn mended_width(width: Single) -> Single {
    if width.finite() {
        in_twentieths(width_steps(width))
    } else {
        Single { bits: ONE }
    }
}

/// A height of the strip in whole points within its limits.
#[verifier::opaque]
pub open spec fn mended_height(height: Single) -> Single {
    if height.finite() {
        whole_single(
            limited(
                height.rounded(),
                MIN_STRIP_HEIGHT as int,
                MAX_STRIP_HEIGHT as int,
            ) as nat,
        )
    } else {
        Single { bits: DEFAULT_STRIP_HEIGHT }
    }
}

impl OverlaySettings {
    pub open spec fn repaired(self) -> OverlaySettings {
        OverlaySettings {
            opacity: mended_opacity(self.opacity),
            scale: mended_scale(self.scale),
            width_scale: mended_width(self.width_scale),
            anchor: self.anchor.repaired(),
            strip_height: mended_height(self.strip_height),
            ..self
        }
    }

    /// Sizes and shares within their limits, scale and width on the grid of a twentieth.
    pub fn sanitized(self) -> (r: OverlaySettings)
        ensures
            r == self.repaired(),
    {
        proof {
            reveal(mended_opacity);
            reveal(mended_scale);
            reveal(mended_width);
            reveal(mended_height);
        }
        let opacity = if self.opacity.is_finite() {
            self.opacity.clamped(Single { bits: MIN_OPACITY }, Single { bits: ONE })
        } else {
            Single { bits: DEFAULT_OPACITY }
        };
        let scale = if self.scale.is_finite() {
            let kept = self.scale.clamped(Single { bits: MIN_SCALE }, Single { bits: MAX_SCALE });
            of_twentieths(twentieths(kept))
        } else {
            Single { bits: ONE }
        };
        let width_scale = if self.width_scale.is_finite() {
            let kept = self.width_scale.clamped(
                Single { bits: MIN_WIDTH_SCALE },
                Single { bits: MAX_WIDTH_SCALE },
            );
            of_twentieths(times_twenty(kept))
        } else {
            Single { bits: ONE }
        };
        let strip_height = if self.strip_height.is_finite() {
            self.strip_height.rounded_within(MIN_STRIP_HEIGHT, MAX_STRIP_HEIGHT)
        } else {
            Single { bits: DEFAULT_STRIP_HEIGHT }
        };
        OverlaySettings {
            x: self.x,
            y: self.y,
            opacity,
            scale,
            locked: self.locked,
            visible: self.visible,
            always_on_top: self.always_on_top,
            show_graph: self.show_graph,
            show_header: self.show_header,
            fullscreen: self.fullscreen,
            width_scale,
            anchor: self.anchor.sanitized(),
            mode: self.mode,
            strip_height,
            show_clock: self.show_clock,
            game_only: self.game_only,
        }
    }
}

impl FpsView {
    pub open spec fn repaired(self) -> FpsView {
        FpsView {
            target: self.target,
            manual_process: non_blank_text(self.manual_process),
            manual_pid: match self.manual_pid {
                Some(pid) => if pid > 0 {
                    Some(pid)
                } else {
                    None
                },
                None => None,
            },
            presentmon_path: non_blank_text(self.presentmon_path),
        }
    }
}

impl HotkeysView {
    pub open spec fn repaired(self) -> HotkeysView {
        HotkeysView {
            toggle_visibility: if blank(self.toggle_visibility) {
                default_hotkeys().toggle_visibility
            } else {
                self.toggle_visibility
            },
            toggle_lock: if blank(self.toggle_lock) {
                default_hotkeys().toggle_lock
            } else {
                self.toggle_lock
            },
        }
    }
}

/// The number of the first free name from `number` on; 1 where all are taken.
pub open spec fn free_number(base: Seq<char>, taken: Seq<Seq<char>>, number: nat) -> nat
    decreases LAST_NUMBER + 1 - number,
{
    if number > LAST_NUMBER {
        1
    } else if !taken.contains(lowercase(candidate(base, number))) {
        number
    } else {
        free_number(base, taken, number + 1)
    }
}

/// `base`, or with the first number that makes it free. `taken` holds names in lower case.
pub open spec fn free_name(base: Seq<char>, taken: Seq<Seq<char>>) -> Seq<char> {
    candidate(base, free_number(base, taken, 1))
}

/// The names of games in lower case.
pub open spec fn low_names(games: Seq<GameView>) -> Seq<Seq<char>> {
    games.map_values(|game: GameView| lowercase(game.name))
}

impl GameView {
    /// The name that a game would have if it were free.
    pub open spec fn wanted_name(self) -> Seq<char> {
        match cleaned(self.name) {
            Some(name) => name,
            None => title_from_path(trimmed(self.path)),
        }
    }

    /// The game with a clean name that none of the games before it has.
    pub open spec fn repaired(self, before: Seq<GameView>) -> GameView {
        GameView {
            name: free_name(self.wanted_name(), low_names(before)),
            path: trimmed(self.path),
            arguments: self.arguments,
            borderless: self.borderless,
            window_exe: non_blank_text(self.window_exe),
        }
    }
}

/// The games that can be started, each with a name of its own.
pub open spec fn repaired_games(games: Seq<GameView>) -> Seq<GameView>
    decreases games.len(),
{
    if games.len() == 0 {
        seq![]
    } else {
        let before = repaired_games(games.drop_last());
        if blank(games.last().path) {
            before
        } else {
            before.push(games.last().repaired(before))
        }
    }
}

pub(crate) fn listed(list: &Vec<String>, name: &str) -> (r: bool)
    ensures
        r == views(list@).contains(name@),
{
    let mut i: usize = 0;
    while i < list.len()
        invariant
            i <= list.len(),
            forall|j: int| 0 <= j < i ==> #[trigger] views(list@)[j] != name@,
        decreases list.len() - i,
    {
        if same_text(list[i].as_str(), name) {
            assert(views(list@)[i as int] == name@);
            return true;
        }
        i += 1;
    }
    false
}

proof fn lemma_free_number(base: Seq<char>, taken: Seq<Seq<char>>, from: nat, number: nat)
    requires
        1 <= from <= number <= LAST_NUMBER,
        !taken.contains(lowercase(candidate(base, number))),
        forall|k: nat|
            from <= k < number ==> taken.contains(lowercase(#[trigger] candidate(base, k))),
    ensures
        free_number(base, taken, from) == number,
    decreases number - from,
{
    if from < number {
        assert(taken.contains(lowercase(candidate(base, from))));
        lemma_free_number(base, taken, from + 1, number);
    }
}

proof fn lemma_none_free(base: Seq<char>, taken: Seq<Seq<char>>, from: nat)
    requires
        1 <= from,
        forall|k: nat|
            from <= k <= LAST_NUMBER ==> taken.contains(lowercase(#[trigger] candidate(base, k))),
    ensures
        free_number(base, taken, from) == 1,
    decreases LAST_NUMBER + 1 - from,
{
    if from <= LAST_NUMBER {
        assert(taken.contains(lowercase(candidate(base, from))));
        lemma_none_free(base, taken, from + 1);
    }
}

/// What a question put to a list of names comes to.
pub(crate) proof fn lemma_asked_list<F: Fn(&str) -> bool>(
    asked: F,
    base: Seq<char>,
    taken: Seq<Seq<char>>,
    name: Seq<char>,
)
    requires
        forall|s: &str, b: bool| call_ensures(asked, (s,), b) ==> b == taken.contains(s@),
        (exists|number: nat| #[trigger] first_free(asked, base, number) && name == candidate(
            base,
            number,
        )) || (name == base && forall|k: nat|
            1 <= k <= LAST_NUMBER ==> #[trigger] answered(asked, candidate(base, k), true)),
    ensures
        name == free_name(base, taken),
{
    if exists|number: nat| #[trigger] first_free(asked, base, number) && name == candidate(
        base,
        number,
    ) {
        let number = choose|number: nat| #[trigger]
            first_free(asked, base, number) && name == candidate(base, number);
        assert forall|k: nat| 1 <= k < number implies taken.contains(
            lowercase(#[trigger] candidate(base, k)),
        ) by {
            assert(answered(asked, candidate(base, k), true));
        }
        lemma_free_number(base, taken, 1, number);
    } else {
        assert forall|k: nat| 1 <= k <= LAST_NUMBER implies taken.contains(
            lowercase(#[trigger] candidate(base, k)),
        ) by {
            assert(answered(asked, candidate(base, k), true));
        }
        lemma_none_free(base, taken, 1);
    }
}

fn repair_games(games: &Vec<GameProfile>) -> (r: Vec<GameProfile>)
    ensures
        game_views(r@) == repaired_games(game_views(games@)),
{
    let ghost all = game_views(games@);
    let mut done: Vec<GameProfile> = Vec::new();
    let mut names: Vec<String> = Vec::new();
    let mut i: usize = 0;
    proof {
        assert(all.take(0) =~= seq![]);
        assert(game_views(done@) =~= seq![]);
        assert(views(names@) =~= low_names(game_views(done@)));
    }
    while i < games.len()
        invariant
            i <= games.len(),
            all == game_views(games@),
            game_views(done@) == repaired_games(all.take(i as int)),
            views(names@) == low_names(game_views(done@)),
        decreases games.len() - i,
    {
        let game = &games[i];
        proof {
            assert(all.take(i + 1).drop_last() =~= all.take(i as int));
            assert(all.take(i + 1).last() == game@);
        }
        let path = trim(game.path.as_str());
        if !path.as_str().is_empty() {
            let base = match clean_name(game.name.as_str()) {
                Some(name) => name,
                None => name_from_path(path.as_str()),
            };
            let ghost taken = views(names@);
            let asked = |name: &str| -> (b: bool)
                ensures
                    b == views(names@).contains(name@),
                { listed(&names, name) };
            let ghost asked_of = asked;
            let name = unique_name(base.as_str(), asked);
            proof {
                lemma_asked_list(asked_of, base@, taken, name@);
            }
            let low = to_lowercase(name.as_str());
            let ghost before = done@;
            let ghost names_before = names@;
            let repaired = GameProfile {
                name,
                path,
                arguments: game.arguments.clone(),
                borderless: game.borderless,
                window_exe: non_blank(&game.window_exe),
            };
            proof {
                lemma_game_views_push(before, repaired);
                lemma_views_push(names_before, low);
                assert(low_names(game_views(before).push(repaired@)) =~= low_names(
                    game_views(before),
                ).push(low@));
                assert(repaired@ == game@.repaired(game_views(before)));
            }
            done.push(repaired);
            names.push(low);
        }
        i += 1;
    }
    proof {
        assert(all.take(all.len() as int) =~= all);
    }
    done
}

impl SettingsView {
    /// The settings with every value that would make the overlay invisible, unreadable or
    /// useless replaced.
    pub open spec fn repaired(self) -> SettingsView {
        SettingsView {
            version: if self.version < CURRENT_VERSION {
                CURRENT_VERSION
            } else {
                self.version
            },
            overlay: self.overlay.repaired(),
            blocks: self.blocks.repaired(),
            metrics: self.metrics,
            units: self.units,
            sensors: self.sensors.repaired(),
            fps: self.fps.repaired(),
            hotkeys: self.hotkeys.repaired(),
            setup_done: self.setup_done,
            games: repaired_games(self.games),
        }
    }
}

impl Settings {
    /// Values with which the overlay would be invisible, unreadable or would break the capture
    /// are replaced.
    pub fn sanitized(self) -> (r: Settings)
        ensures
            r@ == self@.repaired(),
    {
        let fps = FpsSettings {
            target: self.fps.target,
            manual_process: non_blank(&self.fps.manual_process),
            manual_pid: match self.fps.manual_pid {
                Some(pid) => if pid > 0 {
                    Some(pid)
                } else {
                    None
                },
                None => None,
            },
            presentmon_path: non_blank(&self.fps.presentmon_path),
        };
        let usual = HotkeySettings::default();
        let visibility = trim(self.hotkeys.toggle_visibility.as_str());
        let lock = trim(self.hotkeys.toggle_lock.as_str());
        let hotkeys = HotkeySettings {
            toggle_visibility: if visibility.as_str().is_empty() {
                usual.toggle_visibility
            } else {
                self.hotkeys.toggle_visibility
            },
            toggle_lock: if lock.as_str().is_empty() {
                usual.toggle_lock
            } else {
                self.hotkeys.toggle_lock
            },
        };
        // A profile without a path starts nothing; the name is needed for `--launch`.
        let games = repair_games(&self.games);
        Settings {
            version: if self.version < CURRENT_VERSION {
                CURRENT_VERSION
            } else {
                self.version
            },
            overlay: self.overlay.sanitized(),
            blocks: self.blocks.sanitized(),
            metrics: self.metrics,
            units: self.units,
            sensors: self.sensors.sanitized(),
            fps,
            hotkeys,
            setup_done: self.setup_done,
            games,
        }
    }
}

/// No two rows share a name in the file.
pub proof fn law_metric_names_differ(a: Metric, b: Metric)
    requires
        a != b,
    ensures
        a.name() != b.name(),
{
    reveal_strlit("gpu_temperature");
    reveal_strlit("gpu_clock");
    reveal_strlit("gpu_memory_clock");
    reveal_strlit("gpu_vram");
    reveal_strlit("gpu_power");
    reveal_strlit("gpu_fan");
    reveal_strlit("gpu_fan_percent");
    reveal_strlit("cpu_temperature");
    reveal_strlit("cpu_clock");
    reveal_strlit("cpu_hybrid_clock");
    reveal_strlit("cpu_power");
    reveal_strlit("cpu_core_load");
    reveal_strlit("cpu_core_clock");
    reveal_strlit("ram_used");
    reveal_strlit("ram_process");
    reveal_strlit("ram_speed");
    reveal_strlit("fps_average");
    reveal_strlit("fps_low_1");
    reveal_strlit("fps_low_0_1");
    reveal_strlit("fps_latency");
    reveal_strlit("fps_api");
    reveal_strlit("fps_target");
    assert("gpu_temperature"@.len() == 15);
    assert("gpu_clock"@.len() == 9);
    assert("gpu_memory_clock"@.len() == 16);
    assert("gpu_vram"@.len() == 8);
    assert("gpu_power"@.len() == 9);
    assert("gpu_fan"@.len() == 7);
    assert("gpu_fan_percent"@.len() == 15);
    assert("cpu_temperature"@.len() == 15);
    assert("cpu_clock"@.len() == 9);
    assert("cpu_hybrid_clock"@.len() == 16);
    assert("cpu_power"@.len() == 9);
    assert("cpu_core_load"@.len() == 13);
    assert("cpu_core_clock"@.len() == 14);
    assert("ram_used"@.len() == 8);
    assert("ram_process"@.len() == 11);
    assert("ram_speed"@.len() == 9);
    assert("fps_average"@.len() == 11);
    assert("fps_low_1"@.len() == 9);
    assert("fps_low_0_1"@.len() == 11);
    assert("fps_latency"@.len() == 11);
    assert("fps_api"@.len() == 7);
    assert("fps_target"@.len() == 10);
    assert("gpu_temperature"@[0] == 'g' && "gpu_temperature"@[4] == 't');
    assert("gpu_fan_percent"@[0] == 'g' && "gpu_fan_percent"@[4] == 'f');
    assert("cpu_temperature"@[0] == 'c' && "cpu_temperature"@[4] == 't');
    assert("gpu_clock"@[0] == 'g' && "gpu_clock"@[4] == 'c');
    assert("gpu_power"@[0] == 'g' && "gpu_power"@[4] == 'p');
    assert("cpu_clock"@[0] == 'c' && "cpu_clock"@[4] == 'c');
    assert("cpu_power"@[0] == 'c' && "cpu_power"@[4] == 'p');
    assert("ram_speed"@[0] == 'r' && "ram_speed"@[4] == 's');
    assert("fps_low_1"@[0] == 'f' && "fps_low_1"@[4] == 'l');
    assert("gpu_memory_clock"@[0] == 'g');
    assert("cpu_hybrid_clock"@[0] == 'c');
    assert("gpu_vram"@[0] == 'g');
    assert("ram_used"@[0] == 'r');
    assert("gpu_fan"@[0] == 'g');
    assert("fps_api"@[0] == 'f');
    assert("ram_process"@[5] == 'r');
    assert("fps_average"@[5] == 'v');
    assert("fps_low_0_1"@[5] == 'o');
    assert("fps_latency"@[5] == 'a');
}

/// A row that was switched is shown as told, and no other row changes.
pub proof fn law_rows_switch_alone(view: MetricsView, metric: Metric, on: bool, other: Metric)
    requires
        view.valid(),
    ensures
        view.switched(metric, on).valid(),
        view.switched(metric, on).shows(metric) == on,
        other != metric ==> view.switched(metric, on).shows(other) == view.shows(other),
{
    law_name_added(view.disabled, metric.name());
    law_name_added(view.enabled, metric.name());
    law_name_removed(view.disabled, metric.name());
    law_name_removed(view.enabled, metric.name());
    if other != metric {
        law_metric_names_differ(metric, other);
    }
}

/// Names of rows that this build does not know stay in their lists.
pub proof fn law_unknown_names_stay(view: MetricsView, metric: Metric, on: bool, name: Seq<char>)
    requires
        view.valid(),
        name != metric.name(),
    ensures
        view.switched(metric, on).disabled.contains(name) == view.disabled.contains(name),
        view.switched(metric, on).enabled.contains(name) == view.enabled.contains(name),
{
    law_name_added(view.disabled, metric.name());
    law_name_added(view.enabled, metric.name());
    law_name_removed(view.disabled, metric.name());
    law_name_removed(view.enabled, metric.name());
}

/// The name of a repaired game is clean.
proof fn lemma_wanted_is_clean(game: GameView)
    ensures
        crate::games::clean(game.wanted_name()),
{
    match cleaned(game.name) {
        Some(_) => {
            crate::games::lemma_cleaned_is_clean(game.name);
        },
        None => {
            crate::games::lemma_title_is_clean(trimmed(game.path));
        },
    }
}

pub(crate) proof fn lemma_free_number_is_free(base: Seq<char>, taken: Seq<Seq<char>>, from: nat)
    requires
        1 <= from,
    ensures
        ({
            let n = free_number(base, taken, from);
            ||| n >= from && n <= LAST_NUMBER && !taken.contains(lowercase(candidate(base, n)))
            ||| n == 1 && forall|k: nat|
                from <= k <= LAST_NUMBER ==> taken.contains(lowercase(#[trigger] candidate(base, k)))
        }),
    decreases LAST_NUMBER + 1 - from,
{
    if from <= LAST_NUMBER && taken.contains(lowercase(candidate(base, from))) {
        lemma_free_number_is_free(base, taken, from + 1);
        let n = free_number(base, taken, from + 1);
        if !(n >= from + 1 && n <= LAST_NUMBER && !taken.contains(lowercase(candidate(base, n)))) {
            assert forall|k: nat| from <= k <= LAST_NUMBER implies taken.contains(
                lowercase(#[trigger] candidate(base, k)),
            ) by {
                if k > from {
                    assert(from + 1 <= k <= LAST_NUMBER);
                }
            }
        }
    }
}

/// A name chosen among others is chosen again.
proof fn lemma_free_name_again(base: Seq<char>, taken: Seq<Seq<char>>)
    ensures
        free_name(free_name(base, taken), taken) == free_name(base, taken),
{
    let n = free_number(base, taken, 1);
    let name = candidate(base, n);
    lemma_free_number_is_free(base, taken, 1);
    if n <= LAST_NUMBER && n >= 1 && !taken.contains(lowercase(candidate(base, n))) {
        assert(candidate(name, 1) == name);
        assert(free_number(name, taken, 1) == 1);
    } else {
        assert(name == base);
    }
}

proof fn lemma_games_settle(games: Seq<GameView>)
    ensures
        repaired_games(repaired_games(games)) == repaired_games(games),
    decreases games.len(),
{
    let r = repaired_games(games);
    if games.len() > 0 {
        let before = repaired_games(games.drop_last());
        lemma_games_settle(games.drop_last());
        if !blank(games.last().path) {
            let game = games.last().repaired(before);
            assert(r.drop_last() =~= before);
            assert(r.last() == game);
            crate::text::lemma_trimmed_edges(games.last().path);
            let base = games.last().wanted_name();
            lemma_wanted_is_clean(games.last());
            let n = free_number(base, low_names(before), 1);
            crate::games::lemma_candidate_is_clean(base, n);
            crate::games::lemma_clean_stays(game.name);
            lemma_free_name_again(base, low_names(before));
            if games.last().window_exe is Some {
                crate::text::lemma_trimmed_edges(games.last().window_exe->0);
            }
            assert(game.repaired(before) == game);
        }
    }
}

/// Two games of repaired settings have different names, whatever the case, unless every number
/// behind the later name was taken.
pub proof fn law_game_names_differ(games: Seq<GameView>, i: int, j: int)
    requires
        0 <= i < j < repaired_games(games).len(),
    ensures
        ({
            let r = repaired_games(games);
            ||| lowercase(r[i].name) != lowercase(r[j].name)
            ||| forall|k: nat|
                1 <= k <= LAST_NUMBER ==> low_names(r.take(j)).contains(
                    lowercase(#[trigger] candidate(r[j].name, k)),
                )
        }),
    decreases games.len(),
{
    let r = repaired_games(games);
    let before = repaired_games(games.drop_last());
    if blank(games.last().path) {
        law_game_names_differ(games.drop_last(), i, j);
    } else if j < before.len() {
        law_game_names_differ(games.drop_last(), i, j);
        assert(r.take(j) =~= before.take(j));
        assert(r[i] == before[i] && r[j] == before[j]);
    } else {
        assert(r.take(j) =~= before);
        let game = games.last().repaired(before);
        let base = games.last().wanted_name();
        let taken = low_names(before);
        lemma_free_number_is_free(base, taken, 1);
        assert(taken[i] == lowercase(r[i].name));
        assert(r[j] == game);
    }
}

/// A title that cutting to its longest length leaves without white space at the end.
pub open spec fn title_settles(title: Seq<char>) -> bool {
    let cut = crate::text::at_most(trimmed(title), crate::blocks::MAX_TITLE_CHARS as nat);
    trimmed(cut) == cut
}

proof fn lemma_block_settles(block: crate::blocks::BlockView)
    requires
        title_settles(block.title),
    ensures
        block.repaired().repaired() == block.repaired(),
{
    crate::blocks::law_thresholds_settle(block.thresholds);
    let cut = crate::text::at_most(
        trimmed(block.title),
        crate::blocks::MAX_TITLE_CHARS as nat,
    );
    assert(crate::text::at_most(cut, crate::blocks::MAX_TITLE_CHARS as nat) =~= cut);
}

proof fn lemma_default_height()
    ensures
        DEFAULT_STRIP_HEIGHT == whole_single(28).bits,
{
    vstd::arithmetic::power2::lemma2_to64();
    crate::number::lemma_whole_bits(28, 4);
}

proof fn lemma_opacity_settles(opacity: Single)
    ensures
        mended_opacity(mended_opacity(opacity)) == mended_opacity(opacity),
        mended_opacity(opacity).finite(),
{
    reveal(mended_opacity);
}

proof fn lemma_scale_settles(scale: Single)
    ensures
        mended_scale(mended_scale(scale)) == mended_scale(scale),
        mended_scale(scale).finite(),
{
    reveal(mended_scale);
    crate::grid::law_scale_settles(Single { bits: ONE });
    if scale.finite() {
        crate::grid::law_scale_settles(scale);
    }
}

proof fn lemma_width_settles(width: Single)
    ensures
        mended_width(mended_width(width)) == mended_width(width),
        mended_width(width).finite(),
{
    reveal(mended_width);
    crate::grid::law_scale_settles(Single { bits: ONE });
    crate::grid::law_width_settles(Single { bits: ONE });
    if width.finite() {
        crate::grid::law_width_settles(width);
    }
}

proof fn lemma_height_settles(height: Single)
    ensures
        mended_height(mended_height(height)) == mended_height(height),
        mended_height(height).finite(),
{
    reveal(mended_height);
    lemma_default_height();
    let n: nat = if height.finite() {
        limited(height.rounded(), MIN_STRIP_HEIGHT as int, MAX_STRIP_HEIGHT as int) as nat
    } else {
        28
    };
    crate::number::lemma_whole_single(n);
}

proof fn lemma_overlay_settles(overlay: OverlaySettings)
    ensures
        overlay.repaired().repaired() == overlay.repaired(),
        overlay.repaired().opacity.finite(),
        overlay.repaired().scale.finite(),
        overlay.repaired().width_scale.finite(),
        overlay.repaired().strip_height.finite(),
{
    lemma_opacity_settles(overlay.opacity);
    lemma_scale_settles(overlay.scale);
    lemma_width_settles(overlay.width_scale);
    lemma_height_settles(overlay.strip_height);
    crate::placement::law_anchor_repair_settles(overlay.anchor);
}

/// Repaired settings need no further repair, as long as no title is cut right behind a space.
pub proof fn law_repair_settles(settings: SettingsView)
    requires
        title_settles(settings.blocks.gpu.title),
        title_settles(settings.blocks.cpu.title),
        title_settles(settings.blocks.ram.title),
        title_settles(settings.blocks.fps.title),
    ensures
        settings.repaired().repaired() == settings.repaired(),
{
    lemma_overlay_settles(settings.overlay);
    lemma_block_settles(settings.blocks.gpu);
    lemma_block_settles(settings.blocks.cpu);
    lemma_block_settles(settings.blocks.ram);
    lemma_block_settles(settings.blocks.fps);
    crate::blocks::law_order_is_complete(settings.blocks.order);
    if settings.fps.manual_process is Some {
        crate::text::lemma_trimmed_edges(settings.fps.manual_process->0);
    }
    if settings.fps.presentmon_path is Some {
        crate::text::lemma_trimmed_edges(settings.fps.presentmon_path->0);
    }
    lemma_default_hotkeys();
    lemma_games_settle(settings.games);
    assert(settings.repaired().repaired() =~= settings.repaired());
}

proof fn lemma_default_hotkeys()
    ensures
        !blank(default_hotkeys().toggle_visibility),
        !blank(default_hotkeys().toggle_lock),
{
    reveal_strlit("Ctrl+Shift+F11");
    reveal_strlit("Ctrl+Shift+F10");
    let a = default_hotkeys().toggle_visibility;
    let b = default_hotkeys().toggle_lock;
    assert(a[0] == 'C' && a[13] == '1');
    assert(b[0] == 'C' && b[13] == '0');
    crate::text::lemma_trimmed_fixed(a);
    crate::text::lemma_trimmed_fixed(b);
}

/// Repaired settings hold numbers where numbers belong.
pub proof fn lemma_repaired_is_writable(settings: SettingsView)
    requires
        settings.metrics.valid(),
    ensures
        crate::saved::writable(settings.repaired()),
{
    lemma_overlay_settles(settings.overlay);
    crate::blocks::law_thresholds_settle(settings.blocks.gpu.thresholds);
    crate::blocks::law_thresholds_settle(settings.blocks.cpu.thresholds);
    crate::blocks::law_thresholds_settle(settings.blocks.ram.thresholds);
    crate::blocks::law_thresholds_settle(settings.blocks.fps.thresholds);
}

/// A row that is on for everybody is seen unless it is among those switched off; any other row is
/// seen only where it is among those switched on. Fresh settings show all rows but the bulky ones.
pub proof fn law_rows_are_seen_by_their_names(view: MetricsView, metric: Metric)
    ensures
        ({
            let bulky = metric is GpuFanPercent || metric is CpuCoreLoad || metric is CpuCoreClock
                || metric is FpsApi;
            &&& !bulky ==> (view.shows(metric) <==> !view.disabled.contains(metric.name()))
            &&& bulky ==> (view.shows(metric) <==> view.enabled.contains(metric.name()))
            &&& default_metrics().shows(metric) == !bulky
        }),
{
}

/// The name that a game gets is free: the base where nothing has it, else the base with the lowest
/// number that is free, as long as there is one.
pub proof fn law_free_names_are_free(base: Seq<char>, taken: Seq<Seq<char>>, number: nat)
    requires
        1 <= number <= LAST_NUMBER,
        !taken.contains(lowercase(candidate(base, number))),
    ensures
        !taken.contains(lowercase(free_name(base, taken))),
        !taken.contains(lowercase(base)) ==> free_name(base, taken) == base,
        exists|k: nat|
            1 <= k <= number && free_name(base, taken) == #[trigger] candidate(base, k),
{
    lemma_lowest_free_number(base, taken, 1, number);
    assert(free_name(base, taken) == candidate(base, free_number(base, taken, 1)));
}

proof fn lemma_lowest_free_number(base: Seq<char>, taken: Seq<Seq<char>>, from: nat, number: nat)
    requires
        1 <= from <= number <= LAST_NUMBER,
        !taken.contains(lowercase(candidate(base, number))),
    ensures
        from <= free_number(base, taken, from) <= number,
        !taken.contains(lowercase(candidate(base, free_number(base, taken, from)))),
    decreases number - from,
{
    if taken.contains(lowercase(candidate(base, from))) {
        lemma_lowest_free_number(base, taken, from + 1, number);
    }
}

/// The two pictures of the overlay have the names that a user reads.
pub proof fn law_mode_titles(value: OverlayMode, r: &'static str)
    requires
        call_ensures(OverlayMode::title, (value,), r),
    ensures
        value is Full ==> r@ == "Полноразмерный"@,
        value is Strip ==> r@ == "Строка"@,
{
}

/// Under which name a row stands in the file: among the rows switched off, or, of the bulky ones,
/// among those switched on.
pub proof fn law_rows_have_their_names_in_the_file(view: MetricsView)
    ensures
        view.shows(Metric::GpuTemperature) <==> !view.disabled.contains("gpu_temperature"@),
        view.shows(Metric::GpuClock) <==> !view.disabled.contains("gpu_clock"@),
        view.shows(Metric::GpuMemoryClock) <==> !view.disabled.contains("gpu_memory_clock"@),
        view.shows(Metric::GpuVram) <==> !view.disabled.contains("gpu_vram"@),
        view.shows(Metric::GpuPower) <==> !view.disabled.contains("gpu_power"@),
        view.shows(Metric::GpuFan) <==> !view.disabled.contains("gpu_fan"@),
        view.shows(Metric::GpuFanPercent) <==> view.enabled.contains("gpu_fan_percent"@),
        view.shows(Metric::CpuTemperature) <==> !view.disabled.contains("cpu_temperature"@),
        view.shows(Metric::CpuClock) <==> !view.disabled.contains("cpu_clock"@),
        view.shows(Metric::CpuHybridClock) <==> !view.disabled.contains("cpu_hybrid_clock"@),
        view.shows(Metric::CpuPower) <==> !view.disabled.contains("cpu_power"@),
        view.shows(Metric::CpuCoreLoad) <==> view.enabled.contains("cpu_core_load"@),
        view.shows(Metric::CpuCoreClock) <==> view.enabled.contains("cpu_core_clock"@),
        view.shows(Metric::RamUsed) <==> !view.disabled.contains("ram_used"@),
        view.shows(Metric::RamProcess) <==> !view.disabled.contains("ram_process"@),
        view.shows(Metric::RamSpeed) <==> !view.disabled.contains("ram_speed"@),
        view.shows(Metric::FpsAverage) <==> !view.disabled.contains("fps_average"@),
        view.shows(Metric::FpsLow1) <==> !view.disabled.contains("fps_low_1"@),
        view.shows(Metric::FpsLow01) <==> !view.disabled.contains("fps_low_0_1"@),
        view.shows(Metric::FpsLatency) <==> !view.disabled.contains("fps_latency"@),
        view.shows(Metric::FpsApi) <==> view.enabled.contains("fps_api"@),
        view.shows(Metric::FpsTarget) <==> !view.disabled.contains("fps_target"@),
{
}

} // verus!
