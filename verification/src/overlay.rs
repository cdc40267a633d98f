//! The window of the overlay: where it stands, what of the settings reaches it, and what becomes
//! of it when a game takes the whole screen.
//!
//! Times are milliseconds since the start of the program, places are physical pixels.

use vstd::prelude::*;

use crate::controls::Command;
use crate::number::Single;
use crate::paths::text_of;
use crate::placement::within;
use crate::same::equal;
use crate::same::equals;
use crate::settings::FullscreenMode;
use crate::settings::OverlaySettings;
use crate::settings::Settings;
use crate::settings::SettingsView;
use crate::settings_window::opened;
use crate::settings_window::SettingsWindow;
use crate::settings_window::WindowView;
use crate::snapshot::FpsState;

verus! {

/// How often the overlay takes the top again and looks after its place.
pub const HOUSEKEEPING: u64 = 1_000;

/// How often the target is chosen: as often as the engine asks for frames.
pub const TARGET_EVERY: u64 = 250;

/// How often a program without the service looks for it.
pub const SERVICE_CHECK_EVERY: u64 = 3_000;

/// How long the hint on exclusive full screen stays after a game has left it.
pub const FULLSCREEN_NOTE_FOR: u64 = 20_000;

/// Where the overlay stands when no place is kept, or the kept one is on no monitor.
pub const DEFAULT_POSITION: (i32, i32) = (20, 20);

/// The size of the window before its first frame, as far as it can be told.
pub const ESTIMATED_SIZE: (i32, i32) = (272, 420);

/// The distance from the corner of another monitor.
pub const MOVED_MARGIN: i32 = 20;

/// The distance between the overlay and the window beside it.
pub const GAP: i32 = 16;

pub const TOOLTIP: &'static str = "MH Monitoring";

pub const FULLSCREEN_TOOLTIP: &'static str =
    "MH Monitoring скрыт: игра в эксклюзивном полноэкранном режиме. Выберите безрамочный режим.";

pub const FULLSCREEN_NOTE: &'static str =
    "эксклюзивный полноэкранный режим: HUD там не виден — выберите в игре безрамочный";

pub const FULLSCREEN_MOVED_TOOLTIP: &'static str =
    "MH Monitoring: игра в эксклюзивном полноэкранном режиме — HUD на другом мониторе.";

// --- places ---

/// A rectangle of the screen.
#[derive(Debug, Clone, Copy, PartialEq, Eq, Structural)]
pub struct ScreenRect {
    pub left: i32,
    pub top: i32,
    pub right: i32,
    pub bottom: i32,
}

/// The kept place of the overlay, where a window of that size would be seen there at least in
/// part; else the default one. Whether it would be seen `on_monitor` tells.
pub fn resolve_position(
    saved: Option<(i32, i32)>,
    size: (i32, i32),
    on_monitor: impl Fn(ScreenRect) -> bool,
) -> (r: (i32, i32))
    requires
        forall|rect: ScreenRect| call_requires(on_monitor, (rect,)),
        saved matches Some((x, y)) ==> i32::MIN <= x + size.0 <= i32::MAX && i32::MIN <= y + size.1
            <= i32::MAX,
    ensures
        saved is None ==> r == DEFAULT_POSITION,
        saved matches Some((x, y)) ==> {
            let rect = ScreenRect {
                left: x,
                top: y,
                right: (x + size.0) as i32,
                bottom: (y + size.1) as i32,
            };
            ||| call_ensures(on_monitor, (rect,), true) && r == (x, y)
            ||| call_ensures(on_monitor, (rect,), false) && r == DEFAULT_POSITION
        },
{
    match saved {
        Some((x, y)) => {
            let rect = ScreenRect { left: x, top: y, right: x + size.0, bottom: y + size.1 };
            if on_monitor(rect) {
                (x, y)
            } else {
                DEFAULT_POSITION
            }
        },
        None => DEFAULT_POSITION,
    }
}

/// Where a window stands beside the overlay: to the right where it fits there, else to the left,
/// else at the right edge over the overlay.
pub open spec fn beside_x(hud: ScreenRect, work: ScreenRect, width: int) -> int {
    if hud.right + GAP + width <= work.right {
        hud.right + GAP
    } else if hud.left - GAP - width >= work.left {
        hud.left - GAP - width
    } else if work.right - width > work.left {
        work.right - width
    } else {
        work.left as int
    }
}

/// As high as the overlay, as far as the window fits below.
pub open spec fn beside_y(hud: ScreenRect, work: ScreenRect, height: int) -> int {
    within(
        hud.top as int,
        work.top as int,
        if work.bottom - height > work.top {
            work.bottom - height
        } else {
            work.top as int
        },
    )
}

/// The upper left corner of a window of that size beside the overlay and inside the work area.
pub fn beside(hud: ScreenRect, work: ScreenRect, width: i32, height: i32) -> (r: (i32, i32))
    requires
        hud.right + GAP <= i32::MAX,
        i32::MIN <= hud.right + GAP + width <= i32::MAX,
        i32::MIN <= hud.left - GAP,
        i32::MIN <= hud.left - GAP - width <= i32::MAX,
        i32::MIN <= work.right - width <= i32::MAX,
        i32::MIN <= work.bottom - height <= i32::MAX,
    ensures
        r.0 == beside_x(hud, work, width as int),
        r.1 == beside_y(hud, work, height as int),
{
    let right: i32 = hud.right + GAP;
    let left: i32 = hud.left - GAP - width;
    let x: i32 = if right + width <= work.right {
        right
    } else if left >= work.left {
        left
    } else if work.right - width > work.left {
        work.right - width
    } else {
        work.left
    };
    let lowest: i32 = if work.bottom - height > work.top {
        work.bottom - height
    } else {
        work.top
    };
    let y: i32 = if hud.top < work.top {
        work.top
    } else if hud.top > lowest {
        lowest
    } else {
        hud.top
    };
    (x, y)
}

/// A window that fits the work area stands wholly on it, wherever on it the overlay is.
pub proof fn law_window_stays_on_the_screen(
    hud: ScreenRect,
    work: ScreenRect,
    width: int,
    height: int,
)
    requires
        0 <= width <= work.right - work.left,
        0 <= height <= work.bottom - work.top,
        work.left <= hud.right,
        hud.left <= work.right,
    ensures
        work.left <= beside_x(hud, work, width),
        beside_x(hud, work, width) + width <= work.right,
        work.top <= beside_y(hud, work, height),
        beside_y(hud, work, height) + height <= work.bottom,
{
}

/// Where there is room for it on either side, the window does not cover the overlay.
pub proof fn law_window_leaves_the_overlay_free(hud: ScreenRect, work: ScreenRect, width: int)
    requires
        hud.right + GAP + width <= work.right || hud.left - GAP - width >= work.left,
    ensures
        hud.right + GAP <= beside_x(hud, work, width) || beside_x(hud, work, width) + width
            <= hud.left - GAP,
{
}

// --- what reaches the window ---

/// What of the settings has reached the window.
#[derive(Debug, Clone, Copy, PartialEq, Eq, Structural)]
pub struct Applied {
    pub visible: bool,
    pub locked: bool,
    pub always_on_top: bool,
    pub scale: Single,
}

pub open spec fn applied_of(overlay: OverlaySettings) -> Applied {
    Applied {
        visible: overlay.visible,
        locked: overlay.locked,
        always_on_top: overlay.always_on_top,
        scale: overlay.scale,
    }
}

impl Applied {
    pub fn of(settings: &Settings) -> (r: Applied)
        ensures
            r == applied_of(settings@.overlay),
    {
        Applied {
            visible: settings.overlay.visible,
            locked: settings.overlay.locked,
            always_on_top: settings.overlay.always_on_top,
            scale: settings.overlay.scale,
        }
    }
}

/// What has become of the overlay when a game takes the whole screen for itself.
#[derive(Debug, Clone, Copy, PartialEq, Eq)]
pub enum Fullscreen {
    /// No game does.
    Off,
    /// The overlay is hidden; the setting is left alone.
    Hidden,
    /// The overlay is on another monitor; `home` is where it stood.
    Moved { home: (i32, i32) },
}

/// What the window is told.
#[derive(Debug, Clone, Copy, PartialEq, Eq, Structural)]
pub struct Sync {
    pub applied: Applied,
    pub visible: Option<bool>,
    pub mouse_passthrough: Option<bool>,
    pub always_on_top: Option<bool>,
    pub scale: Option<Single>,
    /// Something is new: the menu is brought up to date, and the window looked after at once.
    pub changed: bool,
}

pub open spec fn wanted(overlay: OverlaySettings, fullscreen: Fullscreen) -> Applied {
    Applied { visible: overlay.visible && !(fullscreen is Hidden), ..applied_of(overlay) }
}

/// What the window is told: each thing that differs from what has reached it.
pub open spec fn synced(
    previous: Option<Applied>,
    overlay: OverlaySettings,
    fullscreen: Fullscreen,
) -> Sync {
    let now = wanted(overlay, fullscreen);
    let visible = previous is None || previous->0.visible != now.visible;
    let locked = previous is None || previous->0.locked != now.locked;
    let on_top = previous is None || previous->0.always_on_top != now.always_on_top;
    let scale = previous is None || !equal(previous->0.scale, now.scale);
    Sync {
        applied: now,
        visible: if visible {
            Some(now.visible)
        } else {
            None
        },
        mouse_passthrough: if locked {
            Some(now.locked)
        } else {
            None
        },
        always_on_top: if on_top {
            Some(now.always_on_top)
        } else {
            None
        },
        scale: if scale {
            Some(now.scale)
        } else {
            None
        },
        changed: visible || locked || on_top || scale,
    }
}

/// Brings the window in line with the settings.
pub fn sync(previous: Option<Applied>, settings: &Settings, fullscreen: Fullscreen) -> (r: Sync)
    ensures
        r == synced(previous, settings@.overlay, fullscreen),
{
    let mut now = Applied::of(settings);
    let hidden = match fullscreen {
        Fullscreen::Hidden => true,
        _ => false,
    };
    now.visible = now.visible && !hidden;
    let (visible, locked, on_top, scale) = match previous {
        Some(before) => (
            before.visible != now.visible,
            before.locked != now.locked,
            before.always_on_top != now.always_on_top,
            !equals(before.scale, now.scale),
        ),
        None => (true, true, true, true),
    };
    Sync {
        applied: now,
        visible: if visible {
            Some(now.visible)
        } else {
            None
        },
        mouse_passthrough: if locked {
            Some(now.locked)
        } else {
            None
        },
        always_on_top: if on_top {
            Some(now.always_on_top)
        } else {
            None
        },
        scale: if scale {
            Some(now.scale)
        } else {
            None
        },
        changed: visible || locked || on_top || scale,
    }
}

/// What has reached the window is not told it again.
pub proof fn law_window_is_told_once(
    previous: Option<Applied>,
    overlay: OverlaySettings,
    fullscreen: Fullscreen,
)
    requires
        overlay.scale.finite(),
    ensures
        ({
            let again = synced(
                Some(synced(previous, overlay, fullscreen).applied),
                overlay,
                fullscreen,
            );
            &&& !again.changed
            &&& again.visible is None
            &&& again.mouse_passthrough is None
            &&& again.always_on_top is None
            &&& again.scale is None
        }),
{
}

// --- commands ---

/// The settings after a command.
pub open spec fn commanded(settings: SettingsView, command: Command) -> SettingsView {
    let overlay = settings.overlay;
    SettingsView {
        overlay: match command {
            Command::ToggleVisible => OverlaySettings { visible: !overlay.visible, ..overlay },
            Command::ToggleLock => OverlaySettings { locked: !overlay.locked, ..overlay },
            Command::OpenSettings => OverlaySettings { visible: true, ..overlay },
            Command::Exit => overlay,
        },
        ..settings
    }
}

/// The window of the settings after a command. It is not drawn without the overlay, so it closes
/// with it.
pub open spec fn window_commanded(
    window: WindowView,
    settings: SettingsView,
    command: Command,
) -> WindowView {
    match command {
        Command::ToggleVisible if settings.overlay.visible => WindowView { open: false, ..window },
        Command::OpenSettings => opened(window, commanded(settings, command)),
        _ => window,
    }
}

/// Does what a command says. The result tells whether the program is to exit.
pub fn apply(settings: &mut Settings, window: &mut SettingsWindow, command: Command) -> (exit: bool)
    ensures
        final(settings)@ == commanded(old(settings)@, command),
        final(window)@ == window_commanded(old(window)@, old(settings)@, command),
        exit == (command is Exit),
{
    match command {
        Command::ToggleVisible => {
            settings.overlay.visible = !settings.overlay.visible;
            if !settings.overlay.visible {
                window.open = false;
            }
            false
        },
        Command::ToggleLock => {
            settings.overlay.locked = !settings.overlay.locked;
            false
        },
        Command::OpenSettings => {
            settings.overlay.visible = true;
            window.open(settings);
            false
        },
        Command::Exit => true,
    }
}

/// A switch that is turned twice is where it was.
pub proof fn law_switches_turn_back(settings: SettingsView, command: Command)
    requires
        command is ToggleVisible || command is ToggleLock,
    ensures
        commanded(commanded(settings, command), command) == settings,
{
}

/// The window of the settings is never open without the overlay: it was not before a command, so
/// it is not after it.
pub proof fn law_settings_show_with_the_overlay(
    window: WindowView,
    settings: SettingsView,
    command: Command,
)
    requires
        window.open ==> settings.overlay.visible,
    ensures
        window_commanded(window, settings, command).open ==> commanded(
            settings,
            command,
        ).overlay.visible,
{
}

// --- full screen ---

/// Where the overlay goes from the monitor of a game: its present place, and the new one. `None`
/// where it is to be hidden, which is so by choice, with one monitor, and when it is not seen
/// anyway. `work` is the work area of another monitor.
pub fn other_monitor_spot(
    settings: &Settings,
    window: Option<ScreenRect>,
    work: Option<ScreenRect>,
) -> (r: Option<((i32, i32), i32, i32)>)
    requires
        work matches Some(area) ==> area.left + MOVED_MARGIN <= i32::MAX && area.top
            + MOVED_MARGIN <= i32::MAX,
    ensures
        r == (match (window, work) {
            (Some(rect), Some(area)) if settings@.overlay.fullscreen is OtherMonitor
                && settings@.overlay.visible => Some(
                (
                    (rect.left, rect.top),
                    (area.left + MOVED_MARGIN) as i32,
                    (area.top + MOVED_MARGIN) as i32,
                ),
            ),
            _ => None,
        }),
{
    let moves = match settings.overlay.fullscreen {
        FullscreenMode::OtherMonitor => settings.overlay.visible,
        _ => false,
    };
    if !moves {
        return None;
    }
    match (window, work) {
        (Some(rect), Some(area)) => Some(
            ((rect.left, rect.top), area.left + MOVED_MARGIN, area.top + MOVED_MARGIN),
        ),
        _ => None,
    }
}

/// What is done when a game takes the whole screen or gives it back.
#[derive(Debug, Clone, Copy, PartialEq, Eq)]
pub struct FullscreenStep {
    pub state: Fullscreen,
    /// Until when the hint stays.
    pub note_until: Option<u64>,
    pub move_to: Option<(i32, i32)>,
    pub log: Option<&'static str>,
    pub tooltip: Option<&'static str>,
}

pub struct StepView {
    pub state: Fullscreen,
    pub note_until: Option<u64>,
    pub move_to: Option<(i32, i32)>,
    pub log: Option<Seq<char>>,
    pub tooltip: Option<Seq<char>>,
}

pub open spec fn words_of(text: Option<&'static str>) -> Option<Seq<char>> {
    match text {
        Some(text) => Some(text@),
        None => None,
    }
}

impl View for FullscreenStep {
    type V = StepView;

    open spec fn view(&self) -> StepView {
        StepView {
            state: self.state,
            note_until: self.note_until,
            move_to: self.move_to,
            log: words_of(self.log),
            tooltip: words_of(self.tooltip),
        }
    }
}

/// The overlay leaves the monitor of a game that has the screen for itself, and comes back after
/// it. A window over such a game makes it stop drawing.
pub open spec fn fullscreen_step(
    state: Fullscreen,
    note_until: Option<u64>,
    exclusive: bool,
    spot: Option<((i32, i32), i32, i32)>,
    has_window: bool,
    now: u64,
) -> StepView {
    if exclusive == !(state is Off) {
        StepView { state, note_until, move_to: None, log: None, tooltip: None }
    } else if exclusive {
        match spot {
            Some((home, x, y)) => StepView {
                state: Fullscreen::Moved { home },
                note_until: None,
                move_to: if has_window {
                    Some((x, y))
                } else {
                    None
                },
                log: Some("эксклюзивный полноэкранный режим — HUD на другом мониторе"@),
                tooltip: Some(FULLSCREEN_MOVED_TOOLTIP@),
            },
            None => StepView {
                state: Fullscreen::Hidden,
                note_until: None,
                move_to: None,
                log: Some("эксклюзивный полноэкранный режим — оверлей скрыт"@),
                tooltip: Some(FULLSCREEN_TOOLTIP@),
            },
        }
    } else {
        match state {
            Fullscreen::Moved { home } if has_window => StepView {
                state: Fullscreen::Off,
                note_until,
                move_to: Some(home),
                log: Some(
                    "эксклюзивный полноэкранный режим закончился — HUD на месте"@,
                ),
                tooltip: Some(TOOLTIP@),
            },
            _ => StepView {
                state: Fullscreen::Off,
                note_until: Some((now + FULLSCREEN_NOTE_FOR) as u64),
                move_to: None,
                log: Some("эксклюзивный полноэкранный режим закончился"@),
                tooltip: Some(TOOLTIP@),
            },
        }
    }
}

pub fn check_exclusive_fullscreen(
    state: Fullscreen,
    note_until: Option<u64>,
    exclusive: bool,
    spot: Option<((i32, i32), i32, i32)>,
    has_window: bool,
    now: u64,
) -> (r: FullscreenStep)
    requires
        now + FULLSCREEN_NOTE_FOR <= u64::MAX,
    ensures
        r@ == fullscreen_step(state, note_until, exclusive, spot, has_window, now),
{
    let off = match state {
        Fullscreen::Off => true,
        _ => false,
    };
    if exclusive == !off {
        return FullscreenStep { state, note_until, move_to: None, log: None, tooltip: None };
    }
    if !exclusive {
        let home = match state {
            Fullscreen::Moved { home } => if has_window {
                Some(home)
            } else {
                None
            },
            _ => None,
        };
        return match home {
            Some(home) => FullscreenStep {
                state: Fullscreen::Off,
                note_until,
                move_to: Some(home),
                log: Some("эксклюзивный полноэкранный режим закончился — HUD на месте"),
                tooltip: Some(TOOLTIP),
            },
            None => FullscreenStep {
                state: Fullscreen::Off,
                note_until: Some(now + FULLSCREEN_NOTE_FOR),
                move_to: None,
                log: Some("эксклюзивный полноэкранный режим закончился"),
                tooltip: Some(TOOLTIP),
            },
        };
    }
    match spot {
        Some((home, x, y)) => FullscreenStep {
            state: Fullscreen::Moved { home },
            note_until: None,
            move_to: if has_window {
                Some((x, y))
            } else {
                None
            },
            log: Some("эксклюзивный полноэкранный режим — HUD на другом мониторе"),
            tooltip: Some(FULLSCREEN_MOVED_TOOLTIP),
        },
        None => FullscreenStep {
            state: Fullscreen::Hidden,
            note_until: None,
            move_to: None,
            log: Some("эксклюзивный полноэкранный режим — оверлей скрыт"),
            tooltip: Some(FULLSCREEN_TOOLTIP),
        },
    }
}

/// An overlay that was moved for a game comes back to where it stood when the game leaves the
/// screen, and nothing happens in between.
pub proof fn law_overlay_comes_home(
    note_until: Option<u64>,
    home: (i32, i32),
    x: i32,
    y: i32,
    spot: Option<((i32, i32), i32, i32)>,
    start: u64,
    between: u64,
    end: u64,
)
    ensures
        ({
            let gone = fullscreen_step(
                Fullscreen::Off,
                note_until,
                true,
                Some((home, x, y)),
                true,
                start,
            );
            let stays = fullscreen_step(gone.state, gone.note_until, true, spot, true, between);
            let back = fullscreen_step(stays.state, stays.note_until, false, spot, true, end);
            &&& gone.move_to == Some((x, y))
            &&& stays.move_to is None
            &&& stays.log is None
            &&& back.move_to == Some(home)
            &&& back.state is Off
        }),
{
}

/// Without a game on the whole screen no hint begins, and a hidden overlay is seen again.
pub proof fn law_hidden_overlay_is_seen_again(
    overlay: OverlaySettings,
    note_until: Option<u64>,
    spot: Option<((i32, i32), i32, i32)>,
    has_window: bool,
    now: u64,
)
    ensures
        ({
            let back = fullscreen_step(Fullscreen::Hidden, note_until, false, spot, has_window, now);
            wanted(overlay, back.state).visible == overlay.visible
        }),
        fullscreen_step(Fullscreen::Off, note_until, false, spot, has_window, now).note_until
            == note_until,
{
}

// --- looking after the window ---

/// A thing that is done again and again.
#[derive(Debug, Clone, Copy, PartialEq, Eq, Structural)]
pub struct Timer {
    pub next: u64,
}

impl Timer {
    /// Whether the time has come. If so, the next one is `every` from now.
    pub fn fires(&mut self, now: u64, every: u64) -> (r: bool)
        requires
            now + every <= u64::MAX,
        ensures
            r == (old(self).next <= now),
            r ==> final(self).next == now + every,
            !r ==> *final(self) == *old(self),
    {
        if now < self.next {
            return false;
        }
        self.next = now + every;
        true
    }
}

/// What the overlay does with its window.
#[derive(Debug, Clone, Copy, PartialEq, Eq, Structural)]
pub struct Upkeep {
    /// The window gets the style of an overlay again.
    pub restyle: bool,
    /// The window is brought to the top.
    pub raise: bool,
    /// The window goes to its default place: its monitor is gone.
    pub rescue: bool,
}

/// What is done with the window, and the place that the settings keep. A window that is hidden or
/// moved for a game keeps its place in the settings.
pub open spec fn upkeep(
    overlay: OverlaySettings,
    fullscreen: Fullscreen,
    has_window: bool,
    rect: Option<ScreenRect>,
    on_monitor: bool,
) -> (Upkeep, OverlaySettings) {
    let seen = has_window && overlay.visible && !(fullscreen is Hidden);
    let at_home = seen && fullscreen is Off;
    (
        Upkeep {
            restyle: seen,
            raise: at_home && overlay.always_on_top,
            rescue: at_home && rect is Some && !on_monitor,
        },
        match rect {
            Some(rect) if at_home && on_monitor => OverlaySettings {
                x: Some(rect.left),
                y: Some(rect.top),
                ..overlay
            },
            _ => overlay,
        },
    )
}

/// Looks after the window. `rect` is where the window is, where that can be told, and
/// `on_monitor` whether it is seen there.
pub fn housekeeping(
    settings: &mut Settings,
    fullscreen: Fullscreen,
    has_window: bool,
    rect: Option<ScreenRect>,
    on_monitor: bool,
) -> (r: Upkeep)
    ensures
        ({
            let (done, overlay) = upkeep(
                old(settings)@.overlay,
                fullscreen,
                has_window,
                rect,
                on_monitor,
            );
            &&& r == done
            &&& final(settings)@ == (SettingsView { overlay, ..old(settings)@ })
        }),
{
    let mut done = Upkeep { restyle: false, raise: false, rescue: false };
    let (hidden, moved) = match fullscreen {
        Fullscreen::Off => (false, false),
        Fullscreen::Hidden => (true, false),
        Fullscreen::Moved { home: _ } => (false, true),
    };
    if !has_window || !settings.overlay.visible || hidden {
        return done;
    }
    done.restyle = true;
    if moved {
        return done;
    }
    done.raise = settings.overlay.always_on_top;
    if let Some(rect) = rect {
        if on_monitor {
            settings.overlay.x = Some(rect.left);
            settings.overlay.y = Some(rect.top);
        } else {
            done.rescue = true;
        }
    }
    done
}

/// While a game has the screen for itself, the place in the settings stays and the order of the
/// windows is left alone.
pub proof fn law_games_leave_the_place_alone(
    overlay: OverlaySettings,
    fullscreen: Fullscreen,
    has_window: bool,
    rect: Option<ScreenRect>,
    on_monitor: bool,
)
    requires
        !(fullscreen is Off),
    ensures
        upkeep(overlay, fullscreen, has_window, rect, on_monitor).1 == overlay,
        !upkeep(overlay, fullscreen, has_window, rect, on_monitor).0.raise,
        !upkeep(overlay, fullscreen, has_window, rect, on_monitor).0.rescue,
{
}

/// The place that is kept is one on a monitor: the place of a window that is not seen is never
/// kept.
pub proof fn law_kept_places_are_seen(
    overlay: OverlaySettings,
    fullscreen: Fullscreen,
    has_window: bool,
    rect: Option<ScreenRect>,
)
    ensures
        upkeep(overlay, fullscreen, has_window, rect, false).1 == overlay,
{
}

// --- what is said ---

/// What the overlay says at its bottom: what was to say from the start, the hint on full screen
/// while it lasts, the trouble with the window of a game, and the connection.
pub open spec fn all_notes(
    notes: Seq<Seq<char>>,
    note_until: Option<u64>,
    now: u64,
    problem: Option<Seq<char>>,
    connection: Option<Seq<char>>,
) -> Seq<Seq<char>> {
    let hinted = match note_until {
        Some(until) if now < until => notes.push(FULLSCREEN_NOTE@),
        _ => notes,
    };
    let troubled = match problem {
        Some(text) => hinted.push(text),
        None => hinted,
    };
    match connection {
        Some(text) => troubled.push(text),
        None => troubled,
    }
}

pub fn notes_of(
    notes: &Vec<String>,
    note_until: Option<u64>,
    now: u64,
    problem: Option<String>,
    connection: Option<String>,
) -> (r: Vec<String>)
    ensures
        crate::text::views(r@) == all_notes(
            crate::text::views(notes@),
            note_until,
            now,
            text_of(problem),
            text_of(connection),
        ),
{
    let mut r = crate::text::copied(notes);
    let hinted = match note_until {
        Some(until) => now < until,
        None => false,
    };
    if hinted {
        let text = FULLSCREEN_NOTE.to_string();
        proof {
            crate::text::lemma_views_push(r@, text);
        }
        r.push(text);
    }
    if let Some(text) = problem {
        proof {
            crate::text::lemma_views_push(r@, text);
        }
        r.push(text);
    }
    if let Some(text) = connection {
        proof {
            crate::text::lemma_views_push(r@, text);
        }
        r.push(text);
    }
    r
}

/// The state of the frames for the journal.
pub open spec fn frames_line(state: FpsState) -> Seq<char> {
    "кадры: "@ + state.availability.label() + ", "@ + text_of(state.summary).unwrap_or(seq![])
        + ", вывод: "@ + text_of(state.presentation).unwrap_or("—"@)
}

fn line_of(state: &FpsState) -> (r: String)
    ensures
        r@ == frames_line(*state),
{
    let mut line = "кадры: ".to_string();
    line.append(state.availability.name());
    line.append(", ");
    if let Some(summary) = &state.summary {
        line.append(summary.as_str());
    }
    line.append(", вывод: ");
    match &state.presentation {
        Some(presentation) => line.append(presentation.as_str()),
        None => line.append("—"),
    }
    proof {
        let head = "кадры: "@ + state.availability.label() + ", "@;
        assert(head + Seq::<char>::empty() =~= head);
    }
    line
}

/// The line for the journal, where the state of the frames has changed since the last one.
pub fn log_fps(logged: &mut String, state: &FpsState) -> (r: Option<String>)
    ensures
        final(logged)@ == frames_line(*state),
        text_of(r) == (if old(logged)@ == frames_line(*state) {
            None
        } else {
            Some(frames_line(*state))
        }),
{
    let line = line_of(state);
    if crate::text::same_text(line.as_str(), logged.as_str()) {
        return None;
    }
    *logged = line.clone();
    Some(line)
}

/// After the window was told what is new, it is as the settings say: seen where the overlay is
/// switched on and not hidden from a game, letting the mouse through where it is locked, on top
/// and of the size that were chosen. A window that was told nothing yet is told everything.
pub proof fn law_window_follows_the_settings(
    before: Applied,
    overlay: OverlaySettings,
    fullscreen: Fullscreen,
)
    requires
        overlay.scale.finite(),
    ensures
        ({
            let told = synced(Some(before), overlay, fullscreen);
            let seen = overlay.visible && !(fullscreen is Hidden);
            &&& told.visible == (if before.visible == seen {
                None
            } else {
                Some(seen)
            })
            &&& told.mouse_passthrough == (if before.locked == overlay.locked {
                None
            } else {
                Some(overlay.locked)
            })
            &&& told.always_on_top == (if before.always_on_top == overlay.always_on_top {
                None
            } else {
                Some(overlay.always_on_top)
            })
            &&& before.scale == overlay.scale ==> told.scale is None
            &&& told.scale is Some ==> told.scale == Some(overlay.scale)
            &&& before.scale != overlay.scale && overlay.scale.magnitude() > 0 ==> told.scale
                == Some(overlay.scale)
            &&& told.changed == (told.visible is Some || told.mouse_passthrough is Some
                || told.always_on_top is Some || told.scale is Some)
            &&& told.applied == (Applied {
                visible: seen,
                locked: overlay.locked,
                always_on_top: overlay.always_on_top,
                scale: overlay.scale,
            })
        }),
        ({
            let told = synced(None, overlay, fullscreen);
            &&& told.changed
            &&& told.visible == Some(overlay.visible && !(fullscreen is Hidden))
            &&& told.mouse_passthrough == Some(overlay.locked)
            &&& told.always_on_top == Some(overlay.always_on_top)
            &&& told.scale == Some(overlay.scale)
        }),
{
}

/// A command does what it is called after and nothing else: it shows or hides the overlay, locks
/// or unlocks it, or opens the settings, with which the overlay is seen.
pub proof fn law_commands_do_what_they_say(
    settings: SettingsView,
    window: WindowView,
    command: Command,
)
    ensures
        ({
            let after = commanded(settings, command);
            let overlay = after.overlay;
            &&& command is ToggleVisible ==> overlay.visible == !settings.overlay.visible
                && overlay.locked == settings.overlay.locked
            &&& command is ToggleLock ==> overlay.locked == !settings.overlay.locked
                && overlay.visible == settings.overlay.visible
            &&& command is OpenSettings ==> overlay.visible && overlay.locked
                == settings.overlay.locked && window_commanded(window, settings, command).open
            &&& command is Exit ==> after == settings && window_commanded(
                window,
                settings,
                command,
            ) == window
            &&& command is ToggleVisible && settings.overlay.visible ==> !window_commanded(
                window,
                settings,
                command,
            ).open
            &&& after == (SettingsView {
                overlay: OverlaySettings {
                    visible: overlay.visible,
                    locked: overlay.locked,
                    ..settings.overlay
                },
                ..settings
            })
        }),
{
}

/// A window stands sixteen points to the right of the overlay where it fits there, else as far to
/// its left where it fits there, and at the height of the overlay where it fits below.
pub proof fn law_window_stands_beside_the_overlay(
    hud: ScreenRect,
    work: ScreenRect,
    width: int,
    height: int,
)
    ensures
        hud.right + 16 + width <= work.right ==> beside_x(hud, work, width) == hud.right + 16,
        hud.right + 16 + width > work.right && hud.left - 16 - width >= work.left ==> beside_x(
            hud,
            work,
            width,
        ) + width == hud.left - 16,
        work.top <= hud.top && hud.top + height <= work.bottom ==> beside_y(hud, work, height)
            == hud.top,
{
}

/// A game that takes the whole screen hides the overlay where there is no other place for it; one
/// that has it already, or none, changes nothing.
pub proof fn law_overlay_makes_way_for_games(
    state: Fullscreen,
    note_until: Option<u64>,
    spot: Option<((i32, i32), i32, i32)>,
    has_window: bool,
    now: u64,
)
    ensures
        fullscreen_step(Fullscreen::Off, note_until, true, None, has_window, now).state is Hidden,
        !(state is Off) ==> fullscreen_step(state, note_until, true, spot, has_window, now).state
            == state,
        fullscreen_step(Fullscreen::Off, note_until, false, spot, has_window, now).state is Off,
        fullscreen_step(state, note_until, false, spot, has_window, now).state is Off,
        now + 20_000 <= u64::MAX ==> fullscreen_step(
            Fullscreen::Hidden,
            note_until,
            false,
            spot,
            has_window,
            now,
        ).note_until == Some((now + 20_000) as u64),
{
}

/// While the overlay stands at home and is seen on a monitor, the settings keep its place: the
/// upper left corner of its window. Where no monitor shows it, it is brought back.
pub proof fn law_place_of_the_overlay_is_kept(
    overlay: OverlaySettings,
    rect: ScreenRect,
    has_window: bool,
)
    requires
        overlay.visible,
        has_window,
    ensures
        ({
            let (done, kept) = upkeep(overlay, Fullscreen::Off, has_window, Some(rect), true);
            &&& kept.x == Some(rect.left)
            &&& kept.y == Some(rect.top)
            &&& kept == (OverlaySettings { x: kept.x, y: kept.y, ..overlay })
            &&& !done.rescue
            &&& done.raise == overlay.always_on_top
            &&& done.restyle
        }),
        upkeep(overlay, Fullscreen::Off, has_window, Some(rect), false).0.rescue,
{
}

/// What the overlay says comes in its order: what was to say from the start, the hint while it
/// lasts, the trouble with a game and the connection.
pub proof fn law_notes_come_in_order(
    notes: Seq<Seq<char>>,
    note_until: Option<u64>,
    now: u64,
    problem: Option<Seq<char>>,
    connection: Option<Seq<char>>,
)
    ensures
        ({
            let all = all_notes(notes, note_until, now, problem, connection);
            let hinted = note_until is Some && now < note_until->0;
            &&& all.take(notes.len() as int) == notes
            &&& connection is Some ==> all.last() == connection->0
            &&& connection is None && problem is Some ==> all.last() == problem->0
            &&& problem is Some ==> all.contains(problem->0)
            &&& all.len() == notes.len() + (if hinted {
                1int
            } else {
                0
            }) + (if problem is Some {
                1int
            } else {
                0
            }) + (if connection is Some {
                1int
            } else {
                0
            })
        }),
{
    let all = all_notes(notes, note_until, now, problem, connection);
    assert(all.take(notes.len() as int) =~= notes);
    if problem is Some {
        let hinted = note_until is Some && now < note_until->0;
        let at = notes.len() + (if hinted {
            1int
        } else {
            0
        });
        assert(all[at] == problem->0);
    }
}

/// On another monitor the overlay stands by the corner of what is free there, and where it was is
/// remembered; it goes there only where that was chosen, and only while it is seen.
pub proof fn law_overlay_goes_to_the_other_monitor(
    settings: Settings,
    window: ScreenRect,
    work: ScreenRect,
    r: Option<((i32, i32), i32, i32)>,
)
    requires
        call_ensures(other_monitor_spot, (&settings, Some(window), Some(work)), r),
        work.left + 20 <= i32::MAX,
        work.top + 20 <= i32::MAX,
    ensures
        r is Some <==> settings@.overlay.fullscreen is OtherMonitor && settings@.overlay.visible,
        r matches Some((place, x, y)) ==> place == (window.left, window.top) && x - work.left
            == 20 && y - work.top == 20,
{
}

/// The journal tells of the frames when what there is to tell has changed, and not again.
pub proof fn law_frames_are_told_once(
    logged: &mut String,
    state: FpsState,
    r: Option<String>,
)
    requires
        call_ensures(log_fps, (logged, &state), r),
    ensures
        final(logged)@ == frames_line(state),
        old(logged)@ == final(logged)@ <==> text_of(r) is None,
        text_of(r) matches Some(line) ==> line == final(logged)@,
{
}

/// The window of the settings stands on the monitor as far as it fits there: where there is no room
/// on either side of the overlay, it ends at the right edge, and where it is too large it begins at
/// the left and the upper one.
pub proof fn law_window_ends_at_the_edges(
    hud: ScreenRect,
    work: ScreenRect,
    width: int,
    height: int,
)
    requires
        work.left <= hud.left <= hud.right,
        width >= 0,
        height >= 0,
    ensures
        ({
            let x = beside_x(hud, work, width);
            let y = beside_y(hud, work, height);
            let fits_right = hud.right + 16 + width <= work.right;
            let fits_left = hud.left - 16 - width >= work.left;
            &&& width <= work.right - work.left ==> work.left <= x && (x + width <= work.right
                || fits_left)
            &&& !fits_right && !fits_left && width < work.right - work.left ==> x + width
                == work.right
            &&& !fits_right && !fits_left && width >= work.right - work.left ==> x == work.left
            &&& height <= work.bottom - work.top ==> work.top <= y && y + height <= work.bottom
            &&& height >= work.bottom - work.top ==> y == work.top
            &&& hud.top < work.top ==> y == work.top
            &&& hud.top + height > work.bottom && height < work.bottom - work.top ==> y + height
                == work.bottom
        }),
{
}

} // verus!
