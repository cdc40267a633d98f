//! What stands where in the file of the settings: each setting has a key of its own, or a place of
//! its own where a structure is written as a list, and a missing one has its usual value.

use vstd::prelude::*;

use crate::blocks::BlockKind;
use crate::blocks::Rgb;
use crate::blocks::color_of;
use crate::json::Doc;
use crate::json::field;
use crate::number::Single;
use crate::number::whole_single;
use crate::placement::Corner;
use crate::schema::games_in;
use crate::schema::kinds_in;
use crate::schema::known_kind;
use crate::schema::read_anchor;
use crate::schema::read_block;
use crate::schema::read_blocks;
use crate::schema::read_colors;
use crate::schema::read_corner;
use crate::schema::read_fps;
use crate::schema::read_frequency;
use crate::schema::read_fullscreen;
use crate::schema::read_game;
use crate::schema::read_hotkeys;
use crate::schema::read_memory;
use crate::schema::read_metrics;
use crate::schema::read_mode;
use crate::schema::read_names;
use crate::schema::read_overlay;
use crate::schema::read_sensors;
use crate::schema::read_settings;
use crate::schema::read_target;
use crate::schema::read_temperature;
use crate::schema::read_thresholds;
use crate::schema::read_units;
use crate::schema::slot;
use crate::settings::FullscreenMode;
use crate::settings::GameView;
use crate::settings::OverlayMode;
use crate::settings::TargetChoice;
use crate::units::Frequency;
use crate::units::Memory;
use crate::units::Temperature;

verus! {

/// In an object a setting stands under its key, in a list at its place.
pub proof fn law_settings_stand_under_their_keys(
    entries: Seq<(Seq<char>, Doc)>,
    items: Seq<Doc>,
    key: Seq<char>,
    value: Doc,
    index: int,
)
    ensures
        slot(Doc::Object(entries.push((key, value))), key, index) == Some(value),
        forall|other: Seq<char>|
            other != key ==> #[trigger] slot(
                Doc::Object(entries.push((key, value))),
                other,
                index,
            ) == slot(Doc::Object(entries), other, index),
        slot(Doc::Object(Seq::<(Seq<char>, Doc)>::empty()), key, index) is None,
        0 <= index < items.len() ==> slot(Doc::List(items), key, index) == Some(items[index]),
        index >= items.len() ==> slot(Doc::List(items), key, index) is None,
{
    assert(entries.push((key, value)).drop_last() =~= entries);
}

/// Where the overlay is pinned in the file: each setting is read from its own key, and a missing one is the usual one.
pub proof fn law_anchor_keys(doc: Doc)
    requires
        read_anchor(doc) is Some,
    ensures
        ({
            let v = read_anchor(doc)->0;
            &&& (slot(doc, "enabled"@, 0) matches Some(Doc::Bool(b)) ==> v.enabled == b)
            &&& (slot(doc, "enabled"@, 0) is None ==> !v.enabled)
            &&& (slot(doc, "monitor"@, 1) matches Some(Doc::Unsigned(n)) ==> (n <= usize::MAX ==> v.monitor == n))
            &&& (slot(doc, "monitor"@, 1) is None ==> v.monitor == 0)
            &&& (slot(doc, "corner"@, 2) is Some ==> Some(v.corner) == read_corner(slot(doc, "corner"@, 2)->0))
            &&& (slot(doc, "corner"@, 2) is None ==> v.corner == Corner::TopLeft)
            &&& (slot(doc, "offset_x"@, 3) matches Some(Doc::Unsigned(n)) ==> (n <= i32::MAX ==> v.offset_x == n))
            &&& (slot(doc, "offset_x"@, 3) matches Some(Doc::Negative(n)) ==> (i32::MIN <= n < 0 ==> v.offset_x == n))
            &&& (slot(doc, "offset_x"@, 3) is None ==> v.offset_x == 10)
            &&& (slot(doc, "offset_y"@, 4) matches Some(Doc::Unsigned(n)) ==> (n <= i32::MAX ==> v.offset_y == n))
            &&& (slot(doc, "offset_y"@, 4) matches Some(Doc::Negative(n)) ==> (i32::MIN <= n < 0 ==> v.offset_y == n))
            &&& (slot(doc, "offset_y"@, 4) is None ==> v.offset_y == 10)
        }),
{
}

/// The overlay in the file: each setting is read from its own key, and a missing one is the usual one.
pub proof fn law_overlay_keys(doc: Doc)
    requires
        read_overlay(doc) is Some,
    ensures
        ({
            let v = read_overlay(doc)->0;
            &&& (slot(doc, "x"@, 0) == Some(Doc::Null) ==> v.x is None)
            &&& (slot(doc, "x"@, 0) matches Some(Doc::Unsigned(n)) ==> (n <= i32::MAX ==> v.x == Some(n as i32)))
            &&& (slot(doc, "x"@, 0) matches Some(Doc::Negative(n)) ==> (i32::MIN <= n < 0 ==> v.x == Some(n as i32)))
            &&& (slot(doc, "x"@, 0) is None ==> v.x == None::<i32>)
            &&& (slot(doc, "y"@, 1) == Some(Doc::Null) ==> v.y is None)
            &&& (slot(doc, "y"@, 1) matches Some(Doc::Unsigned(n)) ==> (n <= i32::MAX ==> v.y == Some(n as i32)))
            &&& (slot(doc, "y"@, 1) matches Some(Doc::Negative(n)) ==> (i32::MIN <= n < 0 ==> v.y == Some(n as i32)))
            &&& (slot(doc, "y"@, 1) is None ==> v.y == None::<i32>)
            &&& (slot(doc, "opacity"@, 2) matches Some(Doc::Real(d)) ==> v.opacity == d.narrow())
            &&& (slot(doc, "opacity"@, 2) matches Some(Doc::Unsigned(n)) ==> v.opacity == whole_single(n as nat))
            &&& (slot(doc, "opacity"@, 2) is None ==> v.opacity.bits == 0x3f59_999a)
            &&& (slot(doc, "scale"@, 3) matches Some(Doc::Real(d)) ==> v.scale == d.narrow())
            &&& (slot(doc, "scale"@, 3) matches Some(Doc::Unsigned(n)) ==> v.scale == whole_single(n as nat))
            &&& (slot(doc, "scale"@, 3) is None ==> v.scale.bits == 0x3f80_0000)
            &&& (slot(doc, "locked"@, 4) matches Some(Doc::Bool(b)) ==> v.locked == b)
            &&& (slot(doc, "locked"@, 4) is None ==> !v.locked)
            &&& (slot(doc, "visible"@, 5) matches Some(Doc::Bool(b)) ==> v.visible == b)
            &&& (slot(doc, "visible"@, 5) is None ==> v.visible)
            &&& (slot(doc, "always_on_top"@, 6) matches Some(Doc::Bool(b)) ==> v.always_on_top == b)
            &&& (slot(doc, "always_on_top"@, 6) is None ==> v.always_on_top)
            &&& (slot(doc, "show_graph"@, 7) matches Some(Doc::Bool(b)) ==> v.show_graph == b)
            &&& (slot(doc, "show_graph"@, 7) is None ==> v.show_graph)
            &&& (slot(doc, "show_header"@, 8) matches Some(Doc::Bool(b)) ==> v.show_header == b)
            &&& (slot(doc, "show_header"@, 8) is None ==> v.show_header)
            &&& (slot(doc, "fullscreen"@, 9) is Some ==> Some(v.fullscreen) == read_fullscreen(slot(doc, "fullscreen"@, 9)->0))
            &&& (slot(doc, "fullscreen"@, 9) is None ==> v.fullscreen == FullscreenMode::Hide)
            &&& (slot(doc, "width_scale"@, 10) matches Some(Doc::Real(d)) ==> v.width_scale == d.narrow())
            &&& (slot(doc, "width_scale"@, 10) matches Some(Doc::Unsigned(n)) ==> v.width_scale == whole_single(n as nat))
            &&& (slot(doc, "width_scale"@, 10) is None ==> v.width_scale.bits == 0x3f80_0000)
            &&& (slot(doc, "anchor"@, 11) is Some ==> Some(v.anchor) == read_anchor(slot(doc, "anchor"@, 11)->0))
            &&& (slot(doc, "anchor"@, 11) is None ==> Some(v.anchor) == read_anchor(Doc::Object(Seq::<(Seq<char>, Doc)>::empty())))
            &&& (slot(doc, "mode"@, 12) is Some ==> Some(v.mode) == read_mode(slot(doc, "mode"@, 12)->0))
            &&& (slot(doc, "mode"@, 12) is None ==> v.mode == OverlayMode::Full)
            &&& (slot(doc, "strip_height"@, 13) matches Some(Doc::Real(d)) ==> v.strip_height == d.narrow())
            &&& (slot(doc, "strip_height"@, 13) matches Some(Doc::Unsigned(n)) ==> v.strip_height == whole_single(n as nat))
            &&& (slot(doc, "strip_height"@, 13) is None ==> v.strip_height.bits == 0x41e0_0000)
            &&& (slot(doc, "show_clock"@, 14) matches Some(Doc::Bool(b)) ==> v.show_clock == b)
            &&& (slot(doc, "show_clock"@, 14) is None ==> !v.show_clock)
            &&& (slot(doc, "game_only"@, 15) matches Some(Doc::Bool(b)) ==> v.game_only == b)
            &&& (slot(doc, "game_only"@, 15) is None ==> !v.game_only)
        }),
{
    let empty = Doc::Object(Seq::<(Seq<char>, Doc)>::empty());
    lemma_usual_anchor();
}

/// The colours of a block in the file: each setting is read from its own key, and a missing one is the usual one.
pub proof fn law_colors_keys(doc: Doc)
    requires
        read_colors(doc) is Some,
    ensures
        ({
            let v = read_colors(doc)->0;
            &&& (slot(doc, "header"@, 0) matches Some(Doc::Text(s)) ==> v.header == color_of(s))
            &&& (slot(doc, "header"@, 0) is None ==> v.header == None::<Rgb>)
            &&& (slot(doc, "labels"@, 1) matches Some(Doc::Text(s)) ==> v.labels == color_of(s))
            &&& (slot(doc, "labels"@, 1) is None ==> v.labels == None::<Rgb>)
            &&& (slot(doc, "values"@, 2) matches Some(Doc::Text(s)) ==> v.values == color_of(s))
            &&& (slot(doc, "values"@, 2) is None ==> v.values == None::<Rgb>)
            &&& (slot(doc, "accent"@, 3) matches Some(Doc::Text(s)) ==> v.accent == color_of(s))
            &&& (slot(doc, "accent"@, 3) is None ==> v.accent == None::<Rgb>)
        }),
{
}

/// The thresholds of a block in the file: each setting is read from its own key, and a missing one is the usual one.
pub proof fn law_thresholds_keys(doc: Doc)
    requires
        read_thresholds(doc) is Some,
    ensures
        ({
            let v = read_thresholds(doc)->0;
            &&& (slot(doc, "warn_c"@, 0) matches Some(Doc::Real(d)) ==> v.warn_c == d.narrow())
            &&& (slot(doc, "warn_c"@, 0) matches Some(Doc::Unsigned(n)) ==> v.warn_c == whole_single(n as nat))
            &&& (slot(doc, "warn_c"@, 0) is None ==> v.warn_c.bits == 0x42a0_0000)
            &&& (slot(doc, "critical_c"@, 1) matches Some(Doc::Real(d)) ==> v.critical_c == d.narrow())
            &&& (slot(doc, "critical_c"@, 1) matches Some(Doc::Unsigned(n)) ==> v.critical_c == whole_single(n as nat))
            &&& (slot(doc, "critical_c"@, 1) is None ==> v.critical_c.bits == 0x42b4_0000)
            &&& (slot(doc, "color_load"@, 2) matches Some(Doc::Bool(b)) ==> v.color_load == b)
            &&& (slot(doc, "color_load"@, 2) is None ==> !v.color_load)
        }),
{
}

/// A block in the file: each setting is read from its own key, and a missing one is the usual one.
pub proof fn law_block_keys(doc: Doc)
    requires
        read_block(doc) is Some,
    ensures
        ({
            let v = read_block(doc)->0;
            &&& (slot(doc, "enabled"@, 0) matches Some(Doc::Bool(b)) ==> v.enabled == b)
            &&& (slot(doc, "enabled"@, 0) is None ==> v.enabled)
            &&& (slot(doc, "title"@, 1) matches Some(Doc::Text(s)) ==> v.title == s)
            &&& (slot(doc, "title"@, 1) is None ==> v.title == Seq::<char>::empty())
            &&& (slot(doc, "device_name"@, 2) matches Some(Doc::Bool(b)) ==> v.device_name == b)
            &&& (slot(doc, "device_name"@, 2) is None ==> !v.device_name)
            &&& (slot(doc, "colors"@, 3) is Some ==> Some(v.colors) == read_colors(slot(doc, "colors"@, 3)->0))
            &&& (slot(doc, "colors"@, 3) is None ==> Some(v.colors) == read_colors(Doc::Object(Seq::<(Seq<char>, Doc)>::empty())))
            &&& (slot(doc, "thresholds"@, 4) is Some ==> Some(v.thresholds) == read_thresholds(slot(doc, "thresholds"@, 4)->0))
            &&& (slot(doc, "thresholds"@, 4) is None ==> Some(v.thresholds) == read_thresholds(Doc::Object(Seq::<(Seq<char>, Doc)>::empty())))
        }),
{
    let empty = Doc::Object(Seq::<(Seq<char>, Doc)>::empty());
    lemma_usual_colors();
    lemma_usual_thresholds();
}

/// The blocks in the file: each setting is read from its own key, and a missing one is the usual one.
pub proof fn law_blocks_keys(doc: Doc)
    requires
        read_blocks(doc) is Some,
    ensures
        ({
            let v = read_blocks(doc)->0;
            &&& (slot(doc, "gpu"@, 0) is Some ==> Some(v.gpu) == read_block(slot(doc, "gpu"@, 0)->0))
            &&& (slot(doc, "gpu"@, 0) is None ==> Some(v.gpu) == read_block(Doc::Object(Seq::<(Seq<char>, Doc)>::empty())))
            &&& (slot(doc, "cpu"@, 1) is Some ==> Some(v.cpu) == read_block(slot(doc, "cpu"@, 1)->0))
            &&& (slot(doc, "cpu"@, 1) is None ==> Some(v.cpu) == read_block(Doc::Object(Seq::<(Seq<char>, Doc)>::empty())))
            &&& (slot(doc, "ram"@, 2) is Some ==> Some(v.ram) == read_block(slot(doc, "ram"@, 2)->0))
            &&& (slot(doc, "ram"@, 2) is None ==> Some(v.ram) == read_block(Doc::Object(Seq::<(Seq<char>, Doc)>::empty())))
            &&& (slot(doc, "fps"@, 3) is Some ==> Some(v.fps) == read_block(slot(doc, "fps"@, 3)->0))
            &&& (slot(doc, "fps"@, 3) is None ==> Some(v.fps) == read_block(Doc::Object(Seq::<(Seq<char>, Doc)>::empty())))
            &&& (slot(doc, "order"@, 4) matches Some(Doc::List(items)) ==> v.order == kinds_in(items))
            &&& (slot(doc, "order"@, 4) is None ==> v.order == seq![BlockKind::Gpu, BlockKind::Cpu, BlockKind::Ram, BlockKind::Fps])
        }),
{
    let empty = Doc::Object(Seq::<(Seq<char>, Doc)>::empty());
    lemma_usual_block();
}

/// The rows in the file: each setting is read from its own key, and a missing one is the usual one.
pub proof fn law_metrics_keys(doc: Doc)
    requires
        read_metrics(doc) is Some,
    ensures
        ({
            let v = read_metrics(doc)->0;
            &&& (slot(doc, "disabled"@, 0) is Some ==> Some(v.disabled) == read_names(slot(doc, "disabled"@, 0)->0))
            &&& (slot(doc, "disabled"@, 0) is None ==> v.disabled == Seq::<Seq<char>>::empty())
            &&& (slot(doc, "enabled"@, 1) is Some ==> Some(v.enabled) == read_names(slot(doc, "enabled"@, 1)->0))
            &&& (slot(doc, "enabled"@, 1) is None ==> v.enabled == Seq::<Seq<char>>::empty())
            &&& (slot(doc, "hide_unavailable"@, 2) matches Some(Doc::Bool(b)) ==> v.hide_unavailable == b)
            &&& (slot(doc, "hide_unavailable"@, 2) is None ==> !v.hide_unavailable)
        }),
{
}

/// The units in the file: each setting is read from its own key, and a missing one is the usual one.
pub proof fn law_units_keys(doc: Doc)
    requires
        read_units(doc) is Some,
    ensures
        ({
            let v = read_units(doc)->0;
            &&& (slot(doc, "temperature"@, 0) is Some ==> Some(v.temperature) == read_temperature(slot(doc, "temperature"@, 0)->0))
            &&& (slot(doc, "temperature"@, 0) is None ==> v.temperature == Temperature::Celsius)
            &&& (slot(doc, "frequency"@, 1) is Some ==> Some(v.frequency) == read_frequency(slot(doc, "frequency"@, 1)->0))
            &&& (slot(doc, "frequency"@, 1) is None ==> v.frequency == Frequency::Auto)
            &&& (slot(doc, "memory"@, 2) is Some ==> Some(v.memory) == read_memory(slot(doc, "memory"@, 2)->0))
            &&& (slot(doc, "memory"@, 2) is None ==> v.memory == Memory::Gb)
        }),
{
}

/// The sensors in the file: each setting is read from its own key, and a missing one is the usual one.
pub proof fn law_sensors_keys(doc: Doc)
    requires
        read_sensors(doc) is Some,
    ensures
        ({
            let v = read_sensors(doc)->0;
            &&& (slot(doc, "hardware_interval_ms"@, 0) matches Some(Doc::Unsigned(n)) ==> (n <= u64::MAX ==> v.hardware_interval_ms == n))
            &&& (slot(doc, "hardware_interval_ms"@, 0) is None ==> v.hardware_interval_ms == 1000)
        }),
{
}

/// The frames in the file: each setting is read from its own key, and a missing one is the usual one.
pub proof fn law_fps_keys(doc: Doc)
    requires
        read_fps(doc) is Some,
    ensures
        ({
            let v = read_fps(doc)->0;
            &&& (slot(doc, "target"@, 0) is Some ==> Some(v.target) == read_target(slot(doc, "target"@, 0)->0))
            &&& (slot(doc, "target"@, 0) is None ==> v.target == TargetChoice::Auto)
            &&& (slot(doc, "manual_process"@, 1) == Some(Doc::Null) ==> v.manual_process is None)
            &&& (slot(doc, "manual_process"@, 1) matches Some(Doc::Text(s)) ==> v.manual_process == Some(s))
            &&& (slot(doc, "manual_process"@, 1) is None ==> v.manual_process == None::<Seq<char>>)
            &&& (slot(doc, "manual_pid"@, 2) == Some(Doc::Null) ==> v.manual_pid is None)
            &&& (slot(doc, "manual_pid"@, 2) matches Some(Doc::Unsigned(n)) ==> (n <= u32::MAX ==> v.manual_pid == Some(n as u32)))
            &&& (slot(doc, "manual_pid"@, 2) is None ==> v.manual_pid == None::<u32>)
            &&& (slot(doc, "presentmon_path"@, 3) == Some(Doc::Null) ==> v.presentmon_path is None)
            &&& (slot(doc, "presentmon_path"@, 3) matches Some(Doc::Text(s)) ==> v.presentmon_path == Some(s))
            &&& (slot(doc, "presentmon_path"@, 3) is None ==> v.presentmon_path == None::<Seq<char>>)
        }),
{
}

/// The hotkeys in the file: each setting is read from its own key, and a missing one is the usual one.
pub proof fn law_hotkeys_keys(doc: Doc)
    requires
        read_hotkeys(doc) is Some,
    ensures
        ({
            let v = read_hotkeys(doc)->0;
            &&& (slot(doc, "toggle_visibility"@, 0) matches Some(Doc::Text(s)) ==> v.toggle_visibility == s)
            &&& (slot(doc, "toggle_visibility"@, 0) is None ==> v.toggle_visibility == "Ctrl+Shift+F11"@)
            &&& (slot(doc, "toggle_lock"@, 1) matches Some(Doc::Text(s)) ==> v.toggle_lock == s)
            &&& (slot(doc, "toggle_lock"@, 1) is None ==> v.toggle_lock == "Ctrl+Shift+F10"@)
        }),
{
}

/// A game in the file: each setting is read from its own key, and a missing one is the usual one.
pub proof fn law_game_keys(doc: Doc)
    requires
        read_game(doc) is Some,
    ensures
        ({
            let v = read_game(doc)->0;
            &&& (slot(doc, "name"@, 0) matches Some(Doc::Text(s)) ==> v.name == s)
            &&& (slot(doc, "name"@, 0) is None ==> v.name == Seq::<char>::empty())
            &&& (slot(doc, "path"@, 1) matches Some(Doc::Text(s)) ==> v.path == s)
            &&& (slot(doc, "path"@, 1) is None ==> v.path == Seq::<char>::empty())
            &&& (slot(doc, "arguments"@, 2) matches Some(Doc::Text(s)) ==> v.arguments == s)
            &&& (slot(doc, "arguments"@, 2) is None ==> v.arguments == Seq::<char>::empty())
            &&& (slot(doc, "borderless"@, 3) matches Some(Doc::Bool(b)) ==> v.borderless == b)
            &&& (slot(doc, "borderless"@, 3) is None ==> !v.borderless)
            &&& (slot(doc, "window_exe"@, 4) == Some(Doc::Null) ==> v.window_exe is None)
            &&& (slot(doc, "window_exe"@, 4) matches Some(Doc::Text(s)) ==> v.window_exe == Some(s))
            &&& (slot(doc, "window_exe"@, 4) is None ==> v.window_exe == None::<Seq<char>>)
        }),
{
}

/// The settings in the file: each setting is read from its own key, and a missing one is the usual one.
pub proof fn law_settings_keys(doc: Doc)
    requires
        read_settings(doc) is Some,
    ensures
        ({
            let v = read_settings(doc)->0;
            &&& (slot(doc, "version"@, 0) matches Some(Doc::Unsigned(n)) ==> (n <= u32::MAX ==> v.version == n))
            &&& (slot(doc, "version"@, 0) is None ==> v.version == 3)
            &&& (slot(doc, "overlay"@, 1) is Some ==> Some(v.overlay) == read_overlay(slot(doc, "overlay"@, 1)->0))
            &&& (slot(doc, "overlay"@, 1) is None ==> Some(v.overlay) == read_overlay(Doc::Object(Seq::<(Seq<char>, Doc)>::empty())))
            &&& (slot(doc, "blocks"@, 2) is Some ==> Some(v.blocks) == read_blocks(slot(doc, "blocks"@, 2)->0))
            &&& (slot(doc, "blocks"@, 2) is None ==> Some(v.blocks) == read_blocks(Doc::Object(Seq::<(Seq<char>, Doc)>::empty())))
            &&& (slot(doc, "metrics"@, 3) is Some ==> Some(v.metrics) == read_metrics(slot(doc, "metrics"@, 3)->0))
            &&& (slot(doc, "metrics"@, 3) is None ==> Some(v.metrics) == read_metrics(Doc::Object(Seq::<(Seq<char>, Doc)>::empty())))
            &&& (slot(doc, "units"@, 4) is Some ==> Some(v.units) == read_units(slot(doc, "units"@, 4)->0))
            &&& (slot(doc, "units"@, 4) is None ==> Some(v.units) == read_units(Doc::Object(Seq::<(Seq<char>, Doc)>::empty())))
            &&& (slot(doc, "sensors"@, 5) is Some ==> Some(v.sensors) == read_sensors(slot(doc, "sensors"@, 5)->0))
            &&& (slot(doc, "sensors"@, 5) is None ==> Some(v.sensors) == read_sensors(Doc::Object(Seq::<(Seq<char>, Doc)>::empty())))
            &&& (slot(doc, "fps"@, 6) is Some ==> Some(v.fps) == read_fps(slot(doc, "fps"@, 6)->0))
            &&& (slot(doc, "fps"@, 6) is None ==> Some(v.fps) == read_fps(Doc::Object(Seq::<(Seq<char>, Doc)>::empty())))
            &&& (slot(doc, "hotkeys"@, 7) is Some ==> Some(v.hotkeys) == read_hotkeys(slot(doc, "hotkeys"@, 7)->0))
            &&& (slot(doc, "hotkeys"@, 7) is None ==> Some(v.hotkeys) == read_hotkeys(Doc::Object(Seq::<(Seq<char>, Doc)>::empty())))
            &&& (slot(doc, "setup_done"@, 8) matches Some(Doc::Bool(b)) ==> v.setup_done == b)
            &&& (slot(doc, "setup_done"@, 8) is None ==> !v.setup_done)
            &&& (slot(doc, "games"@, 9) matches Some(Doc::List(items)) ==> Some(v.games) == games_in(items))
            &&& (slot(doc, "games"@, 9) is None ==> v.games == Seq::<GameView>::empty())
        }),
{
    reveal(read_settings);
    let empty = Doc::Object(Seq::<(Seq<char>, Doc)>::empty());
    lemma_usual_blocks();
    lemma_usual_fps();
    lemma_usual_hotkeys();
    lemma_usual_metrics();
    lemma_usual_overlay();
    lemma_usual_sensors();
    lemma_usual_units();
}

proof fn lemma_usual_anchor()
    ensures
        read_anchor(Doc::Object(Seq::<(Seq<char>, Doc)>::empty())) == Some(crate::placement::default_anchor()),
{
    assert(forall|key: Seq<char>| #[trigger]
        field(Seq::<(Seq<char>, Doc)>::empty(), key) is None);
}

proof fn lemma_usual_colors()
    ensures
        read_colors(Doc::Object(Seq::<(Seq<char>, Doc)>::empty())) == Some(crate::blocks::default_colors()),
{
    assert(forall|key: Seq<char>| #[trigger]
        field(Seq::<(Seq<char>, Doc)>::empty(), key) is None);
}

proof fn lemma_usual_thresholds()
    ensures
        read_thresholds(Doc::Object(Seq::<(Seq<char>, Doc)>::empty())) == Some(crate::blocks::default_thresholds()),
{
    assert(forall|key: Seq<char>| #[trigger]
        field(Seq::<(Seq<char>, Doc)>::empty(), key) is None);
}

proof fn lemma_usual_block()
    ensures
        read_block(Doc::Object(Seq::<(Seq<char>, Doc)>::empty())) == Some(crate::blocks::default_block()),
{
    assert(forall|key: Seq<char>| #[trigger]
        field(Seq::<(Seq<char>, Doc)>::empty(), key) is None);
}

proof fn lemma_usual_overlay()
    ensures
        read_overlay(Doc::Object(Seq::<(Seq<char>, Doc)>::empty())) == Some(crate::settings::default_overlay()),
{
    assert(forall|key: Seq<char>| #[trigger]
        field(Seq::<(Seq<char>, Doc)>::empty(), key) is None);
}

proof fn lemma_usual_blocks()
    ensures
        read_blocks(Doc::Object(Seq::<(Seq<char>, Doc)>::empty())) == Some(crate::blocks::default_blocks()),
{
    assert(forall|key: Seq<char>| #[trigger]
        field(Seq::<(Seq<char>, Doc)>::empty(), key) is None);
}

proof fn lemma_usual_metrics()
    ensures
        read_metrics(Doc::Object(Seq::<(Seq<char>, Doc)>::empty())) == Some(crate::settings::default_metrics()),
{
    assert(forall|key: Seq<char>| #[trigger]
        field(Seq::<(Seq<char>, Doc)>::empty(), key) is None);
}

proof fn lemma_usual_units()
    ensures
        read_units(Doc::Object(Seq::<(Seq<char>, Doc)>::empty())) == Some(crate::units::default_units()),
{
    assert(forall|key: Seq<char>| #[trigger]
        field(Seq::<(Seq<char>, Doc)>::empty(), key) is None);
}

proof fn lemma_usual_sensors()
    ensures
        read_sensors(Doc::Object(Seq::<(Seq<char>, Doc)>::empty())) == Some(crate::settings::default_sensors()),
{
    assert(forall|key: Seq<char>| #[trigger]
        field(Seq::<(Seq<char>, Doc)>::empty(), key) is None);
}

proof fn lemma_usual_fps()
    ensures
        read_fps(Doc::Object(Seq::<(Seq<char>, Doc)>::empty())) == Some(crate::settings::default_fps()),
{
    assert(forall|key: Seq<char>| #[trigger]
        field(Seq::<(Seq<char>, Doc)>::empty(), key) is None);
}

proof fn lemma_usual_hotkeys()
    ensures
        read_hotkeys(Doc::Object(Seq::<(Seq<char>, Doc)>::empty())) == Some(crate::settings::default_hotkeys()),
{
    assert(forall|key: Seq<char>| #[trigger]
        field(Seq::<(Seq<char>, Doc)>::empty(), key) is None);
}

/// The names in the file: an unknown one means the usual choice.
pub proof fn law_corner_names(name: Seq<char>)
    ensures
        name == "top_left"@ ==> read_corner(Doc::Text(name)) == Some(Corner::TopLeft),
        name == "top_center"@ ==> read_corner(Doc::Text(name)) == Some(Corner::TopCenter),
        name == "top_right"@ ==> read_corner(Doc::Text(name)) == Some(Corner::TopRight),
        name == "bottom_left"@ ==> read_corner(Doc::Text(name)) == Some(Corner::BottomLeft),
        name == "bottom_center"@ ==> read_corner(Doc::Text(name)) == Some(Corner::BottomCenter),
        name == "bottom_right"@ ==> read_corner(Doc::Text(name)) == Some(Corner::BottomRight),
        name != "top_left"@ && name != "top_center"@ && name != "top_right"@ && name != "bottom_left"@ && name != "bottom_center"@ && name != "bottom_right"@ ==> read_corner(Doc::Text(name)) == Some(Corner::TopLeft),
{
    reveal_strlit("top_left");
    reveal_strlit("top_center");
    reveal_strlit("top_right");
    reveal_strlit("bottom_left");
    reveal_strlit("bottom_center");
    reveal_strlit("bottom_right");
    assert("top_left"@.len() == 8);
    assert("top_center"@.len() == 10);
    assert("top_right"@.len() == 9);
    assert("bottom_left"@.len() == 11);
    assert("bottom_center"@.len() == 13);
    assert("bottom_right"@.len() == 12);
}

/// The names in the file: an unknown one means the usual choice.
pub proof fn law_mode_names(name: Seq<char>)
    ensures
        name == "full"@ ==> read_mode(Doc::Text(name)) == Some(OverlayMode::Full),
        name == "strip"@ ==> read_mode(Doc::Text(name)) == Some(OverlayMode::Strip),
        name != "full"@ && name != "strip"@ ==> read_mode(Doc::Text(name)) == Some(OverlayMode::Full),
{
    reveal_strlit("full");
    reveal_strlit("strip");
    assert("full"@.len() == 4);
    assert("strip"@.len() == 5);
}

/// The names in the file: an unknown one means the usual choice.
pub proof fn law_fullscreen_names(name: Seq<char>)
    ensures
        name == "hide"@ ==> read_fullscreen(Doc::Text(name)) == Some(FullscreenMode::Hide),
        name == "other_monitor"@ ==> read_fullscreen(Doc::Text(name)) == Some(FullscreenMode::OtherMonitor),
        name != "hide"@ && name != "other_monitor"@ ==> read_fullscreen(Doc::Text(name)) == Some(FullscreenMode::Hide),
{
    reveal_strlit("hide");
    reveal_strlit("other_monitor");
    assert("hide"@.len() == 4);
    assert("other_monitor"@.len() == 13);
}

/// The names in the file: an unknown one means the usual choice.
pub proof fn law_temperature_names(name: Seq<char>)
    ensures
        name == "celsius"@ ==> read_temperature(Doc::Text(name)) == Some(Temperature::Celsius),
        name == "fahrenheit"@ ==> read_temperature(Doc::Text(name)) == Some(Temperature::Fahrenheit),
        name != "celsius"@ && name != "fahrenheit"@ ==> read_temperature(Doc::Text(name)) == Some(Temperature::Celsius),
{
    reveal_strlit("celsius");
    reveal_strlit("fahrenheit");
    assert("celsius"@.len() == 7);
    assert("fahrenheit"@.len() == 10);
}

/// The names in the file: an unknown one means the usual choice.
pub proof fn law_frequency_names(name: Seq<char>)
    ensures
        name == "auto"@ ==> read_frequency(Doc::Text(name)) == Some(Frequency::Auto),
        name == "mhz"@ ==> read_frequency(Doc::Text(name)) == Some(Frequency::Mhz),
        name == "ghz"@ ==> read_frequency(Doc::Text(name)) == Some(Frequency::Ghz),
        name != "auto"@ && name != "mhz"@ && name != "ghz"@ ==> read_frequency(Doc::Text(name)) == Some(Frequency::Auto),
{
    reveal_strlit("auto");
    reveal_strlit("mhz");
    reveal_strlit("ghz");
    assert("auto"@.len() == 4);
    assert("mhz"@.len() == 3);
    assert("ghz"@.len() == 3);
    assert("mhz"@[0] == 'm');
    assert("ghz"@[0] == 'g');
}

/// The names in the file: an unknown one means the usual choice.
pub proof fn law_memory_names(name: Seq<char>)
    ensures
        name == "gb"@ ==> read_memory(Doc::Text(name)) == Some(Memory::Gb),
        name == "mb"@ ==> read_memory(Doc::Text(name)) == Some(Memory::Mb),
        name != "gb"@ && name != "mb"@ ==> read_memory(Doc::Text(name)) == Some(Memory::Gb),
{
    reveal_strlit("gb");
    reveal_strlit("mb");
    assert("gb"@.len() == 2);
    assert("mb"@.len() == 2);
    assert("gb"@[0] == 'g');
    assert("mb"@[0] == 'm');
}

/// The names in the file: an unknown one makes the file unreadable.
pub proof fn law_target_names(name: Seq<char>)
    ensures
        name == "auto"@ ==> read_target(Doc::Text(name)) == Some(TargetChoice::Auto),
        name == "manual"@ ==> read_target(Doc::Text(name)) == Some(TargetChoice::Manual),
        name != "auto"@ && name != "manual"@ ==> read_target(Doc::Text(name)) == None::<TargetChoice>,
{
    reveal_strlit("auto");
    reveal_strlit("manual");
    assert("auto"@.len() == 4);
    assert("manual"@.len() == 6);
}

/// The names of the blocks in the file; an unknown one is skipped.
pub proof fn law_block_names(items: Seq<Doc>, name: Seq<char>)
    ensures
        name == "gpu"@ ==> kinds_in(items.push(Doc::Text(name))) == kinds_in(items).push(
            BlockKind::Gpu,
        ),
        name == "cpu"@ ==> kinds_in(items.push(Doc::Text(name))) == kinds_in(items).push(
            BlockKind::Cpu,
        ),
        name == "ram"@ ==> kinds_in(items.push(Doc::Text(name))) == kinds_in(items).push(
            BlockKind::Ram,
        ),
        name == "fps"@ ==> kinds_in(items.push(Doc::Text(name))) == kinds_in(items).push(
            BlockKind::Fps,
        ),
        name != "gpu"@ && name != "cpu"@ && name != "ram"@ && name != "fps"@ ==> kinds_in(
            items.push(Doc::Text(name)),
        ) == kinds_in(items),
        kinds_in(Seq::<Doc>::empty()) == Seq::<BlockKind>::empty(),
{
    assert(items.push(Doc::Text(name)).drop_last() =~= items);
    reveal_strlit("gpu");
    reveal_strlit("cpu");
    reveal_strlit("ram");
    reveal_strlit("fps");
    assert("gpu"@[0] == 'g');
    assert("cpu"@[0] == 'c');
    assert("ram"@[0] == 'r');
    assert("fps"@[0] == 'f');
}

} // verus!
