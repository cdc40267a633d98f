//! The settings as a JSON document: writing, and what reading gives back of it.

use vstd::prelude::*;

use crate::blocks::color_text;
use crate::blocks::law_color_reads_back;
use crate::blocks::Block;
use crate::blocks::BlockColors;
use crate::blocks::BlockKind;
use crate::blocks::BlockView;
use crate::blocks::Blocks;
use crate::blocks::BlocksView;
use crate::blocks::Rgb;
use crate::blocks::Thresholds;
use crate::json::docs;
use crate::json::field;
use crate::json::fields;
use crate::json::Doc;
use crate::json::Json;
use crate::names::in_order;
use crate::names::law_set_of_ordered;
use crate::names::NameSet;
use crate::number::lemma_widened_narrows_back;
use crate::number::Single;
use crate::paths::text_of;
use crate::placement::Anchor;
use crate::placement::Corner;
use crate::schema::corner_name;
use crate::schema::corner_text;
use crate::schema::frequency_name;
use crate::schema::frequency_text;
use crate::schema::fullscreen_name;
use crate::schema::fullscreen_text;
use crate::schema::games_in;
use crate::schema::kind_name;
use crate::schema::kind_text;
use crate::schema::kinds_in;
use crate::schema::known_corner;
use crate::schema::known_frequency;
use crate::schema::known_fullscreen;
use crate::schema::known_kind;
use crate::schema::known_memory;
use crate::schema::known_mode;
use crate::schema::known_target;
use crate::schema::known_temperature;
use crate::schema::memory_name;
use crate::schema::memory_text;
use crate::schema::mode_name;
use crate::schema::mode_text;
use crate::schema::read_anchor;
use crate::schema::read_block;
use crate::schema::read_blocks;
use crate::schema::read_colors;
use crate::schema::read_fps;
use crate::schema::read_game;
use crate::schema::read_hotkeys;
use crate::schema::read_metrics;
use crate::schema::read_names;
use crate::schema::read_overlay;
use crate::schema::read_sensors;
use crate::schema::read_settings;
use crate::schema::read_single;
use crate::schema::read_thresholds;
use crate::schema::read_units;
use crate::schema::slot;
use crate::schema::target_name;
use crate::schema::target_text;
use crate::schema::temperature_name;
use crate::schema::temperature_text;
use crate::schema::texts_in;
use crate::settings::game_views;
use crate::settings::FpsSettings;
use crate::settings::FpsView;
use crate::settings::FullscreenMode;
use crate::settings::GameProfile;
use crate::settings::GameView;
use crate::settings::HotkeySettings;
use crate::settings::HotkeysView;
use crate::settings::MetricSettings;
use crate::settings::MetricsView;
use crate::settings::OverlayMode;
use crate::settings::OverlaySettings;
use crate::settings::SensorOptions;
use crate::settings::Settings;
use crate::settings::SettingsView;
use crate::settings::TargetChoice;
use crate::units::Frequency;
use crate::units::Memory;
use crate::units::Temperature;
use crate::units::Units;

verus! {

/// Adds an entry at the end of an object.
fn entry(list: &mut Vec<(String, Json)>, key: &str, value: Json)
    ensures
        fields(final(list)@) == fields(old(list)@).push((key@, value.doc())),
{
    let ghost before = list@;
    list.push((key.to_owned(), value));
    proof {
        assert(list@.drop_last() =~= before);
    }
}

/// A key is looked up from the end of an object.
pub broadcast proof fn lemma_field_push(
    entries: Seq<(Seq<char>, Doc)>,
    k: Seq<char>,
    v: Doc,
    key: Seq<char>,
)
    ensures
        #[trigger] field(entries.push((k, v)), key) == (if k == key {
            Some(v)
        } else {
            field(entries, key)
        }),
{
    assert(entries.push((k, v)).drop_last() =~= entries);
}

pub open spec fn write_i32(n: i32) -> Doc {
    if n >= 0 {
        Doc::Unsigned(n as u64)
    } else {
        Doc::Negative(n as i64)
    }
}

fn i32_json(n: i32) -> (r: Json)
    ensures
        r.doc() == write_i32(n),
{
    if n >= 0 {
        Json::Unsigned(n as u64)
    } else {
        Json::Negative(n as i64)
    }
}

pub open spec fn write_opt_i32(n: Option<i32>) -> Doc {
    match n {
        Some(n) => write_i32(n),
        None => Doc::Null,
    }
}

fn opt_i32_json(n: Option<i32>) -> (r: Json)
    ensures
        r.doc() == write_opt_i32(n),
{
    match n {
        Some(n) => i32_json(n),
        None => Json::Null,
    }
}

pub open spec fn write_opt_u32(n: Option<u32>) -> Doc {
    match n {
        Some(n) => Doc::Unsigned(n as u64),
        None => Doc::Null,
    }
}

fn opt_u32_json(n: Option<u32>) -> (r: Json)
    ensures
        r.doc() == write_opt_u32(n),
{
    match n {
        Some(n) => Json::Unsigned(n as u64),
        None => Json::Null,
    }
}

/// A number; what is no number is written as nothing.
pub open spec fn write_single(s: Single) -> Doc {
    if s.finite() {
        Doc::Real(s.wide())
    } else {
        Doc::Null
    }
}

fn single_json(s: Single) -> (r: Json)
    ensures
        r.doc() == write_single(s),
{
    if s.is_finite() {
        Json::Real(s.widened())
    } else {
        Json::Null
    }
}

pub open spec fn write_opt_text(text: Option<Seq<char>>) -> Doc {
    match text {
        Some(s) => Doc::Text(s),
        None => Doc::Null,
    }
}

fn opt_text_json(text: &Option<String>) -> (r: Json)
    ensures
        r.doc() == write_opt_text(text_of(*text)),
{
    match text {
        Some(s) => Json::Text(s.clone()),
        None => Json::Null,
    }
}

/// A list of texts.
pub open spec fn write_texts(texts: Seq<Seq<char>>) -> Seq<Doc> {
    texts.map_values(|s: Seq<char>| Doc::Text(s))
}

pub open spec fn write_names(names: Seq<Seq<char>>) -> Doc {
    Doc::List(write_texts(names))
}

fn names_json(names: &NameSet) -> (r: Json)
    ensures
        r.doc() == write_names(names@),
{
    let mut list: Vec<Json> = Vec::new();
    let mut i: usize = 0;
    proof {
        assert(write_texts(names@.take(0)) =~= docs(list@));
    }
    while i < names.names.len()
        invariant
            i <= names.names.len(),
            docs(list@) == write_texts(names@.take(i as int)),
        decreases names.names.len() - i,
    {
        let ghost before = list@;
        let item = Json::Text(names.names[i].clone());
        proof {
            assert(item.doc() == Doc::Text(names@[i as int]));
        }
        list.push(item);
        proof {
            assert(list@.drop_last() =~= before);
            assert(write_texts(names@.take(i + 1)) =~= write_texts(names@.take(i as int)).push(
                Doc::Text(names@[i as int]),
            ));
        }
        i += 1;
    }
    proof {
        assert(names@.take(names@.len() as int) =~= names@);
    }
    Json::List(list)
}

/// An order of blocks by their names.
pub open spec fn write_kinds(kinds: Seq<BlockKind>) -> Seq<Doc> {
    kinds.map_values(|kind: BlockKind| Doc::Text(kind_name(kind)))
}

pub open spec fn write_order(kinds: Seq<BlockKind>) -> Doc {
    Doc::List(write_kinds(kinds))
}

fn order_json(kinds: &Vec<BlockKind>) -> (r: Json)
    ensures
        r.doc() == write_order(kinds@),
{
    let mut list: Vec<Json> = Vec::new();
    let mut i: usize = 0;
    proof {
        assert(write_kinds(kinds@.take(0)) =~= docs(list@));
    }
    while i < kinds.len()
        invariant
            i <= kinds.len(),
            docs(list@) == write_kinds(kinds@.take(i as int)),
        decreases kinds.len() - i,
    {
        let ghost before = list@;
        let item = Json::Text(kind_text(kinds[i]).to_owned());
        proof {
            assert(item.doc() == Doc::Text(kind_name(kinds@[i as int])));
        }
        list.push(item);
        proof {
            assert(list@.drop_last() =~= before);
            assert(write_kinds(kinds@.take(i + 1)) =~= write_kinds(kinds@.take(i as int)).push(
                Doc::Text(kind_name(kinds@[i as int])),
            ));
        }
        i += 1;
    }
    proof {
        assert(kinds@.take(kinds@.len() as int) =~= kinds@);
    }
    Json::List(list)
}

/// The entry of a colour; the colour of the theme has none.
pub open spec fn with_color(
    entries: Seq<(Seq<char>, Doc)>,
    key: Seq<char>,
    color: Option<Rgb>,
) -> Seq<(Seq<char>, Doc)> {
    match color {
        Some(color) => entries.push((key, Doc::Text(color_text(color)))),
        None => entries,
    }
}

fn color_entry(list: &mut Vec<(String, Json)>, key: &str, color: Option<Rgb>)
    ensures
        fields(final(list)@) == with_color(fields(old(list)@), key@, color),
{
    match color {
        Some(color) => entry(list, key, Json::Text(color.hex())),
        None => {},
    }
}

pub open spec fn write_colors(v: BlockColors) -> Doc {
    let entries = with_color(seq![], "header"@, v.header);
    let entries = with_color(entries, "labels"@, v.labels);
    let entries = with_color(entries, "values"@, v.values);
    Doc::Object(with_color(entries, "accent"@, v.accent))
}

fn colors_json(v: &BlockColors) -> (r: Json)
    ensures
        r.doc() == write_colors(*v),
{
    let mut list: Vec<(String, Json)> = Vec::new();
    proof {
        assert(fields(list@) =~= seq![]);
    }
    color_entry(&mut list, "header", v.header);
    color_entry(&mut list, "labels", v.labels);
    color_entry(&mut list, "values", v.values);
    color_entry(&mut list, "accent", v.accent);
    Json::Object(list)
}

pub open spec fn write_anchor(v: Anchor) -> Doc {
    Doc::Object(
        Seq::<(Seq<char>, Doc)>::empty()
            .push(("enabled"@, Doc::Bool(v.enabled)))
            .push(("monitor"@, Doc::Unsigned(v.monitor as u64)))
            .push(("corner"@, Doc::Text(corner_name(v.corner))))
            .push(("offset_x"@, write_i32(v.offset_x)))
            .push(("offset_y"@, write_i32(v.offset_y))),
    )
}

pub fn anchor_json(v: &Anchor) -> (r: Json)
    ensures
        r.doc() == write_anchor(*v),
{
    let mut list: Vec<(String, Json)> = Vec::new();
    proof {
        assert(fields(list@) =~= seq![]);
    }
    entry(&mut list, "enabled", Json::Bool(v.enabled));
    entry(&mut list, "monitor", Json::Unsigned(v.monitor as u64));
    entry(&mut list, "corner", Json::Text(corner_text(v.corner).to_owned()));
    entry(&mut list, "offset_x", i32_json(v.offset_x));
    entry(&mut list, "offset_y", i32_json(v.offset_y));
    Json::Object(list)
}

pub open spec fn write_overlay(v: OverlaySettings) -> Doc {
    Doc::Object(
        Seq::<(Seq<char>, Doc)>::empty()
            .push(("x"@, write_opt_i32(v.x)))
            .push(("y"@, write_opt_i32(v.y)))
            .push(("opacity"@, write_single(v.opacity)))
            .push(("scale"@, write_single(v.scale)))
            .push(("locked"@, Doc::Bool(v.locked)))
            .push(("visible"@, Doc::Bool(v.visible)))
            .push(("always_on_top"@, Doc::Bool(v.always_on_top)))
            .push(("show_graph"@, Doc::Bool(v.show_graph)))
            .push(("show_header"@, Doc::Bool(v.show_header)))
            .push(("fullscreen"@, Doc::Text(fullscreen_name(v.fullscreen))))
            .push(("width_scale"@, write_single(v.width_scale)))
            .push(("anchor"@, write_anchor(v.anchor)))
            .push(("mode"@, Doc::Text(mode_name(v.mode))))
            .push(("strip_height"@, write_single(v.strip_height)))
            .push(("show_clock"@, Doc::Bool(v.show_clock)))
            .push(("game_only"@, Doc::Bool(v.game_only))),
    )
}

pub fn overlay_json(v: &OverlaySettings) -> (r: Json)
    ensures
        r.doc() == write_overlay(*v),
{
    let mut list: Vec<(String, Json)> = Vec::new();
    proof {
        assert(fields(list@) =~= seq![]);
    }
    entry(&mut list, "x", opt_i32_json(v.x));
    entry(&mut list, "y", opt_i32_json(v.y));
    entry(&mut list, "opacity", single_json(v.opacity));
    entry(&mut list, "scale", single_json(v.scale));
    entry(&mut list, "locked", Json::Bool(v.locked));
    entry(&mut list, "visible", Json::Bool(v.visible));
    entry(&mut list, "always_on_top", Json::Bool(v.always_on_top));
    entry(&mut list, "show_graph", Json::Bool(v.show_graph));
    entry(&mut list, "show_header", Json::Bool(v.show_header));
    entry(&mut list, "fullscreen", Json::Text(fullscreen_text(v.fullscreen).to_owned()));
    entry(&mut list, "width_scale", single_json(v.width_scale));
    entry(&mut list, "anchor", anchor_json(&v.anchor));
    entry(&mut list, "mode", Json::Text(mode_text(v.mode).to_owned()));
    entry(&mut list, "strip_height", single_json(v.strip_height));
    entry(&mut list, "show_clock", Json::Bool(v.show_clock));
    entry(&mut list, "game_only", Json::Bool(v.game_only));
    Json::Object(list)
}

pub open spec fn write_thresholds(v: Thresholds) -> Doc {
    Doc::Object(
        Seq::<(Seq<char>, Doc)>::empty()
            .push(("warn_c"@, write_single(v.warn_c)))
            .push(("critical_c"@, write_single(v.critical_c)))
            .push(("color_load"@, Doc::Bool(v.color_load))),
    )
}

pub fn thresholds_json(v: &Thresholds) -> (r: Json)
    ensures
        r.doc() == write_thresholds(*v),
{
    let mut list: Vec<(String, Json)> = Vec::new();
    proof {
        assert(fields(list@) =~= seq![]);
    }
    entry(&mut list, "warn_c", single_json(v.warn_c));
    entry(&mut list, "critical_c", single_json(v.critical_c));
    entry(&mut list, "color_load", Json::Bool(v.color_load));
    Json::Object(list)
}

pub open spec fn write_block(v: BlockView) -> Doc {
    Doc::Object(
        Seq::<(Seq<char>, Doc)>::empty()
            .push(("enabled"@, Doc::Bool(v.enabled)))
            .push(("title"@, Doc::Text(v.title)))
            .push(("device_name"@, Doc::Bool(v.device_name)))
            .push(("colors"@, write_colors(v.colors)))
            .push(("thresholds"@, write_thresholds(v.thresholds))),
    )
}

pub fn block_json(v: &Block) -> (r: Json)
    ensures
        r.doc() == write_block(v@),
{
    let mut list: Vec<(String, Json)> = Vec::new();
    proof {
        assert(fields(list@) =~= seq![]);
    }
    entry(&mut list, "enabled", Json::Bool(v.enabled));
    entry(&mut list, "title", Json::Text(v.title.clone()));
    entry(&mut list, "device_name", Json::Bool(v.device_name));
    entry(&mut list, "colors", colors_json(&v.colors));
    entry(&mut list, "thresholds", thresholds_json(&v.thresholds));
    Json::Object(list)
}

pub open spec fn write_blocks(v: BlocksView) -> Doc {
    Doc::Object(
        Seq::<(Seq<char>, Doc)>::empty()
            .push(("gpu"@, write_block(v.gpu)))
            .push(("cpu"@, write_block(v.cpu)))
            .push(("ram"@, write_block(v.ram)))
            .push(("fps"@, write_block(v.fps)))
            .push(("order"@, write_order(v.order))),
    )
}

pub fn blocks_json(v: &Blocks) -> (r: Json)
    ensures
        r.doc() == write_blocks(v@),
{
    let mut list: Vec<(String, Json)> = Vec::new();
    proof {
        assert(fields(list@) =~= seq![]);
    }
    entry(&mut list, "gpu", block_json(&v.gpu));
    entry(&mut list, "cpu", block_json(&v.cpu));
    entry(&mut list, "ram", block_json(&v.ram));
    entry(&mut list, "fps", block_json(&v.fps));
    entry(&mut list, "order", order_json(&v.order));
    Json::Object(list)
}

pub open spec fn write_metrics(v: MetricsView) -> Doc {
    Doc::Object(
        Seq::<(Seq<char>, Doc)>::empty()
            .push(("disabled"@, write_names(v.disabled)))
            .push(("enabled"@, write_names(v.enabled)))
            .push(("hide_unavailable"@, Doc::Bool(v.hide_unavailable))),
    )
}

pub fn metrics_json(v: &MetricSettings) -> (r: Json)
    ensures
        r.doc() == write_metrics(v@),
{
    let mut list: Vec<(String, Json)> = Vec::new();
    proof {
        assert(fields(list@) =~= seq![]);
    }
    entry(&mut list, "disabled", names_json(&v.disabled));
    entry(&mut list, "enabled", names_json(&v.enabled));
    entry(&mut list, "hide_unavailable", Json::Bool(v.hide_unavailable));
    Json::Object(list)
}

pub open spec fn write_units(v: Units) -> Doc {
    Doc::Object(
        Seq::<(Seq<char>, Doc)>::empty()
            .push(("temperature"@, Doc::Text(temperature_name(v.temperature))))
            .push(("frequency"@, Doc::Text(frequency_name(v.frequency))))
            .push(("memory"@, Doc::Text(memory_name(v.memory)))),
    )
}

pub fn units_json(v: &Units) -> (r: Json)
    ensures
        r.doc() == write_units(*v),
{
    let mut list: Vec<(String, Json)> = Vec::new();
    proof {
        assert(fields(list@) =~= seq![]);
    }
    entry(&mut list, "temperature", Json::Text(temperature_text(v.temperature).to_owned()));
    entry(&mut list, "frequency", Json::Text(frequency_text(v.frequency).to_owned()));
    entry(&mut list, "memory", Json::Text(memory_text(v.memory).to_owned()));
    Json::Object(list)
}

pub open spec fn write_sensors(v: SensorOptions) -> Doc {
    Doc::Object(
        Seq::<(Seq<char>, Doc)>::empty()
            .push(("hardware_interval_ms"@, Doc::Unsigned(v.hardware_interval_ms as u64))),
    )
}

pub fn sensors_json(v: &SensorOptions) -> (r: Json)
    ensures
        r.doc() == write_sensors(*v),
{
    let mut list: Vec<(String, Json)> = Vec::new();
    proof {
        assert(fields(list@) =~= seq![]);
    }
    entry(&mut list, "hardware_interval_ms", Json::Unsigned(v.hardware_interval_ms as u64));
    Json::Object(list)
}

pub open spec fn write_fps(v: FpsView) -> Doc {
    Doc::Object(
        Seq::<(Seq<char>, Doc)>::empty()
            .push(("target"@, Doc::Text(target_name(v.target))))
            .push(("manual_process"@, write_opt_text(v.manual_process)))
            .push(("manual_pid"@, write_opt_u32(v.manual_pid)))
            .push(("presentmon_path"@, write_opt_text(v.presentmon_path))),
    )
}

pub fn fps_json(v: &FpsSettings) -> (r: Json)
    ensures
        r.doc() == write_fps(v@),
{
    let mut list: Vec<(String, Json)> = Vec::new();
    proof {
        assert(fields(list@) =~= seq![]);
    }
    entry(&mut list, "target", Json::Text(target_text(v.target).to_owned()));
    entry(&mut list, "manual_process", opt_text_json(&v.manual_process));
    entry(&mut list, "manual_pid", opt_u32_json(v.manual_pid));
    entry(&mut list, "presentmon_path", opt_text_json(&v.presentmon_path));
    Json::Object(list)
}

pub open spec fn write_hotkeys(v: HotkeysView) -> Doc {
    Doc::Object(
        Seq::<(Seq<char>, Doc)>::empty()
            .push(("toggle_visibility"@, Doc::Text(v.toggle_visibility)))
            .push(("toggle_lock"@, Doc::Text(v.toggle_lock))),
    )
}

pub fn hotkeys_json(v: &HotkeySettings) -> (r: Json)
    ensures
        r.doc() == write_hotkeys(v@),
{
    let mut list: Vec<(String, Json)> = Vec::new();
    proof {
        assert(fields(list@) =~= seq![]);
    }
    entry(&mut list, "toggle_visibility", Json::Text(v.toggle_visibility.clone()));
    entry(&mut list, "toggle_lock", Json::Text(v.toggle_lock.clone()));
    Json::Object(list)
}

pub open spec fn write_game(v: GameView) -> Doc {
    Doc::Object(
        Seq::<(Seq<char>, Doc)>::empty()
            .push(("name"@, Doc::Text(v.name)))
            .push(("path"@, Doc::Text(v.path)))
            .push(("arguments"@, Doc::Text(v.arguments)))
            .push(("borderless"@, Doc::Bool(v.borderless)))
            .push(("window_exe"@, write_opt_text(v.window_exe))),
    )
}

pub fn game_json(v: &GameProfile) -> (r: Json)
    ensures
        r.doc() == write_game(v@),
{
    let mut list: Vec<(String, Json)> = Vec::new();
    proof {
        assert(fields(list@) =~= seq![]);
    }
    entry(&mut list, "name", Json::Text(v.name.clone()));
    entry(&mut list, "path", Json::Text(v.path.clone()));
    entry(&mut list, "arguments", Json::Text(v.arguments.clone()));
    entry(&mut list, "borderless", Json::Bool(v.borderless));
    entry(&mut list, "window_exe", opt_text_json(&v.window_exe));
    Json::Object(list)
}

pub open spec fn write_all_games(games: Seq<GameView>) -> Seq<Doc> {
    games.map_values(|game: GameView| write_game(game))
}

pub open spec fn write_games(games: Seq<GameView>) -> Doc {
    Doc::List(write_all_games(games))
}

fn games_json(games: &Vec<GameProfile>) -> (r: Json)
    ensures
        r.doc() == write_games(game_views(games@)),
{
    let ghost all = game_views(games@);
    let mut list: Vec<Json> = Vec::new();
    let mut i: usize = 0;
    proof {
        assert(write_all_games(all.take(0)) =~= docs(list@));
    }
    while i < games.len()
        invariant
            i <= games.len(),
            all == game_views(games@),
            docs(list@) == write_all_games(all.take(i as int)),
        decreases games.len() - i,
    {
        let ghost before = list@;
        list.push(game_json(&games[i]));
        proof {
            assert(list@.drop_last() =~= before);
            assert(write_all_games(all.take(i + 1)) =~= write_all_games(all.take(i as int)).push(
                write_game(all[i as int]),
            ));
        }
        i += 1;
    }
    proof {
        assert(all.take(all.len() as int) =~= all);
    }
    Json::List(list)
}

pub open spec fn write_settings(v: SettingsView) -> Doc {
    Doc::Object(
        Seq::<(Seq<char>, Doc)>::empty()
            .push(("version"@, Doc::Unsigned(v.version as u64)))
            .push(("overlay"@, write_overlay(v.overlay)))
            .push(("blocks"@, write_blocks(v.blocks)))
            .push(("metrics"@, write_metrics(v.metrics)))
            .push(("units"@, write_units(v.units)))
            .push(("sensors"@, write_sensors(v.sensors)))
            .push(("fps"@, write_fps(v.fps)))
            .push(("hotkeys"@, write_hotkeys(v.hotkeys)))
            .push(("setup_done"@, Doc::Bool(v.setup_done)))
            .push(("games"@, write_games(v.games))),
    )
}

/// The settings as the document that is saved.
pub fn settings_json(v: &Settings) -> (r: Json)
    ensures
        r.doc() == write_settings(v@),
{
    let mut list: Vec<(String, Json)> = Vec::new();
    proof {
        assert(fields(list@) =~= seq![]);
    }
    entry(&mut list, "version", Json::Unsigned(v.version as u64));
    entry(&mut list, "overlay", overlay_json(&v.overlay));
    entry(&mut list, "blocks", blocks_json(&v.blocks));
    entry(&mut list, "metrics", metrics_json(&v.metrics));
    entry(&mut list, "units", units_json(&v.units));
    entry(&mut list, "sensors", sensors_json(&v.sensors));
    entry(&mut list, "fps", fps_json(&v.fps));
    entry(&mut list, "hotkeys", hotkeys_json(&v.hotkeys));
    entry(&mut list, "setup_done", Json::Bool(v.setup_done));
    entry(&mut list, "games", games_json(&v.games));
    Json::Object(list)
}

proof fn lemma_corner_reads_back(value: Corner)
    ensures
        known_corner(Doc::Text(corner_name(value))) == Some(value),
{
    reveal_strlit("top_left");
    reveal_strlit("top_center");
    reveal_strlit("top_right");
    reveal_strlit("bottom_left");
    reveal_strlit("bottom_center");
    reveal_strlit("bottom_right");
    assert("top_left"@.len() == 8);
    assert("top_center"@.len() == 10);
    assert("top_right"@.len() == 9);
    assert("bottom_left"@.len() == 11);
    assert("bottom_center"@.len() == 13);
    assert("bottom_right"@.len() == 12);
}

proof fn lemma_mode_reads_back(value: OverlayMode)
    ensures
        known_mode(Doc::Text(mode_name(value))) == Some(value),
{
    reveal_strlit("full");
    reveal_strlit("strip");
    assert("full"@.len() == 4);
    assert("strip"@.len() == 5);
}

proof fn lemma_fullscreen_reads_back(value: FullscreenMode)
    ensures
        known_fullscreen(Doc::Text(fullscreen_name(value))) == Some(value),
{
    reveal_strlit("hide");
    reveal_strlit("other_monitor");
    assert("hide"@.len() == 4);
    assert("other_monitor"@.len() == 13);
}

proof fn lemma_temperature_reads_back(value: Temperature)
    ensures
        known_temperature(Doc::Text(temperature_name(value))) == Some(value),
{
    reveal_strlit("celsius");
    reveal_strlit("fahrenheit");
    assert("celsius"@.len() == 7);
    assert("fahrenheit"@.len() == 10);
}

proof fn lemma_frequency_reads_back(value: Frequency)
    ensures
        known_frequency(Doc::Text(frequency_name(value))) == Some(value),
{
    reveal_strlit("auto");
    reveal_strlit("mhz");
    reveal_strlit("ghz");
    assert("auto"@.len() == 4);
    assert("mhz"@.len() == 3);
    assert("ghz"@.len() == 3);
    assert("mhz"@[0] == 'm');
    assert("ghz"@[0] == 'g');
}

proof fn lemma_memory_reads_back(value: Memory)
    ensures
        known_memory(Doc::Text(memory_name(value))) == Some(value),
{
    reveal_strlit("gb");
    reveal_strlit("mb");
    assert("gb"@.len() == 2);
    assert("mb"@.len() == 2);
    assert("gb"@[0] == 'g');
    assert("mb"@[0] == 'm');
}

proof fn lemma_target_reads_back(value: TargetChoice)
    ensures
        known_target(Doc::Text(target_name(value))) == Some(value),
{
    reveal_strlit("auto");
    reveal_strlit("manual");
    assert("auto"@.len() == 4);
    assert("manual"@.len() == 6);
}

proof fn lemma_kind_reads_back(value: BlockKind)
    ensures
        known_kind(Doc::Text(kind_name(value))) == Some(value),
{
    reveal_strlit("gpu");
    reveal_strlit("cpu");
    reveal_strlit("ram");
    reveal_strlit("fps");
    assert("gpu"@.len() == 3);
    assert("cpu"@.len() == 3);
    assert("ram"@.len() == 3);
    assert("fps"@.len() == 3);
    assert("gpu"@[0] == 'g');
    assert("cpu"@[0] == 'c');
    assert("ram"@[0] == 'r');
    assert("fps"@[0] == 'f');
}

proof fn lemma_names_read_back(names: Seq<Seq<char>>)
    requires
        in_order(names),
    ensures
        read_names(write_names(names)) == Some(names),
{
    lemma_texts_read_back(names);
    law_set_of_ordered(names);
}

proof fn lemma_texts_read_back(texts: Seq<Seq<char>>)
    ensures
        texts_in(write_texts(texts)) == Some(texts),
    decreases texts.len(),
{
    if texts.len() > 0 {
        lemma_texts_read_back(texts.drop_last());
        assert(write_texts(texts).drop_last() =~= write_texts(texts.drop_last()));
        assert(texts.drop_last().push(texts.last()) =~= texts);
    } else {
        assert(texts =~= seq![]);
    }
}

proof fn lemma_order_reads_back(kinds: Seq<BlockKind>)
    ensures
        kinds_in(write_kinds(kinds)) == kinds,
    decreases kinds.len(),
{
    if kinds.len() > 0 {
        lemma_order_reads_back(kinds.drop_last());
        lemma_kind_reads_back(kinds.last());
        assert(write_kinds(kinds).drop_last() =~= write_kinds(kinds.drop_last()));
        assert(kinds.drop_last().push(kinds.last()) =~= kinds);
    } else {
        assert(kinds =~= seq![]);
    }
}

proof fn lemma_single_reads_back(s: Single)
    requires
        s.finite(),
    ensures
        read_single(write_single(s)) == Some(s),
{
    lemma_widened_narrows_back(s);
}

proof fn lemma_colors_read_back(v: BlockColors)
    ensures
        read_colors(write_colors(v)) == Some(v),
{
    broadcast use lemma_field_push;

    reveal_strlit("header");
    reveal_strlit("labels");
    reveal_strlit("values");
    reveal_strlit("accent");
    assert("header"@.len() == 6);
    assert("labels"@.len() == 6);
    assert("values"@.len() == 6);
    assert("accent"@.len() == 6);
    assert("header"@[0] == 'h');
    assert("labels"@[0] == 'l');
    assert("values"@[0] == 'v');
    assert("accent"@[0] == 'a');
    if v.header is Some {
        law_color_reads_back(v.header->0);
    }
    if v.labels is Some {
        law_color_reads_back(v.labels->0);
    }
    if v.values is Some {
        law_color_reads_back(v.values->0);
    }
    if v.accent is Some {
        law_color_reads_back(v.accent->0);
    }
    let entries = write_colors(v)->Object_0;
    assert(field(seq![], "header"@) is None);
    assert(field(seq![], "labels"@) is None);
    assert(field(seq![], "values"@) is None);
    assert(field(seq![], "accent"@) is None);
}

/// The thresholds of a block are numbers.
pub open spec fn numbers_finite(block: BlockView) -> bool {
    block.thresholds.warn_c.finite() && block.thresholds.critical_c.finite()
}

proof fn lemma_anchor_reads_back(v: Anchor)
    ensures
        read_anchor(write_anchor(v)) == Some(v),
{
    broadcast use lemma_field_push;

    reveal_strlit("enabled");
    reveal_strlit("monitor");
    reveal_strlit("corner");
    reveal_strlit("offset_x");
    reveal_strlit("offset_y");
    assert("enabled"@.len() == 7);
    assert("monitor"@.len() == 7);
    assert("corner"@.len() == 6);
    assert("offset_x"@.len() == 8);
    assert("offset_y"@.len() == 8);
    assert("enabled"@[0] == 'e');
    assert("monitor"@[0] == 'm');
    assert("offset_x"@[7] == 'x');
    assert("offset_y"@[7] == 'y');
    lemma_corner_reads_back(v.corner);
}

#[verifier::rlimit(40)]
proof fn lemma_overlay_entries(v: OverlaySettings)
    ensures
        slot(write_overlay(v), "x"@, 0) == Some(write_opt_i32(v.x)),
        slot(write_overlay(v), "y"@, 1) == Some(write_opt_i32(v.y)),
        slot(write_overlay(v), "opacity"@, 2) == Some(write_single(v.opacity)),
        slot(write_overlay(v), "scale"@, 3) == Some(write_single(v.scale)),
        slot(write_overlay(v), "locked"@, 4) == Some(Doc::Bool(v.locked)),
        slot(write_overlay(v), "visible"@, 5) == Some(Doc::Bool(v.visible)),
        slot(write_overlay(v), "always_on_top"@, 6) == Some(Doc::Bool(v.always_on_top)),
        slot(write_overlay(v), "show_graph"@, 7) == Some(Doc::Bool(v.show_graph)),
        slot(write_overlay(v), "show_header"@, 8) == Some(Doc::Bool(v.show_header)),
        slot(write_overlay(v), "fullscreen"@, 9) == Some(Doc::Text(fullscreen_name(v.fullscreen))),
        slot(write_overlay(v), "width_scale"@, 10) == Some(write_single(v.width_scale)),
        slot(write_overlay(v), "anchor"@, 11) == Some(write_anchor(v.anchor)),
        slot(write_overlay(v), "mode"@, 12) == Some(Doc::Text(mode_name(v.mode))),
        slot(write_overlay(v), "strip_height"@, 13) == Some(write_single(v.strip_height)),
        slot(write_overlay(v), "show_clock"@, 14) == Some(Doc::Bool(v.show_clock)),
        slot(write_overlay(v), "game_only"@, 15) == Some(Doc::Bool(v.game_only)),
{
    broadcast use lemma_field_push;

    reveal_strlit("x");
    reveal_strlit("y");
    reveal_strlit("opacity");
    reveal_strlit("scale");
    reveal_strlit("locked");
    reveal_strlit("visible");
    reveal_strlit("always_on_top");
    reveal_strlit("show_graph");
    reveal_strlit("show_header");
    reveal_strlit("fullscreen");
    reveal_strlit("width_scale");
    reveal_strlit("anchor");
    reveal_strlit("mode");
    reveal_strlit("strip_height");
    reveal_strlit("show_clock");
    reveal_strlit("game_only");
    assert("x"@.len() == 1);
    assert("y"@.len() == 1);
    assert("opacity"@.len() == 7);
    assert("scale"@.len() == 5);
    assert("locked"@.len() == 6);
    assert("visible"@.len() == 7);
    assert("always_on_top"@.len() == 13);
    assert("show_graph"@.len() == 10);
    assert("show_header"@.len() == 11);
    assert("fullscreen"@.len() == 10);
    assert("width_scale"@.len() == 11);
    assert("anchor"@.len() == 6);
    assert("mode"@.len() == 4);
    assert("strip_height"@.len() == 12);
    assert("show_clock"@.len() == 10);
    assert("game_only"@.len() == 9);
    assert("x"@[0] == 'x');
    assert("y"@[0] == 'y');
    assert("opacity"@[0] == 'o');
    assert("visible"@[0] == 'v');
    assert("locked"@[0] == 'l');
    assert("anchor"@[0] == 'a');
    assert("show_graph"@[7] == 'a');
    assert("fullscreen"@[7] == 'e');
    assert("show_clock"@[7] == 'o');
    assert("show_header"@[0] == 's');
    assert("width_scale"@[0] == 'w');
}

proof fn lemma_overlay_reads_back(v: OverlaySettings)
    requires
        v.opacity.finite(),
        v.scale.finite(),
        v.width_scale.finite(),
        v.strip_height.finite(),
    ensures
        read_overlay(write_overlay(v)) == Some(v),
{
    lemma_overlay_entries(v);
    lemma_single_reads_back(v.opacity);
    lemma_single_reads_back(v.scale);
    lemma_fullscreen_reads_back(v.fullscreen);
    lemma_single_reads_back(v.width_scale);
    lemma_anchor_reads_back(v.anchor);
    lemma_mode_reads_back(v.mode);
    lemma_single_reads_back(v.strip_height);
}

proof fn lemma_thresholds_reads_back(v: Thresholds)
    requires
        v.warn_c.finite(),
        v.critical_c.finite(),
    ensures
        read_thresholds(write_thresholds(v)) == Some(v),
{
    broadcast use lemma_field_push;

    reveal_strlit("warn_c");
    reveal_strlit("critical_c");
    reveal_strlit("color_load");
    assert("warn_c"@.len() == 6);
    assert("critical_c"@.len() == 10);
    assert("color_load"@.len() == 10);
    assert("critical_c"@[1] == 'r');
    assert("color_load"@[1] == 'o');
    lemma_single_reads_back(v.warn_c);
    lemma_single_reads_back(v.critical_c);
}

proof fn lemma_block_reads_back(v: BlockView)
    requires
        v.thresholds.warn_c.finite(),
        v.thresholds.critical_c.finite(),
    ensures
        read_block(write_block(v)) == Some(v),
{
    broadcast use lemma_field_push;

    reveal_strlit("enabled");
    reveal_strlit("title");
    reveal_strlit("device_name");
    reveal_strlit("colors");
    reveal_strlit("thresholds");
    assert("enabled"@.len() == 7);
    assert("title"@.len() == 5);
    assert("device_name"@.len() == 11);
    assert("colors"@.len() == 6);
    assert("thresholds"@.len() == 10);
    lemma_colors_read_back(v.colors);
    lemma_thresholds_reads_back(v.thresholds);
}

proof fn lemma_blocks_reads_back(v: BlocksView)
    requires
        numbers_finite(v.gpu),
        numbers_finite(v.cpu),
        numbers_finite(v.ram),
        numbers_finite(v.fps),
    ensures
        read_blocks(write_blocks(v)) == Some(v),
{
    broadcast use lemma_field_push;

    reveal_strlit("gpu");
    reveal_strlit("cpu");
    reveal_strlit("ram");
    reveal_strlit("fps");
    reveal_strlit("order");
    assert("gpu"@.len() == 3);
    assert("cpu"@.len() == 3);
    assert("ram"@.len() == 3);
    assert("fps"@.len() == 3);
    assert("order"@.len() == 5);
    assert("gpu"@[0] == 'g');
    assert("cpu"@[0] == 'c');
    assert("ram"@[0] == 'r');
    assert("fps"@[0] == 'f');
    lemma_block_reads_back(v.gpu);
    lemma_block_reads_back(v.cpu);
    lemma_block_reads_back(v.ram);
    lemma_block_reads_back(v.fps);
    lemma_order_reads_back(v.order);
}

proof fn lemma_metrics_reads_back(v: MetricsView)
    requires
        v.valid(),
    ensures
        read_metrics(write_metrics(v)) == Some(v),
{
    broadcast use lemma_field_push;

    reveal_strlit("disabled");
    reveal_strlit("enabled");
    reveal_strlit("hide_unavailable");
    assert("disabled"@.len() == 8);
    assert("enabled"@.len() == 7);
    assert("hide_unavailable"@.len() == 16);
    lemma_names_read_back(v.disabled);
    lemma_names_read_back(v.enabled);
}

proof fn lemma_units_reads_back(v: Units)
    ensures
        read_units(write_units(v)) == Some(v),
{
    broadcast use lemma_field_push;

    reveal_strlit("temperature");
    reveal_strlit("frequency");
    reveal_strlit("memory");
    assert("temperature"@.len() == 11);
    assert("frequency"@.len() == 9);
    assert("memory"@.len() == 6);
    lemma_temperature_reads_back(v.temperature);
    lemma_frequency_reads_back(v.frequency);
    lemma_memory_reads_back(v.memory);
}

proof fn lemma_sensors_reads_back(v: SensorOptions)
    ensures
        read_sensors(write_sensors(v)) == Some(v),
{
    broadcast use lemma_field_push;

    reveal_strlit("hardware_interval_ms");
}

proof fn lemma_fps_reads_back(v: FpsView)
    ensures
        read_fps(write_fps(v)) == Some(v),
{
    broadcast use lemma_field_push;

    reveal_strlit("target");
    reveal_strlit("manual_process");
    reveal_strlit("manual_pid");
    reveal_strlit("presentmon_path");
    assert("target"@.len() == 6);
    assert("manual_process"@.len() == 14);
    assert("manual_pid"@.len() == 10);
    assert("presentmon_path"@.len() == 15);
    lemma_target_reads_back(v.target);
}

proof fn lemma_hotkeys_reads_back(v: HotkeysView)
    ensures
        read_hotkeys(write_hotkeys(v)) == Some(v),
{
    broadcast use lemma_field_push;

    reveal_strlit("toggle_visibility");
    reveal_strlit("toggle_lock");
    assert("toggle_visibility"@.len() == 17);
    assert("toggle_lock"@.len() == 11);
}

proof fn lemma_game_reads_back(v: GameView)
    ensures
        read_game(write_game(v)) == Some(v),
{
    broadcast use lemma_field_push;

    reveal_strlit("name");
    reveal_strlit("path");
    reveal_strlit("arguments");
    reveal_strlit("borderless");
    reveal_strlit("window_exe");
    assert("name"@.len() == 4);
    assert("path"@.len() == 4);
    assert("arguments"@.len() == 9);
    assert("borderless"@.len() == 10);
    assert("window_exe"@.len() == 10);
    assert("name"@[0] == 'n');
    assert("path"@[0] == 'p');
    assert("borderless"@[0] == 'b');
    assert("window_exe"@[0] == 'w');
}

proof fn lemma_games_read_back(games: Seq<GameView>)
    ensures
        games_in(write_all_games(games)) == Some(games),
    decreases games.len(),
{
    if games.len() > 0 {
        lemma_games_read_back(games.drop_last());
        lemma_game_reads_back(games.last());
        assert(write_all_games(games).drop_last() =~= write_all_games(games.drop_last()));
        assert(games.drop_last().push(games.last()) =~= games);
    } else {
        assert(games =~= seq![]);
    }
}

/// Settings whose numbers are numbers and whose sets of names are in order: what every load
/// gives.
pub open spec fn writable(v: SettingsView) -> bool {
    &&& v.overlay.opacity.finite()
    &&& v.overlay.scale.finite()
    &&& v.overlay.width_scale.finite()
    &&& v.overlay.strip_height.finite()
    &&& numbers_finite(v.blocks.gpu)
    &&& numbers_finite(v.blocks.cpu)
    &&& numbers_finite(v.blocks.ram)
    &&& numbers_finite(v.blocks.fps)
    &&& v.metrics.valid()
}

/// Settings that were written read back as they were.
pub proof fn law_settings_read_back(v: SettingsView)
    requires
        writable(v),
    ensures
        read_settings(write_settings(v)) == Some(v),
{
    reveal(read_settings);
    broadcast use lemma_field_push;

    reveal_strlit("version");
    reveal_strlit("overlay");
    reveal_strlit("blocks");
    reveal_strlit("metrics");
    reveal_strlit("units");
    reveal_strlit("sensors");
    reveal_strlit("fps");
    reveal_strlit("hotkeys");
    reveal_strlit("setup_done");
    reveal_strlit("games");
    assert("version"@.len() == 7);
    assert("overlay"@.len() == 7);
    assert("blocks"@.len() == 6);
    assert("metrics"@.len() == 7);
    assert("units"@.len() == 5);
    assert("sensors"@.len() == 7);
    assert("fps"@.len() == 3);
    assert("hotkeys"@.len() == 7);
    assert("setup_done"@.len() == 10);
    assert("games"@.len() == 5);
    assert("version"@[0] == 'v');
    assert("overlay"@[0] == 'o');
    assert("metrics"@[0] == 'm');
    assert("sensors"@[0] == 's');
    assert("hotkeys"@[0] == 'h');
    assert("units"@[0] == 'u');
    assert("games"@[0] == 'g');
    lemma_overlay_reads_back(v.overlay);
    lemma_blocks_reads_back(v.blocks);
    lemma_metrics_reads_back(v.metrics);
    lemma_units_reads_back(v.units);
    lemma_sensors_reads_back(v.sensors);
    lemma_fps_reads_back(v.fps);
    lemma_hotkeys_reads_back(v.hotkeys);
    lemma_games_read_back(v.games);
}

/// The version of saved settings stands in the document.
pub proof fn lemma_saved_version(v: SettingsView)
    ensures
        write_settings(v) is Object,
        field(write_settings(v)->Object_0, "version"@) == Some(Doc::Unsigned(v.version as u64)),
{
    broadcast use lemma_field_push;

    reveal_strlit("version");
    reveal_strlit("overlay");
    reveal_strlit("blocks");
    reveal_strlit("metrics");
    reveal_strlit("units");
    reveal_strlit("sensors");
    reveal_strlit("fps");
    reveal_strlit("hotkeys");
    reveal_strlit("setup_done");
    reveal_strlit("games");
    assert("version"@.len() == 7);
    assert("overlay"@.len() == 7);
    assert("blocks"@.len() == 6);
    assert("metrics"@.len() == 7);
    assert("units"@.len() == 5);
    assert("sensors"@.len() == 7);
    assert("fps"@.len() == 3);
    assert("hotkeys"@.len() == 7);
    assert("setup_done"@.len() == 10);
    assert("games"@.len() == 5);
    assert("version"@[0] == 'v');
    assert("overlay"@[0] == 'o');
    assert("metrics"@[0] == 'm');
    assert("sensors"@[0] == 's');
    assert("hotkeys"@[0] == 'h');
    assert("units"@[0] == 'u');
    assert("games"@[0] == 'g');
}

} // verus!
