//! The settings as a JSON document: reading and writing.
//!
//! A field that is missing takes its default, an unknown field is skipped, and a field of the
//! wrong type makes the document unreadable. Some fields are lenient: a value that another build
//! wrote and this one does not know becomes the default. A structure may also be written as a
//! list of its fields in their order.

use vstd::prelude::*;

use crate::blocks::color_of;
use crate::blocks::default_block;
use crate::blocks::default_blocks;
use crate::blocks::default_colors;
use crate::blocks::default_thresholds;
use crate::blocks::Block;
use crate::blocks::BlockColors;
use crate::blocks::BlockKind;
use crate::blocks::BlockView;
use crate::blocks::Blocks;
use crate::blocks::BlocksView;
use crate::blocks::Rgb;
use crate::blocks::Thresholds;
use crate::json::docs;
use crate::json::field;
use crate::json::fields;
use crate::json::lemma_docs;
use crate::json::lemma_fields;
use crate::json::lookup;
use crate::json::Doc;
use crate::json::Json;
use crate::names::set_of;
use crate::names::NameSet;
use crate::number::Single;
use crate::paths::text_of;
use crate::placement::default_anchor;
use crate::placement::Anchor;
use crate::placement::Corner;
use crate::settings::default_fps;
use crate::settings::default_game;
use crate::settings::default_hotkeys;
use crate::settings::default_metrics;
use crate::settings::default_overlay;
use crate::settings::default_sensors;
use crate::settings::default_settings;
use crate::settings::game_views;
use crate::settings::lemma_game_views_push;
use crate::settings::FpsSettings;
use crate::settings::FpsView;
use crate::settings::FullscreenMode;
use crate::settings::GameProfile;
use crate::settings::GameView;
use crate::settings::HotkeySettings;
use crate::settings::HotkeysView;
use crate::settings::MetricSettings;
use crate::settings::MetricsView;
use crate::settings::OverlayMode;
use crate::settings::OverlaySettings;
use crate::settings::SensorOptions;
use crate::settings::Settings;
use crate::settings::SettingsView;
use crate::settings::TargetChoice;
use crate::text::same_text;
use crate::units::default_units;
use crate::units::Frequency;
use crate::units::Memory;
use crate::units::Temperature;
use crate::units::Units;

verus! {

/// A field of a structure: by its key, or by its place where the structure is a list.
pub open spec fn slot(doc: Doc, key: Seq<char>, index: int) -> Option<Doc> {
    match doc {
        Doc::Object(entries) => field(entries, key),
        Doc::List(items) => if index < items.len() {
            Some(items[index])
        } else {
            None
        },
        _ => None,
    }
}

/// A document that can be a structure of that many fields.
pub open spec fn shaped(doc: Doc, count: int) -> bool {
    match doc {
        Doc::Object(_) => true,
        Doc::List(items) => items.len() <= count,
        _ => false,
    }
}

fn slot_of<'a>(json: &'a Json, key: &str, index: usize) -> (r: Option<&'a Json>)
    ensures
        match r {
            Some(item) => slot(json.doc(), key@, index as int) == Some(item.doc()),
            None => slot(json.doc(), key@, index as int) is None,
        },
{
    match json {
        Json::Object(entries) => lookup(entries, key),
        Json::List(items) => {
            proof {
                lemma_docs(items@);
            }
            if index < items.len() {
                Some(&items[index])
            } else {
                None
            }
        },
        _ => None,
    }
}

fn is_shaped(json: &Json, count: usize) -> (r: bool)
    ensures
        r == shaped(json.doc(), count as int),
{
    match json {
        Json::Object(_) => true,
        Json::List(items) => {
            proof {
                lemma_docs(items@);
            }
            items.len() <= count
        },
        _ => false,
    }
}

/// A number below zero in single precision.
pub open spec fn negative_single(n: i64) -> Single {
    if n < 0 {
        Single {
            bits: (0x8000_0000 + crate::number::nearest_ratio((-n) as nat, 1)) as u32,
        }
    } else {
        crate::number::whole_single(n as nat)
    }
}

/// A truth value.
pub open spec fn read_bool(doc: Doc) -> Option<bool> {
    match doc {
        Doc::Bool(b) => Some(b),
        _ => None,
    }
}

fn bool_from(json: &Json) -> (r: Option<bool>)
    ensures
        r == read_bool(json.doc()),
{
    match json {
        Json::Bool(b) => Some(*b),
        _ => None,
    }
}

/// A whole number of 32 bits from zero up.
pub open spec fn read_u32(doc: Doc) -> Option<u32> {
    match doc {
        Doc::Unsigned(n) => if n <= u32::MAX {
            Some(n as u32)
        } else {
            None
        },
        _ => None,
    }
}

fn u32_from(json: &Json) -> (r: Option<u32>)
    ensures
        r == read_u32(json.doc()),
{
    match json {
        Json::Unsigned(n) => if *n <= u32::MAX as u64 {
            Some(*n as u32)
        } else {
            None
        },
        _ => None,
    }
}

/// A whole number of 64 bits from zero up.
pub open spec fn read_u64(doc: Doc) -> Option<u64> {
    match doc {
        Doc::Unsigned(n) => Some(n),
        _ => None,
    }
}

fn u64_from(json: &Json) -> (r: Option<u64>)
    ensures
        r == read_u64(json.doc()),
{
    match json {
        Json::Unsigned(n) => Some(*n),
        _ => None,
    }
}

/// A whole number that counts something.
pub open spec fn read_usize(doc: Doc) -> Option<usize> {
    match doc {
        Doc::Unsigned(n) => if n <= usize::MAX {
            Some(n as usize)
        } else {
            None
        },
        _ => None,
    }
}

fn usize_from(json: &Json) -> (r: Option<usize>)
    ensures
        r == read_usize(json.doc()),
{
    match json {
        Json::Unsigned(n) => if *n <= usize::MAX as u64 {
            Some(*n as usize)
        } else {
            None
        },
        _ => None,
    }
}

/// A whole number of 32 bits.
pub open spec fn read_i32(doc: Doc) -> Option<i32> {
    match doc {
        Doc::Unsigned(n) => if n <= i32::MAX {
            Some(n as i32)
        } else {
            None
        },
        Doc::Negative(n) => if i32::MIN <= n <= i32::MAX {
            Some(n as i32)
        } else {
            None
        },
        _ => None,
    }
}

fn i32_from(json: &Json) -> (r: Option<i32>)
    ensures
        r == read_i32(json.doc()),
{
    match json {
        Json::Unsigned(n) => if *n <= i32::MAX as u64 {
            Some(*n as i32)
        } else {
            None
        },
        Json::Negative(n) => if i32::MIN as i64 <= *n && *n <= i32::MAX as i64 {
            Some(*n as i32)
        } else {
            None
        },
        _ => None,
    }
}

/// Any number, in single precision.
pub open spec fn read_single(doc: Doc) -> Option<Single> {
    match doc {
        Doc::Unsigned(n) => Some(crate::number::whole_single(n as nat)),
        Doc::Negative(n) => Some(negative_single(n)),
        Doc::Real(d) => Some(d.narrow()),
        _ => None,
    }
}

fn single_from(json: &Json) -> (r: Option<Single>)
    ensures
        r == read_single(json.doc()),
{
    match json {
        Json::Unsigned(n) => Some(Single::of_u64(*n)),
        Json::Negative(n) => if *n < 0 {
            Some(Single::of_negative(*n))
        } else {
            Some(Single::of_u64(*n as u64))
        },
        Json::Real(d) => Some(Single::of_double(*d)),
        _ => None,
    }
}

/// A text.
pub open spec fn read_text(doc: Doc) -> Option<Seq<char>> {
    match doc {
        Doc::Text(s) => Some(s),
        _ => None,
    }
}

fn text_from(json: &Json) -> (r: Option<String>)
    ensures
        text_of(r) == read_text(json.doc()),
{
    match json {
        Json::Text(s) => Some(s.clone()),
        _ => None,
    }
}

/// A number, or nothing.
pub open spec fn read_opt_i32(doc: Doc) -> Option<Option<i32>> {
    match doc {
        Doc::Null => Some(None),
        _ => match read_i32(doc) {
            Some(n) => Some(Some(n)),
            None => None,
        },
    }
}

fn opt_i32_from(json: &Json) -> (r: Option<Option<i32>>)
    ensures
        r == read_opt_i32(json.doc()),
{
    match json {
        Json::Null => Some(None),
        _ => match i32_from(json) {
            Some(n) => Some(Some(n)),
            None => None,
        },
    }
}

/// A number, or nothing.
pub open spec fn read_opt_u32(doc: Doc) -> Option<Option<u32>> {
    match doc {
        Doc::Null => Some(None),
        _ => match read_u32(doc) {
            Some(n) => Some(Some(n)),
            None => None,
        },
    }
}

fn opt_u32_from(json: &Json) -> (r: Option<Option<u32>>)
    ensures
        r == read_opt_u32(json.doc()),
{
    match json {
        Json::Null => Some(None),
        _ => match u32_from(json) {
            Some(n) => Some(Some(n)),
            None => None,
        },
    }
}

/// A text, or nothing.
pub open spec fn read_opt_text(doc: Doc) -> Option<Option<Seq<char>>> {
    match doc {
        Doc::Null => Some(None),
        Doc::Text(s) => Some(Some(s)),
        _ => None,
    }
}

/// The contents of an optional text that was read.
pub open spec fn opt_text_view(r: Option<Option<String>>) -> Option<Option<Seq<char>>> {
    match r {
        Some(text) => Some(text_of(text)),
        None => None,
    }
}

fn opt_text_from(json: &Json) -> (r: Option<Option<String>>)
    ensures
        opt_text_view(r) == read_opt_text(json.doc()),
{
    match json {
        Json::Null => Some(None),
        Json::Text(s) => Some(Some(s.clone())),
        _ => None,
    }
}

/// The variant that a document names: as a text, or as the only key of an object, with nothing
/// behind it.
pub open spec fn variant(doc: Doc) -> Option<Seq<char>> {
    match doc {
        Doc::Text(s) => Some(s),
        Doc::Object(entries) => if entries.len() == 1 && entries[0].1 == Doc::Null {
            Some(entries[0].0)
        } else {
            None
        },
        _ => None,
    }
}

fn variant_of(json: &Json) -> (r: Option<String>)
    ensures
        text_of(r) == variant(json.doc()),
{
    match json {
        Json::Text(s) => Some(s.clone()),
        Json::Object(entries) => {
            proof {
                lemma_fields(entries@);
            }
            if entries.len() == 1 {
                match entries[0].1 {
                    Json::Null => Some(entries[0].0.clone()),
                    _ => None,
                }
            } else {
                None
            }
        },
        _ => None,
    }
}

/// The name of a variant in the file.
pub open spec fn corner_name(value: Corner) -> Seq<char> {
    match value {
        Corner::TopLeft => "top_left"@,
        Corner::TopCenter => "top_center"@,
        Corner::TopRight => "top_right"@,
        Corner::BottomLeft => "bottom_left"@,
        Corner::BottomCenter => "bottom_center"@,
        Corner::BottomRight => "bottom_right"@,
    }
}

pub(crate) fn corner_text(value: Corner) -> (r: &'static str)
    ensures
        r@ == corner_name(value),
{
    match value {
        Corner::TopLeft => "top_left",
        Corner::TopCenter => "top_center",
        Corner::TopRight => "top_right",
        Corner::BottomLeft => "bottom_left",
        Corner::BottomCenter => "bottom_center",
        Corner::BottomRight => "bottom_right",
    }
}

/// The variant that a document names, where it is one of these.
pub open spec fn known_corner(doc: Doc) -> Option<Corner> {
    match variant(doc) {
        Some(name) => if name == "top_left"@ {
            Some(Corner::TopLeft)
        } else if name == "top_center"@ {
            Some(Corner::TopCenter)
        } else if name == "top_right"@ {
            Some(Corner::TopRight)
        } else if name == "bottom_left"@ {
            Some(Corner::BottomLeft)
        } else if name == "bottom_center"@ {
            Some(Corner::BottomCenter)
        } else if name == "bottom_right"@ {
            Some(Corner::BottomRight)
        } else {
            None
        },
        None => None,
    }
}

fn corner_of(json: &Json) -> (r: Option<Corner>)
    ensures
        r == known_corner(json.doc()),
{
    match variant_of(json) {
        Some(name) => if same_text(name.as_str(), "top_left") {
            Some(Corner::TopLeft)
        } else if same_text(name.as_str(), "top_center") {
            Some(Corner::TopCenter)
        } else if same_text(name.as_str(), "top_right") {
            Some(Corner::TopRight)
        } else if same_text(name.as_str(), "bottom_left") {
            Some(Corner::BottomLeft)
        } else if same_text(name.as_str(), "bottom_center") {
            Some(Corner::BottomCenter)
        } else if same_text(name.as_str(), "bottom_right") {
            Some(Corner::BottomRight)
        } else {
            None
        },
        None => None,
    }
}

/// The variant that a document names; an unknown one is the default.
pub open spec fn read_corner(doc: Doc) -> Option<Corner> {
    match known_corner(doc) {
        Some(value) => Some(value),
        None => Some(Corner::TopLeft),
    }
}

fn corner_from(json: &Json) -> (r: Option<Corner>)
    ensures
        r == read_corner(json.doc()),
{
    match corner_of(json) {
        Some(value) => Some(value),
        None => Some(Corner::TopLeft),
    }
}

/// The name of a variant in the file.
pub open spec fn mode_name(value: OverlayMode) -> Seq<char> {
    match value {
        OverlayMode::Full => "full"@,
        OverlayMode::Strip => "strip"@,
    }
}

pub(crate) fn mode_text(value: OverlayMode) -> (r: &'static str)
    ensures
        r@ == mode_name(value),
{
    match value {
        OverlayMode::Full => "full",
        OverlayMode::Strip => "strip",
    }
}

/// The variant that a document names, where it is one of these.
pub open spec fn known_mode(doc: Doc) -> Option<OverlayMode> {
    match variant(doc) {
        Some(name) => if name == "full"@ {
            Some(OverlayMode::Full)
        } else if name == "strip"@ {
            Some(OverlayMode::Strip)
        } else {
            None
        },
        None => None,
    }
}

fn mode_of(json: &Json) -> (r: Option<OverlayMode>)
    ensures
        r == known_mode(json.doc()),
{
    match variant_of(json) {
        Some(name) => if same_text(name.as_str(), "full") {
            Some(OverlayMode::Full)
        } else if same_text(name.as_str(), "strip") {
            Some(OverlayMode::Strip)
        } else {
            None
        },
        None => None,
    }
}

/// The variant that a document names; an unknown one is the default.
pub open spec fn read_mode(doc: Doc) -> Option<OverlayMode> {
    match known_mode(doc) {
        Some(value) => Some(value),
        None => Some(OverlayMode::Full),
    }
}

fn mode_from(json: &Json) -> (r: Option<OverlayMode>)
    ensures
        r == read_mode(json.doc()),
{
    match mode_of(json) {
        Some(value) => Some(value),
        None => Some(OverlayMode::Full),
    }
}

/// The name of a variant in the file.
pub open spec fn fullscreen_name(value: FullscreenMode) -> Seq<char> {
    match value {
        FullscreenMode::Hide => "hide"@,
        FullscreenMode::OtherMonitor => "other_monitor"@,
    }
}

pub(crate) fn fullscreen_text(value: FullscreenMode) -> (r: &'static str)
    ensures
        r@ == fullscreen_name(value),
{
    match value {
        FullscreenMode::Hide => "hide",
        FullscreenMode::OtherMonitor => "other_monitor",
    }
}

/// The variant that a document names, where it is one of these.
pub open spec fn known_fullscreen(doc: Doc) -> Option<FullscreenMode> {
    match variant(doc) {
        Some(name) => if name == "hide"@ {
            Some(FullscreenMode::Hide)
        } else if name == "other_monitor"@ {
            Some(FullscreenMode::OtherMonitor)
        } else {
            None
        },
        None => None,
    }
}

fn fullscreen_of(json: &Json) -> (r: Option<FullscreenMode>)
    ensures
        r == known_fullscreen(json.doc()),
{
    match variant_of(json) {
        Some(name) => if same_text(name.as_str(), "hide") {
            Some(FullscreenMode::Hide)
        } else if same_text(name.as_str(), "other_monitor") {
            Some(FullscreenMode::OtherMonitor)
        } else {
            None
        },
        None => None,
    }
}

/// The variant that a document names; an unknown one is the default.
pub open spec fn read_fullscreen(doc: Doc) -> Option<FullscreenMode> {
    match known_fullscreen(doc) {
        Some(value) => Some(value),
        None => Some(FullscreenMode::Hide),
    }
}

fn fullscreen_from(json: &Json) -> (r: Option<FullscreenMode>)
    ensures
        r == read_fullscreen(json.doc()),
{
    match fullscreen_of(json) {
        Some(value) => Some(value),
        None => Some(FullscreenMode::Hide),
    }
}

/// The name of a variant in the file.
pub open spec fn temperature_name(value: Temperature) -> Seq<char> {
    match value {
        Temperature::Celsius => "celsius"@,
        Temperature::Fahrenheit => "fahrenheit"@,
    }
}

pub(crate) fn temperature_text(value: Temperature) -> (r: &'static str)
    ensures
        r@ == temperature_name(value),
{
    match value {
        Temperature::Celsius => "celsius",
        Temperature::Fahrenheit => "fahrenheit",
    }
}

/// The variant that a document names, where it is one of these.
pub open spec fn known_temperature(doc: Doc) -> Option<Temperature> {
    match variant(doc) {
        Some(name) => if name == "celsius"@ {
            Some(Temperature::Celsius)
        } else if name == "fahrenheit"@ {
            Some(Temperature::Fahrenheit)
        } else {
            None
        },
        None => None,
    }
}

fn temperature_of(json: &Json) -> (r: Option<Temperature>)
    ensures
        r == known_temperature(json.doc()),
{
    match variant_of(json) {
        Some(name) => if same_text(name.as_str(), "celsius") {
            Some(Temperature::Celsius)
        } else if same_text(name.as_str(), "fahrenheit") {
            Some(Temperature::Fahrenheit)
        } else {
            None
        },
        None => None,
    }
}

/// The variant that a document names; an unknown one is the default.
pub open spec fn read_temperature(doc: Doc) -> Option<Temperature> {
    match known_temperature(doc) {
        Some(value) => Some(value),
        None => Some(Temperature::Celsius),
    }
}

fn temperature_from(json: &Json) -> (r: Option<Temperature>)
    ensures
        r == read_temperature(json.doc()),
{
    match temperature_of(json) {
        Some(value) => Some(value),
        None => Some(Temperature::Celsius),
    }
}

/// The name of a variant in the file.
pub open spec fn frequency_name(value: Frequency) -> Seq<char> {
    match value {
        Frequency::Auto => "auto"@,
        Frequency::Mhz => "mhz"@,
        Frequency::Ghz => "ghz"@,
    }
}

pub(crate) fn frequency_text(value: Frequency) -> (r: &'static str)
    ensures
        r@ == frequency_name(value),
{
    match value {
        Frequency::Auto => "auto",
        Frequency::Mhz => "mhz",
        Frequency::Ghz => "ghz",
    }
}

/// The variant that a document names, where it is one of these.
pub open spec fn known_frequency(doc: Doc) -> Option<Frequency> {
    match variant(doc) {
        Some(name) => if name == "auto"@ {
            Some(Frequency::Auto)
        } else if name == "mhz"@ {
            Some(Frequency::Mhz)
        } else if name == "ghz"@ {
            Some(Frequency::Ghz)
        } else {
            None
        },
        None => None,
    }
}

fn frequency_of(json: &Json) -> (r: Option<Frequency>)
    ensures
        r == known_frequency(json.doc()),
{
    match variant_of(json) {
        Some(name) => if same_text(name.as_str(), "auto") {
            Some(Frequency::Auto)
        } else if same_text(name.as_str(), "mhz") {
            Some(Frequency::Mhz)
        } else if same_text(name.as_str(), "ghz") {
            Some(Frequency::Ghz)
        } else {
            None
        },
        None => None,
    }
}

/// The variant that a document names; an unknown one is the default.
pub open spec fn read_frequency(doc: Doc) -> Option<Frequency> {
    match known_frequency(doc) {
        Some(value) => Some(value),
        None => Some(Frequency::Auto),
    }
}

fn frequency_from(json: &Json) -> (r: Option<Frequency>)
    ensures
        r == read_frequency(json.doc()),
{
    match frequency_of(json) {
        Some(value) => Some(value),
        None => Some(Frequency::Auto),
    }
}

/// The name of a variant in the file.
pub open spec fn memory_name(value: Memory) -> Seq<char> {
    match value {
        Memory::Gb => "gb"@,
        Memory::Mb => "mb"@,
    }
}

pub(crate) fn memory_text(value: Memory) -> (r: &'static str)
    ensures
        r@ == memory_name(value),
{
    match value {
        Memory::Gb => "gb",
        Memory::Mb => "mb",
    }
}

/// The variant that a document names, where it is one of these.
pub open spec fn known_memory(doc: Doc) -> Option<Memory> {
    match variant(doc) {
        Some(name) => if name == "gb"@ {
            Some(Memory::Gb)
        } else if name == "mb"@ {
            Some(Memory::Mb)
        } else {
            None
        },
        None => None,
    }
}

fn memory_of(json: &Json) -> (r: Option<Memory>)
    ensures
        r == known_memory(json.doc()),
{
    match variant_of(json) {
        Some(name) => if same_text(name.as_str(), "gb") {
            Some(Memory::Gb)
        } else if same_text(name.as_str(), "mb") {
            Some(Memory::Mb)
        } else {
            None
        },
        None => None,
    }
}

/// The variant that a document names; an unknown one is the default.
pub open spec fn read_memory(doc: Doc) -> Option<Memory> {
    match known_memory(doc) {
        Some(value) => Some(value),
        None => Some(Memory::Gb),
    }
}

fn memory_from(json: &Json) -> (r: Option<Memory>)
    ensures
        r == read_memory(json.doc()),
{
    match memory_of(json) {
        Some(value) => Some(value),
        None => Some(Memory::Gb),
    }
}

/// The name of a variant in the file.
pub open spec fn target_name(value: TargetChoice) -> Seq<char> {
    match value {
        TargetChoice::Auto => "auto"@,
        TargetChoice::Manual => "manual"@,
    }
}

pub(crate) fn target_text(value: TargetChoice) -> (r: &'static str)
    ensures
        r@ == target_name(value),
{
    match value {
        TargetChoice::Auto => "auto",
        TargetChoice::Manual => "manual",
    }
}

/// The variant that a document names, where it is one of these.
pub open spec fn known_target(doc: Doc) -> Option<TargetChoice> {
    match variant(doc) {
        Some(name) => if name == "auto"@ {
            Some(TargetChoice::Auto)
        } else if name == "manual"@ {
            Some(TargetChoice::Manual)
        } else {
            None
        },
        None => None,
    }
}

fn target_of(json: &Json) -> (r: Option<TargetChoice>)
    ensures
        r == known_target(json.doc()),
{
    match variant_of(json) {
        Some(name) => if same_text(name.as_str(), "auto") {
            Some(TargetChoice::Auto)
        } else if same_text(name.as_str(), "manual") {
            Some(TargetChoice::Manual)
        } else {
            None
        },
        None => None,
    }
}

/// The name of a variant in the file.
pub open spec fn kind_name(value: BlockKind) -> Seq<char> {
    match value {
        BlockKind::Gpu => "gpu"@,
        BlockKind::Cpu => "cpu"@,
        BlockKind::Ram => "ram"@,
        BlockKind::Fps => "fps"@,
    }
}

pub(crate) fn kind_text(value: BlockKind) -> (r: &'static str)
    ensures
        r@ == kind_name(value),
{
    match value {
        BlockKind::Gpu => "gpu",
        BlockKind::Cpu => "cpu",
        BlockKind::Ram => "ram",
        BlockKind::Fps => "fps",
    }
}

/// The variant that a document names, where it is one of these.
pub open spec fn known_kind(doc: Doc) -> Option<BlockKind> {
    match variant(doc) {
        Some(name) => if name == "gpu"@ {
            Some(BlockKind::Gpu)
        } else if name == "cpu"@ {
            Some(BlockKind::Cpu)
        } else if name == "ram"@ {
            Some(BlockKind::Ram)
        } else if name == "fps"@ {
            Some(BlockKind::Fps)
        } else {
            None
        },
        None => None,
    }
}

fn kind_of(json: &Json) -> (r: Option<BlockKind>)
    ensures
        r == known_kind(json.doc()),
{
    match variant_of(json) {
        Some(name) => if same_text(name.as_str(), "gpu") {
            Some(BlockKind::Gpu)
        } else if same_text(name.as_str(), "cpu") {
            Some(BlockKind::Cpu)
        } else if same_text(name.as_str(), "ram") {
            Some(BlockKind::Ram)
        } else if same_text(name.as_str(), "fps") {
            Some(BlockKind::Fps)
        } else {
            None
        },
        None => None,
    }
}

/// The variant that a document names; an unknown one makes the document unreadable.
pub open spec fn read_target(doc: Doc) -> Option<TargetChoice> {
    known_target(doc)
}

fn target_from(json: &Json) -> (r: Option<TargetChoice>)
    ensures
        r == read_target(json.doc()),
{
    target_of(json)
}

/// A colour; a bad one is the colour of the theme.
pub open spec fn read_color(doc: Doc) -> Option<Option<Rgb>> {
    match doc {
        Doc::Text(s) => Some(color_of(s)),
        _ => Some(None),
    }
}

fn color_from(json: &Json) -> (r: Option<Option<Rgb>>)
    ensures
        r == read_color(json.doc()),
{
    match json {
        Json::Text(s) => Some(Rgb::parse(s.as_str())),
        _ => Some(None),
    }
}

/// The known kinds of a list; unknown names are skipped.
pub open spec fn kinds_in(items: Seq<Doc>) -> Seq<BlockKind>
    decreases items.len(),
{
    if items.len() == 0 {
        seq![]
    } else {
        match known_kind(items.last()) {
            Some(kind) => kinds_in(items.drop_last()).push(kind),
            None => kinds_in(items.drop_last()),
        }
    }
}

/// An order of blocks: what is no list is an empty one.
pub open spec fn read_order(doc: Doc) -> Option<Seq<BlockKind>> {
    match doc {
        Doc::List(items) => Some(kinds_in(items)),
        _ => Some(seq![]),
    }
}

fn order_from(json: &Json) -> (r: Option<Vec<BlockKind>>)
    ensures
        match r {
            Some(order) => read_order(json.doc()) == Some(order@),
            None => read_order(json.doc()) is None,
        },
{
    let mut order: Vec<BlockKind> = Vec::new();
    match json {
        Json::List(items) => {
            let ghost all = docs(items@);
            let mut i: usize = 0;
            proof {
                lemma_docs(items@);
                assert(all.take(0) =~= seq![]);
            }
            while i < items.len()
                invariant
                    i <= items.len(),
                    all == docs(items@),
                    all.len() == items.len(),
                    order@ == kinds_in(all.take(i as int)),
                decreases items.len() - i,
            {
                proof {
                    lemma_docs(items@);
                    assert(all.take(i + 1).drop_last() =~= all.take(i as int));
                    assert(all.take(i + 1).last() == all[i as int]);
                }
                match kind_of(&items[i]) {
                    Some(kind) => order.push(kind),
                    None => {},
                }
                i += 1;
            }
            proof {
                assert(all.take(all.len() as int) =~= all);
            }
            Some(order)
        },
        _ => Some(order),
    }
}

/// The texts of a list, where it holds nothing else.
pub open spec fn texts_in(items: Seq<Doc>) -> Option<Seq<Seq<char>>>
    decreases items.len(),
{
    if items.len() == 0 {
        Some(seq![])
    } else {
        match (texts_in(items.drop_last()), items.last()) {
            (Some(rest), Doc::Text(s)) => Some(rest.push(s)),
            _ => None,
        }
    }
}

/// A set of names.
pub open spec fn read_names(doc: Doc) -> Option<Seq<Seq<char>>> {
    match doc {
        Doc::List(items) => match texts_in(items) {
            Some(texts) => Some(set_of(texts)),
            None => None,
        },
        _ => None,
    }
}

proof fn lemma_no_texts(items: Seq<Doc>, at: int)
    requires
        0 <= at < items.len(),
        !(items[at] is Text),
    ensures
        texts_in(items) is None,
    decreases items.len(),
{
    if at < items.len() - 1 {
        lemma_no_texts(items.drop_last(), at);
    }
}

fn names_from(json: &Json) -> (r: Option<NameSet>)
    ensures
        match r {
            Some(names) => read_names(json.doc()) == Some(names@) && names.valid(),
            None => read_names(json.doc()) is None,
        },
{
    match json {
        Json::List(items) => {
            let ghost all = docs(items@);
            let mut names = NameSet::new();
            let ghost mut texts: Seq<Seq<char>> = seq![];
            let mut i: usize = 0;
            proof {
                lemma_docs(items@);
                assert(all.take(0) =~= seq![]);
                assert(set_of(texts) =~= names@);
            }
            while i < items.len()
                invariant
                    i <= items.len(),
                    all == docs(items@),
                    all.len() == items.len(),
                    json.doc() == Doc::List(all),
                    names.valid(),
                    texts_in(all.take(i as int)) == Some(texts),
                    names@ == set_of(texts),
                decreases items.len() - i,
            {
                proof {
                    lemma_docs(items@);
                    assert(all.take(i + 1).drop_last() =~= all.take(i as int));
                    assert(all.take(i + 1).last() == all[i as int]);
                }
                match &items[i] {
                    Json::Text(s) => {
                        names.insert(s.as_str());
                        proof {
                            let before = texts;
                            texts = texts.push(s@);
                            assert(texts.drop_last() =~= before);
                        }
                    },
                    _ => {
                        proof {
                            lemma_no_texts(all, i as int);
                        }
                        return None;
                    },
                }
                i += 1;
            }
            proof {
                assert(all.take(all.len() as int) =~= all);
            }
            Some(names)
        },
        _ => None,
    }
}

pub open spec fn bool_slot(doc: Doc, key: Seq<char>, index: int, default: bool) -> Option<bool> {
    match slot(doc, key, index) {
        Some(item) => read_bool(item),
        None => Some(default),
    }
}

fn bool_at(json: &Json, key: &str, index: usize, default: bool) -> (r: Option<bool>)
    ensures
        r == bool_slot(json.doc(), key@, index as int, default),
{
    match slot_of(json, key, index) {
        Some(item) => bool_from(item),
        None => Some(default),
    }
}

pub open spec fn u32_slot(doc: Doc, key: Seq<char>, index: int, default: u32) -> Option<u32> {
    match slot(doc, key, index) {
        Some(item) => read_u32(item),
        None => Some(default),
    }
}

fn u32_at(json: &Json, key: &str, index: usize, default: u32) -> (r: Option<u32>)
    ensures
        r == u32_slot(json.doc(), key@, index as int, default),
{
    match slot_of(json, key, index) {
        Some(item) => u32_from(item),
        None => Some(default),
    }
}

pub open spec fn u64_slot(doc: Doc, key: Seq<char>, index: int, default: u64) -> Option<u64> {
    match slot(doc, key, index) {
        Some(item) => read_u64(item),
        None => Some(default),
    }
}

fn u64_at(json: &Json, key: &str, index: usize, default: u64) -> (r: Option<u64>)
    ensures
        r == u64_slot(json.doc(), key@, index as int, default),
{
    match slot_of(json, key, index) {
        Some(item) => u64_from(item),
        None => Some(default),
    }
}

pub open spec fn usize_slot(doc: Doc, key: Seq<char>, index: int, default: usize) -> Option<usize> {
    match slot(doc, key, index) {
        Some(item) => read_usize(item),
        None => Some(default),
    }
}

fn usize_at(json: &Json, key: &str, index: usize, default: usize) -> (r: Option<usize>)
    ensures
        r == usize_slot(json.doc(), key@, index as int, default),
{
    match slot_of(json, key, index) {
        Some(item) => usize_from(item),
        None => Some(default),
    }
}

pub open spec fn i32_slot(doc: Doc, key: Seq<char>, index: int, default: i32) -> Option<i32> {
    match slot(doc, key, index) {
        Some(item) => read_i32(item),
        None => Some(default),
    }
}

fn i32_at(json: &Json, key: &str, index: usize, default: i32) -> (r: Option<i32>)
    ensures
        r == i32_slot(json.doc(), key@, index as int, default),
{
    match slot_of(json, key, index) {
        Some(item) => i32_from(item),
        None => Some(default),
    }
}

pub open spec fn single_slot(doc: Doc, key: Seq<char>, index: int, default: Single) -> Option<Single> {
    match slot(doc, key, index) {
        Some(item) => read_single(item),
        None => Some(default),
    }
}

fn single_at(json: &Json, key: &str, index: usize, default: Single) -> (r: Option<Single>)
    ensures
        r == single_slot(json.doc(), key@, index as int, default),
{
    match slot_of(json, key, index) {
        Some(item) => single_from(item),
        None => Some(default),
    }
}

pub open spec fn opt_i32_slot(doc: Doc, key: Seq<char>, index: int, default: Option<i32>) -> Option<Option<i32>> {
    match slot(doc, key, index) {
        Some(item) => read_opt_i32(item),
        None => Some(default),
    }
}

fn opt_i32_at(json: &Json, key: &str, index: usize, default: Option<i32>) -> (r: Option<Option<i32>>)
    ensures
        r == opt_i32_slot(json.doc(), key@, index as int, default),
{
    match slot_of(json, key, index) {
        Some(item) => opt_i32_from(item),
        None => Some(default),
    }
}

pub open spec fn opt_u32_slot(doc: Doc, key: Seq<char>, index: int, default: Option<u32>) -> Option<Option<u32>> {
    match slot(doc, key, index) {
        Some(item) => read_opt_u32(item),
        None => Some(default),
    }
}

fn opt_u32_at(json: &Json, key: &str, index: usize, default: Option<u32>) -> (r: Option<Option<u32>>)
    ensures
        r == opt_u32_slot(json.doc(), key@, index as int, default),
{
    match slot_of(json, key, index) {
        Some(item) => opt_u32_from(item),
        None => Some(default),
    }
}

pub open spec fn corner_slot(doc: Doc, key: Seq<char>, index: int, default: Corner) -> Option<Corner> {
    match slot(doc, key, index) {
        Some(item) => read_corner(item),
        None => Some(default),
    }
}

fn corner_at(json: &Json, key: &str, index: usize, default: Corner) -> (r: Option<Corner>)
    ensures
        r == corner_slot(json.doc(), key@, index as int, default),
{
    match slot_of(json, key, index) {
        Some(item) => corner_from(item),
        None => Some(default),
    }
}

pub open spec fn mode_slot(doc: Doc, key: Seq<char>, index: int, default: OverlayMode) -> Option<OverlayMode> {
    match slot(doc, key, index) {
        Some(item) => read_mode(item),
        None => Some(default),
    }
}

fn mode_at(json: &Json, key: &str, index: usize, default: OverlayMode) -> (r: Option<OverlayMode>)
    ensures
        r == mode_slot(json.doc(), key@, index as int, default),
{
    match slot_of(json, key, index) {
        Some(item) => mode_from(item),
        None => Some(default),
    }
}

pub open spec fn fullscreen_slot(doc: Doc, key: Seq<char>, index: int, default: FullscreenMode) -> Option<FullscreenMode> {
    match slot(doc, key, index) {
        Some(item) => read_fullscreen(item),
        None => Some(default),
    }
}

fn fullscreen_at(json: &Json, key: &str, index: usize, default: FullscreenMode) -> (r: Option<FullscreenMode>)
    ensures
        r == fullscreen_slot(json.doc(), key@, index as int, default),
{
    match slot_of(json, key, index) {
        Some(item) => fullscreen_from(item),
        None => Some(default),
    }
}

pub open spec fn temperature_slot(doc: Doc, key: Seq<char>, index: int, default: Temperature) -> Option<Temperature> {
    match slot(doc, key, index) {
        Some(item) => read_temperature(item),
        None => Some(default),
    }
}

fn temperature_at(json: &Json, key: &str, index: usize, default: Temperature) -> (r: Option<Temperature>)
    ensures
        r == temperature_slot(json.doc(), key@, index as int, default),
{
    match slot_of(json, key, index) {
        Some(item) => temperature_from(item),
        None => Some(default),
    }
}

pub open spec fn frequency_slot(doc: Doc, key: Seq<char>, index: int, default: Frequency) -> Option<Frequency> {
    match slot(doc, key, index) {
        Some(item) => read_frequency(item),
        None => Some(default),
    }
}

fn frequency_at(json: &Json, key: &str, index: usize, default: Frequency) -> (r: Option<Frequency>)
    ensures
        r == frequency_slot(json.doc(), key@, index as int, default),
{
    match slot_of(json, key, index) {
        Some(item) => frequency_from(item),
        None => Some(default),
    }
}

pub open spec fn memory_slot(doc: Doc, key: Seq<char>, index: int, default: Memory) -> Option<Memory> {
    match slot(doc, key, index) {
        Some(item) => read_memory(item),
        None => Some(default),
    }
}

fn memory_at(json: &Json, key: &str, index: usize, default: Memory) -> (r: Option<Memory>)
    ensures
        r == memory_slot(json.doc(), key@, index as int, default),
{
    match slot_of(json, key, index) {
        Some(item) => memory_from(item),
        None => Some(default),
    }
}

pub open spec fn target_slot(doc: Doc, key: Seq<char>, index: int, default: TargetChoice) -> Option<TargetChoice> {
    match slot(doc, key, index) {
        Some(item) => read_target(item),
        None => Some(default),
    }
}

fn target_at(json: &Json, key: &str, index: usize, default: TargetChoice) -> (r: Option<TargetChoice>)
    ensures
        r == target_slot(json.doc(), key@, index as int, default),
{
    match slot_of(json, key, index) {
        Some(item) => target_from(item),
        None => Some(default),
    }
}

pub open spec fn color_slot(doc: Doc, key: Seq<char>, index: int, default: Option<Rgb>) -> Option<Option<Rgb>> {
    match slot(doc, key, index) {
        Some(item) => read_color(item),
        None => Some(default),
    }
}

fn color_at(json: &Json, key: &str, index: usize, default: Option<Rgb>) -> (r: Option<Option<Rgb>>)
    ensures
        r == color_slot(json.doc(), key@, index as int, default),
{
    match slot_of(json, key, index) {
        Some(item) => color_from(item),
        None => Some(default),
    }
}

pub open spec fn text_slot(doc: Doc, key: Seq<char>, index: int, default: Seq<char>) -> Option<Seq<char>> {
    match slot(doc, key, index) {
        Some(item) => read_text(item),
        None => Some(default),
    }
}

fn text_at(json: &Json, key: &str, index: usize, default: String) -> (r: Option<String>)
    ensures
        match r {
            Some(value) => text_slot(json.doc(), key@, index as int, default@) == Some(value@),
            None => text_slot(json.doc(), key@, index as int, default@) is None,
        },
{
    match slot_of(json, key, index) {
        Some(item) => text_from(item),
        None => Some(default),
    }
}

pub open spec fn opt_text_slot(doc: Doc, key: Seq<char>, index: int, default: Option<Seq<char>>) -> Option<Option<Seq<char>>> {
    match slot(doc, key, index) {
        Some(item) => read_opt_text(item),
        None => Some(default),
    }
}

fn opt_text_at(json: &Json, key: &str, index: usize, default: Option<String>) -> (r: Option<Option<String>>)
    ensures
        match r {
            Some(value) => opt_text_slot(json.doc(), key@, index as int, text_of(default)) == Some(text_of(value)),
            None => opt_text_slot(json.doc(), key@, index as int, text_of(default)) is None,
        },
{
    match slot_of(json, key, index) {
        Some(item) => opt_text_from(item),
        None => Some(default),
    }
}

pub open spec fn order_slot(doc: Doc, key: Seq<char>, index: int, default: Seq<BlockKind>) -> Option<Seq<BlockKind>> {
    match slot(doc, key, index) {
        Some(item) => read_order(item),
        None => Some(default),
    }
}

fn order_at(json: &Json, key: &str, index: usize, default: Vec<BlockKind>) -> (r: Option<Vec<BlockKind>>)
    ensures
        match r {
            Some(value) => order_slot(json.doc(), key@, index as int, default@) == Some(value@),
            None => order_slot(json.doc(), key@, index as int, default@) is None,
        },
{
    match slot_of(json, key, index) {
        Some(item) => order_from(item),
        None => Some(default),
    }
}

pub open spec fn names_slot(
    doc: Doc,
    key: Seq<char>,
    index: int,
    default: Seq<Seq<char>>,
) -> Option<Seq<Seq<char>>> {
    match slot(doc, key, index) {
        Some(item) => read_names(item),
        None => Some(default),
    }
}

fn names_at(json: &Json, key: &str, index: usize, default: NameSet) -> (r: Option<NameSet>)
    requires
        default.valid(),
    ensures
        match r {
            Some(names) => names.valid() && names_slot(
                json.doc(),
                key@,
                index as int,
                default@,
            ) == Some(names@),
            None => names_slot(json.doc(), key@, index as int, default@) is None,
        },
{
    match slot_of(json, key, index) {
        Some(item) => names_from(item),
        None => Some(default),
    }
}

pub open spec fn read_anchor(doc: Doc) -> Option<Anchor> {
    let d = default_anchor();
    let enabled = bool_slot(doc, "enabled"@, 0, d.enabled);
    let monitor = usize_slot(doc, "monitor"@, 1, d.monitor);
    let corner = corner_slot(doc, "corner"@, 2, d.corner);
    let offset_x = i32_slot(doc, "offset_x"@, 3, d.offset_x);
    let offset_y = i32_slot(doc, "offset_y"@, 4, d.offset_y);
    if shaped(doc, 5) && enabled is Some && monitor is Some && corner is Some && offset_x is Some && offset_y is Some {
        Some(Anchor { enabled: enabled->0, monitor: monitor->0, corner: corner->0, offset_x: offset_x->0, offset_y: offset_y->0 })
    } else {
        None
    }
}

pub fn anchor_from(json: &Json) -> (r: Option<Anchor>)
    ensures
        r == read_anchor(json.doc()),
{
    if !is_shaped(json, 5) {
        return None;
    }
    let d = Anchor::default();
    let enabled = bool_at(json, "enabled", 0, d.enabled)?;
    let monitor = usize_at(json, "monitor", 1, d.monitor)?;
    let corner = corner_at(json, "corner", 2, d.corner)?;
    let offset_x = i32_at(json, "offset_x", 3, d.offset_x)?;
    let offset_y = i32_at(json, "offset_y", 4, d.offset_y)?;
    Some(Anchor { enabled, monitor, corner, offset_x, offset_y })
}

pub open spec fn anchor_slot(doc: Doc, key: Seq<char>, index: int, default: Anchor) -> Option<Anchor> {
    match slot(doc, key, index) {
        Some(item) => read_anchor(item),
        None => Some(default),
    }
}

fn anchor_at(json: &Json, key: &str, index: usize, default: Anchor) -> (r: Option<Anchor>)
    ensures
        r == anchor_slot(json.doc(), key@, index as int, default),
{
    match slot_of(json, key, index) {
        Some(item) => anchor_from(item),
        None => Some(default),
    }
}

pub open spec fn read_overlay(doc: Doc) -> Option<OverlaySettings> {
    let d = default_overlay();
    let x = opt_i32_slot(doc, "x"@, 0, d.x);
    let y = opt_i32_slot(doc, "y"@, 1, d.y);
    let opacity = single_slot(doc, "opacity"@, 2, d.opacity);
    let scale = single_slot(doc, "scale"@, 3, d.scale);
    let locked = bool_slot(doc, "locked"@, 4, d.locked);
    let visible = bool_slot(doc, "visible"@, 5, d.visible);
    let always_on_top = bool_slot(doc, "always_on_top"@, 6, d.always_on_top);
    let show_graph = bool_slot(doc, "show_graph"@, 7, d.show_graph);
    let show_header = bool_slot(doc, "show_header"@, 8, d.show_header);
    let fullscreen = fullscreen_slot(doc, "fullscreen"@, 9, d.fullscreen);
    let width_scale = single_slot(doc, "width_scale"@, 10, d.width_scale);
    let anchor = anchor_slot(doc, "anchor"@, 11, d.anchor);
    let mode = mode_slot(doc, "mode"@, 12, d.mode);
    let strip_height = single_slot(doc, "strip_height"@, 13, d.strip_height);
    let show_clock = bool_slot(doc, "show_clock"@, 14, d.show_clock);
    let game_only = bool_slot(doc, "game_only"@, 15, d.game_only);
    if shaped(doc, 16) && x is Some && y is Some && opacity is Some && scale is Some && locked is Some && visible is Some && always_on_top is Some && show_graph is Some && show_header is Some && fullscreen is Some && width_scale is Some && anchor is Some && mode is Some && strip_height is Some && show_clock is Some && game_only is Some {
        Some(OverlaySettings { x: x->0, y: y->0, opacity: opacity->0, scale: scale->0, locked: locked->0, visible: visible->0, always_on_top: always_on_top->0, show_graph: show_graph->0, show_header: show_header->0, fullscreen: fullscreen->0, width_scale: width_scale->0, anchor: anchor->0, mode: mode->0, strip_height: strip_height->0, show_clock: show_clock->0, game_only: game_only->0 })
    } else {
        None
    }
}

pub fn overlay_from(json: &Json) -> (r: Option<OverlaySettings>)
    ensures
        r == read_overlay(json.doc()),
{
    if !is_shaped(json, 16) {
        return None;
    }
    let d = OverlaySettings::default();
    let x = opt_i32_at(json, "x", 0, d.x)?;
    let y = opt_i32_at(json, "y", 1, d.y)?;
    let opacity = single_at(json, "opacity", 2, d.opacity)?;
    let scale = single_at(json, "scale", 3, d.scale)?;
    let locked = bool_at(json, "locked", 4, d.locked)?;
    let visible = bool_at(json, "visible", 5, d.visible)?;
    let always_on_top = bool_at(json, "always_on_top", 6, d.always_on_top)?;
    let show_graph = bool_at(json, "show_graph", 7, d.show_graph)?;
    let show_header = bool_at(json, "show_header", 8, d.show_header)?;
    let fullscreen = fullscreen_at(json, "fullscreen", 9, d.fullscreen)?;
    let width_scale = single_at(json, "width_scale", 10, d.width_scale)?;
    let anchor = anchor_at(json, "anchor", 11, d.anchor)?;
    let mode = mode_at(json, "mode", 12, d.mode)?;
    let strip_height = single_at(json, "strip_height", 13, d.strip_height)?;
    let show_clock = bool_at(json, "show_clock", 14, d.show_clock)?;
    let game_only = bool_at(json, "game_only", 15, d.game_only)?;
    Some(OverlaySettings { x, y, opacity, scale, locked, visible, always_on_top, show_graph, show_header, fullscreen, width_scale, anchor, mode, strip_height, show_clock, game_only })
}

pub open spec fn overlay_slot(doc: Doc, key: Seq<char>, index: int, default: OverlaySettings) -> Option<OverlaySettings> {
    match slot(doc, key, index) {
        Some(item) => read_overlay(item),
        None => Some(default),
    }
}

fn overlay_at(json: &Json, key: &str, index: usize, default: OverlaySettings) -> (r: Option<OverlaySettings>)
    ensures
        r == overlay_slot(json.doc(), key@, index as int, default),
{
    match slot_of(json, key, index) {
        Some(item) => overlay_from(item),
        None => Some(default),
    }
}

pub open spec fn read_colors(doc: Doc) -> Option<BlockColors> {
    let d = default_colors();
    let header = color_slot(doc, "header"@, 0, d.header);
    let labels = color_slot(doc, "labels"@, 1, d.labels);
    let values = color_slot(doc, "values"@, 2, d.values);
    let accent = color_slot(doc, "accent"@, 3, d.accent);
    if shaped(doc, 4) && header is Some && labels is Some && values is Some && accent is Some {
        Some(BlockColors { header: header->0, labels: labels->0, values: values->0, accent: accent->0 })
    } else {
        None
    }
}

pub fn colors_from(json: &Json) -> (r: Option<BlockColors>)
    ensures
        r == read_colors(json.doc()),
{
    if !is_shaped(json, 4) {
        return None;
    }
    let d = BlockColors::default();
    let header = color_at(json, "header", 0, d.header)?;
    let labels = color_at(json, "labels", 1, d.labels)?;
    let values = color_at(json, "values", 2, d.values)?;
    let accent = color_at(json, "accent", 3, d.accent)?;
    Some(BlockColors { header, labels, values, accent })
}

pub open spec fn colors_slot(doc: Doc, key: Seq<char>, index: int, default: BlockColors) -> Option<BlockColors> {
    match slot(doc, key, index) {
        Some(item) => read_colors(item),
        None => Some(default),
    }
}

fn colors_at(json: &Json, key: &str, index: usize, default: BlockColors) -> (r: Option<BlockColors>)
    ensures
        r == colors_slot(json.doc(), key@, index as int, default),
{
    match slot_of(json, key, index) {
        Some(item) => colors_from(item),
        None => Some(default),
    }
}

pub open spec fn read_thresholds(doc: Doc) -> Option<Thresholds> {
    let d = default_thresholds();
    let warn_c = single_slot(doc, "warn_c"@, 0, d.warn_c);
    let critical_c = single_slot(doc, "critical_c"@, 1, d.critical_c);
    let color_load = bool_slot(doc, "color_load"@, 2, d.color_load);
    if shaped(doc, 3) && warn_c is Some && critical_c is Some && color_load is Some {
        Some(Thresholds { warn_c: warn_c->0, critical_c: critical_c->0, color_load: color_load->0 })
    } else {
        None
    }
}

pub fn thresholds_from(json: &Json) -> (r: Option<Thresholds>)
    ensures
        r == read_thresholds(json.doc()),
{
    if !is_shaped(json, 3) {
        return None;
    }
    let d = Thresholds::default();
    let warn_c = single_at(json, "warn_c", 0, d.warn_c)?;
    let critical_c = single_at(json, "critical_c", 1, d.critical_c)?;
    let color_load = bool_at(json, "color_load", 2, d.color_load)?;
    Some(Thresholds { warn_c, critical_c, color_load })
}

pub open spec fn thresholds_slot(doc: Doc, key: Seq<char>, index: int, default: Thresholds) -> Option<Thresholds> {
    match slot(doc, key, index) {
        Some(item) => read_thresholds(item),
        None => Some(default),
    }
}

fn thresholds_at(json: &Json, key: &str, index: usize, default: Thresholds) -> (r: Option<Thresholds>)
    ensures
        r == thresholds_slot(json.doc(), key@, index as int, default),
{
    match slot_of(json, key, index) {
        Some(item) => thresholds_from(item),
        None => Some(default),
    }
}

pub open spec fn read_block(doc: Doc) -> Option<BlockView> {
    let d = default_block();
    let enabled = bool_slot(doc, "enabled"@, 0, d.enabled);
    let title = text_slot(doc, "title"@, 1, d.title);
    let device_name = bool_slot(doc, "device_name"@, 2, d.device_name);
    let colors = colors_slot(doc, "colors"@, 3, d.colors);
    let thresholds = thresholds_slot(doc, "thresholds"@, 4, d.thresholds);
    if shaped(doc, 5) && enabled is Some && title is Some && device_name is Some && colors is Some && thresholds is Some {
        Some(BlockView { enabled: enabled->0, title: title->0, device_name: device_name->0, colors: colors->0, thresholds: thresholds->0 })
    } else {
        None
    }
}

pub fn block_from(json: &Json) -> (r: Option<Block>)
    ensures
        match r {
            Some(value) => read_block(json.doc()) == Some(value@),
            None => read_block(json.doc()) is None,
        },
{
    if !is_shaped(json, 5) {
        return None;
    }
    let d = Block::default();
    let enabled = bool_at(json, "enabled", 0, d.enabled)?;
    let title = text_at(json, "title", 1, d.title)?;
    let device_name = bool_at(json, "device_name", 2, d.device_name)?;
    let colors = colors_at(json, "colors", 3, d.colors)?;
    let thresholds = thresholds_at(json, "thresholds", 4, d.thresholds)?;
    Some(Block { enabled, title, device_name, colors, thresholds })
}

pub open spec fn block_slot(doc: Doc, key: Seq<char>, index: int, default: BlockView) -> Option<BlockView> {
    match slot(doc, key, index) {
        Some(item) => read_block(item),
        None => Some(default),
    }
}

fn block_at(json: &Json, key: &str, index: usize, default: Block) -> (r: Option<Block>)
    ensures
        match r {
            Some(value) => block_slot(json.doc(), key@, index as int, default@) == Some(value@),
            None => block_slot(json.doc(), key@, index as int, default@) is None,
        },
{
    match slot_of(json, key, index) {
        Some(item) => block_from(item),
        None => Some(default),
    }
}

pub open spec fn read_blocks(doc: Doc) -> Option<BlocksView> {
    let d = default_blocks();
    let gpu = block_slot(doc, "gpu"@, 0, d.gpu);
    let cpu = block_slot(doc, "cpu"@, 1, d.cpu);
    let ram = block_slot(doc, "ram"@, 2, d.ram);
    let fps = block_slot(doc, "fps"@, 3, d.fps);
    let order = order_slot(doc, "order"@, 4, d.order);
    if shaped(doc, 5) && gpu is Some && cpu is Some && ram is Some && fps is Some && order is Some {
        Some(BlocksView { gpu: gpu->0, cpu: cpu->0, ram: ram->0, fps: fps->0, order: order->0 })
    } else {
        None
    }
}

pub fn blocks_from(json: &Json) -> (r: Option<Blocks>)
    ensures
        match r {
            Some(value) => read_blocks(json.doc()) == Some(value@),
            None => read_blocks(json.doc()) is None,
        },
{
    if !is_shaped(json, 5) {
        return None;
    }
    let d = Blocks::default();
    let gpu = block_at(json, "gpu", 0, d.gpu)?;
    let cpu = block_at(json, "cpu", 1, d.cpu)?;
    let ram = block_at(json, "ram", 2, d.ram)?;
    let fps = block_at(json, "fps", 3, d.fps)?;
    let order = order_at(json, "order", 4, d.order)?;
    Some(Blocks { gpu, cpu, ram, fps, order })
}

pub open spec fn blocks_slot(doc: Doc, key: Seq<char>, index: int, default: BlocksView) -> Option<BlocksView> {
    match slot(doc, key, index) {
        Some(item) => read_blocks(item),
        None => Some(default),
    }
}

fn blocks_at(json: &Json, key: &str, index: usize, default: Blocks) -> (r: Option<Blocks>)
    ensures
        match r {
            Some(value) => blocks_slot(json.doc(), key@, index as int, default@) == Some(value@),
            None => blocks_slot(json.doc(), key@, index as int, default@) is None,
        },
{
    match slot_of(json, key, index) {
        Some(item) => blocks_from(item),
        None => Some(default),
    }
}

pub open spec fn read_metrics(doc: Doc) -> Option<MetricsView> {
    let d = default_metrics();
    let disabled = names_slot(doc, "disabled"@, 0, d.disabled);
    let enabled = names_slot(doc, "enabled"@, 1, d.enabled);
    let hide_unavailable = bool_slot(doc, "hide_unavailable"@, 2, d.hide_unavailable);
    if shaped(doc, 3) && disabled is Some && enabled is Some && hide_unavailable is Some {
        Some(MetricsView { disabled: disabled->0, enabled: enabled->0, hide_unavailable: hide_unavailable->0 })
    } else {
        None
    }
}

pub fn metrics_from(json: &Json) -> (r: Option<MetricSettings>)
    ensures
        match r {
            Some(value) => read_metrics(json.doc()) == Some(value@) && value@.valid(),
            None => read_metrics(json.doc()) is None,
        },
{
    if !is_shaped(json, 3) {
        return None;
    }
    let d = MetricSettings::default();
    let disabled = names_at(json, "disabled", 0, d.disabled)?;
    let enabled = names_at(json, "enabled", 1, d.enabled)?;
    let hide_unavailable = bool_at(json, "hide_unavailable", 2, d.hide_unavailable)?;
    Some(MetricSettings { disabled, enabled, hide_unavailable })
}

pub open spec fn metrics_slot(
    doc: Doc,
    key: Seq<char>,
    index: int,
    default: MetricsView,
) -> Option<MetricsView> {
    match slot(doc, key, index) {
        Some(item) => read_metrics(item),
        None => Some(default),
    }
}

fn metrics_at(json: &Json, key: &str, index: usize, default: MetricSettings) -> (r: Option<
    MetricSettings,
>)
    requires
        default@.valid(),
    ensures
        match r {
            Some(value) => value@.valid() && metrics_slot(
                json.doc(),
                key@,
                index as int,
                default@,
            ) == Some(value@),
            None => metrics_slot(json.doc(), key@, index as int, default@) is None,
        },
{
    match slot_of(json, key, index) {
        Some(item) => metrics_from(item),
        None => Some(default),
    }
}

pub open spec fn read_units(doc: Doc) -> Option<Units> {
    let d = default_units();
    let temperature = temperature_slot(doc, "temperature"@, 0, d.temperature);
    let frequency = frequency_slot(doc, "frequency"@, 1, d.frequency);
    let memory = memory_slot(doc, "memory"@, 2, d.memory);
    if shaped(doc, 3) && temperature is Some && frequency is Some && memory is Some {
        Some(Units { temperature: temperature->0, frequency: frequency->0, memory: memory->0 })
    } else {
        None
    }
}

pub fn units_from(json: &Json) -> (r: Option<Units>)
    ensures
        r == read_units(json.doc()),
{
    if !is_shaped(json, 3) {
        return None;
    }
    let d = Units::default();
    let temperature = temperature_at(json, "temperature", 0, d.temperature)?;
    let frequency = frequency_at(json, "frequency", 1, d.frequency)?;
    let memory = memory_at(json, "memory", 2, d.memory)?;
    Some(Units { temperature, frequency, memory })
}

pub open spec fn units_slot(doc: Doc, key: Seq<char>, index: int, default: Units) -> Option<Units> {
    match slot(doc, key, index) {
        Some(item) => read_units(item),
        None => Some(default),
    }
}

fn units_at(json: &Json, key: &str, index: usize, default: Units) -> (r: Option<Units>)
    ensures
        r == units_slot(json.doc(), key@, index as int, default),
{
    match slot_of(json, key, index) {
        Some(item) => units_from(item),
        None => Some(default),
    }
}

pub open spec fn read_sensors(doc: Doc) -> Option<SensorOptions> {
    let d = default_sensors();
    let hardware_interval_ms = u64_slot(doc, "hardware_interval_ms"@, 0, d.hardware_interval_ms);
    if shaped(doc, 1) && hardware_interval_ms is Some {
        Some(SensorOptions { hardware_interval_ms: hardware_interval_ms->0 })
    } else {
        None
    }
}

pub fn sensors_from(json: &Json) -> (r: Option<SensorOptions>)
    ensures
        r == read_sensors(json.doc()),
{
    if !is_shaped(json, 1) {
        return None;
    }
    let d = SensorOptions::default();
    let hardware_interval_ms = u64_at(json, "hardware_interval_ms", 0, d.hardware_interval_ms)?;
    Some(SensorOptions { hardware_interval_ms })
}

pub open spec fn sensors_slot(doc: Doc, key: Seq<char>, index: int, default: SensorOptions) -> Option<SensorOptions> {
    match slot(doc, key, index) {
        Some(item) => read_sensors(item),
        None => Some(default),
    }
}

fn sensors_at(json: &Json, key: &str, index: usize, default: SensorOptions) -> (r: Option<SensorOptions>)
    ensures
        r == sensors_slot(json.doc(), key@, index as int, default),
{
    match slot_of(json, key, index) {
        Some(item) => sensors_from(item),
        None => Some(default),
    }
}

pub open spec fn read_fps(doc: Doc) -> Option<FpsView> {
    let d = default_fps();
    let target = target_slot(doc, "target"@, 0, d.target);
    let manual_process = opt_text_slot(doc, "manual_process"@, 1, d.manual_process);
    let manual_pid = opt_u32_slot(doc, "manual_pid"@, 2, d.manual_pid);
    let presentmon_path = opt_text_slot(doc, "presentmon_path"@, 3, d.presentmon_path);
    if shaped(doc, 4) && target is Some && manual_process is Some && manual_pid is Some && presentmon_path is Some {
        Some(FpsView { target: target->0, manual_process: manual_process->0, manual_pid: manual_pid->0, presentmon_path: presentmon_path->0 })
    } else {
        None
    }
}

pub fn fps_from(json: &Json) -> (r: Option<FpsSettings>)
    ensures
        match r {
            Some(value) => read_fps(json.doc()) == Some(value@),
            None => read_fps(json.doc()) is None,
        },
{
    if !is_shaped(json, 4) {
        return None;
    }
    let d = FpsSettings::default();
    let target = target_at(json, "target", 0, d.target)?;
    let manual_process = opt_text_at(json, "manual_process", 1, d.manual_process)?;
    let manual_pid = opt_u32_at(json, "manual_pid", 2, d.manual_pid)?;
    let presentmon_path = opt_text_at(json, "presentmon_path", 3, d.presentmon_path)?;
    Some(FpsSettings { target, manual_process, manual_pid, presentmon_path })
}

pub open spec fn fps_slot(doc: Doc, key: Seq<char>, index: int, default: FpsView) -> Option<FpsView> {
    match slot(doc, key, index) {
        Some(item) => read_fps(item),
        None => Some(default),
    }
}

fn fps_at(json: &Json, key: &str, index: usize, default: FpsSettings) -> (r: Option<FpsSettings>)
    ensures
        match r {
            Some(value) => fps_slot(json.doc(), key@, index as int, default@) == Some(value@),
            None => fps_slot(json.doc(), key@, index as int, default@) is None,
        },
{
    match slot_of(json, key, index) {
        Some(item) => fps_from(item),
        None => Some(default),
    }
}

pub open spec fn read_hotkeys(doc: Doc) -> Option<HotkeysView> {
    let d = default_hotkeys();
    let toggle_visibility = text_slot(doc, "toggle_visibility"@, 0, d.toggle_visibility);
    let toggle_lock = text_slot(doc, "toggle_lock"@, 1, d.toggle_lock);
    if shaped(doc, 2) && toggle_visibility is Some && toggle_lock is Some {
        Some(HotkeysView { toggle_visibility: toggle_visibility->0, toggle_lock: toggle_lock->0 })
    } else {
        None
    }
}

pub fn hotkeys_from(json: &Json) -> (r: Option<HotkeySettings>)
    ensures
        match r {
            Some(value) => read_hotkeys(json.doc()) == Some(value@),
            None => read_hotkeys(json.doc()) is None,
        },
{
    if !is_shaped(json, 2) {
        return None;
    }
    let d = HotkeySettings::default();
    let toggle_visibility = text_at(json, "toggle_visibility", 0, d.toggle_visibility)?;
    let toggle_lock = text_at(json, "toggle_lock", 1, d.toggle_lock)?;
    Some(HotkeySettings { toggle_visibility, toggle_lock })
}

pub open spec fn hotkeys_slot(doc: Doc, key: Seq<char>, index: int, default: HotkeysView) -> Option<HotkeysView> {
    match slot(doc, key, index) {
        Some(item) => read_hotkeys(item),
        None => Some(default),
    }
}

fn hotkeys_at(json: &Json, key: &str, index: usize, default: HotkeySettings) -> (r: Option<HotkeySettings>)
    ensures
        match r {
            Some(value) => hotkeys_slot(json.doc(), key@, index as int, default@) == Some(value@),
            None => hotkeys_slot(json.doc(), key@, index as int, default@) is None,
        },
{
    match slot_of(json, key, index) {
        Some(item) => hotkeys_from(item),
        None => Some(default),
    }
}

pub open spec fn read_game(doc: Doc) -> Option<GameView> {
    let d = default_game();
    let name = text_slot(doc, "name"@, 0, d.name);
    let path = text_slot(doc, "path"@, 1, d.path);
    let arguments = text_slot(doc, "arguments"@, 2, d.arguments);
    let borderless = bool_slot(doc, "borderless"@, 3, d.borderless);
    let window_exe = opt_text_slot(doc, "window_exe"@, 4, d.window_exe);
    if shaped(doc, 5) && name is Some && path is Some && arguments is Some && borderless is Some && window_exe is Some {
        Some(GameView { name: name->0, path: path->0, arguments: arguments->0, borderless: borderless->0, window_exe: window_exe->0 })
    } else {
        None
    }
}

pub fn game_from(json: &Json) -> (r: Option<GameProfile>)
    ensures
        match r {
            Some(value) => read_game(json.doc()) == Some(value@),
            None => read_game(json.doc()) is None,
        },
{
    if !is_shaped(json, 5) {
        return None;
    }
    let d = GameProfile::default();
    let name = text_at(json, "name", 0, d.name)?;
    let path = text_at(json, "path", 1, d.path)?;
    let arguments = text_at(json, "arguments", 2, d.arguments)?;
    let borderless = bool_at(json, "borderless", 3, d.borderless)?;
    let window_exe = opt_text_at(json, "window_exe", 4, d.window_exe)?;
    Some(GameProfile { name, path, arguments, borderless, window_exe })
}

/// The games of a list, where every item is one.
pub open spec fn games_in(items: Seq<Doc>) -> Option<Seq<GameView>>
    decreases items.len(),
{
    if items.len() == 0 {
        Some(seq![])
    } else {
        match (games_in(items.drop_last()), read_game(items.last())) {
            (Some(rest), Some(game)) => Some(rest.push(game)),
            _ => None,
        }
    }
}

pub open spec fn read_games(doc: Doc) -> Option<Seq<GameView>> {
    match doc {
        Doc::List(items) => games_in(items),
        _ => None,
    }
}

proof fn lemma_no_games(items: Seq<Doc>, at: int)
    requires
        0 <= at < items.len(),
        read_game(items[at]) is None,
    ensures
        games_in(items) is None,
    decreases items.len(),
{
    if at < items.len() - 1 {
        lemma_no_games(items.drop_last(), at);
    }
}

fn games_from(json: &Json) -> (r: Option<Vec<GameProfile>>)
    ensures
        match r {
            Some(games) => read_games(json.doc()) == Some(game_views(games@)),
            None => read_games(json.doc()) is None,
        },
{
    match json {
        Json::List(items) => {
            let ghost all = docs(items@);
            let mut games: Vec<GameProfile> = Vec::new();
            let mut i: usize = 0;
            proof {
                lemma_docs(items@);
                assert(all.take(0) =~= seq![]);
                assert(game_views(games@) =~= seq![]);
            }
            while i < items.len()
                invariant
                    i <= items.len(),
                    all == docs(items@),
                    all.len() == items.len(),
                    json.doc() == Doc::List(all),
                    games_in(all.take(i as int)) == Some(game_views(games@)),
                decreases items.len() - i,
            {
                proof {
                    lemma_docs(items@);
                    assert(all.take(i + 1).drop_last() =~= all.take(i as int));
                    assert(all.take(i + 1).last() == all[i as int]);
                }
                match game_from(&items[i]) {
                    Some(game) => {
                        proof {
                            lemma_game_views_push(games@, game);
                        }
                        games.push(game);
                    },
                    None => {
                        proof {
                            lemma_no_games(all, i as int);
                        }
                        return None;
                    },
                }
                i += 1;
            }
            proof {
                assert(all.take(all.len() as int) =~= all);
            }
            Some(games)
        },
        _ => None,
    }
}

pub open spec fn games_slot(
    doc: Doc,
    key: Seq<char>,
    index: int,
    default: Seq<GameView>,
) -> Option<Seq<GameView>> {
    match slot(doc, key, index) {
        Some(item) => read_games(item),
        None => Some(default),
    }
}

fn games_at(json: &Json, key: &str, index: usize, default: Vec<GameProfile>) -> (r: Option<
    Vec<GameProfile>,
>)
    ensures
        match r {
            Some(games) => games_slot(json.doc(), key@, index as int, game_views(default@))
                == Some(game_views(games@)),
            None => games_slot(json.doc(), key@, index as int, game_views(default@)) is None,
        },
{
    match slot_of(json, key, index) {
        Some(item) => games_from(item),
        None => Some(default),
    }
}

#[verifier::opaque]
pub open spec fn read_settings(doc: Doc) -> Option<SettingsView> {
    let d = default_settings();
    let version = u32_slot(doc, "version"@, 0, d.version);
    let overlay = overlay_slot(doc, "overlay"@, 1, d.overlay);
    let blocks = blocks_slot(doc, "blocks"@, 2, d.blocks);
    let metrics = metrics_slot(doc, "metrics"@, 3, d.metrics);
    let units = units_slot(doc, "units"@, 4, d.units);
    let sensors = sensors_slot(doc, "sensors"@, 5, d.sensors);
    let fps = fps_slot(doc, "fps"@, 6, d.fps);
    let hotkeys = hotkeys_slot(doc, "hotkeys"@, 7, d.hotkeys);
    let setup_done = bool_slot(doc, "setup_done"@, 8, d.setup_done);
    let games = games_slot(doc, "games"@, 9, d.games);
    if shaped(doc, 10) && version is Some && overlay is Some && blocks is Some && metrics is Some && units is Some && sensors is Some && fps is Some && hotkeys is Some && setup_done is Some && games is Some {
        Some(SettingsView { version: version->0, overlay: overlay->0, blocks: blocks->0, metrics: metrics->0, units: units->0, sensors: sensors->0, fps: fps->0, hotkeys: hotkeys->0, setup_done: setup_done->0, games: games->0 })
    } else {
        None
    }
}

pub fn settings_from(json: &Json) -> (r: Option<Settings>)
    ensures
        match r {
            Some(value) => read_settings(json.doc()) == Some(value@) && value@.metrics.valid(),
            None => read_settings(json.doc()) is None,
        },
{
    proof {
        reveal(read_settings);
    }
    if !is_shaped(json, 10) {
        return None;
    }
    let d = Settings::default();
    let version = u32_at(json, "version", 0, d.version)?;
    let overlay = overlay_at(json, "overlay", 1, d.overlay)?;
    let blocks = blocks_at(json, "blocks", 2, d.blocks)?;
    let metrics = metrics_at(json, "metrics", 3, d.metrics)?;
    let units = units_at(json, "units", 4, d.units)?;
    let sensors = sensors_at(json, "sensors", 5, d.sensors)?;
    let fps = fps_at(json, "fps", 6, d.fps)?;
    let hotkeys = hotkeys_at(json, "hotkeys", 7, d.hotkeys)?;
    let setup_done = bool_at(json, "setup_done", 8, d.setup_done)?;
    let games = games_at(json, "games", 9, d.games)?;
    Some(Settings { version, overlay, blocks, metrics, units, sensors, fps, hotkeys, setup_done, games })
}

} // verus!
