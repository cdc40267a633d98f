//! Documents that say the same.
//!
//! A text is written with the keys of an object in one order and read with them in another, and a
//! number in single precision is written with the digits it needs, which are not those of its
//! exact value. What is read from two documents that differ in nothing else is the same.

use vstd::prelude::*;

use crate::blocks::BlockKind;
use crate::blocks::Rgb;
use crate::json::Doc;
use crate::json::field;
use crate::json::json_of;
use crate::number::Single;
use crate::placement::Corner;
use crate::saved::law_settings_read_back;
use crate::saved::lemma_saved_version;
use crate::saved::writable;
use crate::saved::write_settings;
use crate::schema::anchor_slot;
use crate::schema::block_slot;
use crate::schema::blocks_slot;
use crate::schema::bool_slot;
use crate::schema::color_slot;
use crate::schema::colors_slot;
use crate::schema::corner_slot;
use crate::schema::fps_slot;
use crate::schema::frequency_slot;
use crate::schema::fullscreen_slot;
use crate::schema::games_in;
use crate::schema::games_slot;
use crate::schema::hotkeys_slot;
use crate::schema::i32_slot;
use crate::schema::kinds_in;
use crate::schema::known_kind;
use crate::schema::memory_slot;
use crate::schema::metrics_slot;
use crate::schema::mode_slot;
use crate::schema::names_slot;
use crate::schema::opt_i32_slot;
use crate::schema::opt_text_slot;
use crate::schema::opt_u32_slot;
use crate::schema::order_slot;
use crate::schema::overlay_slot;
use crate::schema::read_anchor;
use crate::schema::read_block;
use crate::schema::read_blocks;
use crate::schema::read_bool;
use crate::schema::read_color;
use crate::schema::read_colors;
use crate::schema::read_corner;
use crate::schema::read_fps;
use crate::schema::read_frequency;
use crate::schema::read_fullscreen;
use crate::schema::read_game;
use crate::schema::read_games;
use crate::schema::read_hotkeys;
use crate::schema::read_i32;
use crate::schema::read_memory;
use crate::schema::read_metrics;
use crate::schema::read_mode;
use crate::schema::read_names;
use crate::schema::read_opt_i32;
use crate::schema::read_opt_text;
use crate::schema::read_opt_u32;
use crate::schema::read_order;
use crate::schema::read_overlay;
use crate::schema::read_sensors;
use crate::schema::read_settings;
use crate::schema::read_single;
use crate::schema::read_target;
use crate::schema::read_temperature;
use crate::schema::read_text;
use crate::schema::read_thresholds;
use crate::schema::read_u32;
use crate::schema::read_u64;
use crate::schema::read_units;
use crate::schema::read_usize;
use crate::schema::sensors_slot;
use crate::schema::shaped;
use crate::schema::single_slot;
use crate::schema::slot;
use crate::schema::target_slot;
use crate::schema::temperature_slot;
use crate::schema::text_slot;
use crate::schema::texts_in;
use crate::schema::thresholds_slot;
use crate::schema::u32_slot;
use crate::schema::u64_slot;
use crate::schema::units_slot;
use crate::schema::usize_slot;
use crate::schema::variant;
use crate::settings::CURRENT_VERSION;
use crate::settings::FullscreenMode;
use crate::settings::OverlayMode;
use crate::settings::SettingsView;
use crate::settings::TargetChoice;
use crate::settings_file::newer_notice;
use crate::settings_file::settings_in;
use crate::settings_file::version_of;
use crate::units::Frequency;
use crate::units::Memory;
use crate::units::Temperature;

verus! {

/// Two documents say the same: the same values under the same keys, in any order, and the same
/// numbers in single precision.
#[verifier::opaque]
pub open spec fn alike(a: Doc, b: Doc) -> bool
    decreases a,
{
    match (a, b) {
        (Doc::Real(x), Doc::Real(y)) => x.narrow() == y.narrow(),
        (Doc::List(x), Doc::List(y)) => x.len() == y.len() && forall|i: int|
            0 <= i < x.len() ==> alike(#[trigger] x[i], y[i]),
        (Doc::Object(x), Doc::Object(y)) => {
            &&& x.len() == y.len()
            &&& forall|key: Seq<char>|
                field(x, key) is None ==> (#[trigger] field(y, key)) is None
            &&& forall|i: int|
                0 <= i < x.len() ==> field(y, (#[trigger] x[i]).0) is Some && alike(
                    x[i].1,
                    field(y, x[i].0)->0,
                )
        },
        _ => a == b,
    }
}

/// Two values say the same, or both are missing.
pub open spec fn alike_options(a: Option<Doc>, b: Option<Doc>) -> bool {
    match (a, b) {
        (Some(x), Some(y)) => alike(x, y),
        (None, None) => true,
        _ => false,
    }
}

/// The value of a key stands in one of the entries.
proof fn lemma_field_stands(entries: Seq<(Seq<char>, Doc)>, key: Seq<char>) -> (at: int)
    ensures
        field(entries, key) is Some ==> 0 <= at < entries.len() && entries[at] == (
            key,
            field(entries, key)->0,
        ),
    decreases entries.len(),
{
    if entries.len() == 0 {
        0
    } else if entries.last().0 == key {
        entries.len() - 1
    } else {
        lemma_field_stands(entries.drop_last(), key)
    }
}

proof fn lemma_alike_fields(a: Seq<(Seq<char>, Doc)>, b: Seq<(Seq<char>, Doc)>, key: Seq<char>)
    requires
        alike(Doc::Object(a), Doc::Object(b)),
    ensures
        alike_options(field(a, key), field(b, key)),
{
    reveal(alike);
    let at = lemma_field_stands(a, key);
    if field(a, key) is Some {
        assert(a[at] == (key, field(a, key)->0));
    }
}

proof fn lemma_alike_slots(a: Doc, b: Doc, key: Seq<char>, index: int)
    requires
        alike(a, b),
        0 <= index,
    ensures
        alike_options(slot(a, key, index), slot(b, key, index)),
{
    reveal(alike);
    match (a, b) {
        (Doc::Object(x), Doc::Object(y)) => {
            lemma_alike_fields(x, y, key);
        },
        (Doc::List(x), Doc::List(y)) => {
            if index < x.len() {
                assert(alike(x[index], y[index]));
            }
        },
        _ => {},
    }
}

proof fn lemma_alike_shapes(a: Doc, b: Doc, count: int)
    requires
        alike(a, b),
    ensures
        shaped(a, count) == shaped(b, count),
{
    reveal(alike);
}

proof fn lemma_alike_variants(a: Doc, b: Doc)
    requires
        alike(a, b),
    ensures
        variant(a) == variant(b),
{
    reveal(alike);
    match (a, b) {
        (Doc::Object(x), Doc::Object(y)) => {
            if x.len() == 1 {
                reveal_with_fuel(field, 2);
                assert(field(y, x[0].0) is Some && alike(x[0].1, field(y, x[0].0)->0));
                assert(y[0].0 == x[0].0 && field(y, x[0].0) == Some(y[0].1));
            }
        },
        _ => {},
    }
}

proof fn lemma_alike_kinds(a: Seq<Doc>, b: Seq<Doc>)
    requires
        a.len() == b.len(),
        forall|i: int| 0 <= i < a.len() ==> alike(#[trigger] a[i], b[i]),
    ensures
        kinds_in(a) == kinds_in(b),
    decreases a.len(),
{
    if a.len() > 0 {
        assert(alike(a[a.len() - 1], b[b.len() - 1]));
        lemma_alike_variants(a.last(), b.last());
        assert forall|i: int| 0 <= i < a.drop_last().len() implies alike(
            #[trigger] a.drop_last()[i],
            b.drop_last()[i],
        ) by {
            assert(alike(a[i], b[i]));
        }
        lemma_alike_kinds(a.drop_last(), b.drop_last());
    }
}

proof fn lemma_alike_texts(a: Seq<Doc>, b: Seq<Doc>)
    requires
        a.len() == b.len(),
        forall|i: int| 0 <= i < a.len() ==> alike(#[trigger] a[i], b[i]),
    ensures
        texts_in(a) == texts_in(b),
    decreases a.len(),
{
    if a.len() > 0 {
        assert(alike(a[a.len() - 1], b[b.len() - 1]));
        lemma_alike_values(a.last(), b.last());
        assert forall|i: int| 0 <= i < a.drop_last().len() implies alike(
            #[trigger] a.drop_last()[i],
            b.drop_last()[i],
        ) by {
            assert(alike(a[i], b[i]));
        }
        lemma_alike_texts(a.drop_last(), b.drop_last());
    }
}

proof fn lemma_alike_values(a: Doc, b: Doc)
    requires
        alike(a, b),
    ensures
        read_bool(a) == read_bool(b),
        read_u32(a) == read_u32(b),
        read_u64(a) == read_u64(b),
        read_usize(a) == read_usize(b),
        read_i32(a) == read_i32(b),
        read_single(a) == read_single(b),
        read_opt_i32(a) == read_opt_i32(b),
        read_opt_u32(a) == read_opt_u32(b),
        read_color(a) == read_color(b),
        read_text(a) == read_text(b),
        read_opt_text(a) == read_opt_text(b),
{
    reveal(alike);
}

proof fn lemma_alike_lists(a: Doc, b: Doc)
    requires
        alike(a, b),
    ensures
        read_order(a) == read_order(b),
        read_names(a) == read_names(b),
{
    reveal(alike);
    match (a, b) {
        (Doc::List(x), Doc::List(y)) => {
            lemma_alike_kinds(x, y);
            lemma_alike_texts(x, y);
        },
        _ => {},
    }
}

/// The leaves of two structures that say the same.
proof fn lemma_alike_leaves(a: Doc, b: Doc)
    requires
        alike(a, b),
    ensures
        forall|count: int| #[trigger] shaped(a, count) == shaped(b, count),
        forall|key: Seq<char>, index: int, default: bool|
            0 <= index ==> #[trigger] bool_slot(a, key, index, default) == bool_slot(
                b,
                key,
                index,
                default,
            ),
        forall|key: Seq<char>, index: int, default: u32|
            0 <= index ==> #[trigger] u32_slot(a, key, index, default) == u32_slot(
                b,
                key,
                index,
                default,
            ),
        forall|key: Seq<char>, index: int, default: u64|
            0 <= index ==> #[trigger] u64_slot(a, key, index, default) == u64_slot(
                b,
                key,
                index,
                default,
            ),
        forall|key: Seq<char>, index: int, default: usize|
            0 <= index ==> #[trigger] usize_slot(a, key, index, default) == usize_slot(
                b,
                key,
                index,
                default,
            ),
        forall|key: Seq<char>, index: int, default: i32|
            0 <= index ==> #[trigger] i32_slot(a, key, index, default) == i32_slot(
                b,
                key,
                index,
                default,
            ),
        forall|key: Seq<char>, index: int, default: Single|
            0 <= index ==> #[trigger] single_slot(a, key, index, default) == single_slot(
                b,
                key,
                index,
                default,
            ),
        forall|key: Seq<char>, index: int, default: Option<i32>|
            0 <= index ==> #[trigger] opt_i32_slot(a, key, index, default) == opt_i32_slot(
                b,
                key,
                index,
                default,
            ),
        forall|key: Seq<char>, index: int, default: Option<u32>|
            0 <= index ==> #[trigger] opt_u32_slot(a, key, index, default) == opt_u32_slot(
                b,
                key,
                index,
                default,
            ),
        forall|key: Seq<char>, index: int, default: Corner|
            0 <= index ==> #[trigger] corner_slot(a, key, index, default) == corner_slot(
                b,
                key,
                index,
                default,
            ),
        forall|key: Seq<char>, index: int, default: OverlayMode|
            0 <= index ==> #[trigger] mode_slot(a, key, index, default) == mode_slot(
                b,
                key,
                index,
                default,
            ),
        forall|key: Seq<char>, index: int, default: FullscreenMode|
            0 <= index ==> #[trigger] fullscreen_slot(a, key, index, default) == fullscreen_slot(
                b,
                key,
                index,
                default,
            ),
        forall|key: Seq<char>, index: int, default: Temperature|
            0 <= index ==> #[trigger] temperature_slot(a, key, index, default) == temperature_slot(
                b,
                key,
                index,
                default,
            ),
        forall|key: Seq<char>, index: int, default: Frequency|
            0 <= index ==> #[trigger] frequency_slot(a, key, index, default) == frequency_slot(
                b,
                key,
                index,
                default,
            ),
        forall|key: Seq<char>, index: int, default: Memory|
            0 <= index ==> #[trigger] memory_slot(a, key, index, default) == memory_slot(
                b,
                key,
                index,
                default,
            ),
        forall|key: Seq<char>, index: int, default: TargetChoice|
            0 <= index ==> #[trigger] target_slot(a, key, index, default) == target_slot(
                b,
                key,
                index,
                default,
            ),
        forall|key: Seq<char>, index: int, default: Option<Rgb>|
            0 <= index ==> #[trigger] color_slot(a, key, index, default) == color_slot(
                b,
                key,
                index,
                default,
            ),
        forall|key: Seq<char>, index: int, default: Seq<char>|
            0 <= index ==> #[trigger] text_slot(a, key, index, default) == text_slot(
                b,
                key,
                index,
                default,
            ),
        forall|key: Seq<char>, index: int, default: Option<Seq<char>>|
            0 <= index ==> #[trigger] opt_text_slot(a, key, index, default) == opt_text_slot(
                b,
                key,
                index,
                default,
            ),
        forall|key: Seq<char>, index: int, default: Seq<BlockKind>|
            0 <= index ==> #[trigger] order_slot(a, key, index, default) == order_slot(
                b,
                key,
                index,
                default,
            ),
        forall|key: Seq<char>, index: int, default: Seq<Seq<char>>|
            0 <= index ==> #[trigger] names_slot(a, key, index, default) == names_slot(
                b,
                key,
                index,
                default,
            ),
{
    assert forall|count: int| #[trigger] shaped(a, count) == shaped(b, count) by {
        lemma_alike_shapes(a, b, count);
    }
    assert forall|key: Seq<char>, index: int, default: bool| 0 <= index implies #[trigger] bool_slot(
        a,
        key,
        index,
        default,
    ) == bool_slot(b, key, index, default) by {
        lemma_alike_slots(a, b, key, index);
        if slot(a, key, index) is Some {
            lemma_alike_values(slot(a, key, index)->0, slot(b, key, index)->0);
        }
    }
    assert forall|key: Seq<char>, index: int, default: u32| 0 <= index implies #[trigger] u32_slot(
        a,
        key,
        index,
        default,
    ) == u32_slot(b, key, index, default) by {
        lemma_alike_slots(a, b, key, index);
        if slot(a, key, index) is Some {
            lemma_alike_values(slot(a, key, index)->0, slot(b, key, index)->0);
        }
    }
    assert forall|key: Seq<char>, index: int, default: u64| 0 <= index implies #[trigger] u64_slot(
        a,
        key,
        index,
        default,
    ) == u64_slot(b, key, index, default) by {
        lemma_alike_slots(a, b, key, index);
        if slot(a, key, index) is Some {
            lemma_alike_values(slot(a, key, index)->0, slot(b, key, index)->0);
        }
    }
    assert forall|key: Seq<char>, index: int, default: usize| 0 <= index implies #[trigger] usize_slot(
        a,
        key,
        index,
        default,
    ) == usize_slot(b, key, index, default) by {
        lemma_alike_slots(a, b, key, index);
        if slot(a, key, index) is Some {
            lemma_alike_values(slot(a, key, index)->0, slot(b, key, index)->0);
        }
    }
    assert forall|key: Seq<char>, index: int, default: i32| 0 <= index implies #[trigger] i32_slot(
        a,
        key,
        index,
        default,
    ) == i32_slot(b, key, index, default) by {
        lemma_alike_slots(a, b, key, index);
        if slot(a, key, index) is Some {
            lemma_alike_values(slot(a, key, index)->0, slot(b, key, index)->0);
        }
    }
    assert forall|key: Seq<char>, index: int, default: Single| 0 <= index implies #[trigger] single_slot(
        a,
        key,
        index,
        default,
    ) == single_slot(b, key, index, default) by {
        lemma_alike_slots(a, b, key, index);
        if slot(a, key, index) is Some {
            lemma_alike_values(slot(a, key, index)->0, slot(b, key, index)->0);
        }
    }
    assert forall|key: Seq<char>, index: int, default: Option<i32>| 0 <= index implies #[trigger] opt_i32_slot(
        a,
        key,
        index,
        default,
    ) == opt_i32_slot(b, key, index, default) by {
        lemma_alike_slots(a, b, key, index);
        if slot(a, key, index) is Some {
            lemma_alike_values(slot(a, key, index)->0, slot(b, key, index)->0);
        }
    }
    assert forall|key: Seq<char>, index: int, default: Option<u32>| 0 <= index implies #[trigger] opt_u32_slot(
        a,
        key,
        index,
        default,
    ) == opt_u32_slot(b, key, index, default) by {
        lemma_alike_slots(a, b, key, index);
        if slot(a, key, index) is Some {
            lemma_alike_values(slot(a, key, index)->0, slot(b, key, index)->0);
        }
    }
    assert forall|key: Seq<char>, index: int, default: Corner| 0 <= index implies #[trigger] corner_slot(
        a,
        key,
        index,
        default,
    ) == corner_slot(b, key, index, default) by {
        lemma_alike_slots(a, b, key, index);
        if slot(a, key, index) is Some {
            lemma_alike_variants(slot(a, key, index)->0, slot(b, key, index)->0);
        }
    }
    assert forall|key: Seq<char>, index: int, default: OverlayMode| 0 <= index implies #[trigger] mode_slot(
        a,
        key,
        index,
        default,
    ) == mode_slot(b, key, index, default) by {
        lemma_alike_slots(a, b, key, index);
        if slot(a, key, index) is Some {
            lemma_alike_variants(slot(a, key, index)->0, slot(b, key, index)->0);
        }
    }
    assert forall|key: Seq<char>, index: int, default: FullscreenMode| 0 <= index implies #[trigger] fullscreen_slot(
        a,
        key,
        index,
        default,
    ) == fullscreen_slot(b, key, index, default) by {
        lemma_alike_slots(a, b, key, index);
        if slot(a, key, index) is Some {
            lemma_alike_variants(slot(a, key, index)->0, slot(b, key, index)->0);
        }
    }
    assert forall|key: Seq<char>, index: int, default: Temperature| 0 <= index implies #[trigger] temperature_slot(
        a,
        key,
        index,
        default,
    ) == temperature_slot(b, key, index, default) by {
        lemma_alike_slots(a, b, key, index);
        if slot(a, key, index) is Some {
            lemma_alike_variants(slot(a, key, index)->0, slot(b, key, index)->0);
        }
    }
    assert forall|key: Seq<char>, index: int, default: Frequency| 0 <= index implies #[trigger] frequency_slot(
        a,
        key,
        index,
        default,
    ) == frequency_slot(b, key, index, default) by {
        lemma_alike_slots(a, b, key, index);
        if slot(a, key, index) is Some {
            lemma_alike_variants(slot(a, key, index)->0, slot(b, key, index)->0);
        }
    }
    assert forall|key: Seq<char>, index: int, default: Memory| 0 <= index implies #[trigger] memory_slot(
        a,
        key,
        index,
        default,
    ) == memory_slot(b, key, index, default) by {
        lemma_alike_slots(a, b, key, index);
        if slot(a, key, index) is Some {
            lemma_alike_variants(slot(a, key, index)->0, slot(b, key, index)->0);
        }
    }
    assert forall|key: Seq<char>, index: int, default: TargetChoice| 0 <= index implies #[trigger] target_slot(
        a,
        key,
        index,
        default,
    ) == target_slot(b, key, index, default) by {
        lemma_alike_slots(a, b, key, index);
        if slot(a, key, index) is Some {
            lemma_alike_variants(slot(a, key, index)->0, slot(b, key, index)->0);
        }
    }
    assert forall|key: Seq<char>, index: int, default: Option<Rgb>| 0 <= index implies #[trigger] color_slot(
        a,
        key,
        index,
        default,
    ) == color_slot(b, key, index, default) by {
        lemma_alike_slots(a, b, key, index);
        if slot(a, key, index) is Some {
            lemma_alike_values(slot(a, key, index)->0, slot(b, key, index)->0);
        }
    }
    assert forall|key: Seq<char>, index: int, default: Seq<char>| 0 <= index implies #[trigger] text_slot(
        a,
        key,
        index,
        default,
    ) == text_slot(b, key, index, default) by {
        lemma_alike_slots(a, b, key, index);
        if slot(a, key, index) is Some {
            lemma_alike_values(slot(a, key, index)->0, slot(b, key, index)->0);
        }
    }
    assert forall|key: Seq<char>, index: int, default: Option<Seq<char>>| 0 <= index implies #[trigger] opt_text_slot(
        a,
        key,
        index,
        default,
    ) == opt_text_slot(b, key, index, default) by {
        lemma_alike_slots(a, b, key, index);
        if slot(a, key, index) is Some {
            lemma_alike_values(slot(a, key, index)->0, slot(b, key, index)->0);
        }
    }
    assert forall|key: Seq<char>, index: int, default: Seq<BlockKind>| 0 <= index implies #[trigger] order_slot(
        a,
        key,
        index,
        default,
    ) == order_slot(b, key, index, default) by {
        lemma_alike_slots(a, b, key, index);
        if slot(a, key, index) is Some {
            lemma_alike_lists(slot(a, key, index)->0, slot(b, key, index)->0);
        }
    }
    assert forall|key: Seq<char>, index: int, default: Seq<Seq<char>>| 0 <= index implies #[trigger] names_slot(
        a,
        key,
        index,
        default,
    ) == names_slot(b, key, index, default) by {
        lemma_alike_slots(a, b, key, index);
        if slot(a, key, index) is Some {
            lemma_alike_lists(slot(a, key, index)->0, slot(b, key, index)->0);
        }
    }
}

proof fn lemma_alike_anchor(a: Doc, b: Doc)
    requires
        alike(a, b),
    ensures
        read_anchor(a) == read_anchor(b),
{
    lemma_alike_leaves(a, b);
}

proof fn lemma_alike_overlay(a: Doc, b: Doc)
    requires
        alike(a, b),
    ensures
        read_overlay(a) == read_overlay(b),
{
    lemma_alike_leaves(a, b);
    lemma_alike_slots(a, b, "anchor"@, 11);
    if slot(a, "anchor"@, 11) is Some {
        lemma_alike_anchor(slot(a, "anchor"@, 11)->0, slot(b, "anchor"@, 11)->0);
    }
}

proof fn lemma_alike_colors(a: Doc, b: Doc)
    requires
        alike(a, b),
    ensures
        read_colors(a) == read_colors(b),
{
    lemma_alike_leaves(a, b);
}

proof fn lemma_alike_thresholds(a: Doc, b: Doc)
    requires
        alike(a, b),
    ensures
        read_thresholds(a) == read_thresholds(b),
{
    lemma_alike_leaves(a, b);
}

proof fn lemma_alike_block(a: Doc, b: Doc)
    requires
        alike(a, b),
    ensures
        read_block(a) == read_block(b),
{
    lemma_alike_leaves(a, b);
    lemma_alike_slots(a, b, "colors"@, 3);
    if slot(a, "colors"@, 3) is Some {
        lemma_alike_colors(slot(a, "colors"@, 3)->0, slot(b, "colors"@, 3)->0);
    }
    lemma_alike_slots(a, b, "thresholds"@, 4);
    if slot(a, "thresholds"@, 4) is Some {
        lemma_alike_thresholds(slot(a, "thresholds"@, 4)->0, slot(b, "thresholds"@, 4)->0);
    }
}

proof fn lemma_alike_blocks(a: Doc, b: Doc)
    requires
        alike(a, b),
    ensures
        read_blocks(a) == read_blocks(b),
{
    lemma_alike_leaves(a, b);
    lemma_alike_slots(a, b, "gpu"@, 0);
    if slot(a, "gpu"@, 0) is Some {
        lemma_alike_block(slot(a, "gpu"@, 0)->0, slot(b, "gpu"@, 0)->0);
    }
    lemma_alike_slots(a, b, "cpu"@, 1);
    if slot(a, "cpu"@, 1) is Some {
        lemma_alike_block(slot(a, "cpu"@, 1)->0, slot(b, "cpu"@, 1)->0);
    }
    lemma_alike_slots(a, b, "ram"@, 2);
    if slot(a, "ram"@, 2) is Some {
        lemma_alike_block(slot(a, "ram"@, 2)->0, slot(b, "ram"@, 2)->0);
    }
    lemma_alike_slots(a, b, "fps"@, 3);
    if slot(a, "fps"@, 3) is Some {
        lemma_alike_block(slot(a, "fps"@, 3)->0, slot(b, "fps"@, 3)->0);
    }
}

proof fn lemma_alike_metrics(a: Doc, b: Doc)
    requires
        alike(a, b),
    ensures
        read_metrics(a) == read_metrics(b),
{
    lemma_alike_leaves(a, b);
}

proof fn lemma_alike_units(a: Doc, b: Doc)
    requires
        alike(a, b),
    ensures
        read_units(a) == read_units(b),
{
    lemma_alike_leaves(a, b);
}

proof fn lemma_alike_sensors(a: Doc, b: Doc)
    requires
        alike(a, b),
    ensures
        read_sensors(a) == read_sensors(b),
{
    lemma_alike_leaves(a, b);
}

proof fn lemma_alike_fps(a: Doc, b: Doc)
    requires
        alike(a, b),
    ensures
        read_fps(a) == read_fps(b),
{
    lemma_alike_leaves(a, b);
}

proof fn lemma_alike_hotkeys(a: Doc, b: Doc)
    requires
        alike(a, b),
    ensures
        read_hotkeys(a) == read_hotkeys(b),
{
    lemma_alike_leaves(a, b);
}

proof fn lemma_alike_game(a: Doc, b: Doc)
    requires
        alike(a, b),
    ensures
        read_game(a) == read_game(b),
{
    lemma_alike_leaves(a, b);
}

proof fn lemma_alike_all_games(a: Seq<Doc>, b: Seq<Doc>)
    requires
        a.len() == b.len(),
        forall|i: int| 0 <= i < a.len() ==> alike(#[trigger] a[i], b[i]),
    ensures
        games_in(a) == games_in(b),
    decreases a.len(),
{
    if a.len() > 0 {
        assert(alike(a[a.len() - 1], b[b.len() - 1]));
        lemma_alike_game(a.last(), b.last());
        assert forall|i: int| 0 <= i < a.drop_last().len() implies alike(
            #[trigger] a.drop_last()[i],
            b.drop_last()[i],
        ) by {
            assert(alike(a[i], b[i]));
        }
        lemma_alike_all_games(a.drop_last(), b.drop_last());
    }
}

proof fn lemma_alike_games(a: Doc, b: Doc)
    requires
        alike(a, b),
    ensures
        read_games(a) == read_games(b),
{
    reveal(alike);
    match (a, b) {
        (Doc::List(x), Doc::List(y)) => {
            lemma_alike_all_games(x, y);
        },
        _ => {},
    }
}

/// Documents that say the same hold the same settings.
pub proof fn law_alike_documents_hold_the_same(a: Doc, b: Doc)
    requires
        alike(a, b),
    ensures
        read_settings(a) == read_settings(b),
{
    reveal(read_settings);
    lemma_alike_leaves(a, b);
    lemma_alike_slots(a, b, "overlay"@, 1);
    if slot(a, "overlay"@, 1) is Some {
        lemma_alike_overlay(slot(a, "overlay"@, 1)->0, slot(b, "overlay"@, 1)->0);
    }
    lemma_alike_slots(a, b, "blocks"@, 2);
    if slot(a, "blocks"@, 2) is Some {
        lemma_alike_blocks(slot(a, "blocks"@, 2)->0, slot(b, "blocks"@, 2)->0);
    }
    lemma_alike_slots(a, b, "metrics"@, 3);
    if slot(a, "metrics"@, 3) is Some {
        lemma_alike_metrics(slot(a, "metrics"@, 3)->0, slot(b, "metrics"@, 3)->0);
    }
    lemma_alike_slots(a, b, "units"@, 4);
    if slot(a, "units"@, 4) is Some {
        lemma_alike_units(slot(a, "units"@, 4)->0, slot(b, "units"@, 4)->0);
    }
    lemma_alike_slots(a, b, "sensors"@, 5);
    if slot(a, "sensors"@, 5) is Some {
        lemma_alike_sensors(slot(a, "sensors"@, 5)->0, slot(b, "sensors"@, 5)->0);
    }
    lemma_alike_slots(a, b, "fps"@, 6);
    if slot(a, "fps"@, 6) is Some {
        lemma_alike_fps(slot(a, "fps"@, 6)->0, slot(b, "fps"@, 6)->0);
    }
    lemma_alike_slots(a, b, "hotkeys"@, 7);
    if slot(a, "hotkeys"@, 7) is Some {
        lemma_alike_hotkeys(slot(a, "hotkeys"@, 7)->0, slot(b, "hotkeys"@, 7)->0);
    }
    lemma_alike_slots(a, b, "games"@, 9);
    if slot(a, "games"@, 9) is Some {
        lemma_alike_games(slot(a, "games"@, 9)->0, slot(b, "games"@, 9)->0);
    }
}

/// A text of which the document says what saved settings say, loads as these settings, repaired,
/// with a word only about a newer format.
pub proof fn law_saved_text_loads(text: Seq<char>, v: SettingsView)
    requires
        writable(v),
        v.version >= CURRENT_VERSION,
        json_of(text) is Some,
        alike(write_settings(v), json_of(text)->0),
    ensures
        settings_in(json_of(text)->0) == Some((v.repaired(), newer_notice(v.version))),
{
    let doc = json_of(text)->0;
    lemma_saved_version(v);
    law_settings_read_back(v);
    law_alike_documents_hold_the_same(write_settings(v), doc);
    assert(doc is Object) by {
        reveal(alike);
    }
    let entries = doc->Object_0;
    lemma_alike_fields(write_settings(v)->Object_0, entries, "version"@);
    assert(field(entries, "version"@) == Some(Doc::Unsigned(v.version as u64))) by {
        reveal(alike);
    }
    assert(version_of(entries) == v.version);
}

/// Settings in order survive in such a text, and nothing is said about them.
pub proof fn law_settings_survive_in_text(text: Seq<char>, v: SettingsView)
    requires
        writable(v),
        v.version == CURRENT_VERSION,
        v.repaired() == v,
        json_of(text) is Some,
        alike(write_settings(v), json_of(text)->0),
    ensures
        settings_in(json_of(text)->0) == Some((v, None::<Seq<char>>)),
{
    law_saved_text_loads(text, v);
}

} // verus!
