//! Whether two settings say the same. Numbers are held together as numbers: zero has two forms,
//! and what is no number is like nothing.

use vstd::prelude::*;

use crate::blocks::Block;
use crate::blocks::BlockColors;
use crate::blocks::BlockKind;
use crate::blocks::BlockView;
use crate::blocks::Blocks;
use crate::blocks::BlocksView;
use crate::blocks::Rgb;
use crate::blocks::Thresholds;
use crate::number::Single;
use crate::paths::text_of;
use crate::settings::game_views;
use crate::settings::GameProfile;
use crate::settings::OverlaySettings;
use crate::settings::Settings;
use crate::settings::SettingsView;
use crate::text::same_text;

verus! {

/// Two numbers are equal.
pub open spec fn equal(a: Single, b: Single) -> bool {
    &&& a.magnitude() <= 0x7f80_0000
    &&& b.magnitude() <= 0x7f80_0000
    &&& a == b || (a.magnitude() == 0 && b.magnitude() == 0)
}

pub fn equals(a: Single, b: Single) -> (r: bool)
    ensures
        r == equal(a, b),
{
    let x: u32 = if a.bits >= 0x8000_0000 {
        a.bits - 0x8000_0000
    } else {
        a.bits
    };
    let y: u32 = if b.bits >= 0x8000_0000 {
        b.bits - 0x8000_0000
    } else {
        b.bits
    };
    x <= 0x7f80_0000 && y <= 0x7f80_0000 && (a.bits == b.bits || (x == 0 && y == 0))
}

/// Two settings of the overlay say the same.
pub open spec fn alike_overlay(a: OverlaySettings, b: OverlaySettings) -> bool {
    &&& equal(a.opacity, b.opacity)
    &&& equal(a.scale, b.scale)
    &&& equal(a.width_scale, b.width_scale)
    &&& equal(a.strip_height, b.strip_height)
    &&& b == OverlaySettings {
        opacity: b.opacity,
        scale: b.scale,
        width_scale: b.width_scale,
        strip_height: b.strip_height,
        ..a
    }
}

fn same_overlay(a: &OverlaySettings, b: &OverlaySettings) -> (r: bool)
    ensures
        r == alike_overlay(*a, *b),
{
    let brought = OverlaySettings {
        opacity: b.opacity,
        scale: b.scale,
        width_scale: b.width_scale,
        strip_height: b.strip_height,
        ..*a
    };
    equals(a.opacity, b.opacity) && equals(a.scale, b.scale) && equals(
        a.width_scale,
        b.width_scale,
    ) && equals(a.strip_height, b.strip_height) && *b == brought
}

/// Two blocks say the same.
pub open spec fn alike_block(a: BlockView, b: BlockView) -> bool {
    &&& equal(a.thresholds.warn_c, b.thresholds.warn_c)
    &&& equal(a.thresholds.critical_c, b.thresholds.critical_c)
    &&& b == BlockView {
        thresholds: Thresholds {
            warn_c: b.thresholds.warn_c,
            critical_c: b.thresholds.critical_c,
            ..a.thresholds
        },
        ..a
    }
}

fn same_color(a: Option<Rgb>, b: Option<Rgb>) -> (r: bool)
    ensures
        r == (a == b),
{
    match (a, b) {
        (Some(x), Some(y)) => {
            proof {
                if x.0@[0] == y.0@[0] && x.0@[1] == y.0@[1] && x.0@[2] == y.0@[2] {
                    assert(x.0@ =~= y.0@);
                    assert(x.0 =~= y.0);
                }
            }
            x.0[0] == y.0[0] && x.0[1] == y.0[1] && x.0[2] == y.0[2]
        },
        (None, None) => true,
        _ => false,
    }
}

fn same_colors(a: &BlockColors, b: &BlockColors) -> (r: bool)
    ensures
        r == (*a == *b),
{
    same_color(a.header, b.header) && same_color(a.labels, b.labels) && same_color(
        a.values,
        b.values,
    ) && same_color(a.accent, b.accent)
}

fn same_block(a: &Block, b: &Block) -> (r: bool)
    ensures
        r == alike_block(a@, b@),
{
    a.enabled == b.enabled && same_text(a.title.as_str(), b.title.as_str()) && a.device_name
        == b.device_name && same_colors(&a.colors, &b.colors) && equals(
        a.thresholds.warn_c,
        b.thresholds.warn_c,
    ) && equals(a.thresholds.critical_c, b.thresholds.critical_c) && a.thresholds.color_load
        == b.thresholds.color_load
}

/// Two settings of the blocks say the same.
pub open spec fn alike_blocks(a: BlocksView, b: BlocksView) -> bool {
    &&& alike_block(a.gpu, b.gpu)
    &&& alike_block(a.cpu, b.cpu)
    &&& alike_block(a.ram, b.ram)
    &&& alike_block(a.fps, b.fps)
    &&& a.order == b.order
}

fn same_order(a: &Vec<BlockKind>, b: &Vec<BlockKind>) -> (r: bool)
    ensures
        r == (a@ == b@),
{
    if a.len() != b.len() {
        return false;
    }
    let mut i: usize = 0;
    while i < a.len()
        invariant
            i <= a.len(),
            a.len() == b.len(),
            forall|j: int| 0 <= j < i ==> a@[j] == b@[j],
        decreases a.len() - i,
    {
        if a[i] != b[i] {
            return false;
        }
        i += 1;
    }
    proof {
        assert(a@ =~= b@);
    }
    true
}

fn same_blocks(a: &Blocks, b: &Blocks) -> (r: bool)
    ensures
        r == alike_blocks(a@, b@),
{
    same_block(&a.gpu, &b.gpu) && same_block(&a.cpu, &b.cpu) && same_block(&a.ram, &b.ram)
        && same_block(&a.fps, &b.fps) && same_order(&a.order, &b.order)
}

pub(crate) fn same_option(a: &Option<String>, b: &Option<String>) -> (r: bool)
    ensures
        r == (text_of(*a) == text_of(*b)),
{
    match (a, b) {
        (Some(x), Some(y)) => same_text(x.as_str(), y.as_str()),
        (None, None) => true,
        _ => false,
    }
}

fn same_games(a: &Vec<GameProfile>, b: &Vec<GameProfile>) -> (r: bool)
    ensures
        r == (game_views(a@) == game_views(b@)),
{
    if a.len() != b.len() {
        proof {
            assert(game_views(a@).len() != game_views(b@).len());
        }
        return false;
    }
    let mut i: usize = 0;
    while i < a.len()
        invariant
            i <= a.len(),
            a.len() == b.len(),
            forall|j: int| 0 <= j < i ==> (#[trigger] a@[j])@ == b@[j]@,
        decreases a.len() - i,
    {
        let x = &a[i];
        let y = &b[i];
        let same = same_text(x.name.as_str(), y.name.as_str()) && same_text(
            x.path.as_str(),
            y.path.as_str(),
        ) && same_text(x.arguments.as_str(), y.arguments.as_str()) && x.borderless
            == y.borderless && same_option(&x.window_exe, &y.window_exe);
        if !same {
            proof {
                assert(game_views(a@)[i as int] != game_views(b@)[i as int]);
            }
            return false;
        }
        i += 1;
    }
    proof {
        assert(game_views(a@) =~= game_views(b@));
    }
    true
}

/// Two settings say the same.
pub open spec fn alike(a: SettingsView, b: SettingsView) -> bool {
    &&& a.version == b.version
    &&& alike_overlay(a.overlay, b.overlay)
    &&& alike_blocks(a.blocks, b.blocks)
    &&& a.metrics == b.metrics
    &&& a.units == b.units
    &&& a.sensors == b.sensors
    &&& a.fps == b.fps
    &&& a.hotkeys == b.hotkeys
    &&& a.setup_done == b.setup_done
    &&& a.games == b.games
}

pub fn same_settings(a: &Settings, b: &Settings) -> (r: bool)
    ensures
        r == alike(a@, b@),
{
    let metrics = a.metrics.disabled.same(&b.metrics.disabled) && a.metrics.enabled.same(
        &b.metrics.enabled,
    ) && a.metrics.hide_unavailable == b.metrics.hide_unavailable;
    let fps = a.fps.target == b.fps.target && same_option(
        &a.fps.manual_process,
        &b.fps.manual_process,
    ) && a.fps.manual_pid == b.fps.manual_pid && same_option(
        &a.fps.presentmon_path,
        &b.fps.presentmon_path,
    );
    let hotkeys = same_text(
        a.hotkeys.toggle_visibility.as_str(),
        b.hotkeys.toggle_visibility.as_str(),
    ) && same_text(a.hotkeys.toggle_lock.as_str(), b.hotkeys.toggle_lock.as_str());
    a.version == b.version && same_overlay(&a.overlay, &b.overlay) && same_blocks(
        &a.blocks,
        &b.blocks,
    ) && metrics && a.units == b.units && a.sensors == b.sensors && fps && hotkeys
        && a.setup_done == b.setup_done && same_games(&a.games, &b.games)
}

/// Settings whose numbers are numbers are like themselves, so settings that nobody touches are
/// not written again.
pub proof fn law_settings_are_like_themselves(v: SettingsView)
    requires
        crate::saved::writable(v),
    ensures
        alike(v, v),
{
}

/// Whichever of two settings is held against the other, the answer is the same.
pub proof fn law_likeness_is_mutual(a: SettingsView, b: SettingsView)
    ensures
        alike(a, b) == alike(b, a),
{
}

/// Settings that are alike agree in everything that the user can set, numbers being compared as
/// numbers: a change of any one of them makes a difference.
pub proof fn law_every_setting_makes_a_difference(a: SettingsView, b: SettingsView)
    requires
        alike(a, b),
    ensures
        a.version == b.version,
        a.overlay.x == b.overlay.x,
        a.overlay.y == b.overlay.y,
        equal(a.overlay.opacity, b.overlay.opacity),
        equal(a.overlay.scale, b.overlay.scale),
        a.overlay.locked == b.overlay.locked,
        a.overlay.visible == b.overlay.visible,
        a.overlay.always_on_top == b.overlay.always_on_top,
        a.overlay.show_graph == b.overlay.show_graph,
        a.overlay.show_header == b.overlay.show_header,
        a.overlay.fullscreen == b.overlay.fullscreen,
        equal(a.overlay.width_scale, b.overlay.width_scale),
        a.overlay.anchor == b.overlay.anchor,
        a.overlay.mode == b.overlay.mode,
        equal(a.overlay.strip_height, b.overlay.strip_height),
        a.overlay.show_clock == b.overlay.show_clock,
        a.overlay.game_only == b.overlay.game_only,
        forall|kind: BlockKind|
            #![trigger a.blocks.of(kind)]
            {
                let x = a.blocks.of(kind);
                let y = b.blocks.of(kind);
                &&& x.enabled == y.enabled
                &&& x.title == y.title
                &&& x.device_name == y.device_name
                &&& x.colors == y.colors
                &&& x.thresholds.color_load == y.thresholds.color_load
                &&& equal(x.thresholds.warn_c, y.thresholds.warn_c)
                &&& equal(x.thresholds.critical_c, y.thresholds.critical_c)
            },
        a.blocks.order == b.blocks.order,
        a.metrics == b.metrics,
        a.units == b.units,
        a.sensors == b.sensors,
        a.fps == b.fps,
        a.hotkeys == b.hotkeys,
        a.setup_done == b.setup_done,
        a.games == b.games,
        forall|x: Single, y: Single|
            equal(x, y) && x.bits != y.bits ==> #[trigger] x.magnitude() == 0 && #[trigger] y.magnitude() == 0,
{
}

} // verus!
