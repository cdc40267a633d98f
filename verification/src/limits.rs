//! Settings within their limits: what repair leaves as it is, and what comes back from the file.

use vstd::prelude::*;

use crate::blocks::BlockKind;
use crate::blocks::BlockView;
use crate::games::clean;
use crate::number::whole_single;
use crate::saved::write_settings;
use crate::settings::in_twentieths;
use crate::settings::low_names;
use crate::settings::mended_height;
use crate::settings::mended_opacity;
use crate::settings::mended_scale;
use crate::settings::mended_width;
use crate::settings::repaired_games;
use crate::settings::GameView;
use crate::settings::OverlaySettings;
use crate::settings::SettingsView;
use crate::settings_file::settings_in;
use crate::text::is_white_space;
use crate::text::lowercase;

verus! {

/// A text without white space around it.
pub open spec fn bare_text(text: Seq<char>) -> bool {
    text.len() > 0 ==> !is_white_space(text[0]) && !is_white_space(text.last())
}

/// No text, or one that says something without white space around it.
pub open spec fn bare_or_none(text: Option<Seq<char>>) -> bool {
    text is Some ==> text->0.len() > 0 && bare_text(text->0)
}

/// An opacity from 0.3 to one, a scale from a half to two and a width from 0.8 to 1.5 in steps of
/// a twentieth, a height of 20 to 48 whole points, and offsets of up to 500 pixels.
pub open spec fn overlay_within(v: OverlaySettings) -> bool {
    &&& 0x3e99_999a <= v.opacity.bits <= 0x3f80_0000
    &&& exists|n: nat| 10 <= n <= 40 && v.scale == #[trigger] in_twentieths(n)
    &&& exists|n: nat| 16 <= n <= 30 && v.width_scale == #[trigger] in_twentieths(n)
    &&& exists|n: nat| 20 <= n <= 48 && v.strip_height == #[trigger] whole_single(n)
    &&& 0 <= v.anchor.offset_x <= 500
    &&& 0 <= v.anchor.offset_y <= 500
}

/// A title of up to 32 characters without white space around it, and thresholds of 40 to 110 whole
/// degrees, the critical one not below the warning.
pub open spec fn block_within(v: BlockView) -> bool {
    &&& v.title.len() <= 32
    &&& bare_text(v.title)
    &&& exists|warn: nat, critical: nat|
        40 <= warn <= critical <= 110 && v.thresholds.warn_c == #[trigger] whole_single(warn)
            && v.thresholds.critical_c == #[trigger] whole_single(critical)
}

/// Games with a file, with clean names that differ in more than their case.
pub open spec fn games_within(games: Seq<GameView>) -> bool {
    &&& forall|i: int|
        0 <= i < games.len() ==> clean((#[trigger] games[i]).name) && games[i].path.len() > 0
            && bare_text(games[i].path) && bare_or_none(games[i].window_exe)
    &&& forall|i: int, j: int|
        0 <= i < j < games.len() ==> lowercase((#[trigger] games[i]).name) != lowercase(
            (#[trigger] games[j]).name,
        )
}

/// Settings of the current version with everything within its limits.
pub open spec fn within_limits(v: SettingsView) -> bool {
    &&& v.version == 3
    &&& overlay_within(v.overlay)
    &&& block_within(v.blocks.gpu)
    &&& block_within(v.blocks.cpu)
    &&& block_within(v.blocks.ram)
    &&& block_within(v.blocks.fps)
    &&& v.blocks.order.no_duplicates()
    &&& forall|kind: BlockKind| v.blocks.order.contains(kind)
    &&& v.metrics.valid()
    &&& v.sensors.hardware_interval_ms >= 1000
    &&& bare_or_none(v.fps.manual_process)
    &&& v.fps.manual_pid != Some(0u32)
    &&& bare_or_none(v.fps.presentmon_path)
    &&& exists|i: int|
        0 <= i < v.hotkeys.toggle_visibility.len() && !is_white_space(
            #[trigger] v.hotkeys.toggle_visibility[i],
        )
    &&& exists|i: int|
        0 <= i < v.hotkeys.toggle_lock.len() && !is_white_space(
            #[trigger] v.hotkeys.toggle_lock[i],
        )
    &&& games_within(v.games)
}

/// Repair leaves alone where the overlay stands, how it is pinned and everything that is only
/// switched.
pub proof fn law_overlay_repair_keeps_the_rest(v: OverlaySettings)
    ensures
        v.repaired().x == v.x,
        v.repaired().y == v.y,
        v.repaired().locked == v.locked,
        v.repaired().visible == v.visible,
        v.repaired().always_on_top == v.always_on_top,
        v.repaired().show_graph == v.show_graph,
        v.repaired().show_header == v.show_header,
        v.repaired().fullscreen == v.fullscreen,
        v.repaired().mode == v.mode,
        v.repaired().show_clock == v.show_clock,
        v.repaired().game_only == v.game_only,
        v.repaired().anchor.enabled == v.anchor.enabled,
        v.repaired().anchor.monitor == v.anchor.monitor,
        v.repaired().anchor.corner == v.anchor.corner,
{
}

/// Every number of a repaired overlay is within its limits, and what was too small or too large
/// becomes the limit it went beyond.
pub proof fn law_overlay_repair_ends_within_the_limits(v: OverlaySettings)
    ensures
        overlay_within(v.repaired()),
        v.opacity.finite() && !v.opacity.negative() && v.opacity.bits > 0x3f80_0000
            ==> v.repaired().opacity.bits == 0x3f80_0000,
        v.opacity.finite() && (v.opacity.negative() || v.opacity.bits < 0x3e99_999a)
            ==> v.repaired().opacity.bits == 0x3e99_999a,
        v.strip_height.finite() && v.strip_height.rounded() < 20 ==> v.repaired().strip_height
            == whole_single(20),
        v.strip_height.finite() && v.strip_height.rounded() > 48 ==> v.repaired().strip_height
            == whole_single(48),
        v.strip_height.finite() && 20 <= v.strip_height.rounded() <= 48
            ==> v.repaired().strip_height == whole_single(v.strip_height.rounded() as nat),
{
    reveal(mended_opacity);
    reveal(mended_scale);
    reveal(mended_width);
    reveal(mended_height);
    let one = crate::number::Single { bits: crate::settings::ONE };
    crate::grid::law_scale_settles(one);
    crate::grid::law_width_settles(one);
    assert(one == in_twentieths(20));
    if v.scale.finite() {
        crate::grid::law_scale_settles(v.scale);
    }
    if v.width_scale.finite() {
        crate::grid::law_width_settles(v.width_scale);
    }
    vstd::arithmetic::power2::lemma2_to64();
    crate::number::lemma_whole_bits(28, 4);
    let n: nat = if v.strip_height.finite() {
        crate::number::limited(v.strip_height.rounded(), 20, 48) as nat
    } else {
        28
    };
    assert(v.repaired().strip_height == whole_single(n));
}

proof fn lemma_overlay_stays(v: OverlaySettings)
    requires
        overlay_within(v),
    ensures
        v.repaired() == v,
        v.opacity.finite(),
        v.scale.finite(),
        v.width_scale.finite(),
        v.strip_height.finite(),
{
    reveal(mended_opacity);
    reveal(mended_scale);
    reveal(mended_width);
    reveal(mended_height);
    let scale = choose|n: nat| 10 <= n <= 40 && v.scale == #[trigger] in_twentieths(n);
    let width = choose|n: nat| 16 <= n <= 30 && v.width_scale == #[trigger] in_twentieths(n);
    let height = choose|n: nat| 20 <= n <= 48 && v.strip_height == #[trigger] whole_single(n);
    crate::grid::law_grid_points_stay(scale);
    crate::grid::law_grid_points_stay(width);
    crate::number::lemma_whole_single(height);
}

proof fn lemma_block_stays(v: BlockView)
    requires
        block_within(v),
    ensures
        v.repaired() == v,
        crate::saved::numbers_finite(v),
{
    let (warn, critical) = choose|warn: nat, critical: nat|
        40 <= warn <= critical <= 110 && v.thresholds.warn_c == #[trigger] whole_single(warn)
            && v.thresholds.critical_c == #[trigger] whole_single(critical);
    crate::blocks::law_sound_thresholds_stay(v.thresholds, warn, critical);
    crate::text::lemma_trimmed_fixed(v.title);
}

proof fn lemma_games_stay(games: Seq<GameView>)
    requires
        games_within(games),
    ensures
        repaired_games(games) == games,
    decreases games.len(),
{
    if games.len() > 0 {
        let front = games.drop_last();
        let game = games.last();
        assert forall|i: int| 0 <= i < front.len() implies clean((#[trigger] front[i]).name)
            && front[i].path.len() > 0 && bare_text(front[i].path) && bare_or_none(
            front[i].window_exe,
        ) by {
            assert(front[i] == games[i]);
        }
        assert forall|i: int, j: int| 0 <= i < j < front.len() implies lowercase(
            (#[trigger] front[i]).name,
        ) != lowercase((#[trigger] front[j]).name) by {
            assert(front[i] == games[i] && front[j] == games[j]);
        }
        lemma_games_stay(front);
        assert(games[games.len() - 1] == game);
        crate::text::lemma_trimmed_fixed(game.path);
        crate::games::lemma_clean_stays(game.name);
        if game.window_exe is Some {
            crate::text::lemma_trimmed_fixed(game.window_exe->0);
        }
        let taken = low_names(front);
        assert(!taken.contains(lowercase(game.name))) by {
            if taken.contains(lowercase(game.name)) {
                let i = choose|i: int| 0 <= i < taken.len() && taken[i] == lowercase(game.name);
                assert(taken[i] == lowercase(front[i].name));
                assert(games[i] == front[i]);
                assert(lowercase(games[i].name) != lowercase(games[games.len() - 1].name));
            }
        }
        assert(crate::games::candidate(game.name, 1) == game.name);
        assert(crate::settings::free_number(game.name, taken, 1) == 1);
        assert(game.repaired(front) == game);
        assert(front.push(game) =~= games);
    } else {
        assert(games =~= seq![]);
    }
}

/// Settings within their limits need no repair.
pub proof fn law_sound_settings_stay(v: SettingsView)
    requires
        within_limits(v),
    ensures
        v.repaired() == v,
        crate::saved::writable(v),
{
    lemma_overlay_stays(v.overlay);
    lemma_block_stays(v.blocks.gpu);
    lemma_block_stays(v.blocks.cpu);
    lemma_block_stays(v.blocks.ram);
    lemma_block_stays(v.blocks.fps);
    crate::blocks::law_whole_order_stays(v.blocks.order);
    if v.fps.manual_process is Some {
        crate::text::lemma_trimmed_fixed(v.fps.manual_process->0);
    }
    if v.fps.presentmon_path is Some {
        crate::text::lemma_trimmed_fixed(v.fps.presentmon_path->0);
    }
    let i = choose|i: int|
        0 <= i < v.hotkeys.toggle_visibility.len() && !is_white_space(
            #[trigger] v.hotkeys.toggle_visibility[i],
        );
    crate::text::lemma_not_blank(v.hotkeys.toggle_visibility, i);
    let j = choose|i: int|
        0 <= i < v.hotkeys.toggle_lock.len() && !is_white_space(
            #[trigger] v.hotkeys.toggle_lock[i],
        );
    crate::text::lemma_not_blank(v.hotkeys.toggle_lock, j);
    lemma_games_stay(v.games);
    assert(v.repaired() =~= v);
}

/// Settings within their limits come back from the file as they were saved, and nothing is said
/// about them.
pub proof fn law_sound_settings_come_back(v: SettingsView)
    requires
        within_limits(v),
    ensures
        settings_in(write_settings(v)) == Some((v, None::<Seq<char>>)),
{
    law_sound_settings_stay(v);
    crate::settings_file::law_settings_survive(v);
}

/// Repair leaves alone which rows are on, the units, and whether the setup is done; a version is
/// never lowered; a target by hand stays what it is.
pub proof fn law_repair_keeps_the_rest(v: SettingsView)
    ensures
        v.repaired().metrics == v.metrics,
        v.repaired().units == v.units,
        v.repaired().setup_done == v.setup_done,
        v.repaired().fps.target == v.fps.target,
        v.repaired().version >= v.version,
        v.version >= 3 ==> v.repaired().version == v.version,
        v.version < 3 ==> v.repaired().version == 3,
        v.sensors.hardware_interval_ms >= 1000 ==> v.repaired().sensors == v.sensors,
        v.sensors.hardware_interval_ms < 1000 ==> v.repaired().sensors.hardware_interval_ms
            == 1000,
        v.fps.manual_pid == Some(0u32) ==> v.repaired().fps.manual_pid is None,
        v.fps.manual_pid != Some(0u32) ==> v.repaired().fps.manual_pid == v.fps.manual_pid,
{
}

/// The games that repair keeps are those with a file, in their order, each with its file, its
/// arguments and its window as they were but for white space around them.
pub proof fn law_repair_keeps_the_games(games: Seq<GameView>)
    ensures
        repaired_games(games).len() <= games.len(),
        (forall|i: int|
            0 <= i < games.len() ==> !crate::text::blank((#[trigger] games[i]).path))
            ==> repaired_games(games).len() == games.len() && forall|i: int|
            0 <= i < games.len() ==> {
                let kept = #[trigger] repaired_games(games)[i];
                &&& kept.path == crate::text::trimmed(games[i].path)
                &&& kept.arguments == games[i].arguments
                &&& kept.borderless == games[i].borderless
                &&& games[i].window_exe is None ==> kept.window_exe is None
                &&& games[i].window_exe is Some && !crate::text::blank(games[i].window_exe->0)
                    ==> kept.window_exe == Some(crate::text::trimmed(games[i].window_exe->0))
            },
    decreases games.len(),
{
    if games.len() > 0 {
        let front = games.drop_last();
        law_repair_keeps_the_games(front);
        if forall|i: int|
            0 <= i < games.len() ==> !crate::text::blank((#[trigger] games[i]).path) {
            assert forall|i: int| 0 <= i < front.len() implies !crate::text::blank(
                (#[trigger] front[i]).path,
            ) by {
                assert(front[i] == games[i]);
            }
            assert(games[games.len() - 1] == games.last());
            assert forall|i: int| 0 <= i < games.len() implies ({
                let kept = #[trigger] repaired_games(games)[i];
                &&& kept.path == crate::text::trimmed(games[i].path)
                &&& kept.arguments == games[i].arguments
                &&& kept.borderless == games[i].borderless
                &&& games[i].window_exe is None ==> kept.window_exe is None
                &&& games[i].window_exe is Some && !crate::text::blank(games[i].window_exe->0)
                    ==> kept.window_exe == Some(crate::text::trimmed(games[i].window_exe->0))
            }) by {
                if i < front.len() {
                    assert(repaired_games(games)[i] == repaired_games(front)[i]);
                    assert(front[i] == games[i]);
                }
            }
        }
    }
}

} // verus!
