//! What the drawings of the overlay are made of: the bars and the clocks of the cores, and the
//! line of the frame times.

use vstd::prelude::*;

use crate::number::Double;
use crate::number::Single;
use crate::preview::classes_of;
use crate::preview::core_classes;
use crate::preview::highest_class;
use crate::preview::top_class;
use crate::snapshot::CoreStats;

verus! {

/// How many clocks stand in a row.
pub const CORE_GRID_COLUMNS: usize = 4;

// --- cores ---

/// The bar of a core.
#[derive(Debug, Clone, Copy, PartialEq, Eq)]
pub struct CoreBar {
    /// How far it is filled, in percent. Without a load there is only the track.
    pub load: Option<Double>,
    /// The core is not one of the fast ones: its bar is paler.
    pub pale: bool,
}

/// The bar of a core among others.
pub open spec fn bar_of(core: CoreStats, top: u8) -> CoreBar {
    CoreBar { load: core.load_percent, pale: core.efficiency_class < top }
}

/// The bars of the cores from left to right.
pub fn core_bars(cores: &Vec<CoreStats>) -> (r: Vec<CoreBar>)
    ensures
        r@ == cores@.map_values(|core: CoreStats| bar_of(core, top_class(classes_of(cores@)))),
{
    let classes = core_classes(cores);
    let top: u8 = highest_class(&classes);
    let mut bars: Vec<CoreBar> = Vec::new();
    let mut i: usize = 0;
    while i < cores.len()
        invariant
            i <= cores.len(),
            top == top_class(classes_of(cores@)),
            bars.len() == i,
            forall|j: int| 0 <= j < i ==> bars@[j] == bar_of(cores@[j], top),
        decreases cores.len() - i,
    {
        let core = &cores[i];
        bars.push(CoreBar { load: core.load_percent, pale: core.efficiency_class < top });
        i += 1;
    }
    proof {
        assert(bars@ =~= cores@.map_values(
            |core: CoreStats| bar_of(core, top_class(classes_of(cores@))),
        ));
    }
    bars
}

/// The clocks of the cores, so many in a row; the last row may be shorter.
pub open spec fn clock_rows(cores: Seq<CoreStats>) -> Seq<Seq<Option<Double>>>
    decreases cores.len(),
{
    let clocks = |part: Seq<CoreStats>| part.map_values(|core: CoreStats| core.clock_mhz);
    if cores.len() == 0 {
        seq![]
    } else if cores.len() <= CORE_GRID_COLUMNS {
        seq![clocks(cores)]
    } else {
        seq![clocks(cores.take(CORE_GRID_COLUMNS as int))] + clock_rows(
            cores.skip(CORE_GRID_COLUMNS as int),
        )
    }
}

pub open spec fn row_views(rows: Seq<Vec<Option<Double>>>) -> Seq<Seq<Option<Double>>> {
    rows.map_values(|row: Vec<Option<Double>>| row@)
}

pub fn core_clocks(cores: &Vec<CoreStats>) -> (r: Vec<Vec<Option<Double>>>)
    ensures
        row_views(r@) == clock_rows(cores@),
{
    let mut rows: Vec<Vec<Option<Double>>> = Vec::new();
    let mut i: usize = 0;
    proof {
        assert(cores@.skip(0) =~= cores@);
        assert(row_views(rows@) + clock_rows(cores@) =~= clock_rows(cores@));
    }
    while i < cores.len()
        invariant
            i <= cores.len(),
            row_views(rows@) + clock_rows(cores@.skip(i as int)) == clock_rows(cores@),
        decreases cores.len() - i,
    {
        let left: usize = cores.len() - i;
        let size: usize = if left < CORE_GRID_COLUMNS {
            left
        } else {
            CORE_GRID_COLUMNS
        };
        let ghost rest = cores@.skip(i as int);
        let ghost part = rest.take(size as int);
        let mut row: Vec<Option<Double>> = Vec::new();
        let mut j: usize = 0;
        while j < size
            invariant
                j <= size <= cores.len() - i,
                i <= cores.len(),
                rest == cores@.skip(i as int),
                part == rest.take(size as int),
                row.len() == j,
                forall|k: int| 0 <= k < j ==> row@[k] == part[k].clock_mhz,
            decreases size - j,
        {
            row.push(cores[i + j].clock_mhz);
            j += 1;
        }
        proof {
            let clocks = part.map_values(|core: CoreStats| core.clock_mhz);
            assert(row@ =~= clocks);
            let next = cores@.skip(i + size);
            assert(rest.skip(size as int) =~= next);
            if rest.len() <= CORE_GRID_COLUMNS {
                assert(part =~= rest);
                assert(next =~= seq![]);
                assert(clock_rows(rest) =~= seq![clocks] + clock_rows(next));
            } else {
                assert(clock_rows(rest) =~= seq![clocks] + clock_rows(next));
            }
            assert(row_views(rows@.push(row)) =~= row_views(rows@).push(row@));
            assert(row_views(rows@).push(row@) + clock_rows(next) =~= row_views(rows@) + (
            seq![clocks] + clock_rows(next)));
        }
        rows.push(row);
        i += size;
    }
    proof {
        assert(clock_rows(cores@.skip(i as int)) =~= seq![]);
        assert(row_views(rows@) + seq![] =~= row_views(rows@));
    }
    rows
}

/// Every clock is shown, and in its order.
pub proof fn law_all_clocks_are_shown(cores: Seq<CoreStats>)
    ensures
        clock_rows(cores).flatten() == cores.map_values(|core: CoreStats| core.clock_mhz),
    decreases cores.len(),
{
    let clocks = |part: Seq<CoreStats>| part.map_values(|core: CoreStats| core.clock_mhz);
    let n = CORE_GRID_COLUMNS as int;
    if cores.len() == 0 {
        assert(clock_rows(cores).flatten() =~= clocks(cores));
    } else if cores.len() <= n {
        let rows = seq![clocks(cores)];
        assert(rows.drop_first() =~= seq![]);
        reveal_with_fuel(Seq::flatten, 2);
        assert(rows.flatten() =~= clocks(cores));
    } else {
        let first = clocks(cores.take(n));
        let rest = clock_rows(cores.skip(n));
        let rows = seq![first] + rest;
        law_all_clocks_are_shown(cores.skip(n));
        assert(rows.drop_first() =~= rest);
        assert(rows.first() == first);
        assert(rows.flatten() == first + rest.flatten());
        assert(first + clocks(cores.skip(n)) =~= clocks(cores));
    }
}

// --- frame times ---

/// A column of the graph has a frame.
pub open spec fn has_frame(column: Single) -> bool {
    !column.negative() && 0 < column.magnitude() <= crate::number::SINGLE_INFINITY
}

pub fn is_frame(column: Single) -> (r: bool)
    ensures
        r == has_frame(column),
{
    column.bits < 0x8000_0000 && 0 < column.bits && column.bits <= crate::number::SINGLE_INFINITY
}

/// The line after some columns: the pieces that are done, each from its first column to behind
/// its last, and where the piece in hand began.
pub struct Lines {
    pub done: Seq<(int, int)>,
    pub open: Option<int>,
}

pub open spec fn lines_after(columns: Seq<Single>) -> Lines
    decreases columns.len(),
{
    if columns.len() == 0 {
        Lines { done: seq![], open: None }
    } else {
        let before = lines_after(columns.drop_last());
        let here = columns.len() - 1;
        if has_frame(columns.last()) {
            Lines {
                open: if before.open is Some {
                    before.open
                } else {
                    Some(here)
                },
                ..before
            }
        } else {
            match before.open {
                Some(start) => Lines { done: before.done.push((start, here)), open: None },
                None => before,
            }
        }
    }
}

/// The pieces of the line. It breaks where there were no frames: a line across a gap would be made
/// up. A single point at the end is not drawn.
pub open spec fn lines_of(columns: Seq<Single>) -> Seq<(int, int)> {
    let all = lines_after(columns);
    match all.open {
        Some(start) if columns.len() - start > 1 => all.done.push((start, columns.len() as int)),
        _ => all.done,
    }
}

pub open spec fn pairs(lines: Seq<(usize, usize)>) -> Seq<(int, int)> {
    lines.map_values(|line: (usize, usize)| (line.0 as int, line.1 as int))
}

pub fn line_runs(columns: &Vec<Single>) -> (r: Vec<(usize, usize)>)
    ensures
        pairs(r@) == lines_of(columns@),
{
    let mut runs: Vec<(usize, usize)> = Vec::new();
    let mut open: Option<usize> = None;
    let mut i: usize = 0;
    proof {
        assert(columns@.take(0) =~= seq![]);
        assert(pairs(runs@) =~= seq![]);
    }
    while i < columns.len()
        invariant
            i <= columns.len(),
            ({
                let lines = lines_after(columns@.take(i as int));
                &&& pairs(runs@) == lines.done
                &&& open is Some == lines.open is Some
                &&& open is Some ==> open->0 == lines.open->0 && open->0 <= i
            }),
        decreases columns.len() - i,
    {
        proof {
            assert(columns@.take(i + 1).drop_last() =~= columns@.take(i as int));
        }
        let ghost before = runs@;
        if is_frame(columns[i]) {
            if open.is_none() {
                open = Some(i);
            }
        } else if let Some(start) = open {
            runs.push((start, i));
            open = None;
            proof {
                assert(pairs(runs@) =~= pairs(before).push((start as int, i as int)));
            }
        }
        i += 1;
    }
    proof {
        assert(columns@.take(i as int) =~= columns@);
    }
    if let Some(start) = open {
        if i - start > 1 {
            let ghost before = runs@;
            runs.push((start, i));
            proof {
                assert(pairs(runs@) =~= pairs(before).push((start as int, i as int)));
            }
        }
    }
    runs
}

proof fn lemma_lines(columns: Seq<Single>)
    ensures
        ({
            let lines = lines_after(columns);
            &&& lines.open is Some ==> {
                &&& 0 <= lines.open->0 < columns.len()
                &&& forall|k: int|
                    lines.open->0 <= k < columns.len() ==> has_frame(#[trigger] columns[k])
            }
            &&& lines.open is None && columns.len() > 0 ==> !has_frame(columns.last())
            &&& forall|j: int|
                0 <= j < lines.done.len() ==> {
                    let (from, to) = #[trigger] lines.done[j];
                    0 <= from < to < columns.len()
                }
            &&& forall|j: int, k: int|
                0 <= j < lines.done.len() && (#[trigger] lines.done[j]).0 <= k < lines.done[j].1
                    ==> has_frame(#[trigger] columns[k])
            &&& forall|k: int|
                0 <= k < columns.len() && has_frame(#[trigger] columns[k]) ==> (lines.open is Some
                    && lines.open->0 <= k) || exists|j: int|
                    0 <= j < lines.done.len() && (#[trigger] lines.done[j]).0 <= k
                        < lines.done[j].1
        }),
    decreases columns.len(),
{
    if columns.len() > 0 {
        let prior = columns.drop_last();
        lemma_lines(prior);
        let before = lines_after(prior);
        let lines = lines_after(columns);
        let here = columns.len() - 1;
        assert forall|k: int|
            lines.open is Some && lines.open->0 <= k < columns.len() implies has_frame(
            #[trigger] columns[k],
        ) by {
            if k < here {
                assert(has_frame(prior[k]));
            }
        }
        assert forall|j: int, k: int|
            0 <= j < lines.done.len() && (#[trigger] lines.done[j]).0 <= k
                < lines.done[j].1 implies has_frame(#[trigger] columns[k]) by {
            if j < before.done.len() {
                assert(before.done[j] == lines.done[j]);
                assert(has_frame(prior[k]));
            } else {
                assert(has_frame(prior[k]));
            }
        }
        assert forall|j: int| 0 <= j < lines.done.len() implies {
            let (from, to) = #[trigger] lines.done[j];
            0 <= from < to < columns.len()
        } by {
            if j < before.done.len() {
                assert(before.done[j] == lines.done[j]);
            }
        }
        assert forall|k: int| 0 <= k < columns.len() && has_frame(#[trigger] columns[k]) implies (
        lines.open is Some && lines.open->0 <= k) || exists|j: int|
            0 <= j < lines.done.len() && (#[trigger] lines.done[j]).0 <= k < lines.done[j].1 by {
            if k < here {
                assert(has_frame(prior[k]));
                if before.open is Some && before.open->0 <= k {
                    if !has_frame(columns.last()) {
                        assert(lines.done[before.done.len() as int] == (before.open->0, here));
                    }
                } else {
                    let j = choose|j: int|
                        0 <= j < before.done.len() && (#[trigger] before.done[j]).0 <= k
                            < before.done[j].1;
                    assert(lines.done[j] == before.done[j]);
                }
            }
        }
    }
}

/// The line never crosses a gap: every column of a piece has a frame.
pub proof fn law_lines_break_at_gaps(columns: Seq<Single>, piece: int, column: int)
    requires
        0 <= piece < lines_of(columns).len(),
        lines_of(columns)[piece].0 <= column < lines_of(columns)[piece].1,
    ensures
        0 <= column < columns.len(),
        has_frame(columns[column]),
{
    lemma_lines(columns);
    let all = lines_after(columns);
    if piece < all.done.len() {
        assert(lines_of(columns)[piece] == all.done[piece]);
    }
}

/// Every frame is on the line, but for one that stands alone at the end.
pub proof fn law_frames_are_on_the_line(columns: Seq<Single>, column: int)
    requires
        0 <= column < columns.len(),
        has_frame(columns[column]),
        column + 1 < columns.len() || (column > 0 && has_frame(columns[column - 1])),
    ensures
        exists|piece: int|
            0 <= piece < lines_of(columns).len() && (#[trigger] lines_of(columns)[piece]).0
                <= column < lines_of(columns)[piece].1,
{
    lemma_lines(columns);
    let all = lines_after(columns);
    let lines = lines_of(columns);
    if all.open is Some && all.open->0 <= column {
        if columns.len() - all.open->0 <= 1 {
            assert(column == columns.len() - 1);
            let before = column - 1;
            assert(has_frame(columns[before]));
            let j = choose|j: int|
                0 <= j < all.done.len() && (#[trigger] all.done[j]).0 <= before
                    < all.done[j].1;
            assert(all.done[j].1 <= column);
            lemma_gap(columns, j);
            assert(false);
        }
        assert(lines[all.done.len() as int] == (all.open->0, columns.len() as int));
    } else {
        let j = choose|j: int|
            0 <= j < all.done.len() && (#[trigger] all.done[j]).0 <= column < all.done[j].1;
        assert(lines[j] == all.done[j]);
    }
}

proof fn lemma_gap(columns: Seq<Single>, piece: int)
    requires
        0 <= piece < lines_after(columns).done.len(),
    ensures
        0 <= lines_after(columns).done[piece].1 < columns.len(),
        !has_frame(columns[lines_after(columns).done[piece].1]),
    decreases columns.len(),
{
    if columns.len() > 0 {
        let prior = columns.drop_last();
        let before = lines_after(prior);
        if piece < before.done.len() {
            lemma_gap(prior, piece);
            assert(lines_after(columns).done[piece] == before.done[piece]);
        }
    }
}

/// The clocks stand four in a row; only the last row may be shorter, and none is empty.
pub proof fn law_four_clocks_stand_in_a_row(cores: Seq<CoreStats>, row: int, column: int)
    requires
        0 <= row < clock_rows(cores).len(),
        0 <= column < clock_rows(cores)[row].len(),
    ensures
        0 < clock_rows(cores)[row].len() <= 4,
        row < clock_rows(cores).len() - 1 ==> clock_rows(cores)[row].len() == 4,
        4 * row + column < cores.len(),
        clock_rows(cores)[row][column] == cores[4 * row + column].clock_mhz,
    decreases cores.len(),
{
    if cores.len() > 4 {
        let rest = cores.skip(4);
        let first = cores.take(4).map_values(|core: CoreStats| core.clock_mhz);
        assert(clock_rows(cores) == seq![first] + clock_rows(rest));
        if row > 0 {
            assert(clock_rows(cores)[row] == clock_rows(rest)[row - 1]);
            law_four_clocks_stand_in_a_row(rest, row - 1, column);
        } else {
            assert(clock_rows(cores)[0] == first);
        }
    } else {
        assert(clock_rows(cores)[0] == cores.map_values(|core: CoreStats| core.clock_mhz));
    }
}

/// Each core has its bar, in its place and filled by its load; the bars of the cores that others
/// outrun are paler, and those of the fastest never are.
pub proof fn law_cores_have_their_bars(cores: Vec<CoreStats>, bars: Vec<CoreBar>, i: int, j: int)
    requires
        call_ensures(core_bars, (&cores,), bars),
        0 <= i < cores@.len(),
        0 <= j < cores@.len(),
    ensures
        bars@.len() == cores@.len(),
        bars@[i].load == cores@[i].load_percent,
        cores@[i].efficiency_class < cores@[j].efficiency_class ==> bars@[i].pale,
        (forall|k: int|
            0 <= k < cores@.len() ==> (#[trigger] cores@[k]).efficiency_class
                <= cores@[i].efficiency_class) ==> !bars@[i].pale,
{
    let classes = classes_of(cores@);
    crate::preview::law_top_class_is_the_highest(classes);
    assert(classes[i] == cores@[i].efficiency_class && classes[j] == cores@[j].efficiency_class);
    let top = top_class(classes);
    let k = choose|k: int| 0 <= k < classes.len() && classes[k] == top;
    assert(classes[k] == cores@[k].efficiency_class);
}

} // verus!
