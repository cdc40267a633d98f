//! Where an overlay pinned to a monitor stands: the choice of the monitor, and a corner with its
//! offsets. Plain arithmetic in physical pixels; no window is touched here.

use vstd::prelude::*;

verus! {

/// A rectangle in physical pixels of the screen.
#[derive(Debug, Clone, Copy, PartialEq, Eq, Structural)]
pub struct Area {
    pub left: i32,
    pub top: i32,
    pub right: i32,
    pub bottom: i32,
}

impl Area {
    /// Both sides are at least zero and fit 32 bits.
    pub open spec fn valid(self) -> bool {
        &&& self.left <= self.right
        &&& self.top <= self.bottom
        &&& self.right - self.left <= i32::MAX
        &&& self.bottom - self.top <= i32::MAX
    }

    pub fn width(self) -> (r: i32)
        requires
            i32::MIN <= self.right - self.left <= i32::MAX,
        ensures
            r == self.right - self.left,
    {
        self.right - self.left
    }

    pub fn height(self) -> (r: i32)
        requires
            i32::MIN <= self.bottom - self.top <= i32::MAX,
        ensures
            r == self.bottom - self.top,
    {
        self.bottom - self.top
    }
}

/// The corner or the middle of an edge that the overlay is pressed to.
#[derive(Debug, Clone, Copy, PartialEq, Eq, Structural)]
pub enum Corner {
    TopLeft,
    TopCenter,
    TopRight,
    BottomLeft,
    BottomCenter,
    BottomRight,
}

impl Corner {
    pub const ALL: [Corner; 6] = [
        Corner::TopLeft,
        Corner::TopCenter,
        Corner::TopRight,
        Corner::BottomLeft,
        Corner::BottomCenter,
        Corner::BottomRight,
    ];

    pub open spec fn name(self) -> Seq<char> {
        match self {
            Corner::TopLeft => "Сверху слева"@,
            Corner::TopCenter => "Сверху по центру"@,
            Corner::TopRight => "Сверху справа"@,
            Corner::BottomLeft => "Снизу слева"@,
            Corner::BottomCenter => "Снизу по центру"@,
            Corner::BottomRight => "Снизу справа"@,
        }
    }

    pub fn title(self) -> (r: &'static str)
        ensures
            r@ == self.name(),
    {
        match self {
            Corner::TopLeft => "Сверху слева",
            Corner::TopCenter => "Сверху по центру",
            Corner::TopRight => "Сверху справа",
            Corner::BottomLeft => "Снизу слева",
            Corner::BottomCenter => "Снизу по центру",
            Corner::BottomRight => "Снизу справа",
        }
    }
}

/// The largest offset from an edge, in pixels.
pub const MAX_OFFSET: i32 = 500;

#[derive(Debug, Clone, Copy, PartialEq, Eq, Structural)]
pub struct Anchor {
    /// Pinned: the overlay stands in a corner of a monitor and is not dragged.
    pub enabled: bool,
    /// 0 is the primary monitor, 1 and up a monitor by its number as Windows lists it.
    pub monitor: usize,
    pub corner: Corner,
    /// The offset from the left or right edge; the middle of an edge has none.
    pub offset_x: i32,
    pub offset_y: i32,
}

pub open spec fn default_anchor() -> Anchor {
    Anchor { enabled: false, monitor: 0, corner: Corner::TopLeft, offset_x: 10, offset_y: 10 }
}

impl Default for Anchor {
    fn default() -> (r: Anchor)
        ensures
            r == default_anchor(),
    {
        Anchor { enabled: false, monitor: 0, corner: Corner::TopLeft, offset_x: 10, offset_y: 10 }
    }
}

/// `value` kept between `low` and `high`.
pub open spec fn within(value: int, low: int, high: int) -> int {
    if value < low {
        low
    } else if value > high {
        high
    } else {
        value
    }
}

pub(crate) fn clamp(value: i32, low: i32, high: i32) -> (r: i32)
    requires
        low <= high,
    ensures
        r == within(value as int, low as int, high as int),
{
    if value < low {
        low
    } else if value > high {
        high
    } else {
        value
    }
}

impl Anchor {
    pub open spec fn repaired(self) -> Anchor {
        Anchor {
            offset_x: within(self.offset_x as int, 0, MAX_OFFSET as int) as i32,
            offset_y: within(self.offset_y as int, 0, MAX_OFFSET as int) as i32,
            ..self
        }
    }

    /// Offsets brought into their limits.
    pub fn sanitized(self) -> (r: Anchor)
        ensures
            r == self.repaired(),
    {
        Anchor {
            enabled: self.enabled,
            monitor: self.monitor,
            corner: self.corner,
            offset_x: clamp(self.offset_x, 0, MAX_OFFSET),
            offset_y: clamp(self.offset_y, 0, MAX_OFFSET),
        }
    }
}

/// The first monitor marked as primary, or the first one where none is marked.
pub open spec fn primary_of(monitors: Seq<(Area, bool)>) -> Option<Area> {
    if exists|i: int| 0 <= i < monitors.len() && monitors[i].1 {
        let i = first_primary(monitors);
        Some(monitors[i].0)
    } else if monitors.len() > 0 {
        Some(monitors[0].0)
    } else {
        None
    }
}

/// The position of the first primary monitor.
pub open spec fn first_primary(monitors: Seq<(Area, bool)>) -> int {
    choose|i: int|
        0 <= i < monitors.len() && monitors[i].1 && forall|j: int|
            0 <= j < i ==> !(#[trigger] monitors[j]).1
}

/// The monitor of a setting: by its number where there is one, otherwise the primary one.
pub open spec fn monitor_for(monitors: Seq<(Area, bool)>, choice: nat) -> Option<Area> {
    if 1 <= choice <= monitors.len() {
        Some(monitors[choice - 1].0)
    } else {
        primary_of(monitors)
    }
}

/// The monitor of a setting: `monitors` are pairs of the whole rectangle and whether the monitor
/// is the primary one, in the order of Windows. A number that is gone means the primary monitor.
pub fn chosen_monitor(monitors: &[(Area, bool)], choice: usize) -> (r: Option<Area>)
    ensures
        r == monitor_for(monitors@, choice as nat),
{
    if choice >= 1 && choice <= monitors.len() {
        return Some(monitors[choice - 1].0);
    }
    let mut i: usize = 0;
    while i < monitors.len()
        invariant
            i <= monitors.len(),
            !(1 <= choice <= monitors.len()),
            forall|j: int| 0 <= j < i ==> !(#[trigger] monitors@[j]).1,
        decreases monitors.len() - i,
    {
        if monitors[i].1 {
            proof {
                let k = first_primary(monitors@);
                assert(0 <= i < monitors@.len() && monitors@[i as int].1);
                assert(0 <= k < monitors@.len() && monitors@[k].1 && forall|j: int|
                    0 <= j < k ==> !(#[trigger] monitors@[j]).1);
                assert(k == i);
            }
            return Some(monitors[i].0);
        }
        i += 1;
    }
    if monitors.len() > 0 {
        Some(monitors[0].0)
    } else {
        None
    }
}

/// How much room is left beside something of the given size.
pub open spec fn spare(room: int, taken: int) -> int {
    if room > taken {
        room - taken
    } else {
        0
    }
}

/// The distance of the overlay from the left edge of its monitor.
pub open spec fn shift_x(free: int, anchor: Anchor) -> int {
    let offset = within(anchor.offset_x as int, 0, free);
    match anchor.corner {
        Corner::TopLeft | Corner::BottomLeft => offset,
        Corner::TopCenter | Corner::BottomCenter => free / 2,
        Corner::TopRight | Corner::BottomRight => free - offset,
    }
}

/// The distance of the overlay from the top edge of its monitor.
pub open spec fn shift_y(free: int, anchor: Anchor) -> int {
    let offset = within(anchor.offset_y as int, 0, free);
    match anchor.corner {
        Corner::TopLeft | Corner::TopCenter | Corner::TopRight => offset,
        Corner::BottomLeft | Corner::BottomCenter | Corner::BottomRight => free - offset,
    }
}

/// The top left corner of an overlay of the given size, pinned to a monitor.
pub open spec fn pinned(area: Area, size: (i32, i32), anchor: Anchor) -> (int, int) {
    (
        area.left + shift_x(spare(area.right - area.left, size.0 as int), anchor),
        area.top + shift_y(spare(area.bottom - area.top, size.1 as int), anchor),
    )
}

/// The top left corner of an overlay of size `size` in `area`. The overlay stays on the monitor
/// even where an offset is larger than the room left.
pub fn anchored_position(area: Area, size: (i32, i32), anchor: &Anchor) -> (r: (i32, i32))
    requires
        i32::MIN <= area.right - area.left <= i32::MAX,
        i32::MIN <= area.bottom - area.top <= i32::MAX,
        i32::MIN <= area.right - area.left - size.0 <= i32::MAX,
        i32::MIN <= area.bottom - area.top - size.1 <= i32::MAX,
        pinned(area, size, *anchor).0 <= i32::MAX,
        pinned(area, size, *anchor).1 <= i32::MAX,
    ensures
        r.0 == pinned(area, size, *anchor).0,
        r.1 == pinned(area, size, *anchor).1,
{
    let (width, height): (i32, i32) = size;
    let room_x = area.width();
    let room_y = area.height();
    let free_x: i32 = if room_x > width {
        room_x - width
    } else {
        0
    };
    let free_y: i32 = if room_y > height {
        room_y - height
    } else {
        0
    };
    let offset_x = clamp(anchor.offset_x, 0, free_x);
    let offset_y = clamp(anchor.offset_y, 0, free_y);
    let x: i32 = match anchor.corner {
        Corner::TopLeft | Corner::BottomLeft => offset_x,
        Corner::TopCenter | Corner::BottomCenter => free_x / 2,
        Corner::TopRight | Corner::BottomRight => free_x - offset_x,
    };
    let y: i32 = match anchor.corner {
        Corner::TopLeft | Corner::TopCenter | Corner::TopRight => offset_y,
        Corner::BottomLeft | Corner::BottomCenter | Corner::BottomRight => free_y - offset_y,
    };
    (area.left + x, area.top + y)
}

/// A pinned overlay that fits its monitor lies on it with every pixel; one that is larger starts
/// at the monitor's own corner.
pub proof fn law_pinned_stays_on_the_monitor(area: Area, size: (i32, i32), anchor: Anchor)
    requires
        area.valid(),
        size.0 >= 0,
        size.1 >= 0,
    ensures
        ({
            let (x, y) = pinned(area, size, anchor);
            &&& area.left <= x && area.top <= y
            &&& size.0 <= area.right - area.left ==> x + size.0 <= area.right
            &&& size.1 <= area.bottom - area.top ==> y + size.1 <= area.bottom
            &&& size.0 >= area.right - area.left ==> x == area.left
            &&& size.1 >= area.bottom - area.top ==> y == area.top
        }),
{
}

/// Where the offsets fit the room left, they are the distances to the edges: at the three places
/// of the top to the top edge, at the three of the bottom to the bottom edge, and likewise to the
/// left and to the right. In the middle of an edge the room on both sides is the same, but for a
/// pixel that cannot be shared.
pub proof fn law_offsets_are_distances(area: Area, size: (i32, i32), anchor: Anchor)
    requires
        0 <= anchor.offset_x <= area.right - area.left - size.0,
        0 <= anchor.offset_y <= area.bottom - area.top - size.1,
    ensures
        ({
            let (x, y) = pinned(area, size, anchor);
            let left = x - area.left;
            let right = area.right - (x + size.0);
            let top = y - area.top;
            let bottom = area.bottom - (y + size.1);
            &&& anchor.corner is TopLeft ==> left == anchor.offset_x && top == anchor.offset_y
            &&& anchor.corner is TopRight ==> right == anchor.offset_x && top == anchor.offset_y
            &&& anchor.corner is BottomLeft ==> left == anchor.offset_x && bottom
                == anchor.offset_y
            &&& anchor.corner is BottomRight ==> right == anchor.offset_x && bottom
                == anchor.offset_y
            &&& anchor.corner is TopCenter ==> left <= right <= left + 1 && top
                == anchor.offset_y
            &&& anchor.corner is BottomCenter ==> left <= right <= left + 1 && bottom
                == anchor.offset_y
        }),
{
}

/// An offset below zero presses the overlay to its edge, and one larger than the room left presses
/// it to the edge across.
pub proof fn law_offsets_end_at_the_edges(area: Area, size: (i32, i32), anchor: Anchor)
    requires
        0 <= area.right - area.left - size.0,
        0 <= area.bottom - area.top - size.1,
    ensures
        ({
            let (x, y) = pinned(area, size, anchor);
            let low = anchor.corner is BottomLeft || anchor.corner is BottomCenter
                || anchor.corner is BottomRight;
            let right = anchor.corner is TopRight || anchor.corner is BottomRight;
            let middle = anchor.corner is TopCenter || anchor.corner is BottomCenter;
            &&& anchor.offset_y <= 0 ==> (if low {
                y + size.1 == area.bottom
            } else {
                y == area.top
            })
            &&& anchor.offset_y >= area.bottom - area.top - size.1 ==> (if low {
                y == area.top
            } else {
                y + size.1 == area.bottom
            })
            &&& !middle && anchor.offset_x <= 0 ==> (if right {
                x + size.0 == area.right
            } else {
                x == area.left
            })
            &&& !middle && anchor.offset_x >= area.right - area.left - size.0 ==> (if right {
                x == area.left
            } else {
                x + size.0 == area.right
            })
        }),
{
}

/// A pinned overlay moves with its monitor and keeps its place on it.
pub proof fn law_pinned_moves_with_the_monitor(
    area: Area,
    other: Area,
    size: (i32, i32),
    anchor: Anchor,
)
    requires
        other.right - other.left == area.right - area.left,
        other.bottom - other.top == area.bottom - area.top,
    ensures
        pinned(other, size, anchor).0 - other.left == pinned(area, size, anchor).0 - area.left,
        pinned(other, size, anchor).1 - other.top == pinned(area, size, anchor).1 - area.top,
{
}

/// A number of a monitor that is there means that monitor; any other number means the first
/// primary one, or the first of all where none is primary. Without monitors there is none.
pub proof fn law_monitors_are_chosen(monitors: Seq<(Area, bool)>, choice: nat, primary: int)
    ensures
        1 <= choice <= monitors.len() ==> monitor_for(monitors, choice) == Some(
            monitors[choice - 1].0,
        ),
        !(1 <= choice <= monitors.len()) && 0 <= primary < monitors.len() && monitors[primary].1
            && (forall|j: int| 0 <= j < primary ==> !(#[trigger] monitors[j]).1)
            ==> monitor_for(monitors, choice) == Some(monitors[primary].0),
        !(1 <= choice <= monitors.len()) && monitors.len() > 0 && (forall|j: int|
            0 <= j < monitors.len() ==> !(#[trigger] monitors[j]).1) ==> monitor_for(
            monitors,
            choice,
        ) == Some(monitors[0].0),
        monitors.len() == 0 ==> monitor_for(monitors, choice) is None,
{
    if 0 <= primary < monitors.len() && monitors[primary].1 && (forall|j: int|
        0 <= j < primary ==> !(#[trigger] monitors[j]).1) {
        let first = first_primary(monitors);
        assert(0 <= first < monitors.len() && monitors[first].1 && forall|j: int|
            0 <= j < first ==> !(#[trigger] monitors[j]).1);
        assert(first == primary);
    }
}

/// The title of a place says where it is: above or below, to the left, in the middle or to the
/// right.
pub proof fn law_titles_name_the_place(corner: Corner)
    ensures
        corner.name() == (if corner is TopLeft || corner is TopCenter || corner is TopRight {
            "Сверху"@
        } else {
            "Снизу"@
        }) + (if corner is TopLeft || corner is BottomLeft {
            " слева"@
        } else if corner is TopRight || corner is BottomRight {
            " справа"@
        } else {
            " по центру"@
        }),
{
    reveal_strlit("Сверху");
    reveal_strlit("Снизу");
    reveal_strlit(" слева");
    reveal_strlit(" справа");
    reveal_strlit(" по центру");
    reveal_strlit("Сверху слева");
    reveal_strlit("Сверху по центру");
    reveal_strlit("Сверху справа");
    reveal_strlit("Снизу слева");
    reveal_strlit("Снизу по центру");
    reveal_strlit("Снизу справа");
    assert("Сверху слева"@ =~= "Сверху"@ + " слева"@);
    assert("Сверху по центру"@ =~= "Сверху"@ + " по центру"@);
    assert("Сверху справа"@ =~= "Сверху"@ + " справа"@);
    assert("Снизу слева"@ =~= "Снизу"@ + " слева"@);
    assert("Снизу по центру"@ =~= "Снизу"@ + " по центру"@);
    assert("Снизу справа"@ =~= "Снизу"@ + " справа"@);
}

/// Repair changes an offset only where it is beyond its limits, to the nearer limit, and leaves
/// the monitor, the place and the switch alone.
pub proof fn law_anchor_repair_keeps_the_rest(anchor: Anchor)
    ensures
        anchor.repaired().enabled == anchor.enabled,
        anchor.repaired().monitor == anchor.monitor,
        anchor.repaired().corner == anchor.corner,
        0 <= anchor.offset_x <= 500 ==> anchor.repaired().offset_x == anchor.offset_x,
        0 <= anchor.offset_y <= 500 ==> anchor.repaired().offset_y == anchor.offset_y,
        anchor.offset_x < 0 ==> anchor.repaired().offset_x == 0,
        anchor.offset_y < 0 ==> anchor.repaired().offset_y == 0,
        anchor.offset_x > 500 ==> anchor.repaired().offset_x == 500,
        anchor.offset_y > 500 ==> anchor.repaired().offset_y == 500,
{
}

/// Repairing offsets twice changes nothing more.
pub proof fn law_anchor_repair_settles(anchor: Anchor)
    ensures
        anchor.repaired().repaired() == anchor.repaired(),
        0 <= anchor.repaired().offset_x <= MAX_OFFSET,
        0 <= anchor.repaired().offset_y <= MAX_OFFSET,
{
}

/// The places have the names that a user reads.
pub proof fn law_corner_titles(value: Corner, r: &'static str)
    requires
        call_ensures(Corner::title, (value,), r),
    ensures
        value is TopLeft ==> r@ == "Сверху слева"@,
        value is TopCenter ==> r@ == "Сверху по центру"@,
        value is TopRight ==> r@ == "Сверху справа"@,
        value is BottomLeft ==> r@ == "Снизу слева"@,
        value is BottomCenter ==> r@ == "Снизу по центру"@,
        value is BottomRight ==> r@ == "Снизу справа"@,
{
}

} // verus!
