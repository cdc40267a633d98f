use mh_monitoring::placement::anchored_position;
use mh_monitoring::placement::chosen_monitor;
use mh_monitoring::placement::Anchor;
use mh_monitoring::placement::Area;
use mh_monitoring::placement::Corner;
use mh_monitoring::placement::MAX_OFFSET;

const LEFT: Area = Area { left: -1920, top: 0, right: 0, bottom: 1080 };
const MAIN: Area = Area { left: 0, top: 0, right: 2560, bottom: 1440 };

fn anchor(corner: Corner, offset: i32) -> Anchor {
    Anchor { enabled: true, corner, offset_x: offset, offset_y: offset, ..Default::default() }
}

#[test]
fn zero_means_primary_and_a_missing_monitor_falls_back_to_it() {
    let monitors = [(LEFT, false), (MAIN, true)];
    assert_eq!(chosen_monitor(&monitors, 0), Some(MAIN));
    assert_eq!(chosen_monitor(&monitors, 1), Some(LEFT));
    assert_eq!(chosen_monitor(&monitors, 2), Some(MAIN));
    assert_eq!(chosen_monitor(&monitors, 7), Some(MAIN));
    assert_eq!(chosen_monitor(&[], 0), None);
}

#[test]
fn without_a_primary_monitor_the_first_one_counts() {
    assert_eq!(chosen_monitor(&[(LEFT, false), (MAIN, false)], 0), Some(LEFT));
}

#[test]
fn corners_keep_their_offsets() {
    let size = (272, 400);
    assert_eq!(anchored_position(MAIN, size, &anchor(Corner::TopLeft, 10)), (10, 10));
    assert_eq!(anchored_position(MAIN, size, &anchor(Corner::TopRight, 10)), (2278, 10));
    assert_eq!(anchored_position(MAIN, size, &anchor(Corner::BottomLeft, 10)), (10, 1030));
    assert_eq!(anchored_position(MAIN, size, &anchor(Corner::BottomRight, 0)), (2288, 1040));
    assert_eq!(anchored_position(MAIN, size, &anchor(Corner::TopCenter, 99)), (1144, 99));
}

#[test]
fn a_monitor_left_of_the_primary_uses_its_own_coordinates() {
    let size = (272, 400);
    assert_eq!(anchored_position(LEFT, size, &anchor(Corner::TopRight, 10)), (-282, 10));
}

#[test]
fn a_huge_offset_never_pushes_the_hud_off_screen() {
    let small = Area { left: 0, top: 0, right: 800, bottom: 600 };
    let (x, y) = anchored_position(small, (272, 400), &anchor(Corner::BottomRight, 500));
    assert_eq!((x, y), (28, 0));
    let (x, y) = anchored_position(small, (1000, 900), &anchor(Corner::TopLeft, 10));
    assert_eq!((x, y), (0, 0));
}

#[test]
fn offsets_are_clamped_on_load() {
    let fixed = Anchor { offset_x: -5, offset_y: 9_999, ..Default::default() }.sanitized();
    assert_eq!((fixed.offset_x, fixed.offset_y), (0, MAX_OFFSET));
}

#[test]
fn every_corner_keeps_the_overlay_on_its_monitor() {
    for corner in Corner::ALL {
        for offset in [-7, 0, 10, 500] {
            let (x, y) = anchored_position(LEFT, (272, 400), &anchor(corner, offset));
            assert!(x >= LEFT.left && x + 272 <= LEFT.right, "{}", corner.title());
            assert!(y >= LEFT.top && y + 400 <= LEFT.bottom, "{}", corner.title());
        }
    }
}

#[test]
fn repaired_offsets_stay() {
    let fixed = anchor(Corner::BottomLeft, 700).sanitized();
    assert_eq!(fixed.sanitized(), fixed);
    assert_eq!(LEFT.width(), 1920);
    assert_eq!(LEFT.height(), 1080);
}
