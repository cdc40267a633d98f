use mh_monitoring::blocks::level;
use mh_monitoring::blocks::Block;
use mh_monitoring::blocks::BlockColors;
use mh_monitoring::blocks::BlockKind;
use mh_monitoring::blocks::Blocks;
use mh_monitoring::blocks::Level;
use mh_monitoring::blocks::Rgb;
use mh_monitoring::blocks::Thresholds;
use mh_monitoring::blocks::MAX_TEMPERATURE;
use mh_monitoring::blocks::MAX_TITLE_CHARS;
use mh_monitoring::json::read;
use mh_monitoring::json::Json;
use mh_monitoring::number::Double;
use mh_monitoring::number::Single;
use mh_monitoring::saved::block_json;
use mh_monitoring::schema::blocks_from;
use mh_monitoring::schema::colors_from;
use mh_monitoring::theme::current_color;
use mh_monitoring::theme::for_level;
use mh_monitoring::theme::rgb;
use mh_monitoring::theme::to_rgb;
use mh_monitoring::theme::typed_color;
use mh_monitoring::theme::Palette;
use mh_monitoring::theme::ACCENT_CRITICAL;
use mh_monitoring::theme::ACCENT_WARN;
use mh_monitoring::theme::DEFAULT_ACCENT;

fn single(value: f32) -> Single {
    Single { bits: value.to_bits() }
}

fn value(single: Single) -> f32 {
    f32::from_bits(single.bits)
}

fn double(value: f64) -> Double {
    Double { bits: value.to_bits() }
}

#[test]
fn colors_are_digits_behind_at_most_one_hash() {
    for bad in ["+1+2+3", "#+1+2+3", "##3FD0D8", "-1-2-3", "# 3FD0D8", "3FD0D8#"] {
        assert_eq!(Rgb::parse(bad), None, "{bad}");
    }
    assert_eq!(Rgb::parse("\t#000aFf\n"), Some(Rgb([0, 0x0A, 0xFF])));
}

#[test]
fn colors_parse_with_or_without_a_hash() {
    assert_eq!(Rgb::parse("#3fd0d8"), Some(Rgb([0x3F, 0xD0, 0xD8])));
    assert_eq!(Rgb::parse(" 3FD0D8 "), Some(Rgb([0x3F, 0xD0, 0xD8])));
    assert_eq!(Rgb([1, 2, 255]).hex(), "#0102FF");
    for bad in ["", "#123", "#12345G", "#1234567", "#ЖЖЖ"] {
        assert_eq!(Rgb::parse(bad), None, "{bad}");
    }
}

#[test]
fn a_bad_color_falls_back_to_the_theme_and_defaults_are_not_written() {
    let text = r##"{ "header": "#FF0000", "labels": "красный", "values": 5 }"##;
    let colors = colors_from(&read(text).unwrap()).unwrap();
    assert_eq!(colors.header, Some(Rgb([255, 0, 0])));
    assert_eq!(colors.labels, None);
    assert_eq!(colors.values, None);
    let block = Block { colors, ..Default::default() };
    let Json::Object(entries) = block_json(&block) else { panic!("not an object") };
    let (_, written) = entries.iter().find(|(key, _)| key == "colors").unwrap();
    let Json::Object(colors) = written else { panic!("not an object") };
    assert_eq!(colors.len(), 1);
    assert_eq!(colors[0].0, "header");
    assert!(matches!(&colors[0].1, Json::Text(text) if text == "#FF0000"));
}

#[test]
fn default_colors_are_left_out() {
    let Json::Object(entries) = block_json(&Block::default()) else { panic!("not an object") };
    assert!(BlockColors::default().is_default());
    let (_, written) = entries.iter().find(|(key, _)| key == "colors").unwrap();
    assert!(matches!(written, Json::Object(colors) if colors.is_empty()));
}

#[test]
fn thresholds_are_clamped_and_ordered() {
    let fixed = Thresholds {
        warn_c: single(95.4),
        critical_c: single(70.0),
        color_load: true,
    }
    .sanitized();
    assert_eq!((value(fixed.warn_c), value(fixed.critical_c)), (95.0, 95.0));
    let fixed = Thresholds {
        warn_c: single(f32::NAN),
        critical_c: single(500.0),
        color_load: false,
    }
    .sanitized();
    assert_eq!((value(fixed.warn_c), value(fixed.critical_c)), (80.0, MAX_TEMPERATURE as f32));
}

#[test]
fn the_heading_prefers_the_own_title_then_the_device() {
    let mut block = Block::default();
    assert_eq!(block.heading("GPU", Some("RTX 5070 Ti")), "GPU");
    block.device_name = true;
    assert_eq!(block.heading("GPU", Some("RTX 5070 Ti")), "RTX 5070 Ti");
    assert_eq!(block.heading("GPU", None), "GPU");
    block.title = "Видяха".into();
    assert_eq!(block.heading("GPU", Some("RTX 5070 Ti")), "Видяха");
}

#[test]
fn a_long_title_is_trimmed() {
    let block = Block { title: format!("  {}  ", "я".repeat(40)), ..Default::default() };
    assert_eq!(block.sanitized().title.chars().count(), MAX_TITLE_CHARS);
}

#[test]
fn the_order_is_repaired() {
    let document = read(r#"{ "order": ["fps", "vram", "fps", 3, "cpu"] }"#).unwrap();
    let blocks = blocks_from(&document).unwrap();
    assert_eq!(blocks.order, [BlockKind::Fps, BlockKind::Fps, BlockKind::Cpu]);
    let order = blocks.sanitized().order;
    assert_eq!(order, [BlockKind::Fps, BlockKind::Cpu, BlockKind::Gpu, BlockKind::Ram]);
}

#[test]
fn shifting_stays_inside_the_list() {
    let mut blocks = Blocks::default();
    blocks.shift(0, -1);
    blocks.shift(3, 1);
    assert_eq!(blocks.order, BlockKind::ALL);
    blocks.shift(3, -1);
    assert_eq!(blocks.order, [BlockKind::Gpu, BlockKind::Cpu, BlockKind::Fps, BlockKind::Ram]);
}

#[test]
fn a_far_shift_does_nothing() {
    let mut blocks = Blocks::default();
    blocks.shift(7, -1);
    blocks.shift(0, isize::MAX);
    blocks.shift(3, isize::MIN);
    assert_eq!(blocks.order, BlockKind::ALL);
}

#[test]
fn levels_start_at_their_thresholds() {
    let at = |value: Option<f64>| level(value.map(double), double(80.0), double(90.0));
    assert_eq!(at(Some(79.9)), None);
    assert_eq!(at(Some(80.0)), Some(Level::Warn));
    assert_eq!(at(Some(90.0)), Some(Level::Critical));
    assert_eq!(at(None), None);
}

#[test]
fn what_is_no_number_has_no_level() {
    assert_eq!(level(Some(double(f64::NAN)), double(80.0), double(90.0)), None);
    assert_eq!(level(Some(double(-5.0)), double(-10.0), double(90.0)), Some(Level::Warn));
    assert_eq!(
        level(Some(double(f64::INFINITY)), double(80.0), double(90.0)),
        Some(Level::Critical)
    );
}

#[test]
fn colors_are_numbers_and_back() {
    assert_eq!(rgb(Rgb([0x3f, 0xd0, 0xd8])), 0x3fd0d8);
    assert_eq!(to_rgb(0x3fd0d8), Rgb([0x3f, 0xd0, 0xd8]));
    let own = BlockColors { accent: Some(Rgb([1, 2, 3])), ..Default::default() };
    assert_eq!(Palette::of(&own).accent, 0x010203);
    assert_eq!(Palette::of(&BlockColors::default()).accent, DEFAULT_ACCENT);
}

#[test]
fn levels_have_their_colors() {
    assert_eq!(for_level(Some(Level::Warn), 7), ACCENT_WARN);
    assert_eq!(for_level(Some(Level::Critical), 7), ACCENT_CRITICAL);
    assert_eq!(for_level(None, 7), 7);
}

#[test]
fn a_typed_color_counts_once_it_is_one() {
    let old = Some(Rgb([9, 9, 9]));
    assert_eq!(typed_color(old, "#12"), old);
    assert_eq!(typed_color(old, "#102030"), Some(Rgb([0x10, 0x20, 0x30])));
    assert_eq!(current_color(None, 0x102030), Rgb([0x10, 0x20, 0x30]));
    assert_eq!(current_color(old, 0x102030), Rgb([9, 9, 9]));
}
