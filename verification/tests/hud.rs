use mh_monitoring::blocks::Rgb;
use mh_monitoring::chart::core_bars;
use mh_monitoring::chart::core_clocks;
use mh_monitoring::chart::line_runs;
use mh_monitoring::hud::show;
use mh_monitoring::hud::Extras;
use mh_monitoring::hud::Figure;
use mh_monitoring::hud::HudItem;
use mh_monitoring::hud::Picture;
use mh_monitoring::hud::SeenRows;
use mh_monitoring::number::Double;
use mh_monitoring::number::Single;
use mh_monitoring::overlay::log_fps;
use mh_monitoring::preview::demo_cores;
use mh_monitoring::preview::demo_snapshot;
use mh_monitoring::preview::use_live_devices;
use mh_monitoring::preview::Told;
use mh_monitoring::settings::Metric;
use mh_monitoring::settings::OverlayMode;
use mh_monitoring::settings::Settings;
use mh_monitoring::snapshot::FpsAvailability;
use mh_monitoring::snapshot::HybridClocks;
use mh_monitoring::snapshot::SensorStatus;
use mh_monitoring::snapshot::Snapshot;
use mh_monitoring::strip::StripItem;
use mh_monitoring::theme::ACCENT_CRITICAL;
use mh_monitoring::theme::ACCENT_WARN;
use mh_monitoring::theme::DEFAULT_HEADER;
use mh_monitoring::theme::TEXT_DISABLED;
use mh_monitoring::units::Frequency;

fn double(value: f64) -> Double {
    Double { bits: value.to_bits() }
}

fn demo() -> Snapshot {
    demo_snapshot(Told {
        memory_load: Some(double(42.8)),
        summary: Some("game.exe".into()),
        api: Some("DXGI".into()),
    })
}

fn extras() -> Extras {
    Extras { notes: Vec::new(), resolution: None, clock: None }
}

fn panel(snapshot: &Snapshot, settings: &Settings, seen: &mut SeenRows) -> Vec<HudItem> {
    match show(snapshot, settings, seen, &extras()) {
        Picture::Panel(items) => items,
        Picture::Strip(_) => panic!("a strip"),
    }
}

fn row<'a>(items: &'a [HudItem], wanted: &str) -> Option<&'a HudItem> {
    items.iter().find(|item| matches!(item, HudItem::Row { label, .. } if *label == wanted))
}

#[test]
fn readings_of_the_preview_are_whole_numbers() {
    let demo = demo();
    assert_eq!(demo.gpu.load_percent, Some(double(74.0)));
    assert_eq!(demo.gpu.memory_clock_mhz, Some(double(7_001.0)));
    assert_eq!(demo.fps.statistics.current_frametime_ms, Some(double(7.1)));
    assert_eq!(demo.gpu.vram_used_bytes, Some((7 << 30) + (1 << 29)));
    assert_eq!(demo.cpu.cores.len(), 16);
    assert_eq!(demo.cpu.cores[3].load_percent, Some(double(30.0 + 6.0 * 1.0)));
    assert_eq!(demo.cpu.cores[3].clock_mhz, Some(double(4_550.0 + 12.0 * 1.0)));
}

#[test]
fn cores_of_two_kinds_differ() {
    let cores = demo_cores(&vec![1, 0, 1]);
    assert_eq!(cores[1].load_percent, Some(double(10.0 + 3.0 * 4.0)));
    assert_eq!(cores[1].clock_mhz, Some(double(3_700.0 + 8.0 * 4.0)));
    assert_eq!(cores[2].load_percent, Some(double(30.0 + 6.0 * 8.0)));
    let bars = core_bars(&cores);
    assert!(!bars[0].pale && bars[1].pale);
    assert_eq!(bars[1].load, Some(double(22.0)));
    let many = demo_cores(&vec![0; 10]);
    let rows = core_clocks(&many);
    assert_eq!(rows.iter().map(Vec::len).collect::<Vec<_>>(), [4, 4, 2]);
    assert_eq!(rows[2][1], many[9].clock_mhz);
    assert!(core_clocks(&Vec::new()).is_empty());
}

#[test]
fn the_preview_takes_the_real_devices() {
    let mut demo = demo();
    let mut live = self::demo();
    live.gpu.name = Some("Radeon".into());
    live.cpu.name = None;
    live.cpu.cores = demo_cores(&vec![1, 0]);
    let hybrid = HybridClocks {
        performance_mhz: Some(double(4_550.0)),
        efficient_mhz: Some(double(3_732.0)),
    };
    use_live_devices(&mut demo, &live, Some(hybrid));
    assert_eq!(demo.gpu.name.as_deref(), Some("Radeon"));
    assert_eq!(demo.cpu.name.as_deref(), Some("AMD Ryzen 7"));
    assert_eq!(demo.cpu.cores.len(), 2);
    assert!(demo.cpu.hybrid_clocks.is_some());
    live.cpu.cores = Vec::new();
    use_live_devices(&mut demo, &live, None);
    assert_eq!(demo.cpu.cores.len(), 2);
    assert!(demo.cpu.hybrid_clocks.is_some());
}

#[test]
fn the_panel_shows_its_blocks_in_order() {
    let mut settings = Settings::default();
    settings.overlay.show_header = true;
    settings.overlay.locked = false;
    let items = panel(&demo(), &settings, &mut SeenRows::new());
    assert_eq!(items[0], HudItem::Header);
    let titles: Vec<&str> = items
        .iter()
        .filter_map(|item| match item {
            HudItem::Title { title, .. } | HudItem::BigTitle { title, .. } => Some(title.as_str()),
            _ => None,
        })
        .collect();
    assert_eq!(titles, ["GPU", "CPU", "RAM", "FPS"]);
    assert_eq!(items.iter().filter(|item| **item == HudItem::Divider).count(), 3);
    settings.overlay.locked = true;
    settings.blocks.cpu.enabled = false;
    let items = panel(&demo(), &settings, &mut SeenRows::new());
    assert_ne!(items[0], HudItem::Header);
    assert_eq!(items.iter().filter(|item| **item == HudItem::Divider).count(), 2);
}

#[test]
fn clocks_change_their_unit_at_a_thousand() {
    let mut settings = Settings::default();
    let mut snapshot = demo();
    snapshot.gpu.core_clock_mhz = Some(double(999.9));
    let items = panel(&snapshot, &settings, &mut SeenRows::new());
    assert!(matches!(
        row(&items, "Clock"),
        Some(HudItem::Row { value: Figure::Megahertz(_), .. })
    ));
    snapshot.gpu.core_clock_mhz = Some(double(1_000.0));
    let items = panel(&snapshot, &settings, &mut SeenRows::new());
    assert!(matches!(
        row(&items, "Clock"),
        Some(HudItem::Row { value: Figure::Gigahertz(_), .. })
    ));
    settings.units.frequency = Frequency::Mhz;
    let items = panel(&snapshot, &settings, &mut SeenRows::new());
    assert!(matches!(
        row(&items, "Mem Clock"),
        Some(HudItem::Row { value: Figure::Megahertz(_), .. })
    ));
}

#[test]
fn a_row_that_was_seen_keeps_its_place() {
    let mut settings = Settings::default();
    settings.metrics.hide_unavailable = true;
    let mut snapshot = demo();
    let mut seen = SeenRows::new();
    snapshot.gpu.power_watts = None;
    assert!(row(&panel(&snapshot, &settings, &mut SeenRows::new()), "Fan").is_some());
    let without = panel(&snapshot, &settings, &mut seen);
    let power = |items: &[HudItem]| {
        items
            .iter()
            .filter(|item| matches!(item, HudItem::Row { label, .. } if *label == "Power"))
            .count()
    };
    assert_eq!(power(&without), 1);
    snapshot.gpu.power_watts = Some(double(200.0));
    assert_eq!(power(&panel(&snapshot, &settings, &mut seen)), 2);
    snapshot.gpu.power_watts = None;
    let kept = panel(&snapshot, &settings, &mut seen);
    assert_eq!(power(&kept), 2);
    assert!(seen.contains(Metric::GpuPower));
    assert!(matches!(
        row(&kept, "Power"),
        Some(HudItem::Row { value: Figure::Text(text), .. }) if text == "—"
    ));
    snapshot.warming_up = true;
    let warming = panel(&snapshot, &settings, &mut SeenRows::new());
    assert!(matches!(
        row(&warming, "Power"),
        Some(HudItem::Row { value: Figure::Text(text), .. }) if text == "…"
    ));
}

#[test]
fn frames_that_do_not_come_show_no_old_numbers() {
    let settings = Settings::default();
    let mut snapshot = demo();
    snapshot.fps.availability = FpsAvailability::Waiting;
    snapshot.fps.message = Some("жду игру".into());
    snapshot.fps.summary = Some("жду игру".into());
    let items = panel(&snapshot, &settings, &mut SeenRows::new());
    assert!(matches!(
        row(&items, "AVG"),
        Some(HudItem::Row { value: Figure::Text(text), .. }) if text == "—"
    ));
    assert!(items.contains(&HudItem::Caption("жду игру".into())));
    let mut snapshot = demo();
    snapshot.fps.statistics.average_fps = Some(double(f64::INFINITY));
    let items = panel(&snapshot, &settings, &mut SeenRows::new());
    assert!(matches!(
        row(&items, "AVG"),
        Some(HudItem::Row { value: Figure::Text(text), .. }) if text == "—"
    ));
}

#[test]
fn hot_values_change_their_color() {
    let mut settings = Settings::default();
    let mut snapshot = demo();
    snapshot.cpu.temperature_c = Some(double(80.0));
    let items = panel(&snapshot, &settings, &mut SeenRows::new());
    let colors: Vec<u32> = items
        .iter()
        .filter_map(|item| match item {
            HudItem::Row { label: "Temp", color, .. } => Some(*color),
            _ => None,
        })
        .collect();
    assert_eq!(colors[1], ACCENT_WARN);
    snapshot.cpu.load_percent = Some(double(95.0));
    settings.blocks.cpu.thresholds.color_load = true;
    settings.blocks.cpu.colors.header = Some(Rgb([1, 2, 3]));
    let items = panel(&snapshot, &settings, &mut SeenRows::new());
    assert!(items.iter().any(|item| matches!(
        item,
        HudItem::Title { title_color: 0x010203, value_color: ACCENT_CRITICAL, .. }
    )));
}

#[test]
fn an_unhealthy_section_says_why() {
    let settings = Settings::default();
    let mut snapshot = demo();
    snapshot.gpu.health.status = SensorStatus::Partial;
    snapshot.gpu.health.reason = Some("нет драйвера".into());
    let items = panel(&snapshot, &settings, &mut SeenRows::new());
    assert!(items.contains(&HudItem::Caption("нет драйвера".into())));
}

#[test]
fn an_empty_section_is_hidden_with_its_rows() {
    let mut settings = Settings::default();
    settings.metrics.hide_unavailable = true;
    let mut snapshot = demo();
    snapshot.gpu.has_any_value = false;
    let titled = |items: &[HudItem]| {
        items.iter().any(|item| matches!(item, HudItem::Title { title, .. } if title == "GPU"))
    };
    assert!(!titled(&panel(&snapshot, &settings, &mut SeenRows::new())));
    settings.metrics.hide_unavailable = false;
    assert!(titled(&panel(&snapshot, &settings, &mut SeenRows::new())));
}

#[test]
fn the_time_and_the_notes_stand_at_the_ends() {
    let settings = Settings::default();
    let extras =
        Extras { notes: vec!["а".into(), "б".into()], resolution: None, clock: Some((9, 5)) };
    let Picture::Panel(items) = show(&demo(), &settings, &mut SeenRows::new(), &extras) else {
        panic!("a strip")
    };
    assert!(items.contains(&HudItem::Title {
        title: "Time".into(),
        value: Figure::Text("09:05".into()),
        title_color: DEFAULT_HEADER,
        value_color: DEFAULT_HEADER,
    }));
    let last = items.len() - 1;
    assert_eq!(items[last], HudItem::Caption("б".into()));
    assert_eq!(items[last - 2], HudItem::Divider);
}

#[test]
fn the_strip_leaves_out_what_is_missing() {
    let mut settings = Settings::default();
    settings.overlay.mode = OverlayMode::Strip;
    let mut snapshot = demo();
    snapshot.gpu.temperature_c = None;
    snapshot.gpu.load_percent = None;
    snapshot.fps.availability = FpsAvailability::Waiting;
    snapshot.fps.message = Some("жду игру".into());
    let extras = Extras { notes: vec!["а".into()], resolution: None, clock: Some((9, 5)) };
    let mut seen = SeenRows::new();
    let Picture::Strip(items) = show(&snapshot, &settings, &mut seen, &extras) else {
        panic!("a panel")
    };
    assert!(matches!(
        &items[0],
        StripItem::Main { value: Figure::Text(text), .. } if text == "09:05"
    ));
    assert_eq!(items[1], StripItem::Separator);
    assert!(matches!(&items[2], StripItem::Title { text, .. } if text == "GPU"));
    assert!(matches!(
        &items[3],
        StripItem::Main { value: Figure::Text(text), .. } if text == "—"
    ));
    assert!(matches!(&items[4], StripItem::Extra { value: Figure::Power(_), .. }));
    assert!(matches!(
        &items[5],
        StripItem::Extra { label: "VRAM", value: Figure::Text(text), .. } if text == "7.5 GB"
    ));
    assert!(items.iter().any(|item| matches!(
        item,
        StripItem::Extra { value: Figure::Text(text), color: TEXT_DISABLED, .. }
            if text == "жду игру"
    )));
    assert_eq!(items.last(), Some(&StripItem::Note("а".into())));
    assert_eq!(seen, SeenRows::new());
}

#[test]
fn the_preview_shows_the_drafts() {
    let mut settings = Settings::default();
    settings.overlay.show_clock = true;
    settings.metrics.set_enabled(Metric::FpsApi, true);
    let Picture::Panel(items) = mh_monitoring::preview::show(&demo(), &settings) else {
        panic!("a strip")
    };
    assert!(items.iter().any(|item| matches!(
        item,
        HudItem::Title { value: Figure::Text(text), .. } if text == "21:37"
    )));
    assert!(matches!(
        row(&items, "API"),
        Some(HudItem::Row { value: Figure::Text(text), .. }) if text == "DXGI · 2560×1440"
    ));
}

#[test]
fn the_line_breaks_where_there_were_no_frames() {
    let columns = |values: &[f32]| -> Vec<Single> {
        values.iter().map(|value| Single { bits: value.to_bits() }).collect()
    };
    assert_eq!(line_runs(&columns(&[7.0, 7.1, 0.0, 7.2, 0.0, 0.0, 8.0, 9.0])), [
        (0, 2),
        (3, 4),
        (6, 8)
    ]);
    assert_eq!(line_runs(&columns(&[0.0, 7.0])), []);
    assert_eq!(line_runs(&columns(&[f32::NAN, -1.0])), []);
    assert_eq!(line_runs(&columns(&[f32::INFINITY, 1.0])), [(0, 2)]);
}

#[test]
fn the_journal_gets_changes_of_the_frames_once() {
    let mut logged = String::new();
    let mut snapshot = demo();
    assert_eq!(
        log_fps(&mut logged, &snapshot.fps).as_deref(),
        Some("кадры: Available, game.exe, вывод: DXGI · Hardware: Independent Flip")
    );
    assert_eq!(log_fps(&mut logged, &snapshot.fps), None);
    snapshot.fps.presentation = None;
    snapshot.fps.summary = None;
    assert_eq!(
        log_fps(&mut logged, &snapshot.fps).as_deref(),
        Some("кадры: Available, , вывод: —")
    );
}
