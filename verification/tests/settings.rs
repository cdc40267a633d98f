use mh_monitoring::blocks::Blocks;
use mh_monitoring::blocks::Thresholds;
use mh_monitoring::json::read;
use mh_monitoring::json::Json;
use mh_monitoring::number::Single;
use mh_monitoring::placement::Corner;
use mh_monitoring::same::same_settings;
use mh_monitoring::saved::settings_json;
use mh_monitoring::settings::FpsSettings;
use mh_monitoring::settings::FullscreenMode;
use mh_monitoring::settings::HotkeySettings;
use mh_monitoring::settings::Metric;
use mh_monitoring::settings::MetricSettings;
use mh_monitoring::settings::OverlayMode;
use mh_monitoring::settings::Settings;
use mh_monitoring::settings::TargetChoice;
use mh_monitoring::settings::TargetMode;
use mh_monitoring::settings::TargetSettings;
use mh_monitoring::settings::CURRENT_VERSION;
use mh_monitoring::settings::MAX_SCALE;
use mh_monitoring::settings::MAX_STRIP_HEIGHT;
use mh_monitoring::settings::MAX_WIDTH_SCALE;
use mh_monitoring::settings::MIN_OPACITY;
use mh_monitoring::settings::MIN_SCALE;
use mh_monitoring::settings_file::after_setting_aside;
use mh_monitoring::settings_file::app_dir;
use mh_monitoring::settings_file::default_path;
use mh_monitoring::settings_file::import;
use mh_monitoring::settings_file::legacy_files;
use mh_monitoring::settings_file::load;
use mh_monitoring::settings_file::move_legacy_files;
use mh_monitoring::settings_file::moves;
use mh_monitoring::settings_file::open;
use mh_monitoring::settings_file::parse;
use mh_monitoring::settings_file::quarantine_path;
use mh_monitoring::settings_file::Opened;
use mh_monitoring::units::Frequency;
use mh_monitoring::units::Temperature;
use std::collections::BTreeSet;

fn value(single: Single) -> f32 {
    f32::from_bits(single.bits)
}

fn single(value: f32) -> Single {
    Single { bits: value.to_bits() }
}

const PATH: &str = r"C:\x\MH Monitoring\settings-rs.json";

const OLD_DIR: &str = r"C:\x\MH Monitor";
const NEW_DIR: &str = r"C:\x\MH Monitoring";

/// Two folders, each with what it holds by the names of the files.
type Folder = Vec<(String, String)>;

fn folder(files: &[(&str, &str)]) -> Folder {
    files.iter().map(|(name, text)| (name.to_string(), text.to_string())).collect()
}

fn has(folder: &Folder, name: &str) -> bool {
    folder.iter().any(|(file, _)| file == name)
}

/// Moves the files from one folder to the other and says which.
fn moved(old: &mut Folder, new: &mut Folder) -> Vec<String> {
    let (settings, aside) = legacy_files(OLD_DIR, NEW_DIR);
    let files = move_legacy_files(
        OLD_DIR,
        NEW_DIR,
        (has(old, &settings.name), has(new, &settings.name)),
        (has(old, &aside.name), has(new, &aside.name)),
    );
    for file in &files {
        assert_eq!(file.from, format!(r"{OLD_DIR}\{}", file.name));
        assert_eq!(file.to, format!(r"{NEW_DIR}\{}", file.name));
        let at = old.iter().position(|(name, _)| *name == file.name).unwrap();
        let entry = old.remove(at);
        new.push(entry);
    }
    files.into_iter().map(|file| file.name).collect()
}

#[test]
fn legacy_settings_move_and_kotlin_files_stay() {
    let mut old = folder(&[("settings-rs.json", "rust"), ("settings.json", "kotlin")]);
    let mut new = folder(&[]);
    assert_eq!(moved(&mut old, &mut new), vec!["settings-rs.json".to_string()]);
    assert_eq!(new, folder(&[("settings-rs.json", "rust")]));
    assert!(!has(&old, "settings-rs.json"));
    assert_eq!(old, folder(&[("settings.json", "kotlin")]));
    assert!(moved(&mut old, &mut new).is_empty());
}

#[test]
fn existing_new_settings_win_over_legacy() {
    let mut old = folder(&[("settings-rs.json", "old")]);
    let mut new = folder(&[("settings-rs.json", "new")]);
    assert!(moved(&mut old, &mut new).is_empty());
    assert_eq!(new, folder(&[("settings-rs.json", "new")]));
    assert!(!moves(true, true));
}

#[test]
fn what_was_set_aside_moves_behind_the_settings() {
    let files = [("settings-rs.corrupted.json", "{"), ("x", "y"), ("settings-rs.json", "{}")];
    let (mut old, mut new) = (folder(&files), folder(&[]));
    assert_eq!(
        moved(&mut old, &mut new),
        vec!["settings-rs.json".to_string(), "settings-rs.corrupted.json".to_string()]
    );
    assert_eq!(old, folder(&[("x", "y")]));
    assert_eq!(new, folder(&[("settings-rs.json", "{}"), ("settings-rs.corrupted.json", "{")]));
    let (mut old, mut new) = (folder(&files), folder(&[("settings-rs.json", "[]")]));
    assert_eq!(moved(&mut old, &mut new), vec!["settings-rs.corrupted.json".to_string()]);
    assert!(has(&old, "settings-rs.json"));
}

#[test]
fn a_missing_file_gives_defaults_silently() {
    let Opened::Ready(loaded) = open(None, PATH) else { panic!("set aside") };
    assert_eq!(loaded.settings, Settings::default());
    assert_eq!(loaded.notice, None);
}

#[test]
fn a_broken_file_is_quarantined_and_reported() {
    let Opened::SetAside(aside) = open(Some("{ not json"), PATH) else { panic!("read") };
    assert_eq!(aside, r"C:\x\MH Monitoring\settings-rs.corrupted.json");
    let loaded = after_setting_aside(&aside, true);
    assert_eq!(loaded.settings, Settings::default());
    assert!(loaded.notice.unwrap().contains("settings-rs.corrupted.json"));
    let loaded = after_setting_aside(&aside, false);
    assert_eq!(loaded.notice.unwrap(), "настройки повреждены и сброшены");
}

#[test]
fn a_wrong_type_is_quarantined_too() {
    let text = r#"{ "overlay": { "opacity": "полупрозрачно" } }"#;
    let Opened::SetAside(aside) = open(Some(text), PATH) else { panic!("read") };
    let loaded = after_setting_aside(&aside, true);
    assert_eq!(loaded.settings, Settings::default());
    assert!(loaded.notice.is_some());
}

#[test]
fn a_json_array_is_not_settings() {
    assert!(parse("[1, 2]").is_err());
}

/// A file without a version and without the newer sections.
#[test]
fn a_p4_file_migrates_keeping_its_values() {
    let p4 = r#"{
      "overlay": { "x": -1800, "y": 40, "opacity": 0.9502451, "scale": 1.0, "locked": true,
                   "visible": true, "show_graph": true, "show_header": true },
      "hotkeys": { "toggle_visibility": "Ctrl+Shift+F11", "toggle_lock": "Ctrl+Shift+F10" }
    }"#;
    let (settings, notice) = parse(p4).unwrap();
    assert_eq!(notice, None);
    assert_eq!(settings.version, CURRENT_VERSION);
    assert_eq!(settings.overlay.x, Some(-1_800));
    assert!(settings.overlay.locked);
    assert!(settings.overlay.always_on_top);
    assert_eq!(settings.blocks, Blocks::default());
    assert_eq!(value(settings.overlay.opacity), 0.9502451);
}

/// The flags of the sections become flags of the blocks; the rest of a block is as by default.
#[test]
fn v2_sections_become_blocks() {
    let v2 = r#"{ "version": 2, "setup_done": true,
                  "sections": { "gpu": true, "cpu": false, "ram": false, "fps": true } }"#;
    let (settings, _) = parse(v2).unwrap();
    assert_eq!(settings.version, CURRENT_VERSION);
    assert!(settings.blocks.gpu.enabled && settings.blocks.fps.enabled);
    assert!(!settings.blocks.cpu.enabled && !settings.blocks.ram.enabled);
    assert_eq!(settings.blocks.cpu.thresholds, Thresholds::default());
    assert!(settings.setup_done);
    let Json::Object(written) = settings_json(&settings) else { panic!("not an object") };
    assert!(written.iter().all(|(key, _)| key != "sections"));
}

#[test]
fn a_newer_file_loads_with_a_notice() {
    let (settings, notice) =
        parse(r#"{ "version": 9, "overlay": { "locked": true }, "future": 1 }"#).unwrap();
    assert!(settings.overlay.locked);
    assert!(notice.unwrap().contains("более новой"));
}

#[test]
fn absurd_values_are_repaired_not_fatal() {
    let (settings, _) = parse(
        r#"{ "overlay": { "opacity": 7.0, "scale": 1.12 },
             "fps": { "manual_process": "   ", "manual_pid": 0, "presentmon_path": "" },
             "hotkeys": { "toggle_lock": " " } }"#,
    )
    .unwrap();
    assert_eq!(value(settings.overlay.opacity), 1.0);
    assert_eq!(value(settings.overlay.scale), 1.1);
    assert_eq!(settings.fps.manual_process, None);
    assert_eq!(settings.fps.manual_pid, None);
    assert_eq!(settings.fps.presentmon_path, None);
    assert_eq!(settings.hotkeys.toggle_lock, HotkeySettings::default().toggle_lock);

    let (settings, _) = parse(r#"{ "overlay": { "opacity": 0.0, "scale": 9.0 } }"#).unwrap();
    assert_eq!(settings.overlay.opacity.bits, MIN_OPACITY);
    assert_eq!(settings.overlay.scale.bits, MAX_SCALE);

    let (settings, _) = parse(r#"{ "overlay": { "scale": 0.1 } }"#).unwrap();
    assert_eq!(settings.overlay.scale.bits, MIN_SCALE);
    let (settings, _) = parse(r#"{ "overlay": { "scale": 0.75 } }"#).unwrap();
    assert_eq!(value(settings.overlay.scale), 0.75);
}

#[test]
fn overlay_mode_and_strip_height_are_repaired() {
    let (settings, _) = parse(
        r#"{ "overlay": { "mode": "vertical", "strip_height": 500, "show_clock": true } }"#,
    )
    .unwrap();
    assert_eq!(settings.overlay.mode, OverlayMode::Full);
    assert_eq!(value(settings.overlay.strip_height), MAX_STRIP_HEIGHT as f32);
    assert!(settings.overlay.show_clock);
    let (settings, _) = parse(r#"{ "overlay": { "mode": "strip" } }"#).unwrap();
    assert_eq!(settings.overlay.mode, OverlayMode::Strip);
}

/// The fields of a foreign or damaged file are repaired one by one.
#[test]
fn general_settings_are_repaired_one_by_one() {
    let (settings, _) = parse(
        r#"{ "overlay": { "width_scale": 3.0, "anchor": { "enabled": true, "corner": "middle",
                           "offset_x": -4 } },
             "units": { "temperature": "fahrenheit", "frequency": "kelvin" },
             "sensors": { "hardware_interval_ms": 900 } }"#,
    )
    .unwrap();
    assert_eq!(settings.overlay.width_scale.bits, MAX_WIDTH_SCALE);
    let anchor = settings.overlay.anchor;
    assert!(anchor.enabled);
    assert_eq!(anchor.corner, Corner::TopLeft);
    assert_eq!(anchor.offset_x, 0);
    assert_eq!(settings.units.temperature, Temperature::Fahrenheit);
    assert_eq!(settings.units.frequency, Frequency::Auto);
    assert_eq!(settings.sensors.hardware_interval_ms, 1_000);
}

/// A file that the user chose and that does not fit is refused, nothing more.
#[test]
fn import_leaves_a_foreign_file_alone() {
    assert_eq!(
        import(Ok("не настройки")).unwrap_err(),
        "это не файл настроек MH Monitoring"
    );
    assert_eq!(import(Err("нет доступа")).unwrap_err(), "не прочитан: нет доступа");
    let mut settings = Settings::default();
    settings.overlay.opacity = single(0.5);
    let saved = text_of(&settings_json(&settings));
    assert_eq!(import(Ok(&saved)).unwrap().settings, settings);
    let loaded = import(Ok(r#"{ "version": 3, "overlay": { "opacity": 0.5 } }"#)).unwrap();
    assert_eq!(loaded.settings, settings);
}

/// A negative number is none of a process: the file is set aside and the program starts.
#[test]
fn a_negative_pid_does_not_crash() {
    let text = r#"{ "fps": { "manual_pid": -5 } }"#;
    let Opened::SetAside(aside) = open(Some(text), PATH) else { panic!("read") };
    assert_eq!(after_setting_aside(&aside, true).settings, Settings::default());
}

#[test]
fn unknown_metric_names_are_kept_and_harmless() {
    let (mut settings, _) =
        parse(r#"{ "metrics": { "disabled": ["gpu_fan", "from_the_future"] } }"#).unwrap();
    assert!(!settings.metrics.is_enabled(Metric::GpuFan));
    assert!(settings.metrics.is_enabled(Metric::GpuPower));
    settings.metrics.set_enabled(Metric::GpuFan, true);
    assert!(settings.metrics.is_enabled(Metric::GpuFan));
    assert!(settings.metrics.disabled.contains("from_the_future"));
}

#[test]
fn opt_in_rows_stay_off_until_enabled() {
    let mut metrics = MetricSettings::default();
    assert!(metrics.is_enabled(Metric::FpsLatency));
    assert!(!metrics.is_enabled(Metric::CpuCoreLoad));
    metrics.set_enabled(Metric::CpuCoreLoad, true);
    assert!(metrics.is_enabled(Metric::CpuCoreLoad));
    assert!(metrics.enabled.contains("cpu_core_load"));
    assert!(metrics.disabled.is_empty());
    metrics.set_enabled(Metric::CpuCoreLoad, false);
    assert!(metrics.enabled.is_empty());
}

#[test]
fn metric_keys_are_unique() {
    let keys: BTreeSet<&str> = Metric::ALL.iter().map(|m| m.key()).collect();
    assert_eq!(keys.len(), Metric::ALL.len());
}

#[test]
fn settings_survive_a_round_trip() {
    let mut settings = Settings::default();
    settings.overlay.x = Some(-1_900);
    settings.overlay.locked = true;
    settings.blocks.ram.enabled = false;
    settings.blocks.gpu.title = "Видяха".into();
    settings.metrics.set_enabled(Metric::CpuPower, false);
    settings.fps.target = TargetChoice::Manual;
    settings.fps.manual_process = Some("dmc4.exe".into());
    let saved = text_of(&settings_json(&settings));
    let Opened::Ready(loaded) = open(Some(&saved), PATH) else { panic!("set aside") };
    assert_eq!(loaded.settings, settings);
    assert_eq!(loaded.notice, None);
    let (loaded, notice) = load(settings_json(&settings)).unwrap();
    assert_eq!(loaded, settings);
    assert_eq!(notice, None);
}

#[test]
fn the_target_follows_the_choice() {
    let mut fps = FpsSettings {
        manual_process: Some("dmc4.exe".into()),
        manual_pid: Some(42),
        ..Default::default()
    };
    assert_eq!(fps.target_settings(), TargetSettings::auto());
    fps.target = TargetChoice::Manual;
    let target = fps.target_settings();
    assert_eq!(target.mode, TargetMode::Manual);
    assert_eq!(target.manual_process.as_deref(), Some("dmc4.exe"));
    assert_eq!(target.manual_pid, Some(42));
}

#[test]
fn the_fullscreen_mode_survives_and_an_unknown_one_falls_back() {
    let (settings, _) =
        parse(r#"{ "overlay": { "fullscreen": "other_monitor" }, "setup_done": true }"#).unwrap();
    assert_eq!(settings.overlay.fullscreen, FullscreenMode::OtherMonitor);
    assert!(settings.setup_done);
    let (settings, _) =
        parse(r#"{ "overlay": { "fullscreen": "from_the_future", "locked": true } }"#).unwrap();
    assert_eq!(settings.overlay.fullscreen, FullscreenMode::Hide);
    assert!(settings.overlay.locked);
}

#[test]
fn a_file_before_the_setup_window_counts_as_set_up() {
    let (settings, _) = parse(r#"{ "version": 1, "overlay": { "locked": true } }"#).unwrap();
    assert!(settings.setup_done);
}

#[test]
fn game_profiles_are_repaired() {
    let (settings, _) = parse(
        r#"{ "games": [
            { "name": "WC3", "path": " C:\\Games\\WC3\\Frozen Throne.exe ",
              "arguments": "-window", "borderless": true, "window_exe": "war3.exe" },
            { "name": "wc3", "path": "C:\\Other\\wc3.exe" },
            { "name": "без пути", "path": "  " },
            { "path": "C:\\Games\\Doom\\doom.exe", "window_exe": " " }
        ] }"#,
    )
    .unwrap();
    let names: Vec<&str> = settings.games.iter().map(|g| g.name.as_str()).collect();
    assert_eq!(names, ["WC3", "wc3 (2)", "doom"]);
    assert_eq!(settings.games[0].path, r"C:\Games\WC3\Frozen Throne.exe");
    assert!(settings.games[0].borderless);
    assert_eq!(settings.games[2].window_exe, None);
}

#[test]
fn the_quarantine_name_never_collides_with_the_kotlin_one() {
    let aside = quarantine_path(r"C:\x\MH Monitoring\settings-rs.json");
    assert_eq!(mh_monitoring::paths::file_name(&aside).unwrap(), "settings-rs.corrupted.json");
}

#[test]
fn the_settings_have_a_folder_of_their_own() {
    assert_eq!(app_dir(Some(r"C:\Roaming"), r"C:\Temp"), r"C:\Roaming\MH Monitoring");
    assert_eq!(app_dir(None, r"C:\Temp"), r"C:\Temp\MH Monitoring");
    assert_eq!(
        default_path(Some(r"C:\Roaming"), r"C:\Temp"),
        r"C:\Roaming\MH Monitoring\settings-rs.json"
    );
}

#[test]
fn default_settings_are_in_order_and_survive() {
    let settings = Settings::default();
    assert_eq!(settings.clone().sanitized(), settings);
    let (loaded, notice) = load(settings_json(&settings)).unwrap();
    assert_eq!(loaded, settings);
    assert_eq!(notice, None);
}

#[test]
fn loading_settles() {
    let text = r#"{ "overlay": { "scale": 1.337, "width_scale": 0.9999, "strip_height": 33.5,
                                 "opacity": 0.123 },
                    "blocks": { "cpu": { "thresholds": { "warn_c": 77.7 },
                                         "title": "  Проц  " } },
                    "metrics": { "enabled": ["z", "a", "z"] },
                    "games": [ { "path": "C:\\a.exe" }, { "path": "C:\\b\\a.exe" } ] }"#;
    let (first, _) = parse(text).unwrap();
    let (second, _) = load(settings_json(&first)).unwrap();
    assert_eq!(first, second);
    assert!(same_settings(&first, &second));
    assert_eq!(first.clone().sanitized(), first);
}

/// The scale and the width come out as the usual arithmetic of single precision has them.
#[test]
fn the_grid_of_scales_is_that_of_singles() {
    for step in 0..4_000u32 {
        let scale = step as f32 / 1_500.0;
        let mut settings = Settings::default();
        settings.overlay.scale = single(scale);
        settings.overlay.width_scale = single(scale);
        settings.overlay.opacity = single(scale);
        settings.overlay.strip_height = single(scale * 30.0);
        let fixed = settings.sanitized().overlay;
        let expected = ((scale.clamp(0.5, 2.0) / 0.05).round() * 0.05 * 100.0).round() / 100.0;
        assert_eq!(value(fixed.scale), expected, "{scale}");
        let width = (scale.clamp(0.8, 1.5) * 20.0).round() / 20.0;
        assert_eq!(value(fixed.width_scale), width, "{scale}");
        assert_eq!(value(fixed.opacity), scale.clamp(0.3, 1.0), "{scale}");
        assert_eq!(value(fixed.strip_height), (scale * 30.0).round().clamp(20.0, 48.0), "{scale}");
    }
}

#[test]
fn what_is_no_number_takes_the_default() {
    let mut settings = Settings::default();
    settings.overlay.scale = single(f32::NAN);
    settings.overlay.width_scale = single(f32::INFINITY);
    settings.overlay.opacity = single(f32::NEG_INFINITY);
    settings.overlay.strip_height = single(f32::NAN);
    assert_eq!(settings.sanitized(), Settings::default());
}

#[test]
fn documents_are_read_as_trees() {
    let Some(Json::Object(entries)) = read(r#"{ "a": [1, -2, 2.5, "x", null, true], "a": 3 }"#)
    else {
        panic!("not read")
    };
    assert_eq!(entries.len(), 1);
    assert!(matches!(entries[0].1, Json::Unsigned(3)));
    let Some(Json::List(items)) = read(r#"[1, -2, 2.5, "x", null, true]"#) else {
        panic!("not read")
    };
    assert!(matches!(items[0], Json::Unsigned(1)));
    assert!(matches!(items[1], Json::Negative(-2)));
    assert!(matches!(&items[2], Json::Real(real) if f64::from_bits(real.bits) == 2.5));
    assert!(matches!(&items[3], Json::Text(text) if text == "x"));
    assert!(matches!(items[4], Json::Null));
    assert!(matches!(items[5], Json::Bool(true)));
    assert!(read("{ not json").is_none());
}

#[test]
fn likeness_tells_every_field_apart() {
    let base = Settings::default();
    assert!(same_settings(&base, &Settings::default()));
    let changes: Vec<fn(&mut Settings)> = vec![
        |s| s.version = 7,
        |s| s.overlay.x = Some(1),
        |s| s.overlay.opacity = Single { bits: 0x3f00_0000 },
        |s| s.blocks.fps.title = "x".into(),
        |s| s.blocks.order.reverse(),
        |s| s.blocks.gpu.thresholds.color_load = true,
        |s| s.metrics.hide_unavailable = !s.metrics.hide_unavailable,
        |s| s.metrics.set_enabled(Metric::GpuFan, false),
        |s| s.units.temperature = Temperature::Fahrenheit,
        |s| s.sensors.hardware_interval_ms = 5_000,
        |s| s.fps.manual_pid = Some(3),
        |s| s.hotkeys.toggle_lock = "F1".into(),
        |s| s.setup_done = !s.setup_done,
        |s| s.games.push(Default::default()),
    ];
    for change in changes {
        let mut changed = Settings::default();
        change(&mut changed);
        assert!(!same_settings(&base, &changed));
        assert!(!same_settings(&changed, &base));
        assert!(same_settings(&changed, &changed.clone()));
    }
    let mut zero = Settings::default();
    zero.overlay.opacity = single(0.0);
    let mut other = Settings::default();
    other.overlay.opacity = single(-0.0);
    assert!(same_settings(&zero, &other));
    other.overlay.opacity = single(f32::NAN);
    assert!(!same_settings(&other, &other.clone()));
}

/// A document as a text, with the keys of its objects from the last to the first and the numbers
/// with the digits that they need in single precision.
fn text_of(json: &Json) -> String {
    match json {
        Json::Null => "null".to_string(),
        Json::Bool(value) => value.to_string(),
        Json::Unsigned(number) => number.to_string(),
        Json::Negative(number) => number.to_string(),
        Json::Real(real) => format!("{:?}", f64::from_bits(real.bits) as f32),
        Json::Text(text) => format!("{text:?}"),
        Json::List(items) => {
            let items: Vec<String> = items.iter().map(text_of).collect();
            format!("[{}]", items.join(", "))
        }
        Json::Object(entries) => {
            let entries: Vec<String> = entries
                .iter()
                .rev()
                .map(|(key, value)| format!("{key:?}: {}", text_of(value)))
                .collect();
            format!("{{{}}}", entries.join(", "))
        }
    }
}

#[test]
fn settings_survive_in_a_text_with_other_digits_and_order() {
    let mut settings = Settings::default();
    settings.overlay.opacity = single(0.85);
    settings.overlay.scale = single(1.1);
    settings.overlay.x = Some(-40);
    settings.metrics.set_enabled(Metric::GpuFan, false);
    settings.blocks.cpu.title = "Камень".into();
    let text = text_of(&settings_json(&settings));
    assert!(text.contains("\"opacity\": 0.85,"));
    let (loaded, notice) = parse(&text).unwrap();
    assert_eq!(loaded, settings);
    assert_eq!(notice, None);
}
