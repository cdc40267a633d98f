use mh_monitoring::controls::parse_hotkey;
use mh_monitoring::installer::Environment;
use mh_monitoring::items::Choice;
use mh_monitoring::items::Item;
use mh_monitoring::items::Press;
use mh_monitoring::items::Toggle;
use mh_monitoring::pages::overlay_page;
use mh_monitoring::pages::request_of;
use mh_monitoring::pages::rows_page;
use mh_monitoring::pages::set_choice;
use mh_monitoring::pages::set_toggle;
use mh_monitoring::settings::FullscreenMode;
use mh_monitoring::settings::HotkeySettings;
use mh_monitoring::settings::Metric;
use mh_monitoring::settings::Settings;
use mh_monitoring::settings_window::add_game;
use mh_monitoring::settings_window::Drafts;
use mh_monitoring::settings_window::InstallState;
use mh_monitoring::settings_window::Page;
use mh_monitoring::settings_window::ServiceRequest;
use mh_monitoring::settings_window::SettingsWindow;
use mh_monitoring::setup_window::choice_of;
use mh_monitoring::setup_window::Context;
use mh_monitoring::setup_window::SetupChoice;
use mh_monitoring::setup_window::SetupWindow;

#[test]
fn default_hotkeys_parse() {
    let defaults = HotkeySettings::default();
    let visibility = parse_hotkey(&defaults.toggle_visibility).expect("Ctrl+Shift+F11");
    let lock = parse_hotkey(&defaults.toggle_lock).expect("Ctrl+Shift+F10");
    assert_ne!(visibility, lock);
}

#[test]
fn garbage_is_rejected() {
    assert!(parse_hotkey("Ctrl+Nonsense").is_none());
    assert!(parse_hotkey("").is_none());
}

#[test]
fn drafts_round_trip_the_settings() {
    let mut settings = Settings::default();
    settings.fps.manual_process = Some("dmc4.exe".into());
    settings.fps.manual_pid = Some(42);
    let drafts = Drafts::from_settings(&settings);
    assert_eq!(drafts.manual_pid, "42");
    let mut copy = Settings::default();
    drafts.apply_target(&mut copy).unwrap();
    assert_eq!(copy.fps.manual_process.as_deref(), Some("dmc4.exe"));
    assert_eq!(copy.fps.manual_pid, Some(42));
}

#[test]
fn a_bad_pid_changes_nothing() {
    let mut settings = Settings::default();
    settings.fps.manual_process = Some("old.exe".into());
    let drafts = Drafts {
        manual_process: "new.exe".into(),
        manual_pid: "-3".into(),
        ..Default::default()
    };
    assert!(drafts.apply_target(&mut settings).unwrap_err().contains("-3"));
    assert_eq!(settings.fps.manual_process.as_deref(), Some("old.exe"));
    let zero = Drafts { manual_pid: "0".into(), ..Default::default() };
    assert!(zero.apply_target(&mut settings).is_err());
}

#[test]
fn blank_fields_clear_the_target() {
    let mut settings = Settings::default();
    settings.fps.manual_process = Some("old.exe".into());
    let drafts = Drafts { manual_process: "  ".into(), ..Default::default() };
    drafts.apply_target(&mut settings).unwrap();
    assert_eq!(settings.fps.manual_process, None);
    assert_eq!(settings.fps.manual_pid, None);
}

#[test]
fn a_missing_presentmon_is_rejected_and_blank_means_bundled() {
    let mut settings = Settings::default();
    let missing =
        Drafts { presentmon_path: r"C:\no\such\PresentMon.exe".into(), ..Default::default() };
    assert!(missing.apply_presentmon(&mut settings, false).is_err());
    assert_eq!(settings.fps.presentmon_path, None);

    let quoted = Drafts { presentmon_path: "\"C:\\x\\this.exe\"".into(), ..Default::default() };
    quoted.apply_presentmon(&mut settings, true).unwrap();
    assert_eq!(settings.fps.presentmon_path.as_deref(), Some(r"C:\x\this.exe"));

    Drafts::default().apply_presentmon(&mut settings, false).unwrap();
    assert_eq!(settings.fps.presentmon_path, None);
}

#[test]
fn only_existing_executables_become_games() {
    let mut settings = Settings::default();
    assert!(add_game(&mut settings, "", false).is_err());
    assert!(add_game(&mut settings, r"C:\no\such\game.exe", false).is_err());
    assert!(add_game(&mut settings, r"C:\Temp", true).is_err());

    add_game(&mut settings, r"C:\x\this.exe", true).unwrap();
    add_game(&mut settings, r"C:\x\this.exe", true).unwrap();
    assert_eq!(settings.games.len(), 2);
    assert_ne!(settings.games[0].name, settings.games[1].name);
}

#[test]
fn hotkeys_are_validated_before_saving() {
    let mut settings = Settings::default();
    let bad = Drafts {
        toggle_visibility: "Ctrl+Nonsense".into(),
        toggle_lock: "Ctrl+Shift+F10".into(),
        ..Default::default()
    };
    assert!(bad.apply_hotkeys(&mut settings).is_err());
    let same = Drafts {
        toggle_visibility: "Ctrl+Shift+F9".into(),
        toggle_lock: "ctrl+shift+f9".into(),
        ..Default::default()
    };
    assert!(same.apply_hotkeys(&mut settings).is_err());
    let good = Drafts {
        toggle_visibility: "Alt+F9".into(),
        toggle_lock: "Alt+F8".into(),
        ..Default::default()
    };
    good.apply_hotkeys(&mut settings).unwrap();
    assert_eq!(settings.hotkeys.toggle_lock, "Alt+F8");
}

#[test]
fn another_presentmon_wants_a_restart() {
    let mut settings = Settings::default();
    let mut window = SettingsWindow::default();
    window.open(&settings);
    window.apply_presentmon(&mut settings, false);
    assert!(!window.restart_needed);
    assert_eq!(window.status.as_ref().unwrap().text, "путь сохранён");
    window.drafts.presentmon_path = r"C:\x.exe".into();
    window.apply_presentmon(&mut settings, false);
    assert!(!window.restart_needed);
    assert!(window.status.as_ref().unwrap().is_error);
    window.apply_presentmon(&mut settings, true);
    assert!(window.restart_needed);
}

#[test]
fn the_window_keeps_its_drafts_while_it_is_open() {
    let settings = Settings::default();
    let mut window = SettingsWindow::default();
    assert!(window.open(&settings));
    window.drafts.manual_pid = "7".into();
    assert!(!window.open_page(&settings, Page::Fps));
    assert_eq!(window.drafts.manual_pid, "7");
    assert_eq!(window.page, Page::Fps);
    let start = window.begin_frame(true);
    assert!(start.log_first_frame && start.focus);
    assert!(!window.open);
    assert!(window.open(&settings));
    assert_eq!(window.drafts.manual_pid, "");
}

#[test]
fn games_come_and_go_with_a_word() {
    let mut settings = Settings::default();
    let mut window = SettingsWindow::default();
    window.drafts.game_path = " \"C:\\Games\\Doom.exe\" ".into();
    window.add_drafted_game(&mut settings, true);
    assert_eq!(window.drafts.game_path, "");
    assert_eq!(settings.games[0].name, "Doom");
    assert_eq!(window.status.as_ref().unwrap().text, "добавлено: Doom");
    window.picking = true;
    window.picked(&mut settings, &Some(r"C:\readme.txt".into()), true);
    assert!(!window.picking);
    assert_eq!(window.status.as_ref().unwrap().text, r"это не файл .exe: C:\readme.txt");
    window.shortcut_made(Ok(r"C:\Doom.lnk".into()));
    assert_eq!(window.status.as_ref().unwrap().text, r"ярлык создан: C:\Doom.lnk");
    window.launched(Err("отказ".into()));
    assert_eq!(window.status.as_ref().unwrap().text, "отказ");
    window.remove_game(&mut settings, 0);
    assert!(settings.games.is_empty());
    assert_eq!(window.status.as_ref().unwrap().text, "удалено: Doom");
}

#[test]
fn the_state_of_the_installation_grows_old() {
    let state = InstallState {
        installed_version: None,
        running_installed: false,
        autostart: false,
        service_exe: None,
        service_running: false,
        checked: 1_000,
    };
    let state = Some(state);
    assert!(!SettingsWindow::wants_install_state(&state, 2_999, false));
    assert!(SettingsWindow::wants_install_state(&state, 3_000, false));
    assert!(!SettingsWindow::wants_install_state(&state, 3_000, true));
    assert!(SettingsWindow::wants_install_state(&None, 0, false));
}

#[test]
fn pages_show_what_was_switched() {
    let mut settings = Settings::default();
    let shown = |settings: &Settings, metric: Metric| {
        rows_page(settings).into_iter().find_map(|item| match item {
            Item::Check { toggle, on, .. } if toggle == Toggle::Row(metric) => Some(on),
            _ => None,
        })
    };
    let mut rows = 0;
    for metric in Metric::ALL {
        let on = settings.metrics.is_enabled(metric);
        set_toggle(&mut settings, Toggle::Row(metric), !on);
        assert_eq!(settings.metrics.is_enabled(metric), !on);
        if let Some(now) = shown(&settings, metric) {
            assert_eq!(now, !on, "{}", metric.key());
            rows += 1;
        }
    }
    assert_eq!(rows, 12);
    set_choice(&mut settings, Choice::Fullscreen(FullscreenMode::OtherMonitor));
    assert_eq!(settings.overlay.fullscreen, FullscreenMode::OtherMonitor);
    assert!(!overlay_page(&settings).is_empty());
    assert_eq!(request_of(Press::Install), Some(ServiceRequest::Install));
}

#[test]
fn the_first_window_warns_of_a_single_monitor() {
    let env = Environment {
        program_w6432: Some(r"D:\Programs".into()),
        program_files: None,
        program_data: None,
        public: None,
        system_root: None,
    };
    let window = SetupWindow::new(true);
    let info = Context { busy: false, status: Some("отказ".into()), monitors: 1 };
    let items = window.contents(FullscreenMode::OtherMonitor, &info, &env);
    let warnings: Vec<&str> = items
        .iter()
        .filter_map(|item| match item {
            Item::Warning(text) => Some(text.as_str()),
            _ => None,
        })
        .collect();
    assert_eq!(warnings, ["Сейчас подключён один монитор — HUD будет скрываться.", "отказ"]);
    let named = items.iter().any(
        |item| matches!(item, Item::Hint(text) if text.contains(r"D:\Programs\MH Monitoring")),
    );
    assert!(named);
    assert_eq!(choice_of(Press::Skip), Some(SetupChoice::Skip));
}

#[test]
fn a_closed_first_window_stays_closed() {
    let mut window = SetupWindow::new(true);
    assert!(window.show(false));
    assert!(!window.show(true));
    assert!(!window.open);
    assert!(!window.show(false));
}
