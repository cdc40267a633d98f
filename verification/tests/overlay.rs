use mh_monitoring::controls::Command;
use mh_monitoring::installer::EXIT_CANCELLED;
use mh_monitoring::installer::EXIT_DATA_REMOVED;
use mh_monitoring::modes::given;
use mh_monitoring::modes::mode_of;
use mh_monitoring::modes::moved_line;
use mh_monitoring::modes::refusal;
use mh_monitoring::modes::report;
use mh_monitoring::modes::surroundings;
use mh_monitoring::modes::wait_for_others;
use mh_monitoring::modes::Mode;
use mh_monitoring::number::Single;
use mh_monitoring::overlay::apply;
use mh_monitoring::overlay::beside;
use mh_monitoring::overlay::check_exclusive_fullscreen;
use mh_monitoring::overlay::housekeeping;
use mh_monitoring::overlay::notes_of;
use mh_monitoring::overlay::other_monitor_spot;
use mh_monitoring::overlay::resolve_position;
use mh_monitoring::overlay::sync;
use mh_monitoring::overlay::Applied;
use mh_monitoring::overlay::Fullscreen;
use mh_monitoring::overlay::ScreenRect;
use mh_monitoring::overlay::Timer;
use mh_monitoring::overlay::DEFAULT_POSITION;
use mh_monitoring::overlay::FULLSCREEN_MOVED_TOOLTIP;
use mh_monitoring::overlay::FULLSCREEN_NOTE;
use mh_monitoring::overlay::FULLSCREEN_NOTE_FOR;
use mh_monitoring::overlay::TOOLTIP;
use mh_monitoring::settings::FullscreenMode;
use mh_monitoring::settings::Settings;
use mh_monitoring::settings::TargetChoice;
use mh_monitoring::settings_window::Page;
use mh_monitoring::settings_window::ServiceRequest;
use mh_monitoring::settings_window::SettingsWindow;
use mh_monitoring::setup_window::SetupChoice;
use mh_monitoring::setup_window::SetupWindow;
use mh_monitoring::tasks::apply_setup;
use mh_monitoring::tasks::check_service;
use mh_monitoring::tasks::relaunched;
use mh_monitoring::tasks::start_stopped_service;
use mh_monitoring::tasks::startup;
use mh_monitoring::tasks::task_result;
use mh_monitoring::tasks::Found;
use mh_monitoring::tasks::Saver;
use mh_monitoring::tasks::ServiceTask;
use mh_monitoring::tasks::SetupStep;
use mh_monitoring::tasks::TaskEnd;
use mh_monitoring::tasks::SAVE_DELAY;
use mh_monitoring::tasks::SERVICE_START_DELAY;

fn texts(list: &[&str]) -> Vec<String> {
    list.iter().map(|text| text.to_string()).collect()
}

#[test]
fn a_saved_position_on_a_monitor_is_kept() {
    assert_eq!(
        resolve_position(Some((-1_800, 50)), (272, 420), |_: ScreenRect| true),
        (-1_800, 50)
    );
}

#[test]
fn a_position_on_a_disconnected_monitor_falls_back() {
    assert_eq!(
        resolve_position(Some((5_000, 50)), (272, 420), |_: ScreenRect| false),
        DEFAULT_POSITION
    );
}

#[test]
fn no_saved_position_uses_the_default() {
    assert_eq!(resolve_position(None, (272, 420), |_: ScreenRect| true), DEFAULT_POSITION);
}

#[test]
fn the_place_is_asked_for_with_its_size() {
    let whole = ScreenRect { left: 10, top: 20, right: 282, bottom: 440 };
    assert_eq!(
        resolve_position(Some((10, 20)), (272, 420), |rect: ScreenRect| rect == whole),
        (10, 20)
    );
}

const SCREEN: ScreenRect = ScreenRect { left: 0, top: 0, right: 2560, bottom: 1400 };

#[test]
fn settings_open_to_the_right_of_a_hud_on_the_left() {
    let hud = ScreenRect { left: 20, top: 20, right: 300, bottom: 500 };
    assert_eq!(beside(hud, SCREEN, 960, 750), (316, 20));
}

#[test]
fn settings_open_to_the_left_of_a_hud_on_the_right() {
    let hud = ScreenRect { left: 2260, top: 900, right: 2540, bottom: 1380 };
    assert_eq!(beside(hud, SCREEN, 960, 750), (2260 - 16 - 960, 650));
}

#[test]
fn a_narrow_screen_still_keeps_the_window_on_it() {
    let screen = ScreenRect { left: -1280, top: 0, right: 0, bottom: 1000 };
    let hud = ScreenRect { left: -900, top: 10, right: -620, bottom: 400 };
    let (x, y) = beside(hud, screen, 960, 750);
    assert!(x >= screen.left && x + 960 <= screen.right);
    assert_eq!(y, 10);
}

#[test]
fn a_window_larger_than_the_screen_starts_at_its_corner() {
    let screen = ScreenRect { left: 5, top: 6, right: 105, bottom: 106 };
    let hud = ScreenRect { left: 20, top: 90, right: 40, bottom: 100 };
    assert_eq!(beside(hud, screen, 960, 750), (5, 6));
}

#[test]
fn applied_state_follows_the_window_settings_only() {
    let mut settings = Settings::default();
    let before = Applied::of(&settings);
    settings.fps.target = TargetChoice::Manual;
    assert_eq!(Applied::of(&settings), before);
    settings.overlay.locked = true;
    assert_ne!(Applied::of(&settings), before);
}

#[test]
fn the_window_is_told_only_what_is_new() {
    let mut settings = Settings::default();
    let first = sync(None, &settings, Fullscreen::Off);
    assert!(first.changed);
    assert_eq!(first.visible, Some(settings.overlay.visible));
    let again = sync(Some(first.applied), &settings, Fullscreen::Off);
    assert!(!again.changed);
    assert_eq!(again.scale, None);
    settings.overlay.locked = true;
    settings.overlay.scale = Single { bits: 2.0f32.to_bits() };
    let locked = sync(Some(first.applied), &settings, Fullscreen::Off);
    assert_eq!(locked.mouse_passthrough, Some(true));
    assert_eq!(locked.scale, Some(settings.overlay.scale));
    assert_eq!(locked.visible, None);
    let hidden = sync(Some(locked.applied), &settings, Fullscreen::Hidden);
    assert_eq!(hidden.visible, Some(false));
    let moved = sync(Some(hidden.applied), &settings, Fullscreen::Moved { home: (1, 2) });
    assert_eq!(moved.visible, Some(true));
}

#[test]
fn commands_do_what_they_say() {
    let mut settings = Settings::default();
    let mut window = SettingsWindow::default();
    settings.overlay.visible = false;
    assert!(!apply(&mut settings, &mut window, Command::OpenSettings));
    assert!(settings.overlay.visible && window.open);
    assert!(!apply(&mut settings, &mut window, Command::ToggleLock));
    assert!(settings.overlay.locked);
    assert!(!apply(&mut settings, &mut window, Command::ToggleVisible));
    assert!(!settings.overlay.visible && !window.open);
    assert!(!apply(&mut settings, &mut window, Command::ToggleVisible));
    assert!(settings.overlay.visible && !window.open);
    assert!(apply(&mut settings, &mut window, Command::Exit));
}

#[test]
fn the_overlay_leaves_a_game_and_comes_home() {
    let mut settings = Settings::default();
    let place = Some(ScreenRect { left: 100, top: 200, right: 372, bottom: 620 });
    let work = Some(ScreenRect { left: 2560, top: 0, right: 4480, bottom: 1040 });
    assert_eq!(other_monitor_spot(&settings, place, work), None);
    settings.overlay.fullscreen = FullscreenMode::OtherMonitor;
    assert_eq!(other_monitor_spot(&settings, place, None), None);
    let spot = other_monitor_spot(&settings, place, work);
    assert_eq!(spot, Some(((100, 200), 2580, 20)));
    let gone = check_exclusive_fullscreen(Fullscreen::Off, Some(9), true, spot, true, 50);
    assert_eq!(gone.state, Fullscreen::Moved { home: (100, 200) });
    assert_eq!(gone.move_to, Some((2580, 20)));
    assert_eq!(gone.note_until, None);
    assert_eq!(gone.tooltip, Some(FULLSCREEN_MOVED_TOOLTIP));
    let still = check_exclusive_fullscreen(gone.state, None, true, spot, true, 60);
    assert_eq!(still.log, None);
    let back = check_exclusive_fullscreen(gone.state, None, false, None, true, 70);
    assert_eq!(back.state, Fullscreen::Off);
    assert_eq!(back.move_to, Some((100, 200)));
    assert_eq!(back.note_until, None);
    settings.overlay.visible = false;
    assert_eq!(other_monitor_spot(&settings, place, work), None);
}

#[test]
fn a_hidden_overlay_leaves_a_hint() {
    let hidden = check_exclusive_fullscreen(Fullscreen::Off, None, true, None, true, 0);
    assert_eq!(hidden.state, Fullscreen::Hidden);
    assert_eq!(hidden.move_to, None);
    let back = check_exclusive_fullscreen(hidden.state, None, false, None, true, 1_000);
    assert_eq!(back.note_until, Some(1_000 + FULLSCREEN_NOTE_FOR));
    assert_eq!(back.tooltip, Some(TOOLTIP));
    let notes = texts(&["а"]);
    assert_eq!(
        notes_of(&notes, back.note_until, 2_000, Some("б".into()), Some("в".into())),
        ["а", FULLSCREEN_NOTE, "б", "в"]
    );
    assert_eq!(notes_of(&notes, back.note_until, 21_000, None, None), ["а"]);
}

#[test]
fn housekeeping_keeps_the_place_that_is_seen() {
    let mut settings = Settings::default();
    let rect = Some(ScreenRect { left: 7, top: 8, right: 300, bottom: 400 });
    let done = housekeeping(&mut settings, Fullscreen::Off, true, rect, true);
    assert!(done.restyle && done.raise && !done.rescue);
    assert_eq!((settings.overlay.x, settings.overlay.y), (Some(7), Some(8)));
    let other = Some(ScreenRect { left: 9, top: 9, right: 300, bottom: 400 });
    let done = housekeeping(&mut settings, Fullscreen::Off, true, other, false);
    assert!(done.rescue);
    assert_eq!(settings.overlay.x, Some(7));
    let moved = Fullscreen::Moved { home: (7, 8) };
    let done = housekeeping(&mut settings, moved, true, other, true);
    assert!(done.restyle && !done.raise);
    assert_eq!(settings.overlay.x, Some(7));
    let done = housekeeping(&mut settings, Fullscreen::Hidden, true, other, true);
    assert!(!done.restyle);
    settings.overlay.always_on_top = false;
    assert!(!housekeeping(&mut settings, Fullscreen::Off, true, None, false).raise);
}

#[test]
fn a_timer_waits_for_its_time() {
    let mut timer = Timer { next: 100 };
    assert!(!timer.fires(99, 250));
    assert!(timer.fires(100, 250));
    assert!(!timer.fires(349, 250));
    assert!(timer.fires(400, 250));
    assert_eq!(timer.next, 650);
}

#[test]
fn changes_are_written_when_they_have_settled() {
    let mut settings = Settings::default();
    let mut saver = Saver::new(&settings);
    assert!(!saver.is_due(&settings, false, true, 0));
    settings.overlay.locked = true;
    assert!(!saver.is_due(&settings, false, false, 10));
    assert!(!saver.is_due(&settings, false, false, 10 + SAVE_DELAY - 1));
    assert!(saver.is_due(&settings, false, false, 10 + SAVE_DELAY));
    saver.written(&settings);
    assert!(!saver.is_due(&settings, false, true, 5_000));
    settings.overlay.locked = false;
    assert!(saver.is_due(&settings, false, true, 6_000));
}

#[test]
fn removed_settings_are_not_written_back() {
    let mut settings = Settings::default();
    let mut saver = Saver::new(&settings);
    settings.setup_done = !settings.setup_done;
    assert!(!saver.is_due(&settings, true, true, 0));
    assert!(!saver.is_due(&settings, true, false, 50_000));
}

#[test]
fn a_change_that_is_taken_back_is_not_written() {
    let mut settings = Settings::default();
    let mut saver = Saver::new(&settings);
    settings.overlay.locked = true;
    assert!(!saver.is_due(&settings, false, false, 0));
    settings.overlay.locked = false;
    assert!(!saver.is_due(&settings, false, false, 500));
    assert_eq!(saver.due, None);
}

#[test]
fn one_task_runs_at_a_time() {
    let mut task = ServiceTask::new();
    assert_eq!(task.request(ServiceRequest::StartService, false), Some("--start-service"));
    assert_eq!(task.request(ServiceRequest::Install, false), None);
    assert_eq!(task.status.as_deref(), Some("ожидание подтверждения UAC…"));
    assert!(!task.pending_local && !task.pending_handover);
}

#[test]
fn an_installation_hands_over() {
    let mut settings = Settings::default();
    let mut setup = SetupWindow::new(true);
    let mut task = ServiceTask::new();
    assert_eq!(task.request(ServiceRequest::Install, false), Some("--install"));
    let failed =
        task.finish(TaskEnd::Failed("отказ".into()), true, &mut settings, &mut setup);
    assert_eq!(failed.setup_status.as_deref(), Some("установка: не удалось: отказ"));
    assert!(!failed.launch && setup.open && !settings.setup_done);
    task.request(ServiceRequest::Install, false);
    let done = task.finish(TaskEnd::Code(0), true, &mut settings, &mut setup);
    assert_eq!(done.text, "установка: готово");
    assert!(done.launch && !setup.open && settings.setup_done && !task.busy);
    assert!(task.launched(Ok(())));
    assert!(!task.launched(Err("нет".into())));
    assert_eq!(task.status.as_deref(), Some("установлено, но не запущено: нет"));
}

#[test]
fn a_removal_ends_with_the_engine_here() {
    let mut settings = Settings::default();
    let mut setup = SetupWindow::new(false);
    let mut task = ServiceTask::new();
    assert_eq!(task.request(ServiceRequest::Uninstall, true), Some("--uninstall"));
    let end = task.finish(TaskEnd::Code(EXIT_CANCELLED), false, &mut settings, &mut setup);
    assert!(!end.start_local && !end.data_removed);
    assert_eq!(end.text, "установка: отменено");
    task.request(ServiceRequest::Uninstall, true);
    let end = task.finish(TaskEnd::Code(EXIT_DATA_REMOVED), false, &mut settings, &mut setup);
    assert!(end.start_local && end.data_removed);
    task.request(ServiceRequest::Uninstall, true);
    let end = task.finish(TaskEnd::Lost, true, &mut settings, &mut setup);
    assert!(!end.start_local);
    assert_eq!(task.status.as_deref(), Some("не удалось"));
}

#[test]
fn codes_of_a_task_are_read() {
    assert_eq!(task_result(0), Ok(0));
    assert_eq!(task_result(3), Ok(EXIT_CANCELLED));
    assert_eq!(task_result(4), Ok(EXIT_DATA_REMOVED));
    assert_eq!(task_result(259), Err("завершилось с кодом 259".to_string()));
}

#[test]
fn a_stopped_service_is_noticed_once() {
    let mut due = Some(5_000);
    assert!(!start_stopped_service(&mut due, 4_999, true, false, true));
    assert!(start_stopped_service(&mut due, 5_000, true, false, true));
    assert!(!start_stopped_service(&mut due, 6_000, true, false, true));
    let mut due = Some(0);
    assert!(!start_stopped_service(&mut due, 1, true, true, true));
    assert_eq!(due, None);
    let mut timer = Timer { next: 0 };
    assert!(!check_service(&mut timer, 0, true, false));
    assert!(!check_service(&mut timer, 2_999, true, true));
    assert!(check_service(&mut timer, 3_000, true, true));
}

fn found() -> Found {
    Found {
        installed: None,
        running_installed: false,
        elevated: false,
        remote: false,
        wants_settings: false,
    }
}

#[test]
fn the_first_start_asks() {
    let mut settings = Settings::default();
    settings.overlay.visible = false;
    let mut window = SettingsWindow::default();
    let started = startup(&mut settings, &mut window, &found(), "1.0", 0);
    assert!(started.setup.open && started.setup.focus_pending);
    assert!(settings.overlay.visible && !window.open);
    assert_eq!(started.service_start_due, None);
    settings.setup_done = true;
    assert!(!startup(&mut settings, &mut window, &found(), "1.0", 0).setup.open);
}

#[test]
fn another_version_offers_an_update() {
    let mut settings = Settings::default();
    settings.setup_done = true;
    let mut window = SettingsWindow::default();
    let old = Found { installed: Some("0.9".into()), ..found() };
    let started = startup(&mut settings, &mut window, &old, "1.0", 100);
    assert!(window.open);
    assert_eq!(window.page, Page::Service);
    assert_eq!(started.service_start_due, Some(100 + SERVICE_START_DELAY));
    let mut window = SettingsWindow::default();
    let same = Found { installed: Some("1.0".into()), remote: true, ..found() };
    let started = startup(&mut settings, &mut window, &same, "1.0", 100);
    assert!(!window.open);
    assert_eq!(started.service_start_due, None);
    let asked = Found { wants_settings: true, ..found() };
    startup(&mut settings, &mut window, &asked, "1.0", 100);
    assert!(window.open);
    assert_eq!(window.page, Page::Overlay);
}

#[test]
fn choices_of_the_first_window_lead_on() {
    let mut settings = Settings::default();
    let mut window = SetupWindow::new(true);
    assert_eq!(
        apply_setup(&mut settings, &mut window, SetupChoice::Install),
        SetupStep::Install
    );
    assert_eq!(
        apply_setup(&mut settings, &mut window, SetupChoice::ElevateOnce),
        SetupStep::Relaunch
    );
    assert!(window.open && !settings.setup_done);
    assert_eq!(apply_setup(&mut settings, &mut window, SetupChoice::Skip), SetupStep::Done);
    assert!(!window.open && settings.setup_done);
    assert_eq!(relaunched(Ok(())), None);
    assert_eq!(relaunched(Err("отказ".into())).as_deref(), Some("не запущено: отказ"));
}

#[test]
fn the_first_argument_decides() {
    let mode = |word: &str| mode_of(&texts(&["MH-Monitoring.exe", word]));
    assert_eq!(mode_of(&texts(&["MH-Monitoring.exe"])), Mode::Overlay);
    assert_eq!(mode("--service"), Mode::OldService);
    assert_eq!(mode("--serve"), Mode::OldService);
    assert_eq!(mode("--install"), Mode::Install);
    assert_eq!(mode("--uninstall"), Mode::Uninstall);
    assert_eq!(mode("--install-service"), Mode::InstallService);
    assert_eq!(mode("--start-service"), Mode::StartService);
    assert_eq!(mode("--uninstall-service"), Mode::UninstallService);
    assert_eq!(mode("--launch"), Mode::Game);
    assert_eq!(mode("--settings"), Mode::Overlay);
}

#[test]
fn a_copy_that_takes_over_waits() {
    assert_eq!(wait_for_others(&texts(&["x"])), 0);
    assert_eq!(wait_for_others(&texts(&["x", "--relaunched"])), 10_000);
    assert_eq!(wait_for_others(&texts(&["x", "--after-install"])), 10_000);
    assert!(given(&texts(&["x", "--settings"]), "--settings"));
}

#[test]
fn outcomes_are_told() {
    assert_eq!(report(Ok(())), ("готово".to_string(), 0));
    assert_eq!(report(Err("нет прав".into())), ("ошибка: нет прав".to_string(), 2));
    assert_eq!(
        refusal(),
        "служба теперь — MH-Monitoring-Service.exe; переустановите MH Monitoring"
    );
    assert_eq!(
        surroundings("a.exe", true, &None, &Some("b.exe".into())),
        "файл: a.exe; права администратора: да; установлен: нет; служба запускает: b.exe"
    );
    assert_eq!(moved_line(&Ok(Vec::new())), None);
    assert_eq!(
        moved_line(&Ok(texts(&["a", "b"]))).as_deref(),
        Some("из старой папки перенесено: a, b")
    );
    assert_eq!(
        moved_line(&Err("отказ".into())).as_deref(),
        Some("перенос из старой папки не удался: отказ")
    );
}
