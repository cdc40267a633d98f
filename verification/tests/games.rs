use mh_monitoring::games::clean_name;
use mh_monitoring::games::find_game;
use mh_monitoring::games::launch_arguments;
use mh_monitoring::games::launch_failure;
use mh_monitoring::games::launch_outcome;
use mh_monitoring::games::launch_plan;
use mh_monitoring::games::name_from_path;
use mh_monitoring::games::profile_for;
use mh_monitoring::games::shortcut_name;
use mh_monitoring::games::split_arguments;
use mh_monitoring::games::unique_name;
use mh_monitoring::games::value_after;
use mh_monitoring::games::Borderless;
use mh_monitoring::games::BorderlessWatcher;
use mh_monitoring::games::FrontWindow;
use mh_monitoring::games::LAUNCH_ARG;
use mh_monitoring::games::RETRY_EVERY;
use mh_monitoring::settings::GameProfile;

fn wc3() -> GameProfile {
    profile_for(r"C:\Games\Warcraft III\Frozen Throne.exe", |_: &str| false)
}

fn texts(list: &[&str]) -> Vec<String> {
    list.iter().map(|text| text.to_string()).collect()
}

#[test]
fn warcraft_iii_gets_windowed_mode_and_war3_as_its_window() {
    let profile = wc3();
    assert_eq!(profile.name, "Warcraft III");
    assert_eq!(profile.arguments, "-window");
    assert!(profile.borderless);
    assert_eq!(profile.window_exe.as_deref(), Some("war3.exe"));
}

#[test]
fn an_unknown_game_gets_its_file_name_and_no_arguments() {
    let profile = profile_for(r"D:\Old\Diablo\Diablo.exe", |name: &str| name == "diablo");
    assert_eq!(profile.name, "Diablo (2)");
    assert_eq!(profile.arguments, "");
    assert!(!profile.borderless);
    assert_eq!(profile.window_exe, None);
}

#[test]
fn the_window_must_be_the_right_file_in_the_game_folder() {
    let profile = wc3();
    assert!(mh_monitoring::games::matches(&profile, r"c:\games\warcraft iii\WAR3.EXE"));
    assert!(!mh_monitoring::games::matches(&profile, r"C:\Games\Warcraft III\worldedit.exe"));
    assert!(!mh_monitoring::games::matches(&profile, r"C:\Other\war3.exe"));
    let mut direct = profile.clone();
    direct.window_exe = None;
    assert!(mh_monitoring::games::matches(&direct, r"C:\Games\Warcraft III\Frozen Throne.exe"));
}

#[test]
fn arguments_split_on_spaces_and_respect_quotes() {
    assert_eq!(split_arguments("  -window   -opengl "), ["-window", "-opengl"]);
    assert_eq!(
        split_arguments(r#"-loadfile "Maps\My Map.w3x" -x"#),
        ["-loadfile", r"Maps\My Map.w3x", "-x"]
    );
    assert_eq!(split_arguments(r#"-name """#), ["-name", ""]);
    assert!(split_arguments("   ").is_empty());
}

#[test]
fn names_are_safe_for_file_names_and_unique() {
    assert_eq!(clean_name(r#" My "Game": 2 "#).as_deref(), Some("My Game 2"));
    assert_eq!(clean_name(r#""""#), None);
    assert_eq!(name_from_path(r"C:\x\Game.exe"), "Game");
    assert_eq!(
        unique_name("Game", |name: &str| ["game", "game (2)"].contains(&name)),
        "Game (3)"
    );
}

#[test]
fn the_shortcut_quotes_the_name() {
    assert_eq!(launch_arguments("Warcraft III"), r#"--launch "Warcraft III""#);
    let parsed = split_arguments(&launch_arguments("Warcraft III"));
    assert_eq!(parsed, [LAUNCH_ARG, "Warcraft III"]);
}

#[test]
fn a_shortcut_starts_the_game_that_it_names() {
    let mut other = wc3();
    other.name = "Other".into();
    let games = vec![other, wc3()];
    let arguments = texts(&["MH-Monitoring.exe", LAUNCH_ARG, "warcraft iii"]);
    let name = value_after(&arguments, LAUNCH_ARG).unwrap();
    assert_eq!(find_game(&games, &name), Ok(1));
    assert_eq!(find_game(&games, "x").unwrap_err(), "в настройках нет игры «x»");
    assert_eq!(value_after(&texts(&["a", LAUNCH_ARG]), LAUNCH_ARG), None);
    assert_eq!(value_after(&texts(&["a"]), LAUNCH_ARG), None);
}

#[test]
fn a_game_starts_in_its_folder() {
    let plan = launch_plan(&wc3(), true).unwrap();
    assert_eq!(plan.program, r"C:\Games\Warcraft III\Frozen Throne.exe");
    assert_eq!(plan.arguments, ["-window"]);
    assert_eq!(plan.folder.as_deref(), Some(r"C:\Games\Warcraft III"));
    assert_eq!(
        launch_plan(&wc3(), false).unwrap_err(),
        r"нет файла C:\Games\Warcraft III\Frozen Throne.exe"
    );
}

#[test]
fn a_start_is_told_to_the_journal_or_the_user() {
    assert_eq!(
        launch_outcome(&wc3(), Ok(())).unwrap(),
        r"игра запущена: C:\Games\Warcraft III\Frozen Throne.exe -window"
    );
    assert_eq!(
        launch_outcome(&wc3(), Err("отказ".into())).unwrap_err(),
        r"C:\Games\Warcraft III\Frozen Throne.exe: отказ"
    );
    assert_eq!(launch_failure("отказ"), "Игра не запущена: отказ");
}

#[test]
fn the_shortcut_has_a_name_and_a_description() {
    let (link, description) = shortcut_name("Doom");
    assert_eq!(link, "Doom (MH Monitoring).lnk");
    assert_eq!(description, "Doom с оверлеем MH Monitoring");
}

fn front(hwnd: isize, image: &str) -> Option<FrontWindow> {
    Some(FrontWindow { hwnd, pid: 7, image: Some(image.into()) })
}

#[test]
fn a_handled_window_is_left_alone_for_a_while() {
    let games = vec![wc3()];
    let image = r"C:\Games\Warcraft III\war3.exe";
    let mut watcher = BorderlessWatcher::new();
    assert_eq!(watcher.tick(&games, &front(5, image), 7, 0), None);
    assert_eq!(watcher.tick(&games, &front(5, image), 1, 0), Some(0));
    let line = watcher.finish(5, 0, "WC3", Borderless::Applied);
    assert_eq!(line.as_deref(), Some("WC3: окно без рамки на весь монитор"));
    assert_eq!(watcher.tick(&games, &front(5, image), 1, RETRY_EVERY - 1), None);
    assert_eq!(watcher.tick(&games, &front(5, image), 1, RETRY_EVERY), Some(0));
    assert_eq!(watcher.tick(&games, &front(6, image), 1, 1), Some(0));
    assert_eq!(watcher.tick(&games, &front(6, r"C:\x\war3.exe"), 1, 1), None);
    assert_eq!(watcher.tick(&games, &None, 1, 1), None);
}

#[test]
fn trouble_with_a_window_is_told_once() {
    let mut watcher = BorderlessWatcher::new();
    let trouble = "WC3: окно не изменить — игра запущена от администратора";
    assert_eq!(watcher.finish(5, 0, "WC3", Borderless::Denied).as_deref(), Some(trouble));
    assert_eq!(watcher.finish(5, 9_000, "WC3", Borderless::Denied), None);
    assert_eq!(watcher.problem.as_deref(), Some(trouble));
    let failed = watcher.finish(5, 20_000, "WC3", Borderless::Failed("нет".into()));
    assert_eq!(failed.as_deref(), Some("WC3: окно не изменено: нет"));
    assert_eq!(watcher.finish(6, 21_000, "WC3", Borderless::NotAGameWindow), None);
    assert_eq!(watcher.last, Some((5, 20_000)));
    assert_eq!(watcher.finish(5, 30_000, "WC3", Borderless::AlreadyDone), None);
    assert_eq!(watcher.problem, None);
    watcher.finish(5, 40_000, "WC3", Borderless::Denied);
    assert_eq!(watcher.tick(&Vec::new(), &None, 1, 50_000), None);
    assert_eq!(watcher.problem, None);
}
