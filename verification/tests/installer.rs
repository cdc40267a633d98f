use mh_monitoring::games::split_arguments;
use mh_monitoring::installer::caller_of;
use mh_monitoring::installer::desktop_dir;
use mh_monitoring::installer::exit_code;
use mh_monitoring::installer::install;
use mh_monitoring::installer::installation_paths;
use mh_monitoring::installer::installed_exe;
use mh_monitoring::installer::installed_service_exe;
use mh_monitoring::installer::installed_version;
use mh_monitoring::installer::legacy_exes;
use mh_monitoring::installer::legacy_folder;
use mh_monitoring::installer::migrate_autostart;
use mh_monitoring::installer::partial_path;
use mh_monitoring::installer::place_service;
use mh_monitoring::installer::processes_to_end;
use mh_monitoring::installer::registry_values;
use mh_monitoring::installer::removal_script;
use mh_monitoring::installer::removal_step_failed;
use mh_monitoring::installer::remove_installation;
use mh_monitoring::installer::remove_user_data;
use mh_monitoring::installer::removes_legacy;
use mh_monitoring::installer::running_installed;
use mh_monitoring::installer::same_path;
use mh_monitoring::installer::set_autostart;
use mh_monitoring::installer::shortcut_paths;
use mh_monitoring::installer::step_failed;
use mh_monitoring::installer::uninstall;
use mh_monitoring::installer::waiting_for;
use mh_monitoring::installer::Answer;
use mh_monitoring::installer::Environment;
use mh_monitoring::installer::InstallStep;
use mh_monitoring::installer::Placement;
use mh_monitoring::installer::RemovalAction;
use mh_monitoring::installer::RemovalEvent;
use mh_monitoring::installer::RemovalStage;
use mh_monitoring::installer::RemovalStep;
use mh_monitoring::installer::StepFailure;
use mh_monitoring::installer::Uninstall;
use mh_monitoring::installer::QUESTION;
use mh_monitoring::paths::parent;
use mh_monitoring::paths::starts_with;
use mh_monitoring::resources::SERVICE_EXE;

fn environment() -> Environment {
    Environment {
        program_w6432: None,
        program_files: None,
        program_data: None,
        public: None,
        system_root: None,
    }
}

fn texts(list: &[&str]) -> Vec<String> {
    list.iter().map(|text| text.to_string()).collect()
}

#[test]
fn paths_compare_like_windows_does() {
    assert!(same_path(
        r"C:\Program Files\MH Monitoring\MH-Monitoring.exe",
        r"c:/program files/mh monitoring/mh-monitoring.EXE"
    ));
    assert!(!same_path(
        r"C:\Program Files\MH Monitoring\MH-Monitoring.exe",
        r"I:\IdeaProjects\MH Monitoring\target\release\MH-Monitoring.exe"
    ));
}

#[test]
fn the_install_location_is_under_program_files() {
    let exe = installed_exe(&environment());
    assert!(exe.ends_with(r"MH Monitoring\MH-Monitoring.exe"), "{exe}");
    assert!(exe.to_lowercase().contains("program files"));
}

#[test]
fn shortcuts_go_to_start_menu_and_desktop() {
    let (menu, desktop) = shortcut_paths(&environment());
    assert!(menu.ends_with(r"Start Menu\Programs\MH Monitoring.lnk"), "{menu}");
    assert!(desktop.ends_with(r"Desktop\MH Monitoring.lnk"), "{desktop}");
}

#[test]
fn the_caller_pid_is_read_from_arguments() {
    let arguments = |list: &[&str]| list.iter().map(|s| s.to_string()).collect::<Vec<_>>();
    assert_eq!(caller_of(&arguments(&["--uninstall", "--caller", "4242"])), Some(4_242));
    assert_eq!(caller_of(&arguments(&["--uninstall"])), None);
    assert_eq!(caller_of(&arguments(&["--uninstall", "--caller"])), None);
    assert_eq!(caller_of(&arguments(&["--uninstall", "--caller", "x"])), None);
}

#[test]
fn the_removal_script_waits_and_quotes_paths() {
    let script = removal_script(
        &texts(&[r"C:\Program Files\MH Monitoring", r"C:\Users\O'Neil\x"]),
        &vec![10, 20],
    );
    assert!(script.starts_with("Wait-Process -Id 10,20 "), "{script}");
    assert!(
        script.contains(r"-LiteralPath 'C:\Program Files\MH Monitoring','C:\Users\O''Neil\x'"),
        "{script}"
    );
}

#[test]
fn a_file_is_written_under_another_name_first() {
    assert_eq!(partial_path(r"C:\x\MH-Monitoring.exe"), r"C:\x\MH-Monitoring.exe.partial");
}

#[test]
fn the_service_is_taken_from_a_sibling_file_first() {
    let source = r"C:\x\MH-Monitoring.exe";
    let target = format!(r"C:\x\installed\{SERVICE_EXE}");
    assert_eq!(
        place_service(source, &target, false, true, true),
        Ok(Placement::Copy(format!(r"C:\x\{SERVICE_EXE}")))
    );
    let installed = r"C:\x\installed\MH-Monitoring.exe";
    assert_eq!(place_service(installed, &target, true, true, true), Ok(Placement::InPlace));
    assert_eq!(
        place_service(installed, &target, false, false, true),
        Err("нет файла службы".to_string())
    );
    assert_eq!(place_service(source, &target, false, false, true), Ok(Placement::Embedded));
    assert!(place_service(source, &target, false, false, false).is_err());
}

#[test]
fn the_installed_service_sits_next_to_the_program() {
    let env = environment();
    assert_eq!(parent(&installed_service_exe(&env)), parent(&installed_exe(&env)));
}

#[test]
fn the_environment_tells_where_programs_go() {
    let mut env = environment();
    env.program_files = Some(r"D:\Programs (x86)".into());
    assert_eq!(installed_exe(&env), r"D:\Programs (x86)\MH Monitoring\MH-Monitoring.exe");
    env.program_w6432 = Some(r"D:\Programs".into());
    assert_eq!(installed_exe(&env), r"D:\Programs\MH Monitoring\MH-Monitoring.exe");
    env.public = Some(r"D:\Public".into());
    assert_eq!(desktop_dir(&env), r"D:\Public\Desktop");
    assert!(running_installed(&Some(installed_exe(&env).to_uppercase()), &env));
    assert!(!running_installed(&None, &env));
    assert!(starts_with(&installed_exe(&env), "d:/Programs/"));
    assert!(!starts_with(r"D:\Programs2\x", r"D:\Programs"));
}

#[test]
fn a_version_is_installed_where_its_program_is() {
    assert_eq!(installed_version(true, Some("1.2".into())).as_deref(), Some("1.2"));
    assert_eq!(installed_version(false, Some("1.2".into())), None);
}

#[test]
fn installing_wants_rights_and_goes_step_by_step() {
    let env = environment();
    assert!(install(&env, r"C:\x\MH-Monitoring.exe", false).is_err());
    let steps = install(&env, r"C:\x\MH-Monitoring.exe", true).unwrap();
    assert!(steps.len() > 5);
    assert_eq!(
        steps[0],
        InstallStep::CreateFolder(r"C:\Program Files\MH Monitoring".to_string())
    );
    assert_eq!(steps[1], InstallStep::RemoveService);
    assert_eq!(
        step_failed(&steps[0], "отказ"),
        StepFailure::Abort(r"C:\Program Files\MH Monitoring: отказ".to_string())
    );
    let link = InstallStep::CreateShortcut { link: "a.lnk".into(), to: "a.exe".into() };
    assert_eq!(
        step_failed(&link, "отказ"),
        StepFailure::Log("ярлык a.lnk не создан: отказ".to_string())
    );
    assert_eq!(
        step_failed(&InstallStep::RemoveService, "отказ"),
        StepFailure::Abort("отказ".to_string())
    );
    let again = install(&env, &installed_exe(&env), true).unwrap();
    assert!(again.len() <= steps.len());
}

#[test]
fn the_registry_holds_what_the_system_shows() {
    let values = registry_values(r"C:\x\MH-Monitoring.exe", r"C:\x", "1.2.3", 4_096);
    assert!(values.len() >= 6);
    assert!(values.iter().any(|(name, _)| name == "DisplayVersion"));
}

#[test]
fn old_files_go_but_not_the_running_one() {
    let env = environment();
    let (old, _) = legacy_exes(&env);
    assert!(removes_legacy(&old, r"C:\elsewhere.exe", true));
    assert!(!removes_legacy(&old, &old.to_uppercase(), true));
    assert!(!removes_legacy(&old, r"C:\elsewhere.exe", false));
    assert!(legacy_folder(&env, r"C:\elsewhere.exe", true).is_some());
    assert!(legacy_folder(&env, r"C:\elsewhere.exe", false).is_none());
}

#[test]
fn the_old_entry_of_the_autostart_moves() {
    let (removes, value) = migrate_autostart(true, false, r"C:\x.exe");
    assert!(removes);
    assert!(value.is_some());
    assert_eq!(migrate_autostart(false, true, r"C:\x.exe"), (false, Some(r#""C:\x.exe""#.into())));
    let (removes, value) = migrate_autostart(false, false, r"C:\x.exe");
    assert!(!removes && value.is_none());
}

#[test]
fn the_caller_of_a_removal_goes_on() {
    assert_eq!(processes_to_end(&vec![1, 2, 3], Some(2)), [1, 3]);
    assert_eq!(processes_to_end(&vec![1, 2, 3], None), [1, 2, 3]);
    assert_eq!(waiting_for(9, &vec![1, 2]), [9, 1, 2]);
    assert!(installation_paths(&environment()).len() >= 1);
}

#[test]
fn outcomes_of_a_removal_have_codes() {
    assert_eq!(exit_code(Uninstall::Cancelled), 3);
    assert_eq!(exit_code(Uninstall::RemovedData), 4);
    assert_eq!(exit_code(Uninstall::KeptData), 0);
}

#[test]
fn a_cancelled_removal_ends_at_once() {
    let started = RemovalEvent::Started(texts(&["MH-Monitoring.exe", "--uninstall"]));
    let (stage, action) = uninstall(RemovalStage::Begin, &started);
    assert_eq!((stage, action), (RemovalStage::Asking, RemovalAction::Ask));
    let cancel = RemovalEvent::Answered { answer: Answer::Cancel, elevated: false, pid: 7 };
    assert_eq!(
        uninstall(stage, &cancel),
        (RemovalStage::Ended, RemovalAction::Stop(Uninstall::Cancelled))
    );
    assert!(QUESTION.contains("«Отмена»"));
}

#[test]
fn a_removal_without_rights_asks_for_them_and_finishes() {
    let yes = RemovalEvent::Answered { answer: Answer::Yes, elevated: false, pid: 4_242 };
    let (stage, action) = uninstall(RemovalStage::Asking, &yes);
    assert_eq!(stage, RemovalStage::Elevating(true));
    assert_eq!(action, RemovalAction::RunElevated("--uninstall --caller 4242".into()));
    let (_, action) = uninstall(stage, &RemovalEvent::Ran(Ok(0)));
    assert_eq!(
        action,
        RemovalAction::Finish {
            remove_data: true,
            text: "MH Monitoring удалён вместе с настройками и журналами.".into(),
        }
    );
    let (_, action) = uninstall(stage, &RemovalEvent::Ran(Ok(2)));
    assert_eq!(action, RemovalAction::Fail("удаление завершилось с кодом 2".into()));
    let (_, action) = uninstall(stage, &RemovalEvent::Ran(Err("отказ".into())));
    assert_eq!(action, RemovalAction::Fail("отказ".into()));
}

#[test]
fn the_process_with_rights_removes_for_its_caller() {
    let arguments = split_arguments("MH-Monitoring.exe --uninstall --caller 4242");
    let (stage, action) = uninstall(RemovalStage::Begin, &RemovalEvent::Started(arguments));
    assert_eq!(stage, RemovalStage::RemovingForCaller);
    assert_eq!(action, RemovalAction::Remove(Some(4_242)));
    let (_, action) = uninstall(stage, &RemovalEvent::Removed(None));
    assert_eq!(action, RemovalAction::Stop(Uninstall::KeptData));
    let (_, action) = uninstall(stage, &RemovalEvent::Removed(Some("занят".into())));
    assert_eq!(action, RemovalAction::Fail("занят".into()));
}

#[test]
fn data_stays_where_the_user_says_no() {
    let no = RemovalEvent::Answered { answer: Answer::No, elevated: true, pid: 7 };
    let (stage, action) = uninstall(RemovalStage::Asking, &no);
    assert_eq!((stage, action), (RemovalStage::Removing(false), RemovalAction::Remove(None)));
    let (_, action) = uninstall(stage, &RemovalEvent::Removed(None));
    assert!(matches!(action, RemovalAction::Finish { remove_data: false, .. }));
}

#[test]
fn the_autostart_points_to_the_installed_copy() {
    let env = environment();
    let own = Some(r"C:\x.exe".to_string());
    assert_eq!(set_autostart(false, true, &own, &env), Ok(None));
    assert_eq!(set_autostart(true, false, &own, &env), Ok(Some(r#""C:\x.exe""#.into())));
    assert_eq!(
        set_autostart(true, true, &own, &env),
        Ok(Some(format!("\"{}\"", installed_exe(&env))))
    );
    assert_eq!(set_autostart(true, false, &None, &env), Err(()));
}

#[test]
fn a_removal_takes_back_what_was_installed() {
    let own = Some("C:\\Temp\\MH-Monitoring.exe".to_string());
    let steps = remove_installation(&environment(), &own, 7, Some(3), true).unwrap();
    let folder = "C:\\Program Files\\MH Monitoring".to_string();
    assert_eq!(
        steps,
        vec![
            RemovalStep::RemoveService,
            RemovalStep::EndProcesses {
                program: "C:\\Program Files\\MH Monitoring\\MH-Monitoring.exe".to_string(),
                spared: Some(3),
            },
            RemovalStep::RemoveShortcut(shortcut_paths(&environment()).0),
            RemovalStep::RemoveShortcut(shortcut_paths(&environment()).1),
            RemovalStep::RemoveLegacy { running: "C:\\Temp\\MH-Monitoring.exe".to_string() },
            RemovalStep::RemoveAutostart,
            RemovalStep::Unregister,
            RemovalStep::RemoveLater { folders: vec![folder.clone()], waiting: vec![7, 3] },
        ]
    );
    for step in install(&environment(), "C:\\Temp\\MH-Monitoring.exe", true).unwrap() {
        if let InstallStep::CreateShortcut { link, .. } = step {
            assert!(steps.contains(&RemovalStep::RemoveShortcut(link)));
        }
    }
    assert_eq!(
        remove_installation(&environment(), &None, 7, None, false),
        Err("нужны права администратора".to_string())
    );
    assert_eq!(remove_installation(&environment(), &None, 7, None, true).unwrap().len(), 7);
}

#[test]
fn a_removal_ends_at_the_service_and_the_entry() {
    assert_eq!(
        removal_step_failed(&RemovalStep::RemoveService, "отказано"),
        Some("отказано".to_string())
    );
    assert_eq!(
        removal_step_failed(&RemovalStep::Unregister, "отказано"),
        Some("запись в «Программы и компоненты»: отказано".to_string())
    );
    assert_eq!(removal_step_failed(&RemovalStep::RemoveAutostart, "отказано"), None);
}

#[test]
fn the_data_goes_after_its_holders() {
    assert_eq!(
        remove_user_data("C:\\Local\\MH", "C:\\Roaming\\MH\\settings-rs.json", 5, &vec![6, 8]),
        RemovalStep::RemoveLater {
            folders: texts(&["C:\\Local\\MH", "C:\\Roaming\\MH"]),
            waiting: vec![5, 6, 8],
        }
    );
}
