use mh_monitoring::backend::Backend;
use mh_monitoring::controls::hotkey_command;
use mh_monitoring::controls::hotkeys_of;
use mh_monitoring::controls::lock_label;
use mh_monitoring::controls::menu_command;
use mh_monitoring::controls::register_hotkeys;
use mh_monitoring::controls::tray_command;
use mh_monitoring::controls::tray_icon;
use mh_monitoring::controls::visibility_label;
use mh_monitoring::controls::Command;
use mh_monitoring::controls::MenuIds;
use mh_monitoring::diag::log;
use mh_monitoring::diag::timed;
use mh_monitoring::number::Double;
use mh_monitoring::number::Single;
use mh_monitoring::paths::extension;
use mh_monitoring::paths::file_name;
use mh_monitoring::paths::file_stem;
use mh_monitoring::paths::join;
use mh_monitoring::paths::parent;
use mh_monitoring::paths::starts_with;
use mh_monitoring::paths::with_extension;
use mh_monitoring::paths::with_file_name;
use mh_monitoring::probe::ProbeArgs;
use mh_monitoring::probe::ProbeCommand;
use mh_monitoring::remote::Client;
use mh_monitoring::remote::Incoming;
use mh_monitoring::remote::Link;
use mh_monitoring::remote::Session;
use mh_monitoring::resources::numeric_version;
use mh_monitoring::resources::resource_script;
use mh_monitoring::resources::service_source;
use mh_monitoring::service::exit_code;
use mh_monitoring::service::on_control;
use mh_monitoring::service::registration;
use mh_monitoring::service::stop_and_delete;
use mh_monitoring::service::Control;
use mh_monitoring::service::StopAction;
use mh_monitoring::service::StopStage;
use mh_monitoring::settings::HotkeySettings;
use mh_monitoring::text::parse_number;
use mh_monitoring::text::split_whitespace;
use mh_monitoring::text::to_signed;
use mh_monitoring::text::trim;

fn texts(list: &[&str]) -> Vec<String> {
    list.iter().map(|text| text.to_string()).collect()
}

// --- the service at the other end ---

#[test]
fn a_greeting_sends_everything() {
    let mut client = Client::new(3);
    let mut session = Session::new(3, true, 0);
    let target = Some(vec![1, 2]);
    let options = vec![9];
    let received = session.receive(&mut client, Incoming::Hello("1.2".into()), 1);
    assert!(received.goes_on);
    assert_eq!(received.log.as_deref(), Some("служба 1.2 подключена, протокол 3"));
    assert!(client.shows_snapshot());
    assert_eq!(session.outgoing(&target, &options, 0), (true, true));
    assert_eq!(session.outgoing(&target, &options, 999), (false, false));
    assert_eq!(session.outgoing(&target, &options, 1_000), (true, false));
    assert_eq!(session.outgoing(&Some(vec![3]), &vec![8], 1_001), (true, true));
    assert_eq!(session.outgoing(&None, &vec![8], 9_000), (false, false));
    assert!(session.receive(&mut client, Incoming::Snapshot, 1).repaint);
}

#[test]
fn an_old_service_is_greeted_in_its_protocol() {
    let mut client = Client::new(3);
    let mut session = Session::new(3, true, 0);
    let refused = session.receive(&mut client, Incoming::Refused("старая".into()), 1);
    assert!(!refused.goes_on);
    assert_eq!(client.protocol, 1);
    assert!(client.after_session(3));
    let mut session = Session::new(1, false, 0);
    session.receive(&mut client, Incoming::Hello("0.9".into()), 1);
    assert_eq!(session.outgoing(&Some(vec![1]), &vec![2], 0), (true, false));
    session.receive(&mut client, Incoming::Refused("нет".into()), 1);
    assert!(!client.after_session(1));
    assert_eq!(client.link(), Link::Refused("нет".into()));
    client.not_connected(3);
    assert_eq!(client.protocol, 3);
    assert_eq!(client.link(), Link::Connecting);
}

#[test]
fn a_closed_connection_is_made_again() {
    let mut client = Client::new(3);
    let mut session = Session::new(3, true, 0);
    session.receive(&mut client, Incoming::Hello("1".into()), 1);
    assert!(session.receive(&mut client, Incoming::Nothing, 1).goes_on);
    assert!(!session.receive(&mut client, Incoming::Closed, 1).goes_on);
    assert!(!client.after_session(3));
    assert!(!client.shows_snapshot());
}

#[test]
fn the_engine_says_how_it_stands() {
    let local = Backend::start(false, true);
    assert!(local.is_local() && !local.is_remote());
    assert!(local.note().unwrap().contains("остановлена"));
    assert_eq!(Backend::start_local(false).note(), None);
    assert_eq!(local.describe(), "движок в этом процессе");
    let remote = Backend::start(true, true);
    assert!(remote.is_remote());
    assert_eq!(remote.describe(), "служба — нет связи");
    let old = Backend::Remote(Link::Connected {
        service_version: "0.9".into(),
        sensor_options: false,
    });
    assert_eq!(old.describe(), "служба 0.9 (старого протокола)");
    assert!(!old.sensor_options_supported());
    assert_eq!(old.note(), None);
    let refused = Backend::Remote(Link::Refused("нет".into()));
    assert_eq!(refused.note().as_deref(), Some("служба отказала: нет"));
}

// --- the tray and the hotkeys ---

#[test]
fn hotkeys_work_or_are_spoken_of() {
    let settings = HotkeySettings {
        toggle_visibility: "Ctrl+Shift+F11".into(),
        toggle_lock: "Ctrl+Nonsense".into(),
    };
    let wanted = hotkeys_of(&settings);
    let number = wanted[0].number.unwrap();
    let (bindings, errors) = register_hotkeys(&wanted, &Some(vec![true, true]));
    assert_eq!(bindings, [(number, Command::ToggleVisible)]);
    assert_eq!(errors, ["хоткей «Ctrl+Nonsense» не разобран"]);
    let (bindings, errors) = register_hotkeys(&wanted, &Some(vec![false, true]));
    assert!(bindings.is_empty());
    assert_eq!(errors[0], "хоткей Ctrl+Shift+F11 занят другой программой");
    let (_, errors) = register_hotkeys(&wanted, &None);
    assert_eq!(errors, ["глобальные хоткеи недоступны"]);
    let (bindings, _) = register_hotkeys(&wanted, &Some(vec![true, true]));
    assert_eq!(hotkey_command(&bindings, number, true), Some(Command::ToggleVisible));
    assert_eq!(hotkey_command(&bindings, number, false), None);
    assert_eq!(hotkey_command(&bindings, number ^ 1, true), None);
}

#[test]
fn the_same_hotkey_has_the_same_number() {
    let number = mh_monitoring::controls::parse_hotkey("Ctrl+Shift+F11");
    assert!(number.is_some());
    assert_eq!(mh_monitoring::controls::parse_hotkey("ctrl+shift+f11"), number);
    assert_ne!(mh_monitoring::controls::parse_hotkey("Shift+F11"), number);
}

#[test]
fn the_menu_and_the_tray_give_commands() {
    let ids = MenuIds { visibility: 1, lock: 2, settings: 3, exit: 4 };
    assert_eq!(menu_command(&ids, 1), Some(Command::ToggleVisible));
    assert_eq!(menu_command(&ids, 2), Some(Command::ToggleLock));
    assert_eq!(menu_command(&ids, 3), Some(Command::OpenSettings));
    assert_eq!(menu_command(&ids, 4), Some(Command::Exit));
    assert_eq!(menu_command(&ids, 5), None);
    assert_eq!(tray_command(true, true), Some(Command::ToggleVisible));
    assert_eq!(tray_command(true, false), None);
    assert_eq!(tray_command(false, true), None);
    assert_ne!(visibility_label(true), visibility_label(false));
    assert_ne!(lock_label(true), lock_label(false));
    assert_eq!(Command::Exit.name(), "Exit");
}

#[test]
fn the_icon_has_three_bars() {
    let icon = tray_icon();
    let point = |x: usize, y: usize| &icon[(y * 32 + x) * 4..(y * 32 + x) * 4 + 4];
    assert_eq!(icon.len(), 4096);
    assert_eq!(point(4, 18), [0x3f, 0xd0, 0xd8, 0xff]);
    assert_eq!(point(4, 17), [0, 0, 0, 0]);
    assert_eq!(point(18, 8), [0x3f, 0xd0, 0xd8, 0xff]);
    assert_eq!(point(27, 27), [0x3f, 0xd0, 0xd8, 0xff]);
    assert_eq!(point(27, 28), [0, 0, 0, 0]);
}

#[test]
fn the_journal_records_steps_with_durations() {
    assert_eq!(log(61_007, "старт"), "[    61.007 с] старт");
    assert_eq!(timed("шаг", 7), "шаг: 7 мс");
}

// --- the service of the system ---

#[test]
fn the_service_knows_its_requests() {
    assert!(on_control(Control::Stop).stop && on_control(Control::Shutdown).stop);
    assert!(!on_control(Control::Interrogate).stop && on_control(Control::Interrogate).known);
    assert!(!on_control(Control::Other).known);
    assert_eq!(exit_code(false, Some(5)), 0);
    assert_eq!(exit_code(true, Some(5)), 5);
    assert_eq!(exit_code(true, Some(-1)), u32::MAX);
    assert_eq!(exit_code(true, None), 1);
    let registered = registration(r"C:\x.exe");
    assert_eq!((registered.name.as_str(), registered.launch_argument.as_str()), (
        "MHMonitor",
        "--service"
    ));
}

#[test]
fn a_service_is_deleted_in_the_end() {
    let (mut stage, action) = stop_and_delete(StopStage::Begin, false);
    assert_eq!(action, StopAction::Stop);
    let mut sleeps = 0;
    loop {
        let (next, action) = stop_and_delete(stage, false);
        if action == StopAction::SleepAndDelete {
            break;
        }
        assert_eq!(action, StopAction::Sleep);
        sleeps += 1;
        stage = next;
    }
    assert_eq!(sleeps, 49);
    assert_eq!(stop_and_delete(StopStage::Begin, true).1, StopAction::Delete);
    assert_eq!(stop_and_delete(stage, true).1, StopAction::Delete);
}

// --- the build and the reference presenter ---

#[test]
fn versions_have_four_numbers() {
    assert_eq!(numeric_version("1.2.3"), [1, 2, 3, 0]);
    assert_eq!(numeric_version("1.2.3-beta.4.5"), [1, 2, 3, 4]);
    assert_eq!(numeric_version(""), [0, 0, 0, 0]);
    let script = resource_script("1.2.3", r"C:\icon.ico", r"C:\app.manifest");
    assert!(script.contains("FILEVERSION 1,2,3,0\n"));
    assert!(script.contains(r#"1 ICON "C:\\icon.ico""#));
    assert_eq!(service_source(&Some("a.exe".into()), &None), "a.exe");
    assert_eq!(
        service_source(&None, &Some(r"C:\target".into())),
        r"C:\target\MH-Monitoring-Service.exe"
    );
}

#[test]
fn the_presenter_reads_its_arguments() {
    let read = |list: &[&str]| mh_monitoring::probe::parse_args(&texts(list));
    assert_eq!(
        read(&["--seconds", "5", "--fps", "60"]),
        Ok(ProbeCommand::Present(ProbeArgs { seconds: 5, vsync: 1, fps_cap: 60 }))
    );
    assert_eq!(read(&["--help"]), Ok(ProbeCommand::Help));
    assert_eq!(read(&["--vsync"]), Err("--vsync требует значение".to_string()));
    assert_eq!(read(&["--vsync", "x"]), Err("не число: x".to_string()));
    assert_eq!(read(&["x"]), Err("неизвестный аргумент: x".to_string()));
    assert_eq!(
        mh_monitoring::probe::beginning_line(&ProbeArgs { seconds: 5, vsync: 0, fps_cap: 0 }),
        "презентю 5 с, интервал синхронизации 0, ограничение без FPS"
    );
}

// --- paths, texts and numbers ---

#[test]
fn paths_come_apart() {
    assert_eq!(file_name(r"C:\a\b.tar.gz").as_deref(), Some("b.tar.gz"));
    assert_eq!(file_stem(r"C:\a\b.tar.gz").as_deref(), Some("b.tar"));
    assert_eq!(extension(r"C:\a\b.tar.gz").as_deref(), Some("gz"));
    assert_eq!(extension(r"C:\a\.hidden"), None);
    assert_eq!(parent(r"C:\a\b"), Some(r"C:\a".to_string()));
    assert_eq!(parent(r"C:\"), None);
    assert_eq!(join(r"C:\a", "b"), r"C:\a\b");
    assert_eq!(with_file_name(r"C:\a\b.exe", "c.exe"), r"C:\a\c.exe");
    assert!(starts_with(r"c:\a\.\b\\c", "C:/a/b"));
    assert!(starts_with(r"C:\a", r"C:\"));
    assert!(!starts_with(r"C:\A\b", r"C:\a"));
    assert!(!starts_with(r"C:a", r"C:\a"));
    assert!(!starts_with(r"C:\a", r"C:\a\b"));
    assert!(starts_with(r"\\server\share\x", r"//server/share"));
    assert_eq!(with_extension(r"C:\a\b.exe", "exe.partial"), r"C:\a\b.exe.partial");
}

#[test]
fn texts_are_handled_as_std_handles_them() {
    for text in ["", "  a b ", "\u{a0}x\u{2003}\t", "a\u{200b}", "\u{85}\u{3000}y z\n"] {
        assert_eq!(trim(text), text.trim(), "{text:?}");
        assert_eq!(split_whitespace(text), text.split_whitespace().collect::<Vec<_>>());
    }
    for text in ["", "+", "0", "+7", "007", "-1", "4294967295", "4294967296", "1a", " 1"] {
        let parsed = parse_number(text, u32::MAX as u64).map(|n| n as u32);
        assert_eq!(parsed, text.parse::<u32>().ok(), "{text:?}");
    }
    for n in [0, -1, 42, i64::MIN, i64::MAX] {
        assert_eq!(to_signed(n), n.to_string());
    }
}

/// Numbers are narrowed, widened and ordered as the machine does it.
#[test]
fn numbers_change_their_width_as_the_machine_does() {
    let mut bits: u64 = 1;
    for step in 0..20_000u64 {
        bits = bits.wrapping_mul(6_364_136_223_846_793_005).wrapping_add(step);
        for value in [f64::from_bits(bits), f64::from_bits(bits) * 1e-300, (bits as f64) / 7.0] {
            if value.is_nan() {
                continue;
            }
            let double = Double { bits: value.to_bits() };
            assert_eq!(Single::of_double(double).bits, (value as f32).to_bits(), "{value}");
            let single = value as f32;
            let widened = Single { bits: single.to_bits() }.widened();
            assert_eq!(widened.bits, f64::from(single).to_bits(), "{single}");
            assert!(double.at_least(Double { bits: 80.0f64.to_bits() }) == (value >= 80.0));
        }
        assert_eq!(Single::of_u64(bits).bits, (bits as f32).to_bits(), "{bits}");
        let signed = bits as i64;
        if signed < 0 {
            assert_eq!(Single::of_negative(signed).bits, (signed as f32).to_bits(), "{signed}");
        }
    }
}
