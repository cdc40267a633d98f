use mh_monitoring::cli::parse_args;
use mh_monitoring::cli::provider_choice;
use mh_monitoring::cli::Args;
use mh_monitoring::cli::Command;
use mh_monitoring::cli::ProviderChoice;
use mh_monitoring::cli::Target;
use mh_monitoring::cli::EXIT_ACCESS_DENIED;
use mh_monitoring::cli::EXIT_NO_FRAMES;
use mh_monitoring::cli::EXIT_SUCCESS;
use mh_monitoring::cli::EXIT_USAGE;
use mh_monitoring::collect::present_payload;
use mh_monitoring::collect::Chain;
use mh_monitoring::collect::Collector;
use mh_monitoring::collect::Guid;
use mh_monitoring::collect::ProviderKey;
use mh_monitoring::collect::Record;
use mh_monitoring::collect::D3D9;
use mh_monitoring::collect::D3D9_PRESENT_START_ID;
use mh_monitoring::collect::DXGI;
use mh_monitoring::collect::DXGI_PRESENT_START_ID;
use mh_monitoring::etw::enable_level;
use mh_monitoring::etw::final_stats;
use mh_monitoring::etw::found_orphans;
use mh_monitoring::etw::opened;
use mh_monitoring::etw::provider_d3d9;
use mh_monitoring::etw::provider_dxgi;
use mh_monitoring::etw::request_stop;
use mh_monitoring::etw::session_properties;
use mh_monitoring::etw::start_step;
use mh_monitoring::etw::stop_requested;
use mh_monitoring::etw::sweep_orphans;
use mh_monitoring::etw::BufferConfig;
use mh_monitoring::etw::Shutdown;
use mh_monitoring::etw::StartError;
use mh_monitoring::etw::StartStep;
use mh_monitoring::measure::after_enabling;
use mh_monitoring::measure::after_opening;
use mh_monitoring::measure::after_start;
use mh_monitoring::measure::after_target;
use mh_monitoring::measure::beginning_line;
use mh_monitoring::measure::chosen_providers;
use mh_monitoring::measure::dominant;
use mh_monitoring::measure::list_processes;
use mh_monitoring::measure::measured_gaps;
use mh_monitoring::measure::report;
use mh_monitoring::measure::report_sweep;
use mh_monitoring::measure::resolve_target;
use mh_monitoring::measure::session_name;
use mh_monitoring::measure::truncate;
use mh_monitoring::measure::Averages;
use mh_monitoring::measure::Figures;
use mh_monitoring::measure::Line;
use mh_monitoring::measure::Next;
use mh_monitoring::measure::Opening;
use mh_monitoring::measure::ProcessRow;
use mh_monitoring::measure::Progress;
use mh_monitoring::measure::Tick;
use mh_monitoring::measure::SECOND;
use mh_monitoring::number::Single;
use mh_monitoring::procs::find_by_name;
use mh_monitoring::procs::foreground_process;
use mh_monitoring::procs::name_by_pid;
use mh_monitoring::procs::ProcessInfo;
use mh_monitoring::ranking::rank;
use mh_monitoring::stats::compute;
use mh_monitoring::sys::from_wide;
use mh_monitoring::sys::qpc_frequency;
use mh_monitoring::sys::wide;
use mh_monitoring::sys::PropsBuffer;
use mh_monitoring::sys::Win32Error;
use mh_monitoring::table::Table;

fn texts(list: &[&str]) -> Vec<String> {
    list.iter().map(|text| text.to_string()).collect()
}

fn process(pid: u32, name: &str) -> ProcessInfo {
    ProcessInfo { pid, name: name.into() }
}

fn singles(values: &[f32]) -> Vec<Single> {
    values.iter().map(|value| Single { bits: value.to_bits() }).collect()
}

fn constant(count: usize, ms: f32) -> Vec<f32> {
    vec![ms; count]
}

// --- the summary of frames ---

#[test]
fn invalid_samples_are_rejected_not_propagated() {
    let sample = compute(&singles(&[16.0, f32::NAN, -1.0, 0.0, f32::INFINITY, 16.0])).unwrap();
    assert_eq!(sample.times.len(), 2);
    assert_eq!(sample.rejected, 4);
}

#[test]
fn empty_input_has_no_statistics() {
    assert!(compute(&Vec::new()).is_none());
    assert!(compute(&singles(&[f32::NAN, 0.0])).is_none());
}

#[test]
fn one_percent_low_needs_one_hundred_samples() {
    assert!(compute(&singles(&constant(99, 16.0))).unwrap().low_1_percent.is_none());
    assert!(compute(&singles(&constant(100, 16.0))).unwrap().low_1_percent.is_some());
    assert!(compute(&singles(&constant(101, 16.0))).unwrap().low_1_percent.is_some());
}

#[test]
fn zero_point_one_percent_low_needs_one_thousand_samples() {
    assert!(compute(&singles(&constant(999, 16.0))).unwrap().low_0_1_percent.is_none());
    assert!(compute(&singles(&constant(1000, 16.0))).unwrap().low_0_1_percent.is_some());
    assert!(compute(&singles(&constant(1001, 16.0))).unwrap().low_0_1_percent.is_some());
}

#[test]
fn the_lows_are_of_the_slowest_frames() {
    let mut frames = constant(99, 10.0);
    frames.insert(3, 100.0);
    let sample = compute(&singles(&frames)).unwrap();
    assert_eq!(sample.low_1_percent, Some(1));
    assert_eq!(f32::from_bits(sample.times[99].bits), 100.0);
    assert_eq!(compute(&singles(&constant(700, 10.0))).unwrap().low_1_percent, Some(7));
    assert_eq!(compute(&singles(&constant(701, 10.0))).unwrap().low_1_percent, Some(8));
    assert_eq!(compute(&singles(&constant(2_001, 10.0))).unwrap().low_0_1_percent, Some(3));
}

#[test]
fn frames_are_put_in_order() {
    let times: Vec<f32> = (0..500).map(|i| ((i * 7919) % 503 + 1) as f32 / 7.0).collect();
    let sample = compute(&singles(&times)).unwrap();
    let mut expected = times.clone();
    expected.sort_by(|a, b| a.partial_cmp(b).unwrap());
    let sorted: Vec<f32> = sample.times.iter().map(|time| f32::from_bits(time.bits)).collect();
    assert_eq!(sorted, expected);
}

// --- the collector ---

fn present(pid: u32, timestamp: i64, chain: u64, flags: u32) -> Record {
    let mut data = chain.to_le_bytes().to_vec();
    data.extend(flags.to_le_bytes());
    Record {
        provider: ProviderKey(DXGI),
        pid,
        id: DXGI_PRESENT_START_ID,
        version: 0,
        opcode: 1,
        timestamp,
        data,
    }
}

fn collector(keep_test_presents: bool) -> Collector {
    Collector::new(
        Some(7),
        10_000_000,
        DXGI_PRESENT_START_ID,
        D3D9_PRESENT_START_ID,
        keep_test_presents,
    )
}

#[test]
fn gaps_between_presents_are_frames() {
    let mut collector = collector(false);
    assert_eq!(
        collector.on_event(&present(7, 100, 1, 0)).as_deref(),
        Some("[consumer] первое событие доставлено")
    );
    assert_eq!(collector.on_event(&present(7, 160_100, 1, 0)), None);
    collector.on_event(&present(7, 330_100, 1, 0));
    collector.on_event(&present(7, 400_000, 2, 0));
    collector.on_event(&present(8, 500_000, 1, 0));
    assert_eq!(collector.total_events(), 5);
    assert_eq!(collector.target_events(), 4);
    assert_eq!(collector.frames_so_far(), 2);
    let at = collector.state.chains.find(&1).unwrap();
    assert_eq!(collector.state.chains.entries[at].1.frames, [160_000, 170_000]);
    assert_eq!(dominant(&collector.state), Some(at));
}

#[test]
fn test_calls_make_no_frames() {
    let mut counting = collector(false);
    counting.on_event(&present(7, 100, 1, 0));
    counting.on_event(&present(7, 200, 1, 1));
    counting.on_event(&present(7, 300, 1, 0));
    assert_eq!(counting.frames_so_far(), 1);
    assert_eq!(counting.state.filtered_test_presents, 1);
    let mut keeping = collector(true);
    keeping.on_event(&present(7, 100, 1, 0));
    keeping.on_event(&present(7, 200, 1, 1));
    keeping.on_event(&present(7, 300, 1, 0));
    assert_eq!(keeping.frames_so_far(), 2);
}

#[test]
fn a_present_without_a_chain_is_counted_apart() {
    let mut collector = collector(false);
    let mut record = present(7, 100, 1, 0);
    record.data.truncate(7);
    assert!(present_payload(&record).is_none());
    collector.on_event(&record);
    assert_eq!(collector.state.presents_without_chain, 1);
    let mut short = present(7, 100, 0x0102_0304_0506_0708, 3);
    short.data.truncate(11);
    let payload = present_payload(&short).unwrap();
    assert_eq!((payload.chain, payload.flags), (0x0102_0304_0506_0708, None));
}

#[test]
fn buffers_tell_of_losses() {
    let mut collector = collector(false);
    let (line, goes_on) = collector.on_buffer(65_536, 100, 3, 1, false);
    assert_eq!(
        line.as_deref(),
        Some("[consumer] первый буфер доставлен: размер 64 КБ, заполнено 100 байт")
    );
    assert_eq!(goes_on, 1);
    assert_eq!(collector.on_buffer(65_536, 100, 2, 5, true), (None, 0));
    assert_eq!((collector.events_lost(), collector.buffers_read()), (3, 5));
}

#[test]
fn providers_have_labels() {
    let guid = Guid {
        data1: 0xca11_c036,
        data2: 0x0102,
        data3: 0x4a2d,
        data4: [0xa6, 0xad, 0xf0, 0x3c, 0xfe, 0xd5, 0xd3, 0xc9],
    };
    assert_eq!(ProviderKey::from_guid(&guid), ProviderKey(DXGI));
    assert_eq!(ProviderKey(DXGI).label(), "DXGI");
    assert_eq!(ProviderKey(D3D9).label(), "D3D9");
    assert_eq!(
        ProviderKey(0x0123_4567_89ab_cdef_0011_2233_4455_6677).label(),
        "01234567-89ab-cdef-0011223344556677"
    );
    let collector = collector(false);
    assert_eq!(collector.present_start_id(ProviderKey(D3D9)), Some(D3D9_PRESENT_START_ID));
    assert_eq!(collector.present_start_id(ProviderKey(5)), None);
}

// --- the session ---

#[test]
fn the_session_is_stopped_once() {
    let mut shutdown = Shutdown::new();
    shutdown.set_active(&wide("MHMonitorSpike-1"));
    shutdown.set_active(&wide("other"));
    shutdown.started();
    let (name, handled) = shutdown.on_console_event(2);
    assert_eq!(from_wide(&name.unwrap()), "MHMonitorSpike-1");
    assert_eq!(handled, 0);
    assert!(stop_requested(&shutdown));
    assert_eq!(shutdown.on_console_event(0), (None, 1));
    assert!(!shutdown.claim_stop());
    assert_eq!(shutdown.stop_active_once(), (false, None));
    let mut other = Shutdown::new();
    request_stop(&mut other);
    assert!(stop_requested(&other) && other.claim_stop());
}

#[test]
fn sessions_that_were_left_behind_are_found() {
    let buffer = |name: &str| -> PropsBuffer {
        session_properties(&wide(name), BufferConfig::default())
    };
    let buffers = vec![buffer("MHMonitorSpike-1"), buffer("Other"), buffer("MHMonitor-2")];
    assert_eq!(
        found_orphans(0, 3, &buffers, "MHMonitor-2").unwrap(),
        ["MHMonitorSpike-1"]
    );
    assert_eq!(found_orphans(234, 3, &buffers, "").unwrap().len(), 2);
    assert_eq!(found_orphans(0, 1, &buffers, "").unwrap().len(), 1);
    assert_eq!(found_orphans(5, 0, &buffers, ""), Err(5));
}

#[test]
fn a_sweep_is_told() {
    let sweep = sweep_orphans(Ok(texts(&["MHMonitor-1", "MHMonitor-2"])), 9, &vec![0, 5]);
    assert_eq!(sweep.stopped, ["MHMonitor-1"]);
    assert_eq!(sweep.failed, [("MHMonitor-2".to_string(), 5)]);
    let lines = report_sweep(&sweep, "", &texts(&["Отказано"]));
    assert_eq!(
        lines[0],
        Line::Note(
            "[cleanup] сессий в системе: 9, осиротевших «MHMonitor*» остановлено: 1".into()
        )
    );
    let refused = sweep_orphans(Err(5), 0, &Vec::new());
    assert_eq!(refused.query_error, Some(5));
    assert_eq!(report_sweep(&refused, "Отказано", &Vec::new()).len(), 1);
}

#[test]
fn properties_hold_the_name_and_the_buffers() {
    let config =
        BufferConfig { buffer_kb: 64, min_buffers: 4, max_buffers: 70_000, flush_seconds: 1 };
    let mut buffer = session_properties(&wide("MHMonitorSpike-42"), config);
    assert_eq!(buffer.logger_name(), "MHMonitorSpike-42");
    assert_eq!(buffer.number(28), 70_000);
    assert_eq!(buffer.byte_len(), 2168);
    buffer.set_number(44, 17);
    assert_eq!(final_stats(0, &buffer).unwrap().events_lost, 17);
    assert_eq!(final_stats(5, &buffer), None);
    let long = "я".repeat(2_000);
    let buffer = session_properties(&wide(&long), config);
    assert!(long.starts_with(&buffer.logger_name()));
}

#[test]
fn a_start_is_tried_twice() {
    assert_eq!(start_step(0, false), StartStep::Started);
    assert_eq!(start_step(183, false), StartStep::Retry);
    assert_eq!(start_step(183, true), StartStep::Failed(StartError::Other(183)));
    assert_eq!(start_step(5, false), StartStep::Failed(StartError::AccessDenied));
    assert_eq!(opened(u64::MAX, 6), Err(6));
    assert_eq!(opened(3, 6), Ok(3));
    let (_, next) = after_start(Some(StartError::AccessDenied), "", "x");
    assert_eq!(next, Next::Exit(EXIT_ACCESS_DENIED));
    assert_eq!(after_start(None, "", "x").1, Next::Go);
    assert_eq!(StartError::Other(87).describe("Нет\r\n"), "Нет (код 87)");
    assert!(StartError::AccessDenied.describe("").contains("Performance Log Users"));
}

#[test]
fn providers_are_enabled_with_their_levels() {
    assert_eq!(enable_level(&provider_dxgi(), None), 255);
    assert_eq!(enable_level(&provider_d3d9(), Some(4)), 4);
    assert_eq!(chosen_providers(ProviderChoice::Both).len(), 2);
    let one = chosen_providers(ProviderChoice::D3d9Only);
    assert_eq!(one[0].label, "D3D9");
    let (lines, next) = after_enabling(&one, &vec![0], &texts(&[""]));
    assert_eq!(next, Next::Go);
    assert_eq!(lines, [Line::Note("провайдеры: D3D9".into())]);
    let (_, next) = after_enabling(&one, &vec![5], &texts(&["Отказано"]));
    assert_ne!(next, Next::Go);
    assert_eq!(after_opening(Opening::Opened, "").1, Next::Go);
}

#[test]
fn texts_go_to_utf16_and_back() {
    for text in ["", "abc", "Видяха 🎮", "a\u{ffff}"] {
        let units = wide(text);
        assert_eq!(units, text.encode_utf16().chain([0]).collect::<Vec<u16>>());
        assert_eq!(from_wide(&units), text);
    }
    for units in [vec![0x41, 0xd83c], vec![0xdc00, 0x42, 0, 0x43], vec![0xd83c, 0xd83c, 0xdfae]] {
        let end = units.iter().position(|unit| *unit == 0).unwrap_or(units.len());
        assert_eq!(from_wide(&units), String::from_utf16_lossy(&units[..end]));
    }
    assert_eq!(from_wide(&wide("a\0b")), "a");
    assert_eq!(from_wide(&wide("\0")), "");
    assert_eq!(Win32Error(5).describe(""), "код 5");
    assert_eq!(qpc_frequency(false, 3), 10_000_000);
    assert_eq!(qpc_frequency(true, 3), 3);
}

// --- arguments ---

#[test]
fn arguments_are_read() {
    let Ok(Command::Measure(args)) = parse_args(&texts(&[
        "--pid", "42", "--seconds", "0", "--label", "x", "--only", "DXGI", "--level", "4",
        "--buffer-kb", "64", "--keep-test-presents",
    ])) else {
        panic!("not read")
    };
    assert_eq!(args.target, Target::Pid(42));
    assert_eq!(args.seconds, 0);
    assert_eq!(args.providers, ProviderChoice::DxgiOnly);
    assert_eq!(args.level, Some(4));
    assert_eq!(args.buffers.buffer_kb, 64);
    assert!(args.keep_test_presents);
    assert_eq!(provider_choice("opengl").unwrap_err(), "--only принимает dxgi или d3d9, а не opengl");
    assert_eq!(parse_args(&texts(&["--pid", "x"])), Err("не PID: x".to_string()));
    assert_eq!(parse_args(&texts(&["--pid"])), Err("--pid требует значение".to_string()));
    assert_eq!(parse_args(&texts(&["--help"])), Ok(Command::Help));
    assert!(parse_args(&texts(&["--nonsense"])).is_err());
}

#[test]
fn the_window_in_front_has_a_delay() {
    let target = |list: &[&str]| match parse_args(&texts(list)) {
        Ok(Command::Measure(args)) => args.target,
        other => panic!("{other:?}"),
    };
    assert_eq!(target(&["--foreground", "3"]), Target::Foreground(3));
    assert_eq!(target(&["--foreground"]), Target::Foreground(5));
    assert_eq!(target(&["--foreground", "--seconds", "1"]), Target::Foreground(5));
}

// --- the target ---

#[test]
fn a_target_is_found_by_its_name() {
    let list = vec![process(1, "game.exe"), process(2, "Game2.exe"), process(3, "x.exe")];
    let found = |name: &str| resolve_target(&Target::Name(name.into()), &list, &None);
    assert_eq!(found("GAME2"), Ok(Some(process(2, "Game2.exe"))));
    assert!(found("game").unwrap_err().contains("укажите --pid"));
    assert_eq!(found("y").unwrap_err(), "процесс с именем, содержащим «y», не найден");
    assert_eq!(after_target(&found("y")).1, Next::Exit(EXIT_USAGE));
    assert_eq!(
        resolve_target(&Target::Pid(9), &list, &None),
        Ok(Some(process(9, "?")))
    );
    assert_eq!(resolve_target(&Target::All, &list, &None), Ok(None));
    assert!(resolve_target(&Target::Foreground(1), &list, &None).is_err());
    assert_eq!(find_by_name(&list, "GAME").len(), 2);
    assert_eq!(name_by_pid(&list).get(&3).map(String::as_str), Some("x.exe"));
}

#[test]
fn the_window_in_front_has_a_process() {
    let list = vec![process(5, "game.exe")];
    let front = foreground_process(&Some((5, wide("Игра"))), &list);
    assert_eq!(front, Some((process(5, "game.exe"), "Игра".to_string())));
    assert_eq!(foreground_process(&Some((0, wide("x"))), &list), None);
    assert_eq!(foreground_process(&None, &list), None);
    let unknown = foreground_process(&Some((6, wide(""))), &list).unwrap();
    assert_eq!(unknown.0.name, "?");
}

#[test]
fn processes_are_listed_by_name() {
    let list = vec![process(30, "b.exe"), process(4, "A.exe"), process(2, "b.exe")];
    let lines = list_processes(&list, &None);
    assert_eq!(lines, [
        "     PID  ИМЯ",
        "       4  A.exe",
        "       2  b.exe",
        "      30  b.exe",
        "\nвсего: 3"
    ]);
    assert_eq!(list_processes(&list, &Some("a.".into())).len(), 3);
}

// --- the run ---

#[test]
fn a_run_ticks_every_second() {
    let mut progress = Progress::new();
    assert_eq!(progress.tick(SECOND / 2, 10, false, 5), Tick::Wait);
    assert_eq!(progress.tick(SECOND, 10, false, 60), Tick::Show(60));
    assert_eq!(progress.tick(2 * SECOND + 1, 10, false, 100), Tick::Show(40));
    assert_eq!(progress.tick(10 * SECOND, 10, false, 500), Tick::Done);
    assert_eq!(progress.tick(10 * SECOND, 0, true, 500), Tick::Interrupted);
    assert_eq!(session_name(42), "MHMonitorSpike-42");
    assert!(beginning_line(&Some(process(5, "game.exe")), 10).contains("game.exe"));
    assert_eq!(truncate("длинное имя", 5).chars().count(), 5);
    assert_eq!(truncate("имя", 5), "имя");
}

fn figures(fps: &str) -> Figures {
    let averages = Averages {
        fps: fps.into(),
        ms: "16.00".into(),
        min_ms: "15.00".into(),
        max_ms: "17.00".into(),
        low_1_percent: "58.8".into(),
        low_0_1_percent: "58.7".into(),
    };
    Figures { duration: "10.0".into(), averages, csv_error: None }
}

fn texts_of(lines: &[Line]) -> Vec<&str> {
    lines
        .iter()
        .filter_map(|line| match line {
            Line::Text(text) | Line::Note(text) => Some(text.as_str()),
            Line::Rate { .. } => None,
        })
        .collect()
}

#[test]
fn the_report_tells_of_frames() {
    let target = Some(process(7, "game.exe"));
    let mut collector = collector(false);
    let args = Args::default();
    let (lines, code) = report(
        &args,
        &target,
        &collector,
        &None,
        &figures("62.5"),
        &vec![process(7, "game.exe")],
    );
    assert_eq!(code, EXIT_NO_FRAMES);
    assert_eq!(texts_of(&lines).last(), Some(&"| ? | game.exe | — | 0 | — | нет |"));
    for i in 0..4 {
        collector.on_event(&present(7, 100 + i * 160_000, 1, 0));
    }
    let (lines, code) =
        report(&args, &target, &collector, &None, &figures("62.5"), &Vec::new());
    assert_eq!(code, EXIT_SUCCESS);
    let shown = texts_of(&lines);
    assert!(shown.contains(&"кадров (дельт)    : 3"));
    assert!(shown.contains(&"средний FPS       : 62.5"));
    assert!(shown.contains(&"1 % low, FPS      : выборка мала (нужно 100 кадров)"));
    assert!(shown.contains(&"0.1 % low, FPS    : выборка мала (нужно 1000 кадров)"));
    assert_eq!(shown.last(), Some(&"| ? | game.exe | DXGI | 3 | 62.5 | да |"));
    assert_eq!(
        report(&args, &None, &collector, &None, &figures(""), &Vec::new()).1,
        EXIT_SUCCESS
    );
}

#[test]
fn the_report_is_of_the_leading_chain_alone() {
    let target = Some(process(7, "g.exe"));
    let mut collector = collector(false);
    for (timestamp, chain) in
        [(0, 1), (10, 2), (100_010, 2), (200_010, 2), (300_000, 1), (5, 3), (300_005, 3)]
    {
        collector.on_event(&present(7, timestamp, chain, 0));
    }
    assert_eq!(measured_gaps(&collector), [100_000, 100_000]);
    let mut args = Args::default();
    args.label = Some("D3D12".into());
    let (lines, code) =
        report(&args, &target, &collector, &None, &figures("100.0"), &Vec::new());
    assert_eq!(code, EXIT_SUCCESS);
    assert_eq!(texts_of(&lines).last(), Some(&"| D3D12 | g.exe | DXGI | 2 | 100.0 | да |"));
}

/// A chain as it is filled in by hand, without a provider.
fn chain(presents: u64, frames: Vec<i64>) -> Chain {
    Chain { presents, frames, ..Chain::default() }
}

#[test]
fn chains_without_a_provider_are_reported() {
    let target = Some(process(7, "g.exe"));
    let mut collector = Collector::new(Some(7), 10_000_000, 42, 1, false);
    collector.state.chains.entries = vec![
        (1, chain(2, vec![300_000])),
        (2, chain(3, vec![100_000, 100_000])),
        (3, chain(2, vec![300_000])),
    ];
    assert_eq!(measured_gaps(&collector), [100_000, 100_000]);
    assert_eq!(collector.frames_so_far(), 4);
    let mut args = Args::default();
    args.label = Some("D3D12".into());
    let (lines, code) =
        report(&args, &target, &collector, &None, &figures("100.0"), &Vec::new());
    assert_eq!(code, EXIT_SUCCESS);
    let shown = texts_of(&lines);
    assert!(shown.contains(&"ведущая цепочка   : 0x2 (?), Present-событий 3"));
    assert!(!shown.iter().any(|line| line.starts_with("отброшено значений")));
    assert_eq!(shown.last(), Some(&"| D3D12 | g.exe | ? | 2 | 100.0 | да |"));
    collector.on_event(&present(7, 500, 2, 0));
    collector.on_event(&present(7, 700, 2, 0));
    let (_, chain) = &collector.state.chains.entries[1];
    assert_eq!((chain.presents, chain.provider), (5, Some(ProviderKey(DXGI))));
    assert_eq!(chain.frames, [100_000, 100_000, 200]);
}

#[test]
fn gaps_that_are_no_time_are_rejected() {
    let target = Some(process(7, "g.exe"));
    let mut collector = collector(false);
    collector.state.chains.entries = vec![(9, chain(5, vec![100_000, 0, -3, 100_000]))];
    let args = Args::default();
    let (lines, code) =
        report(&args, &target, &collector, &None, &figures("100.0"), &Vec::new());
    assert_eq!(code, EXIT_SUCCESS);
    let shown = texts_of(&lines);
    assert!(shown.contains(&"кадров (дельт)    : 2"));
    assert!(shown.contains(&"отброшено значений: 2"));
    assert_eq!(shown.last(), Some(&"| ? | g.exe | ? | 2 | 100.0 | да |"));
    collector.state.chains.entries = vec![(9, chain(5, vec![0, -3]))];
    let (lines, code) =
        report(&args, &target, &collector, &None, &figures("100.0"), &Vec::new());
    assert_eq!(code, EXIT_NO_FRAMES);
    assert_eq!(texts_of(&lines).last(), Some(&"| ? | g.exe | ? | 0 | — | нет |"));
}

#[test]
fn a_leading_chain_without_frames_gives_none() {
    let target = Some(process(7, "g.exe"));
    let mut collector = collector(false);
    collector.on_event(&present(7, 10, 1, 0));
    assert!(measured_gaps(&collector).is_empty());
    let (lines, code) =
        report(&Args::default(), &target, &collector, &None, &figures("100.0"), &Vec::new());
    assert_eq!(code, EXIT_NO_FRAMES);
    assert_eq!(texts_of(&lines).last(), Some(&"| ? | g.exe | DXGI | 0 | — | нет |"));
}

#[test]
fn lows_are_shown_with_frames_enough() {
    let mut collector = collector(false);
    for i in 0..101 {
        collector.on_event(&present(7, 1 + i * 160_000, 1, 0));
    }
    let target = Some(process(7, "g.exe"));
    let (lines, _) =
        report(&Args::default(), &target, &collector, &None, &figures("62.5"), &Vec::new());
    let shown = texts_of(&lines);
    assert!(shown.contains(&"1 % low, FPS      : 58.8"));
    assert!(shown.contains(&"0.1 % low, FPS    : выборка мала (нужно 1000 кадров)"));
}

#[test]
fn tables_keep_their_keys_in_order() {
    let mut table: Table<u32, u64> = Table::new();
    for key in [5, 1, 3, 1] {
        table.tally(key);
    }
    assert_eq!(table.entries, [(1, 2), (3, 1), (5, 1)]);
    assert_eq!(table.find(&3), Some(1));
    assert_eq!(table.find(&4), None);
    *table.entry(4, 7) += 1;
    assert_eq!(table.entries[2], (4, 8));
}

#[test]
fn the_heaviest_comes_first() {
    let rows = [(1, 10), (5, 11), (1, 12), (5, 13)];
    let rows = rows
        .iter()
        .map(|(total, pid)| ProcessRow { pid: *pid, total: *total, kinds: Vec::new() })
        .collect();
    let order: Vec<u32> = rank(rows).into_iter().map(|row| row.pid).collect();
    assert_eq!(order, [11, 13, 10, 12]);
}
