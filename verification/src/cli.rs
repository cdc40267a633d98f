//! The command line of the tool that measures frames.

use vstd::prelude::*;

use crate::collect::D3D9_PRESENT_START_ID;
use crate::collect::DXGI_PRESENT_START_ID;
use crate::etw::BufferConfig;
use crate::paths::text_of;
use crate::text::parse_number;
use crate::text::same_text;
use crate::text::starts_with;
use crate::text::to_lowercase;
use crate::text::views;

verus! {

pub const EXIT_SUCCESS: u8 = 0;

pub const EXIT_ERROR: u8 = 1;

pub const EXIT_USAGE: u8 = 2;

pub const EXIT_NO_FRAMES: u8 = 3;

pub const EXIT_ACCESS_DENIED: u8 = 4;

/// What to measure.
#[derive(Debug, PartialEq)]
pub enum Target {
    Pid(u32),
    Name(String),
    /// The process of the window in front, after so many seconds.
    Foreground(u64),
    All,
}

pub enum TargetView {
    Pid(u32),
    Name(Seq<char>),
    Foreground(u64),
    All,
}

impl View for Target {
    type V = TargetView;

    open spec fn view(&self) -> TargetView {
        match self {
            Target::Pid(pid) => TargetView::Pid(*pid),
            Target::Name(name) => TargetView::Name(name@),
            Target::Foreground(delay) => TargetView::Foreground(*delay),
            Target::All => TargetView::All,
        }
    }
}

#[derive(Clone, Copy, PartialEq, Eq, Debug, Structural)]
pub enum ProviderChoice {
    Both,
    DxgiOnly,
    D3d9Only,
}

#[derive(Debug, PartialEq)]
pub struct Args {
    pub target: Target,
    pub seconds: u64,
    pub label: Option<String>,
    pub csv: Option<String>,
    pub top: usize,
    pub dxgi_id: u16,
    pub d3d9_id: u16,
    pub buffers: BufferConfig,
    pub level: Option<u8>,
    pub providers: ProviderChoice,
    pub keep_test_presents: bool,
}

#[verifier::ext_equal]
pub struct ArgsView {
    pub target: TargetView,
    pub seconds: u64,
    pub label: Option<Seq<char>>,
    pub csv: Option<Seq<char>>,
    pub top: usize,
    pub dxgi_id: u16,
    pub d3d9_id: u16,
    pub buffers: BufferConfig,
    pub level: Option<u8>,
    pub providers: ProviderChoice,
    pub keep_test_presents: bool,
}

impl View for Args {
    type V = ArgsView;

    open spec fn view(&self) -> ArgsView {
        ArgsView {
            target: self.target@,
            seconds: self.seconds,
            label: text_of(self.label),
            csv: text_of(self.csv),
            top: self.top,
            dxgi_id: self.dxgi_id,
            d3d9_id: self.d3d9_id,
            buffers: self.buffers,
            level: self.level,
            providers: self.providers,
            keep_test_presents: self.keep_test_presents,
        }
    }
}

#[derive(Debug, PartialEq)]
pub enum Command {
    Measure(Args),
    List(Option<String>),
    SweepOnly,
    Help,
}

pub enum CommandView {
    Measure(ArgsView),
    List(Option<Seq<char>>),
    SweepOnly,
    Help,
}

impl View for Command {
    type V = CommandView;

    open spec fn view(&self) -> CommandView {
        match self {
            Command::Measure(args) => CommandView::Measure(args@),
            Command::List(filter) => CommandView::List(text_of(*filter)),
            Command::SweepOnly => CommandView::SweepOnly,
            Command::Help => CommandView::Help,
        }
    }
}

/// What is measured where nothing is said: the process of the window in front after five
/// seconds, for twenty seconds.
pub open spec fn plain_args() -> ArgsView {
    ArgsView {
        target: TargetView::Foreground(5),
        seconds: 20,
        label: None,
        csv: None,
        top: 20,
        dxgi_id: DXGI_PRESENT_START_ID,
        d3d9_id: D3D9_PRESENT_START_ID,
        buffers: BufferConfig { buffer_kb: 0, min_buffers: 0, max_buffers: 0, flush_seconds: 0 },
        level: None,
        providers: ProviderChoice::Both,
        keep_test_presents: false,
    }
}

impl Default for Args {
    fn default() -> (r: Args)
        ensures
            r@ == plain_args(),
    {
        Args {
            target: Target::Foreground(5),
            seconds: 20,
            label: None,
            csv: None,
            top: 20,
            dxgi_id: DXGI_PRESENT_START_ID,
            d3d9_id: D3D9_PRESENT_START_ID,
            buffers: BufferConfig::default(),
            level: None,
            providers: ProviderChoice::Both,
            keep_test_presents: false,
        }
    }
}

/// The arguments that want a value behind them.
pub open spec fn wants_value(flag: Seq<char>) -> bool {
    ||| flag == "--pid"@
    ||| flag == "--name"@
    ||| flag == "--seconds"@
    ||| flag == "--label"@
    ||| flag == "--csv"@
    ||| flag == "--top"@
    ||| flag == "--dxgi-id"@
    ||| flag == "--d3d9-id"@
    ||| flag == "--buffer-kb"@
    ||| flag == "--min-buffers"@
    ||| flag == "--max-buffers"@
    ||| flag == "--flush"@
    ||| flag == "--level"@
    ||| flag == "--only"@
}

/// A number up to a limit, or what is said of a text that is none.
pub open spec fn numeric(value: Seq<char>, max: nat) -> Result<nat, Seq<char>> {
    match crate::text::number(value, max) {
        Some(n) => Ok(n),
        None => Err("не число: "@ + value),
    }
}

/// The providers that a word in lower case stands for.
pub open spec fn providers_named(word: Seq<char>) -> Result<ProviderChoice, Seq<char>> {
    if word == "dxgi"@ {
        Ok(ProviderChoice::DxgiOnly)
    } else if word == "d3d9"@ {
        Ok(ProviderChoice::D3d9Only)
    } else {
        Err("--only принимает dxgi или d3d9, а не "@ + word)
    }
}

pub open spec fn error_view<T>(r: Result<T, String>) -> Result<T, Seq<char>> {
    match r {
        Ok(value) => Ok(value),
        Err(message) => Err(message@),
    }
}

pub fn provider_choice(word: &str) -> (r: Result<ProviderChoice, String>)
    ensures
        error_view(r) == providers_named(word@),
{
    if same_text(word, "dxgi") {
        Ok(ProviderChoice::DxgiOnly)
    } else if same_text(word, "d3d9") {
        Ok(ProviderChoice::D3d9Only)
    } else {
        let mut message = "--only принимает dxgi или d3d9, а не ".to_string();
        message.append(word);
        Err(message)
    }
}

/// The arguments after one that wants a value, and its value.
pub open spec fn with_value(
    args: ArgsView,
    flag: Seq<char>,
    value: Seq<char>,
) -> Result<ArgsView, Seq<char>> {
    if flag == "--pid"@ {
        match crate::text::number(value, u32::MAX as nat) {
            Some(n) => Ok(ArgsView { target: TargetView::Pid(n as u32), ..args }),
            None => Err("не PID: "@ + value),
        }
    } else if flag == "--name"@ {
        Ok(ArgsView { target: TargetView::Name(value), ..args })
    } else if flag == "--label"@ {
        Ok(ArgsView { label: Some(value), ..args })
    } else if flag == "--csv"@ {
        Ok(ArgsView { csv: Some(value), ..args })
    } else if flag == "--only"@ {
        match providers_named(crate::text::lowercase(value)) {
            Ok(providers) => Ok(ArgsView { providers, ..args }),
            Err(message) => Err(message),
        }
    } else if flag == "--seconds"@ {
        match numeric(value, u64::MAX as nat) {
            Ok(n) => Ok(ArgsView { seconds: n as u64, ..args }),
            Err(message) => Err(message),
        }
    } else if flag == "--top"@ {
        match numeric(value, usize::MAX as nat) {
            Ok(n) => Ok(ArgsView { top: n as usize, ..args }),
            Err(message) => Err(message),
        }
    } else if flag == "--dxgi-id"@ {
        match numeric(value, u16::MAX as nat) {
            Ok(n) => Ok(ArgsView { dxgi_id: n as u16, ..args }),
            Err(message) => Err(message),
        }
    } else if flag == "--d3d9-id"@ {
        match numeric(value, u16::MAX as nat) {
            Ok(n) => Ok(ArgsView { d3d9_id: n as u16, ..args }),
            Err(message) => Err(message),
        }
    } else if flag == "--level"@ {
        match numeric(value, u8::MAX as nat) {
            Ok(n) => Ok(ArgsView { level: Some(n as u8), ..args }),
            Err(message) => Err(message),
        }
    } else {
        match numeric(value, u32::MAX as nat) {
            Ok(n) => Ok(ArgsView { buffers: with_figure(args.buffers, flag, n as u32), ..args }),
            Err(message) => Err(message),
        }
    }
}

/// The figures of the buffers after one of the arguments that set them.
pub open spec fn with_figure(buffers: BufferConfig, flag: Seq<char>, n: u32) -> BufferConfig {
    if flag == "--buffer-kb"@ {
        BufferConfig { buffer_kb: n, ..buffers }
    } else if flag == "--min-buffers"@ {
        BufferConfig { min_buffers: n, ..buffers }
    } else if flag == "--max-buffers"@ {
        BufferConfig { max_buffers: n, ..buffers }
    } else {
        BufferConfig { flush_seconds: n, ..buffers }
    }
}

fn numeric_value(value: &str, max: u64) -> (r: Result<u64, String>)
    ensures
        r matches Ok(n) ==> numeric(value@, max as nat) == Ok::<nat, Seq<char>>(n as nat) && n
            <= max,
        r matches Err(message) ==> numeric(value@, max as nat) == Err::<nat, Seq<char>>(message@),
{
    match parse_number(value, max) {
        Some(n) => Ok(n),
        None => {
            let mut message = "не число: ".to_string();
            message.append(value);
            Err(message)
        },
    }
}

/// Takes an argument with its value. What is wrong with the value is handed back.
fn set_value(args: &mut Args, flag: &str, value: &str) -> (r: Option<String>)
    ensures
        match with_value(old(args)@, flag@, value@) {
            Ok(next) => r is None && final(args)@ == next,
            Err(message) => text_of(r) == Some(message),
        },
{
    if same_text(flag, "--pid") {
        match parse_number(value, u32::MAX as u64) {
            Some(n) => {
                args.target = Target::Pid(n as u32);
                None
            },
            None => {
                let mut message = "не PID: ".to_string();
                message.append(value);
                Some(message)
            },
        }
    } else if same_text(flag, "--name") {
        args.target = Target::Name(value.to_string());
        None
    } else if same_text(flag, "--label") {
        args.label = Some(value.to_string());
        None
    } else if same_text(flag, "--csv") {
        args.csv = Some(value.to_string());
        None
    } else if same_text(flag, "--only") {
        match provider_choice(to_lowercase(value).as_str()) {
            Ok(providers) => {
                args.providers = providers;
                None
            },
            Err(message) => Some(message),
        }
    } else if same_text(flag, "--seconds") {
        match numeric_value(value, u64::MAX) {
            Ok(n) => {
                args.seconds = n;
                None
            },
            Err(message) => Some(message),
        }
    } else if same_text(flag, "--top") {
        match numeric_value(value, usize::MAX as u64) {
            Ok(n) => {
                args.top = n as usize;
                None
            },
            Err(message) => Some(message),
        }
    } else if same_text(flag, "--dxgi-id") {
        match numeric_value(value, u16::MAX as u64) {
            Ok(n) => {
                args.dxgi_id = n as u16;
                None
            },
            Err(message) => Some(message),
        }
    } else if same_text(flag, "--d3d9-id") {
        match numeric_value(value, u16::MAX as u64) {
            Ok(n) => {
                args.d3d9_id = n as u16;
                None
            },
            Err(message) => Some(message),
        }
    } else if same_text(flag, "--level") {
        match numeric_value(value, u8::MAX as u64) {
            Ok(n) => {
                args.level = Some(n as u8);
                None
            },
            Err(message) => Some(message),
        }
    } else {
        match numeric_value(value, u32::MAX as u64) {
            Ok(n) => {
                if same_text(flag, "--buffer-kb") {
                    args.buffers.buffer_kb = n as u32;
                } else if same_text(flag, "--min-buffers") {
                    args.buffers.min_buffers = n as u32;
                } else if same_text(flag, "--max-buffers") {
                    args.buffers.max_buffers = n as u32;
                } else {
                    args.buffers.flush_seconds = n as u32;
                }
                None
            },
            Err(message) => Some(message),
        }
    }
}

fn takes_value(flag: &str) -> (r: bool)
    ensures
        r == wants_value(flag@),
{
    same_text(flag, "--pid") || same_text(flag, "--name") || same_text(flag, "--seconds")
        || same_text(flag, "--label") || same_text(flag, "--csv") || same_text(flag, "--top")
        || same_text(flag, "--dxgi-id") || same_text(flag, "--d3d9-id") || same_text(
        flag,
        "--buffer-kb",
    ) || same_text(flag, "--min-buffers") || same_text(flag, "--max-buffers") || same_text(
        flag,
        "--flush",
    ) || same_text(flag, "--level") || same_text(flag, "--only")
}

pub open spec fn command_view(r: Result<Command, String>) -> Result<CommandView, Seq<char>> {
    match r {
        Ok(command) => Ok(command@),
        Err(message) => Err(message@),
    }
}

/// What some arguments ask for, on top of those that were read. The seconds behind
/// `--foreground` may be left out: another argument that follows it is not taken for them.
pub open spec fn command_of(args: ArgsView, rest: Seq<Seq<char>>) -> Result<CommandView, Seq<char>>
    decreases rest.len(),
{
    if rest.len() == 0 {
        Ok(CommandView::Measure(args))
    } else {
        let flag = rest[0];
        if flag == "-h"@ || flag == "--help"@ {
            Ok(CommandView::Help)
        } else if flag == "--sweep-only"@ {
            Ok(CommandView::SweepOnly)
        } else if flag == "--list"@ {
            Ok(
                CommandView::List(
                    if rest.len() > 1 {
                        Some(rest[1])
                    } else {
                        None
                    },
                ),
            )
        } else if flag == "--all"@ {
            command_of(ArgsView { target: TargetView::All, ..args }, rest.skip(1))
        } else if flag == "--keep-test-presents"@ {
            command_of(ArgsView { keep_test_presents: true, ..args }, rest.skip(1))
        } else if flag == "--foreground"@ {
            if rest.len() == 1 || crate::text::begins_with(rest[1], "-"@) {
                command_of(ArgsView { target: TargetView::Foreground(5), ..args }, rest.skip(1))
            } else {
                match crate::text::number(rest[1], u64::MAX as nat) {
                    Some(delay) => command_of(
                        ArgsView { target: TargetView::Foreground(delay as u64), ..args },
                        rest.skip(2),
                    ),
                    None => Err(
                        "после --foreground ожидались секунды, а не «"@ + rest[1] + "»"@,
                    ),
                }
            }
        } else if wants_value(flag) {
            if rest.len() == 1 {
                Err(flag + " требует значение"@)
            } else {
                match with_value(args, flag, rest[1]) {
                    Ok(next) => command_of(next, rest.skip(2)),
                    Err(message) => Err(message),
                }
            }
        } else {
            Err("неизвестный аргумент: "@ + flag)
        }
    }
}

/// Reads the arguments behind the program's name.
pub fn parse_args(argv: &Vec<String>) -> (r: Result<Command, String>)
    ensures
        command_view(r) == command_of(plain_args(), views(argv@)),
{
    let ghost all = views(argv@);
    let mut args = Args::default();
    let mut i: usize = 0;
    proof {
        assert(all.skip(0) =~= all);
    }
    while i < argv.len()
        invariant
            i <= argv.len(),
            all == views(argv@),
            command_of(args@, all.skip(i as int)) == command_of(plain_args(), all),
        decreases argv.len() - i,
    {
        let arg = argv[i].as_str();
        let more = i + 1 < argv.len();
        proof {
            let rest = all.skip(i as int);
            assert(rest[0] == arg@);
            assert(rest.skip(1) =~= all.skip(i + 1));
            if more {
                assert(rest[1] == argv@[i + 1]@);
                assert(rest.skip(2) =~= all.skip(i + 2));
            }
        }
        if same_text(arg, "-h") || same_text(arg, "--help") {
            return Ok(Command::Help);
        } else if same_text(arg, "--sweep-only") {
            return Ok(Command::SweepOnly);
        } else if same_text(arg, "--list") {
            let filter = if more {
                Some(argv[i + 1].clone())
            } else {
                None
            };
            return Ok(Command::List(filter));
        } else if same_text(arg, "--all") {
            args.target = Target::All;
            i += 1;
        } else if same_text(arg, "--keep-test-presents") {
            args.keep_test_presents = true;
            i += 1;
        } else if same_text(arg, "--foreground") {
            if !more || starts_with(argv[i + 1].as_str(), "-") {
                args.target = Target::Foreground(5);
                i += 1;
            } else {
                match parse_number(argv[i + 1].as_str(), u64::MAX) {
                    Some(delay) => {
                        args.target = Target::Foreground(delay);
                        i += 2;
                    },
                    None => {
                        let mut message =
                            "после --foreground ожидались секунды, а не «".to_string();
                        message.append(argv[i + 1].as_str());
                        message.append("»");
                        return Err(message);
                    },
                }
            }
        } else if takes_value(arg) {
            if !more {
                let mut message = arg.to_string();
                message.append(" требует значение");
                return Err(message);
            }
            if let Some(message) = set_value(&mut args, arg, argv[i + 1].as_str()) {
                return Err(message);
            }
            i += 2;
        } else {
            let mut message = "неизвестный аргумент: ".to_string();
            message.append(arg);
            return Err(message);
        }
    }
    Ok(Command::Measure(args))
}

/// An argument with a number sets what it is named after to that number and nothing else, and the
/// arguments behind it are read on.
pub proof fn law_numbers_set_their_own_field(args: ArgsView, rest: Seq<Seq<char>>, n: nat)
    ensures
        n <= u32::MAX ==> command_of(args, seq!["--pid"@, crate::text::decimal(n)] + rest)
            == command_of(ArgsView { target: TargetView::Pid(n as u32), ..args }, rest),
        n <= u64::MAX ==> command_of(args, seq!["--seconds"@, crate::text::decimal(n)] + rest)
            == command_of(ArgsView { seconds: n as u64, ..args }, rest),
        n <= usize::MAX ==> command_of(args, seq!["--top"@, crate::text::decimal(n)] + rest)
            == command_of(ArgsView { top: n as usize, ..args }, rest),
        n <= u16::MAX ==> command_of(args, seq!["--dxgi-id"@, crate::text::decimal(n)] + rest)
            == command_of(ArgsView { dxgi_id: n as u16, ..args }, rest),
        n <= u16::MAX ==> command_of(args, seq!["--d3d9-id"@, crate::text::decimal(n)] + rest)
            == command_of(ArgsView { d3d9_id: n as u16, ..args }, rest),
        n <= u8::MAX ==> command_of(args, seq!["--level"@, crate::text::decimal(n)] + rest)
            == command_of(ArgsView { level: Some(n as u8), ..args }, rest),
        n <= u32::MAX ==> command_of(args, seq!["--buffer-kb"@, crate::text::decimal(n)] + rest)
            == command_of(ArgsView { buffers: BufferConfig { buffer_kb: n as u32, ..args.buffers }, ..args }, rest),
        n <= u32::MAX ==> command_of(args, seq!["--min-buffers"@, crate::text::decimal(n)] + rest)
            == command_of(ArgsView { buffers: BufferConfig { min_buffers: n as u32, ..args.buffers }, ..args }, rest),
        n <= u32::MAX ==> command_of(args, seq!["--max-buffers"@, crate::text::decimal(n)] + rest)
            == command_of(ArgsView { buffers: BufferConfig { max_buffers: n as u32, ..args.buffers }, ..args }, rest),
        n <= u32::MAX ==> command_of(args, seq!["--flush"@, crate::text::decimal(n)] + rest)
            == command_of(ArgsView { buffers: BufferConfig { flush_seconds: n as u32, ..args.buffers }, ..args }, rest),
        n <= u64::MAX ==> command_of(args, seq!["--foreground"@, crate::text::decimal(n)] + rest)
            == command_of(ArgsView { target: TargetView::Foreground(n as u64), ..args }, rest),
{
    reveal_strlit("-h");
    reveal_strlit("--help");
    reveal_strlit("--sweep-only");
    reveal_strlit("--list");
    reveal_strlit("--all");
    reveal_strlit("--keep-test-presents");
    reveal_strlit("--foreground");
    reveal_strlit("--pid");
    reveal_strlit("--name");
    reveal_strlit("--seconds");
    reveal_strlit("--label");
    reveal_strlit("--csv");
    reveal_strlit("--top");
    reveal_strlit("--dxgi-id");
    reveal_strlit("--d3d9-id");
    reveal_strlit("--buffer-kb");
    reveal_strlit("--min-buffers");
    reveal_strlit("--max-buffers");
    reveal_strlit("--flush");
    reveal_strlit("--level");
    reveal_strlit("--only");
    assert("-h"@.len() == 2);
    assert("--help"@.len() == 6);
    assert("--sweep-only"@.len() == 12);
    assert("--list"@.len() == 6);
    assert("--all"@.len() == 5);
    assert("--keep-test-presents"@.len() == 20);
    assert("--foreground"@.len() == 12);
    assert("--pid"@.len() == 5);
    assert("--name"@.len() == 6);
    assert("--seconds"@.len() == 9);
    assert("--label"@.len() == 7);
    assert("--csv"@.len() == 5);
    assert("--top"@.len() == 5);
    assert("--dxgi-id"@.len() == 9);
    assert("--d3d9-id"@.len() == 9);
    assert("--buffer-kb"@.len() == 11);
    assert("--min-buffers"@.len() == 13);
    assert("--max-buffers"@.len() == 13);
    assert("--flush"@.len() == 7);
    assert("--level"@.len() == 7);
    assert("--only"@.len() == 6);
    assert("--help"@[2] == 'h');
    assert("--help"@[3] == 'e');
    assert("--help"@[4] == 'l');
    assert("--sweep-only"@[2] == 's');
    assert("--sweep-only"@[3] == 'w');
    assert("--sweep-only"@[4] == 'e');
    assert("--list"@[2] == 'l');
    assert("--list"@[3] == 'i');
    assert("--list"@[4] == 's');
    assert("--all"@[2] == 'a');
    assert("--all"@[3] == 'l');
    assert("--all"@[4] == 'l');
    assert("--keep-test-presents"@[2] == 'k');
    assert("--keep-test-presents"@[3] == 'e');
    assert("--keep-test-presents"@[4] == 'e');
    assert("--foreground"@[2] == 'f');
    assert("--foreground"@[3] == 'o');
    assert("--foreground"@[4] == 'r');
    assert("--pid"@[2] == 'p');
    assert("--pid"@[3] == 'i');
    assert("--pid"@[4] == 'd');
    assert("--name"@[2] == 'n');
    assert("--name"@[3] == 'a');
    assert("--name"@[4] == 'm');
    assert("--seconds"@[2] == 's');
    assert("--seconds"@[3] == 'e');
    assert("--seconds"@[4] == 'c');
    assert("--label"@[2] == 'l');
    assert("--label"@[3] == 'a');
    assert("--label"@[4] == 'b');
    assert("--csv"@[2] == 'c');
    assert("--csv"@[3] == 's');
    assert("--csv"@[4] == 'v');
    assert("--top"@[2] == 't');
    assert("--top"@[3] == 'o');
    assert("--top"@[4] == 'p');
    assert("--dxgi-id"@[2] == 'd');
    assert("--dxgi-id"@[3] == 'x');
    assert("--dxgi-id"@[4] == 'g');
    assert("--d3d9-id"@[2] == 'd');
    assert("--d3d9-id"@[3] == '3');
    assert("--d3d9-id"@[4] == 'd');
    assert("--buffer-kb"@[2] == 'b');
    assert("--buffer-kb"@[3] == 'u');
    assert("--buffer-kb"@[4] == 'f');
    assert("--min-buffers"@[2] == 'm');
    assert("--min-buffers"@[3] == 'i');
    assert("--min-buffers"@[4] == 'n');
    assert("--max-buffers"@[2] == 'm');
    assert("--max-buffers"@[3] == 'a');
    assert("--max-buffers"@[4] == 'x');
    assert("--flush"@[2] == 'f');
    assert("--flush"@[3] == 'l');
    assert("--flush"@[4] == 'u');
    assert("--level"@[2] == 'l');
    assert("--level"@[3] == 'e');
    assert("--level"@[4] == 'v');
    assert("--only"@[2] == 'o');
    assert("--only"@[3] == 'n');
    assert("--only"@[4] == 'l');
    crate::text::lemma_decimal_digits(n);
    reveal_strlit("-");
    assert(crate::text::is_digit(crate::text::decimal(n)[0]));
    assert("-"@[0] == '-');
    assert(!crate::text::begins_with(crate::text::decimal(n), "-"@)) by {
        if crate::text::begins_with(crate::text::decimal(n), "-"@) {
            assert(crate::text::decimal(n).take(1)[0] == "-"@[0]);
        }
    }
    if n <= u32::MAX {
        let all = seq!["--pid"@, crate::text::decimal(n)] + rest;
        assert(all.skip(2) =~= rest);
        crate::text::lemma_decimal_reads_back(n, u32::MAX as nat);
    }
    if n <= u64::MAX {
        let all = seq!["--seconds"@, crate::text::decimal(n)] + rest;
        assert(all.skip(2) =~= rest);
        crate::text::lemma_decimal_reads_back(n, u64::MAX as nat);
    }
    if n <= usize::MAX {
        let all = seq!["--top"@, crate::text::decimal(n)] + rest;
        assert(all.skip(2) =~= rest);
        crate::text::lemma_decimal_reads_back(n, usize::MAX as nat);
    }
    if n <= u16::MAX {
        let all = seq!["--dxgi-id"@, crate::text::decimal(n)] + rest;
        assert(all.skip(2) =~= rest);
        crate::text::lemma_decimal_reads_back(n, u16::MAX as nat);
    }
    if n <= u16::MAX {
        let all = seq!["--d3d9-id"@, crate::text::decimal(n)] + rest;
        assert(all.skip(2) =~= rest);
        crate::text::lemma_decimal_reads_back(n, u16::MAX as nat);
    }
    if n <= u8::MAX {
        let all = seq!["--level"@, crate::text::decimal(n)] + rest;
        assert(all.skip(2) =~= rest);
        crate::text::lemma_decimal_reads_back(n, u8::MAX as nat);
    }
    if n <= u32::MAX {
        let all = seq!["--buffer-kb"@, crate::text::decimal(n)] + rest;
        assert(all.skip(2) =~= rest);
        crate::text::lemma_decimal_reads_back(n, u32::MAX as nat);
    }
    if n <= u32::MAX {
        let all = seq!["--min-buffers"@, crate::text::decimal(n)] + rest;
        assert(all.skip(2) =~= rest);
        crate::text::lemma_decimal_reads_back(n, u32::MAX as nat);
    }
    if n <= u32::MAX {
        let all = seq!["--max-buffers"@, crate::text::decimal(n)] + rest;
        assert(all.skip(2) =~= rest);
        crate::text::lemma_decimal_reads_back(n, u32::MAX as nat);
    }
    if n <= u32::MAX {
        let all = seq!["--flush"@, crate::text::decimal(n)] + rest;
        assert(all.skip(2) =~= rest);
        crate::text::lemma_decimal_reads_back(n, u32::MAX as nat);
    }
    if n <= u64::MAX {
        let all = seq!["--foreground"@, crate::text::decimal(n)] + rest;
        assert(all.skip(2) =~= rest);
        crate::text::lemma_decimal_reads_back(n, u64::MAX as nat);
    }
}

/// An argument with a text sets what it is named after to that text and nothing else; one of its
/// own sets its switch; the rest of the line is read on.
pub proof fn law_words_set_their_own_field(args: ArgsView, rest: Seq<Seq<char>>, word: Seq<char>)
    ensures
        command_of(args, seq!["--name"@, word] + rest) == command_of(
            ArgsView { target: TargetView::Name(word), ..args },
            rest,
        ),
        command_of(args, seq!["--label"@, word] + rest) == command_of(
            ArgsView { label: Some(word), ..args },
            rest,
        ),
        command_of(args, seq!["--csv"@, word] + rest) == command_of(
            ArgsView { csv: Some(word), ..args },
            rest,
        ),
        crate::text::lowercase(word) == "dxgi"@ ==> command_of(args, seq!["--only"@, word] + rest)
            == command_of(ArgsView { providers: ProviderChoice::DxgiOnly, ..args }, rest),
        crate::text::lowercase(word) == "d3d9"@ ==> command_of(args, seq!["--only"@, word] + rest)
            == command_of(ArgsView { providers: ProviderChoice::D3d9Only, ..args }, rest),
        command_of(args, seq!["--all"@] + rest) == command_of(
            ArgsView { target: TargetView::All, ..args },
            rest,
        ),
        command_of(args, seq!["--keep-test-presents"@] + rest) == command_of(
            ArgsView { keep_test_presents: true, ..args },
            rest,
        ),
        command_of(args, Seq::<Seq<char>>::empty()) == Ok::<CommandView, Seq<char>>(
            CommandView::Measure(args),
        ),
{
    reveal_strlit("-h");
    reveal_strlit("--help");
    reveal_strlit("--sweep-only");
    reveal_strlit("--list");
    reveal_strlit("--all");
    reveal_strlit("--keep-test-presents");
    reveal_strlit("--foreground");
    reveal_strlit("--pid");
    reveal_strlit("--name");
    reveal_strlit("--seconds");
    reveal_strlit("--label");
    reveal_strlit("--csv");
    reveal_strlit("--top");
    reveal_strlit("--dxgi-id");
    reveal_strlit("--d3d9-id");
    reveal_strlit("--buffer-kb");
    reveal_strlit("--min-buffers");
    reveal_strlit("--max-buffers");
    reveal_strlit("--flush");
    reveal_strlit("--level");
    reveal_strlit("--only");
    assert("-h"@.len() == 2);
    assert("--help"@.len() == 6);
    assert("--sweep-only"@.len() == 12);
    assert("--list"@.len() == 6);
    assert("--all"@.len() == 5);
    assert("--keep-test-presents"@.len() == 20);
    assert("--foreground"@.len() == 12);
    assert("--pid"@.len() == 5);
    assert("--name"@.len() == 6);
    assert("--seconds"@.len() == 9);
    assert("--label"@.len() == 7);
    assert("--csv"@.len() == 5);
    assert("--top"@.len() == 5);
    assert("--dxgi-id"@.len() == 9);
    assert("--d3d9-id"@.len() == 9);
    assert("--buffer-kb"@.len() == 11);
    assert("--min-buffers"@.len() == 13);
    assert("--max-buffers"@.len() == 13);
    assert("--flush"@.len() == 7);
    assert("--level"@.len() == 7);
    assert("--only"@.len() == 6);
    assert("--help"@[2] == 'h');
    assert("--help"@[3] == 'e');
    assert("--help"@[4] == 'l');
    assert("--sweep-only"@[2] == 's');
    assert("--sweep-only"@[3] == 'w');
    assert("--sweep-only"@[4] == 'e');
    assert("--list"@[2] == 'l');
    assert("--list"@[3] == 'i');
    assert("--list"@[4] == 's');
    assert("--all"@[2] == 'a');
    assert("--all"@[3] == 'l');
    assert("--all"@[4] == 'l');
    assert("--keep-test-presents"@[2] == 'k');
    assert("--keep-test-presents"@[3] == 'e');
    assert("--keep-test-presents"@[4] == 'e');
    assert("--foreground"@[2] == 'f');
    assert("--foreground"@[3] == 'o');
    assert("--foreground"@[4] == 'r');
    assert("--pid"@[2] == 'p');
    assert("--pid"@[3] == 'i');
    assert("--pid"@[4] == 'd');
    assert("--name"@[2] == 'n');
    assert("--name"@[3] == 'a');
    assert("--name"@[4] == 'm');
    assert("--seconds"@[2] == 's');
    assert("--seconds"@[3] == 'e');
    assert("--seconds"@[4] == 'c');
    assert("--label"@[2] == 'l');
    assert("--label"@[3] == 'a');
    assert("--label"@[4] == 'b');
    assert("--csv"@[2] == 'c');
    assert("--csv"@[3] == 's');
    assert("--csv"@[4] == 'v');
    assert("--top"@[2] == 't');
    assert("--top"@[3] == 'o');
    assert("--top"@[4] == 'p');
    assert("--dxgi-id"@[2] == 'd');
    assert("--dxgi-id"@[3] == 'x');
    assert("--dxgi-id"@[4] == 'g');
    assert("--d3d9-id"@[2] == 'd');
    assert("--d3d9-id"@[3] == '3');
    assert("--d3d9-id"@[4] == 'd');
    assert("--buffer-kb"@[2] == 'b');
    assert("--buffer-kb"@[3] == 'u');
    assert("--buffer-kb"@[4] == 'f');
    assert("--min-buffers"@[2] == 'm');
    assert("--min-buffers"@[3] == 'i');
    assert("--min-buffers"@[4] == 'n');
    assert("--max-buffers"@[2] == 'm');
    assert("--max-buffers"@[3] == 'a');
    assert("--max-buffers"@[4] == 'x');
    assert("--flush"@[2] == 'f');
    assert("--flush"@[3] == 'l');
    assert("--flush"@[4] == 'u');
    assert("--level"@[2] == 'l');
    assert("--level"@[3] == 'e');
    assert("--level"@[4] == 'v');
    assert("--only"@[2] == 'o');
    assert("--only"@[3] == 'n');
    assert("--only"@[4] == 'l');
    reveal_strlit("dxgi");
    reveal_strlit("d3d9");
    assert("dxgi"@[1] == 'x');
    assert("d3d9"@[1] == '3');
    assert((seq!["--name"@, word] + rest).skip(2) =~= rest);
    assert((seq!["--label"@, word] + rest).skip(2) =~= rest);
    assert((seq!["--csv"@, word] + rest).skip(2) =~= rest);
    assert((seq!["--only"@, word] + rest).skip(2) =~= rest);
    assert((seq!["--all"@] + rest).skip(1) =~= rest);
    assert((seq!["--keep-test-presents"@] + rest).skip(1) =~= rest);
}

} // verus!
