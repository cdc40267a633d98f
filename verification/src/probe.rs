//! The reference presenter: a program that presents frames and counts them itself, to hold the
//! measurement against.

use vstd::prelude::*;

use crate::text::parse_number;
use crate::text::same_text;
use crate::text::to_decimal;
use crate::text::views;

verus! {

#[derive(Clone, Copy, PartialEq, Eq, Debug, Structural)]
pub struct ProbeArgs {
    pub seconds: u64,
    pub vsync: u32,
    /// The most frames in a second; zero means no limit.
    pub fps_cap: u32,
}

#[derive(Debug, PartialEq)]
pub enum ProbeCommand {
    Present(ProbeArgs),
    Help,
}

/// What some arguments ask for, on top of those that were read.
pub open spec fn probe_command(args: ProbeArgs, rest: Seq<Seq<char>>) -> Result<
    ProbeCommand,
    Seq<char>,
>
    decreases rest.len(),
{
    if rest.len() == 0 {
        Ok(ProbeCommand::Present(args))
    } else {
        let flag = rest[0];
        if flag == "-h"@ || flag == "--help"@ {
            Ok(ProbeCommand::Help)
        } else if flag == "--seconds"@ || flag == "--vsync"@ || flag == "--fps"@ {
            if rest.len() == 1 {
                Err(flag + " требует значение"@)
            } else {
                let max = if flag == "--seconds"@ {
                    u64::MAX as nat
                } else {
                    u32::MAX as nat
                };
                match crate::text::number(rest[1], max) {
                    None => Err("не число: "@ + rest[1]),
                    Some(n) => {
                        let next = if flag == "--seconds"@ {
                            ProbeArgs { seconds: n as u64, ..args }
                        } else if flag == "--vsync"@ {
                            ProbeArgs { vsync: n as u32, ..args }
                        } else {
                            ProbeArgs { fps_cap: n as u32, ..args }
                        };
                        probe_command(next, rest.skip(2))
                    },
                }
            }
        } else {
            Err("неизвестный аргумент: "@ + flag)
        }
    }
}

pub open spec fn usual_args() -> ProbeArgs {
    ProbeArgs { seconds: 20, vsync: 1, fps_cap: 0 }
}

/// Reads the arguments behind the program's name.
pub fn parse_args(argv: &Vec<String>) -> (r: Result<ProbeCommand, String>)
    ensures
        crate::cli::error_view(r) == probe_command(usual_args(), views(argv@)),
{
    let ghost all = views(argv@);
    let mut args = ProbeArgs { seconds: 20, vsync: 1, fps_cap: 0 };
    let mut i: usize = 0;
    proof {
        assert(all.skip(0) =~= all);
    }
    while i < argv.len()
        invariant
            i <= argv.len(),
            all == views(argv@),
            probe_command(args, all.skip(i as int)) == probe_command(usual_args(), all),
        decreases argv.len() - i,
    {
        let arg = argv[i].as_str();
        proof {
            let rest = all.skip(i as int);
            assert(rest[0] == arg@);
            if i + 1 < argv.len() {
                assert(rest[1] == argv@[i + 1]@);
                assert(rest.skip(2) =~= all.skip(i + 2));
            }
        }
        if same_text(arg, "-h") || same_text(arg, "--help") {
            return Ok(ProbeCommand::Help);
        }
        let seconds = same_text(arg, "--seconds");
        let vsync = same_text(arg, "--vsync");
        if !seconds && !vsync && !same_text(arg, "--fps") {
            let mut message = "неизвестный аргумент: ".to_string();
            message.append(arg);
            return Err(message);
        }
        if i + 1 >= argv.len() {
            let mut message = arg.to_string();
            message.append(" требует значение");
            return Err(message);
        }
        let value = argv[i + 1].as_str();
        let max: u64 = if seconds {
            u64::MAX
        } else {
            u32::MAX as u64
        };
        match parse_number(value, max) {
            None => {
                let mut message = "не число: ".to_string();
                message.append(value);
                return Err(message);
            },
            Some(n) => {
                if seconds {
                    args.seconds = n;
                } else if vsync {
                    args.vsync = n as u32;
                } else {
                    args.fps_cap = n as u32;
                }
            },
        }
        i += 2;
    }
    Ok(ProbeCommand::Present(args))
}

/// What is said before the first frame.
pub fn beginning_line(args: &ProbeArgs) -> (r: String)
    ensures
        r@ == "презентю "@ + crate::text::decimal(args.seconds as nat)
            + " с, интервал синхронизации "@ + crate::text::decimal(args.vsync as nat)
            + ", ограничение "@ + (if args.fps_cap == 0 {
            "без"@
        } else {
            crate::text::decimal(args.fps_cap as nat)
        }) + " FPS"@,
{
    let mut r = "презентю ".to_string();
    r.append(to_decimal(args.seconds).as_str());
    r.append(" с, интервал синхронизации ");
    r.append(to_decimal(args.vsync as u64).as_str());
    r.append(", ограничение ");
    if args.fps_cap == 0 {
        r.append("без");
    } else {
        r.append(to_decimal(args.fps_cap as u64).as_str());
    }
    r.append(" FPS");
    r
}

proof fn lemma_flags_differ()
    ensures
        "-h"@.len() == 2,
        "--help"@.len() == 6,
        "--seconds"@.len() == 9,
        "--vsync"@.len() == 7,
        "--fps"@.len() == 5,
{
    reveal_strlit("-h");
    reveal_strlit("--help");
    reveal_strlit("--seconds");
    reveal_strlit("--vsync");
    reveal_strlit("--fps");
}

/// Each flag sets its own figure to the number behind it and leaves the others, and what follows is
/// read as if it stood alone.
pub proof fn law_flags_set_their_own_figure(
    args: ProbeArgs,
    rest: Seq<Seq<char>>,
    seconds: u64,
    n: u32,
)
    ensures
        probe_command(args, seq!["--seconds"@, crate::text::decimal(seconds as nat)] + rest)
            == probe_command(ProbeArgs { seconds, ..args }, rest),
        probe_command(args, seq!["--vsync"@, crate::text::decimal(n as nat)] + rest)
            == probe_command(ProbeArgs { vsync: n, ..args }, rest),
        probe_command(args, seq!["--fps"@, crate::text::decimal(n as nat)] + rest)
            == probe_command(ProbeArgs { fps_cap: n, ..args }, rest),
        probe_command(args, seq!["-h"@] + rest) == Ok::<ProbeCommand, Seq<char>>(
            ProbeCommand::Help,
        ),
        probe_command(args, seq!["--help"@] + rest) == Ok::<ProbeCommand, Seq<char>>(
            ProbeCommand::Help,
        ),
        probe_command(args, seq![]) == Ok::<ProbeCommand, Seq<char>>(ProbeCommand::Present(args)),
{
    lemma_flags_differ();
    crate::text::lemma_decimal_reads_back(seconds as nat, u64::MAX as nat);
    crate::text::lemma_decimal_reads_back(n as nat, u32::MAX as nat);
    let first = seq!["--seconds"@, crate::text::decimal(seconds as nat)] + rest;
    assert(first.skip(2) =~= rest);
    let second = seq!["--vsync"@, crate::text::decimal(n as nat)] + rest;
    assert(second.skip(2) =~= rest);
    let third = seq!["--fps"@, crate::text::decimal(n as nat)] + rest;
    assert(third.skip(2) =~= rest);
}

} // verus!
