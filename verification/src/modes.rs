//! What the program is started for, and what it says when it is done.

use vstd::prelude::*;

use crate::cli::error_view;
use crate::games::LAUNCH_ARG;
use crate::paths::text_of;
use crate::resources::SERVICE_EXE;
use crate::text::same_text;

verus! {

/// The argument of a copy that takes the place of another with more rights.
pub const RELAUNCHED_ARG: &'static str = "--relaunched";

/// The lock that keeps a second overlay of a user from running.
pub const INSTANCE_MUTEX: &'static str = "Local\\MHMonitor-UI";

/// How long a copy waits, in milliseconds, for the one whose place it takes.
pub const HANDOVER_WAIT: u64 = 10_000;

/// What the program does.
#[derive(Debug, Clone, Copy, PartialEq, Eq, Structural)]
pub enum Mode {
    /// An old registration starts the overlay as the service: refused, as the overlay does not
    /// belong into the session of the services.
    OldService,
    Install,
    Uninstall,
    InstallService,
    StartService,
    UninstallService,
    /// Start a game, then the overlay.
    Game,
    Overlay,
}

/// The first argument decides.
pub open spec fn mode_for(arguments: Seq<Seq<char>>) -> Mode {
    if arguments.len() < 2 {
        Mode::Overlay
    } else if arguments[1] == "--service"@ || arguments[1] == "--serve"@ {
        Mode::OldService
    } else if arguments[1] == "--install"@ {
        Mode::Install
    } else if arguments[1] == "--uninstall"@ {
        Mode::Uninstall
    } else if arguments[1] == "--install-service"@ {
        Mode::InstallService
    } else if arguments[1] == "--start-service"@ {
        Mode::StartService
    } else if arguments[1] == "--uninstall-service"@ {
        Mode::UninstallService
    } else if arguments[1] == LAUNCH_ARG@ {
        Mode::Game
    } else {
        Mode::Overlay
    }
}

pub fn mode_of(arguments: &Vec<String>) -> (r: Mode)
    ensures
        r == mode_for(crate::text::views(arguments@)),
{
    if arguments.len() < 2 {
        return Mode::Overlay;
    }
    let word = arguments[1].as_str();
    if same_text(word, "--service") || same_text(word, "--serve") {
        Mode::OldService
    } else if same_text(word, "--install") {
        Mode::Install
    } else if same_text(word, "--uninstall") {
        Mode::Uninstall
    } else if same_text(word, "--install-service") {
        Mode::InstallService
    } else if same_text(word, "--start-service") {
        Mode::StartService
    } else if same_text(word, "--uninstall-service") {
        Mode::UninstallService
    } else if same_text(word, LAUNCH_ARG) {
        Mode::Game
    } else {
        Mode::Overlay
    }
}

/// An argument stands among the arguments.
pub fn given(arguments: &Vec<String>, word: &str) -> (r: bool)
    ensures
        r == crate::text::views(arguments@).contains(word@),
{
    let ghost views = crate::text::views(arguments@);
    let mut i: usize = 0;
    while i < arguments.len()
        invariant
            i <= arguments.len(),
            views == crate::text::views(arguments@),
            forall|j: int| 0 <= j < i ==> #[trigger] views[j] != word@,
        decreases arguments.len() - i,
    {
        if same_text(arguments[i].as_str(), word) {
            proof {
                assert(views[i as int] == word@);
            }
            return true;
        }
        i += 1;
    }
    false
}

/// How long the program waits for another copy to leave: a copy that takes the place of another
/// waits for it, any other does not.
pub fn wait_for_others(arguments: &Vec<String>) -> (r: u64)
    ensures
        r == (if crate::text::views(arguments@).contains("--after-install"@) || crate::text::views(
            arguments@,
        ).contains(RELAUNCHED_ARG@) {
            HANDOVER_WAIT
        } else {
            0
        }),
{
    if given(arguments, "--after-install") || given(arguments, RELAUNCHED_ARG) {
        HANDOVER_WAIT
    } else {
        0
    }
}

/// What is said to an old registration.
pub fn refusal() -> (r: String)
    ensures
        r@ == "служба теперь — "@ + SERVICE_EXE@ + "; переустановите MH Monitoring"@,
{
    let mut text = "служба теперь — ".to_string();
    text.append(SERVICE_EXE);
    text.append("; переустановите MH Monitoring");
    text
}

/// The outcome of an installation: the line for the journal and the code of the program.
pub open spec fn outcome(result: Result<(), Seq<char>>) -> (Seq<char>, u8) {
    match result {
        Ok(_) => ("готово"@, 0),
        Err(error) => ("ошибка: "@ + error, 2),
    }
}

pub fn report(result: Result<(), String>) -> (r: (String, u8))
    ensures
        (r.0@, r.1) == outcome(error_view(result)),
{
    match result {
        Ok(()) => ("готово".to_string(), 0),
        Err(error) => {
            let mut text = "ошибка: ".to_string();
            text.append(error.as_str());
            (text, 2)
        },
    }
}

/// The first line on the surroundings in the journal.
pub open spec fn surroundings_line(
    executable: Seq<char>,
    elevated: bool,
    installed: Option<Seq<char>>,
    service: Option<Seq<char>>,
) -> Seq<char> {
    "файл: "@ + executable + "; права администратора: "@ + (if elevated {
        "да"@
    } else {
        "нет"@
    }) + "; установлен: "@ + installed.unwrap_or("нет"@) + "; служба запускает: "@
        + service.unwrap_or("—"@)
}

pub fn surroundings(
    executable: &str,
    elevated: bool,
    installed: &Option<String>,
    service: &Option<String>,
) -> (r: String)
    ensures
        r@ == surroundings_line(executable@, elevated, text_of(*installed), text_of(*service)),
{
    let mut line = "файл: ".to_string();
    line.append(executable);
    line.append("; права администратора: ");
    if elevated {
        line.append("да");
    } else {
        line.append("нет");
    }
    line.append("; установлен: ");
    match installed {
        Some(version) => line.append(version.as_str()),
        None => line.append("нет"),
    }
    line.append("; служба запускает: ");
    match service {
        Some(path) => line.append(path.as_str()),
        None => line.append("—"),
    }
    line
}

/// What the journal says of the files that were brought over from the old folder.
pub open spec fn moved_text(moved: Result<Seq<Seq<char>>, Seq<char>>) -> Option<Seq<char>> {
    match moved {
        Ok(files) => if files.len() == 0 {
            None
        } else {
            Some("из старой папки перенесено: "@ + crate::text::joined(files, ", "@))
        },
        Err(error) => Some("перенос из старой папки не удался: "@ + error),
    }
}

pub open spec fn moved_view(moved: Result<Vec<String>, String>) -> Result<
    Seq<Seq<char>>,
    Seq<char>,
> {
    match moved {
        Ok(files) => Ok(crate::text::views(files@)),
        Err(error) => Err(error@),
    }
}

pub fn moved_line(moved: &Result<Vec<String>, String>) -> (r: Option<String>)
    ensures
        text_of(r) == moved_text(moved_view(*moved)),
{
    match moved {
        Ok(files) => if files.len() == 0 {
            None
        } else {
            let mut line = "из старой папки перенесено: ".to_string();
            line.append(crate::text::join(files, ", ").as_str());
            Some(line)
        },
        Err(error) => {
            let mut line = "перенос из старой папки не удался: ".to_string();
            line.append(error.as_str());
            Some(line)
        },
    }
}

proof fn lemma_modes_differ()
    ensures
        "--service"@.len() == 9,
        "--service"@[2] == 's',
        "--serve"@.len() == 7,
        "--install"@.len() == 9,
        "--install"@[2] == 'i',
        "--uninstall"@.len() == 11,
        "--install-service"@.len() == 17,
        "--start-service"@.len() == 15,
        "--uninstall-service"@.len() == 19,
        "--launch"@.len() == 8,
{
    reveal_strlit("--service");
    reveal_strlit("--serve");
    reveal_strlit("--install");
    reveal_strlit("--uninstall");
    reveal_strlit("--install-service");
    reveal_strlit("--start-service");
    reveal_strlit("--uninstall-service");
    reveal_strlit("--launch");
}

/// The first argument decides what the program does, whatever follows it; without one that is
/// known it is the overlay.
pub proof fn law_first_argument_decides(arguments: Seq<Seq<char>>, more: Seq<Seq<char>>)
    requires
        arguments.len() >= 2,
    ensures
        ({
            let word = arguments[1];
            let mode = mode_for(arguments);
            &&& mode is OldService <==> word == "--service"@ || word == "--serve"@
            &&& mode is Install <==> word == "--install"@
            &&& mode is Uninstall <==> word == "--uninstall"@
            &&& mode is InstallService <==> word == "--install-service"@
            &&& mode is StartService <==> word == "--start-service"@
            &&& mode is UninstallService <==> word == "--uninstall-service"@
            &&& mode is Game <==> word == "--launch"@
            &&& mode_for(arguments + more) == mode
            &&& mode_for(arguments.take(1)) is Overlay
        }),
{
    lemma_modes_differ();
    assert((arguments + more)[1] == arguments[1]);
}

/// A failure is told with its reason and the code two, success with zero.
pub proof fn law_failures_are_told(error: Seq<char>)
    ensures
        outcome(Ok(())) == ("готово"@, 0u8),
        outcome(Err(error)) == ("ошибка: "@ + error, 2u8),
{
}

/// The journal names the files that were brought over, in their order, and is silent where there
/// were none; where they could not be brought over, it names the reason.
pub proof fn law_moved_files_are_told(files: Seq<Seq<char>>, error: Seq<char>)
    ensures
        moved_text(Ok(files)) is None <==> files.len() == 0,
        files.len() > 0 ==> moved_text(Ok(files)) == Some(
            "из старой папки перенесено: "@ + crate::text::joined(files, ", "@),
        ),
        moved_text(Err(error)) == Some("перенос из старой папки не удался: "@ + error),
{
}

/// Only a copy that takes the place of another waits, and then for ten seconds.
pub proof fn law_copies_wait_for_each_other(arguments: Vec<String>, r: u64)
    requires
        call_ensures(wait_for_others, (&arguments,), r),
    ensures
        ({
            let words = crate::text::views(arguments@);
            &&& words.contains("--after-install"@) || words.contains("--relaunched"@) ==> r
                == 10_000
            &&& !words.contains("--after-install"@) && !words.contains("--relaunched"@) ==> r == 0
        }),
{
}

} // verus!
