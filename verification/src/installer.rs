//! The program installs itself: a copy under `Program Files` with the service beside it,
//! shortcuts, and an entry among the installed programs.
//!
//! The service runs with the rights of the system, so its file has to lie where an ordinary user
//! cannot write.

use vstd::prelude::*;

use crate::paths;
use crate::paths::folder_of;
use crate::paths::joined_path;
use crate::paths::text_of;
use crate::resources::SERVICE_EXE;
use crate::settings_file::APP_DIR;
use crate::settings_file::LEGACY_APP_DIR;
use crate::text::decimal;
use crate::text::join;
use crate::text::lowercase;
use crate::text::parse_number;
use crate::text::replace_char;
use crate::text::replaced;
use crate::text::same_text;
use crate::text::to_decimal;
use crate::text::to_lowercase;
use crate::text::views;

verus! {

pub const EXE_NAME: &'static str = "MH-Monitoring.exe";

pub const UNINSTALL_KEY: &'static str = "Software\\Microsoft\\Windows\\CurrentVersion\\Uninstall\\MHMonitor";

pub const RUN_KEY: &'static str = "Software\\Microsoft\\Windows\\CurrentVersion\\Run";

pub const RUN_VALUE: &'static str = "MH Monitoring";

pub const SHORTCUT_NAME: &'static str = "MH Monitoring.lnk";

/// What builds under the old name left behind.
pub const LEGACY_EXE_NAME: &'static str = "mh-monitor.exe";

pub const LEGACY_SHORTCUT_NAME: &'static str = "MH Monitor.lnk";

pub const LEGACY_RUN_VALUE: &'static str = "MH Monitor";

/// The argument of a removal that was started with more rights: the question was asked, and the
/// process with the number behind it removes the user's data.
pub const CALLER_ARG: &'static str = "--caller";

/// How a removal ends, for whoever waits for it.
pub const EXIT_CANCELLED: u8 = 3;

pub const EXIT_DATA_REMOVED: u8 = 4;

#[derive(Debug, Clone, Copy, PartialEq, Eq, Structural)]
pub enum Uninstall {
    KeptData,
    RemovedData,
    Cancelled,
}

/// What the environment says of the folders of the system.
#[derive(Debug)]
pub struct Environment {
    pub program_w6432: Option<String>,
    pub program_files: Option<String>,
    pub program_data: Option<String>,
    pub public: Option<String>,
    pub system_root: Option<String>,
}

#[verifier::ext_equal]
pub struct EnvironmentView {
    pub program_w6432: Option<Seq<char>>,
    pub program_files: Option<Seq<char>>,
    pub program_data: Option<Seq<char>>,
    pub public: Option<Seq<char>>,
    pub system_root: Option<Seq<char>>,
}

impl View for Environment {
    type V = EnvironmentView;

    open spec fn view(&self) -> EnvironmentView {
        EnvironmentView {
            program_w6432: text_of(self.program_w6432),
            program_files: text_of(self.program_files),
            program_data: text_of(self.program_data),
            public: text_of(self.public),
            system_root: text_of(self.system_root),
        }
    }
}

/// A text, or another one where there is none.
pub open spec fn or_else(text: Option<Seq<char>>, other: Seq<char>) -> Seq<char> {
    match text {
        Some(text) => text,
        None => other,
    }
}

fn text_or(text: &Option<String>, other: &str) -> (r: String)
    ensures
        r@ == or_else(text_of(*text), other@),
{
    match text {
        Some(text) => text.clone(),
        None => other.to_string(),
    }
}

/// The folder of programs: that of 64-bit programs first.
pub open spec fn programs_folder(env: EnvironmentView) -> Seq<char> {
    match env.program_w6432 {
        Some(folder) => folder,
        None => or_else(env.program_files, "C:\\Program Files"@),
    }
}

pub fn program_files(env: &Environment) -> (r: String)
    ensures
        r@ == programs_folder(env@),
{
    match &env.program_w6432 {
        Some(folder) => folder.clone(),
        None => text_or(&env.program_files, "C:\\Program Files"),
    }
}

/// Where the program is installed.
pub open spec fn install_folder(env: EnvironmentView) -> Seq<char> {
    joined_path(programs_folder(env), APP_DIR@)
}

/// `C:\Program Files\MH Monitoring`.
pub fn install_dir(env: &Environment) -> (r: String)
    ensures
        r@ == install_folder(env@),
{
    paths::join(program_files(env).as_str(), APP_DIR)
}

pub fn installed_exe(env: &Environment) -> (r: String)
    ensures
        r@ == joined_path(install_folder(env@), EXE_NAME@),
{
    paths::join(install_dir(env).as_str(), EXE_NAME)
}

/// The service beside the program.
pub fn installed_service_exe(env: &Environment) -> (r: String)
    ensures
        r@ == joined_path(install_folder(env@), SERVICE_EXE@),
{
    paths::join(install_dir(env).as_str(), SERVICE_EXE)
}

/// The start menu of all users.
pub open spec fn menu_folder(env: EnvironmentView) -> Seq<char> {
    joined_path(
        or_else(env.program_data, "C:\\ProgramData"@),
        "Microsoft\\Windows\\Start Menu\\Programs"@,
    )
}

pub fn start_menu_dir(env: &Environment) -> (r: String)
    ensures
        r@ == menu_folder(env@),
{
    paths::join(
        text_or(&env.program_data, "C:\\ProgramData").as_str(),
        "Microsoft\\Windows\\Start Menu\\Programs",
    )
}

/// The desktop of all users.
pub open spec fn desktop_folder(env: EnvironmentView) -> Seq<char> {
    joined_path(or_else(env.public, "C:\\Users\\Public"@), "Desktop"@)
}

pub fn desktop_dir(env: &Environment) -> (r: String)
    ensures
        r@ == desktop_folder(env@),
{
    paths::join(text_or(&env.public, "C:\\Users\\Public").as_str(), "Desktop")
}

/// The shortcuts: in the start menu and on the desktop.
pub fn shortcut_paths(env: &Environment) -> (r: (String, String))
    ensures
        r.0@ == joined_path(menu_folder(env@), SHORTCUT_NAME@),
        r.1@ == joined_path(desktop_folder(env@), SHORTCUT_NAME@),
{
    (
        paths::join(start_menu_dir(env).as_str(), SHORTCUT_NAME),
        paths::join(desktop_dir(env).as_str(), SHORTCUT_NAME),
    )
}

/// A path in the form in which paths compare: one separator, one case.
pub open spec fn normal(path: Seq<char>) -> Seq<char> {
    lowercase(replaced(path, '/', "\\"@))
}

/// Whether two paths lead to the same file: neither case nor separators count.
pub fn same_path(a: &str, b: &str) -> (r: bool)
    ensures
        r == (normal(a@) == normal(b@)),
{
    let a = to_lowercase(replace_char(a, '/', "\\").as_str());
    let b = to_lowercase(replace_char(b, '/', "\\").as_str());
    same_text(a.as_str(), b.as_str())
}

/// The version of the installed copy: what the list of programs says, where the file is there.
pub fn installed_version(exe_is_file: bool, recorded: Option<String>) -> (r: Option<String>)
    ensures
        text_of(r) == (if exe_is_file {
            text_of(recorded)
        } else {
            None
        }),
{
    if exe_is_file {
        recorded
    } else {
        None
    }
}

/// Whether a file is the installed copy.
pub fn running_installed(own: &Option<String>, env: &Environment) -> (r: bool)
    ensures
        r == (match own {
            Some(exe) => normal(exe@) == normal(joined_path(install_folder(env@), EXE_NAME@)),
            None => false,
        }),
{
    match own {
        Some(exe) => same_path(exe.as_str(), installed_exe(env).as_str()),
        None => false,
    }
}

// --- laying down the service ---

/// How the service comes to its place.
#[derive(Debug, PartialEq)]
pub enum Placement {
    /// It is there.
    InPlace,
    Copy(String),
    /// From the copy inside the program.
    Embedded,
}

pub enum PlacementView {
    InPlace,
    Copy(Seq<char>),
    Embedded,
}

impl View for Placement {
    type V = PlacementView;

    open spec fn view(&self) -> PlacementView {
        match self {
            Placement::InPlace => PlacementView::InPlace,
            Placement::Copy(from) => PlacementView::Copy(from@),
            Placement::Embedded => PlacementView::Embedded,
        }
    }
}

pub open spec fn placement_view(r: Result<Placement, String>) -> Result<
    PlacementView,
    Seq<char>,
> {
    match r {
        Ok(placement) => Ok(placement@),
        Err(message) => Err(message@),
    }
}

/// The service is taken from a file beside the program, else from the copy inside it. A program
/// that lies where the service belongs needs the service there already.
pub open spec fn placement(
    source: Seq<char>,
    target: Seq<char>,
    target_is_file: bool,
    sibling_is_file: bool,
    embedded: bool,
) -> Result<PlacementView, Seq<char>> {
    let sibling = crate::paths::renamed(source, SERVICE_EXE@);
    if normal(sibling) == normal(target) {
        if target_is_file {
            Ok(PlacementView::InPlace)
        } else {
            Err("нет файла службы"@)
        }
    } else if sibling_is_file {
        Ok(PlacementView::Copy(sibling))
    } else if !embedded {
        Err("в эту сборку служба не встроена — соберите через tools\\build-release.ps1"@)
    } else {
        Ok(PlacementView::Embedded)
    }
}

pub fn place_service(
    source: &str,
    target: &str,
    target_is_file: bool,
    sibling_is_file: bool,
    embedded: bool,
) -> (r: Result<Placement, String>)
    ensures
        placement_view(r) == placement(
            source@,
            target@,
            target_is_file,
            sibling_is_file,
            embedded,
        ),
{
    let sibling = paths::with_file_name(source, SERVICE_EXE);
    if same_path(sibling.as_str(), target) {
        return if target_is_file {
            Ok(Placement::InPlace)
        } else {
            Err("нет файла службы".to_string())
        };
    }
    if sibling_is_file {
        return Ok(Placement::Copy(sibling));
    }
    if !embedded {
        return Err(
            "в эту сборку служба не встроена — соберите через tools\\build-release.ps1".to_string(),
        );
    }
    Ok(Placement::Embedded)
}

/// The name under which a file is written before it takes its place: a broken copy leaves the
/// working file alone.
pub fn partial_path(target: &str) -> (r: String)
    ensures
        r@ == crate::paths::reextended(target@, "exe.partial"@),
{
    paths::with_extension(target, "exe.partial")
}

// --- installing ---

/// A value in the registry.
#[derive(Debug, PartialEq)]
pub enum RegistryValue {
    Text(String),
    Number(u32),
}

/// A step of the installation.
#[derive(Debug, PartialEq)]
pub enum InstallStep {
    CreateFolder(String),
    /// The old service holds its file: it goes before anything is copied.
    RemoveService,
    /// So do the overlays of an old installation.
    EndProcesses(String),
    CopyProgram { from: String, to: String },
    PlaceService { program: String, to: String },
    /// What builds under the old name left behind, but not the file that runs.
    RemoveLegacy { running: String },
    InstallService(String),
    CreateShortcut { link: String, to: String },
    MigrateAutostart(String),
    /// The entry among the installed programs.
    Register { program: String, folder: String },
}

pub enum InstallStepView {
    CreateFolder(Seq<char>),
    RemoveService,
    EndProcesses(Seq<char>),
    CopyProgram { from: Seq<char>, to: Seq<char> },
    PlaceService { program: Seq<char>, to: Seq<char> },
    RemoveLegacy { running: Seq<char> },
    InstallService(Seq<char>),
    CreateShortcut { link: Seq<char>, to: Seq<char> },
    MigrateAutostart(Seq<char>),
    Register { program: Seq<char>, folder: Seq<char> },
}

impl View for InstallStep {
    type V = InstallStepView;

    open spec fn view(&self) -> InstallStepView {
        match self {
            InstallStep::CreateFolder(folder) => InstallStepView::CreateFolder(folder@),
            InstallStep::RemoveService => InstallStepView::RemoveService,
            InstallStep::EndProcesses(exe) => InstallStepView::EndProcesses(exe@),
            InstallStep::CopyProgram { from, to } => InstallStepView::CopyProgram {
                from: from@,
                to: to@,
            },
            InstallStep::PlaceService { program, to } => InstallStepView::PlaceService {
                program: program@,
                to: to@,
            },
            InstallStep::RemoveLegacy { running } => InstallStepView::RemoveLegacy {
                running: running@,
            },
            InstallStep::InstallService(exe) => InstallStepView::InstallService(exe@),
            InstallStep::CreateShortcut { link, to } => InstallStepView::CreateShortcut {
                link: link@,
                to: to@,
            },
            InstallStep::MigrateAutostart(exe) => InstallStepView::MigrateAutostart(exe@),
            InstallStep::Register { program, folder } => InstallStepView::Register {
                program: program@,
                folder: folder@,
            },
        }
    }
}

pub open spec fn step_views(steps: Seq<InstallStep>) -> Seq<InstallStepView> {
    steps.map_values(|step: InstallStep| step@)
}

/// The steps of an installation from a program, in order. The program is copied unless it is the
/// installed copy itself.
pub open spec fn install_steps(env: EnvironmentView, source: Seq<char>) -> Seq<InstallStepView> {
    let folder = install_folder(env);
    let target = joined_path(folder, EXE_NAME@);
    let service = joined_path(folder, SERVICE_EXE@);
    let first = Seq::<InstallStepView>::empty().push(InstallStepView::CreateFolder(folder)).push(
        InstallStepView::RemoveService,
    );
    let copied = if normal(source) == normal(target) {
        first
    } else {
        first.push(InstallStepView::EndProcesses(target)).push(
            InstallStepView::CopyProgram { from: source, to: target },
        )
    };
    copied.push(InstallStepView::PlaceService { program: source, to: service }).push(
        InstallStepView::RemoveLegacy { running: source },
    ).push(InstallStepView::InstallService(service)).push(
        InstallStepView::CreateShortcut {
            link: joined_path(menu_folder(env), SHORTCUT_NAME@),
            to: target,
        },
    ).push(
        InstallStepView::CreateShortcut {
            link: joined_path(desktop_folder(env), SHORTCUT_NAME@),
            to: target,
        },
    ).push(InstallStepView::MigrateAutostart(target)).push(
        InstallStepView::Register { program: target, folder },
    )
}

fn plan(steps: &mut Vec<InstallStep>, step: InstallStep)
    ensures
        step_views(final(steps)@) == step_views(old(steps)@).push(step@),
{
    steps.push(step);
    proof {
        assert(step_views(steps@) =~= step_views(old(steps)@).push(step@));
    }
}

/// The steps of an installation, or why there is none: it wants the rights of an administrator.
pub fn install(env: &Environment, source: &str, elevated: bool) -> (r: Result<
    Vec<InstallStep>,
    String,
>)
    ensures
        r is Ok <==> elevated,
        r matches Ok(steps) ==> step_views(steps@) == install_steps(env@, source@),
        r matches Err(message) ==> message@ == "нужны права администратора"@,
{
    if !elevated {
        return Err("нужны права администратора".to_string());
    }
    let folder = install_dir(env);
    let target = installed_exe(env);
    let service = installed_service_exe(env);
    let mut steps: Vec<InstallStep> = Vec::new();
    proof {
        assert(step_views(steps@) =~= Seq::<InstallStepView>::empty());
    }
    plan(&mut steps, InstallStep::CreateFolder(folder.clone()));
    plan(&mut steps, InstallStep::RemoveService);
    if !same_path(source, target.as_str()) {
        plan(&mut steps, InstallStep::EndProcesses(target.clone()));
        plan(
            &mut steps,
            InstallStep::CopyProgram { from: source.to_string(), to: target.clone() },
        );
    }
    plan(
        &mut steps,
        InstallStep::PlaceService { program: source.to_string(), to: service.clone() },
    );
    plan(&mut steps, InstallStep::RemoveLegacy { running: source.to_string() });
    plan(&mut steps, InstallStep::InstallService(service));
    let (menu, desktop) = shortcut_paths(env);
    plan(&mut steps, InstallStep::CreateShortcut { link: menu, to: target.clone() });
    plan(&mut steps, InstallStep::CreateShortcut { link: desktop, to: target.clone() });
    plan(&mut steps, InstallStep::MigrateAutostart(target.clone()));
    plan(&mut steps, InstallStep::Register { program: target, folder });
    Ok(steps)
}

/// What a failed step means.
#[derive(Debug, PartialEq)]
pub enum StepFailure {
    /// The installation ends with these words.
    Abort(String),
    /// It goes on, and the journal gets these words.
    Log(String),
}

pub enum StepFailureView {
    Abort(Seq<char>),
    Log(Seq<char>),
}

impl View for StepFailure {
    type V = StepFailureView;

    open spec fn view(&self) -> StepFailureView {
        match self {
            StepFailure::Abort(text) => StepFailureView::Abort(text@),
            StepFailure::Log(text) => StepFailureView::Log(text@),
        }
    }
}

/// A shortcut may fail; anything else ends the installation.
pub open spec fn failure_of(step: InstallStepView, error: Seq<char>) -> StepFailureView {
    match step {
        InstallStepView::CreateFolder(folder) => StepFailureView::Abort(folder + ": "@ + error),
        InstallStepView::CreateShortcut { link, to: _ } => StepFailureView::Log(
            "ярлык "@ + link + " не создан: "@ + error,
        ),
        InstallStepView::Register { program: _, folder: _ } => StepFailureView::Abort(
            "запись в «Программы и компоненты»: "@ + error,
        ),
        _ => StepFailureView::Abort(error),
    }
}

pub fn step_failed(step: &InstallStep, error: &str) -> (r: StepFailure)
    ensures
        r@ == failure_of(step@, error@),
{
    match step {
        InstallStep::CreateFolder(folder) => {
            let mut text = folder.clone();
            text.append(": ");
            text.append(error);
            StepFailure::Abort(text)
        },
        InstallStep::CreateShortcut { link, to: _ } => {
            let mut text = "ярлык ".to_string();
            text.append(link.as_str());
            text.append(" не создан: ");
            text.append(error);
            StepFailure::Log(text)
        },
        InstallStep::Register { program: _, folder: _ } => {
            let mut text = "запись в «Программы и компоненты»: ".to_string();
            text.append(error);
            StepFailure::Abort(text)
        },
        _ => StepFailure::Abort(error.to_string()),
    }
}

/// The values of the entry among the installed programs, for contracts.
pub enum ValueView {
    Text(Seq<char>),
    Number(u32),
}

impl View for RegistryValue {
    type V = ValueView;

    open spec fn view(&self) -> ValueView {
        match self {
            RegistryValue::Text(text) => ValueView::Text(text@),
            RegistryValue::Number(n) => ValueView::Number(*n),
        }
    }
}

pub open spec fn value_views(values: Seq<(String, RegistryValue)>) -> Seq<(Seq<char>, ValueView)> {
    values.map_values(|v: (String, RegistryValue)| (v.0@, v.1@))
}

/// A path in quotes.
pub open spec fn in_quotes(path: Seq<char>) -> Seq<char> {
    "\""@ + path + "\""@
}

/// The entry among the installed programs. The size is in kilobytes and wraps as a number of 32
/// bits.
pub open spec fn program_entry(
    program: Seq<char>,
    folder: Seq<char>,
    version: Seq<char>,
    size: u64,
) -> Seq<(Seq<char>, ValueView)> {
    Seq::<(Seq<char>, ValueView)>::empty().push(
        ("DisplayName"@, ValueView::Text("MH Monitoring"@)),
    ).push(("DisplayVersion"@, ValueView::Text(version))).push(
        ("Publisher"@, ValueView::Text("midnightheartsgames"@)),
    ).push(("DisplayIcon"@, ValueView::Text(program))).push(
        ("InstallLocation"@, ValueView::Text(folder)),
    ).push(("UninstallString"@, ValueView::Text(in_quotes(program) + " --uninstall"@))).push(
        ("NoModify"@, ValueView::Number(1)),
    ).push(("NoRepair"@, ValueView::Number(1))).push(
        ("EstimatedSize"@, ValueView::Number((size / 1024 % 0x1_0000_0000) as u32)),
    )
}

fn enter(values: &mut Vec<(String, RegistryValue)>, name: &str, value: RegistryValue)
    ensures
        value_views(final(values)@) == value_views(old(values)@).push((name@, value@)),
{
    values.push((name.to_string(), value));
    proof {
        assert(value_views(values@) =~= value_views(old(values)@).push((name@, value@)));
    }
}

fn quoted(path: &str) -> (r: String)
    ensures
        r@ == in_quotes(path@),
{
    let mut r = "\"".to_string();
    r.append(path);
    r.append("\"");
    r
}

/// The entry among the installed programs, given the size of the program's file in bytes.
pub fn registry_values(program: &str, folder: &str, version: &str, size: u64) -> (r: Vec<
    (String, RegistryValue),
>)
    ensures
        value_views(r@) == program_entry(program@, folder@, version@, size),
{
    let mut values: Vec<(String, RegistryValue)> = Vec::new();
    proof {
        assert(value_views(values@) =~= Seq::<(Seq<char>, ValueView)>::empty());
    }
    let mut uninstall = quoted(program);
    uninstall.append(" --uninstall");
    enter(&mut values, "DisplayName", RegistryValue::Text("MH Monitoring".to_string()));
    enter(&mut values, "DisplayVersion", RegistryValue::Text(version.to_string()));
    enter(&mut values, "Publisher", RegistryValue::Text("midnightheartsgames".to_string()));
    enter(&mut values, "DisplayIcon", RegistryValue::Text(program.to_string()));
    enter(&mut values, "InstallLocation", RegistryValue::Text(folder.to_string()));
    enter(&mut values, "UninstallString", RegistryValue::Text(uninstall));
    enter(&mut values, "NoModify", RegistryValue::Number(1));
    enter(&mut values, "NoRepair", RegistryValue::Number(1));
    enter(
        &mut values,
        "EstimatedSize",
        RegistryValue::Number((size / 1024 % 0x1_0000_0000) as u32),
    );
    values
}

/// The programs that builds under the old name may have left.
pub open spec fn legacy_programs(env: EnvironmentView) -> (Seq<char>, Seq<char>) {
    (
        joined_path(joined_path(programs_folder(env), LEGACY_APP_DIR@), LEGACY_EXE_NAME@),
        joined_path(install_folder(env), LEGACY_EXE_NAME@),
    )
}

pub fn legacy_exes(env: &Environment) -> (r: (String, String))
    ensures
        (r.0@, r.1@) == legacy_programs(env@),
{
    let folder = paths::join(program_files(env).as_str(), LEGACY_APP_DIR);
    (
        paths::join(folder.as_str(), LEGACY_EXE_NAME),
        paths::join(install_dir(env).as_str(), LEGACY_EXE_NAME),
    )
}

/// Whether an old program is to be removed: it is there, and it is not the one that runs.
pub fn removes_legacy(exe: &str, running: &str, exists: bool) -> (r: bool)
    ensures
        r == (exists && normal(exe@) != normal(running@)),
{
    !(same_path(exe, running) || !exists)
}

/// The old folder, where it is to be removed: it is there, and the program does not run from it.
pub fn legacy_folder(env: &Environment, running: &str, exists: bool) -> (r: Option<String>)
    ensures
        text_of(r) == ({
            let folder = joined_path(programs_folder(env@), LEGACY_APP_DIR@);
            if exists && !crate::paths::lies_in(running@, folder) {
                Some(folder)
            } else {
                None
            }
        }),
{
    let folder = paths::join(program_files(env).as_str(), LEGACY_APP_DIR);
    if exists && !paths::starts_with(running, folder.as_str()) {
        Some(folder)
    } else {
        None
    }
}

/// The shortcut under the old name.
pub fn legacy_shortcut(env: &Environment) -> (r: String)
    ensures
        r@ == joined_path(menu_folder(env@), LEGACY_SHORTCUT_NAME@),
{
    paths::join(start_menu_dir(env).as_str(), LEGACY_SHORTCUT_NAME)
}

/// What becomes of the start with Windows when a program is installed: whether the value of the
/// old name goes, and the command to write where it was on under either name.
pub fn migrate_autostart(legacy: bool, enabled: bool, target: &str) -> (r: (bool, Option<String>))
    ensures
        r.0 == legacy,
        text_of(r.1) == (if legacy || enabled {
            Some(in_quotes(target@))
        } else {
            None
        }),
{
    if legacy || enabled {
        (legacy, Some(quoted(target)))
    } else {
        (legacy, None)
    }
}

/// What to write for the start with Windows: the installed copy where there is one, else the
/// program that runs; nothing to write means to remove the value.
pub fn set_autostart(
    enabled: bool,
    installed: bool,
    own: &Option<String>,
    env: &Environment,
) -> (r: Result<Option<String>, ()>)
    ensures
        r is Err <==> enabled && !installed && own is None,
        r matches Ok(command) ==> text_of(command) == (if !enabled {
            None
        } else if installed {
            Some(in_quotes(joined_path(install_folder(env@), EXE_NAME@)))
        } else {
            Some(in_quotes(text_of(*own)->0))
        }),
{
    if !enabled {
        return Ok(None);
    }
    if installed {
        return Ok(Some(quoted(installed_exe(env).as_str())));
    }
    match own {
        Some(own) => Ok(Some(quoted(own.as_str()))),
        None => Err(()),
    }
}

// --- removing ---

/// The number of the process that asked for a removal with more rights.
pub open spec fn caller_in(arguments: Seq<Seq<char>>) -> Option<u32> {
    match crate::games::argument_after(arguments, CALLER_ARG@) {
        Some(value) => match crate::text::number(value, u32::MAX as nat) {
            Some(pid) => Some(pid as u32),
            None => None,
        },
        None => None,
    }
}

pub fn caller_of(arguments: &Vec<String>) -> (r: Option<u32>)
    ensures
        r == caller_in(views(arguments@)),
{
    match crate::games::value_after(arguments, CALLER_ARG) {
        Some(value) => match parse_number(value.as_str(), u32::MAX as u64) {
            Some(pid) => Some(pid as u32),
            None => None,
        },
        None => None,
    }
}

/// What the user says of their data.
#[derive(Debug, Clone, Copy, PartialEq, Eq, Structural)]
pub enum Answer {
    Yes,
    No,
    Cancel,
}

/// Where a removal stands.
#[derive(Debug, Clone, Copy, PartialEq, Eq, Structural)]
pub enum RemovalStage {
    Begin,
    Asking,
    /// For a process that asked before, and keeps or removes the data itself.
    RemovingForCaller,
    /// Here, or in a process with more rights; with or without the data.
    Removing(bool),
    Elevating(bool),
    Ended,
}

/// What happens to a removal.
#[derive(Debug)]
pub enum RemovalEvent {
    Started(Vec<String>),
    Answered { answer: Answer, elevated: bool, pid: u32 },
    /// The installation is gone, or why it is not.
    Removed(Option<String>),
    /// A process with more rights ended so.
    Ran(Result<u32, String>),
}

pub enum RemovalEventView {
    Started(Seq<Seq<char>>),
    Answered { answer: Answer, elevated: bool, pid: u32 },
    Removed(Option<Seq<char>>),
    Ran(Result<u32, Seq<char>>),
}

impl View for RemovalEvent {
    type V = RemovalEventView;

    open spec fn view(&self) -> RemovalEventView {
        match self {
            RemovalEvent::Started(arguments) => RemovalEventView::Started(views(arguments@)),
            RemovalEvent::Answered { answer, elevated, pid } => RemovalEventView::Answered {
                answer: *answer,
                elevated: *elevated,
                pid: *pid,
            },
            RemovalEvent::Removed(error) => RemovalEventView::Removed(text_of(*error)),
            RemovalEvent::Ran(Ok(code)) => RemovalEventView::Ran(Ok(*code)),
            RemovalEvent::Ran(Err(error)) => RemovalEventView::Ran(Err(error@)),
        }
    }
}

/// What a removal does next.
#[derive(Debug, PartialEq)]
pub enum RemovalAction {
    Ask,
    /// Remove the installation, and leave this process alone.
    Remove(Option<u32>),
    /// Run this program with more rights and these arguments.
    RunElevated(String),
    /// Remove the start with Windows and, where it is wanted, the data; then say so and end.
    Finish { remove_data: bool, text: String },
    /// End without a word.
    Stop(Uninstall),
    Fail(String),
}

pub enum RemovalActionView {
    Ask,
    Remove(Option<u32>),
    RunElevated(Seq<char>),
    Finish { remove_data: bool, text: Seq<char> },
    Stop(Uninstall),
    Fail(Seq<char>),
}

impl View for RemovalAction {
    type V = RemovalActionView;

    open spec fn view(&self) -> RemovalActionView {
        match self {
            RemovalAction::Ask => RemovalActionView::Ask,
            RemovalAction::Remove(caller) => RemovalActionView::Remove(*caller),
            RemovalAction::RunElevated(arguments) => RemovalActionView::RunElevated(arguments@),
            RemovalAction::Finish { remove_data, text } => RemovalActionView::Finish {
                remove_data: *remove_data,
                text: text@,
            },
            RemovalAction::Stop(outcome) => RemovalActionView::Stop(*outcome),
            RemovalAction::Fail(text) => RemovalActionView::Fail(text@),
        }
    }
}

/// What the user is asked.
pub const QUESTION: &'static str = "Удалить MH Monitoring?\n\nУдалить также настройки и журналы?\n\n«Да» — удалить программу и данные.\n«Нет» — удалить программу, данные оставить.\n«Отмена» — ничего не удалять.";

/// What is said at the end.
pub open spec fn farewell(remove_data: bool) -> Seq<char> {
    if remove_data {
        "MH Monitoring удалён вместе с настройками и журналами."@
    } else {
        "MH Monitoring удалён.\n\nНастройки остались в %APPDATA%\\MH Monitoring."@
    }
}

/// The events that a stage waits for.
pub open spec fn awaits(stage: RemovalStage, event: RemovalEventView) -> bool {
    match stage {
        RemovalStage::Begin => event is Started,
        RemovalStage::Asking => event is Answered,
        RemovalStage::RemovingForCaller | RemovalStage::Removing(_) => event is Removed,
        RemovalStage::Elevating(_) => event is Ran,
        RemovalStage::Ended => false,
    }
}

/// How a removal goes on. Who asked the question removes the data: a process with more rights
/// may belong to another user.
pub open spec fn removal_next(stage: RemovalStage, event: RemovalEventView) -> (
    RemovalStage,
    RemovalActionView,
) {
    match (stage, event) {
        (RemovalStage::Begin, RemovalEventView::Started(arguments)) => match caller_in(
            arguments,
        ) {
            Some(caller) => (
                RemovalStage::RemovingForCaller,
                RemovalActionView::Remove(Some(caller)),
            ),
            None => (RemovalStage::Asking, RemovalActionView::Ask),
        },
        (RemovalStage::Asking, RemovalEventView::Answered { answer, elevated, pid }) => {
            let data = answer is Yes;
            if answer is Cancel {
                (RemovalStage::Ended, RemovalActionView::Stop(Uninstall::Cancelled))
            } else if elevated {
                (RemovalStage::Removing(data), RemovalActionView::Remove(None))
            } else {
                (
                    RemovalStage::Elevating(data),
                    RemovalActionView::RunElevated(
                        "--uninstall --caller "@ + decimal(pid as nat),
                    ),
                )
            }
        },
        (_, RemovalEventView::Removed(Some(error))) => (
            RemovalStage::Ended,
            RemovalActionView::Fail(error),
        ),
        (RemovalStage::RemovingForCaller, RemovalEventView::Removed(None)) => (
            RemovalStage::Ended,
            RemovalActionView::Stop(Uninstall::KeptData),
        ),
        (RemovalStage::Removing(data), RemovalEventView::Removed(None)) => (
            RemovalStage::Ended,
            RemovalActionView::Finish { remove_data: data, text: farewell(data) },
        ),
        (RemovalStage::Elevating(data), RemovalEventView::Ran(Ok(code))) => if code == 0 {
            (
                RemovalStage::Ended,
                RemovalActionView::Finish { remove_data: data, text: farewell(data) },
            )
        } else {
            (
                RemovalStage::Ended,
                RemovalActionView::Fail(
                    "удаление завершилось с кодом "@ + decimal(code as nat),
                ),
            )
        },
        (RemovalStage::Elevating(_), RemovalEventView::Ran(Err(error))) => (
            RemovalStage::Ended,
            RemovalActionView::Fail(error),
        ),
        _ => (stage, RemovalActionView::Stop(Uninstall::Cancelled)),
    }
}

fn farewell_text(remove_data: bool) -> (r: String)
    ensures
        r@ == farewell(remove_data),
{
    if remove_data {
        "MH Monitoring удалён вместе с настройками и журналами.".to_string()
    } else {
        "MH Monitoring удалён.\n\nНастройки остались в %APPDATA%\\MH Monitoring.".to_string()
    }
}

/// Takes a removal one step further.
pub fn uninstall(stage: RemovalStage, event: &RemovalEvent) -> (r: (RemovalStage, RemovalAction))
    requires
        awaits(stage, event@),
    ensures
        (r.0, r.1@) == removal_next(stage, event@),
{
    match event {
        RemovalEvent::Started(arguments) => match caller_of(arguments) {
            Some(caller) => (
                RemovalStage::RemovingForCaller,
                RemovalAction::Remove(Some(caller)),
            ),
            None => (RemovalStage::Asking, RemovalAction::Ask),
        },
        RemovalEvent::Answered { answer, elevated, pid } => {
            let data = match answer {
                Answer::Yes => true,
                Answer::No => false,
                Answer::Cancel => {
                    return (RemovalStage::Ended, RemovalAction::Stop(Uninstall::Cancelled));
                },
            };
            if *elevated {
                (RemovalStage::Removing(data), RemovalAction::Remove(None))
            } else {
                let mut arguments = "--uninstall --caller ".to_string();
                arguments.append(to_decimal(*pid as u64).as_str());
                (RemovalStage::Elevating(data), RemovalAction::RunElevated(arguments))
            }
        },
        RemovalEvent::Removed(Some(error)) => (
            RemovalStage::Ended,
            RemovalAction::Fail(error.clone()),
        ),
        RemovalEvent::Removed(None) => match stage {
            RemovalStage::Removing(data) => (
                RemovalStage::Ended,
                RemovalAction::Finish { remove_data: data, text: farewell_text(data) },
            ),
            _ => (RemovalStage::Ended, RemovalAction::Stop(Uninstall::KeptData)),
        },
        RemovalEvent::Ran(Ok(code)) => {
            if *code != 0 {
                let mut text = "удаление завершилось с кодом ".to_string();
                text.append(to_decimal(*code as u64).as_str());
                return (RemovalStage::Ended, RemovalAction::Fail(text));
            }
            let data = match stage {
                RemovalStage::Elevating(data) => data,
                _ => false,
            };
            (
                RemovalStage::Ended,
                RemovalAction::Finish { remove_data: data, text: farewell_text(data) },
            )
        },
        RemovalEvent::Ran(Err(error)) => (RemovalStage::Ended, RemovalAction::Fail(error.clone())),
    }
}

/// The stages of a removal with the data.
pub open spec fn with_data(stage: RemovalStage) -> bool {
    stage == RemovalStage::Removing(true) || stage == RemovalStage::Elevating(true)
}

/// The user's data is removed only where the user said yes to that.
pub proof fn law_data_goes_only_on_yes(stage: RemovalStage, event: RemovalEventView)
    requires
        awaits(stage, event),
    ensures
        with_data(removal_next(stage, event).0) ==> event is Answered && event->answer is Yes,
        removal_next(stage, event).1 matches RemovalActionView::Finish { remove_data, text: _ }
            ==> remove_data == with_data(stage),
{
}

/// Who cancels loses nothing: nothing is removed and the removal is over.
pub proof fn law_cancel_removes_nothing(elevated: bool, pid: u32)
    ensures
        removal_next(
            RemovalStage::Asking,
            RemovalEventView::Answered { answer: Answer::Cancel, elevated, pid },
        ) == (RemovalStage::Ended, RemovalActionView::Stop(Uninstall::Cancelled)),
{
}

/// What the two processes of a removal say to each other agrees: the one with more rights finds
/// the number of the one that asked, and asks nothing itself.
pub proof fn law_caller_is_found(pid: u32)
    ensures
        removal_next(
            RemovalStage::Begin,
            RemovalEventView::Started(seq!["--uninstall"@, "--caller"@, decimal(pid as nat)]),
        ) == (RemovalStage::RemovingForCaller, RemovalActionView::Remove(Some(pid))),
{
    let arguments = seq!["--uninstall"@, "--caller"@, decimal(pid as nat)];
    reveal_strlit("--uninstall");
    reveal_strlit("--caller");
    assert("--uninstall"@.len() == 11);
    assert("--caller"@.len() == 8);
    reveal_with_fuel(crate::games::first_argument, 4);
    let two = arguments.drop_last();
    let one = two.drop_last();
    assert(one.last() == "--uninstall"@);
    assert(one.drop_last() =~= seq![]);
    assert(two.last() == "--caller"@);
    assert(crate::games::first_argument(two, CALLER_ARG@) == Some(1int));
    assert(crate::games::first_argument(arguments, CALLER_ARG@) == Some(1int));
    crate::text::lemma_decimal_reads_back(pid as nat, u32::MAX as nat);
}

/// The code with which a removal ends, for whoever waits for it.
pub fn exit_code(outcome: Uninstall) -> (r: u8)
    ensures
        r == (match outcome {
            Uninstall::KeptData => 0u8,
            Uninstall::RemovedData => EXIT_DATA_REMOVED,
            Uninstall::Cancelled => EXIT_CANCELLED,
        }),
{
    match outcome {
        Uninstall::KeptData => 0,
        Uninstall::RemovedData => EXIT_DATA_REMOVED,
        Uninstall::Cancelled => EXIT_CANCELLED,
    }
}

/// The processes that hold the program and are to be ended: all but the one that asked.
pub open spec fn to_end(pids: Seq<u32>, caller: Option<u32>) -> Seq<u32> {
    pids.filter(|pid: u32| caller != Some(pid))
}

pub fn processes_to_end(pids: &Vec<u32>, caller: Option<u32>) -> (r: Vec<u32>)
    ensures
        r@ == to_end(pids@, caller),
{
    let ghost keep = |pid: u32| caller != Some(pid);
    let mut r: Vec<u32> = Vec::new();
    let mut i: usize = 0;
    proof {
        reveal_with_fuel(Seq::filter, 1);
        assert(r@ =~= pids@.take(0).filter(keep));
    }
    while i < pids.len()
        invariant
            i <= pids.len(),
            keep == (|pid: u32| caller != Some(pid)),
            r@ == pids@.take(i as int).filter(keep),
        decreases pids.len() - i,
    {
        let spared = match caller {
            Some(caller) => caller == pids[i],
            None => false,
        };
        proof {
            reveal_with_fuel(Seq::filter, 1);
            assert(pids@.take(i + 1).drop_last() =~= pids@.take(i as int));
        }
        if !spared {
            r.push(pids[i]);
        }
        i += 1;
    }
    proof {
        assert(pids@.take(i as int) =~= pids@);
    }
    r
}

/// The folders of an installation that go after the processes that hold them: the program's, and
/// the one that the service has in the profile of the system.
pub open spec fn installation_folders(env: EnvironmentView) -> Seq<Seq<char>> {
    let first = Seq::<Seq<char>>::empty().push(install_folder(env));
    match env.system_root {
        Some(root) => first.push(
            joined_path(
                joined_path(root, "System32\\config\\systemprofile\\AppData\\Local"@),
                APP_DIR@,
            ),
        ),
        None => first,
    }
}

pub fn installation_paths(env: &Environment) -> (r: Vec<String>)
    ensures
        views(r@) == installation_folders(env@),
{
    let mut r: Vec<String> = Vec::new();
    let first = install_dir(env);
    proof {
        assert(views(r@) =~= Seq::<Seq<char>>::empty());
        crate::text::lemma_views_push(r@, first);
    }
    r.push(first);
    if let Some(root) = &env.system_root {
        let profile = paths::join(
            root.as_str(),
            "System32\\config\\systemprofile\\AppData\\Local",
        );
        let folder = paths::join(profile.as_str(), APP_DIR);
        proof {
            crate::text::lemma_views_push(r@, folder);
        }
        r.push(folder);
    }
    r
}

/// The processes to wait for before the files go: this one, then the others.
pub fn waiting_for(own: u32, others: &Vec<u32>) -> (r: Vec<u32>)
    ensures
        r@ == seq![own] + others@,
{
    let mut r: Vec<u32> = Vec::new();
    r.push(own);
    let mut i: usize = 0;
    while i < others.len()
        invariant
            i <= others.len(),
            r@ == seq![own] + others@.take(i as int),
        decreases others.len() - i,
    {
        r.push(others[i]);
        i += 1;
        proof {
            assert(r@ =~= seq![own] + others@.take(i as int));
        }
    }
    proof {
        assert(others@.take(i as int) =~= others@);
    }
    r
}

/// What is done to remove an installation.
#[derive(Debug, PartialEq)]
pub enum RemovalStep {
    RemoveService,
    /// End what runs from the program, but not the process that asked for the removal.
    EndProcesses { program: String, spared: Option<u32> },
    RemoveShortcut(String),
    RemoveLegacy { running: String },
    RemoveAutostart,
    /// Remove the entry among the installed programs.
    Unregister,
    /// Remove some folders once some processes are gone.
    RemoveLater { folders: Vec<String>, waiting: Vec<u32> },
}

pub enum RemovalStepView {
    RemoveService,
    EndProcesses { program: Seq<char>, spared: Option<u32> },
    RemoveShortcut(Seq<char>),
    RemoveLegacy { running: Seq<char> },
    RemoveAutostart,
    Unregister,
    RemoveLater { folders: Seq<Seq<char>>, waiting: Seq<u32> },
}

impl View for RemovalStep {
    type V = RemovalStepView;

    open spec fn view(&self) -> RemovalStepView {
        match self {
            RemovalStep::RemoveService => RemovalStepView::RemoveService,
            RemovalStep::EndProcesses { program, spared } => RemovalStepView::EndProcesses {
                program: program@,
                spared: *spared,
            },
            RemovalStep::RemoveShortcut(link) => RemovalStepView::RemoveShortcut(link@),
            RemovalStep::RemoveLegacy { running } => RemovalStepView::RemoveLegacy {
                running: running@,
            },
            RemovalStep::RemoveAutostart => RemovalStepView::RemoveAutostart,
            RemovalStep::Unregister => RemovalStepView::Unregister,
            RemovalStep::RemoveLater { folders, waiting } => RemovalStepView::RemoveLater {
                folders: views(folders@),
                waiting: waiting@,
            },
        }
    }
}

pub open spec fn removal_views(steps: Seq<RemovalStep>) -> Seq<RemovalStepView> {
    steps.map_values(|step: RemovalStep| step@)
}

/// The processes that hold the program: this one, and the one that asked for the removal.
pub open spec fn holders(pid: u32, caller: Option<u32>) -> Seq<u32> {
    match caller {
        Some(caller) => seq![pid, caller],
        None => seq![pid],
    }
}

/// The steps of a removal, in order. The file that runs, where it is known, is none of the old
/// ones to remove.
pub open spec fn removal_steps(
    env: EnvironmentView,
    own: Option<Seq<char>>,
    pid: u32,
    caller: Option<u32>,
) -> Seq<RemovalStepView> {
    let first = Seq::<RemovalStepView>::empty().push(RemovalStepView::RemoveService).push(
        RemovalStepView::EndProcesses {
            program: joined_path(install_folder(env), EXE_NAME@),
            spared: caller,
        },
    ).push(
        RemovalStepView::RemoveShortcut(joined_path(menu_folder(env), SHORTCUT_NAME@)),
    ).push(RemovalStepView::RemoveShortcut(joined_path(desktop_folder(env), SHORTCUT_NAME@)));
    let swept = match own {
        Some(own) => first.push(RemovalStepView::RemoveLegacy { running: own }),
        None => first,
    };
    swept.push(RemovalStepView::RemoveAutostart).push(RemovalStepView::Unregister).push(
        RemovalStepView::RemoveLater {
            folders: installation_folders(env),
            waiting: holders(pid, caller),
        },
    )
}

fn plan_removal(steps: &mut Vec<RemovalStep>, step: RemovalStep)
    ensures
        removal_views(final(steps)@) == removal_views(old(steps)@).push(step@),
{
    steps.push(step);
    proof {
        assert(removal_views(steps@) =~= removal_views(old(steps)@).push(step@));
    }
}

/// The steps of a removal, or why there is none: it wants the rights of an administrator.
pub fn remove_installation(
    env: &Environment,
    own: &Option<String>,
    pid: u32,
    caller: Option<u32>,
    elevated: bool,
) -> (r: Result<Vec<RemovalStep>, String>)
    ensures
        r is Ok <==> elevated,
        r matches Ok(steps) ==> removal_views(steps@) == removal_steps(
            env@,
            text_of(*own),
            pid,
            caller,
        ),
        r matches Err(message) ==> message@ == "нужны права администратора"@,
{
    if !elevated {
        return Err("нужны права администратора".to_string());
    }
    let mut steps: Vec<RemovalStep> = Vec::new();
    proof {
        assert(removal_views(steps@) =~= Seq::<RemovalStepView>::empty());
    }
    plan_removal(&mut steps, RemovalStep::RemoveService);
    plan_removal(
        &mut steps,
        RemovalStep::EndProcesses { program: installed_exe(env), spared: caller },
    );
    let (menu, desktop) = shortcut_paths(env);
    plan_removal(&mut steps, RemovalStep::RemoveShortcut(menu));
    plan_removal(&mut steps, RemovalStep::RemoveShortcut(desktop));
    if let Some(own) = own {
        plan_removal(&mut steps, RemovalStep::RemoveLegacy { running: own.clone() });
    }
    plan_removal(&mut steps, RemovalStep::RemoveAutostart);
    plan_removal(&mut steps, RemovalStep::Unregister);
    let mut others: Vec<u32> = Vec::new();
    if let Some(caller) = caller {
        others.push(caller);
    }
    let waiting = waiting_for(pid, &others);
    proof {
        assert(waiting@ =~= holders(pid, caller));
    }
    plan_removal(
        &mut steps,
        RemovalStep::RemoveLater { folders: installation_paths(env), waiting },
    );
    Ok(steps)
}

/// What is said where a removal ends at a step that failed. The other steps may fail.
pub open spec fn removal_failure(step: RemovalStepView, error: Seq<char>) -> Option<Seq<char>> {
    match step {
        RemovalStepView::RemoveService => Some(error),
        RemovalStepView::Unregister => Some(
            "запись в «Программы и компоненты»: "@ + error,
        ),
        _ => None,
    }
}

pub fn removal_step_failed(step: &RemovalStep, error: &str) -> (r: Option<String>)
    ensures
        text_of(r) == removal_failure(step@, error@),
{
    match step {
        RemovalStep::RemoveService => Some(error.to_string()),
        RemovalStep::Unregister => {
            let mut text = "запись в «Программы и компоненты»: ".to_string();
            text.append(error);
            Some(text)
        },
        _ => None,
    }
}

/// The folders of a user: that of the journals, and that of the settings.
pub open spec fn data_folders(local: Seq<char>, settings: Seq<char>) -> Seq<Seq<char>> {
    match folder_of(settings) {
        Some(folder) => seq![local, folder],
        None => seq![local],
    }
}

/// How the data of the user goes: after this process and the others that run from its file, for
/// they hold the journal.
pub fn remove_user_data(local: &str, settings: &str, pid: u32, others: &Vec<u32>) -> (r: RemovalStep)
    ensures
        r@ == (RemovalStepView::RemoveLater {
            folders: data_folders(local@, settings@),
            waiting: seq![pid] + others@,
        }),
{
    let mut folders: Vec<String> = Vec::new();
    folders.push(local.to_string());
    if let Some(folder) = paths::parent(settings) {
        folders.push(folder);
    }
    proof {
        assert(views(folders@) =~= data_folders(local@, settings@));
    }
    RemovalStep::RemoveLater { folders, waiting: waiting_for(pid, others) }
}

/// A folder is one of those that a step removes later.
pub open spec fn goes_later(folder: Seq<char>, step: RemovalStepView) -> bool {
    match step {
        RemovalStepView::RemoveLater { folders, .. } => folders.contains(folder),
        _ => false,
    }
}

/// A folder goes in a removal.
pub open spec fn folder_goes(folder: Seq<char>, removal: Seq<RemovalStepView>) -> bool {
    exists|i: int| 0 <= i < removal.len() && goes_later(folder, #[trigger] removal[i])
}

/// A file lies in a folder that goes in a removal.
pub open spec fn file_goes(file: Seq<char>, removal: Seq<RemovalStepView>) -> bool {
    exists|folder: Seq<char>, name: Seq<char>|
        file == #[trigger] joined_path(folder, name) && folder_goes(folder, removal)
}

/// A removal takes back what a step of an installation has put in place.
pub open spec fn taken_back(step: InstallStepView, removal: Seq<RemovalStepView>) -> bool {
    match step {
        InstallStepView::CreateFolder(folder) => folder_goes(folder, removal),
        InstallStepView::CopyProgram { to, .. } => file_goes(to, removal),
        InstallStepView::PlaceService { to, .. } => file_goes(to, removal),
        InstallStepView::InstallService(_) => removal.contains(RemovalStepView::RemoveService),
        InstallStepView::CreateShortcut { link, .. } => removal.contains(
            RemovalStepView::RemoveShortcut(link),
        ),
        InstallStepView::MigrateAutostart(_) => removal.contains(
            RemovalStepView::RemoveAutostart,
        ),
        InstallStepView::Register { .. } => removal.contains(RemovalStepView::Unregister),
        InstallStepView::RemoveService => true,
        InstallStepView::EndProcesses(_) => true,
        InstallStepView::RemoveLegacy { .. } => true,
    }
}

/// A removal takes back everything that an installation has put in place.
pub proof fn law_removal_takes_back_the_installation(
    env: EnvironmentView,
    source: Seq<char>,
    own: Option<Seq<char>>,
    pid: u32,
    caller: Option<u32>,
)
    ensures
        forall|i: int|
            0 <= i < install_steps(env, source).len() ==> taken_back(
                #[trigger] install_steps(env, source)[i],
                removal_steps(env, own, pid, caller),
            ),
{
    let removal = removal_steps(env, own, pid, caller);
    let folder = install_folder(env);
    let last = removal.len() - 1;
    assert(removal[last] is RemoveLater);
    assert(installation_folders(env)[0] == folder);
    assert(installation_folders(env).contains(folder));
    assert(goes_later(folder, removal[last]));
    assert(file_goes(joined_path(folder, EXE_NAME@), removal));
    assert(file_goes(joined_path(folder, SERVICE_EXE@), removal));
    assert(removal[0] == RemovalStepView::RemoveService);
    assert(removal[2] == RemovalStepView::RemoveShortcut(
        joined_path(menu_folder(env), SHORTCUT_NAME@),
    ));
    assert(removal[3] == RemovalStepView::RemoveShortcut(
        joined_path(desktop_folder(env), SHORTCUT_NAME@),
    ));
    assert(removal[last - 1] == RemovalStepView::Unregister);
    assert(removal[last - 2] == RemovalStepView::RemoveAutostart);
}

/// A path in the quotes of the shell, its own quotes doubled.
pub open spec fn shell_quoted(path: Seq<char>) -> Seq<char> {
    "'"@ + replaced(path, '\'', "''"@) + "'"@
}

/// The command that waits for some processes and removes some paths.
pub open spec fn removal_command(paths: Seq<Seq<char>>, pids: Seq<u32>) -> Seq<char> {
    "Wait-Process -Id "@ + crate::text::joined(
        pids.map_values(|pid: u32| decimal(pid as nat)),
        ","@,
    )
        + " -Timeout 120 -ErrorAction SilentlyContinue; Start-Sleep -Seconds 1; Remove-Item -LiteralPath "@
        + crate::text::joined(paths.map_values(|path: Seq<char>| shell_quoted(path)), ","@)
        + " -Recurse -Force -ErrorAction SilentlyContinue"@
}

pub fn removal_script(paths: &Vec<String>, pids: &Vec<u32>) -> (r: String)
    ensures
        r@ == removal_command(views(paths@), pids@),
{
    let mut ids: Vec<String> = Vec::new();
    let mut i: usize = 0;
    let ghost all = pids@.map_values(|pid: u32| decimal(pid as nat));
    while i < pids.len()
        invariant
            i <= pids.len(),
            all == pids@.map_values(|pid: u32| decimal(pid as nat)),
            views(ids@) == all.take(i as int),
        decreases pids.len() - i,
    {
        let id = to_decimal(pids[i] as u64);
        proof {
            crate::text::lemma_views_push(ids@, id);
            assert(all.take(i + 1) =~= all.take(i as int).push(id@));
        }
        ids.push(id);
        i += 1;
    }
    let mut quoted_paths: Vec<String> = Vec::new();
    let mut j: usize = 0;
    let ghost texts = views(paths@).map_values(|path: Seq<char>| shell_quoted(path));
    while j < paths.len()
        invariant
            j <= paths.len(),
            texts == views(paths@).map_values(|path: Seq<char>| shell_quoted(path)),
            views(quoted_paths@) == texts.take(j as int),
        decreases paths.len() - j,
    {
        let mut path = "'".to_string();
        path.append(replace_char(paths[j].as_str(), '\'', "''").as_str());
        path.append("'");
        proof {
            crate::text::lemma_views_push(quoted_paths@, path);
            assert(texts.take(j + 1) =~= texts.take(j as int).push(path@));
        }
        quoted_paths.push(path);
        j += 1;
    }
    proof {
        assert(all.take(i as int) =~= all);
        assert(texts.take(j as int) =~= texts);
    }
    let mut script = "Wait-Process -Id ".to_string();
    script.append(join(&ids, ",").as_str());
    script.append(
        " -Timeout 120 -ErrorAction SilentlyContinue; Start-Sleep -Seconds 1; Remove-Item -LiteralPath ",
    );
    script.append(join(&quoted_paths, ",").as_str());
    script.append(" -Recurse -Force -ErrorAction SilentlyContinue");
    script
}

/// Inside the quotes of the shell every quote of a path stands twice, so the quoted text ends
/// where the path ends.
pub proof fn law_quotes_come_in_pairs(path: Seq<char>)
    ensures
        replaced(path, '\'', "''"@).len() == path.len() + path.filter(
            |c: char| c == '\'',
        ).len(),
        replaced(path, '\'', "''"@).filter(|c: char| c == '\'').len() == 2 * path.filter(
            |c: char| c == '\'',
        ).len(),
    decreases path.len(),
{
    let quote = |c: char| c == '\'';
    reveal_strlit("''");
    assert("''"@ =~= seq!['\'', '\'']);
    if path.len() == 0 {
        reveal(Seq::filter);
    } else {
        law_quotes_come_in_pairs(path.drop_last());
        let earlier = replaced(path.drop_last(), '\'', "''"@);
        reveal_with_fuel(Seq::filter, 3);
        if path.last() == '\'' {
            let both = earlier + "''"@;
            assert(both.drop_last().drop_last() =~= earlier);
            assert(both.drop_last().last() == '\'');
        } else {
            let one = earlier.push(path.last());
            assert(one.drop_last() =~= earlier);
        }
    }
}

proof fn lemma_names_are_plain()
    ensures
        crate::paths::plain_name(APP_DIR@),
        crate::paths::plain_name(EXE_NAME@),
        crate::paths::plain_name(SERVICE_EXE@),
{
    reveal_strlit("MH Monitoring");
    assert(APP_DIR@.len() == 13);
    assert forall|i: int| 0 <= i < 13 implies !crate::paths::separator(
        #[trigger] APP_DIR@[i],
    ) by {
        assert(APP_DIR@[0] == 'M');
        assert(APP_DIR@[1] == 'H');
        assert(APP_DIR@[2] == ' ');
        assert(APP_DIR@[3] == 'M');
        assert(APP_DIR@[4] == 'o');
        assert(APP_DIR@[5] == 'n');
        assert(APP_DIR@[6] == 'i');
        assert(APP_DIR@[7] == 't');
        assert(APP_DIR@[8] == 'o');
        assert(APP_DIR@[9] == 'r');
        assert(APP_DIR@[10] == 'i');
        assert(APP_DIR@[11] == 'n');
        assert(APP_DIR@[12] == 'g');
    }
    assert(APP_DIR@[1] == 'H');
    reveal_strlit("MH-Monitoring.exe");
    assert(EXE_NAME@.len() == 17);
    assert forall|i: int| 0 <= i < 17 implies !crate::paths::separator(
        #[trigger] EXE_NAME@[i],
    ) by {
        assert(EXE_NAME@[0] == 'M');
        assert(EXE_NAME@[1] == 'H');
        assert(EXE_NAME@[2] == '-');
        assert(EXE_NAME@[3] == 'M');
        assert(EXE_NAME@[4] == 'o');
        assert(EXE_NAME@[5] == 'n');
        assert(EXE_NAME@[6] == 'i');
        assert(EXE_NAME@[7] == 't');
        assert(EXE_NAME@[8] == 'o');
        assert(EXE_NAME@[9] == 'r');
        assert(EXE_NAME@[10] == 'i');
        assert(EXE_NAME@[11] == 'n');
        assert(EXE_NAME@[12] == 'g');
        assert(EXE_NAME@[13] == '.');
        assert(EXE_NAME@[14] == 'e');
        assert(EXE_NAME@[15] == 'x');
        assert(EXE_NAME@[16] == 'e');
    }
    assert(EXE_NAME@[1] == 'H');
    reveal_strlit("MH-Monitoring-Service.exe");
    assert(SERVICE_EXE@.len() == 25);
    assert forall|i: int| 0 <= i < 25 implies !crate::paths::separator(
        #[trigger] SERVICE_EXE@[i],
    ) by {
        assert(SERVICE_EXE@[0] == 'M');
        assert(SERVICE_EXE@[1] == 'H');
        assert(SERVICE_EXE@[2] == '-');
        assert(SERVICE_EXE@[3] == 'M');
        assert(SERVICE_EXE@[4] == 'o');
        assert(SERVICE_EXE@[5] == 'n');
        assert(SERVICE_EXE@[6] == 'i');
        assert(SERVICE_EXE@[7] == 't');
        assert(SERVICE_EXE@[8] == 'o');
        assert(SERVICE_EXE@[9] == 'r');
        assert(SERVICE_EXE@[10] == 'i');
        assert(SERVICE_EXE@[11] == 'n');
        assert(SERVICE_EXE@[12] == 'g');
        assert(SERVICE_EXE@[13] == '-');
        assert(SERVICE_EXE@[14] == 'S');
        assert(SERVICE_EXE@[15] == 'e');
        assert(SERVICE_EXE@[16] == 'r');
        assert(SERVICE_EXE@[17] == 'v');
        assert(SERVICE_EXE@[18] == 'i');
        assert(SERVICE_EXE@[19] == 'c');
        assert(SERVICE_EXE@[20] == 'e');
        assert(SERVICE_EXE@[21] == '.');
        assert(SERVICE_EXE@[22] == 'e');
        assert(SERVICE_EXE@[23] == 'x');
        assert(SERVICE_EXE@[24] == 'e');
    }
    assert(SERVICE_EXE@[1] == 'H');
}

/// The installed service lies in the folder of the installed program.
pub proof fn law_service_lies_beside_the_program(env: EnvironmentView)
    requires
        crate::paths::drive_folder(programs_folder(env)),
    ensures
        folder_of(joined_path(install_folder(env), EXE_NAME@)) == folder_of(
            joined_path(install_folder(env), SERVICE_EXE@),
        ),
{
    lemma_names_are_plain();
    crate::paths::law_joined_paths_come_apart(programs_folder(env), APP_DIR@);
    crate::paths::law_joined_paths_come_apart(install_folder(env), EXE_NAME@);
    crate::paths::law_joined_paths_come_apart(install_folder(env), SERVICE_EXE@);
}

// --- what an installation and a removal come to ---

/// The program is installed among the 64-bit programs, or among the programs where there are no
/// such ones.
pub proof fn law_programs_folder_is_found(env: EnvironmentView)
    ensures
        env.program_w6432 is Some ==> install_folder(env) == joined_path(
            env.program_w6432->0,
            "MH Monitoring"@,
        ),
        env.program_w6432 is None && env.program_files is Some ==> install_folder(env)
            == joined_path(env.program_files->0, "MH Monitoring"@),
        env.program_w6432 is None && env.program_files is None ==> install_folder(env)
            == joined_path("C:\\Program Files"@, "MH Monitoring"@),
{
}

/// The step stands once among the steps, at some place.
pub open spec fn stands_once(steps: Seq<InstallStepView>, step: InstallStepView, at: int) -> bool {
    &&& 0 <= at < steps.len()
    &&& steps[at] == step
    &&& forall|i: int| 0 <= i < steps.len() && #[trigger] steps[i] == step ==> i == at
}

/// An installation makes its folder, takes the old service away before a file is touched, puts the
/// program and the service into the folder, and then registers one service: the file of the
/// service that it has put there.
pub proof fn law_installed_service_is_the_placed_one(env: EnvironmentView, source: Seq<char>)
    ensures
        ({
            let steps = install_steps(env, source);
            let folder = install_folder(env);
            let placed = joined_path(folder, "MH-Monitoring-Service.exe"@);
            let extra: int = if normal(source) == normal(
                joined_path(folder, "MH-Monitoring.exe"@),
            ) {
                0
            } else {
                2
            };
            &&& stands_once(steps, InstallStepView::CreateFolder(folder), 0)
            &&& stands_once(steps, InstallStepView::RemoveService, 1)
            &&& stands_once(
                steps,
                InstallStepView::PlaceService { program: source, to: placed },
                2 + extra,
            )
            &&& stands_once(steps, InstallStepView::InstallService(placed), 4 + extra)
            &&& forall|i: int|
                0 <= i < steps.len() ==> {
                    &&& #[trigger] steps[i] is InstallService ==> steps[i]
                        == InstallStepView::InstallService(placed)
                    &&& steps[i] is PlaceService ==> steps[i] == (InstallStepView::PlaceService {
                        program: source,
                        to: placed,
                    })
                    &&& steps[i] is CreateFolder ==> steps[i] == InstallStepView::CreateFolder(
                        folder,
                    )
                }
        }),
{
}

/// A program that is not the installed copy itself is copied to the installation, after what runs
/// from there was ended; the installed copy is not copied onto itself.
pub proof fn law_program_is_copied_to_its_place(env: EnvironmentView, source: Seq<char>)
    ensures
        ({
            let steps = install_steps(env, source);
            let program = joined_path(install_folder(env), "MH-Monitoring.exe"@);
            &&& normal(source) != normal(program) ==> {
                &&& stands_once(steps, InstallStepView::EndProcesses(program), 2)
                &&& stands_once(
                    steps,
                    InstallStepView::CopyProgram { from: source, to: program },
                    3,
                )
            }
            &&& forall|i: int|
                0 <= i < steps.len() ==> {
                    &&& #[trigger] steps[i] is CopyProgram ==> normal(source) != normal(program)
                        && steps[i] == (InstallStepView::CopyProgram {
                        from: source,
                        to: program,
                    })
                    &&& steps[i] is EndProcesses ==> steps[i] == InstallStepView::EndProcesses(
                        program,
                    )
                    &&& steps[i] is RemoveLegacy ==> steps[i] == (InstallStepView::RemoveLegacy {
                        running: source,
                    })
                }
        }),
{
}

/// The two shortcuts, the start with Windows and the entry among the programs lead to the program
/// that was installed.
pub proof fn law_everything_leads_to_the_program(env: EnvironmentView, source: Seq<char>)
    ensures
        ({
            let steps = install_steps(env, source);
            let folder = install_folder(env);
            let program = joined_path(folder, "MH-Monitoring.exe"@);
            let menu = joined_path(
                joined_path(
                    if env.program_data is Some {
                        env.program_data->0
                    } else {
                        "C:\\ProgramData"@
                    },
                    "Microsoft\\Windows\\Start Menu\\Programs"@,
                ),
                "MH Monitoring.lnk"@,
            );
            let desktop = joined_path(
                joined_path(
                    if env.public is Some {
                        env.public->0
                    } else {
                        "C:\\Users\\Public"@
                    },
                    "Desktop"@,
                ),
                "MH Monitoring.lnk"@,
            );
            let n = steps.len() as int;
            &&& n >= 9
            &&& steps[n - 4] == (InstallStepView::CreateShortcut { link: menu, to: program })
            &&& steps[n - 3] == (InstallStepView::CreateShortcut { link: desktop, to: program })
            &&& steps[n - 2] == InstallStepView::MigrateAutostart(program)
            &&& steps[n - 1] == (InstallStepView::Register { program, folder })
            &&& forall|i: int|
                0 <= i < steps.len() ==> {
                    &&& #[trigger] steps[i] is CreateShortcut ==> i == n - 4 || i == n - 3
                    &&& steps[i] is MigrateAutostart ==> i == n - 2
                    &&& steps[i] is Register ==> i == n - 1
                }
        }),
{
}

/// The entry among the programs names the program, its version and its folder, shows its icon and
/// removes it with its own file; it says the size in kilobytes.
pub proof fn law_entry_describes_the_program(
    program: Seq<char>,
    folder: Seq<char>,
    version: Seq<char>,
    size: u64,
)
    ensures
        ({
            let entry = program_entry(program, folder, version, size);
            &&& entry.len() == 9
            &&& entry.contains(("DisplayName"@, ValueView::Text("MH Monitoring"@)))
            &&& entry.contains(("DisplayVersion"@, ValueView::Text(version)))
            &&& entry.contains(("DisplayIcon"@, ValueView::Text(program)))
            &&& entry.contains(("InstallLocation"@, ValueView::Text(folder)))
            &&& entry.contains(
                (
                    "UninstallString"@,
                    ValueView::Text(seq!['"'] + program + seq!['"'] + " --uninstall"@),
                ),
            )
            &&& size / 1024 <= u32::MAX ==> entry.contains(
                ("EstimatedSize"@, ValueView::Number((size / 1024) as u32)),
            )
        }),
{
    reveal_strlit("\"");
    let entry = program_entry(program, folder, version, size);
    assert(in_quotes(program) =~= seq!['"'] + program + seq!['"']);
    assert(entry[0] == ("DisplayName"@, ValueView::Text("MH Monitoring"@)));
    assert(entry[1] == ("DisplayVersion"@, ValueView::Text(version)));
    assert(entry[3] == ("DisplayIcon"@, ValueView::Text(program)));
    assert(entry[4] == ("InstallLocation"@, ValueView::Text(folder)));
    assert(entry[5] == (
        "UninstallString"@,
        ValueView::Text(seq!['"'] + program + seq!['"'] + " --uninstall"@),
    ));
    if size / 1024 <= u32::MAX {
        assert(entry[8] == ("EstimatedSize"@, ValueView::Number((size / 1024) as u32)));
    }
}

/// A removal begins with the service and what runs from the program, but for the process that
/// asked, and ends with the folders of the installation, which go once this process and the one
/// that asked are gone.
pub proof fn law_removal_frees_the_files_first(
    env: EnvironmentView,
    own: Option<Seq<char>>,
    pid: u32,
    caller: Option<u32>,
)
    ensures
        ({
            let steps = removal_steps(env, own, pid, caller);
            let last = steps.last();
            &&& steps.len() >= 7
            &&& steps[0] == RemovalStepView::RemoveService
            &&& steps[1] == (RemovalStepView::EndProcesses {
                program: joined_path(install_folder(env), "MH-Monitoring.exe"@),
                spared: caller,
            })
            &&& last is RemoveLater
            &&& last->folders.contains(install_folder(env))
            &&& env.system_root is Some ==> last->folders.contains(
                joined_path(
                    joined_path(
                        env.system_root->0,
                        "System32\\config\\systemprofile\\AppData\\Local"@,
                    ),
                    "MH Monitoring"@,
                ),
            )
            &&& last->folders.len() == (if env.system_root is Some {
                2nat
            } else {
                1
            })
            &&& last->waiting.contains(pid)
            &&& caller is Some ==> last->waiting.contains(caller->0)
            &&& forall|i: int|
                0 <= i < steps.len() - 1 ==> !(#[trigger] steps[i] is RemoveLater)
            &&& forall|i: int|
                0 <= i < steps.len() && #[trigger] steps[i] is RemoveLegacy ==> own is Some
                    && steps[i]->running == own->0
        }),
{
    let steps = removal_steps(env, own, pid, caller);
    let folders = installation_folders(env);
    assert(folders[0] == install_folder(env));
    if env.system_root is Some {
        assert(folders[1] == folders.last());
    }
    assert(holders(pid, caller)[0] == pid);
    if caller is Some {
        assert(holders(pid, caller)[1] == caller->0);
    }
}

/// Whoever says yes loses the program and the data, whoever says no keeps the data: with the
/// rights of an administrator at once, without them through a process that has them and knows who
/// asked. A removal that fails says why, and takes no data.
pub proof fn law_answers_decide_what_goes(data: bool, pid: u32, error: Seq<char>, code: u32)
    ensures
        ({
            let answer = if data {
                Answer::Yes
            } else {
                Answer::No
            };
            let here = removal_next(
                RemovalStage::Asking,
                RemovalEventView::Answered { answer, elevated: true, pid },
            );
            let there = removal_next(
                RemovalStage::Asking,
                RemovalEventView::Answered { answer, elevated: false, pid },
            );
            let gone = removal_next(here.0, RemovalEventView::Removed(None));
            let ran = removal_next(there.0, RemovalEventView::Ran(Ok(0)));
            &&& here.1 == RemovalActionView::Remove(None)
            &&& there.1 == RemovalActionView::RunElevated(
                "--uninstall --caller "@ + decimal(pid as nat),
            )
            &&& gone.0 is Ended && gone.1 is Finish && gone.1->remove_data == data
            &&& ran.0 is Ended && ran.1 is Finish && ran.1->remove_data == data
            &&& gone.1->text == ran.1->text
            &&& removal_next(here.0, RemovalEventView::Removed(Some(error))) == (
                RemovalStage::Ended,
                RemovalActionView::Fail(error),
            )
            &&& removal_next(there.0, RemovalEventView::Ran(Err(error))) == (
                RemovalStage::Ended,
                RemovalActionView::Fail(error),
            )
            &&& code != 0 ==> removal_next(there.0, RemovalEventView::Ran(Ok(code))).1 is Fail
        }),
{
}

/// A process that removes for another one asks nothing and takes no data.
pub proof fn law_helper_takes_no_data(arguments: Seq<Seq<char>>)
    requires
        caller_in(arguments) is Some,
    ensures
        ({
            let started = removal_next(
                RemovalStage::Begin,
                RemovalEventView::Started(arguments),
            );
            &&& started.1 == RemovalActionView::Remove(caller_in(arguments))
            &&& removal_next(started.0, RemovalEventView::Removed(None))
                == (RemovalStage::Ended, RemovalActionView::Stop(Uninstall::KeptData))
        }),
{
}

/// The service is copied from beside the program where it lies there, else taken out of the
/// program; a program that lies in the installation needs the service there already.
pub proof fn law_service_is_found(
    source: Seq<char>,
    target: Seq<char>,
    target_is_file: bool,
    sibling_is_file: bool,
    embedded: bool,
)
    ensures
        ({
            let beside = crate::paths::renamed(source, "MH-Monitoring-Service.exe"@);
            let placed = placement(source, target, target_is_file, sibling_is_file, embedded);
            let there = normal(beside) == normal(target);
            &&& there ==> (placed is Ok <==> target_is_file)
            &&& !there ==> (placed is Ok <==> sibling_is_file || embedded)
            &&& there && target_is_file ==> placed == Ok::<PlacementView, Seq<char>>(
                PlacementView::InPlace,
            )
            &&& !there && sibling_is_file ==> placed == Ok::<PlacementView, Seq<char>>(
                PlacementView::Copy(beside),
            )
            &&& !there && !sibling_is_file && embedded ==> placed == Ok::<
                PlacementView,
                Seq<char>,
            >(PlacementView::Embedded)
        }),
{
}

/// All processes that hold the program are ended, but for the one that asked.
pub proof fn law_every_process_but_the_caller_ends(pids: Seq<u32>, caller: Option<u32>, pid: u32)
    ensures
        to_end(pids, caller).contains(pid) <==> pids.contains(pid) && caller != Some(pid),
    decreases pids.len(),
{
    reveal_with_fuel(Seq::filter, 1);
    if pids.len() > 0 {
        let front = pids.drop_last();
        law_every_process_but_the_caller_ends(front, caller, pid);
        let kept = to_end(front, caller);
        if pids.contains(pid) && pid != pids.last() {
            let i = choose|i: int| 0 <= i < pids.len() && pids[i] == pid;
            assert(front[i] == pid);
        }
        if front.contains(pid) {
            let i = choose|i: int| 0 <= i < front.len() && front[i] == pid;
            assert(pids[i] == pid);
        }
        assert(pids[pids.len() - 1] == pids.last());
        let all = to_end(pids, caller);
        if kept.contains(pid) {
            let i = choose|i: int| 0 <= i < kept.len() && kept[i] == pid;
            assert(all[i] == pid);
        }
        if caller != Some(pids.last()) {
            assert(all == kept.push(pids.last()));
            assert(all[kept.len() as int] == pids.last());
        } else {
            assert(all == kept);
        }
        if all.contains(pid) && !kept.contains(pid) {
            let i = choose|i: int| 0 <= i < all.len() && all[i] == pid;
            if i < kept.len() {
                assert(kept[i] == pid);
            }
        }
    }
}

/// A path in the command that takes the files away stands between quotes, and a quote in it is
/// doubled, so that it ends nothing.
pub proof fn law_paths_are_quoted(left: Seq<char>, right: Seq<char>)
    requires
        forall|i: int| 0 <= i < left.len() ==> #[trigger] left[i] != '\'',
        forall|i: int| 0 <= i < right.len() ==> #[trigger] right[i] != '\'',
    ensures
        shell_quoted(left) == "'"@ + left + "'"@,
        shell_quoted(left + seq!['\''] + right) == "'"@ + (left + "''"@ + right) + "'"@,
{
    lemma_nothing_replaced(left);
    lemma_nothing_replaced(right);
    crate::text::law_characters_are_replaced_alone(left, seq!['\''], '\'', 'x', "''"@);
    crate::text::law_characters_are_replaced_alone(
        left + seq!['\''],
        right,
        '\'',
        'x',
        "''"@,
    );
}

proof fn lemma_nothing_replaced(s: Seq<char>)
    requires
        forall|i: int| 0 <= i < s.len() ==> #[trigger] s[i] != '\'',
    ensures
        replaced(s, '\'', "''"@) == s,
    decreases s.len(),
{
    if s.len() > 0 {
        assert(s[s.len() - 1] != '\'');
        assert forall|i: int| 0 <= i < s.drop_last().len() implies #[trigger] s.drop_last()[i]
            != '\'' by {
            assert(s.drop_last()[i] == s[i]);
        }
        lemma_nothing_replaced(s.drop_last());
        assert(s.drop_last() + seq![s.last()] =~= s);
    }
}

/// The program starts with Windows only where that is switched on: the installed copy where there
/// is one, else the one that runs.
pub proof fn law_autostart_leads_to_the_program(
    enabled: bool,
    installed: bool,
    own: Option<String>,
    env: Environment,
    r: Result<Option<String>, ()>,
)
    requires
        call_ensures(set_autostart, (enabled, installed, &own, &env), r),
    ensures
        !enabled ==> r is Ok && text_of(r->Ok_0) is None,
        enabled && installed ==> r is Ok && text_of(r->Ok_0) == Some(
            in_quotes(joined_path(install_folder(env@), "MH-Monitoring.exe"@)),
        ),
        enabled && !installed && own is Some ==> r is Ok && text_of(r->Ok_0) == Some(
            in_quotes(own->0@),
        ),
        enabled && !installed && own is None ==> r is Err,
{
}

/// An old entry for the start with Windows is taken away and leads to the new program, and so does
/// one that is there; where there was none, none is made.
pub proof fn law_autostart_moves_over(
    legacy: bool,
    enabled: bool,
    target: &str,
    r: (bool, Option<String>),
)
    requires
        call_ensures(migrate_autostart, (legacy, enabled, target), r),
    ensures
        r.0 <==> legacy,
        text_of(r.1) is Some <==> legacy || enabled,
        text_of(r.1) is Some ==> text_of(r.1)->0 == in_quotes(target@),
{
}

/// Without the rights nothing is installed and nothing is removed.
pub proof fn law_rights_are_needed(
    env: Environment,
    source: &str,
    own: Option<String>,
    pid: u32,
    caller: Option<u32>,
    installed: Result<Vec<InstallStep>, String>,
    removed: Result<Vec<RemovalStep>, String>,
)
    requires
        call_ensures(install, (&env, source, false), installed),
        call_ensures(remove_installation, (&env, &own, pid, caller, false), removed),
    ensures
        installed is Err,
        removed is Err,
        installed->Err_0@ == "нужны права администратора"@,
        removed->Err_0@ == "нужны права администратора"@,
{
}

/// The folder of the old name goes, but never while the program runs from it.
pub proof fn law_old_folder_goes(env: Environment, running: &str, exists: bool, r: Option<String>)
    requires
        call_ensures(legacy_folder, (&env, running, exists), r),
    ensures
        r matches Some(folder) ==> exists && !crate::paths::lies_in(running@, folder@),
        r is Some <==> exists && !crate::paths::lies_in(
            running@,
            joined_path(programs_folder(env@), LEGACY_APP_DIR@),
        ),
{
}

/// The three ways a removal ends have codes of their own, and only the one that kept the data has
/// the code of success.
pub proof fn law_removals_have_their_code(
    kept: u8,
    removed: u8,
    cancelled: u8,
)
    requires
        call_ensures(exit_code, (Uninstall::KeptData,), kept),
        call_ensures(exit_code, (Uninstall::RemovedData,), removed),
        call_ensures(exit_code, (Uninstall::Cancelled,), cancelled),
    ensures
        kept == 0,
        removed != kept,
        cancelled != kept,
        cancelled != removed,
        removed == EXIT_DATA_REMOVED,
        cancelled == EXIT_CANCELLED,
{
}

} // verus!
