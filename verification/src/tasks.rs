//! What the overlay sees to besides its window: its start, the writing of the settings, and the
//! installation that runs beside it.
//!
//! Times are milliseconds since the start of the program.

use vstd::prelude::*;

use crate::cli::error_view;
use crate::installer::EXIT_CANCELLED;
use crate::installer::EXIT_DATA_REMOVED;
use crate::overlay::Timer;
use crate::overlay::SERVICE_CHECK_EVERY;
use crate::paths::text_of;
use crate::same::alike;
use crate::same::same_settings;
use crate::settings::OverlaySettings;
use crate::settings::Settings;
use crate::settings::SettingsView;
use crate::settings_window::opened;
use crate::settings_window::Page;
use crate::settings_window::ServiceRequest;
use crate::settings_window::SettingsWindow;
use crate::settings_window::WindowView;
use crate::setup_window::SetupChoice;
use crate::setup_window::SetupWindow;
use crate::text::same_text;
use crate::text::to_decimal;

verus! {

/// Settings are written when they have settled, not with every step of a slider.
pub const SAVE_DELAY: u64 = 1_000;

/// How long after the start a service that stands still is noticed. At the logon it may still be
/// starting, and a question of the system would be in vain.
pub const SERVICE_START_DELAY: u64 = 5_000;

// --- writing the settings ---

/// Writes the settings when they have changed and settled.
pub struct Saver {
    /// The settings as they were written last.
    pub saved: Settings,
    /// When the change is written.
    pub due: Option<u64>,
}

/// When a change is written, seen at `now`.
pub open spec fn save_time(
    settings: SettingsView,
    saved: SettingsView,
    due: Option<u64>,
    now: u64,
) -> Option<u64> {
    if alike(settings, saved) {
        None
    } else if due is Some {
        due
    } else {
        Some((now + SAVE_DELAY) as u64)
    }
}

/// Whether a change is written at `now`. Settings that were removed are not written back.
pub open spec fn saves(
    settings: SettingsView,
    saved: SettingsView,
    due: Option<u64>,
    removed: bool,
    force: bool,
    now: u64,
) -> bool {
    match save_time(settings, saved, due, now) {
        Some(at) => !removed && (force || now >= at),
        None => false,
    }
}

impl Saver {
    pub fn new(settings: &Settings) -> (r: Saver)
        ensures
            r.saved@ == settings@,
            r.due is None,
    {
        Saver { saved: settings.clone(), due: None }
    }

    /// Whether to write the settings now.
    pub fn is_due(&mut self, settings: &Settings, removed: bool, force: bool, now: u64) -> (r: bool)
        requires
            now + SAVE_DELAY <= u64::MAX,
        ensures
            r == saves(settings@, old(self).saved@, old(self).due, removed, force, now),
            final(self).saved == old(self).saved,
            final(self).due == (if r {
                None
            } else {
                save_time(settings@, old(self).saved@, old(self).due, now)
            }),
    {
        if same_settings(settings, &self.saved) {
            self.due = None;
        } else if self.due.is_none() {
            self.due = Some(now + SAVE_DELAY);
        }
        let due = match self.due {
            Some(at) => !removed && (force || now >= at),
            None => false,
        };
        if due {
            self.due = None;
        }
        due
    }

    /// The settings are written. Where that failed this is not called, and the next change tries
    /// again.
    pub fn written(&mut self, settings: &Settings)
        ensures
            final(self).saved@ == settings@,
            final(self).due == old(self).due,
    {
        self.saved = settings.clone();
    }
}

/// A change is written after the delay and not before, as long as it lasts.
pub proof fn law_changes_are_written(
    settings: SettingsView,
    saved: SettingsView,
    first: u64,
    later: u64,
)
    requires
        !alike(settings, saved),
        first + 1_000 <= u64::MAX,
    ensures
        !saves(settings, saved, None, false, false, first),
        saves(settings, saved, save_time(settings, saved, None, first), false, false, later) == (
        later >= first + 1_000),
{
}

/// Settings that nobody changed are not written, nor are settings that were removed.
pub proof fn law_nothing_is_written_in_vain(
    settings: SettingsView,
    saved: SettingsView,
    due: Option<u64>,
    removed: bool,
    force: bool,
    now: u64,
)
    requires
        alike(settings, saved) || removed,
    ensures
        !saves(settings, saved, due, removed, force, now),
{
}

/// On exit a change is written at once.
pub proof fn law_exit_writes_changes(
    settings: SettingsView,
    saved: SettingsView,
    due: Option<u64>,
    now: u64,
)
    requires
        !alike(settings, saved),
    ensures
        saves(settings, saved, due, false, true, now),
{
}

// --- the installation beside the overlay ---

/// An installation or a removal that runs while the user answers questions.
#[derive(Debug)]
pub struct ServiceTask {
    pub busy: bool,
    /// How it stands with the last one, for the window of the settings.
    pub status: Option<String>,
    /// After the removal of the service: go on with the engine here.
    pub pending_local: bool,
    /// After the installation of another copy: start it and leave.
    pub pending_handover: bool,
}

#[verifier::ext_equal]
pub struct TaskView {
    pub busy: bool,
    pub status: Option<Seq<char>>,
    pub pending_local: bool,
    pub pending_handover: bool,
}

impl View for ServiceTask {
    type V = TaskView;

    open spec fn view(&self) -> TaskView {
        TaskView {
            busy: self.busy,
            status: text_of(self.status),
            pending_local: self.pending_local,
            pending_handover: self.pending_handover,
        }
    }
}

/// The argument that a copy of the program is started with.
pub open spec fn argument_of(request: ServiceRequest) -> Seq<char> {
    match request {
        ServiceRequest::Install => "--install"@,
        ServiceRequest::Uninstall => "--uninstall"@,
        ServiceRequest::StartService => "--start-service"@,
    }
}

/// What is pending after a request.
pub open spec fn requested(
    task: TaskView,
    request: ServiceRequest,
    running_installed: bool,
) -> TaskView {
    TaskView {
        busy: true,
        status: Some("ожидание подтверждения UAC…"@),
        pending_local: task.pending_local || request is Uninstall,
        pending_handover: if request is Install {
            !running_installed
        } else {
            task.pending_handover
        },
    }
}

/// How a task has ended.
#[derive(Debug)]
pub enum TaskEnd {
    Code(u8),
    Failed(String),
    /// Nobody knows: the thread is gone.
    Lost,
}

pub enum EndView {
    Code(u8),
    Failed(Seq<char>),
    Lost,
}

impl View for TaskEnd {
    type V = EndView;

    open spec fn view(&self) -> EndView {
        match self {
            TaskEnd::Code(code) => EndView::Code(*code),
            TaskEnd::Failed(error) => EndView::Failed(error@),
            TaskEnd::Lost => EndView::Lost,
        }
    }
}

/// The end of a task in words.
pub open spec fn end_text(end: EndView) -> Seq<char> {
    match end {
        EndView::Code(code) => if code == EXIT_CANCELLED {
            "отменено"@
        } else {
            "готово"@
        },
        EndView::Failed(error) => "не удалось: "@ + error,
        EndView::Lost => "не удалось"@,
    }
}

/// The task was done.
pub open spec fn succeeded(end: EndView) -> bool {
    end is Code && end->Code_0 != EXIT_CANCELLED
}

/// What follows from the end of a task.
#[derive(Debug)]
pub struct Finished {
    /// For the journal.
    pub text: String,
    /// For the window of the first start.
    pub setup_status: Option<String>,
    /// The data of the user is removed: the overlay leaves and writes no settings back.
    pub data_removed: bool,
    /// Start the installed copy.
    pub launch: bool,
    /// Go on with the engine here.
    pub start_local: bool,
}

#[verifier::ext_equal]
pub struct FinishedView {
    pub text: Seq<char>,
    pub setup_status: Option<Seq<char>>,
    pub data_removed: bool,
    pub launch: bool,
    pub start_local: bool,
}

impl View for Finished {
    type V = FinishedView;

    open spec fn view(&self) -> FinishedView {
        FinishedView {
            text: self.text@,
            setup_status: text_of(self.setup_status),
            data_removed: self.data_removed,
            launch: self.launch,
            start_local: self.start_local,
        }
    }
}

/// What follows from the end of a task. The window of the first start waits for its installation.
pub open spec fn finished(task: TaskView, end: EndView, setup_open: bool, is_local: bool) -> FinishedView {
    let cancelled = end == EndView::Code(EXIT_CANCELLED);
    FinishedView {
        text: "установка: "@ + end_text(end),
        setup_status: if setup_open && task.pending_handover && !succeeded(end) {
            Some("установка: "@ + end_text(end))
        } else {
            None
        },
        data_removed: end == EndView::Code(EXIT_DATA_REMOVED),
        launch: task.pending_handover && succeeded(end),
        start_local: task.pending_local && !cancelled && !is_local,
    }
}

impl ServiceTask {
    pub fn new() -> (r: ServiceTask)
        ensures
            r@ == (TaskView {
                busy: false,
                status: None,
                pending_local: false,
                pending_handover: false,
            }),
    {
        ServiceTask { busy: false, status: None, pending_local: false, pending_handover: false }
    }

    /// Begins what the user asks for, unless something runs. The result is the argument that the
    /// program is started with.
    pub fn request(&mut self, request: ServiceRequest, running_installed: bool) -> (r: Option<
        &'static str,
    >)
        ensures
            old(self).busy ==> r is None && *final(self) == *old(self),
            !old(self).busy ==> {
                &&& r is Some
                &&& r->0@ == argument_of(request)
                &&& final(self)@ == requested(old(self)@, request, running_installed)
            },
    {
        if self.busy {
            return None;
        }
        self.busy = true;
        self.status = Some("ожидание подтверждения UAC…".to_string());
        match request {
            ServiceRequest::Install => {
                self.pending_handover = !running_installed;
                Some("--install")
            },
            ServiceRequest::Uninstall => {
                self.pending_local = true;
                Some("--uninstall")
            },
            ServiceRequest::StartService => Some("--start-service"),
        }
    }

    /// The task has ended.
    pub fn finish(
        &mut self,
        end: TaskEnd,
        is_local: bool,
        settings: &mut Settings,
        setup: &mut SetupWindow,
    ) -> (r: Finished)
        ensures
            r@ == finished(old(self)@, end@, old(setup).open, is_local),
            final(self)@ == (TaskView {
                busy: false,
                status: Some(end_text(end@)),
                pending_local: false,
                pending_handover: false,
            }),
            ({
                let closes = old(setup).open && old(self).pending_handover && succeeded(end@);
                &&& final(settings)@ == (SettingsView {
                    setup_done: old(settings).setup_done || closes,
                    ..old(settings)@
                })
                &&& *final(setup) == (SetupWindow {
                    open: old(setup).open && !closes,
                    ..*old(setup)
                })
            }),
    {
        let code: Option<u8> = match &end {
            TaskEnd::Code(code) => Some(*code),
            _ => None,
        };
        let cancelled = match code {
            Some(code) => code == EXIT_CANCELLED,
            None => false,
        };
        let data_removed = match code {
            Some(code) => code == EXIT_DATA_REMOVED,
            None => false,
        };
        let done = code.is_some() && !cancelled;
        let text = match end {
            TaskEnd::Code(_) => if cancelled {
                "отменено".to_string()
            } else {
                "готово".to_string()
            },
            TaskEnd::Failed(error) => {
                let mut text = "не удалось: ".to_string();
                text.append(error.as_str());
                text
            },
            TaskEnd::Lost => "не удалось".to_string(),
        };
        let mut line = "установка: ".to_string();
        line.append(text.as_str());
        let mut setup_status = None;
        if setup.open && self.pending_handover {
            if done {
                settings.setup_done = true;
                setup.open = false;
            } else {
                setup_status = Some(line.clone());
            }
        }
        let launch = self.pending_handover && done;
        let start_local = self.pending_local && !cancelled && !is_local;
        self.busy = false;
        self.status = Some(text);
        self.pending_handover = false;
        self.pending_local = false;
        Finished { text: line, setup_status, data_removed, launch, start_local }
    }

    /// The installed copy was started, or was not. The result tells whether this one leaves.
    pub fn launched(&mut self, result: Result<(), String>) -> (exit: bool)
        ensures
            exit == (result is Ok),
            final(self)@ == (TaskView {
                status: match error_view(result) {
                    Ok(_) => old(self)@.status,
                    Err(error) => Some("установлено, но не запущено: "@ + error),
                },
                ..old(self)@
            }),
    {
        match result {
            Ok(()) => true,
            Err(error) => {
                let mut text = "установлено, но не запущено: ".to_string();
                text.append(error.as_str());
                self.status = Some(text);
                false
            },
        }
    }
}

/// What the code of a finished program says.
pub open spec fn code_says(code: u32) -> Result<u8, Seq<char>> {
    if code == 0 || code == EXIT_CANCELLED || code == EXIT_DATA_REMOVED {
        Ok(code as u8)
    } else {
        Err("завершилось с кодом "@ + crate::text::decimal(code as nat))
    }
}

pub fn task_result(code: u32) -> (r: Result<u8, String>)
    ensures
        error_view(r) == code_says(code),
{
    if code == 0 {
        Ok(0)
    } else if code == EXIT_CANCELLED as u32 {
        Ok(EXIT_CANCELLED)
    } else if code == EXIT_DATA_REMOVED as u32 {
        Ok(EXIT_DATA_REMOVED)
    } else {
        let mut text = "завершилось с кодом ".to_string();
        text.append(to_decimal(code as u64).as_str());
        Err(text)
    }
}

/// A removal that the user gave up changes nothing: the service goes on.
pub proof fn law_cancelled_removal_keeps_the_service(
    task: TaskView,
    setup_open: bool,
    is_local: bool,
)
    ensures
        ({
            let after = finished(task, EndView::Code(EXIT_CANCELLED), setup_open, is_local);
            !after.start_local && !after.launch && !after.data_removed
        }),
{
}

/// Only an installation from another copy ends with that copy being started, and only if it was
/// done.
pub proof fn law_handover_follows_an_installation(
    task: TaskView,
    request: ServiceRequest,
    running_installed: bool,
    end: EndView,
    setup_open: bool,
    is_local: bool,
)
    requires
        !task.pending_handover,
    ensures
        finished(
            requested(task, request, running_installed),
            end,
            setup_open,
            is_local,
        ).launch == (request is Install && !running_installed && succeeded(end)),
{
}

// --- the service ---

/// The service has appeared, and the engine here gives way to it.
pub fn check_service(timer: &mut Timer, now: u64, is_local: bool, available: bool) -> (r: bool)
    requires
        now + SERVICE_CHECK_EVERY <= u64::MAX,
    ensures
        r == (old(timer).next <= now && is_local && available),
        final(timer).next == (if old(timer).next <= now {
            (now + SERVICE_CHECK_EVERY) as u64
        } else {
            old(timer).next
        }),
{
    timer.fires(now, SERVICE_CHECK_EVERY) && is_local && available
}

/// A service that is installed and stands still: the user is asked to start it, once for a start
/// of the program.
pub fn start_stopped_service(
    due: &mut Option<u64>,
    now: u64,
    is_local: bool,
    busy: bool,
    stopped: bool,
) -> (r: bool)
    ensures
        ({
            let come = *old(due) is Some && old(due)->0 <= now;
            &&& r == (come && is_local && !busy && stopped)
            &&& *final(due) == (if come {
                None
            } else {
                *old(due)
            })
        }),
{
    let come = match *due {
        Some(at) => at <= now,
        None => false,
    };
    if !come {
        return false;
    }
    *due = None;
    is_local && !busy && stopped
}

// --- the start ---

/// What the program finds when it starts.
#[derive(Debug)]
pub struct Found {
    /// The version that is installed.
    pub installed: Option<String>,
    /// The running copy is the installed one.
    pub running_installed: bool,
    /// The program has the rights of an administrator.
    pub elevated: bool,
    /// The service does the measuring.
    pub remote: bool,
    /// The program was asked to open its settings.
    pub wants_settings: bool,
}

/// The window of the first start: without a choice there would be no frames.
pub open spec fn first_start(settings: SettingsView, found: Found) -> bool {
    !settings.setup_done && !found.running_installed && !found.elevated && !found.remote
}

/// Another version is running than is installed.
pub open spec fn outdated(found: Found, version: Seq<char>) -> bool {
    !found.running_installed && found.installed is Some && found.installed->0@ != version
}

/// The settings after the start: a window of the program shows only with the overlay.
pub open spec fn settings_started(
    settings: SettingsView,
    found: Found,
    version: Seq<char>,
) -> SettingsView {
    if first_start(settings, found) || outdated(found, version) || found.wants_settings {
        SettingsView {
            overlay: OverlaySettings { visible: true, ..settings.overlay },
            ..settings
        }
    } else {
        settings
    }
}

/// The window of the settings after the start: on the page of the installation where another
/// version is installed.
pub open spec fn window_started(
    window: WindowView,
    settings: SettingsView,
    found: Found,
    version: Seq<char>,
) -> WindowView {
    let shown = settings_started(settings, found, version);
    let offered = if !first_start(settings, found) && outdated(found, version) {
        WindowView { page: Page::Service, ..opened(window, shown) }
    } else {
        window
    };
    if found.wants_settings {
        opened(offered, shown)
    } else {
        offered
    }
}

/// What the start decides.
#[derive(Debug)]
pub struct Started {
    pub setup: SetupWindow,
    /// When a service that stands still is noticed.
    pub service_start_due: Option<u64>,
}

pub fn startup(
    settings: &mut Settings,
    window: &mut SettingsWindow,
    found: &Found,
    version: &str,
    now: u64,
) -> (r: Started)
    requires
        now + SERVICE_START_DELAY <= u64::MAX,
    ensures
        final(settings)@ == settings_started(old(settings)@, *found, version@),
        final(window)@ == window_started(old(window)@, old(settings)@, *found, version@),
        r.setup == (SetupWindow {
            open: first_start(old(settings)@, *found),
            autostart: false,
            focus_pending: first_start(old(settings)@, *found),
        }),
        r.service_start_due == (if found.installed is Some && !found.remote {
            Some((now + SERVICE_START_DELAY) as u64)
        } else {
            None
        }),
{
    let setup = !settings.setup_done && !found.running_installed && !found.elevated
        && !found.remote;
    let other = match &found.installed {
        Some(installed) => !same_text(installed.as_str(), version),
        None => false,
    };
    let ghost shown = settings_started(settings@, *found, version@);
    if setup {
        settings.overlay.visible = true;
    } else if !found.running_installed && other {
        settings.overlay.visible = true;
        proof {
            assert(settings@ == shown);
        }
        window.open_page(settings, Page::Service);
    }
    if found.wants_settings {
        settings.overlay.visible = true;
        proof {
            assert(settings@ == shown);
        }
        window.open(settings);
    }
    let service_start_due: Option<u64> = if found.installed.is_some() && !found.remote {
        Some(now + SERVICE_START_DELAY)
    } else {
        None
    };
    Started { setup: SetupWindow::new(setup), service_start_due }
}

/// Whoever was asked once and answered is not asked again, and whoever has the frames anyway is
/// not asked at all.
pub proof fn law_first_start_asks_once(settings: SettingsView, found: Found)
    requires
        settings.setup_done || found.remote || found.elevated || found.running_installed,
    ensures
        !first_start(settings, found),
{
}

// --- the window of the first start ---

/// What a choice in the window of the first start leads to.
#[derive(Debug, Clone, Copy, PartialEq, Eq, Structural)]
pub enum SetupStep {
    /// The installation is asked for. The window closes when it is done.
    Install,
    /// The program starts itself with more rights and leaves.
    Relaunch,
    /// The overlay goes on.
    Done,
}

pub fn apply_setup(settings: &mut Settings, window: &mut SetupWindow, choice: SetupChoice) -> (r:
    SetupStep)
    ensures
        r == (match choice {
            SetupChoice::Install => SetupStep::Install,
            SetupChoice::ElevateOnce => SetupStep::Relaunch,
            SetupChoice::Skip => SetupStep::Done,
        }),
        final(settings)@ == (SettingsView {
            setup_done: old(settings).setup_done || choice is Skip,
            ..old(settings)@
        }),
        *final(window) == (SetupWindow {
            open: old(window).open && !(choice is Skip),
            ..*old(window)
        }),
{
    match choice {
        SetupChoice::Install => SetupStep::Install,
        SetupChoice::ElevateOnce => SetupStep::Relaunch,
        SetupChoice::Skip => {
            settings.setup_done = true;
            window.open = false;
            SetupStep::Done
        },
    }
}

/// The program was started with more rights, or was not. The result is what the window of the
/// first start says; without it this copy leaves.
pub fn relaunched(result: Result<(), String>) -> (r: Option<String>)
    ensures
        text_of(r) == (match error_view(result) {
            Ok(_) => None,
            Err(error) => Some("не запущено: "@ + error),
        }),
{
    match result {
        Ok(()) => None,
        Err(error) => {
            let mut text = "не запущено: ".to_string();
            text.append(error.as_str());
            Some(text)
        },
    }
}

/// The end of a removal with the data makes the overlay leave; after a removal that was done the
/// overlay measures by itself; a task that failed says so in the window of the first start and
/// starts nothing.
pub proof fn law_ends_have_their_consequences(
    task: TaskView,
    end: EndView,
    setup_open: bool,
    is_local: bool,
    error: Seq<char>,
)
    ensures
        finished(task, end, setup_open, is_local).data_removed <==> end == EndView::Code(4u8),
        ({
            let gone = requested(task, ServiceRequest::Uninstall, true);
            &&& gone.busy
            &&& finished(gone, EndView::Code(0), setup_open, false).start_local
            &&& !finished(gone, EndView::Code(3), setup_open, false).start_local
            &&& !finished(gone, end, setup_open, true).start_local
        }),
        ({
            let failed = finished(task, EndView::Failed(error), setup_open, is_local);
            &&& !failed.launch
            &&& !failed.data_removed
            &&& setup_open && task.pending_handover ==> failed.setup_status is Some
            &&& !setup_open ==> failed.setup_status is None
        }),
        code_says(0) == Ok::<u8, Seq<char>>(0u8),
        code_says(3) == Ok::<u8, Seq<char>>(3u8),
        code_says(4) == Ok::<u8, Seq<char>>(4u8),
        forall|code: u32|
            code != 0 && code != 3 && code != 4 ==> (#[trigger] code_says(code)) is Err,
{
}

/// The first start asks for a choice only where none was made yet, the running copy is not the
/// installed one, and neither rights nor a service do without it. Where a window is to be seen, so
/// is the overlay; else the settings stay as they were.
pub proof fn law_start_shows_what_it_opens(
    settings: SettingsView,
    found: Found,
    version: Seq<char>,
)
    ensures
        first_start(settings, found) <==> !settings.setup_done && !found.running_installed
            && !found.elevated && !found.remote,
        first_start(settings, found) || found.wants_settings ==> settings_started(
            settings,
            found,
            version,
        ).overlay.visible,
        found.installed is Some && found.installed->0@ != version && !found.running_installed
            ==> settings_started(settings, found, version).overlay.visible,
        settings_started(settings, found, version) == (SettingsView {
            overlay: OverlaySettings {
                visible: settings_started(settings, found, version).overlay.visible,
                ..settings.overlay
            },
            ..settings
        }),
        settings.overlay.visible ==> settings_started(settings, found, version) == settings,
        settings.setup_done && !found.wants_settings && (found.installed is None
            || found.installed->0@ == version) ==> settings_started(settings, found, version)
            == settings,
{
}

/// A request makes the program do what it asks: the argument it passes is the one by which the
/// program knows the request.
pub proof fn law_requests_are_understood(program: Seq<char>, more: Seq<Seq<char>>)
    ensures
        ({
            let started = |request: ServiceRequest|
                crate::modes::mode_for(seq![program, argument_of(request)] + more);
            &&& started(ServiceRequest::Install) is Install
            &&& started(ServiceRequest::Uninstall) is Uninstall
            &&& started(ServiceRequest::StartService) is StartService
        }),
{
    crate::modes::law_first_argument_decides(
        seq![program, argument_of(ServiceRequest::Install)],
        more,
    );
    crate::modes::law_first_argument_decides(
        seq![program, argument_of(ServiceRequest::Uninstall)],
        more,
    );
    crate::modes::law_first_argument_decides(
        seq![program, argument_of(ServiceRequest::StartService)],
        more,
    );
}

/// A stopped service is started once its time has come, if the readings are made here and nothing
/// else is under way, and that time comes once.
pub proof fn law_stopped_service_is_started_once(
    due: &mut Option<u64>,
    now: u64,
    is_local: bool,
    busy: bool,
    stopped: bool,
    r: bool,
)
    requires
        call_ensures(start_stopped_service, (due, now, is_local, busy, stopped), r),
    ensures
        r ==> is_local && !busy && stopped && *final(due) is None,
        *old(due) is None ==> !r && *final(due) is None,
        *old(due) matches Some(time) ==> {
            &&& now < time ==> !r && *final(due) == *old(due)
            &&& time <= now ==> *final(due) is None && (r <==> is_local && !busy && stopped)
        },
{
}

/// The service is asked after from time to time, and taken as soon as it listens while the readings
/// are made here.
pub proof fn law_service_is_asked_after(
    timer: &mut Timer,
    now: u64,
    is_local: bool,
    available: bool,
    r: bool,
)
    requires
        call_ensures(check_service, (timer, now, is_local, available), r),
        now + 3_000 <= u64::MAX,
    ensures
        old(timer).next <= now ==> final(timer).next == now + 3_000 && (r <==> is_local
            && available),
        old(timer).next > now ==> final(timer).next == old(timer).next && !r,
{
}

/// Each choice of the first start is carried out, and only doing without it ends the asking.
pub proof fn law_first_choice_is_carried_out(
    settings: &mut Settings,
    window: &mut SetupWindow,
    choice: SetupChoice,
    r: SetupStep,
)
    requires
        call_ensures(apply_setup, (settings, window, choice), r),
    ensures
        choice is Install ==> r is Install,
        choice is ElevateOnce ==> r is Relaunch,
        choice is Skip ==> r is Done,
        choice is Skip ==> final(settings)@.setup_done && !final(window).open,
        !(choice is Skip) ==> final(settings)@.setup_done == old(settings)@.setup_done
            && final(window).open == old(window).open,
        final(settings)@.overlay == old(settings)@.overlay,
        final(settings)@.games == old(settings)@.games,
        final(window).autostart == old(window).autostart,
{
}

/// An installed service that does not answer at the start gets five seconds before it is started;
/// where it answers, or is not installed, nothing is due.
pub proof fn law_service_gets_its_time(
    settings: &mut Settings,
    window: &mut SettingsWindow,
    found: Found,
    version: &str,
    now: u64,
    r: Started,
)
    requires
        call_ensures(startup, (settings, window, &found, version, now), r),
        now + 5_000 <= u64::MAX,
    ensures
        r.service_start_due is Some <==> found.installed is Some && !found.remote,
        r.service_start_due matches Some(time) ==> time == now + 5_000,
        r.setup.open <==> first_start(old(settings)@, found),
        r.setup.focus_pending == r.setup.open,
        !r.setup.autostart,
{
}

/// A request keeps others away until it is done; after a removal the readings are made here, and
/// after an installation the installed copy takes over, unless it is the one that runs.
pub proof fn law_requests_are_remembered(
    task: TaskView,
    request: ServiceRequest,
    running_installed: bool,
)
    ensures
        ({
            let after = requested(task, request, running_installed);
            &&& after.busy
            &&& after.status is Some
            &&& request is Uninstall ==> after.pending_local
            &&& !(request is Uninstall) ==> after.pending_local == task.pending_local
            &&& request is Install ==> (after.pending_handover <==> !running_installed)
            &&& !(request is Install) ==> after.pending_handover == task.pending_handover
        }),
{
}

} // verus!
