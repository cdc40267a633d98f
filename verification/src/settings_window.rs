//! The settings window: what its pages show, and what its controls do.
//!
//! Switches and sliders take effect at once. Texts live as drafts until they are applied, or
//! every letter typed would change the target and start the capture anew.

use vstd::prelude::*;

use crate::controls::parse_hotkey;
use crate::paths::text_of;
use crate::same::same_option;
use crate::settings::copy_text;
use crate::settings::free_name;
use crate::settings::game_views;
use crate::settings::lemma_asked_list;
use crate::settings::lemma_game_views_push;
use crate::settings::listed;
use crate::settings::low_names;
use crate::settings::FpsView;
use crate::settings::GameView;
use crate::settings::HotkeysView;
use crate::settings::Settings;
use crate::settings::SettingsView;
use crate::text::chars_of;
use crate::text::decimal;
use crate::text::eq_ignore_ascii_case;
use crate::text::lowercase;
use crate::text::parse_number;
use crate::text::same_ignoring_ascii_case;
use crate::text::slice_text;
use crate::text::to_decimal;
use crate::text::to_lowercase;
use crate::text::trim;
use crate::text::trimmed;
use crate::text::views;

verus! {

#[derive(Debug, Clone, Copy, PartialEq, Eq, Structural)]
pub enum Page {
    Overlay,
    Rows,
    Fps,
    Games,
    Hotkeys,
    Service,
    About,
}

impl Default for Page {
    fn default() -> (r: Page)
        ensures
            r == Page::Overlay,
    {
        Page::Overlay
    }
}

impl Page {
    pub open spec fn name(self) -> Seq<char> {
        match self {
            Page::Overlay => "Оверлей"@,
            Page::Rows => "Строки"@,
            Page::Fps => "FPS"@,
            Page::Games => "Игры"@,
            Page::Hotkeys => "Хоткеи"@,
            Page::Service => "Установка"@,
            Page::About => "О программе"@,
        }
    }

    pub fn title(self) -> (r: &'static str)
        ensures
            r@ == self.name(),
    {
        match self {
            Page::Overlay => "Оверлей",
            Page::Rows => "Строки",
            Page::Fps => "FPS",
            Page::Games => "Игры",
            Page::Hotkeys => "Хоткеи",
            Page::Service => "Установка",
            Page::About => "О программе",
        }
    }

    /// All pages in the order in which they are listed.
    pub fn all() -> (r: [Page; 7])
        ensures
            r@ == seq![
                Page::Overlay,
                Page::Rows,
                Page::Fps,
                Page::Games,
                Page::Hotkeys,
                Page::Service,
                Page::About,
            ],
    {
        [
            Page::Overlay,
            Page::Rows,
            Page::Fps,
            Page::Games,
            Page::Hotkeys,
            Page::Service,
            Page::About,
        ]
    }
}

/// The texts before they are applied.
#[derive(Debug, PartialEq)]
pub struct Drafts {
    pub manual_process: String,
    pub manual_pid: String,
    pub presentmon_path: String,
    pub toggle_visibility: String,
    pub toggle_lock: String,
    /// The path of a game that is being added.
    pub game_path: String,
}

#[verifier::ext_equal]
pub struct DraftsView {
    pub manual_process: Seq<char>,
    pub manual_pid: Seq<char>,
    pub presentmon_path: Seq<char>,
    pub toggle_visibility: Seq<char>,
    pub toggle_lock: Seq<char>,
    pub game_path: Seq<char>,
}

impl View for Drafts {
    type V = DraftsView;

    open spec fn view(&self) -> DraftsView {
        DraftsView {
            manual_process: self.manual_process@,
            manual_pid: self.manual_pid@,
            presentmon_path: self.presentmon_path@,
            toggle_visibility: self.toggle_visibility@,
            toggle_lock: self.toggle_lock@,
            game_path: self.game_path@,
        }
    }
}

impl Default for Drafts {
    fn default() -> (r: Drafts)
        ensures
            r@ == (DraftsView {
                manual_process: seq![],
                manual_pid: seq![],
                presentmon_path: seq![],
                toggle_visibility: seq![],
                toggle_lock: seq![],
                game_path: seq![],
            }),
    {
        let r = Drafts {
            manual_process: String::new(),
            manual_pid: String::new(),
            presentmon_path: String::new(),
            toggle_visibility: String::new(),
            toggle_lock: String::new(),
            game_path: String::new(),
        };
        proof {
            assert(r.manual_process@ =~= seq![]);
            assert(r.manual_pid@ =~= seq![]);
            assert(r.presentmon_path@ =~= seq![]);
            assert(r.toggle_visibility@ =~= seq![]);
            assert(r.toggle_lock@ =~= seq![]);
            assert(r.game_path@ =~= seq![]);
        }
        r
    }
}

/// A text, or an empty one.
pub open spec fn or_empty(text: Option<Seq<char>>) -> Seq<char> {
    match text {
        Some(text) => text,
        None => seq![],
    }
}

fn text_or_empty(text: &Option<String>) -> (r: String)
    ensures
        r@ == or_empty(text_of(*text)),
{
    match text {
        Some(text) => text.clone(),
        None => {
            let r = String::new();
            proof {
                assert(r@ =~= seq![]);
            }
            r
        },
    }
}

/// The drafts that some settings begin with.
pub open spec fn drafts_of(settings: SettingsView) -> DraftsView {
    DraftsView {
        manual_process: or_empty(settings.fps.manual_process),
        manual_pid: match settings.fps.manual_pid {
            Some(pid) => decimal(pid as nat),
            None => seq![],
        },
        presentmon_path: or_empty(settings.fps.presentmon_path),
        toggle_visibility: settings.hotkeys.toggle_visibility,
        toggle_lock: settings.hotkeys.toggle_lock,
        game_path: seq![],
    }
}

/// The process number in a field: none for a blank field, else a positive number.
pub open spec fn pid_in(field: Seq<char>) -> Result<Option<u32>, Seq<char>> {
    let text = trimmed(field);
    if text.len() == 0 {
        Ok(None)
    } else {
        match crate::text::number(text, u32::MAX as nat) {
            Some(pid) if pid > 0 => Ok(Some(pid as u32)),
            _ => Err("PID — положительное целое число, а не «"@ + text + "»"@),
        }
    }
}

/// The text in a field, where it is not blank.
pub open spec fn field_text(field: Seq<char>) -> Option<Seq<char>> {
    if trimmed(field).len() == 0 {
        None
    } else {
        Some(trimmed(field))
    }
}

/// The settings with the target of the drafts, or what is wrong with them.
pub open spec fn with_target(settings: SettingsView, drafts: DraftsView) -> Result<
    SettingsView,
    Seq<char>,
> {
    match pid_in(drafts.manual_pid) {
        Err(message) => Err(message),
        Ok(pid) => Ok(
            SettingsView {
                fps: FpsView {
                    manual_process: field_text(drafts.manual_process),
                    manual_pid: pid,
                    ..settings.fps
                },
                ..settings
            },
        ),
    }
}

/// A text without the quotes around it.
pub open spec fn unquoted_start(s: Seq<char>) -> Seq<char>
    decreases s.len(),
{
    if s.len() > 0 && s[0] == '"' {
        unquoted_start(s.skip(1))
    } else {
        s
    }
}

pub open spec fn unquoted(s: Seq<char>) -> Seq<char> {
    unquoted_end(unquoted_start(s))
}

pub open spec fn unquoted_end(s: Seq<char>) -> Seq<char>
    decreases s.len(),
{
    if s.len() > 0 && s.last() == '"' {
        unquoted_end(s.drop_last())
    } else {
        s
    }
}

/// The path in a field, without the spaces and the quotes around it.
pub fn path_in(field: &str) -> (r: String)
    ensures
        r@ == unquoted(trimmed(field@)),
{
    let text = trim(field);
    let v = chars_of(text.as_str());
    let ghost all = text@;
    let mut from: usize = 0;
    proof {
        assert(all.skip(0) =~= all);
    }
    while from < v.len() && v[from] == '"'
        invariant
            from <= v.len(),
            v@ == all,
            unquoted_start(all.skip(from as int)) == unquoted_start(all),
        decreases v.len() - from,
    {
        proof {
            assert(all.skip(from as int).skip(1) =~= all.skip(from + 1));
        }
        from += 1;
    }
    let ghost rest = all.skip(from as int);
    let mut to: usize = v.len();
    proof {
        assert(unquoted_start(all) == rest);
        assert(rest.take(to - from) =~= rest);
    }
    while to > from && v[to - 1] == '"'
        invariant
            from <= to <= v.len(),
            v@ == all,
            rest == all.skip(from as int),
            unquoted_end(rest.take(to - from)) == unquoted_end(rest),
        decreases to,
    {
        proof {
            assert(rest.take(to - from).drop_last() =~= rest.take(to - 1 - from));
            assert(rest.take(to - from).last() == v@[to - 1]);
        }
        to -= 1;
    }
    proof {
        assert(rest.take(to - from) =~= all.subrange(from as int, to as int));
        if to > from {
            assert(rest.take(to - from).last() == v@[to - 1]);
        }
    }
    slice_text(&v, from, to)
}

/// The settings with the PresentMon of the drafts: none for a blank field, else a file that is
/// there.
pub open spec fn with_presentmon(settings: SettingsView, path: Seq<char>, is_file: bool) -> Result<
    SettingsView,
    Seq<char>,
> {
    if path.len() == 0 {
        Ok(
            SettingsView {
                fps: FpsView { presentmon_path: None, ..settings.fps },
                ..settings
            },
        )
    } else if !is_file {
        Err("файл не найден: "@ + path)
    } else {
        Ok(
            SettingsView {
                fps: FpsView { presentmon_path: Some(path), ..settings.fps },
                ..settings
            },
        )
    }
}

/// The settings with the hotkeys of the drafts, given whether each names a hotkey.
pub open spec fn with_hotkeys(
    settings: SettingsView,
    visibility: Seq<char>,
    visibility_works: bool,
    lock: Seq<char>,
    lock_works: bool,
) -> Result<SettingsView, Seq<char>> {
    if !visibility_works {
        Err(unknown_hotkey(visibility))
    } else if !lock_works {
        Err(unknown_hotkey(lock))
    } else if same_ignoring_ascii_case(visibility, lock) {
        Err("у двух действий одно сочетание"@)
    } else {
        Ok(
            SettingsView {
                hotkeys: HotkeysView { toggle_visibility: visibility, toggle_lock: lock },
                ..settings
            },
        )
    }
}

pub open spec fn unknown_hotkey(text: Seq<char>) -> Seq<char> {
    "не разобрано сочетание «"@ + text + "»; пример: Ctrl+Shift+F11"@
}

/// Some settings after an attempt to change them: as they were where it failed.
pub open spec fn after_attempt(
    before: SettingsView,
    attempt: Result<SettingsView, Seq<char>>,
) -> SettingsView {
    match attempt {
        Ok(settings) => settings,
        Err(_) => before,
    }
}

/// The outcome of an attempt.
pub open spec fn outcome(attempt: Result<SettingsView, Seq<char>>) -> Result<(), Seq<char>> {
    match attempt {
        Ok(_) => Ok(()),
        Err(message) => Err(message),
    }
}

/// Changes the hotkeys, given whether each of the texts names a hotkey.
pub fn set_hotkeys(
    settings: &mut Settings,
    visibility: String,
    visibility_works: bool,
    lock: String,
    lock_works: bool,
) -> (r: Result<(), String>)
    ensures
        crate::cli::error_view(r) == outcome(
            with_hotkeys(old(settings)@, visibility@, visibility_works, lock@, lock_works),
        ),
        final(settings)@ == after_attempt(
            old(settings)@,
            with_hotkeys(old(settings)@, visibility@, visibility_works, lock@, lock_works),
        ),
{
    if !visibility_works {
        return Err(unknown_hotkey_text(visibility.as_str()));
    }
    if !lock_works {
        return Err(unknown_hotkey_text(lock.as_str()));
    }
    if eq_ignore_ascii_case(visibility.as_str(), lock.as_str()) {
        return Err("у двух действий одно сочетание".to_string());
    }
    settings.hotkeys.toggle_visibility = visibility;
    settings.hotkeys.toggle_lock = lock;
    Ok(())
}

fn unknown_hotkey_text(text: &str) -> (r: String)
    ensures
        r@ == unknown_hotkey(text@),
{
    let mut message = "не разобрано сочетание «".to_string();
    message.append(text);
    message.append("»; пример: Ctrl+Shift+F11");
    message
}

impl Drafts {
    pub fn from_settings(settings: &Settings) -> (r: Drafts)
        ensures
            r@ == drafts_of(settings@),
    {
        let manual_pid = match settings.fps.manual_pid {
            Some(pid) => to_decimal(pid as u64),
            None => text_or_empty(&None),
        };
        let r = Drafts {
            manual_process: text_or_empty(&settings.fps.manual_process),
            manual_pid,
            presentmon_path: text_or_empty(&settings.fps.presentmon_path),
            toggle_visibility: settings.hotkeys.toggle_visibility.clone(),
            toggle_lock: settings.hotkeys.toggle_lock.clone(),
            game_path: text_or_empty(&None),
        };
        r
    }

    /// The target: a name and a number. Where they are wrong nothing changes.
    pub fn apply_target(&self, settings: &mut Settings) -> (r: Result<(), String>)
        ensures
            crate::cli::error_view(r) == outcome(with_target(old(settings)@, self@)),
            final(settings)@ == after_attempt(old(settings)@, with_target(old(settings)@, self@)),
    {
        let text = trim(self.manual_pid.as_str());
        let pid = if text.as_str().is_empty() {
            None
        } else {
            let number: u64 = match parse_number(text.as_str(), u32::MAX as u64) {
                Some(pid) => pid,
                None => 0,
            };
            if number == 0 {
                let mut message = "PID — положительное целое число, а не «".to_string();
                message.append(text.as_str());
                message.append("»");
                return Err(message);
            }
            Some(number as u32)
        };
        let name = trim(self.manual_process.as_str());
        settings.fps.manual_process = if name.as_str().is_empty() {
            None
        } else {
            Some(name)
        };
        settings.fps.manual_pid = pid;
        Ok(())
    }

    /// The user's own PresentMon; a blank field means the one that comes with the program.
    /// `is_file` says whether the path in the field leads to a file.
    pub fn apply_presentmon(&self, settings: &mut Settings, is_file: bool) -> (r: Result<
        (),
        String,
    >)
        ensures
            crate::cli::error_view(r) == outcome(
                with_presentmon(
                    old(settings)@,
                    unquoted(trimmed(self@.presentmon_path)),
                    is_file,
                ),
            ),
            final(settings)@ == after_attempt(
                old(settings)@,
                with_presentmon(
                    old(settings)@,
                    unquoted(trimmed(self@.presentmon_path)),
                    is_file,
                ),
            ),
    {
        let path = path_in(self.presentmon_path.as_str());
        if path.as_str().is_empty() {
            settings.fps.presentmon_path = None;
            return Ok(());
        }
        if !is_file {
            let mut message = "файл не найден: ".to_string();
            message.append(path.as_str());
            return Err(message);
        }
        settings.fps.presentmon_path = Some(path);
        Ok(())
    }

    pub fn apply_hotkeys(&self, settings: &mut Settings) -> (r: Result<(), String>)
        ensures
            ({
                let visibility = trimmed(self@.toggle_visibility);
                let lock = trimmed(self@.toggle_lock);
                let attempt = with_hotkeys(
                    old(settings)@,
                    visibility,
                    crate::controls::hotkey_number(visibility) is Some,
                    lock,
                    crate::controls::hotkey_number(lock) is Some,
                );
                &&& crate::cli::error_view(r) == outcome(attempt)
                &&& final(settings)@ == after_attempt(old(settings)@, attempt)
            }),
    {
        let visibility = trim(self.toggle_visibility.as_str());
        let lock = trim(self.toggle_lock.as_str());
        let visibility_works = parse_hotkey(visibility.as_str()).is_some();
        let lock_works = parse_hotkey(lock.as_str()).is_some();
        set_hotkeys(settings, visibility, visibility_works, lock, lock_works)
    }
}

/// What the user asks to be done with the installation. The program does it: it wants more
/// rights.
#[derive(Debug, Clone, Copy, PartialEq, Eq, Structural)]
pub enum ServiceRequest {
    /// Install or update the copy with its service.
    Install,
    Uninstall,
    /// Start a service that stands still.
    StartService,
}

/// A target that settings hold is the one that their drafts apply, where the name has no spaces
/// around it and is not empty, and the number is not zero.
pub proof fn law_target_survives_the_drafts(from: SettingsView, to: SettingsView)
    requires
        from.fps.manual_process matches Some(name) ==> name.len() > 0 && trimmed(name) == name,
        from.fps.manual_pid != Some(0u32),
    ensures
        ({
            let applied = with_target(to, drafts_of(from));
            &&& applied is Ok
            &&& applied->Ok_0.fps.manual_process == from.fps.manual_process
            &&& applied->Ok_0.fps.manual_pid == from.fps.manual_pid
        }),
{
    let empty = Seq::<char>::empty();
    assert(trimmed(empty) =~= empty) by {
        crate::text::lemma_trimmed_fixed(empty);
    }
    if let Some(pid) = from.fps.manual_pid {
        crate::text::lemma_decimal_reads_back(pid as nat, u32::MAX as nat);
        crate::text::lemma_decimal_digits(pid as nat);
        crate::text::lemma_trimmed_fixed(decimal(pid as nat));
    }
}

// --- games ---

/// The profile of a game that is being added: a known game gets its arguments, and the name is
/// one that no other game has.
pub open spec fn new_game(games: Seq<GameView>, path: Seq<char>) -> GameView {
    let preset = crate::games::preset_of(path);
    GameView {
        name: free_name(crate::games::base_name(path), low_names(games)),
        path,
        arguments: match preset {
            Some(preset) => preset.arguments,
            None => seq![],
        },
        borderless: preset is Some,
        window_exe: match preset {
            Some(preset) => preset.window,
            None => None,
        },
    }
}

/// Whether a path ends as a program does.
pub open spec fn names_a_program(path: Seq<char>) -> bool {
    match crate::paths::name_of(path) {
        Some(name) => match crate::paths::suffix(name) {
            Some(ext) => same_ignoring_ascii_case(ext, "exe"@),
            None => false,
        },
        None => false,
    }
}

/// What is said of a game that was added.
pub open spec fn added_text(game: GameView) -> Seq<char> {
    if game.arguments.len() == 0 {
        "добавлено: "@ + game.name
    } else {
        "добавлено: "@ + game.name + "; параметры "@ + game.arguments + " подставлены"@
    }
}

/// An attempt to add a game: the settings and what to say, or why not.
pub open spec fn with_game(settings: SettingsView, path: Seq<char>, is_file: bool) -> Result<
    (SettingsView, Seq<char>),
    Seq<char>,
> {
    if path.len() == 0 {
        Err("укажите файл игры"@)
    } else if !names_a_program(path) || !is_file {
        Err("это не файл .exe: "@ + path)
    } else {
        let game = new_game(settings.games, path);
        Ok((SettingsView { games: settings.games.push(game), ..settings }, added_text(game)))
    }
}

fn low_names_of(games: &Vec<crate::settings::GameProfile>) -> (r: Vec<String>)
    ensures
        views(r@) == low_names(game_views(games@)),
{
    let ghost all = low_names(game_views(games@));
    let mut names: Vec<String> = Vec::new();
    let mut i: usize = 0;
    while i < games.len()
        invariant
            i <= games.len(),
            all == low_names(game_views(games@)),
            views(names@) == all.take(i as int),
        decreases games.len() - i,
    {
        let name = to_lowercase(games[i].name.as_str());
        proof {
            crate::text::lemma_views_push(names@, name);
            assert(all.take(i + 1) =~= all.take(i as int).push(name@));
        }
        names.push(name);
        i += 1;
    }
    proof {
        assert(all.take(i as int) =~= all);
    }
    names
}

/// Adds the profile of a game. What to say to the user, or why it cannot be added.
pub fn add_game(settings: &mut Settings, path: &str, is_file: bool) -> (r: Result<String, String>)
    ensures
        match with_game(old(settings)@, path@, is_file) {
            Ok((after, text)) => r is Ok && r->Ok_0@ == text && final(settings)@ == after,
            Err(message) => r is Err && r->Err_0@ == message && final(settings)@ == old(
                settings,
            )@,
        },
{
    if path.is_empty() {
        return Err("укажите файл игры".to_string());
    }
    let is_exe = match crate::paths::extension(path) {
        Some(ext) => eq_ignore_ascii_case(ext.as_str(), "exe"),
        None => false,
    };
    if !is_exe || !is_file {
        let mut message = "это не файл .exe: ".to_string();
        message.append(path);
        return Err(message);
    }
    let names = low_names_of(&settings.games);
    let ghost taken = views(names@);
    let asked = |name: &str| -> (b: bool)
        ensures
            b == views(names@).contains(name@),
        { listed(&names, name) };
    let ghost asked_of = asked;
    let profile = crate::games::profile_for(path, asked);
    proof {
        lemma_asked_list(asked_of, crate::games::base_name(path@), taken, profile@.name);
    }
    let mut text = "добавлено: ".to_string();
    text.append(profile.name.as_str());
    if !profile.arguments.as_str().is_empty() {
        text.append("; параметры ");
        text.append(profile.arguments.as_str());
        text.append(" подставлены");
    }
    proof {
        lemma_game_views_push(settings.games@, profile);
        assert(profile@ =~= new_game(settings@.games, path@));
    }
    settings.games.push(profile);
    Ok(text)
}

/// A game that is added gets a name that no other game has, whatever the case, unless every
/// number behind the name is taken.
pub proof fn law_added_games_have_names_of_their_own(games: Seq<GameView>, path: Seq<char>)
    ensures
        ({
            let game = new_game(games, path);
            ||| !low_names(games).contains(lowercase(game.name))
            ||| forall|k: nat|
                1 <= k <= crate::games::LAST_NUMBER ==> low_names(games).contains(
                    lowercase(#[trigger] crate::games::candidate(game.name, k)),
                )
        }),
{
    crate::settings::lemma_free_number_is_free(
        crate::games::base_name(path),
        low_names(games),
        1,
    );
}

// --- the window ---

/// How the last attempt on a page went.
#[derive(Debug, PartialEq)]
pub struct Status {
    pub page: Page,
    pub text: String,
    pub is_error: bool,
}

#[verifier::ext_equal]
pub struct StatusView {
    pub page: Page,
    pub text: Seq<char>,
    pub is_error: bool,
}

pub open spec fn status_view(status: Option<Status>) -> Option<StatusView> {
    match status {
        Some(status) => Some(
            StatusView { page: status.page, text: status.text@, is_error: status.is_error },
        ),
        None => None,
    }
}

/// What is known of the installation.
#[derive(Debug)]
pub struct InstallState {
    pub installed_version: Option<String>,
    pub running_installed: bool,
    pub autostart: bool,
    pub service_exe: Option<String>,
    pub service_running: bool,
    /// When it was asked for, in milliseconds.
    pub checked: u64,
}

/// How long what is known of the installation counts, in milliseconds.
pub const INSTALL_STATE_FOR: u64 = 2000;

#[derive(Debug)]
pub struct SettingsWindow {
    pub open: bool,
    pub page: Page,
    pub drafts: Drafts,
    pub status: Option<Status>,
    /// Something has changed that takes effect after a restart.
    pub restart_needed: bool,
    /// The journal has the first frame of the window.
    pub first_frame_logged: bool,
    /// Bring the window to the front with the next frame.
    pub focus_pending: bool,
    /// The dialog for the file of a game is open.
    pub picking: bool,
}

#[verifier::ext_equal]
pub struct WindowView {
    pub open: bool,
    pub page: Page,
    pub drafts: DraftsView,
    pub status: Option<StatusView>,
    pub restart_needed: bool,
    pub first_frame_logged: bool,
    pub focus_pending: bool,
    pub picking: bool,
}

impl View for SettingsWindow {
    type V = WindowView;

    open spec fn view(&self) -> WindowView {
        WindowView {
            open: self.open,
            page: self.page,
            drafts: self.drafts@,
            status: status_view(self.status),
            restart_needed: self.restart_needed,
            first_frame_logged: self.first_frame_logged,
            focus_pending: self.focus_pending,
            picking: self.picking,
        }
    }
}

impl Default for SettingsWindow {
    fn default() -> (r: SettingsWindow)
        ensures
            !r@.open,
            r@.page == Page::Overlay,
            r@.drafts == (DraftsView {
                manual_process: seq![],
                manual_pid: seq![],
                presentmon_path: seq![],
                toggle_visibility: seq![],
                toggle_lock: seq![],
                game_path: seq![],
            }),
            r@.status is None,
            !r@.restart_needed,
            !r@.first_frame_logged,
            !r@.focus_pending,
            !r@.picking,
    {
        SettingsWindow {
            open: false,
            page: Page::Overlay,
            drafts: Drafts::default(),
            status: None,
            restart_needed: false,
            first_frame_logged: false,
            focus_pending: false,
            picking: false,
        }
    }
}

/// The window after it was opened: fresh drafts, unless it was open.
pub open spec fn opened(window: WindowView, settings: SettingsView) -> WindowView {
    if window.open {
        WindowView { focus_pending: true, ..window }
    } else {
        WindowView {
            open: true,
            drafts: drafts_of(settings),
            status: None,
            first_frame_logged: false,
            focus_pending: true,
            ..window
        }
    }
}

/// How an attempt went, for its page.
pub open spec fn reported(page: Page, result: Result<(), Seq<char>>, ok: Seq<char>) -> Option<
    StatusView,
> {
    match result {
        Ok(_) => Some(StatusView { page, text: ok, is_error: false }),
        Err(error) => Some(StatusView { page, text: error, is_error: true }),
    }
}

/// What a frame of the window begins with.
#[derive(Debug, Clone, Copy, PartialEq, Eq, Structural)]
pub struct FrameStart {
    pub log_first_frame: bool,
    pub focus: bool,
}

impl SettingsWindow {
    /// Opens the window. Whether that is news for the journal.
    pub fn open(&mut self, settings: &Settings) -> (r: bool)
        ensures
            final(self)@ == opened(old(self)@, settings@),
            r == !old(self).open,
    {
        let news = !self.open;
        if news {
            self.drafts = Drafts::from_settings(settings);
            self.status = None;
            self.first_frame_logged = false;
        }
        self.open = true;
        self.focus_pending = true;
        news
    }

    /// Opens the window on a page.
    pub fn open_page(&mut self, settings: &Settings, page: Page) -> (r: bool)
        ensures
            final(self)@ == (WindowView { page, ..opened(old(self)@, settings@) }),
            r == !old(self).open,
    {
        let news = self.open(settings);
        self.page = page;
        news
    }

    /// Begins a frame of the open window.
    pub fn begin_frame(&mut self, close_requested: bool) -> (r: FrameStart)
        ensures
            r.log_first_frame == !old(self).first_frame_logged,
            r.focus == old(self).focus_pending,
            final(self)@ == (WindowView {
                first_frame_logged: true,
                focus_pending: false,
                open: old(self).open && !close_requested,
                ..old(self)@
            }),
    {
        let start = FrameStart {
            log_first_frame: !self.first_frame_logged,
            focus: self.focus_pending,
        };
        self.first_frame_logged = true;
        self.focus_pending = false;
        if close_requested {
            self.open = false;
        }
        start
    }

    pub fn report(&mut self, page: Page, result: Result<(), String>, ok: &str)
        ensures
            final(self)@ == (WindowView {
                status: reported(page, crate::cli::error_view(result), ok@),
                ..old(self)@
            }),
    {
        self.status = match result {
            Ok(()) => Some(Status { page, text: ok.to_string(), is_error: false }),
            Err(error) => Some(Status { page, text: error, is_error: true }),
        };
    }

    /// Applies the target of the drafts.
    pub fn apply_target(&mut self, settings: &mut Settings)
        ensures
            ({
                let attempt = with_target(old(settings)@, old(self)@.drafts);
                &&& final(settings)@ == after_attempt(old(settings)@, attempt)
                &&& final(self)@ == (WindowView {
                    status: reported(Page::Fps, outcome(attempt), "цель применена"@),
                    ..old(self)@
                })
            }),
    {
        let result = self.drafts.apply_target(settings);
        self.report(Page::Fps, result, "цель применена");
    }

    /// Applies the PresentMon of the drafts; another one wants a restart.
    pub fn apply_presentmon(&mut self, settings: &mut Settings, is_file: bool)
        ensures
            ({
                let attempt = with_presentmon(
                    old(settings)@,
                    unquoted(trimmed(old(self)@.drafts.presentmon_path)),
                    is_file,
                );
                let after = after_attempt(old(settings)@, attempt);
                &&& final(settings)@ == after
                &&& final(self)@ == (WindowView {
                    restart_needed: old(self)@.restart_needed || (attempt is Ok
                        && after.fps.presentmon_path != old(settings)@.fps.presentmon_path),
                    status: reported(Page::Fps, outcome(attempt), "путь сохранён"@),
                    ..old(self)@
                })
            }),
    {
        let before = copy_text(&settings.fps.presentmon_path);
        let result = self.drafts.apply_presentmon(settings, is_file);
        if result.is_ok() && !same_option(&settings.fps.presentmon_path, &before) {
            self.restart_needed = true;
        }
        self.report(Page::Fps, result, "путь сохранён");
    }

    /// Applies the hotkeys of the drafts; others want a restart.
    pub fn apply_hotkeys(&mut self, settings: &mut Settings)
        ensures
            ({
                let visibility = trimmed(old(self)@.drafts.toggle_visibility);
                let lock = trimmed(old(self)@.drafts.toggle_lock);
                let attempt = with_hotkeys(
                    old(settings)@,
                    visibility,
                    crate::controls::hotkey_number(visibility) is Some,
                    lock,
                    crate::controls::hotkey_number(lock) is Some,
                );
                let after = after_attempt(old(settings)@, attempt);
                &&& final(settings)@ == after
                &&& final(self)@ == (WindowView {
                    restart_needed: old(self)@.restart_needed || (attempt is Ok && after.hotkeys
                        != old(settings)@.hotkeys),
                    status: reported(Page::Hotkeys, outcome(attempt), "сочетания сохранены"@),
                    ..old(self)@
                })
            }),
    {
        let before = settings.hotkeys.clone();
        let result = self.drafts.apply_hotkeys(settings);
        let changed = !crate::text::same_text(
            settings.hotkeys.toggle_visibility.as_str(),
            before.toggle_visibility.as_str(),
        ) || !crate::text::same_text(
            settings.hotkeys.toggle_lock.as_str(),
            before.toggle_lock.as_str(),
        );
        if result.is_ok() && changed {
            self.restart_needed = true;
        }
        self.report(Page::Hotkeys, result, "сочетания сохранены");
    }

    /// Adds a game. Whether it was added; why not stands in the status.
    pub fn add_game(&mut self, settings: &mut Settings, path: &str, is_file: bool) -> (r: bool)
        ensures
            match with_game(old(settings)@, path@, is_file) {
                Ok((after, text)) => r && final(settings)@ == after && final(self)@ == (WindowView {
                    status: reported(Page::Games, Ok(()), text),
                    ..old(self)@
                }),
                Err(message) => !r && final(settings)@ == old(settings)@ && final(self)@ == (
                WindowView {
                    status: reported(Page::Games, Err(message), seq![]),
                    ..old(self)@
                }),
            },
    {
        match add_game(settings, path, is_file) {
            Ok(text) => {
                self.report(Page::Games, Ok(()), text.as_str());
                true
            },
            Err(message) => {
                self.report(Page::Games, Err(message), "");
                false
            },
        }
    }

    /// Adds the game of the draft, and clears the draft where it was added.
    pub fn add_drafted_game(&mut self, settings: &mut Settings, is_file: bool)
        ensures
            ({
                let path = unquoted(trimmed(old(self)@.drafts.game_path));
                match with_game(old(settings)@, path, is_file) {
                    Ok((after, text)) => final(settings)@ == after && final(self)@ == (WindowView {
                        status: reported(Page::Games, Ok(()), text),
                        drafts: DraftsView { game_path: seq![], ..old(self)@.drafts },
                        ..old(self)@
                    }),
                    Err(message) => final(settings)@ == old(settings)@ && final(self)@ == (
                    WindowView {
                        status: reported(Page::Games, Err(message), seq![]),
                        ..old(self)@
                    }),
                }
            }),
    {
        let path = path_in(self.drafts.game_path.as_str());
        if self.add_game(settings, path.as_str(), is_file) {
            self.drafts.game_path = text_or_empty(&None);
        }
    }

    /// The dialog was answered: with a file, which is added, or with none.
    pub fn picked(&mut self, settings: &mut Settings, path: &Option<String>, is_file: bool)
        ensures
            ({
                let closed = WindowView { picking: false, ..old(self)@ };
                match path {
                    None => final(settings)@ == old(settings)@ && final(self)@ == closed,
                    Some(path) => match with_game(old(settings)@, path@, is_file) {
                        Ok((after, text)) => final(settings)@ == after && final(self)@ == (
                        WindowView { status: reported(Page::Games, Ok(()), text), ..closed }),
                        Err(message) => final(settings)@ == old(settings)@ && final(self)@ == (
                        WindowView {
                            status: reported(Page::Games, Err(message), seq![]),
                            ..closed
                        }),
                    },
                }
            }),
    {
        self.picking = false;
        if let Some(path) = path {
            self.add_game(settings, path.as_str(), is_file);
        }
    }

    /// Takes a game off the list.
    pub fn remove_game(&mut self, settings: &mut Settings, index: usize)
        requires
            index < old(settings).games.len(),
        ensures
            final(settings)@ == (SettingsView {
                games: old(settings)@.games.remove(index as int),
                ..old(settings)@
            }),
            final(self)@ == (WindowView {
                status: reported(
                    Page::Games,
                    Ok(()),
                    "удалено: "@ + old(settings)@.games[index as int].name,
                ),
                ..old(self)@
            }),
    {
        let ghost before = settings.games@;
        let removed = settings.games.remove(index);
        proof {
            assert(game_views(settings.games@) =~= game_views(before).remove(index as int));
        }
        let mut text = "удалено: ".to_string();
        text.append(removed.name.as_str());
        self.report(Page::Games, Ok(()), text.as_str());
    }

    /// A game was started, or not.
    pub fn launched(&mut self, result: Result<(), String>)
        ensures
            final(self)@ == (WindowView {
                status: reported(
                    Page::Games,
                    crate::cli::error_view(result),
                    "игра запущена"@,
                ),
                ..old(self)@
            }),
    {
        self.report(Page::Games, result, "игра запущена");
    }

    /// The shortcut of a game was made at a path, or not.
    pub fn shortcut_made(&mut self, result: Result<String, String>)
        ensures
            final(self)@ == (WindowView {
                status: match result {
                    Ok(link) => reported(Page::Games, Ok(()), "ярлык создан: "@ + link@),
                    Err(error) => reported(Page::Games, Err(error@), seq![]),
                },
                ..old(self)@
            }),
    {
        match result {
            Ok(link) => {
                let mut text = "ярлык создан: ".to_string();
                text.append(link.as_str());
                self.report(Page::Games, Ok(()), text.as_str());
            },
            Err(error) => self.report(Page::Games, Err(error), ""),
        }
    }

    /// Whether to ask for the state of the installation: it is old or unknown, and nothing is
    /// being done to it.
    pub fn wants_install_state(state: &Option<InstallState>, now: u64, busy: bool) -> (r: bool)
        ensures
            r == (!busy && match state {
                Some(state) => now >= state.checked && now - state.checked >= INSTALL_STATE_FOR,
                None => true,
            }),
    {
        let fresh = match state {
            Some(state) => now < state.checked || now - state.checked < INSTALL_STATE_FOR,
            None => false,
        };
        !fresh && !busy
    }
}

/// The fields of the window begin with what the settings hold: each with its own.
pub proof fn law_drafts_begin_with_the_settings(settings: SettingsView)
    ensures
        ({
            let drafts = drafts_of(settings);
            &&& settings.fps.manual_process is Some ==> drafts.manual_process
                == settings.fps.manual_process->0
            &&& settings.fps.manual_process is None ==> drafts.manual_process.len() == 0
            &&& settings.fps.manual_pid is Some ==> drafts.manual_pid == decimal(
                settings.fps.manual_pid->0 as nat,
            )
            &&& settings.fps.manual_pid is None ==> drafts.manual_pid.len() == 0
            &&& settings.fps.presentmon_path is Some ==> drafts.presentmon_path
                == settings.fps.presentmon_path->0
            &&& settings.fps.presentmon_path is None ==> drafts.presentmon_path.len() == 0
            &&& drafts.toggle_visibility == settings.hotkeys.toggle_visibility
            &&& drafts.toggle_lock == settings.hotkeys.toggle_lock
            &&& drafts.game_path.len() == 0
        }),
{
}

/// A field changes the setting that it belongs to and nothing else: the target, the program that
/// measures and the hotkeys. What cannot be taken changes nothing.
pub proof fn law_fields_change_their_own_setting(
    settings: SettingsView,
    drafts: DraftsView,
    path: Seq<char>,
    is_file: bool,
    visibility: Seq<char>,
    lock: Seq<char>,
)
    ensures
        ({
            let target = with_target(settings, drafts);
            target matches Ok(after) ==> {
                &&& after.fps.manual_process is None <==> trimmed(drafts.manual_process).len() == 0
                &&& after.fps.manual_process is Some ==> after.fps.manual_process->0 == trimmed(
                    drafts.manual_process,
                )
                &&& after.fps.manual_pid is None <==> trimmed(drafts.manual_pid).len() == 0
                &&& after.fps.manual_pid is Some ==> after.fps.manual_pid->0 > 0
                    && crate::text::number(trimmed(drafts.manual_pid), u32::MAX as nat) == Some(
                    after.fps.manual_pid->0 as nat,
                )
                &&& after == (SettingsView {
                    fps: FpsView {
                        manual_process: after.fps.manual_process,
                        manual_pid: after.fps.manual_pid,
                        ..settings.fps
                    },
                    ..settings
                })
            }
        }),
        ({
            let measured = with_presentmon(settings, path, is_file);
            &&& measured is Ok <==> path.len() == 0 || is_file
            &&& measured matches Ok(after) ==> {
                &&& after.fps.presentmon_path == (if path.len() == 0 {
                    None
                } else {
                    Some(path)
                })
                &&& after == (SettingsView {
                    fps: FpsView {
                        presentmon_path: after.fps.presentmon_path,
                        ..settings.fps
                    },
                    ..settings
                })
            }
        }),
        ({
            let keys = with_hotkeys(settings, visibility, true, lock, true);
            &&& keys is Ok <==> !same_ignoring_ascii_case(visibility, lock)
            &&& keys matches Ok(after) ==> {
                &&& after.hotkeys.toggle_visibility == visibility
                &&& after.hotkeys.toggle_lock == lock
                &&& after == (SettingsView { hotkeys: after.hotkeys, ..settings })
            }
        }),
        with_hotkeys(settings, visibility, false, lock, true) is Err,
        with_hotkeys(settings, visibility, true, lock, false) is Err,
{
}

/// A game that is added comes last, with its file, and changes nothing else; only a program that is
/// there can be added.
pub proof fn law_added_games_come_last(settings: SettingsView, path: Seq<char>, is_file: bool)
    ensures
        with_game(settings, path, is_file) is Ok <==> path.len() > 0 && names_a_program(path)
            && is_file,
        with_game(settings, path, is_file) matches Ok((after, said)) ==> {
            &&& after.games.len() == settings.games.len() + 1
            &&& after.games.take(settings.games.len() as int) == settings.games
            &&& after.games.last().path == path
            &&& after == (SettingsView { games: after.games, ..settings })
        },
{
    if path.len() > 0 && names_a_program(path) && is_file {
        let after = (with_game(settings, path, is_file)->Ok_0).0;
        assert(after.games.take(settings.games.len() as int) =~= settings.games);
    }
}

/// A path in a field loses the quotes around it and nothing else.
pub proof fn law_quotes_around_a_path_go(path: Seq<char>)
    requires
        path.len() > 0,
        path[0] != '"',
        path.last() != '"',
    ensures
        unquoted(path) == path,
        unquoted(seq!['"'] + path + seq!['"']) == path,
{
    let quoted = seq!['"'] + path + seq!['"'];
    let inner = path + seq!['"'];
    assert(quoted.skip(1) =~= inner);
    reveal_with_fuel(unquoted_start, 2);
    reveal_with_fuel(unquoted_end, 2);
    assert(unquoted_start(quoted) == inner);
    assert(inner.drop_last() =~= path);
}

/// A number in the field of the process is that process, an empty field is none, and a zero is
/// refused.
pub proof fn law_field_holds_a_process(pid: u32)
    ensures
        pid > 0 ==> pid_in(crate::text::decimal(pid as nat)) == Ok::<Option<u32>, Seq<char>>(
            Some(pid),
        ),
        pid_in(Seq::empty()) == Ok::<Option<u32>, Seq<char>>(None),
        pid_in(crate::text::decimal(0)) is Err,
{
    crate::text::lemma_decimal_reads_back(pid as nat, u32::MAX as nat);
    crate::text::lemma_decimal_reads_back(0, u32::MAX as nat);
    crate::text::lemma_decimal_digits(pid as nat);
    crate::text::lemma_decimal_digits(0);
    let text = crate::text::decimal(pid as nat);
    assert(crate::text::is_digit(text[0]) && crate::text::is_digit(text[text.len() - 1]));
    crate::text::lemma_trimmed_fixed(text);
    let zero = crate::text::decimal(0);
    assert(crate::text::is_digit(zero[0]) && crate::text::is_digit(zero[zero.len() - 1]));
    crate::text::lemma_trimmed_fixed(zero);
    crate::text::lemma_trimmed_fixed(Seq::empty());
}

/// A window that is open comes to the front with its drafts as they are; one that was closed begins
/// with the settings and without what was said before.
pub proof fn law_open_windows_keep_their_drafts(window: WindowView, settings: SettingsView)
    ensures
        opened(window, settings).open,
        opened(window, settings).focus_pending,
        opened(window, settings).page == window.page,
        window.open ==> opened(window, settings).drafts == window.drafts && opened(
            window,
            settings,
        ).status == window.status,
        !window.open ==> opened(window, settings).drafts == drafts_of(settings) && opened(
            window,
            settings,
        ).status is None,
{
}

/// What was tried is told on its page: what is said of success as such, and a failure with its
/// reason as an error. A failure changes no setting.
pub proof fn law_attempts_are_told(
    page: Page,
    ok: Seq<char>,
    error: Seq<char>,
    before: SettingsView,
    after: SettingsView,
)
    ensures
        reported(page, Ok(()), ok) == Some(StatusView { page, text: ok, is_error: false }),
        reported(page, Err(error), ok) == Some(StatusView { page, text: error, is_error: true }),
        after_attempt(before, Ok(after)) == after,
        after_attempt(before, Err(error)) == before,
{
}

/// A game that is removed goes alone, the others stay in their order, and it is told which one
/// went.
pub proof fn law_removed_games_go_alone(
    window: &mut SettingsWindow,
    settings: &mut Settings,
    index: usize,
)
    requires
        call_ensures(SettingsWindow::remove_game, (window, settings, index), ()),
        index < old(settings)@.games.len(),
    ensures
        final(settings)@.games.len() == old(settings)@.games.len() - 1,
        forall|i: int|
            0 <= i < index ==> #[trigger] final(settings)@.games[i] == old(settings)@.games[i],
        forall|i: int|
            index <= i < final(settings)@.games.len() ==> #[trigger] final(settings)@.games[i]
                == old(settings)@.games[i + 1],
        final(settings)@ == (SettingsView { games: final(settings)@.games, ..old(settings)@ }),
        final(window)@.status == Some(
            StatusView {
                page: Page::Games,
                text: "удалено: "@ + old(settings)@.games[index as int].name,
                is_error: false,
            },
        ),
{
}

/// A file that was picked becomes a game, and none was picked where the dialog was closed; either
/// way the dialog is over.
pub proof fn law_picked_files_become_games(
    window: &mut SettingsWindow,
    settings: &mut Settings,
    path: Option<String>,
    is_file: bool,
)
    requires
        call_ensures(SettingsWindow::picked, (window, settings, &path, is_file), ()),
    ensures
        !final(window)@.picking,
        path is None ==> final(settings)@ == old(settings)@ && final(window)@.status == old(
            window,
        )@.status,
        path matches Some(file) ==> {
            let attempt = with_game(old(settings)@, file@, is_file);
            &&& attempt is Err ==> final(settings)@ == old(settings)@ && final(window)@.status
                is Some && (final(window)@.status->0).is_error
            &&& attempt matches Ok((after, _)) ==> final(settings)@ == after
                && final(window)@.status is Some && !(final(window)@.status->0).is_error
        },
        final(window)@.drafts == old(window)@.drafts,
{
}

/// The path of a game that was added is cleared from its field; of one that was refused it stays,
/// so that it can be mended.
pub proof fn law_refused_paths_stay(
    window: &mut SettingsWindow,
    settings: &mut Settings,
    is_file: bool,
)
    requires
        call_ensures(SettingsWindow::add_drafted_game, (window, settings, is_file), ()),
    ensures
        ({
            let path = unquoted(trimmed(old(window)@.drafts.game_path));
            let attempt = with_game(old(settings)@, path, is_file);
            &&& attempt is Ok ==> final(window)@.drafts.game_path.len() == 0
            &&& attempt is Err ==> final(window)@.drafts == old(window)@.drafts && final(settings)@
                == old(settings)@
        }),
{
}

/// A window comes to the front once after it was opened, its first frame is told of once, and it
/// closes when asked to.
pub proof fn law_frames_begin(window: &mut SettingsWindow, close_requested: bool, r: FrameStart)
    requires
        call_ensures(SettingsWindow::begin_frame, (window, close_requested), r),
    ensures
        r.focus <==> old(window)@.focus_pending,
        r.log_first_frame <==> !old(window)@.first_frame_logged,
        !final(window)@.focus_pending,
        final(window)@.first_frame_logged,
        final(window)@.open <==> old(window)@.open && !close_requested,
        final(window)@.drafts == old(window)@.drafts,
{
}

/// The pages have the names that a user reads.
pub proof fn law_page_titles(value: Page, r: &'static str)
    requires
        call_ensures(Page::title, (value,), r),
    ensures
        value is Overlay ==> r@ == "Оверлей"@,
        value is Rows ==> r@ == "Строки"@,
        value is Fps ==> r@ == "FPS"@,
        value is Games ==> r@ == "Игры"@,
        value is Hotkeys ==> r@ == "Хоткеи"@,
        value is Service ==> r@ == "Установка"@,
        value is About ==> r@ == "О программе"@,
{
}

/// What is installed is looked up anew after two seconds, and never while something is done to it.
pub proof fn law_installation_is_looked_up_anew(
    state: Option<InstallState>,
    now: u64,
    busy: bool,
    r: bool,
)
    requires
        call_ensures(SettingsWindow::wants_install_state, (&state, now, busy), r),
    ensures
        busy ==> !r,
        !busy && state is None ==> r,
        !busy && state is Some ==> (r <==> now >= state->0.checked + 2000),
{
}

} // verus!
