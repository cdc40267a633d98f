//! The pages of the settings window: what each of them holds.

use vstd::prelude::*;

use crate::blocks::BlockKind;
use crate::blocks::Blocks;
use crate::blocks::BlocksView;
use crate::blocks::BlockView;
use crate::installer::install_dir;
use crate::installer::install_folder;
use crate::installer::installed_service_exe;
use crate::installer::normal;
use crate::installer::same_path;
use crate::installer::Environment;
use crate::installer::EnvironmentView;
use crate::items::blank_page;
use crate::items::button;
use crate::items::check;
use crate::items::group;
use crate::items::hint;
use crate::items::item_views;
use crate::items::note;
use crate::items::put;
use crate::items::radio;
use crate::items::text_field;
use crate::items::warning;
use crate::items::Choice;
use crate::items::Field;
use crate::items::Item;
use crate::items::ItemView;
use crate::items::Press;
use crate::items::Toggle;
use crate::paths::joined_path;
use crate::paths::text_of;
use crate::resources::SERVICE_EXE;
use crate::settings::game_views;
use crate::settings::FullscreenMode;
use crate::settings::GameProfile;
use crate::settings::GameView;
use crate::settings::Metric;
use crate::settings::MetricsView;
use crate::settings::OverlaySettings;
use crate::settings::Settings;
use crate::settings::SettingsView;
use crate::settings::TargetChoice;
use crate::settings_window::InstallState;
use crate::settings_window::Page;
use crate::settings_window::ServiceRequest;
use crate::settings_window::SettingsWindow;
use crate::settings_window::WindowView;
use crate::snapshot::FpsState;
use crate::snapshot::SectionHealth;
use crate::snapshot::Snapshot;
use crate::text::decimal;
use crate::text::to_decimal;
use crate::text::views;

verus! {

/// What the window shows and does not change.
#[derive(Debug)]
pub struct Context {
    pub settings_path: String,
    pub hotkey_errors: Vec<String>,
    /// Where the readings come from.
    pub backend: String,
    /// How the last operation on the service went.
    pub service_status: Option<String>,
    /// An operation on the service runs.
    pub service_busy: bool,
    /// The version of this program.
    pub version: String,
}

// --- the status of a page ---

/// What stands under the controls of a page: how the last attempt on it went, and that a restart
/// is due.
pub open spec fn status_items(items: Seq<ItemView>, window: WindowView, page: Page) -> Seq<
    ItemView,
> {
    let told = match window.status {
        Some(status) => if status.page == page {
            items.push(
                if status.is_error {
                    ItemView::Warning(status.text)
                } else {
                    ItemView::Note(status.text)
                },
            )
        } else {
            items
        },
        None => items,
    };
    if window.restart_needed {
        told.push(
            ItemView::Warning(
                "Часть изменений вступит в силу после перезапуска MH Monitoring."@,
            ),
        )
    } else {
        told
    }
}

fn status_line(items: &mut Vec<Item>, window: &SettingsWindow, page: Page)
    ensures
        item_views(final(items)@) == status_items(item_views(old(items)@), window@, page),
{
    if let Some(status) = &window.status {
        if status.page == page {
            if status.is_error {
                warning(items, status.text.as_str());
            } else {
                note(items, status.text.as_str());
            }
        }
    }
    if window.restart_needed {
        warning(items, "Часть изменений вступит в силу после перезапуска MH Monitoring.");
    }
}

// --- games ---

/// What a game shows.
pub open spec fn game_items(items: Seq<ItemView>, game: GameView, index: usize) -> Seq<ItemView> {
    let first = items.push(ItemView::Name(game.name)).push(ItemView::Hint(game.path)).push(
        ItemView::Text {
            field: Field::GameArguments(index),
            label: "Параметры:"@,
            placeholder: ""@,
        },
    ).push(
        ItemView::Check {
            toggle: Toggle::Borderless(index),
            label: "Без рамки на весь монитор"@,
            on: game.borderless,
        },
    );
    let hinted = match game.window_exe {
        Some(window) => first.push(
            ItemView::Hint("Рамка снимается с окна "@ + window + "."@),
        ),
        None => first,
    };
    hinted.push(
        ItemView::Button {
            press: Press::LaunchGame(index),
            label: "Запустить"@,
            enabled: true,
        },
    ).push(
        ItemView::Button {
            press: Press::MakeShortcut(index),
            label: "Ярлык на рабочем столе"@,
            enabled: true,
        },
    ).push(
        ItemView::Button { press: Press::RemoveGame(index), label: "Удалить"@, enabled: true },
    )
}

/// What all games show.
pub open spec fn all_games(items: Seq<ItemView>, games: Seq<GameView>) -> Seq<ItemView>
    decreases games.len(),
{
    if games.len() == 0 {
        items
    } else {
        game_items(
            all_games(items, games.drop_last()),
            games.last(),
            (games.len() - 1) as usize,
        )
    }
}

/// The page of games.
pub open spec fn games_items(games: Seq<GameView>, window: WindowView) -> Seq<ItemView> {
    let head = Seq::<ItemView>::empty().push(
        ItemView::Group("Старые игры без безрамочного режима"@),
    ).push(
        ItemView::Hint(
            "MH Monitoring запускает игру с параметрами (у Warcraft III 1.26 — -window) и, если отмечено, снимает с окна игры рамку и растягивает его на весь монитор. HUD тогда виден поверх игры. В игру ничего не внедряется: меняется только её окно."@,
        ),
    ).push(
        ItemView::Hint(
            "Ярлык на рабочем столе запускает игру вместе с оверлеем. Картинка игры 4:3 на широком мониторе растягивается."@,
        ),
    );
    let listed = if games.len() == 0 {
        head.push(ItemView::Note("Игр пока нет."@))
    } else {
        all_games(head, games)
    };
    status_items(
        listed.push(ItemView::Group("Добавить игру"@)).push(
            ItemView::Button {
                press: Press::PickGame,
                label: "Выбрать файл игры…"@,
                enabled: !window.picking,
            },
        ).push(
            ItemView::Text {
                field: Field::GamePath,
                label: "Или путь к .exe"@,
                placeholder: "C:\\Games\\game.exe"@,
            },
        ).push(
            ItemView::Button { press: Press::AddGame, label: "Добавить"@, enabled: true },
        ),
        window,
        Page::Games,
    )
}

fn show_game(items: &mut Vec<Item>, game: &GameProfile, index: usize)
    ensures
        item_views(final(items)@) == game_items(item_views(old(items)@), game@, index),
{
    put(items, Item::Name(game.name.clone()));
    hint(items, game.path.as_str());
    text_field(items, Field::GameArguments(index), "Параметры:", "");
    check(items, Toggle::Borderless(index), "Без рамки на весь монитор", game.borderless);
    if let Some(window) = &game.window_exe {
        let mut text = "Рамка снимается с окна ".to_string();
        text.append(window.as_str());
        text.append(".");
        hint(items, text.as_str());
    }
    button(items, Press::LaunchGame(index), "Запустить", true);
    button(items, Press::MakeShortcut(index), "Ярлык на рабочем столе", true);
    button(items, Press::RemoveGame(index), "Удалить", true);
}

pub fn games_page(window: &SettingsWindow, settings: &Settings) -> (r: Vec<Item>)
    ensures
        item_views(r@) == games_items(settings@.games, window@),
{
    let mut items = blank_page();
    group(&mut items, "Старые игры без безрамочного режима");
    hint(
        &mut items,
        "MH Monitoring запускает игру с параметрами (у Warcraft III 1.26 — -window) и, если отмечено, снимает с окна игры рамку и растягивает его на весь монитор. HUD тогда виден поверх игры. В игру ничего не внедряется: меняется только её окно.",
    );
    hint(
        &mut items,
        "Ярлык на рабочем столе запускает игру вместе с оверлеем. Картинка игры 4:3 на широком мониторе растягивается.",
    );
    let ghost games = settings@.games;
    let ghost head = item_views(items@);
    if settings.games.len() == 0 {
        note(&mut items, "Игр пока нет.");
    }
    let ghost shown = item_views(items@);
    let mut i: usize = 0;
    proof {
        assert(games.take(0) =~= seq![]);
    }
    while i < settings.games.len()
        invariant
            i <= settings.games.len(),
            games == settings@.games,
            games.len() == settings.games.len(),
            item_views(items@) == all_games(shown, games.take(i as int)),
        decreases settings.games.len() - i,
    {
        proof {
            assert(games.take(i + 1).drop_last() =~= games.take(i as int));
            assert(games.take(i + 1).last() == settings.games@[i as int]@);
        }
        show_game(&mut items, &settings.games[i], i);
        i += 1;
    }
    proof {
        assert(games.take(i as int) =~= games);
    }
    group(&mut items, "Добавить игру");
    button(&mut items, Press::PickGame, "Выбрать файл игры…", !window.picking);
    text_field(&mut items, Field::GamePath, "Или путь к .exe", "C:\\Games\\game.exe");
    button(&mut items, Press::AddGame, "Добавить", true);
    status_line(&mut items, window, Page::Games);
    items
}

// --- the service ---

/// What the button of the installation is called: nothing where the installed copy runs.
pub open spec fn install_label(installed: bool, running_installed: bool) -> Option<Seq<char>> {
    if !installed {
        Some("Установить"@)
    } else if !running_installed {
        Some("Обновить установленную"@)
    } else {
        None
    }
}

/// The part of the page on the installation.
pub open spec fn install_items(
    version: Option<Seq<char>>,
    running_installed: bool,
    this_version: Seq<char>,
    busy: bool,
    status: Option<Seq<char>>,
    env: EnvironmentView,
) -> Seq<ItemView> {
    let first = Seq::<ItemView>::empty().push(ItemView::Group("MH Monitoring"@)).push(
        ItemView::Note(
            match version {
                Some(version) => "Установлен, версия "@ + version + "."@,
                None => "Не установлен."@,
            },
        ),
    );
    let told = if running_installed {
        first
    } else {
        first.push(
            ItemView::Hint("Запущена копия "@ + this_version + " не из папки установки."@),
        )
    };
    let explained = told.push(
        ItemView::Hint(
            "Установка копирует программу в "@ + install_folder(env)
                + " и ставит службу (отдельный MH-Monitoring-Service.exe): захват кадров и температура CPU работают без прав администратора. Подтверждение UAC спросят один раз."@,
        ),
    );
    let offered = match install_label(version is Some, running_installed) {
        Some(label) => explained.push(
            ItemView::Button { press: Press::Install, label, enabled: !busy },
        ),
        None => explained,
    };
    let removable = if version is Some {
        offered.push(
            ItemView::Button { press: Press::Uninstall, label: "Удалить"@, enabled: !busy },
        )
    } else {
        offered
    };
    match status {
        Some(status) => removable.push(ItemView::Note("Последняя операция: "@ + status)),
        None => removable,
    }
}

/// The part of the page on the service: what it runs, whether it runs, and that it should run
/// the installed copy, for a file that ordinary users can write would give them its rights.
pub open spec fn service_items(
    items: Seq<ItemView>,
    backend: Seq<char>,
    service_exe: Option<Seq<char>>,
    running: bool,
    busy: bool,
    env: EnvironmentView,
) -> Seq<ItemView> {
    let first = items.push(ItemView::Group("Служба"@)).push(
        ItemView::Note("Снимки сейчас: "@ + backend),
    );
    match service_exe {
        None => first.push(ItemView::Hint("Служба не установлена."@)),
        Some(path) => {
            let named = first.push(ItemView::Hint("Служба запускает: "@ + path));
            let stopped = if running {
                named
            } else {
                named.push(
                    ItemView::Warning(
                        "Служба остановлена: без неё кадры и температура CPU недоступны."@,
                    ),
                ).push(
                    ItemView::Button {
                        press: Press::StartService,
                        label: "Запустить службу"@,
                        enabled: !busy,
                    },
                )
            };
            if normal(path) == normal(joined_path(install_folder(env), SERVICE_EXE@)) {
                stopped
            } else {
                stopped.push(
                    ItemView::Warning(
                        "Служба стоит не на установленной копии. Если этот файл лежит там, куда пишут обычные пользователи, его подмена даст права системы — переустановите программу."@,
                    ),
                )
            }
        },
    }
}

/// The page of the installation.
pub open spec fn service_page_items(
    window: WindowView,
    state: InstallState,
    info: Context,
    env: EnvironmentView,
) -> Seq<ItemView> {
    let first = install_items(
        text_of(state.installed_version),
        state.running_installed,
        info.version@,
        info.service_busy,
        text_of(info.service_status),
        env,
    ).push(ItemView::Group("Запуск"@)).push(
        ItemView::Check {
            toggle: Toggle::Autostart,
            label: "Запускать вместе с Windows"@,
            on: state.autostart,
        },
    );
    service_items(
        status_items(first, window, Page::Service),
        info.backend@,
        text_of(state.service_exe),
        state.service_running,
        info.service_busy,
        env,
    )
}

pub fn service_page(
    window: &SettingsWindow,
    state: &InstallState,
    info: &Context,
    env: &Environment,
) -> (r: Vec<Item>)
    ensures
        item_views(r@) == service_page_items(window@, *state, *info, env@),
{
    let mut items = blank_page();
    group(&mut items, "MH Monitoring");
    match &state.installed_version {
        Some(version) => {
            let mut text = "Установлен, версия ".to_string();
            text.append(version.as_str());
            text.append(".");
            note(&mut items, text.as_str());
        },
        None => note(&mut items, "Не установлен."),
    }
    if !state.running_installed {
        let mut text = "Запущена копия ".to_string();
        text.append(info.version.as_str());
        text.append(" не из папки установки.");
        hint(&mut items, text.as_str());
    }
    let mut text = "Установка копирует программу в ".to_string();
    text.append(install_dir(env).as_str());
    text.append(
        " и ставит службу (отдельный MH-Monitoring-Service.exe): захват кадров и температура CPU работают без прав администратора. Подтверждение UAC спросят один раз.",
    );
    hint(&mut items, text.as_str());
    let enabled = !info.service_busy;
    if state.installed_version.is_none() {
        button(&mut items, Press::Install, "Установить", enabled);
    } else if !state.running_installed {
        button(&mut items, Press::Install, "Обновить установленную", enabled);
    }
    if state.installed_version.is_some() {
        button(&mut items, Press::Uninstall, "Удалить", enabled);
    }
    if let Some(status) = &info.service_status {
        let mut text = "Последняя операция: ".to_string();
        text.append(status.as_str());
        note(&mut items, text.as_str());
    }
    group(&mut items, "Запуск");
    check(&mut items, Toggle::Autostart, "Запускать вместе с Windows", state.autostart);
    status_line(&mut items, window, Page::Service);
    group(&mut items, "Служба");
    let mut text = "Снимки сейчас: ".to_string();
    text.append(info.backend.as_str());
    note(&mut items, text.as_str());
    match &state.service_exe {
        Some(path) => {
            let mut text = "Служба запускает: ".to_string();
            text.append(path.as_str());
            hint(&mut items, text.as_str());
            if !state.service_running {
                warning(
                    &mut items,
                    "Служба остановлена: без неё кадры и температура CPU недоступны.",
                );
                button(&mut items, Press::StartService, "Запустить службу", enabled);
            }
            if !same_path(path.as_str(), installed_service_exe(env).as_str()) {
                warning(
                    &mut items,
                    "Служба стоит не на установленной копии. Если этот файл лежит там, куда пишут обычные пользователи, его подмена даст права системы — переустановите программу.",
                );
            }
        },
        None => hint(&mut items, "Служба не установлена."),
    }
    items
}

/// What a button of the page of the installation asks for.
pub fn request_of(press: Press) -> (r: Option<ServiceRequest>)
    ensures
        r == (match press {
            Press::Install => Some(ServiceRequest::Install),
            Press::Uninstall => Some(ServiceRequest::Uninstall),
            Press::StartService => Some(ServiceRequest::StartService),
            _ => None,
        }),
{
    match press {
        Press::Install => Some(ServiceRequest::Install),
        Press::Uninstall => Some(ServiceRequest::Uninstall),
        Press::StartService => Some(ServiceRequest::StartService),
        _ => None,
    }
}

// --- frames ---

/// The target as the page shows it.
pub open spec fn target_text(fps: FpsState) -> Seq<char> {
    match fps.target {
        Some(target) => target.executable@ + " (pid "@ + decimal(target.pid as nat) + ")"@,
        None => "—"@,
    }
}

/// What is measured now.
pub open spec fn now_items(fps: FpsState) -> Seq<ItemView> {
    let first = Seq::<ItemView>::empty().push(ItemView::Group("Сейчас"@)).push(
        ItemView::Note("Цель: "@ + target_text(fps)),
    ).push(ItemView::Note("Состояние: "@ + fps.availability.words()));
    let shown = match fps.presentation {
        Some(presentation) => first.push(ItemView::Note("Вывод: "@ + presentation@)),
        None => first,
    };
    let told = match fps.message {
        Some(message) => shown.push(ItemView::Note(message@)),
        None => shown,
    };
    let detailed = match fps.detail {
        Some(detail) => told.push(ItemView::Hint(detail@)),
        None => told,
    };
    detailed.push(
        ItemView::Hint(
            "Для захвата кадров нужна служба («Установка») или права администратора."@,
        ),
    )
}

/// The page of frames. The fields of the target belong to a target of one's own.
pub open spec fn fps_items(window: WindowView, target: TargetChoice, fps: FpsState) -> Seq<
    ItemView,
> {
    let first = now_items(fps).push(ItemView::Group("Цель"@)).push(
        ItemView::Radio {
            choice: Choice::Target(TargetChoice::Auto),
            label: "Окно в фокусе"@,
            chosen: target is Auto,
        },
    ).push(
        ItemView::Radio {
            choice: Choice::Target(TargetChoice::Manual),
            label: "Выбранный процесс"@,
            chosen: target is Manual,
        },
    );
    let asked = if target is Manual {
        first.push(
            ItemView::Text {
                field: Field::ManualProcess,
                label: "Имя процесса"@,
                placeholder: "game.exe"@,
            },
        ).push(
            ItemView::Text {
                field: Field::ManualPid,
                label: "PID (необязательно)"@,
                placeholder: "если копий несколько"@,
            },
        ).push(
            ItemView::Button { press: Press::ApplyTarget, label: "Применить"@, enabled: true },
        )
    } else {
        first
    };
    status_items(
        asked.push(ItemView::Group("PresentMon"@)).push(
            ItemView::Hint(
                "Свой PresentMon действует только без службы: служба запускает лишь вложенный — от имени системы чужой файл не запускается."@,
            ),
        ).push(
            ItemView::Text {
                field: Field::PresentMon,
                label: "Свой PresentMon.exe"@,
                placeholder: "пусто — вложенный 2.5.1"@,
            },
        ).push(
            ItemView::Button {
                press: Press::ApplyPresentMon,
                label: "Применить"@,
                enabled: true,
            },
        ),
        window,
        Page::Fps,
    )
}

pub fn fps_page(window: &SettingsWindow, settings: &Settings, fps: &FpsState) -> (r: Vec<Item>)
    ensures
        item_views(r@) == fps_items(window@, settings.fps.target, *fps),
{
    let mut items = blank_page();
    group(&mut items, "Сейчас");
    let mut text = "Цель: ".to_string();
    let mut shown = String::new();
    match &fps.target {
        Some(target) => {
            shown.append(target.executable.as_str());
            shown.append(" (pid ");
            shown.append(to_decimal(target.pid as u64).as_str());
            shown.append(")");
        },
        None => shown.append("—"),
    }
    proof {
        assert(shown@ =~= target_text(*fps));
    }
    text.append(shown.as_str());
    note(&mut items, text.as_str());
    let mut text = "Состояние: ".to_string();
    text.append(fps.availability.text());
    note(&mut items, text.as_str());
    if let Some(presentation) = &fps.presentation {
        let mut text = "Вывод: ".to_string();
        text.append(presentation.as_str());
        note(&mut items, text.as_str());
    }
    if let Some(message) = &fps.message {
        note(&mut items, message.as_str());
    }
    if let Some(detail) = &fps.detail {
        hint(&mut items, detail.as_str());
    }
    hint(
        &mut items,
        "Для захвата кадров нужна служба («Установка») или права администратора.",
    );
    group(&mut items, "Цель");
    let manual = match settings.fps.target {
        TargetChoice::Manual => true,
        TargetChoice::Auto => false,
    };
    radio(&mut items, Choice::Target(TargetChoice::Auto), "Окно в фокусе", !manual);
    radio(&mut items, Choice::Target(TargetChoice::Manual), "Выбранный процесс", manual);
    if manual {
        text_field(&mut items, Field::ManualProcess, "Имя процесса", "game.exe");
        text_field(
            &mut items,
            Field::ManualPid,
            "PID (необязательно)",
            "если копий несколько",
        );
        button(&mut items, Press::ApplyTarget, "Применить", true);
    }
    group(&mut items, "PresentMon");
    hint(
        &mut items,
        "Свой PresentMon действует только без службы: служба запускает лишь вложенный — от имени системы чужой файл не запускается.",
    );
    text_field(&mut items, Field::PresentMon, "Свой PresentMon.exe", "пусто — вложенный 2.5.1");
    button(&mut items, Press::ApplyPresentMon, "Применить", true);
    status_line(&mut items, window, Page::Fps);
    items
}

// --- hotkeys ---

/// Some warnings one under another.
pub open spec fn warnings(items: Seq<ItemView>, texts: Seq<Seq<char>>) -> Seq<ItemView>
    decreases texts.len(),
{
    if texts.len() == 0 {
        items
    } else {
        warnings(items, texts.drop_last()).push(ItemView::Warning(texts.last()))
    }
}

/// The page of hotkeys.
pub open spec fn hotkeys_items(window: WindowView, errors: Seq<Seq<char>>) -> Seq<ItemView> {
    let first = Seq::<ItemView>::empty().push(ItemView::Group("Глобальные сочетания"@)).push(
        ItemView::Text {
            field: Field::ToggleVisibility,
            label: "Показать / скрыть"@,
            placeholder: "Ctrl+Shift+F11"@,
        },
    ).push(
        ItemView::Text {
            field: Field::ToggleLock,
            label: "Заблокировать"@,
            placeholder: "Ctrl+Shift+F10"@,
        },
    ).push(ItemView::Button { press: Press::ApplyHotkeys, label: "Применить"@, enabled: true });
    warnings(status_items(first, window, Page::Hotkeys), errors)
}

pub fn hotkeys_page(window: &SettingsWindow, errors: &Vec<String>) -> (r: Vec<Item>)
    ensures
        item_views(r@) == hotkeys_items(window@, views(errors@)),
{
    let mut items = blank_page();
    group(&mut items, "Глобальные сочетания");
    text_field(&mut items, Field::ToggleVisibility, "Показать / скрыть", "Ctrl+Shift+F11");
    text_field(&mut items, Field::ToggleLock, "Заблокировать", "Ctrl+Shift+F10");
    button(&mut items, Press::ApplyHotkeys, "Применить", true);
    status_line(&mut items, window, Page::Hotkeys);
    let ghost head = item_views(items@);
    let ghost texts = views(errors@);
    let mut i: usize = 0;
    proof {
        assert(texts.take(0) =~= seq![]);
    }
    while i < errors.len()
        invariant
            i <= errors.len(),
            texts == views(errors@),
            item_views(items@) == warnings(head, texts.take(i as int)),
        decreases errors.len() - i,
    {
        proof {
            assert(texts.take(i + 1).drop_last() =~= texts.take(i as int));
        }
        warning(&mut items, errors[i].as_str());
        i += 1;
    }
    proof {
        assert(texts.take(i as int) =~= texts);
    }
    items
}

// --- the overlay ---

/// The page of the overlay.
pub open spec fn overlay_items(overlay: OverlaySettings) -> Seq<ItemView> {
    Seq::<ItemView>::empty().push(ItemView::Group("Окно"@)).push(ItemView::Opacity).push(
        ItemView::Hint("Текст всегда непрозрачный — бледнеет только фон."@),
    ).push(ItemView::Scale).push(ItemView::Hint("Масштаб действует и на это окно."@)).push(
        ItemView::Check {
            toggle: Toggle::AlwaysOnTop,
            label: "Поверх всех окон"@,
            on: overlay.always_on_top,
        },
    ).push(
        ItemView::Check {
            toggle: Toggle::Locked,
            label: "Заблокирован: мышь проходит сквозь HUD"@,
            on: overlay.locked,
        },
    ).push(
        ItemView::Check {
            toggle: Toggle::ShowHeader,
            label: "Заголовок с кнопками"@,
            on: overlay.show_header,
        },
    ).push(ItemView::Group("График"@)).push(
        ItemView::Check {
            toggle: Toggle::ShowGraph,
            label: "График frametime"@,
            on: overlay.show_graph,
        },
    ).push(ItemView::Group("Эксклюзивный полноэкранный режим"@)).push(
        ItemView::Radio {
            choice: Choice::Fullscreen(FullscreenMode::Hide),
            label: "Скрывать HUD"@,
            chosen: overlay.fullscreen is Hide,
        },
    ).push(
        ItemView::Radio {
            choice: Choice::Fullscreen(FullscreenMode::OtherMonitor),
            label: "Переносить HUD на другой монитор"@,
            chosen: overlay.fullscreen is OtherMonitor,
        },
    ).push(
        ItemView::Hint(
            "Поверх игры в этом режиме окна не видны, а перекрытая игра может перестать рисовать. На время режима HUD уходит с её монитора; без второго монитора — прячется. Надёжнее всего — безрамочный режим в самой игре."@,
        ),
    )
}

pub fn overlay_page(settings: &Settings) -> (r: Vec<Item>)
    ensures
        item_views(r@) == overlay_items(settings@.overlay),
{
    let overlay = &settings.overlay;
    let hides = match overlay.fullscreen {
        FullscreenMode::Hide => true,
        FullscreenMode::OtherMonitor => false,
    };
    let mut items = blank_page();
    group(&mut items, "Окно");
    put(&mut items, Item::Opacity);
    hint(&mut items, "Текст всегда непрозрачный — бледнеет только фон.");
    put(&mut items, Item::Scale);
    hint(&mut items, "Масштаб действует и на это окно.");
    check(&mut items, Toggle::AlwaysOnTop, "Поверх всех окон", overlay.always_on_top);
    check(
        &mut items,
        Toggle::Locked,
        "Заблокирован: мышь проходит сквозь HUD",
        overlay.locked,
    );
    check(&mut items, Toggle::ShowHeader, "Заголовок с кнопками", overlay.show_header);
    group(&mut items, "График");
    check(&mut items, Toggle::ShowGraph, "График frametime", overlay.show_graph);
    group(&mut items, "Эксклюзивный полноэкранный режим");
    radio(&mut items, Choice::Fullscreen(FullscreenMode::Hide), "Скрывать HUD", hides);
    radio(
        &mut items,
        Choice::Fullscreen(FullscreenMode::OtherMonitor),
        "Переносить HUD на другой монитор",
        !hides,
    );
    hint(
        &mut items,
        "Поверх игры в этом режиме окна не видны, а перекрытая игра может перестать рисовать. На время режима HUD уходит с её монитора; без второго монитора — прячется. Надёжнее всего — безрамочный режим в самой игре.",
    );
    items
}

// --- rows ---

pub open spec fn row_item(metrics: MetricsView, metric: Metric, label: Seq<char>) -> ItemView {
    ItemView::Check { toggle: Toggle::Row(metric), label, on: metrics.shows(metric) }
}

fn show_row(items: &mut Vec<Item>, settings: &Settings, metric: Metric, label: &str)
    ensures
        item_views(final(items)@) == item_views(old(items)@).push(
            row_item(settings@.metrics, metric, label@),
        ),
{
    let on = settings.metrics.is_enabled(metric);
    check(items, Toggle::Row(metric), label, on);
}

/// The page of rows: the blocks, then the rows of each.
pub open spec fn rows_items(settings: SettingsView) -> Seq<ItemView> {
    Seq::<ItemView>::empty().push(ItemView::Group("Секции"@)).push(
        ItemView::Check {
            toggle: Toggle::Block(BlockKind::Gpu),
            label: "GPU"@,
            on: settings.blocks.gpu.enabled,
        },
    ).push(
        ItemView::Check {
            toggle: Toggle::Block(BlockKind::Cpu),
            label: "CPU"@,
            on: settings.blocks.cpu.enabled,
        },
    ).push(
        ItemView::Check {
            toggle: Toggle::Block(BlockKind::Ram),
            label: "RAM"@,
            on: settings.blocks.ram.enabled,
        },
    ).push(
        ItemView::Check {
            toggle: Toggle::Block(BlockKind::Fps),
            label: "FPS"@,
            on: settings.blocks.fps.enabled,
        },
    ).push(
        ItemView::Check {
            toggle: Toggle::HideUnavailable,
            label: "Скрывать строки, которые эта машина не сообщает"@,
            on: settings.metrics.hide_unavailable,
        },
    ).push(ItemView::Hint("Строка, хоть раз показавшая значение, место не теряет."@)).push(ItemView::Group("GPU"@)).push(row_item(settings.metrics, Metric::GpuTemperature, "Температура"@)).push(row_item(settings.metrics, Metric::GpuClock, "Частота ядра"@)).push(row_item(settings.metrics, Metric::GpuVram, "Видеопамять"@)).push(row_item(settings.metrics, Metric::GpuPower, "Мощность"@)).push(row_item(settings.metrics, Metric::GpuFan, "Вентилятор"@)).push(ItemView::Group("CPU"@)).push(row_item(settings.metrics, Metric::CpuTemperature, "Температура"@)).push(row_item(settings.metrics, Metric::CpuClock, "Частота"@)).push(row_item(settings.metrics, Metric::CpuPower, "Мощность"@)).push(ItemView::Group("RAM"@)).push(row_item(settings.metrics, Metric::RamUsed, "Занято / всего"@)).push(ItemView::Group("FPS"@)).push(row_item(settings.metrics, Metric::FpsAverage, "Средний"@)).push(row_item(settings.metrics, Metric::FpsLow1, "1% low"@)).push(row_item(settings.metrics, Metric::FpsLow01, "0.1% low"@))
}

pub fn rows_page(settings: &Settings) -> (r: Vec<Item>)
    ensures
        item_views(r@) == rows_items(settings@),
{
    let blocks = &settings.blocks;
    let mut items = blank_page();
    group(&mut items, "Секции");
    check(&mut items, Toggle::Block(BlockKind::Gpu), "GPU", blocks.gpu.enabled);
    check(&mut items, Toggle::Block(BlockKind::Cpu), "CPU", blocks.cpu.enabled);
    check(&mut items, Toggle::Block(BlockKind::Ram), "RAM", blocks.ram.enabled);
    check(&mut items, Toggle::Block(BlockKind::Fps), "FPS", blocks.fps.enabled);
    check(
        &mut items,
        Toggle::HideUnavailable,
        "Скрывать строки, которые эта машина не сообщает",
        settings.metrics.hide_unavailable,
    );
    hint(&mut items, "Строка, хоть раз показавшая значение, место не теряет.");
    group(&mut items, "GPU");
    show_row(&mut items, settings, Metric::GpuTemperature, "Температура");
    show_row(&mut items, settings, Metric::GpuClock, "Частота ядра");
    show_row(&mut items, settings, Metric::GpuVram, "Видеопамять");
    show_row(&mut items, settings, Metric::GpuPower, "Мощность");
    show_row(&mut items, settings, Metric::GpuFan, "Вентилятор");
    group(&mut items, "CPU");
    show_row(&mut items, settings, Metric::CpuTemperature, "Температура");
    show_row(&mut items, settings, Metric::CpuClock, "Частота");
    show_row(&mut items, settings, Metric::CpuPower, "Мощность");
    group(&mut items, "RAM");
    show_row(&mut items, settings, Metric::RamUsed, "Занято / всего");
    group(&mut items, "FPS");
    show_row(&mut items, settings, Metric::FpsAverage, "Средний");
    show_row(&mut items, settings, Metric::FpsLow1, "1% low");
    show_row(&mut items, settings, Metric::FpsLow01, "0.1% low");
    items
}

// --- about ---

/// How well a part can be read.
pub open spec fn health_line(name: Seq<char>, health: SectionHealth) -> Seq<char> {
    name + ": "@ + health.status.words() + (match health.reason {
        Some(reason) => " — "@ + reason@,
        None => ""@,
    })
}

fn health_text(name: &str, health: &SectionHealth) -> (r: String)
    ensures
        r@ == health_line(name@, *health),
{
    let mut tail = String::new();
    if let Some(reason) = &health.reason {
        tail.append(" — ");
        tail.append(reason.as_str());
        proof {
            assert(tail@ =~= " — "@ + reason@);
        }
    } else {
        tail.append("");
        proof {
            assert(tail@ =~= ""@);
        }
    }
    let mut r = name.to_string();
    r.append(": ");
    r.append(health.status.text());
    r.append(tail.as_str());
    r
}

/// The page about the program.
pub open spec fn about_items(info: Context, snapshot: Snapshot) -> Seq<ItemView> {
    Seq::<ItemView>::empty().push(ItemView::Group("MH Monitoring"@)).push(
        ItemView::Note("Версия "@ + info.version@),
    ).push(ItemView::Note("Настройки: "@ + info.settings_path@)).push(
        ItemView::Hint(
            "PresentMon 2.5.1 (MIT) и модуль PawnIO AMDFamily17 (LGPL-2.1) встроены."@,
        ),
    ).push(ItemView::Hint("Шрифт Cuprum — SIL Open Font License 1.1."@)).push(
        ItemView::Group("Датчики"@),
    ).push(ItemView::Note("Железо: "@ + snapshot.hardware_status.words())).push(
        ItemView::Note(health_line("GPU"@, snapshot.gpu.health)),
    ).push(ItemView::Note(health_line("CPU"@, snapshot.cpu.health))).push(
        ItemView::Note(health_line("RAM"@, snapshot.memory.health)),
    )
}

pub fn about_page(info: &Context, snapshot: &Snapshot) -> (r: Vec<Item>)
    ensures
        item_views(r@) == about_items(*info, *snapshot),
{
    let mut items = blank_page();
    group(&mut items, "MH Monitoring");
    let mut text = "Версия ".to_string();
    text.append(info.version.as_str());
    note(&mut items, text.as_str());
    let mut text = "Настройки: ".to_string();
    text.append(info.settings_path.as_str());
    note(&mut items, text.as_str());
    hint(&mut items, "PresentMon 2.5.1 (MIT) и модуль PawnIO AMDFamily17 (LGPL-2.1) встроены.");
    hint(&mut items, "Шрифт Cuprum — SIL Open Font License 1.1.");
    group(&mut items, "Датчики");
    let mut text = "Железо: ".to_string();
    text.append(snapshot.hardware_status.text());
    note(&mut items, text.as_str());
    note(&mut items, health_text("GPU", &snapshot.gpu.health).as_str());
    note(&mut items, health_text("CPU", &snapshot.cpu.health).as_str());
    note(&mut items, health_text("RAM", &snapshot.memory.health).as_str());
    items
}

// --- switches and choices ---

/// A block switched on or off.
pub open spec fn switched_block(blocks: BlocksView, kind: BlockKind, on: bool) -> BlocksView {
    match kind {
        BlockKind::Gpu => BlocksView { gpu: BlockView { enabled: on, ..blocks.gpu }, ..blocks },
        BlockKind::Cpu => BlocksView { cpu: BlockView { enabled: on, ..blocks.cpu }, ..blocks },
        BlockKind::Ram => BlocksView { ram: BlockView { enabled: on, ..blocks.ram }, ..blocks },
        BlockKind::Fps => BlocksView { fps: BlockView { enabled: on, ..blocks.fps }, ..blocks },
    }
}

/// The settings with a switch set. The start with Windows is not among them: the system keeps it.
pub open spec fn with_toggle(settings: SettingsView, toggle: Toggle, on: bool) -> SettingsView {
    let overlay = settings.overlay;
    match toggle {
        Toggle::AlwaysOnTop => SettingsView {
            overlay: OverlaySettings { always_on_top: on, ..overlay },
            ..settings
        },
        Toggle::Locked => SettingsView {
            overlay: OverlaySettings { locked: on, ..overlay },
            ..settings
        },
        Toggle::ShowHeader => SettingsView {
            overlay: OverlaySettings { show_header: on, ..overlay },
            ..settings
        },
        Toggle::ShowGraph => SettingsView {
            overlay: OverlaySettings { show_graph: on, ..overlay },
            ..settings
        },
        Toggle::HideUnavailable => SettingsView {
            metrics: MetricsView { hide_unavailable: on, ..settings.metrics },
            ..settings
        },
        Toggle::Block(kind) => SettingsView {
            blocks: switched_block(settings.blocks, kind, on),
            ..settings
        },
        Toggle::Row(metric) => SettingsView {
            metrics: settings.metrics.switched(metric, on),
            ..settings
        },
        Toggle::Borderless(index) => SettingsView {
            games: settings.games.update(
                index as int,
                GameView { borderless: on, ..settings.games[index as int] },
            ),
            ..settings
        },
        Toggle::Autostart => settings,
    }
}

fn switch_block(blocks: &mut Blocks, kind: BlockKind, on: bool)
    ensures
        final(blocks)@ == switched_block(old(blocks)@, kind, on),
{
    match kind {
        BlockKind::Gpu => {
            blocks.gpu.enabled = on;
        },
        BlockKind::Cpu => {
            blocks.cpu.enabled = on;
        },
        BlockKind::Ram => {
            blocks.ram.enabled = on;
        },
        BlockKind::Fps => {
            blocks.fps.enabled = on;
        },
    }
}

fn switch_frame(games: &mut Vec<GameProfile>, index: usize, on: bool)
    requires
        index < old(games).len(),
    ensures
        game_views(final(games)@) == game_views(old(games)@).update(
            index as int,
            GameView { borderless: on, ..game_views(old(games)@)[index as int] },
        ),
{
    let ghost before = games@;
    let copy = games[index].clone();
    let game = GameProfile {
        name: copy.name,
        path: copy.path,
        arguments: copy.arguments,
        borderless: on,
        window_exe: copy.window_exe,
    };
    games.set(index, game);
    proof {
        assert(game@ =~= GameView { borderless: on, ..game_views(before)[index as int] });
        assert(game_views(games@) =~= game_views(before).update(index as int, game@));
    }
}

#[verifier::rlimit(40)]
pub fn set_toggle(settings: &mut Settings, toggle: Toggle, on: bool)
    requires
        old(settings)@.metrics.valid(),
        toggle matches Toggle::Borderless(index) ==> index < old(settings).games.len(),
    ensures
        final(settings)@ == with_toggle(old(settings)@, toggle, on),
        final(settings)@.metrics.valid(),
{
    match toggle {
        Toggle::AlwaysOnTop => {
            settings.overlay.always_on_top = on;
        },
        Toggle::Locked => {
            settings.overlay.locked = on;
        },
        Toggle::ShowHeader => {
            settings.overlay.show_header = on;
        },
        Toggle::ShowGraph => {
            settings.overlay.show_graph = on;
        },
        Toggle::HideUnavailable => {
            settings.metrics.hide_unavailable = on;
        },
        Toggle::Block(kind) => {
            switch_block(&mut settings.blocks, kind, on);
        },
        Toggle::Row(metric) => {
            settings.metrics.set_enabled(metric, on);
        },
        Toggle::Borderless(index) => {
            switch_frame(&mut settings.games, index, on);
        },
        Toggle::Autostart => {},
    }
}

/// The settings with a choice made.
pub open spec fn with_choice(settings: SettingsView, choice: Choice) -> SettingsView {
    match choice {
        Choice::Fullscreen(mode) => SettingsView {
            overlay: OverlaySettings { fullscreen: mode, ..settings.overlay },
            ..settings
        },
        Choice::Target(target) => SettingsView {
            fps: crate::settings::FpsView { target, ..settings.fps },
            ..settings
        },
    }
}

pub fn set_choice(settings: &mut Settings, choice: Choice)
    ensures
        final(settings)@ == with_choice(old(settings)@, choice),
{
    match choice {
        Choice::Fullscreen(mode) => {
            settings.overlay.fullscreen = mode;
        },
        Choice::Target(target) => {
            settings.fps.target = target;
        },
    }
}

/// A page shows a switch as it was set: what the rows show after a switch is what was chosen.
pub proof fn law_rows_show_what_was_switched(settings: SettingsView, metric: Metric, on: bool)
    requires
        settings.metrics.valid(),
    ensures
        with_toggle(settings, Toggle::Row(metric), on).metrics.shows(metric) == on,
{
    crate::settings::law_rows_switch_alone(settings.metrics, metric, on, metric);
}

/// A switch sets what it is called after and nothing else.
pub proof fn law_switches_set_their_own(settings: SettingsView, toggle: Toggle, on: bool)
    requires
        toggle matches Toggle::Borderless(index) ==> index < settings.games.len(),
    ensures
        ({
            let after = with_toggle(settings, toggle, on);
            &&& toggle is AlwaysOnTop ==> after == (SettingsView {
                overlay: OverlaySettings { always_on_top: on, ..settings.overlay },
                ..settings
            })
            &&& toggle is Locked ==> after == (SettingsView {
                overlay: OverlaySettings { locked: on, ..settings.overlay },
                ..settings
            })
            &&& toggle is ShowHeader ==> after == (SettingsView {
                overlay: OverlaySettings { show_header: on, ..settings.overlay },
                ..settings
            })
            &&& toggle is ShowGraph ==> after == (SettingsView {
                overlay: OverlaySettings { show_graph: on, ..settings.overlay },
                ..settings
            })
            &&& toggle is HideUnavailable ==> after.metrics.hide_unavailable == on && after
                == (SettingsView {
                metrics: MetricsView { hide_unavailable: on, ..settings.metrics },
                ..settings
            })
            &&& toggle matches Toggle::Block(kind) ==> after.blocks.of(kind) == (BlockView {
                enabled: on,
                ..settings.blocks.of(kind)
            }) && (forall|other: BlockKind|
                other != kind ==> #[trigger] after.blocks.of(other) == settings.blocks.of(other))
                && after.blocks.order == settings.blocks.order && after == (SettingsView {
                blocks: after.blocks,
                ..settings
            })
            &&& toggle matches Toggle::Row(metric) ==> after == (SettingsView {
                metrics: after.metrics,
                ..settings
            })
            &&& toggle matches Toggle::Borderless(index) ==> after.games.len()
                == settings.games.len() && after.games[index as int] == (GameView {
                borderless: on,
                ..settings.games[index as int]
            }) && (forall|i: int|
                0 <= i < settings.games.len() && i != index ==> #[trigger] after.games[i]
                    == settings.games[i]) && after == (SettingsView {
                games: after.games,
                ..settings
            })
            &&& toggle is Autostart ==> after == settings
        }),
{
}

/// A choice sets what it is made for and nothing else.
pub proof fn law_choices_set_their_own(settings: SettingsView, choice: Choice)
    ensures
        choice matches Choice::Fullscreen(mode) ==> with_choice(settings, choice) == (SettingsView {
            overlay: OverlaySettings { fullscreen: mode, ..settings.overlay },
            ..settings
        }),
        choice matches Choice::Target(target) ==> with_choice(settings, choice).fps.target == target
            && with_choice(settings, choice) == (SettingsView {
            fps: crate::settings::FpsView { target, ..settings.fps },
            ..settings
        }),
{
}

// --- what stands on the pages ---

/// An item stands on a page.
pub open spec fn stands_on(page: Seq<ItemView>, item: ItemView) -> bool {
    page.contains(item)
}

pub broadcast proof fn lemma_stands_on(page: Seq<ItemView>, next: ItemView, item: ItemView)
    requires
        stands_on(page, item) || next == item,
    ensures
        #[trigger] stands_on(page.push(next), item),
{
    if stands_on(page, item) {
        let i = choose|i: int| 0 <= i < page.len() && page[i] == item;
        assert(page.push(next)[i] == item);
    } else {
        assert(page.push(next)[page.len() as int] == item);
    }
}

/// A switch under its label, as it is set.
pub open spec fn switch(toggle: Toggle, label: Seq<char>, on: bool) -> ItemView {
    ItemView::Check { toggle, label, on }
}

/// The page of the overlay shows each of its switches, and the choice of what full screen does, as
/// the settings have them.
pub proof fn law_overlay_page_shows_the_settings(overlay: OverlaySettings)
    ensures
        ({
            let page = overlay_items(overlay);
            &&& stands_on(page, switch(Toggle::AlwaysOnTop, "Поверх всех окон"@, overlay.always_on_top))
            &&& stands_on(page, switch(Toggle::Locked, "Заблокирован: мышь проходит сквозь HUD"@, overlay.locked))
            &&& stands_on(page, switch(Toggle::ShowHeader, "Заголовок с кнопками"@, overlay.show_header))
            &&& stands_on(page, switch(Toggle::ShowGraph, "График frametime"@, overlay.show_graph))
            &&& stands_on(
                page,
                ItemView::Radio {
                    choice: Choice::Fullscreen(FullscreenMode::Hide),
                    label: "Скрывать HUD"@,
                    chosen: overlay.fullscreen is Hide,
                },
            )
            &&& stands_on(
                page,
                ItemView::Radio {
                    choice: Choice::Fullscreen(FullscreenMode::OtherMonitor),
                    label: "Переносить HUD на другой монитор"@,
                    chosen: overlay.fullscreen is OtherMonitor,
                },
            )
            &&& stands_on(page, ItemView::Opacity)
            &&& stands_on(page, ItemView::Scale)
        }),
{
    broadcast use lemma_stands_on;

}

/// The page of the rows shows which blocks and which rows are switched on.
pub proof fn law_rows_page_shows_the_settings(settings: SettingsView)
    ensures
        ({
            let page = rows_items(settings);
            let shown = settings.metrics;
            &&& stands_on(
                page,
                switch(
                    Toggle::Block(BlockKind::Gpu),
                    "GPU"@,
                    settings.blocks.of(BlockKind::Gpu).enabled,
                ),
            )
            &&& stands_on(
                page,
                switch(
                    Toggle::Block(BlockKind::Cpu),
                    "CPU"@,
                    settings.blocks.of(BlockKind::Cpu).enabled,
                ),
            )
            &&& stands_on(
                page,
                switch(
                    Toggle::Block(BlockKind::Ram),
                    "RAM"@,
                    settings.blocks.of(BlockKind::Ram).enabled,
                ),
            )
            &&& stands_on(
                page,
                switch(
                    Toggle::Block(BlockKind::Fps),
                    "FPS"@,
                    settings.blocks.of(BlockKind::Fps).enabled,
                ),
            )
            &&& stands_on(
                page,
                switch(
                    Toggle::HideUnavailable,
                    "Скрывать строки, которые эта машина не сообщает"@,
                    shown.hide_unavailable,
                ),
            )
            &&& stands_on(
                page,
                switch(
                    Toggle::Row(Metric::GpuTemperature),
                    "Температура"@,
                    shown.shows(Metric::GpuTemperature),
                ),
            )
            &&& stands_on(
                page,
                switch(
                    Toggle::Row(Metric::GpuClock),
                    "Частота ядра"@,
                    shown.shows(Metric::GpuClock),
                ),
            )
            &&& stands_on(
                page,
                switch(
                    Toggle::Row(Metric::GpuVram),
                    "Видеопамять"@,
                    shown.shows(Metric::GpuVram),
                ),
            )
            &&& stands_on(
                page,
                switch(
                    Toggle::Row(Metric::GpuPower),
                    "Мощность"@,
                    shown.shows(Metric::GpuPower),
                ),
            )
            &&& stands_on(
                page,
                switch(
                    Toggle::Row(Metric::GpuFan),
                    "Вентилятор"@,
                    shown.shows(Metric::GpuFan),
                ),
            )
            &&& stands_on(
                page,
                switch(
                    Toggle::Row(Metric::CpuTemperature),
                    "Температура"@,
                    shown.shows(Metric::CpuTemperature),
                ),
            )
            &&& stands_on(
                page,
                switch(
                    Toggle::Row(Metric::CpuClock),
                    "Частота"@,
                    shown.shows(Metric::CpuClock),
                ),
            )
            &&& stands_on(
                page,
                switch(
                    Toggle::Row(Metric::CpuPower),
                    "Мощность"@,
                    shown.shows(Metric::CpuPower),
                ),
            )
            &&& stands_on(
                page,
                switch(
                    Toggle::Row(Metric::RamUsed),
                    "Занято / всего"@,
                    shown.shows(Metric::RamUsed),
                ),
            )
            &&& stands_on(
                page,
                switch(
                    Toggle::Row(Metric::FpsAverage),
                    "Средний"@,
                    shown.shows(Metric::FpsAverage),
                ),
            )
            &&& stands_on(
                page,
                switch(
                    Toggle::Row(Metric::FpsLow1),
                    "1% low"@,
                    shown.shows(Metric::FpsLow1),
                ),
            )
            &&& stands_on(
                page,
                switch(
                    Toggle::Row(Metric::FpsLow01),
                    "0.1% low"@,
                    shown.shows(Metric::FpsLow01),
                ),
            )
        }),
{
    broadcast use lemma_stands_on;

}

broadcast proof fn lemma_status_keeps(
    page: Seq<ItemView>,
    window: WindowView,
    here: Page,
    item: ItemView,
)
    requires
        stands_on(page, item),
    ensures
        #[trigger] stands_on(status_items(page, window, here), item),
{
    broadcast use lemma_stands_on;

}

/// What was said last stands on the page it is about, an error as a warning, and on no other; that
/// a restart is needed stands on every page.
pub proof fn law_pages_tell_what_was_said(
    page: Seq<ItemView>,
    window: WindowView,
    status: crate::settings_window::StatusView,
    here: Page,
)
    requires
        window.status == Some(status),
    ensures
        ({
            let told = status_items(page, window, here);
            &&& status.page == here && status.is_error ==> stands_on(
                told,
                ItemView::Warning(status.text),
            )
            &&& status.page == here && !status.is_error ==> stands_on(
                told,
                ItemView::Note(status.text),
            )
            &&& status.page != here && !window.restart_needed ==> told == page
            &&& window.restart_needed ==> told.last() is Warning && told.len() == page.len() + 1
                + (if status.page == here {
                1int
            } else {
                0
            })
        }),
{
    broadcast use lemma_stands_on;

}

/// The page of the frames shows how the target is chosen, and asks for a process only where it is
/// chosen by hand.
pub proof fn law_frames_page_shows_the_target(
    window: WindowView,
    target: TargetChoice,
    fps: FpsState,
)
    ensures
        ({
            let page = fps_items(window, target, fps);
            &&& stands_on(
                page,
                ItemView::Radio {
                    choice: Choice::Target(TargetChoice::Auto),
                    label: "Окно в фокусе"@,
                    chosen: target is Auto,
                },
            )
            &&& stands_on(
                page,
                ItemView::Radio {
                    choice: Choice::Target(TargetChoice::Manual),
                    label: "Выбранный процесс"@,
                    chosen: target is Manual,
                },
            )
            &&& target is Manual ==> stands_on(
                page,
                ItemView::Text {
                    field: Field::ManualProcess,
                    label: "Имя процесса"@,
                    placeholder: "game.exe"@,
                },
            ) && stands_on(
                page,
                ItemView::Text {
                    field: Field::ManualPid,
                    label: "PID (необязательно)"@,
                    placeholder: "если копий несколько"@,
                },
            ) && stands_on(
                page,
                ItemView::Button {
                    press: Press::ApplyTarget,
                    label: "Применить"@,
                    enabled: true,
                },
            )
            &&& stands_on(
                page,
                ItemView::Text {
                    field: Field::PresentMon,
                    label: "Свой PresentMon.exe"@,
                    placeholder: "пусто — вложенный 2.5.1"@,
                },
            )
            &&& stands_on(
                page,
                ItemView::Button {
                    press: Press::ApplyPresentMon,
                    label: "Применить"@,
                    enabled: true,
                },
            )
            &&& fps.target is None ==> stands_on(page, ItemView::Note("Цель: "@ + "—"@))
            &&& fps.target matches Some(process) ==> stands_on(
                page,
                ItemView::Note(
                    "Цель: "@ + (process.executable@ + " (pid "@ + decimal(process.pid as nat)
                        + ")"@),
                ),
            )
            &&& fps.presentation matches Some(text) ==> stands_on(
                page,
                ItemView::Note("Вывод: "@ + text@),
            )
            &&& fps.message matches Some(text) ==> stands_on(page, ItemView::Note(text@))
            &&& fps.detail matches Some(text) ==> stands_on(page, ItemView::Hint(text@))
        }),
{
    broadcast use {lemma_stands_on, lemma_status_keeps};

}

/// The installed copy offers no installation, any other does: as an update where there is one
/// installed already. Only what is installed can be removed, and nothing while something is done.
pub proof fn law_installation_is_offered(
    version: Option<Seq<char>>,
    running_installed: bool,
    this_version: Seq<char>,
    busy: bool,
    status: Option<Seq<char>>,
    env: EnvironmentView,
)
    ensures
        ({
            let page = install_items(version, running_installed, this_version, busy, status, env);
            &&& version is None ==> stands_on(page, ItemView::Note("Не установлен."@)) && stands_on(
                page,
                ItemView::Button {
                    press: Press::Install,
                    label: "Установить"@,
                    enabled: !busy,
                },
            )
            &&& version matches Some(version) ==> stands_on(
                page,
                ItemView::Note("Установлен, версия "@ + version + "."@),
            ) && stands_on(
                page,
                ItemView::Button { press: Press::Uninstall, label: "Удалить"@, enabled: !busy },
            )
            &&& version is Some && !running_installed ==> stands_on(
                page,
                ItemView::Button {
                    press: Press::Install,
                    label: "Обновить установленную"@,
                    enabled: !busy,
                },
            )
            &&& !running_installed ==> stands_on(
                page,
                ItemView::Hint("Запущена копия "@ + this_version + " не из папки установки."@),
            )
            &&& install_label(true, true) is None
            &&& status matches Some(text) ==> stands_on(
                page,
                ItemView::Note("Последняя операция: "@ + text),
            )
        }),
{
    broadcast use lemma_stands_on;

}

/// A service that is stopped can be started, and one that runs a program from elsewhere is warned
/// of.
pub proof fn law_service_is_watched(
    items: Seq<ItemView>,
    backend: Seq<char>,
    path: Seq<char>,
    running: bool,
    busy: bool,
    env: EnvironmentView,
)
    ensures
        ({
            let page = service_items(items, backend, Some(path), running, busy, env);
            let elsewhere = normal(path) != normal(
                joined_path(install_folder(env), SERVICE_EXE@),
            );
            &&& stands_on(page, ItemView::Note("Снимки сейчас: "@ + backend))
            &&& stands_on(page, ItemView::Hint("Служба запускает: "@ + path))
            &&& !running ==> stands_on(
                page,
                ItemView::Button {
                    press: Press::StartService,
                    label: "Запустить службу"@,
                    enabled: !busy,
                },
            )
            &&& elsewhere ==> page.last() is Warning
            &&& !elsewhere && running ==> page.last() == ItemView::Hint(
                "Служба запускает: "@ + path,
            )
            &&& service_items(items, backend, None, running, busy, env).last() == ItemView::Hint(
                "Служба не установлена."@,
            )
        }),
{
    broadcast use lemma_stands_on;

}

/// A game is shown with its name and path, its switch as it is set, and buttons that start it, make
/// a shortcut for it and remove it: this one and no other.
pub proof fn law_games_are_shown(items: Seq<ItemView>, game: GameView, index: usize)
    ensures
        ({
            let page = game_items(items, game, index);
            &&& stands_on(page, ItemView::Name(game.name))
            &&& stands_on(page, ItemView::Hint(game.path))
            &&& stands_on(
                page,
                switch(
                    Toggle::Borderless(index),
                    "Без рамки на весь монитор"@,
                    game.borderless,
                ),
            )
            &&& stands_on(
                page,
                ItemView::Text {
                    field: Field::GameArguments(index),
                    label: "Параметры:"@,
                    placeholder: ""@,
                },
            )
            &&& game.window_exe matches Some(window) ==> stands_on(
                page,
                ItemView::Hint("Рамка снимается с окна "@ + window + "."@),
            )
            &&& stands_on(
                page,
                ItemView::Button {
                    press: Press::LaunchGame(index),
                    label: "Запустить"@,
                    enabled: true,
                },
            )
            &&& stands_on(
                page,
                ItemView::Button {
                    press: Press::MakeShortcut(index),
                    label: "Ярлык на рабочем столе"@,
                    enabled: true,
                },
            )
            &&& stands_on(
                page,
                ItemView::Button {
                    press: Press::RemoveGame(index),
                    label: "Удалить"@,
                    enabled: true,
                },
            )
        }),
{
    broadcast use lemma_stands_on;

}

/// The page of the hotkeys asks for each of them, and warns of every one that could not be taken.
pub proof fn law_hotkeys_page_tells_of_errors(
    window: WindowView,
    errors: Seq<Seq<char>>,
    at: int,
)
    requires
        0 <= at < errors.len(),
    ensures
        stands_on(hotkeys_items(window, errors), ItemView::Warning(errors[at])),
        stands_on(
            hotkeys_items(window, errors),
            ItemView::Text {
                field: Field::ToggleVisibility,
                label: "Показать / скрыть"@,
                placeholder: "Ctrl+Shift+F11"@,
            },
        ),
        stands_on(
            hotkeys_items(window, errors),
            ItemView::Text {
                field: Field::ToggleLock,
                label: "Заблокировать"@,
                placeholder: "Ctrl+Shift+F10"@,
            },
        ),
{
    broadcast use {lemma_stands_on, lemma_status_keeps, lemma_warnings_keep};

    let first = Seq::<ItemView>::empty().push(ItemView::Group("Глобальные сочетания"@)).push(
        ItemView::Text {
            field: Field::ToggleVisibility,
            label: "Показать / скрыть"@,
            placeholder: "Ctrl+Shift+F11"@,
        },
    ).push(
        ItemView::Text {
            field: Field::ToggleLock,
            label: "Заблокировать"@,
            placeholder: "Ctrl+Shift+F10"@,
        },
    ).push(ItemView::Button { press: Press::ApplyHotkeys, label: "Применить"@, enabled: true });
    lemma_warned(status_items(first, window, Page::Hotkeys), errors, at);
}

broadcast proof fn lemma_warnings_keep(
    items: Seq<ItemView>,
    texts: Seq<Seq<char>>,
    item: ItemView,
)
    requires
        stands_on(items, item),
    ensures
        #[trigger] stands_on(warnings(items, texts), item),
    decreases texts.len(),
{
    broadcast use lemma_stands_on;

    if texts.len() > 0 {
        lemma_warnings_keep(items, texts.drop_last(), item);
    }
}

proof fn lemma_warned(items: Seq<ItemView>, texts: Seq<Seq<char>>, at: int)
    requires
        0 <= at < texts.len(),
    ensures
        stands_on(warnings(items, texts), ItemView::Warning(texts[at])),
    decreases texts.len(),
{
    broadcast use lemma_stands_on;

    if at < texts.len() - 1 {
        lemma_warned(items, texts.drop_last(), at);
        assert(texts.drop_last()[at] == texts[at]);
    }
}

/// The page about the program names its version, where its settings are, and how each part of the
/// machine can be read.
pub proof fn law_about_page_tells_of_the_sensors(info: Context, snapshot: Snapshot)
    ensures
        ({
            let page = about_items(info, snapshot);
            let known = |name: Seq<char>, health: SectionHealth|
                name + ": "@ + health.status.words() + (match health.reason {
                    Some(reason) => " — "@ + reason@,
                    None => ""@,
                });
            &&& stands_on(page, ItemView::Note("Версия "@ + info.version@))
            &&& stands_on(page, ItemView::Note("Настройки: "@ + info.settings_path@))
            &&& stands_on(page, ItemView::Note("Железо: "@ + snapshot.hardware_status.words()))
            &&& stands_on(page, ItemView::Note(known("GPU"@, snapshot.gpu.health)))
            &&& stands_on(page, ItemView::Note(known("CPU"@, snapshot.cpu.health)))
            &&& stands_on(page, ItemView::Note(known("RAM"@, snapshot.memory.health)))
        }),
{
    broadcast use lemma_stands_on;

}

/// A button of the page of the installation asks for what it says.
pub proof fn law_buttons_ask_for_what_they_say(press: Press, r: Option<ServiceRequest>)
    requires
        call_ensures(request_of, (press,), r),
    ensures
        press is Install ==> r == Some(ServiceRequest::Install),
        press is Uninstall ==> r == Some(ServiceRequest::Uninstall),
        press is StartService ==> r == Some(ServiceRequest::StartService),
        r is Some ==> press is Install || press is Uninstall || press is StartService,
{
}

} // verus!
