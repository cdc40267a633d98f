//! The window of the first start: the rights for frames and temperatures have to be given in one
//! way or another, or done without, before the overlay goes on.

use vstd::prelude::*;

use crate::installer::install_dir;
use crate::installer::install_folder;
use crate::installer::Environment;
use crate::installer::EnvironmentView;
use crate::items::blank_page;
use crate::items::button;
use crate::items::check;
use crate::items::group;
use crate::items::hint;
use crate::items::item_views;
use crate::items::note;
use crate::items::put;
use crate::items::radio;
use crate::items::warning;
use crate::items::Choice;
use crate::items::Item;
use crate::items::ItemView;
use crate::items::Press;
use crate::items::Toggle;
use crate::paths::text_of;
use crate::settings::FullscreenMode;
use crate::pages::stands_on;

verus! {

/// What the user chooses. The program does it: it wants more rights.
#[derive(Debug, Clone, Copy, PartialEq, Eq, Structural)]
pub enum SetupChoice {
    /// Install with the service: one question of the system, and no rights after that.
    Install,
    /// Start this copy with more rights; the next start asks again.
    ElevateOnce,
    /// Go on without: no frames and no temperature of the processor.
    Skip,
}

#[derive(Debug, PartialEq)]
pub struct SetupWindow {
    pub open: bool,
    /// Whether to start with Windows: takes effect with the choice.
    pub autostart: bool,
    pub focus_pending: bool,
}

/// What the window shows and does not change.
#[derive(Debug)]
pub struct Context {
    /// The installation runs, or the system is being asked.
    pub busy: bool,
    /// Why the last attempt failed.
    pub status: Option<String>,
    pub monitors: usize,
}

/// What the window holds.
pub open spec fn setup_items(
    mode: FullscreenMode,
    autostart: bool,
    busy: bool,
    status: Option<Seq<char>>,
    monitors: usize,
    env: EnvironmentView,
) -> Seq<ItemView> {
    let first = Seq::<ItemView>::empty().push(
        ItemView::Name("Добро пожаловать в MH Monitoring"@),
    ).push(
        ItemView::Note(
            "Видеокарта, загрузка CPU и память показываются сразу. Для FPS и температуры CPU Windows требует прав администратора — выберите, как их дать."@,
        ),
    ).push(ItemView::Group("Полноэкранные игры"@)).push(
        ItemView::Radio {
            choice: Choice::Fullscreen(FullscreenMode::Hide),
            label: "Скрывать HUD"@,
            chosen: mode is Hide,
        },
    ).push(
        ItemView::Radio {
            choice: Choice::Fullscreen(FullscreenMode::OtherMonitor),
            label: "Переносить HUD на другой монитор"@,
            chosen: mode is OtherMonitor,
        },
    ).push(
        ItemView::Hint(
            "В эксклюзивном полноэкранном режиме окна поверх игры не видны. Лучше всего выбрать в игре безрамочный режим — там HUD работает всегда. Можно поменять в настройках."@,
        ),
    );
    let warned = if mode is OtherMonitor && monitors < 2 {
        first.push(
            ItemView::Warning("Сейчас подключён один монитор — HUD будет скрываться."@),
        )
    } else {
        first
    };
    let chosen = warned.push(ItemView::Group("Права администратора"@)).push(
        ItemView::Check {
            toggle: Toggle::Autostart,
            label: "Запускать вместе с Windows"@,
            on: autostart,
        },
    ).push(
        ItemView::Button {
            press: Press::Install,
            label: "Установить (рекомендуется)"@,
            enabled: !busy,
        },
    ).push(
        ItemView::Hint(
            "Один запрос UAC: программа копируется в "@ + install_folder(env)
                + " и ставит службу. Дальше FPS и температура работают без прав администратора и без запросов."@,
        ),
    ).push(
        ItemView::Button {
            press: Press::ElevateOnce,
            label: "Только сейчас — от администратора"@,
            enabled: !busy,
        },
    ).push(ItemView::Hint("Без установки. Запрос UAC будет при каждом запуске."@)).push(
        ItemView::Button { press: Press::Skip, label: "Продолжить без FPS"@, enabled: !busy },
    ).push(ItemView::Hint("Установить можно позже: настройки → «Установка»."@));
    if busy {
        chosen.push(ItemView::Note("Ожидание подтверждения UAC…"@))
    } else {
        match status {
            Some(status) => chosen.push(ItemView::Warning(status)),
            None => chosen,
        }
    }
}

impl SetupWindow {
    pub fn new(open: bool) -> (r: SetupWindow)
        ensures
            r == (SetupWindow { open, autostart: false, focus_pending: open }),
    {
        SetupWindow { open, autostart: false, focus_pending: open }
    }

    /// The window is about to be drawn: whether to bring it to the front. Where the user has
    /// closed it without a choice, the next start asks again.
    pub fn show(&mut self, close_requested: bool) -> (r: bool)
        ensures
            r == (old(self).open && old(self).focus_pending),
            final(self).open == (old(self).open && !close_requested),
            final(self).focus_pending == (old(self).focus_pending && !old(self).open),
            final(self).autostart == old(self).autostart,
    {
        if !self.open {
            return false;
        }
        let focus = self.focus_pending;
        self.focus_pending = false;
        if close_requested {
            self.open = false;
        }
        focus
    }

    pub fn contents(&self, mode: FullscreenMode, info: &Context, env: &Environment) -> (r: Vec<Item>)
        ensures
            item_views(r@) == setup_items(
                mode,
                self.autostart,
                info.busy,
                text_of(info.status),
                info.monitors,
                env@,
            ),
    {
        let hides = match mode {
            FullscreenMode::Hide => true,
            FullscreenMode::OtherMonitor => false,
        };
        let mut items = blank_page();
        put(&mut items, Item::Name("Добро пожаловать в MH Monitoring".to_string()));
        note(
            &mut items,
            "Видеокарта, загрузка CPU и память показываются сразу. Для FPS и температуры CPU Windows требует прав администратора — выберите, как их дать.",
        );
        group(&mut items, "Полноэкранные игры");
        radio(&mut items, Choice::Fullscreen(FullscreenMode::Hide), "Скрывать HUD", hides);
        radio(
            &mut items,
            Choice::Fullscreen(FullscreenMode::OtherMonitor),
            "Переносить HUD на другой монитор",
            !hides,
        );
        hint(
            &mut items,
            "В эксклюзивном полноэкранном режиме окна поверх игры не видны. Лучше всего выбрать в игре безрамочный режим — там HUD работает всегда. Можно поменять в настройках.",
        );
        if !hides && info.monitors < 2 {
            warning(&mut items, "Сейчас подключён один монитор — HUD будет скрываться.");
        }
        group(&mut items, "Права администратора");
        check(&mut items, Toggle::Autostart, "Запускать вместе с Windows", self.autostart);
        button(&mut items, Press::Install, "Установить (рекомендуется)", !info.busy);
        let mut text = "Один запрос UAC: программа копируется в ".to_string();
        text.append(install_dir(env).as_str());
        text.append(
            " и ставит службу. Дальше FPS и температура работают без прав администратора и без запросов.",
        );
        hint(&mut items, text.as_str());
        button(&mut items, Press::ElevateOnce, "Только сейчас — от администратора", !info.busy);
        hint(&mut items, "Без установки. Запрос UAC будет при каждом запуске.");
        button(&mut items, Press::Skip, "Продолжить без FPS", !info.busy);
        hint(&mut items, "Установить можно позже: настройки → «Установка».");
        if info.busy {
            note(&mut items, "Ожидание подтверждения UAC…");
        } else if let Some(status) = &info.status {
            warning(&mut items, status.as_str());
        }
        items
    }
}

/// The choice behind a button of this window.
pub fn choice_of(press: Press) -> (r: Option<SetupChoice>)
    ensures
        r == (match press {
            Press::Install => Some(SetupChoice::Install),
            Press::ElevateOnce => Some(SetupChoice::ElevateOnce),
            Press::Skip => Some(SetupChoice::Skip),
            _ => None,
        }),
{
    match press {
        Press::Install => Some(SetupChoice::Install),
        Press::ElevateOnce => Some(SetupChoice::ElevateOnce),
        Press::Skip => Some(SetupChoice::Skip),
        _ => None,
    }
}

/// The window of the first start offers the installation, the rights for once, and to go on
/// without, none of them while one is under way; it shows what was chosen so far, and why the last
/// attempt failed.
pub proof fn law_first_start_offers_three_ways(
    mode: FullscreenMode,
    autostart: bool,
    busy: bool,
    status: Option<Seq<char>>,
    monitors: usize,
    env: EnvironmentView,
)
    ensures
        ({
            let page = setup_items(mode, autostart, busy, status, monitors, env);
            &&& stands_on(
                page,
                ItemView::Button {
                    press: Press::Install,
                    label: "Установить (рекомендуется)"@,
                    enabled: !busy,
                },
            )
            &&& stands_on(
                page,
                ItemView::Button {
                    press: Press::ElevateOnce,
                    label: "Только сейчас — от администратора"@,
                    enabled: !busy,
                },
            )
            &&& stands_on(
                page,
                ItemView::Button {
                    press: Press::Skip,
                    label: "Продолжить без FPS"@,
                    enabled: !busy,
                },
            )
            &&& stands_on(
                page,
                ItemView::Check {
                    toggle: Toggle::Autostart,
                    label: "Запускать вместе с Windows"@,
                    on: autostart,
                },
            )
            &&& stands_on(
                page,
                ItemView::Radio {
                    choice: Choice::Fullscreen(FullscreenMode::Hide),
                    label: "Скрывать HUD"@,
                    chosen: mode is Hide,
                },
            )
            &&& stands_on(
                page,
                ItemView::Radio {
                    choice: Choice::Fullscreen(FullscreenMode::OtherMonitor),
                    label: "Переносить HUD на другой монитор"@,
                    chosen: mode is OtherMonitor,
                },
            )
            &&& mode is OtherMonitor && monitors < 2 ==> stands_on(
                page,
                ItemView::Warning("Сейчас подключён один монитор — HUD будет скрываться."@),
            )
            &&& busy ==> page.last() == ItemView::Note("Ожидание подтверждения UAC…"@)
            &&& !busy && status is Some ==> page.last() == ItemView::Warning(status->0)
        }),
{
    broadcast use crate::pages::lemma_stands_on;

}

/// Each button is the choice that it names, and no other button of the program is one.
pub proof fn law_buttons_are_choices(press: Press, r: Option<SetupChoice>)
    requires
        call_ensures(choice_of, (press,), r),
    ensures
        press is Install <==> r == Some(SetupChoice::Install),
        press is ElevateOnce <==> r == Some(SetupChoice::ElevateOnce),
        press is Skip <==> r == Some(SetupChoice::Skip),
{
}

/// The window comes to the front once, when it opens, and stays until it is closed.
pub proof fn law_window_comes_to_the_front_once(
    window: &mut SetupWindow,
    close_requested: bool,
    r: bool,
)
    requires
        call_ensures(SetupWindow::show, (window, close_requested), r),
    ensures
        r <==> old(window).open && old(window).focus_pending,
        old(window).open ==> !final(window).focus_pending,
        final(window).open <==> old(window).open && !close_requested,
        final(window).autostart == old(window).autostart,
{
}

} // verus!
