//! The tray and the hotkeys: both give commands to the overlay.

use vstd::prelude::*;

use crate::settings::HotkeySettings;
use crate::text::views;

verus! {

#[derive(Debug, Clone, Copy, PartialEq, Eq, Structural)]
pub enum Command {
    ToggleVisible,
    ToggleLock,
    OpenSettings,
    Exit,
}

impl Command {
    pub open spec fn label(self) -> Seq<char> {
        match self {
            Command::ToggleVisible => "ToggleVisible"@,
            Command::ToggleLock => "ToggleLock"@,
            Command::OpenSettings => "OpenSettings"@,
            Command::Exit => "Exit"@,
        }
    }

    /// The command as the journal names it.
    pub fn name(&self) -> (r: String)
        ensures
            r@ == self.label(),
    {
        match self {
            Command::ToggleVisible => "ToggleVisible".to_string(),
            Command::ToggleLock => "ToggleLock".to_string(),
            Command::OpenSettings => "OpenSettings".to_string(),
            Command::Exit => "Exit".to_string(),
        }
    }
}

/// What the item that shows and hides the overlay is called: by what it does.
pub fn visibility_label(visible: bool) -> (r: String)
    ensures
        r@ == (if visible {
            "Скрыть оверлей"@
        } else {
            "Показать оверлей"@
        }),
{
    if visible {
        "Скрыть оверлей".to_string()
    } else {
        "Показать оверлей".to_string()
    }
}

/// What the item that locks and unlocks the overlay is called.
pub fn lock_label(locked: bool) -> (r: String)
    ensures
        r@ == (if locked {
            "Разблокировать"@
        } else {
            "Заблокировать"@
        }),
{
    if locked {
        "Разблокировать".to_string()
    } else {
        "Заблокировать".to_string()
    }
}

/// The items of the menu, by their numbers.
#[derive(Debug, Clone, Copy, PartialEq, Eq, Structural)]
pub struct MenuIds {
    pub visibility: u32,
    pub lock: u32,
    pub settings: u32,
    pub exit: u32,
}

/// The command of an item of the menu.
pub fn menu_command(ids: &MenuIds, chosen: u32) -> (r: Option<Command>)
    ensures
        r == (if chosen == ids.visibility {
            Some(Command::ToggleVisible)
        } else if chosen == ids.lock {
            Some(Command::ToggleLock)
        } else if chosen == ids.settings {
            Some(Command::OpenSettings)
        } else if chosen == ids.exit {
            Some(Command::Exit)
        } else {
            None
        }),
{
    if chosen == ids.visibility {
        Some(Command::ToggleVisible)
    } else if chosen == ids.lock {
        Some(Command::ToggleLock)
    } else if chosen == ids.settings {
        Some(Command::OpenSettings)
    } else if chosen == ids.exit {
        Some(Command::Exit)
    } else {
        None
    }
}

/// A click on the icon of the tray: the left button, once released, shows or hides the overlay;
/// the menu belongs to the right one.
pub fn tray_command(left: bool, released: bool) -> (r: Option<Command>)
    ensures
        r == (if left && released {
            Some(Command::ToggleVisible)
        } else {
            None
        }),
{
    if left && released {
        Some(Command::ToggleVisible)
    } else {
        None
    }
}

// --- hotkeys ---

/// The number that `global_hotkey` gives the hotkey that a text names; none for a text that it
/// does not understand.
pub uninterp spec fn hotkey_number(text: Seq<char>) -> Option<u32>;

/// An O and an R stand side by side in a text, as in the words for "command or control".
pub open spec fn says_or(text: Seq<char>) -> bool {
    exists|i: int|
        0 <= i < text.len() - 1 && (#[trigger] text[i] == 'o' || text[i] == 'O') && (text[i + 1]
            == 'r' || text[i + 1] == 'R')
}

/// The number of the hotkey that a text names. The words for "command or control" mean another
/// modifier, and so another number, on macOS.
pub open spec fn numbered(number: Option<u32>, text: Seq<char>) -> bool {
    &&& number is Some <==> hotkey_number(text) is Some
    &&& !says_or(text) ==> number == hotkey_number(text)
}

/// The parser of `global_hotkey::hotkey::HotKey`, and the `id` of what it gives, which is made of
/// the key and its modifiers. The result is named `hotkey_number`; of an empty text it makes no
/// hotkey. Which number a text with the words for "command or control" gets is left unsaid: that
/// depends on the system that the program was built for.
#[verifier::external_body]
fn parsed_hotkey(text: &str) -> (r: Option<u32>)
    ensures
        r is Some <==> hotkey_number(text@) is Some,
        !says_or(text@) ==> r == hotkey_number(text@),
        text@.len() == 0 ==> r is None,
{
    text.parse::<global_hotkey::hotkey::HotKey>().ok().map(|hotkey| hotkey.id())
}

/// The number of the hotkey that a text like «Ctrl+Shift+F11» names.
pub fn parse_hotkey(text: &str) -> (r: Option<u32>)
    ensures
        numbered(r, text@),
        text@.len() == 0 ==> r is None,
{
    parsed_hotkey(text)
}

/// A hotkey to register.
#[derive(Debug, PartialEq)]
pub struct Wanted {
    pub text: String,
    /// None where the text names no hotkey.
    pub number: Option<u32>,
    pub command: Command,
}

#[verifier::ext_equal]
pub struct WantedView {
    pub text: Seq<char>,
    pub number: Option<u32>,
    pub command: Command,
}

impl View for Wanted {
    type V = WantedView;

    open spec fn view(&self) -> WantedView {
        WantedView { text: self.text@, number: self.number, command: self.command }
    }
}

pub open spec fn wanted_views(list: Seq<Wanted>) -> Seq<WantedView> {
    list.map_values(|w: Wanted| w@)
}

/// The hotkeys of the settings, given the numbers of their texts.
pub open spec fn wanted_hotkeys(
    visibility: Seq<char>,
    visibility_number: Option<u32>,
    lock: Seq<char>,
    lock_number: Option<u32>,
) -> Seq<WantedView> {
    seq![
        WantedView {
            text: visibility,
            number: visibility_number,
            command: Command::ToggleVisible,
        },
        WantedView { text: lock, number: lock_number, command: Command::ToggleLock },
    ]
}

/// The hotkeys to register for the settings.
pub fn hotkeys_of(settings: &HotkeySettings) -> (r: Vec<Wanted>)
    ensures
        r.len() == 2,
        numbered(r@[0].number, settings.toggle_visibility@),
        numbered(r@[1].number, settings.toggle_lock@),
        wanted_views(r@) == wanted_hotkeys(
            settings.toggle_visibility@,
            r@[0].number,
            settings.toggle_lock@,
            r@[1].number,
        ),
{
    let mut r: Vec<Wanted> = Vec::new();
    r.push(
        Wanted {
            text: settings.toggle_visibility.clone(),
            number: parse_hotkey(settings.toggle_visibility.as_str()),
            command: Command::ToggleVisible,
        },
    );
    r.push(
        Wanted {
            text: settings.toggle_lock.clone(),
            number: parse_hotkey(settings.toggle_lock.as_str()),
            command: Command::ToggleLock,
        },
    );
    proof {
        assert(wanted_views(r@) =~= wanted_hotkeys(
            settings.toggle_visibility@,
            r@[0].number,
            settings.toggle_lock@,
            r@[1].number,
        ));
    }
    r
}

/// The hotkeys that work, by number, with their commands.
pub open spec fn bound(wanted: Seq<WantedView>, registered: Seq<bool>) -> Seq<(u32, Command)>
    decreases wanted.len(),
{
    if wanted.len() == 0 {
        seq![]
    } else {
        let rest = bound(wanted.drop_last(), registered);
        match wanted.last().number {
            Some(number) if registered[wanted.len() - 1] => rest.push(
                (number, wanted.last().command),
            ),
            _ => rest,
        }
    }
}

/// What is said of those that do not: the text names none, or another program has it.
pub open spec fn hotkey_problems(wanted: Seq<WantedView>, registered: Seq<bool>) -> Seq<Seq<char>>
    decreases wanted.len(),
{
    if wanted.len() == 0 {
        seq![]
    } else {
        let rest = hotkey_problems(wanted.drop_last(), registered);
        match wanted.last().number {
            None => rest.push("хоткей «"@ + wanted.last().text + "» не разобран"@),
            Some(_) => if registered[wanted.len() - 1] {
                rest
            } else {
                rest.push("хоткей "@ + wanted.last().text + " занят другой программой"@)
            },
        }
    }
}

/// The hotkeys that work and what is said of the others, given which of them the system took.
/// Without the system's support for hotkeys there is one thing to say.
pub fn register_hotkeys(wanted: &Vec<Wanted>, registered: &Option<Vec<bool>>) -> (r: (
    Vec<(u32, Command)>,
    Vec<String>,
))
    requires
        registered matches Some(list) ==> list.len() == wanted.len(),
    ensures
        registered matches Some(list) ==> r.0@ == bound(wanted_views(wanted@), list@) && views(
            r.1@,
        ) == hotkey_problems(wanted_views(wanted@), list@),
        registered is None ==> r.0@.len() == 0 && views(r.1@) == seq![
            "глобальные хоткеи недоступны"@,
        ],
{
    let mut bindings: Vec<(u32, Command)> = Vec::new();
    let mut errors: Vec<String> = Vec::new();
    let list = match registered {
        Some(list) => list,
        None => {
            errors.push("глобальные хоткеи недоступны".to_string());
            proof {
                assert(views(errors@) =~= seq!["глобальные хоткеи недоступны"@]);
            }
            return (bindings, errors);
        },
    };
    let ghost all = wanted_views(wanted@);
    let mut i: usize = 0;
    proof {
        assert(all.take(0) =~= seq![]);
        assert(views(errors@) =~= seq![]);
    }
    while i < wanted.len()
        invariant
            i <= wanted.len(),
            list.len() == wanted.len(),
            all == wanted_views(wanted@),
            bindings@ == bound(all.take(i as int), list@),
            views(errors@) == hotkey_problems(all.take(i as int), list@),
        decreases wanted.len() - i,
    {
        proof {
            assert(all.take(i + 1).drop_last() =~= all.take(i as int));
            assert(all.take(i + 1).last() == wanted@[i as int]@);
        }
        match wanted[i].number {
            Some(number) => {
                if list[i] {
                    bindings.push((number, wanted[i].command));
                } else {
                    let mut text = "хоткей ".to_string();
                    text.append(wanted[i].text.as_str());
                    text.append(" занят другой программой");
                    proof {
                        crate::text::lemma_views_push(errors@, text);
                    }
                    errors.push(text);
                }
            },
            None => {
                let mut text = "хоткей «".to_string();
                text.append(wanted[i].text.as_str());
                text.append("» не разобран");
                proof {
                    crate::text::lemma_views_push(errors@, text);
                }
                errors.push(text);
            },
        }
        i += 1;
    }
    proof {
        assert(all.take(i as int) =~= all);
    }
    (bindings, errors)
}

/// The command of the first hotkey with a number.
pub open spec fn command_of(bindings: Seq<(u32, Command)>, number: u32) -> Option<Command>
    decreases bindings.len(),
{
    if bindings.len() == 0 {
        None
    } else if bindings[0].0 == number {
        Some(bindings[0].1)
    } else {
        command_of(bindings.skip(1), number)
    }
}

/// The command of a hotkey: when it is pressed, not when it is released.
pub fn hotkey_command(bindings: &Vec<(u32, Command)>, number: u32, pressed: bool) -> (r: Option<
    Command,
>)
    ensures
        r == (if pressed {
            command_of(bindings@, number)
        } else {
            None
        }),
{
    if !pressed {
        return None;
    }
    let mut i: usize = 0;
    proof {
        assert(bindings@.skip(0) =~= bindings@);
    }
    while i < bindings.len()
        invariant
            i <= bindings.len(),
            pressed,
            command_of(bindings@.skip(i as int), number) == command_of(bindings@, number),
        decreases bindings.len() - i,
    {
        proof {
            assert(bindings@.skip(i as int).skip(1) =~= bindings@.skip(i + 1));
        }
        if bindings[i].0 == number {
            return Some(bindings[i].1);
        }
        i += 1;
    }
    None
}

/// Every hotkey either works or is spoken of.
pub proof fn law_no_hotkey_is_lost(wanted: Seq<WantedView>, registered: Seq<bool>)
    ensures
        bound(wanted, registered).len() + hotkey_problems(wanted, registered).len()
            == wanted.len(),
    decreases wanted.len(),
{
    if wanted.len() > 0 {
        law_no_hotkey_is_lost(wanted.drop_last(), registered);
    }
}

// --- the icon ---

/// The side of the icon, in points.
pub const ICON_SIZE: u32 = 32;

/// Whether a point of the icon belongs to one of its three bars.
pub open spec fn in_bar(x: int, y: int) -> bool {
    y < 28 && ((4 <= x < 10 && y >= 18) || (13 <= x < 19 && y >= 8) || (22 <= x < 28 && y >= 13))
}

/// A byte of the icon: red, green, blue and opacity of each point, row by row.
pub open spec fn icon_byte(i: int) -> u8 {
    let point = i / 4;
    if !in_bar(point % 32, point / 32) {
        0
    } else if i % 4 == 0 {
        0x3f
    } else if i % 4 == 1 {
        0xd0
    } else if i % 4 == 2 {
        0xd8
    } else {
        0xff
    }
}

/// The icon of the tray: three bars in the accent colour.
pub fn tray_icon() -> (r: Vec<u8>)
    ensures
        r@ == Seq::new(4096, |i: int| icon_byte(i)),
{
    let mut rgba: Vec<u8> = Vec::new();
    let mut i: u32 = 0;
    while i < 4096
        invariant
            i <= 4096,
            rgba.len() == i,
            forall|j: int| 0 <= j < i ==> rgba@[j] == icon_byte(j),
        decreases 4096 - i,
    {
        let x: u32 = i / 4 % 32;
        let y: u32 = i / 4 / 32;
        let lit = y < 28 && ((4 <= x && x < 10 && y >= 18) || (13 <= x && x < 19 && y >= 8) || (22
            <= x && x < 28 && y >= 13));
        let channel: u32 = i % 4;
        let byte: u8 = if !lit {
            0
        } else if channel == 0 {
            0x3f
        } else if channel == 1 {
            0xd0
        } else if channel == 2 {
            0xd8
        } else {
            0xff
        };
        rgba.push(byte);
        i += 1;
    }
    proof {
        assert(rgba@ =~= Seq::new(4096, |i: int| icon_byte(i)));
    }
    rgba
}

/// The two hotkeys of the settings, where the system took them, show and hide the overlay and lock
/// and unlock it: each its own command.
pub proof fn law_hotkeys_have_their_own_commands(
    visibility: Seq<char>,
    a: u32,
    lock: Seq<char>,
    b: u32,
    registered: Seq<bool>,
)
    requires
        registered.len() == 2,
        a != b,
    ensures
        ({
            let wanted = wanted_hotkeys(visibility, Some(a), lock, Some(b));
            let bindings = bound(wanted, registered);
            &&& command_of(bindings, a) == (if registered[0] {
                Some(Command::ToggleVisible)
            } else {
                None
            })
            &&& command_of(bindings, b) == (if registered[1] {
                Some(Command::ToggleLock)
            } else {
                None
            })
            &&& forall|other: u32|
                other != a && other != b ==> (#[trigger] command_of(bindings, other)) is None
        }),
{
    let wanted = wanted_hotkeys(visibility, Some(a), lock, Some(b));
    let first = wanted.drop_last();
    assert(first =~= seq![wanted[0]]);
    assert(first.drop_last() =~= seq![]);
    reveal_with_fuel(bound, 3);
    reveal_with_fuel(command_of, 3);
    let bindings = bound(wanted, registered);
    let one = if registered[0] {
        seq![(a, Command::ToggleVisible)]
    } else {
        seq![]
    };
    let two = if registered[1] {
        seq![(b, Command::ToggleLock)]
    } else {
        seq![]
    };
    assert(bound(first, registered) =~= one);
    assert(bindings =~= one + two);
    if registered[0] {
        assert(bindings.skip(1) =~= two);
    }
    if registered[1] {
        assert(two.skip(1) =~= seq![]);
    }
}

/// Each entry of the menu is its own command, as long as the system gave the entries numbers of
/// their own, and no other number is a command.
pub proof fn law_entries_are_their_commands(ids: MenuIds, chosen: u32, r: Option<Command>)
    requires
        call_ensures(menu_command, (&ids, chosen), r),
        ids.visibility != ids.lock,
        ids.visibility != ids.settings,
        ids.visibility != ids.exit,
        ids.lock != ids.settings,
        ids.lock != ids.exit,
        ids.settings != ids.exit,
    ensures
        r == Some(Command::ToggleVisible) <==> chosen == ids.visibility,
        r == Some(Command::ToggleLock) <==> chosen == ids.lock,
        r == Some(Command::OpenSettings) <==> chosen == ids.settings,
        r == Some(Command::Exit) <==> chosen == ids.exit,
{
}

/// The left button shows or hides the overlay, once it is let go; nothing else on the icon does
/// anything.
pub proof fn law_icon_shows_and_hides(left: bool, released: bool, r: Option<Command>)
    requires
        call_ensures(tray_command, (left, released), r),
    ensures
        r is Some <==> left && released,
        r is Some ==> r == Some(Command::ToggleVisible),
{
}

/// The entries say what they would do: an overlay that is seen is hidden, one that is locked is
/// unlocked, and the other way round.
pub proof fn law_entries_say_what_they_do(state: bool, visible: String, locked: String)
    requires
        call_ensures(visibility_label, (state,), visible),
        call_ensures(lock_label, (state,), locked),
    ensures
        state ==> visible@ == "Скрыть оверлей"@ && locked@ == "Разблокировать"@,
        !state ==> visible@ == "Показать оверлей"@ && locked@ == "Заблокировать"@,
{
}

/// The commands, as the journal names them.
pub proof fn law_journal_names_the_commands(value: Command, r: String)
    requires
        call_ensures(Command::name, (&value,), r),
    ensures
        value is ToggleVisible ==> r@ == "ToggleVisible"@,
        value is ToggleLock ==> r@ == "ToggleLock"@,
        value is OpenSettings ==> r@ == "OpenSettings"@,
        value is Exit ==> r@ == "Exit"@,
{
}

} // verus!
