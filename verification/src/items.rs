//! What a page of a window holds, from top to bottom.

use vstd::prelude::*;

use crate::blocks::BlockKind;
use crate::settings::FullscreenMode;
use crate::settings::Metric;
use crate::settings::TargetChoice;

verus! {

/// A switch on a page.
#[derive(Debug, Clone, Copy, PartialEq, Eq, Structural)]
pub enum Toggle {
    AlwaysOnTop,
    Locked,
    ShowHeader,
    ShowGraph,
    HideUnavailable,
    Block(BlockKind),
    Row(Metric),
    /// The window of the game with that index loses its frame.
    Borderless(usize),
    Autostart,
}

/// One of several things to choose from.
#[derive(Debug, Clone, Copy, PartialEq, Eq, Structural)]
pub enum Choice {
    Fullscreen(FullscreenMode),
    Target(TargetChoice),
}

/// A field for a text.
#[derive(Debug, Clone, Copy, PartialEq, Eq, Structural)]
pub enum Field {
    ManualProcess,
    ManualPid,
    PresentMon,
    ToggleVisibility,
    ToggleLock,
    GamePath,
    /// The arguments of the game with that index.
    GameArguments(usize),
}

/// A button.
#[derive(Debug, Clone, Copy, PartialEq, Eq, Structural)]
pub enum Press {
    ApplyTarget,
    ApplyPresentMon,
    ApplyHotkeys,
    LaunchGame(usize),
    MakeShortcut(usize),
    RemoveGame(usize),
    PickGame,
    AddGame,
    Install,
    Uninstall,
    StartService,
    /// In the window of the first start.
    ElevateOnce,
    Skip,
}

#[derive(Debug, PartialEq)]
pub enum Item {
    /// The name of a group.
    Group(String),
    Note(String),
    /// In small letters.
    Hint(String),
    Warning(String),
    /// In bold letters: the heading of a window, the name of a game.
    Name(String),
    Check { toggle: Toggle, label: String, on: bool },
    Radio { choice: Choice, label: String, chosen: bool },
    Text { field: Field, label: String, placeholder: String },
    Button { press: Press, label: String, enabled: bool },
    /// The controls of the overlay's opacity and scale.
    Opacity,
    Scale,
}

pub enum ItemView {
    Group(Seq<char>),
    Note(Seq<char>),
    Hint(Seq<char>),
    Warning(Seq<char>),
    Name(Seq<char>),
    Check { toggle: Toggle, label: Seq<char>, on: bool },
    Radio { choice: Choice, label: Seq<char>, chosen: bool },
    Text { field: Field, label: Seq<char>, placeholder: Seq<char> },
    Button { press: Press, label: Seq<char>, enabled: bool },
    Opacity,
    Scale,
}

impl View for Item {
    type V = ItemView;

    open spec fn view(&self) -> ItemView {
        match self {
            Item::Group(text) => ItemView::Group(text@),
            Item::Note(text) => ItemView::Note(text@),
            Item::Hint(text) => ItemView::Hint(text@),
            Item::Warning(text) => ItemView::Warning(text@),
            Item::Name(text) => ItemView::Name(text@),
            Item::Check { toggle, label, on } => ItemView::Check {
                toggle: *toggle,
                label: label@,
                on: *on,
            },
            Item::Radio { choice, label, chosen } => ItemView::Radio {
                choice: *choice,
                label: label@,
                chosen: *chosen,
            },
            Item::Text { field, label, placeholder } => ItemView::Text {
                field: *field,
                label: label@,
                placeholder: placeholder@,
            },
            Item::Button { press, label, enabled } => ItemView::Button {
                press: *press,
                label: label@,
                enabled: *enabled,
            },
            Item::Opacity => ItemView::Opacity,
            Item::Scale => ItemView::Scale,
        }
    }
}

pub open spec fn item_views(items: Seq<Item>) -> Seq<ItemView> {
    items.map_values(|item: Item| item@)
}

/// A page without anything on it.
pub(crate) fn blank_page() -> (r: Vec<Item>)
    ensures
        item_views(r@) == Seq::<ItemView>::empty(),
{
    let r: Vec<Item> = Vec::new();
    proof {
        assert(item_views(r@) =~= Seq::<ItemView>::empty());
    }
    r
}

pub(crate) fn put(items: &mut Vec<Item>, item: Item)
    ensures
        item_views(final(items)@) == item_views(old(items)@).push(item@),
{
    items.push(item);
    proof {
        assert(item_views(items@) =~= item_views(old(items)@).push(item@));
    }
}

pub(crate) fn group(items: &mut Vec<Item>, text: &str)
    ensures
        item_views(final(items)@) == item_views(old(items)@).push(ItemView::Group(text@)),
{
    put(items, Item::Group(text.to_string()));
}

pub(crate) fn note(items: &mut Vec<Item>, text: &str)
    ensures
        item_views(final(items)@) == item_views(old(items)@).push(ItemView::Note(text@)),
{
    put(items, Item::Note(text.to_string()));
}

pub(crate) fn hint(items: &mut Vec<Item>, text: &str)
    ensures
        item_views(final(items)@) == item_views(old(items)@).push(ItemView::Hint(text@)),
{
    put(items, Item::Hint(text.to_string()));
}

pub(crate) fn warning(items: &mut Vec<Item>, text: &str)
    ensures
        item_views(final(items)@) == item_views(old(items)@).push(ItemView::Warning(text@)),
{
    put(items, Item::Warning(text.to_string()));
}

pub(crate) fn check(items: &mut Vec<Item>, toggle: Toggle, label: &str, on: bool)
    ensures
        item_views(final(items)@) == item_views(old(items)@).push(
            ItemView::Check { toggle, label: label@, on },
        ),
{
    put(items, Item::Check { toggle, label: label.to_string(), on });
}

pub(crate) fn radio(items: &mut Vec<Item>, choice: Choice, label: &str, chosen: bool)
    ensures
        item_views(final(items)@) == item_views(old(items)@).push(
            ItemView::Radio { choice, label: label@, chosen },
        ),
{
    put(items, Item::Radio { choice, label: label.to_string(), chosen });
}

pub(crate) fn text_field(items: &mut Vec<Item>, field: Field, label: &str, placeholder: &str)
    ensures
        item_views(final(items)@) == item_views(old(items)@).push(
            ItemView::Text { field, label: label@, placeholder: placeholder@ },
        ),
{
    put(
        items,
        Item::Text { field, label: label.to_string(), placeholder: placeholder.to_string() },
    );
}

pub(crate) fn button(items: &mut Vec<Item>, press: Press, label: &str, enabled: bool)
    ensures
        item_views(final(items)@) == item_views(old(items)@).push(
            ItemView::Button { press, label: label@, enabled },
        ),
{
    put(items, Item::Button { press, label: label.to_string(), enabled });
}

} // verus!
