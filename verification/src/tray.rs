use vstd::prelude::*;

verus! {

/// What the system tray reports.
#[derive(Clone, Debug, PartialEq, Eq)]
pub enum TrayEvent {
    /// A menu item was clicked; `id` names it.
    MenuItemClick { id: String },
    /// The tray icon was clicked with the left button.
    LeftClick,
    /// Anything else the tray reports.
    Other,
}

/// What the application does in answer to a tray event.
#[derive(Clone, Copy, Debug, PartialEq, Eq)]
pub enum TrayAction {
    /// Leave the application.
    Quit,
    /// Offer to connect (for now: show the main window).
    ShowConnectDialog,
    /// Disconnect the VPN.
    Disconnect,
    /// Show the settings (for now: the main window).
    OpenSettings,
    /// Show the main window.
    OpenMainWindow,
    /// Do nothing.
    Ignore,
}

/// The action for a click on the menu item named `id`.
pub open spec fn menu_action(id: Seq<char>) -> TrayAction {
    if id == "Quit"@ {
        TrayAction::Quit
    } else if id == "Connect"@ {
        TrayAction::ShowConnectDialog
    } else if id == "Disconnect"@ {
        TrayAction::Disconnect
    } else if id == "Settings"@ {
        TrayAction::OpenSettings
    } else {
        TrayAction::Ignore
    }
}

/// The action for a tray event.
pub open spec fn tray_action(event: TrayEvent) -> TrayAction {
    match event {
        TrayEvent::MenuItemClick { id } => menu_action(id@),
        TrayEvent::LeftClick => TrayAction::OpenMainWindow,
        TrayEvent::Other => TrayAction::Ignore,
    }
}

/// Decides what a tray event asks for; the caller carries it out.
pub fn handle_tray_event(event: &TrayEvent) -> (r: TrayAction)
    ensures
        r == tray_action(*event),
{
    match event {
        TrayEvent::MenuItemClick { id } => {
            if *id == String::from_str("Quit") {
                TrayAction::Quit
            } else if *id == String::from_str("Connect") {
                TrayAction::ShowConnectDialog
            } else if *id == String::from_str("Disconnect") {
                TrayAction::Disconnect
            } else if *id == String::from_str("Settings") {
                TrayAction::OpenSettings
            } else {
                TrayAction::Ignore
            }
        },
        TrayEvent::LeftClick => TrayAction::OpenMainWindow,
        TrayEvent::Other => TrayAction::Ignore,
    }
}

// ---------------------------------------------------------------------------
// The tray menu
// ---------------------------------------------------------------------------

/// An item of the tray menu; a click on it reports `id`.
#[derive(Clone, Debug, PartialEq, Eq)]
pub struct MenuItem {
    pub id: String,
    pub label: String,
    pub enabled: bool,
}

/// An entry of the tray menu: an item, or a titled submenu of items.
#[derive(Clone, Debug, PartialEq, Eq)]
pub enum MenuEntry {
    Item(MenuItem),
    Submenu { title: String, items: Vec<MenuItem> },
}

/// An enabled item whose id and label are both `name`.
pub open spec fn is_named_item(item: MenuItem, name: Seq<char>) -> bool {
    item.id@ == name && item.label@ == name && item.enabled
}

/// The tray menu: a submenu "Connection" with Connect and Disconnect, a
/// submenu "Preferences" with Settings, and Quit.
pub open spec fn is_tray_menu(m: Seq<MenuEntry>) -> bool {
    &&& m.len() == 3
    &&& match m[0] {
        MenuEntry::Submenu { title, items } => title@ == "Connection"@ && items@.len() == 2
            && is_named_item(items@[0], "Connect"@) && is_named_item(items@[1], "Disconnect"@),
        MenuEntry::Item(_) => false,
    }
    &&& match m[1] {
        MenuEntry::Submenu { title, items } => title@ == "Preferences"@ && items@.len() == 1
            && is_named_item(items@[0], "Settings"@),
        MenuEntry::Item(_) => false,
    }
    &&& match m[2] {
        MenuEntry::Item(item) => is_named_item(item, "Quit"@),
        MenuEntry::Submenu { .. } => false,
    }
}

fn named_item(name: &str) -> (r: MenuItem)
    ensures
        is_named_item(r, name@),
{
    MenuItem { id: String::from_str(name), label: String::from_str(name), enabled: true }
}

/// The entries of the tray menu, in order.
pub fn tray_menu() -> (r: Vec<MenuEntry>)
    ensures
        is_tray_menu(r@),
{
    let mut connection: Vec<MenuItem> = Vec::new();
    connection.push(named_item("Connect"));
    connection.push(named_item("Disconnect"));
    let mut preferences: Vec<MenuItem> = Vec::new();
    preferences.push(named_item("Settings"));
    let mut r: Vec<MenuEntry> = Vec::new();
    r.push(MenuEntry::Submenu { title: String::from_str("Connection"), items: connection });
    r.push(MenuEntry::Submenu { title: String::from_str("Preferences"), items: preferences });
    r.push(MenuEntry::Item(named_item("Quit")));
    r
}

/// Every item of the tray menu, in a submenu or not, is answered by an
/// action: a click on it is never ignored.
pub proof fn law_every_menu_item_has_an_action(m: Seq<MenuEntry>)
    requires
        is_tray_menu(m),
    ensures
        forall|i: int|
            0 <= i < m.len() ==> match #[trigger] m[i] {
                MenuEntry::Item(item) => menu_action(item.id@) != TrayAction::Ignore,
                MenuEntry::Submenu { items, .. } => forall|j: int|
                    0 <= j < items@.len() ==> menu_action((#[trigger] items@[j]).id@)
                        != TrayAction::Ignore,
            },
{
}

} // verus!
