use gpgui::{handle_tray_event, AutoConnectManager, Config, Portal, TrayAction, TrayEvent};
use gpgui::tray::{tray_menu, MenuEntry, MenuItem};

fn click(id: &str) -> TrayAction {
    handle_tray_event(&TrayEvent::MenuItemClick { id: id.to_string() })
}

#[test]
fn menu_items_map_to_actions() {
    assert_eq!(click("Quit"), TrayAction::Quit);
    assert_eq!(click("Connect"), TrayAction::ShowConnectDialog);
    assert_eq!(click("Disconnect"), TrayAction::Disconnect);
    assert_eq!(click("Settings"), TrayAction::OpenSettings);
}

#[test]
fn unknown_menu_items_are_ignored() {
    assert_eq!(click("quit"), TrayAction::Ignore);
    assert_eq!(click(""), TrayAction::Ignore);
    assert_eq!(click("Quit "), TrayAction::Ignore);
}

#[test]
fn left_click_opens_main_window() {
    assert_eq!(handle_tray_event(&TrayEvent::LeftClick), TrayAction::OpenMainWindow);
    assert_eq!(handle_tray_event(&TrayEvent::Other), TrayAction::Ignore);
}

#[test]
fn config_default() {
    let c: Config<Portal> = Config::default();
    assert!(!c.auto_connect);
    assert!(c.portals.is_empty());
    assert_eq!(c.last_connected_portal, None);
    assert_eq!(c.auto_connect_portal(), None);
}

#[test]
fn auto_connect_picks_first_portal() {
    let p1 = Portal { id: "1".into(), name: "a".into(), url: "u1".into(), username: None, is_default: false };
    let p2 = Portal { id: "2".into(), name: "b".into(), url: "u2".into(), username: None, is_default: true };
    let mut c = Config { auto_connect: true, portals: vec![p1.clone(), p2], last_connected_portal: None };
    assert_eq!(c.auto_connect_portal(), Some(&p1));
    c.auto_connect = false;
    assert_eq!(c.auto_connect_portal(), None);
    let empty: Config<Portal> = Config { auto_connect: true, portals: vec![], last_connected_portal: None };
    assert_eq!(empty.auto_connect_portal(), None);
}

#[test]
fn auto_connect_manager_new() {
    let _m = AutoConnectManager::new();
}

#[test]
fn tray_menu_layout() {
    let item = |n: &str| MenuItem { id: n.to_string(), label: n.to_string(), enabled: true };
    assert_eq!(
        tray_menu(),
        vec![
            MenuEntry::Submenu { title: "Connection".to_string(), items: vec![item("Connect"), item("Disconnect")] },
            MenuEntry::Submenu { title: "Preferences".to_string(), items: vec![item("Settings")] },
            MenuEntry::Item(item("Quit")),
        ]
    );
}

#[test]
fn every_tray_menu_item_has_an_action() {
    for entry in tray_menu() {
        let items = match entry {
            MenuEntry::Item(i) => vec![i],
            MenuEntry::Submenu { items, .. } => items,
        };
        for i in items {
            assert_ne!(handle_tray_event(&TrayEvent::MenuItemClick { id: i.id }), TrayAction::Ignore);
        }
    }
}
