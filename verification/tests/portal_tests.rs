use gpgui::{Portal, PortalManager};

fn portal(id: &str, name: &str, default: bool) -> Portal {
    Portal {
        id: id.to_string(),
        name: name.to_string(),
        url: format!("https://{}.example.com", name),
        username: None,
        is_default: default,
    }
}

#[test]
fn new_portal_has_random_v4_id() {
    let p = Portal::new("Office".to_string(), "https://vpn.example.com".to_string());
    assert_eq!(p.name, "Office");
    assert_eq!(p.url, "https://vpn.example.com");
    assert_eq!(p.username, None);
    assert!(!p.is_default);
    let id: Vec<char> = p.id.chars().collect();
    assert_eq!(id.len(), 36);
    for (i, c) in id.iter().enumerate() {
        if i == 8 || i == 13 || i == 18 || i == 23 {
            assert_eq!(*c, '-');
        } else {
            assert!(c.is_ascii_hexdigit() && !c.is_ascii_uppercase());
        }
    }
    assert_eq!(id[14], '4');
    assert!(matches!(id[19], '8' | '9' | 'a' | 'b'));
    let q = Portal::new("Office".to_string(), "https://vpn.example.com".to_string());
    assert_ne!(p.id, q.id);
}

#[test]
fn new_manager_is_empty() {
    let m = PortalManager::new();
    assert!(m.get_portals().is_empty());
    assert_eq!(m.get_default_portal(), None);
}

#[test]
fn add_appends_in_order() {
    let mut m = PortalManager::new();
    m.add_portal(portal("1", "a", false));
    m.add_portal(portal("2", "b", false));
    assert_eq!(m.get_portals(), &vec![portal("1", "a", false), portal("2", "b", false)]);
}

#[test]
fn remove_takes_out_the_named_portal() {
    let mut m = PortalManager::new();
    m.add_portal(portal("1", "a", false));
    m.add_portal(portal("2", "b", false));
    m.add_portal(portal("3", "c", false));
    m.remove_portal("2");
    assert_eq!(m.get_portals(), &vec![portal("1", "a", false), portal("3", "c", false)]);
    m.remove_portal("3");
    assert_eq!(m.get_portals(), &vec![portal("1", "a", false)]);
}

#[test]
fn remove_of_unknown_id_does_nothing() {
    let mut m = PortalManager::new();
    m.add_portal(portal("1", "a", false));
    m.remove_portal("9");
    assert_eq!(m.get_portals(), &vec![portal("1", "a", false)]);
}

#[test]
fn remove_undoes_add() {
    let mut m = PortalManager::new();
    m.add_portal(portal("1", "a", false));
    m.add_portal(portal("2", "b", false));
    let before = m.get_portals().clone();
    m.add_portal(portal("1", "again", false));
    m.remove_portal("1");
    assert_eq!(m.get_portals(), &before);
}

#[test]
fn duplicate_id_finds_the_later_portal() {
    let mut m = PortalManager::new();
    m.add_portal(portal("1", "first", false));
    m.add_portal(portal("1", "second", false));
    m.update_portal(portal("1", "updated", false));
    assert_eq!(
        m.get_portals(),
        &vec![portal("1", "first", false), portal("1", "updated", false)]
    );
    m.remove_portal("1");
    assert_eq!(m.get_portals(), &vec![portal("1", "first", false)]);
}

#[test]
fn update_replaces_in_place() {
    let mut m = PortalManager::new();
    m.add_portal(portal("1", "a", false));
    m.add_portal(portal("2", "b", false));
    m.update_portal(portal("1", "renamed", true));
    assert_eq!(m.get_portals(), &vec![portal("1", "renamed", true), portal("2", "b", false)]);
}

#[test]
fn update_of_unknown_id_does_nothing() {
    let mut m = PortalManager::new();
    m.add_portal(portal("1", "a", false));
    m.update_portal(portal("7", "x", true));
    assert_eq!(m.get_portals(), &vec![portal("1", "a", false)]);
}

#[test]
fn default_portal_is_the_first_marked_one() {
    let mut m = PortalManager::new();
    m.add_portal(portal("1", "a", false));
    m.add_portal(portal("2", "b", true));
    m.add_portal(portal("3", "c", true));
    assert_eq!(m.get_default_portal(), Some(&portal("2", "b", true)));
}

#[test]
fn no_default_portal() {
    let mut m = PortalManager::new();
    m.add_portal(portal("1", "a", false));
    assert_eq!(m.get_default_portal(), None);
}

#[test]
fn index_is_rebuilt_after_removal() {
    let mut m = PortalManager::new();
    m.add_portal(portal("1", "a", false));
    m.add_portal(portal("2", "b", false));
    m.add_portal(portal("3", "c", false));
    m.remove_portal("1");
    m.update_portal(portal("3", "c2", true));
    m.update_portal(portal("2", "b2", false));
    assert_eq!(m.get_portals(), &vec![portal("2", "b2", false), portal("3", "c2", true)]);
    m.remove_portal("3");
    m.add_portal(portal("4", "d", false));
    m.remove_portal("2");
    assert_eq!(m.get_portals(), &vec![portal("4", "d", false)]);
}
