use gpgui::vpn_client::{
    connect_request, disconnect_request, gateway_or_localhost, resolve_gateway, ConnectRequest,
};
use gpgui::{VpnClient, VpnStatus};
use serde_json::Value;

fn obj(pairs: Vec<(&str, Value)>) -> Value {
    let mut m = serde_json::Map::new();
    for (k, v) in pairs {
        m.insert(k.to_string(), v);
    }
    Value::Object(m)
}

fn s(x: &str) -> Value {
    Value::String(x.to_string())
}

fn expected_connect(portal: &str, gateway: &str, cookie: &str) -> String {
    let gw = || obj(vec![("name", s("Default Gateway")), ("address", s(gateway))]);
    let info = obj(vec![
        ("portal", s(portal)),
        ("gateway", gw()),
        ("gateways", Value::Array(vec![gw()])),
    ]);
    let data = obj(vec![("info", info), ("cookie", s(cookie))]);
    obj(vec![("type", s("Connect")), ("data", data)]).to_string()
}

#[test]
fn status_default_is_disconnected() {
    assert_eq!(VpnStatus::default(), VpnStatus::Disconnected);
}

#[test]
fn new_client_is_disconnected() {
    let c = VpnClient::new();
    assert_eq!(c.get_status(), &VpnStatus::Disconnected);
}

#[test]
fn gateway_given_is_kept() {
    assert_eq!(resolve_gateway("https://vpn.example.com/", Some("gw.example.com".to_string())), "gw.example.com");
}

#[test]
fn gateway_defaults_to_portal_host() {
    assert_eq!(resolve_gateway("https://vpn.example.com/global-protect", None), "vpn.example.com");
    assert_eq!(resolve_gateway("https://10.0.0.1:8443/", None), "10.0.0.1");
}

#[test]
fn gateway_defaults_to_localhost() {
    assert_eq!(resolve_gateway("vpn.example.com", None), "localhost");
    assert_eq!(resolve_gateway("mailto:someone@example.com", None), "localhost");
    assert_eq!(gateway_or_localhost(None), "localhost");
    assert_eq!(gateway_or_localhost(Some("h".to_string())), "h");
}

#[test]
fn connect_request_matches_serde_json() {
    let got = connect_request("https://vpn.example.com", "vpn.example.com", "c=1&d=2");
    assert_eq!(got, expected_connect("https://vpn.example.com", "vpn.example.com", "c=1&d=2"));
    assert_eq!(
        got,
        "{\"data\":{\"cookie\":\"c=1&d=2\",\"info\":{\"gateway\":{\"address\":\"vpn.example.com\",\"name\":\"Default Gateway\"},\"gateways\":[{\"address\":\"vpn.example.com\",\"name\":\"Default Gateway\"}],\"portal\":\"https://vpn.example.com\"}},\"type\":\"Connect\"}"
    );
}

#[test]
fn connect_request_escapes_text() {
    let cookie = "a\"b\\c\nd\u{1}";
    assert_eq!(connect_request("p", "g", cookie), expected_connect("p", "g", cookie));
    assert!(connect_request("p", "g", cookie).contains("a\\\"b\\\\c\\nd\\u0001"));
}

#[test]
fn disconnect_request_matches_serde_json() {
    let expected = obj(vec![("type", s("Disconnect")), ("data", obj(vec![]))]).to_string();
    assert_eq!(disconnect_request(), expected);
    assert_eq!(disconnect_request(), "{\"data\":{},\"type\":\"Disconnect\"}");
}

#[test]
fn connect_then_disconnect() {
    let mut c = VpnClient::new();
    let url = c.begin_connect();
    assert_eq!(url, "ws://localhost:8080/ws");
    assert_eq!(c.get_status(), &VpnStatus::Connecting);
    c.channel_opened();
    let req = ConnectRequest::new("https://vpn.example.com", None, "ck");
    assert_eq!(req.gateway(), "vpn.example.com");
    assert_eq!(req.message(), connect_request("https://vpn.example.com", "vpn.example.com", "ck"));
    c.finish_connect(req);
    assert_eq!(
        c.get_status(),
        &VpnStatus::Connected {
            portal: "https://vpn.example.com".to_string(),
            gateway: "vpn.example.com".to_string()
        }
    );
    let req = c.begin_disconnect();
    assert_eq!(c.get_status(), &VpnStatus::Disconnecting);
    assert_eq!(req, Some(disconnect_request()));
    c.finish_disconnect();
    assert_eq!(c.get_status(), &VpnStatus::Disconnected);
}

#[test]
fn failed_connect_stays_connecting() {
    let mut c = VpnClient::new();
    c.begin_connect();
    assert_eq!(c.get_status(), &VpnStatus::Connecting);
}

#[test]
fn disconnect_without_channel_sends_nothing() {
    let mut c = VpnClient::new();
    assert_eq!(c.begin_disconnect(), None);
    assert_eq!(c.get_status(), &VpnStatus::Disconnecting);
    c.finish_disconnect();
    assert_eq!(c.get_status(), &VpnStatus::Disconnected);
}

#[test]
fn json_escapes_every_control_character() {
    for b in 0u8..0x20 {
        let c = b as char;
        let text = format!("x{}y\"\\\u{7f}é", c);
        assert_eq!(connect_request("p", "g", &text), expected_connect("p", "g", &text));
    }
    assert!(connect_request("p", "g", "\u{1f}\u{8}").contains("\"cookie\":\"\\u001f\\b\""));
}

#[test]
fn type_fields_read_plainly() {
    assert!(connect_request("p", "g", "c").ends_with(",\"type\":\"Connect\"}"));
    assert!(disconnect_request().ends_with("\"type\":\"Disconnect\"}"));
}

#[test]
fn connect_request_uses_given_gateway() {
    let req = ConnectRequest::new("https://vpn.example.com", Some("gw.example.com".to_string()), "ck");
    assert_eq!(req.gateway(), "gw.example.com");
    assert_eq!(req.message(), expected_connect("https://vpn.example.com", "gw.example.com", "ck"));
    let mut c = VpnClient::new();
    c.begin_connect();
    c.channel_opened();
    c.finish_connect(req);
    assert_eq!(
        c.get_status(),
        &VpnStatus::Connected {
            portal: "https://vpn.example.com".to_string(),
            gateway: "gw.example.com".to_string()
        }
    );
}

#[test]
fn service_state_is_shown() {
    let mut c = VpnClient::new();
    c.begin_connect();
    c.apply_service_state(VpnStatus::Connected { portal: "p".to_string(), gateway: "g".to_string() });
    assert_eq!(c.get_status(), &VpnStatus::Connected { portal: "p".to_string(), gateway: "g".to_string() });
    c.apply_service_state(VpnStatus::Disconnected);
    assert_eq!(c.get_status(), &VpnStatus::Disconnected);
}
