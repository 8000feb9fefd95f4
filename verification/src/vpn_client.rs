use vstd::prelude::*;

verus! {

/// The state of the VPN connection as the client sees it.
#[derive(Clone, Debug, PartialEq, Eq)]
pub enum VpnStatus {
    Disconnected,
    Connecting,
    Connected { portal: String, gateway: String },
    Disconnecting,
}

/// The connection state with its texts taken by their characters.
pub enum StatusView {
    Disconnected,
    Connecting,
    Connected { portal: Seq<char>, gateway: Seq<char> },
    Disconnecting,
}

impl View for VpnStatus {
    type V = StatusView;

    open spec fn view(&self) -> StatusView {
        match self {
            VpnStatus::Disconnected => StatusView::Disconnected,
            VpnStatus::Connecting => StatusView::Connecting,
            VpnStatus::Connected { portal, gateway } => StatusView::Connected {
                portal: portal@,
                gateway: gateway@,
            },
            VpnStatus::Disconnecting => StatusView::Disconnecting,
        }
    }
}

impl Default for VpnStatus {
    fn default() -> (r: Self)
        ensures
            r == VpnStatus::Disconnected,
    {
        VpnStatus::Disconnected
    }
}

// ---------------------------------------------------------------------------
// Trusted items
// ---------------------------------------------------------------------------

/// The host that `url::Url::parse` finds in `url`: `None` where the text does
/// not parse as a URL or the URL has no host.
pub uninterp spec fn url_host(url: Seq<char>) -> Option<Seq<char>>;

/// Calls `url::Url::parse` and then `Url::host_str` on the parsed URL.
/// Claimed: the result is a function of the text alone, named `url_host`.
#[verifier::external_body]
fn host_of_url(url: &str) -> (r: Option<String>)
    ensures
        match r {
            Some(h) => url_host(url@) == Some(h@),
            None => url_host(url@) is None,
        },
{
    match url::Url::parse(url) {
        Ok(parsed) => match parsed.host_str() {
            Some(h) => Some(h.to_string()),
            None => None,
        },
        Err(_) => None,
    }
}

/// The lowercase hexadecimal digit for `d` (0 to 15).
pub open spec fn lower_hex_digit(d: int) -> char {
    seq!['0', '1', '2', '3', '4', '5', '6', '7', '8', '9', 'a', 'b', 'c', 'd', 'e', 'f'][d]
}

/// How one character is written inside a JSON string: `"` and `\` get a
/// backslash; backspace, tab, line feed, form feed and carriage return become
/// `\b`, `\t`, `\n`, `\f`, `\r`; any other character below U+0020 becomes
/// `\u00` and two lowercase hexadecimal digits; every other character is kept.
pub open spec fn json_escaped_char(c: char) -> Seq<char> {
    let v = c as u32;
    if c == '"' {
        seq!['\\', '"']
    } else if c == '\\' {
        seq!['\\', '\\']
    } else if v == 0x08 {
        seq!['\\', 'b']
    } else if v == 0x09 {
        seq!['\\', 't']
    } else if v == 0x0a {
        seq!['\\', 'n']
    } else if v == 0x0c {
        seq!['\\', 'f']
    } else if v == 0x0d {
        seq!['\\', 'r']
    } else if v < 0x20 {
        seq!['\\', 'u', '0', '0', lower_hex_digit((v / 16) as int), lower_hex_digit((v % 16) as int)]
    } else {
        seq![c]
    }
}

/// The characters of `s`, each written as inside a JSON string.
pub open spec fn json_escaped(s: Seq<char>) -> Seq<char>
    decreases s.len(),
{
    if s.len() == 0 {
        Seq::empty()
    } else {
        json_escaped(s.drop_last()) + json_escaped_char(s.last())
    }
}

/// The JSON text of the string `s`: its escaped characters in double quotes.
pub open spec fn json_string_text(s: Seq<char>) -> Seq<char> {
    seq!['"'] + json_escaped(s) + seq!['"']
}

/// Text with no quote, backslash or control character (below U+0020).
pub open spec fn is_plain_json_text(s: Seq<char>) -> bool {
    forall|i: int| 0 <= i < s.len() ==> #[trigger] s[i] != '"' && s[i] != '\\' && s[i] as u32 >= 0x20
}

/// Text with no quote, backslash or control character is written as it is,
/// between double quotes.
pub proof fn law_plain_text_is_quoted(s: Seq<char>)
    requires
        is_plain_json_text(s),
    ensures
        json_escaped(s) == s,
        json_string_text(s) == seq!['"'] + s + seq!['"'],
    decreases s.len(),
{
    if s.len() > 0 {
        let t = s.drop_last();
        assert forall|i: int| 0 <= i < t.len() implies #[trigger] t[i] != '"' && t[i] != '\\'
            && t[i] as u32 >= 0x20 by {
            assert(t[i] == s[i]);
        }
        law_plain_text_is_quoted(t);
        assert(s[s.len() - 1] == s.last());
        assert(t + seq![s.last()] =~= s);
    } else {
        assert(json_escaped(s) =~= s);
    }
}

/// Calls `serde_json::Value::String(..)` and formats it with `to_string`.
/// Claimed, from the crate's source (`format_escaped_str` and its `ESCAPE`
/// table): the text is `s` in double quotes with the escapes of
/// `json_escaped_char`.
#[verifier::external_body]
fn json_string(s: &str) -> (r: String)
    ensures
        r@ == json_string_text(s@),
{
    serde_json::Value::String(s.to_string()).to_string()
}

// ---------------------------------------------------------------------------
// Requests sent to the VPN service
// ---------------------------------------------------------------------------

/// The gateway a connection goes to: the one given, else the host of the
/// portal URL, else `localhost`.
pub open spec fn gateway_for(portal_url: Seq<char>, gateway_address: Option<Seq<char>>) -> Seq<
    char,
> {
    match gateway_address {
        Some(g) => g,
        None => match url_host(portal_url) {
            Some(h) => h,
            None => "localhost"@,
        },
    }
}

/// The compact JSON of the connect request, with its keys in sorted order:
/// `{"data":{"cookie":C,"info":{"gateway":{"address":G,"name":N},"gateways":[{"address":G,"name":N}],"portal":P}},"type":"Connect"}`
/// where `N` is the quoted name `Default Gateway`.
pub open spec fn connect_request_text(portal: Seq<char>, gateway: Seq<char>, cookie: Seq<char>) -> Seq<
    char,
> {
    let g = json_string_text(gateway);
    let n = json_string_text("Default Gateway"@);
    "{\"data\":{\"cookie\":"@ + json_string_text(cookie) + ",\"info\":{\"gateway\":{\"address\":"@
        + g + ",\"name\":"@ + n + "},\"gateways\":[{\"address\":"@ + g + ",\"name\":"@ + n
        + "}],\"portal\":"@ + json_string_text(portal) + "}},\"type\":"@ + json_string_text(
        "Connect"@,
    ) + "}"@
}

/// The compact JSON of the disconnect request: `{"data":{},"type":"Disconnect"}`.
pub open spec fn disconnect_request_text() -> Seq<char> {
    "{\"data\":{},\"type\":"@ + json_string_text("Disconnect"@) + "}"@
}

/// The disconnect request, spelled out.
pub proof fn law_disconnect_request_text()
    ensures
        disconnect_request_text() == "{\"data\":{},\"type\":\"Disconnect\"}"@,
{
    reveal_strlit("{\"data\":{},\"type\":");
    reveal_strlit("Disconnect");
    reveal_strlit("}");
    reveal_strlit("{\"data\":{},\"type\":\"Disconnect\"}");
    law_plain_text_is_quoted("Disconnect"@);
    assert(disconnect_request_text() =~= "{\"data\":{},\"type\":\"Disconnect\"}"@);
}

/// The gateway when none was given: the portal's host, else `localhost`.
pub fn gateway_or_localhost(host: Option<String>) -> (r: String)
    ensures
        match host {
            Some(h) => r@ == h@,
            None => r@ == "localhost"@,
        },
{
    match host {
        Some(h) => h,
        None => String::from_str("localhost"),
    }
}

/// The gateway a connection to `portal_url` goes to.
pub fn resolve_gateway(portal_url: &str, gateway_address: Option<String>) -> (r: String)
    ensures
        r@ == gateway_for(
            portal_url@,
            match gateway_address {
                Some(g) => Some(g@),
                None => None,
            },
        ),
        gateway_address matches Some(g) ==> r@ == g@,
{
    match gateway_address {
        Some(g) => g,
        None => gateway_or_localhost(host_of_url(portal_url)),
    }
}

/// The connect request for `portal_url` through `gateway`, carrying `cookie`.
pub fn connect_request(portal_url: &str, gateway: &str, cookie: &str) -> (r: String)
    ensures
        r@ == connect_request_text(portal_url@, gateway@, cookie@),
{
    let g = json_string(gateway);
    let n = json_string("Default Gateway");
    let mut r = String::from_str("{\"data\":{\"cookie\":");
    r.append(json_string(cookie).as_str());
    r.append(",\"info\":{\"gateway\":{\"address\":");
    r.append(g.as_str());
    r.append(",\"name\":");
    r.append(n.as_str());
    r.append("},\"gateways\":[{\"address\":");
    r.append(g.as_str());
    r.append(",\"name\":");
    r.append(n.as_str());
    r.append("}],\"portal\":");
    r.append(json_string(portal_url).as_str());
    r.append("}},\"type\":");
    r.append(json_string("Connect").as_str());
    r.append("}");
    r
}

/// The disconnect request.
pub fn disconnect_request() -> (r: String)
    ensures
        r@ == disconnect_request_text(),
{
    let mut r = String::from_str("{\"data\":{},\"type\":");
    r.append(json_string("Disconnect").as_str());
    r.append("}");
    r
}

// ---------------------------------------------------------------------------
// The client's state machine
// ---------------------------------------------------------------------------

/// What the client knows: the connection state, the address of the VPN
/// service's websocket, and whether a channel to the service has been opened.
pub struct ClientState {
    pub status: StatusView,
    pub ws_url: Seq<char>,
    pub channel_open: bool,
}

/// The address of the VPN service's websocket.
pub open spec fn service_url() -> Seq<char> {
    "ws://localhost:8080/ws"@
}

pub open spec fn initial_client() -> ClientState {
    ClientState { status: StatusView::Disconnected, ws_url: service_url(), channel_open: false }
}

/// A connection attempt has begun.
pub open spec fn after_begin_connect(s: ClientState) -> ClientState {
    ClientState { status: StatusView::Connecting, ..s }
}

/// The channel to the service is open.
pub open spec fn after_channel_opened(s: ClientState) -> ClientState {
    ClientState { channel_open: true, ..s }
}

/// The connect request went out.
pub open spec fn after_finish_connect(s: ClientState, portal: Seq<char>, gateway: Seq<char>) -> ClientState {
    ClientState { status: StatusView::Connected { portal, gateway }, ..s }
}

/// The VPN service reported its state.
pub open spec fn after_service_state(s: ClientState, reported: StatusView) -> ClientState {
    ClientState { status: reported, ..s }
}

/// A disconnection has begun.
pub open spec fn after_begin_disconnect(s: ClientState) -> ClientState {
    ClientState { status: StatusView::Disconnecting, ..s }
}

/// The disconnection is complete.
pub open spec fn after_finish_disconnect(s: ClientState) -> ClientState {
    ClientState { status: StatusView::Disconnected, ..s }
}

/// A prepared connect request: the portal, the gateway chosen for it and the
/// message to send to the service.
pub struct ConnectRequest {
    portal: String,
    gateway: String,
    message: String,
}

/// A connect request by its texts.
pub struct ConnectRequestView {
    pub portal: Seq<char>,
    pub gateway: Seq<char>,
    pub message: Seq<char>,
}

impl View for ConnectRequest {
    type V = ConnectRequestView;

    closed spec fn view(&self) -> ConnectRequestView {
        ConnectRequestView { portal: self.portal@, gateway: self.gateway@, message: self.message@ }
    }
}

impl ConnectRequest {
    /// The connect request for `portal_url`: the gateway is the one given,
    /// else the portal's host, else `localhost`; the message carries that
    /// same gateway and `cookie`.
    pub fn new(portal_url: &str, gateway_address: Option<String>, cookie: &str) -> (r: Self)
        ensures
            r@.portal == portal_url@,
            r@.gateway == gateway_for(
                portal_url@,
                match gateway_address {
                    Some(g) => Some(g@),
                    None => None,
                },
            ),
            r@.message == connect_request_text(portal_url@, r@.gateway, cookie@),
    {
        let gateway = resolve_gateway(portal_url, gateway_address);
        let message = connect_request(portal_url, gateway.as_str(), cookie);
        ConnectRequest { portal: String::from_str(portal_url), gateway, message }
    }

    /// The message to send to the service.
    pub fn message(&self) -> (r: &str)
        ensures
            r@ == self@.message,
    {
        self.message.as_str()
    }

    /// The gateway chosen for the connection.
    pub fn gateway(&self) -> (r: &str)
        ensures
            r@ == self@.gateway,
    {
        self.gateway.as_str()
    }
}

/// The VPN client. Connecting and disconnecting talk to the VPN service over
/// a websocket; the caller performs that I/O between the steps below, in the
/// order connect: `begin_connect`, open the socket at the returned address,
/// `channel_opened`, send the message of a `ConnectRequest`, `finish_connect`
/// with that request; and
/// disconnect: `begin_disconnect`, send the request it returns (if any),
/// `finish_disconnect`. A step whose I/O fails is not followed by the next
/// one, so the state stays where that step left it.
pub struct VpnClient {
    status: VpnStatus,
    ws_url: String,
    channel_open: bool,
}

impl View for VpnClient {
    type V = ClientState;

    closed spec fn view(&self) -> ClientState {
        ClientState { status: self.status@, ws_url: self.ws_url@, channel_open: self.channel_open }
    }
}

impl VpnClient {
    pub fn new() -> (r: Self)
        ensures
            r@ == initial_client(),
    {
        VpnClient {
            status: VpnStatus::default(),
            ws_url: String::from_str("ws://localhost:8080/ws"),
            channel_open: false,
        }
    }

    pub fn get_status(&self) -> (r: &VpnStatus)
        ensures
            r@ == self@.status,
    {
        &self.status
    }

    /// Starts a connection: the state becomes `Connecting`, and the result is
    /// the address of the service's websocket, to be opened next.
    pub fn begin_connect(&mut self) -> (url: String)
        ensures
            final(self)@ == after_begin_connect(old(self)@),
            final(self)@.channel_open == old(self)@.channel_open,
            url@ == old(self)@.ws_url,
    {
        self.status = VpnStatus::Connecting;
        self.ws_url.clone()
    }

    /// Records that the channel to the service is open.
    pub fn channel_opened(&mut self)
        ensures
            final(self)@ == after_channel_opened(old(self)@),
    {
        self.channel_open = true;
    }

    /// Records that `request` went out: the client is connected to its
    /// portal through its gateway, the very gateway its message named.
    pub fn finish_connect(&mut self, request: ConnectRequest)
        ensures
            final(self)@ == after_finish_connect(old(self)@, request@.portal, request@.gateway),
    {
        self.status = VpnStatus::Connected { portal: request.portal, gateway: request.gateway };
    }

    /// Takes the state the VPN service reports as the client's own.
    pub fn apply_service_state(&mut self, reported: VpnStatus)
        ensures
            final(self)@ == after_service_state(old(self)@, reported@),
    {
        self.status = reported;
    }

    /// Starts a disconnection: the state becomes `Disconnecting`; the result
    /// is the request to send, if a channel to the service was ever opened.
    pub fn begin_disconnect(&mut self) -> (request: Option<String>)
        ensures
            final(self)@ == after_begin_disconnect(old(self)@),
            match request {
                Some(m) => old(self)@.channel_open && m@ == disconnect_request_text(),
                None => !old(self)@.channel_open,
            },
    {
        self.status = VpnStatus::Disconnecting;
        if self.channel_open {
            Some(disconnect_request())
        } else {
            None
        }
    }

    /// Records that the disconnection is complete.
    pub fn finish_disconnect(&mut self)
        ensures
            final(self)@ == after_finish_disconnect(old(self)@),
    {
        self.status = VpnStatus::Disconnected;
    }
}

// ---------------------------------------------------------------------------
// Laws of the client
// ---------------------------------------------------------------------------

/// A completed connection leaves the client connected to the portal and
/// gateway it was asked for, with a channel to the service, whatever state
/// it started in; the service address never changes.
pub proof fn law_connect_completes(s: ClientState, portal: Seq<char>, gateway: Seq<char>)
    ensures
        ({
            let t = after_finish_connect(after_channel_opened(after_begin_connect(s)), portal, gateway);
            &&& t.status == StatusView::Connected { portal, gateway }
            &&& t.channel_open
            &&& t.ws_url == s.ws_url
        }),
{
}

/// The gateway the client records as connected is the one the connect
/// request named: the given one, else the portal's host, else `localhost`.
pub proof fn law_connected_gateway_is_requested_gateway(s: ClientState, r: ConnectRequestView, portal: Seq<char>, gateway_address: Option<Seq<char>>, cookie: Seq<char>)
    requires
        r.portal == portal,
        r.gateway == gateway_for(portal, gateway_address),
        r.message == connect_request_text(portal, r.gateway, cookie),
    ensures
        after_finish_connect(s, r.portal, r.gateway).status == (StatusView::Connected {
            portal,
            gateway: gateway_for(portal, gateway_address),
        }),
        r.message == connect_request_text(portal, gateway_for(portal, gateway_address), cookie),
{
}

/// After the service reports a state, the client shows exactly that state,
/// and nothing else of it changes.
pub proof fn law_service_state_is_shown(s: ClientState, reported: StatusView)
    ensures
        after_service_state(s, reported).status == reported,
        after_service_state(s, reported).ws_url == s.ws_url,
        after_service_state(s, reported).channel_open == s.channel_open,
{
}

/// A gateway that is given is the gateway used, whatever the portal URL.
pub proof fn law_given_gateway_is_used(portal_url: Seq<char>, g: Seq<char>)
    ensures
        gateway_for(portal_url, Some(g)) == g,
{
}

/// Beginning a connection opens no channel: only `after_channel_opened`
/// does. So a client whose socket never opened hands out no disconnect
/// request; in particular a fresh client whose first connection attempt
/// failed has no channel.
pub proof fn law_begin_connect_opens_no_channel(s: ClientState)
    ensures
        after_begin_connect(s).channel_open == s.channel_open,
        after_begin_connect(s).ws_url == s.ws_url,
        !after_begin_disconnect(after_begin_connect(initial_client())).channel_open,
        after_channel_opened(s).channel_open,
{
}

/// For a portal, gateway and cookie with no quote, backslash or control
/// character, the connect request carries each of them whole, in this layout:
/// `{"data":{"cookie":"C","info":{"gateway":{"address":"G","name":"Default Gateway"},"gateways":[{"address":"G","name":"Default Gateway"}],"portal":"P"}},"type":"Connect"}`.
pub proof fn law_connect_request_carries_inputs(portal: Seq<char>, gateway: Seq<char>, cookie: Seq<char>)
    requires
        is_plain_json_text(portal),
        is_plain_json_text(gateway),
        is_plain_json_text(cookie),
    ensures
        connect_request_text(portal, gateway, cookie) == "{\"data\":{\"cookie\":\""@ + cookie
            + "\",\"info\":{\"gateway\":{\"address\":\""@ + gateway
            + "\",\"name\":\"Default Gateway\"},\"gateways\":[{\"address\":\""@ + gateway
            + "\",\"name\":\"Default Gateway\"}],\"portal\":\""@ + portal
            + "\"}},\"type\":\"Connect\"}"@,
{
    lemma_connect_request_literals();
    law_plain_text_is_quoted(portal);
    law_plain_text_is_quoted(gateway);
    law_plain_text_is_quoted(cookie);
    let q = seq!['"'];
    let a = "{\"data\":{\"cookie\":"@;
    let b = ",\"info\":{\"gateway\":{\"address\":"@;
    let nm = ",\"name\":"@;
    let jn = json_string_text("Default Gateway"@);
    let cc = "},\"gateways\":[{\"address\":"@;
    let d = "}],\"portal\":"@;
    let e = "}},\"type\":"@;
    let jc = json_string_text("Connect"@);
    let f = "}"@;
    let jk = json_string_text(cookie);
    let jg = json_string_text(gateway);
    let jp = json_string_text(portal);
    // the pieces of the spelled-out layout
    let a1 = a + q;
    let b1 = q + b + q;
    let m1 = q + nm + jn + cc + q;
    let m2 = q + nm + jn + d + q;
    let e1 = q + e + jc + f;
    // walk the request from left to right
    let u1 = a1 + cookie + q;
    assert(a + jk =~= u1);
    let p2 = a1 + cookie + b1 + gateway;
    assert(u1 + b + jg =~= p2 + q);
    let p3 = p2 + m1 + gateway;
    assert(p2 + q + nm =~= p2 + (q + nm));
    assert(p2 + (q + nm) + jn =~= p2 + (q + nm + jn));
    assert(p2 + (q + nm + jn) + cc =~= p2 + (q + nm + jn + cc));
    assert(p2 + (q + nm + jn + cc) + jg =~= p3 + q);
    let p4 = p3 + m2 + portal;
    assert(p3 + q + nm =~= p3 + (q + nm));
    assert(p3 + (q + nm) + jn =~= p3 + (q + nm + jn));
    assert(p3 + (q + nm + jn) + d =~= p3 + (q + nm + jn + d));
    assert(p3 + (q + nm + jn + d) + jp =~= p4 + q);
    assert(p4 + q + e =~= p4 + (q + e));
    assert(p4 + (q + e) + jc =~= p4 + (q + e + jc));
    assert(p4 + (q + e + jc) + f =~= p4 + e1);
    assert(connect_request_text(portal, gateway, cookie) == p4 + e1);
}

/// The fixed pieces of the connect request, joined with their quotes.
proof fn lemma_connect_request_literals()
    ensures
        "{\"data\":{\"cookie\":"@ + seq!['"'] == "{\"data\":{\"cookie\":\""@,
        seq!['"'] + ",\"info\":{\"gateway\":{\"address\":"@ + seq!['"']
            == "\",\"info\":{\"gateway\":{\"address\":\""@,
        seq!['"'] + ",\"name\":"@ + json_string_text("Default Gateway"@) + "},\"gateways\":[{\"address\":"@
            + seq!['"'] == "\",\"name\":\"Default Gateway\"},\"gateways\":[{\"address\":\""@,
        seq!['"'] + ",\"name\":"@ + json_string_text("Default Gateway"@) + "}],\"portal\":"@ + seq!['"']
            == "\",\"name\":\"Default Gateway\"}],\"portal\":\""@,
        seq!['"'] + "}},\"type\":"@ + json_string_text("Connect"@) + "}"@ == "\"}},\"type\":\"Connect\"}"@,
{
    assert("{\"data\":{\"cookie\":"@ + seq!['"'] =~= "{\"data\":{\"cookie\":\""@) by {
        reveal_strlit("{\"data\":{\"cookie\":");
        reveal_strlit("{\"data\":{\"cookie\":\"");
    }
    assert(seq!['"'] + ",\"info\":{\"gateway\":{\"address\":"@ + seq!['"']
        =~= "\",\"info\":{\"gateway\":{\"address\":\""@) by {
        reveal_strlit(",\"info\":{\"gateway\":{\"address\":");
        reveal_strlit("\",\"info\":{\"gateway\":{\"address\":\"");
    }
    assert(json_string_text("Default Gateway"@) =~= "\"Default Gateway\""@) by {
        reveal_strlit("Default Gateway");
        reveal_strlit("\"Default Gateway\"");
        law_plain_text_is_quoted("Default Gateway"@);
    }
    assert(json_string_text("Connect"@) =~= "\"Connect\""@) by {
        reveal_strlit("Connect");
        reveal_strlit("\"Connect\"");
        law_plain_text_is_quoted("Connect"@);
    }
    assert(seq!['"'] + ",\"name\":"@ + "\"Default Gateway\""@ + "},\"gateways\":[{\"address\":"@
        + seq!['"'] =~= "\",\"name\":\"Default Gateway\"},\"gateways\":[{\"address\":\""@) by {
        reveal_strlit(",\"name\":");
        reveal_strlit("\"Default Gateway\"");
        reveal_strlit("},\"gateways\":[{\"address\":");
        reveal_strlit("\",\"name\":\"Default Gateway\"},\"gateways\":[{\"address\":\"");
    }
    assert(seq!['"'] + ",\"name\":"@ + "\"Default Gateway\""@ + "}],\"portal\":"@ + seq!['"']
        =~= "\",\"name\":\"Default Gateway\"}],\"portal\":\""@) by {
        reveal_strlit(",\"name\":");
        reveal_strlit("\"Default Gateway\"");
        reveal_strlit("}],\"portal\":");
        reveal_strlit("\",\"name\":\"Default Gateway\"}],\"portal\":\"");
    }
    assert(seq!['"'] + "}},\"type\":"@ + "\"Connect\""@ + "}"@ =~= "\"}},\"type\":\"Connect\"}"@) by {
        reveal_strlit("}},\"type\":");
        reveal_strlit("\"Connect\"");
        reveal_strlit("}");
        reveal_strlit("\"}},\"type\":\"Connect\"}");
    }
}

/// A completed disconnection leaves the client disconnected, whatever state
/// it started in; a disconnection after a completed connection sends a request.
pub proof fn law_disconnect_completes(s: ClientState)
    ensures
        after_finish_disconnect(after_begin_disconnect(s)).status == StatusView::Disconnected,
        after_finish_disconnect(after_begin_disconnect(s)).ws_url == s.ws_url,
        after_begin_disconnect(after_channel_opened(s)).channel_open,
{
}

/// A connection attempt whose socket or request fails leaves the client
/// `Connecting`; a disconnection whose request fails leaves it `Disconnecting`.
pub proof fn law_failed_steps_stay(s: ClientState)
    ensures
        after_begin_connect(s).status == StatusView::Connecting,
        after_channel_opened(after_begin_connect(s)).status == StatusView::Connecting,
        after_begin_disconnect(s).status == StatusView::Disconnecting,
{
}

} // verus!
