//! The WebSocket URL under which an endpoint is reached.
//!
//! A server listens for WebSocket connections on ports of its own, two above
//! the ports of its rendezvous and relay services. A server that is named by a
//! domain is reached by a path under that domain instead.

use vstd::prelude::*;

use crate::endpoint;
use crate::endpoint::{host_alone, is_ip_str, split_host_port};
use crate::text;
use crate::text::{append_decimal, starts_with};

verus! {

/// The port of the rendezvous service where the setting names none.
pub const RENDEZVOUS_PORT: i32 = 21116;

/// The port of the relay service where the setting names none.
pub const RELAY_PORT: i32 = 21117;

/// The settings that decide on the URL.
pub struct WsOptions {
    /// Whether connections are made over WebSocket at all.
    pub use_ws: bool,
    /// The rendezvous server in use.
    pub rendezvous_server: String,
    /// The relay server that is set, empty where none is.
    pub relay_server: String,
    /// The API server that is set, empty where none is.
    pub api_server: String,
}

/// The contents of [`WsOptions`].
#[verifier::ext_equal]
pub struct WsOptionsView {
    pub use_ws: bool,
    pub rendezvous_server: Seq<char>,
    pub relay_server: Seq<char>,
    pub api_server: Seq<char>,
}

impl View for WsOptions {
    type V = WsOptionsView;

    open spec fn view(&self) -> WsOptionsView {
        WsOptionsView {
            use_ws: self.use_ws,
            rendezvous_server: self.rendezvous_server@,
            relay_server: self.relay_server@,
            api_server: self.api_server@,
        }
    }
}

impl WsOptionsView {
    /// The port of the rendezvous service.
    pub open spec fn rendezvous_port(self) -> int {
        endpoint::port_or(self.rendezvous_server, RENDEZVOUS_PORT as int)
    }

    /// The port of the relay service.
    pub open spec fn relay_port(self) -> int {
        endpoint::port_or(self.relay_server, RELAY_PORT as int)
    }

    /// These settings after the option `key` was set to `value`. Options that
    /// have no part in the URL leave them as they are.
    pub open spec fn with_option(self, key: Seq<char>, value: Seq<char>) -> WsOptionsView {
        if key == "allow-websocket"@ {
            WsOptionsView { use_ws: value == "Y"@, ..self }
        } else if key == "custom-rendezvous-server"@ {
            WsOptionsView { rendezvous_server: value, ..self }
        } else if key == "relay-server"@ {
            WsOptionsView { relay_server: value, ..self }
        } else if key == "api-server"@ {
            WsOptionsView { api_server: value, ..self }
        } else {
            self
        }
    }
}

/// Whether two pieces of text are the same.
fn same(a: &str, b: &str) -> (r: bool)
    ensures
        r == (a@ == b@),
{
    a.to_owned() == b.to_owned()
}

impl WsOptions {
    /// Settings in which no option is set.
    pub fn new() -> (r: WsOptions)
        ensures
            !r@.use_ws,
            r@.rendezvous_server.len() == 0,
            r@.relay_server.len() == 0,
            r@.api_server.len() == 0,
    {
        WsOptions {
            use_ws: false,
            rendezvous_server: String::new(),
            relay_server: String::new(),
            api_server: String::new(),
        }
    }

    /// Sets one option by its name.
    pub fn set_option(&mut self, key: String, value: String)
        ensures
            final(self)@ == old(self)@.with_option(key@, value@),
    {
        if same(key.as_str(), "allow-websocket") {
            self.use_ws = same(value.as_str(), "Y");
        } else if same(key.as_str(), "custom-rendezvous-server") {
            self.rendezvous_server = value;
        } else if same(key.as_str(), "relay-server") {
            self.relay_server = value;
        } else if same(key.as_str(), "api-server") {
            self.api_server = value;
        }
    }
}

/// Whether `endpoint` already is a WebSocket URL.
pub open spec fn is_ws_url(endpoint: Seq<char>) -> bool {
    "ws://"@.is_prefix_of(endpoint) || "wss://"@.is_prefix_of(endpoint)
}

/// Whether a port belongs to the relay service: any port but that of the
/// rendezvous service and that of its online check, one below.
pub open spec fn is_relay_port(port: int, rendezvous_port: int) -> bool {
    port != rendezvous_port && port != rendezvous_port - 1
}

/// The WebSocket port that stands for `port`. The rendezvous service and its
/// online check share one.
pub open spec fn ws_port(port: int, rendezvous_port: int) -> int {
    if port == rendezvous_port - 1 {
        port + 3
    } else {
        port + 2
    }
}

/// The path that stands for a port of a server known by its domain.
pub open spec fn ws_path(port: int, rendezvous_port: int) -> Seq<char> {
    if is_relay_port(port, rendezvous_port) {
        "/ws/relay"@
    } else {
        "/ws/id"@
    }
}

/// The protocol that servers known by their domain are spoken to in: `wss`
/// where the API server is reached over `https`.
pub open spec fn ws_protocol(api_server: Seq<char>) -> Seq<char> {
    if "https"@.is_prefix_of(api_server) {
        "wss"@
    } else {
        "ws"@
    }
}

/// Whether `endpoint` is one that a URL is formed for.
pub open spec fn is_converted(endpoint: Seq<char>, options: WsOptionsView) -> bool {
    &&& options.use_ws
    &&& endpoint.len() > 0
    &&& !is_ws_url(endpoint)
    &&& endpoint::names_host(endpoint)
}

/// The port that `endpoint` stands for: its own, or that of the rendezvous
/// service where it has none.
pub open spec fn service_port(endpoint: Seq<char>, options: WsOptionsView) -> int {
    endpoint::port_or(endpoint, options.rendezvous_port())
}

/// The address under which `endpoint` is reached with these settings.
pub open spec fn ws_address(endpoint: Seq<char>, options: WsOptionsView) -> Seq<char> {
    let host = endpoint::host_of(endpoint);
    let port = service_port(endpoint, options);
    let rendezvous_port = options.rendezvous_port();
    if !is_converted(endpoint, options) {
        endpoint
    } else if endpoint::is_ip(endpoint) {
        "ws"@ + "://"@ + (host + ":"@ + text::decimal(ws_port(port, rendezvous_port)))
    } else {
        ws_protocol(options.api_server) + "://"@ + (host + ws_path(port, rendezvous_port))
    }
}

/// Whether the ports next to `port` and `rendezvous_port` that are looked at
/// are ones that an `i32` holds.
pub open spec fn neighbours_fit(port: int, rendezvous_port: int, relay_port: int) -> bool {
    if port == rendezvous_port {
        port + 2 <= i32::MAX
    } else if port == rendezvous_port - 1 {
        port + 3 <= i32::MAX
    } else {
        &&& rendezvous_port - 1 >= i32::MIN
        &&& port == relay_port || rendezvous_port + 1 <= i32::MAX
        &&& port + 2 <= i32::MAX
    }
}

/// Whether [`check_ws`] finds a port for `endpoint` without leaving the range
/// of an `i32`. Every endpoint with a port that a socket can have does.
pub open spec fn ports_fit(endpoint: Seq<char>, options: WsOptionsView) -> bool {
    is_converted(endpoint, options) ==> match endpoint::host_and_port(endpoint) {
        Some((_, port)) => neighbours_fit(port, options.rendezvous_port(), options.relay_port()),
        None => endpoint::is_ip(endpoint) ==> options.rendezvous_port() + 2 <= i32::MAX,
    }
}

/// Whether `endpoint` is a WebSocket URL: one that begins with `ws://` or
/// `wss://`.
pub fn is_ws_endpoint(endpoint: &str) -> (r: bool)
    ensures
        r == is_ws_url(endpoint@),
{
    starts_with(endpoint, "ws://") || starts_with(endpoint, "wss://")
}

/// The port of a server setting, or `default` where the setting names none.
fn server_port(server: &str, default: i32) -> (port: i32)
    ensures
        port == endpoint::port_or(server@, default as int),
{
    match split_host_port(server) {
        Some((_, port)) => port,
        None => default,
    }
}

/// Finds out whether a port is one of the relay service, and the WebSocket port
/// that stands for it.
fn destination(port: i32, rendezvous_port: i32, relay_port: i32) -> (r: (bool, i32))
    requires
        neighbours_fit(port as int, rendezvous_port as int, relay_port as int),
    ensures
        r.0 == is_relay_port(port as int, rendezvous_port as int),
        r.1 == ws_port(port as int, rendezvous_port as int),
{
    if port == rendezvous_port {
        // rendezvous
        (false, port + 2)
    } else if port == rendezvous_port - 1 {
        // online
        (false, port + 3)
    } else if port == relay_port || port == rendezvous_port + 1 {
        // relay
        (true, port + 2)
    } else {
        // The controlling side gets its relay server from the controlled side,
        // whatever the local settings say.
        (true, port + 2)
    }
}

/// Turns an endpoint into the WebSocket URL under which it is reached.
///
/// 1. An IPv4 address with or without a port becomes `ws://ipv4:port`.
/// 2. An IPv6 address with or without a port becomes `ws://[ipv6]:port`.
/// 3. A domain with or without a port becomes `ws(s)://domain/ws/path`.
///
/// An endpoint without a port stands for the rendezvous service. An endpoint is
/// handed back as it is where WebSocket is not in use, where it is empty, where
/// it already is such a URL, and where it is none of these three.
pub fn check_ws(endpoint: &str, options: &WsOptions) -> (r: String)
    requires
        ports_fit(endpoint@, options@),
    ensures
        r@ == ws_address(endpoint@, options@),
{
    if !options.use_ws {
        return endpoint.to_owned();
    }
    if endpoint.is_empty() {
        return endpoint.to_owned();
    }
    if is_ws_endpoint(endpoint) {
        return endpoint.to_owned();
    }
    let (host, port): (String, Option<i32>) = match split_host_port(endpoint) {
        Some((host, port)) => (host, Some(port)),
        None => match host_alone(endpoint) {
            Some(host) => (host, None),
            None => {
                return endpoint.to_owned();
            },
        },
    };
    let is_domain: bool = !is_ip_str(endpoint);
    let rendezvous_port: i32 = server_port(options.rendezvous_server.as_str(), RENDEZVOUS_PORT);
    let relay_port: i32 = server_port(options.relay_server.as_str(), RELAY_PORT);
    let (relay, dst_port): (bool, i32) = match port {
        Some(port) => destination(port, rendezvous_port, relay_port),
        // The path of a domain needs no port.
        None => (
            false,
            if is_domain {
                rendezvous_port
            } else {
                rendezvous_port + 2
            },
        ),
    };

    let mut address: String = host;
    if is_domain {
        address.append(
            if relay {
                "/ws/relay"
            } else {
                "/ws/id"
            },
        );
    } else {
        address.append(":");
        append_decimal(&mut address, dst_port);
    }
    let protocol: &str = if is_domain && starts_with(options.api_server.as_str(), "https") {
        "wss"
    } else {
        "ws"
    };
    let mut url: String = protocol.to_owned();
    url.append("://");
    url.append(address.as_str());
    url
}

/// Whether [`check_ws`] may be asked about `endpoint`: for callers that do not
/// know the ports beforehand.
pub fn can_check_ws(endpoint: &str, options: &WsOptions) -> (r: bool)
    ensures
        r == ports_fit(endpoint@, options@),
{
    if !options.use_ws || endpoint.is_empty() || is_ws_endpoint(endpoint) {
        return true;
    }
    match split_host_port(endpoint) {
        Some((_, port)) => {
            let rendezvous_port: i32 = server_port(
                options.rendezvous_server.as_str(),
                RENDEZVOUS_PORT,
            );
            let relay_port: i32 = server_port(options.relay_server.as_str(), RELAY_PORT);
            if port == rendezvous_port {
                port <= i32::MAX - 2
            } else if port < i32::MAX && port + 1 == rendezvous_port {
                port <= i32::MAX - 3
            } else {
                rendezvous_port > i32::MIN && (port == relay_port || rendezvous_port < i32::MAX)
                    && port <= i32::MAX - 2
            }
        },
        None => host_alone(endpoint).is_none() || !is_ip_str(endpoint) || server_port(
            options.rendezvous_server.as_str(),
            RENDEZVOUS_PORT,
        ) <= i32::MAX - 2,
    }
}

/// Law: an address is a WebSocket URL wherever a URL is formed, and the
/// endpoint itself wherever none is.
pub proof fn law_address_is_url_or_endpoint(endpoint: Seq<char>, options: WsOptionsView)
    ensures
        is_converted(endpoint, options) ==> is_ws_url(ws_address(endpoint, options)),
        !is_converted(endpoint, options) ==> ws_address(endpoint, options) == endpoint,
{
    if is_converted(endpoint, options) {
        reveal_strlit("ws");
        reveal_strlit("wss");
        reveal_strlit("://");
        reveal_strlit("ws://");
        reveal_strlit("wss://");
        let address = ws_address(endpoint, options);
        if !endpoint::is_ip(endpoint) && "https"@.is_prefix_of(options.api_server) {
            assert("wss://"@ =~= address.subrange(0, 6));
        } else {
            assert("ws://"@ =~= address.subrange(0, 5));
        }
    }
}

/// Law: an address stays as it is when it is checked again.
pub proof fn law_checking_twice_changes_nothing(endpoint: Seq<char>, options: WsOptionsView)
    ensures
        ws_address(ws_address(endpoint, options), options) == ws_address(endpoint, options),
{
    law_address_is_url_or_endpoint(endpoint, options);
    law_address_is_url_or_endpoint(ws_address(endpoint, options), options);
}

/// Law: the relay server that is set locally has no say in the address, for
/// the relay in use may be one that the other side has chosen.
pub proof fn law_relay_server_has_no_say(
    endpoint: Seq<char>,
    options: WsOptionsView,
    relay_server: Seq<char>,
)
    ensures
        ws_address(endpoint, (WsOptionsView { relay_server, ..options })) == ws_address(
            endpoint,
            options,
        ),
{
}

/// Law: the address of an IP endpoint begins with `ws://`, and the API server
/// has no say in it.
pub proof fn law_ip_is_spoken_to_in_plain(
    endpoint: Seq<char>,
    options: WsOptionsView,
    api_server: Seq<char>,
)
    requires
        is_converted(endpoint, options),
        endpoint::is_ip(endpoint),
    ensures
        "ws://"@.is_prefix_of(ws_address(endpoint, options)),
        ws_address(endpoint, (WsOptionsView { api_server, ..options })) == ws_address(
            endpoint,
            options,
        ),
{
    reveal_strlit("ws");
    reveal_strlit("://");
    reveal_strlit("ws://");
    assert("ws://"@ =~= ws_address(endpoint, options).subrange(0, 5));
}

/// Law: the address of a domain begins with `wss://` exactly where the API
/// server is reached over `https`, and with `ws://` otherwise.
pub proof fn law_domain_follows_api_server(endpoint: Seq<char>, options: WsOptionsView)
    requires
        is_converted(endpoint, options),
        !endpoint::is_ip(endpoint),
    ensures
        "https"@.is_prefix_of(options.api_server) <==> "wss://"@.is_prefix_of(
            ws_address(endpoint, options),
        ),
        !"https"@.is_prefix_of(options.api_server) <==> "ws://"@.is_prefix_of(
            ws_address(endpoint, options),
        ),
{
    reveal_strlit("ws");
    reveal_strlit("wss");
    reveal_strlit("://");
    reveal_strlit("ws://");
    reveal_strlit("wss://");
    let address = ws_address(endpoint, options);
    if "https"@.is_prefix_of(options.api_server) {
        assert(address[2] == 's');
        assert("wss://"@ =~= address.subrange(0, 6));
        if "ws://"@.is_prefix_of(address) {
            assert(address.subrange(0, 5)[2] == ':');
        }
    } else {
        assert(address[2] == ':');
        assert("ws://"@ =~= address.subrange(0, 5));
        if "wss://"@.is_prefix_of(address) {
            assert(address.subrange(0, 6)[2] == 's');
        }
    }
}

/// Law: the rendezvous service and its online check, one port below, are
/// reached under the same address.
pub proof fn law_rendezvous_and_online_share_an_address(
    rendezvous: Seq<char>,
    online: Seq<char>,
    options: WsOptionsView,
)
    requires
        is_converted(rendezvous, options),
        is_converted(online, options),
        endpoint::is_ip(rendezvous) == endpoint::is_ip(online),
        endpoint::host_of(rendezvous) == endpoint::host_of(online),
        service_port(rendezvous, options) == options.rendezvous_port(),
        service_port(online, options) == options.rendezvous_port() - 1,
    ensures
        ws_address(rendezvous, options) == ws_address(online, options),
{
}

/// Law: an endpoint without a port is reached under the same address as one with
/// the same host and the port of the rendezvous service.
pub proof fn law_without_port_is_rendezvous(
    bare: Seq<char>,
    rendezvous: Seq<char>,
    options: WsOptionsView,
)
    requires
        is_converted(bare, options),
        is_converted(rendezvous, options),
        endpoint::is_ip(bare) == endpoint::is_ip(rendezvous),
        endpoint::host_and_port(bare) is None,
        endpoint::host_and_port(rendezvous) == Some(
            (endpoint::host_of(bare), options.rendezvous_port()),
        ),
    ensures
        ws_address(bare, options) == ws_address(rendezvous, options),
{
}

/// Law: with WebSocket in use, every IP address becomes a URL, with a port or
/// without, and so does every text with one colon or none, such as a domain with
/// a port or without.
pub proof fn law_hosts_become_urls(endpoint: Seq<char>, options: WsOptionsView)
    requires
        options.use_ws,
        endpoint.len() > 0,
        endpoint::is_ip(endpoint) || text::fields(endpoint, ':').len() <= 2,
    ensures
        is_ws_url(ws_address(endpoint, options)),
{
    if !is_ws_url(endpoint) {
        text::lemma_fields_nonempty(endpoint, ':');
        law_address_is_url_or_endpoint(endpoint, options);
    }
}

/// Law: the address of a domain tells the services of a server apart, and not
/// the ports that they listen on.
pub proof fn law_domain_address_hides_the_port(a: Seq<char>, b: Seq<char>, options: WsOptionsView)
    requires
        is_converted(a, options),
        is_converted(b, options),
        !endpoint::is_ip(a),
        !endpoint::is_ip(b),
        endpoint::host_of(a) == endpoint::host_of(b),
    ensures
        is_relay_port(service_port(a, options), options.rendezvous_port())
            == is_relay_port(service_port(b, options), options.rendezvous_port())
            <==> ws_address(a, options) == ws_address(b, options),
{
    reveal_strlit("/ws/relay");
    reveal_strlit("/ws/id");
    if is_relay_port(service_port(a, options), options.rendezvous_port()) != is_relay_port(
        service_port(b, options),
        options.rendezvous_port(),
    ) {
        assert(ws_address(a, options).len() != ws_address(b, options).len());
    }
}

/// Law: ports that a socket can have are never too large to be converted.
pub proof fn law_socket_ports_fit(endpoint: Seq<char>, options: WsOptionsView)
    requires
        0 <= service_port(endpoint, options) <= u16::MAX,
        0 <= options.rendezvous_port() <= u16::MAX,
    ensures
        ports_fit(endpoint, options),
{
}

/// Law: behind `ws://`, the address of an IP endpoint names the same host, and
/// the WebSocket port that stands for the endpoint's. An address without a port
/// does so where the WebSocket port of the rendezvous service is not negative.
pub proof fn law_ip_address_names_host_and_port(endpoint: Seq<char>, options: WsOptionsView)
    requires
        is_converted(endpoint, options),
        endpoint::is_ip(endpoint),
        ports_fit(endpoint, options),
        endpoint::host_and_port(endpoint) is Some || options.rendezvous_port() + 2 >= 0,
    ensures
        ({
            let named = ws_address(endpoint, options).skip(5);
            &&& endpoint::is_ip(named)
            &&& endpoint::host_and_port(named) == Some(
                (
                    endpoint::host_of(endpoint),
                    ws_port(service_port(endpoint, options), options.rendezvous_port()),
                ),
            )
        }),
{
    reveal_strlit("ws");
    reveal_strlit("://");
    reveal_strlit(":");
    let host = endpoint::host_of(endpoint);
    let to = ws_port(service_port(endpoint, options), options.rendezvous_port());
    let number = text::decimal(to);
    let named = ws_address(endpoint, options).skip(5);
    assert(named =~= host + ":"@ + number);
    let head: Option<Seq<char>> = if endpoint::is_bracketed_ipv6(endpoint) {
        let parts = text::fields(endpoint, ']');
        endpoint::lemma_number_port(parts[1].skip(1));
        Some(parts[0])
    } else if endpoint::host_and_port(endpoint) is Some {
        if endpoint::is_bracketed_address(endpoint) {
            endpoint::lemma_bracketed_address_has_no_port(endpoint);
        }
        endpoint::lemma_number_port(text::fields(endpoint, ':')[1]);
        None
    } else {
        endpoint::lemma_lone_ip_host(endpoint);
        if endpoint::is_dotted_quad(host) {
            None
        } else {
            Some(
                choose|head: Seq<char>|
                    endpoint::is_bracketed_head(head) && #[trigger] head.push(']') == host,
            )
        }
    };
    match head {
        Some(head) => {
            endpoint::lemma_bracketed(head, to as nat);
            assert(named =~= head.push(']') + (seq![':'] + text::digits(to as nat)));
        },
        None => {
            endpoint::lemma_dotted_quad_with_port(host, to as nat);
            assert(named =~= host.push(':') + text::digits(to as nat));
        },
    }
}

/// Law: settings are seen field by field.
pub proof fn law_settings_are_seen_field_by_field(options: WsOptions)
    ensures
        options@.use_ws == options.use_ws,
        options@.rendezvous_server == options.rendezvous_server@,
        options@.relay_server == options.relay_server@,
        options@.api_server == options.api_server@,
{
}

/// Law: each of the four options changes one setting and no other. WebSocket is
/// in use exactly where its option is `Y`, the servers are taken as they are,
/// and any other option changes nothing.
pub proof fn law_each_option_sets_one_setting(
    options: WsOptionsView,
    key: Seq<char>,
    value: Seq<char>,
)
    ensures
        ({
            let set = options.with_option("allow-websocket"@, value);
            &&& set.use_ws <==> value == seq!['Y']
            &&& set.rendezvous_server == options.rendezvous_server
            &&& set.relay_server == options.relay_server
            &&& set.api_server == options.api_server
        }),
        ({
            let set = options.with_option("custom-rendezvous-server"@, value);
            &&& set.use_ws == options.use_ws
            &&& set.rendezvous_server == value
            &&& set.relay_server == options.relay_server
            &&& set.api_server == options.api_server
        }),
        ({
            let set = options.with_option("relay-server"@, value);
            &&& set.use_ws == options.use_ws
            &&& set.rendezvous_server == options.rendezvous_server
            &&& set.relay_server == value
            &&& set.api_server == options.api_server
        }),
        ({
            let set = options.with_option("api-server"@, value);
            &&& set.use_ws == options.use_ws
            &&& set.rendezvous_server == options.rendezvous_server
            &&& set.relay_server == options.relay_server
            &&& set.api_server == value
        }),
        key != "allow-websocket"@ && key != "custom-rendezvous-server"@ && key != "relay-server"@
            && key != "api-server"@ ==> options.with_option(key, value) == options,
{
    reveal_strlit("Y");
    reveal_strlit("allow-websocket");
    reveal_strlit("custom-rendezvous-server");
    reveal_strlit("relay-server");
    reveal_strlit("api-server");
    assert("Y"@ =~= seq!['Y']);
    assert("allow-websocket"@.len() == 15);
    assert("custom-rendezvous-server"@.len() == 24);
    assert("relay-server"@.len() == 12);
    assert("api-server"@.len() == 10);
}

/// Law: a server setting with a port has that port, whether its host is a domain
/// or an IPv4 address.
pub proof fn law_server_setting_has_its_port(options: WsOptionsView, host: Seq<char>, port: int)
    requires
        endpoint::holds_no(host, ':'),
        -2147483648 <= port <= 2147483647,
    ensures
        options.rendezvous_server == host.push(':') + text::decimal(port)
            ==> options.rendezvous_port() == port,
        options.relay_server == host.push(':') + text::decimal(port) ==> options.relay_port()
            == port,
{
    text::lemma_decimal_chars(port);
    endpoint::law_one_colon_parts_host_and_port(host, text::decimal(port));
    endpoint::law_port_is_the_number(text::decimal(port), port);
}

/// Law: a server setting with an IPv6 address in brackets and a port has that
/// port, and one with an IPv6 address alone, in brackets or not, has none: the
/// rendezvous service listens on 21116 and the relay service on 21117.
pub proof fn law_ipv6_server_setting_has_its_port(
    options: WsOptionsView,
    address: Seq<char>,
    port: int,
)
    requires
        endpoint::is_ipv6_groups(address),
        0 <= port <= 2147483647,
    ensures
        options.rendezvous_server == endpoint::in_brackets(address) + (seq![':'] + text::decimal(
            port,
        )) ==> options.rendezvous_port() == port,
        options.relay_server == endpoint::in_brackets(address) + (seq![':'] + text::decimal(port))
            ==> options.relay_port() == port,
        options.rendezvous_server == address || options.rendezvous_server == endpoint::in_brackets(
            address,
        ) ==> options.rendezvous_port() == 21116,
        options.relay_server == address || options.relay_server == endpoint::in_brackets(address)
            ==> options.relay_port() == 21117,
{
    text::law_decimal_notation(port);
    endpoint::law_ipv6_address_in_each_form(address, text::decimal(port));
    endpoint::law_port_is_the_number(text::decimal(port), port);
}

/// Law: without a port in the server settings, be they empty or a host alone,
/// the rendezvous service listens on 21116 and the relay service on 21117.
pub proof fn law_server_settings_without_a_port(options: WsOptionsView)
    ensures
        endpoint::holds_no(options.rendezvous_server, ':') ==> options.rendezvous_port() == 21116,
        endpoint::holds_no(options.relay_server, ':') ==> options.relay_port() == 21117,
        endpoint::host_and_port(options.rendezvous_server) is None ==> options.rendezvous_port()
            == 21116,
        endpoint::host_and_port(options.relay_server) is None ==> options.relay_port() == 21117,
{
    if endpoint::holds_no(options.rendezvous_server, ':') {
        endpoint::law_no_colon_is_a_host_alone(options.rendezvous_server);
    }
    if endpoint::holds_no(options.relay_server, ':') {
        endpoint::law_no_colon_is_a_host_alone(options.relay_server);
    }
}

/// Law: text is a WebSocket URL exactly where it is `ws://` or `wss://` with
/// anything behind it.
pub proof fn law_ws_urls_begin_with_their_protocol(s: Seq<char>)
    ensures
        is_ws_url(s) <==> {
            ||| s.len() >= 5 && s.take(5) == seq!['w', 's', ':', '/', '/']
            ||| s.len() >= 6 && s.take(6) == seq!['w', 's', 's', ':', '/', '/']
        },
{
    reveal_strlit("ws://");
    reveal_strlit("wss://");
    assert("ws://"@ =~= seq!['w', 's', ':', '/', '/']);
    assert("wss://"@ =~= seq!['w', 's', 's', ':', '/', '/']);
    if s.len() >= 5 {
        assert(s.take(5) =~= s.subrange(0, 5));
    }
    if s.len() >= 6 {
        assert(s.take(6) =~= s.subrange(0, 6));
    }
}

/// An endpoint whose port does not begin with a slash is no URL.
proof fn lemma_host_and_port_is_no_url(host: Seq<char>, port: Seq<char>)
    requires
        endpoint::holds_no(host, ':'),
        port.len() > 0 ==> port[0] != '/',
    ensures
        !is_ws_url(host.push(':') + port),
{
    let s = host.push(':') + port;
    law_ws_urls_begin_with_their_protocol(s);
    if s.len() >= 5 && s.take(5) == seq!['w', 's', ':', '/', '/'] {
        assert(s.take(5)[2] == ':' && s.take(5)[3] == '/');
        assert(s[2] == ':' && s[3] == '/');
        if host.len() > 2 {
            assert(s[2] == host[2]);
        } else if host.len() == 2 {
            assert(s[3] == port[0]);
        } else {
            assert(s.take(5)[0] == 'w' && s.take(5)[1] == 's');
            assert(s[host.len() as int] == ':');
        }
    } else if s.len() >= 6 && s.take(6) == seq!['w', 's', 's', ':', '/', '/'] {
        assert(s.take(6)[3] == ':' && s.take(6)[4] == '/');
        assert(s[3] == ':' && s[4] == '/');
        if host.len() > 3 {
            assert(s[3] == host[3]);
        } else if host.len() == 3 {
            assert(s[4] == port[0]);
        } else {
            assert(s.take(6)[0] == 'w' && s.take(6)[1] == 's' && s.take(6)[2] == 's');
            assert(s[host.len() as int] == ':');
        }
    }
}

/// Law: an endpoint stays as it is where WebSocket is not in use, where it is
/// empty, where it begins with `ws://` or `wss://`, and where it names no host.
pub proof fn law_what_is_no_endpoint_stays(
    endpoint: Seq<char>,
    rest: Seq<char>,
    options: WsOptionsView,
)
    ensures
        !options.use_ws ==> ws_address(endpoint, options) == endpoint,
        ws_address(Seq::empty(), options) == Seq::<char>::empty(),
        ws_address("ws://"@ + rest, options) == "ws://"@ + rest,
        ws_address("wss://"@ + rest, options) == "wss://"@ + rest,
        endpoint::host_and_port(endpoint) is None && endpoint::lone_host(endpoint) is None
            ==> ws_address(endpoint, options) == endpoint,
{
    reveal_strlit("ws://");
    reveal_strlit("wss://");
    assert(("ws://"@ + rest).subrange(0, 5) =~= "ws://"@);
    assert(("wss://"@ + rest).subrange(0, 6) =~= "wss://"@);
}

/// Law: a domain with a port is reached under the domain, by the path `/ws/id`
/// where the port is that of the rendezvous service or one below, and by
/// `/ws/relay` otherwise. The protocol is `wss` where the API server begins with
/// `https`, and `ws` otherwise. Text before the colon counts as a domain where it
/// is no IPv4 address, and so does any before a negative port.
pub proof fn law_address_of_a_domain(host: Seq<char>, port: int, options: WsOptionsView)
    requires
        options.use_ws,
        endpoint::holds_no(host, ':'),
        -2147483648 <= port <= 2147483647,
        !endpoint::is_dotted_quad(host) || port < 0,
    ensures
        ws_address(host.push(':') + text::decimal(port), options) == (if "https"@.is_prefix_of(
            options.api_server,
        ) {
            "wss"@
        } else {
            "ws"@
        }) + "://"@ + (host + (if port == options.rendezvous_port() || port + 1
            == options.rendezvous_port() {
            "/ws/id"@
        } else {
            "/ws/relay"@
        })),
{
    let number = text::decimal(port);
    text::lemma_decimal_chars(port);
    endpoint::law_one_colon_parts_host_and_port(host, number);
    endpoint::law_port_is_the_number(number, port);
    lemma_host_and_port_is_no_url(host, number);
    if port < 0 {
        assert(!('0' <= number[0] <= '9'));
    }
}

/// Law: with a rendezvous server at a port, of a domain or of an IPv4 address,
/// that port and the one below are reached at a domain by `/ws/id`, and every
/// other port by `/ws/relay`.
pub proof fn law_rendezvous_setting_decides_the_path(
    host: Seq<char>,
    port: int,
    server: Seq<char>,
    server_port: int,
    options: WsOptionsView,
)
    requires
        options.use_ws,
        options.rendezvous_server == server.push(':') + text::decimal(server_port),
        !"https"@.is_prefix_of(options.api_server),
        endpoint::holds_no(host, ':'),
        endpoint::holds_no(server, ':'),
        !endpoint::is_dotted_quad(host),
        -2147483648 <= port <= 2147483647,
        -2147483648 <= server_port <= 2147483647,
    ensures
        port == server_port || port == server_port - 1 ==> ws_address(
            host.push(':') + text::decimal(port),
            options,
        ) == "ws://"@ + host + "/ws/id"@,
        port != server_port && port != server_port - 1 ==> ws_address(
            host.push(':') + text::decimal(port),
            options,
        ) == "ws://"@ + host + "/ws/relay"@,
{
    law_server_setting_has_its_port(options, server, server_port);
    law_address_of_a_domain(host, port, options);
    reveal_strlit("ws");
    reveal_strlit("://");
    reveal_strlit("ws://");
    assert("ws"@ + "://"@ =~= "ws://"@);
    assert("ws"@ + "://"@ + (host + "/ws/id"@) =~= "ws://"@ + host + "/ws/id"@);
    assert("ws"@ + "://"@ + (host + "/ws/relay"@) =~= "ws://"@ + host + "/ws/relay"@);
}

/// Law: an IPv4 address with a port is reached in plain at the same address, two
/// ports above, and three above where the port is one below that of the
/// rendezvous service.
pub proof fn law_address_of_an_ipv4(host: Seq<char>, port: int, options: WsOptionsView)
    requires
        options.use_ws,
        endpoint::is_dotted_quad(host),
        0 <= port <= 2147483647,
    ensures
        port + 1 != options.rendezvous_port() ==> ws_address(
            host.push(':') + text::decimal(port),
            options,
        ) == "ws"@ + "://"@ + (host + ":"@ + text::decimal(port + 2)),
        port + 1 == options.rendezvous_port() ==> ws_address(
            host.push(':') + text::decimal(port),
            options,
        ) == "ws"@ + "://"@ + (host + ":"@ + text::decimal(port + 3)),
{
    let number = text::decimal(port);
    endpoint::lemma_dotted_quad_chars(host);
    text::lemma_decimal_chars(port);
    text::law_decimal_notation(port);
    endpoint::law_one_colon_parts_host_and_port(host, number);
    endpoint::law_port_is_the_number(number, port);
    lemma_host_and_port_is_no_url(host, number);
}

/// What begins with a bracket is no URL.
proof fn lemma_bracket_is_no_url(s: Seq<char>)
    requires
        s.len() > 0,
        s[0] == '[',
    ensures
        !is_ws_url(s),
{
    law_ws_urls_begin_with_their_protocol(s);
    if s.len() >= 5 {
        assert(s.take(5)[0] == '[');
    }
    if s.len() >= 6 {
        assert(s.take(6)[0] == '[');
    }
}

/// Law: an IPv6 address in brackets with a port is reached in plain at the same
/// address, two ports above, and three above where the port is one below that of
/// the rendezvous service.
pub proof fn law_address_of_an_ipv6(address: Seq<char>, port: int, options: WsOptionsView)
    requires
        options.use_ws,
        endpoint::is_ipv6_groups(address),
        0 <= port <= 2147483647,
    ensures
        port + 1 != options.rendezvous_port() ==> ws_address(
            endpoint::in_brackets(address) + (seq![':'] + text::decimal(port)),
            options,
        ) == "ws"@ + "://"@ + (endpoint::in_brackets(address) + ":"@ + text::decimal(port + 2)),
        port + 1 == options.rendezvous_port() ==> ws_address(
            endpoint::in_brackets(address) + (seq![':'] + text::decimal(port)),
            options,
        ) == "ws"@ + "://"@ + (endpoint::in_brackets(address) + ":"@ + text::decimal(port + 3)),
{
    text::law_decimal_notation(port);
    endpoint::law_ipv6_address_in_each_form(address, text::decimal(port));
    endpoint::law_port_is_the_number(text::decimal(port), port);
    lemma_bracket_is_no_url(
        endpoint::in_brackets(address) + (seq![':'] + text::decimal(port)),
    );
}

/// Law: a host alone is reached as the rendezvous service: a domain by the path
/// `/ws/id`, an IPv4 address two ports above that of the service.
pub proof fn law_address_of_a_host_alone(host: Seq<char>, options: WsOptionsView)
    requires
        options.use_ws,
        host.len() > 0,
        endpoint::holds_no(host, ':'),
    ensures
        endpoint::is_dotted_quad(host) ==> ws_address(host, options) == "ws"@ + "://"@ + (host
            + ":"@ + text::decimal(options.rendezvous_port() + 2)),
        !endpoint::is_dotted_quad(host) ==> ws_address(host, options) == (if "https"@.is_prefix_of(
            options.api_server,
        ) {
            "wss"@
        } else {
            "ws"@
        }) + "://"@ + (host + "/ws/id"@),
{
    endpoint::law_no_colon_is_a_host_alone(host);
    law_ws_urls_begin_with_their_protocol(host);
    if host.len() >= 5 {
        assert(host[2] == host.take(5)[2]);
    }
    if host.len() >= 6 {
        assert(host[3] == host.take(6)[3]);
    }
}

/// Law: an IPv6 address alone, in brackets or not, is reached in plain, in
/// brackets, two ports above that of the rendezvous service.
pub proof fn law_address_of_an_ipv6_alone(address: Seq<char>, options: WsOptionsView)
    requires
        options.use_ws,
        endpoint::is_ipv6_groups(address),
    ensures
        ws_address(address, options) == "ws"@ + "://"@ + (endpoint::in_brackets(address) + ":"@
            + text::decimal(options.rendezvous_port() + 2)),
        ws_address(endpoint::in_brackets(address), options) == ws_address(address, options),
{
    endpoint::law_ipv6_address_in_each_form(address, seq!['0']);
    lemma_bracket_is_no_url(endpoint::in_brackets(address));
    endpoint::lemma_address_is_no_url(address);
    law_ws_urls_begin_with_their_protocol(address);
    if address.len() >= 5 {
        assert(address[0] == address.take(5)[0]);
    }
    if address.len() >= 6 {
        assert(address[0] == address.take(6)[0]);
    }
}

/// Law: of what stands behind the colon only the number that it denotes counts,
/// as long as it makes no URL of the endpoint and does not decide whether it is
/// an IP address.
pub proof fn law_only_the_number_of_the_port_counts(
    host: Seq<char>,
    a: Seq<char>,
    b: Seq<char>,
    options: WsOptionsView,
)
    requires
        endpoint::holds_no(host, ':'),
        endpoint::holds_no(a, ':'),
        endpoint::holds_no(b, ':'),
        a.len() > 0 ==> a[0] != '/',
        b.len() > 0 ==> b[0] != '/',
        endpoint::port_value(a) == endpoint::port_value(b),
        options.use_ws,
        !endpoint::is_dotted_quad(host) || (text::is_number(a) <==> text::is_number(b)),
    ensures
        ws_address(host.push(':') + a, options) == ws_address(host.push(':') + b, options),
{
    endpoint::law_one_colon_parts_host_and_port(host, a);
    endpoint::law_one_colon_parts_host_and_port(host, b);
    lemma_host_and_port_is_no_url(host, a);
    lemma_host_and_port_is_no_url(host, b);
    assert(text::is_number(a) <==> a.len() > 0 && forall|i: int|
        0 <= i < a.len() ==> '0' <= #[trigger] a[i] <= '9') by {
        endpoint::lemma_number_is_digits(a);
    }
    assert(text::is_number(b) <==> b.len() > 0 && forall|i: int|
        0 <= i < b.len() ==> '0' <= #[trigger] b[i] <= '9') by {
        endpoint::lemma_number_is_digits(b);
    }
}

/// Law: every endpoint can be asked about unless a port that has to be looked at
/// is no number that an `i32` holds: the one that is two or three above, and
/// those next to the port of the rendezvous service.
pub proof fn law_ports_within_an_i32_fit(endpoint: Seq<char>, options: WsOptionsView)
    ensures
        ({
            let port = service_port(endpoint, options);
            let rendezvous = options.rendezvous_port();
            &&& port == rendezvous && port <= 2147483645 ==> ports_fit(endpoint, options)
            &&& port == rendezvous - 1 && port <= 2147483644 ==> ports_fit(endpoint, options)
            &&& port != rendezvous - 1 && port <= 2147483645 && -2147483648 < rendezvous
                && rendezvous < 2147483647 ==> ports_fit(endpoint, options)
            &&& port != rendezvous - 1 && port <= 2147483645 && -2147483648 < rendezvous && port
                == options.relay_port() ==> ports_fit(endpoint, options)
        }),
        !options.use_ws ==> ports_fit(endpoint, options),
        endpoint::host_and_port(endpoint) is None && !endpoint::is_ip(endpoint) ==> ports_fit(
            endpoint,
            options,
        ),
{
}

} // verus!
