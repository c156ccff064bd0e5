use websocket::{can_check_ws, check_ws, is_ws_endpoint, WsOptions};

fn enabled() -> WsOptions {
    let mut options = WsOptions::new();
    options.set_option("allow-websocket".to_string(), "Y".to_string());
    options
}

#[test]
fn test_check_ws() {
    let mut options = WsOptions::new();
    // enable websocket
    options.set_option("allow-websocket".to_string(), "Y".to_string());

    // not set custom-rendezvous-server
    options.set_option("custom-rendezvous-server".to_string(), "".to_string());
    options.set_option("relay-server".to_string(), "".to_string());
    options.set_option("api-server".to_string(), "".to_string());
    assert_eq!(check_ws("127.0.0.1:21115", &options), "ws://127.0.0.1:21118");
    assert_eq!(check_ws("127.0.0.1:21116", &options), "ws://127.0.0.1:21118");
    assert_eq!(check_ws("127.0.0.1:21117", &options), "ws://127.0.0.1:21119");
    assert_eq!(check_ws("rustdesk.com:21115", &options), "ws://rustdesk.com/ws/id");
    assert_eq!(check_ws("rustdesk.com:21116", &options), "ws://rustdesk.com/ws/id");
    assert_eq!(check_ws("rustdesk.com:21117", &options), "ws://rustdesk.com/ws/relay");
    // set relay-server without port
    options.set_option("relay-server".to_string(), "127.0.0.1".to_string());
    options.set_option(
        "api-server".to_string(),
        "https://api.rustdesk.com".to_string(),
    );
    assert_eq!(
        check_ws("[0:0:0:0:0:0:0:1]:21115", &options),
        "ws://[0:0:0:0:0:0:0:1]:21118"
    );
    assert_eq!(
        check_ws("[0:0:0:0:0:0:0:1]:21116", &options),
        "ws://[0:0:0:0:0:0:0:1]:21118"
    );
    assert_eq!(
        check_ws("[0:0:0:0:0:0:0:1]:21117", &options),
        "ws://[0:0:0:0:0:0:0:1]:21119"
    );
    assert_eq!(check_ws("rustdesk.com:21115", &options), "wss://rustdesk.com/ws/id");
    assert_eq!(check_ws("rustdesk.com:21116", &options), "wss://rustdesk.com/ws/id");
    assert_eq!(
        check_ws("rustdesk.com:21117", &options),
        "wss://rustdesk.com/ws/relay"
    );
    // set relay-server with default port
    options.set_option("relay-server".to_string(), "127.0.0.1:21117".to_string());
    assert_eq!(check_ws("127.0.0.1:21115", &options), "ws://127.0.0.1:21118");
    assert_eq!(check_ws("127.0.0.1:21116", &options), "ws://127.0.0.1:21118");
    assert_eq!(check_ws("127.0.0.1:21117", &options), "ws://127.0.0.1:21119");
    // set relay-server with custom port
    options.set_option("relay-server".to_string(), "127.0.0.1:34567".to_string());
    assert_eq!(check_ws("rustdesk.com:21115", &options), "wss://rustdesk.com/ws/id");
    assert_eq!(check_ws("rustdesk.com:21116", &options), "wss://rustdesk.com/ws/id");
    assert_eq!(
        check_ws("rustdesk.com:34567", &options),
        "wss://rustdesk.com/ws/relay"
    );

    // set custom-rendezvous-server without port
    options.set_option(
        "custom-rendezvous-server".to_string(),
        "127.0.0.1".to_string(),
    );
    options.set_option("relay-server".to_string(), "".to_string());
    options.set_option("api-server".to_string(), "".to_string());
    assert_eq!(check_ws("127.0.0.1:21115", &options), "ws://127.0.0.1:21118");
    assert_eq!(check_ws("127.0.0.1:21116", &options), "ws://127.0.0.1:21118");
    assert_eq!(check_ws("127.0.0.1:21117", &options), "ws://127.0.0.1:21119");
    // set relay-server without port
    options.set_option("relay-server".to_string(), "127.0.0.1".to_string());
    assert_eq!(check_ws("127.0.0.1:21115", &options), "ws://127.0.0.1:21118");
    assert_eq!(check_ws("127.0.0.1:21116", &options), "ws://127.0.0.1:21118");
    assert_eq!(check_ws("127.0.0.1:21117", &options), "ws://127.0.0.1:21119");
    // set relay-server with default port
    options.set_option("relay-server".to_string(), "127.0.0.1:21117".to_string());
    assert_eq!(check_ws("127.0.0.1:21115", &options), "ws://127.0.0.1:21118");
    assert_eq!(check_ws("127.0.0.1:21116", &options), "ws://127.0.0.1:21118");
    assert_eq!(check_ws("127.0.0.1:21117", &options), "ws://127.0.0.1:21119");
    // set relay-server with custom port
    options.set_option("relay-server".to_string(), "127.0.0.1:34567".to_string());
    assert_eq!(check_ws("127.0.0.1:21115", &options), "ws://127.0.0.1:21118");
    assert_eq!(check_ws("127.0.0.1:21116", &options), "ws://127.0.0.1:21118");
    assert_eq!(check_ws("127.0.0.1:34567", &options), "ws://127.0.0.1:34569");

    // set custom-rendezvous-server without default port
    options.set_option(
        "custom-rendezvous-server".to_string(),
        "127.0.0.1".to_string(),
    );
    options.set_option("relay-server".to_string(), "".to_string());
    options.set_option("api-server".to_string(), "".to_string());
    assert_eq!(check_ws("127.0.0.1:21115", &options), "ws://127.0.0.1:21118");
    assert_eq!(check_ws("127.0.0.1:21116", &options), "ws://127.0.0.1:21118");
    assert_eq!(check_ws("127.0.0.1:21117", &options), "ws://127.0.0.1:21119");
    // set relay-server without port
    options.set_option("relay-server".to_string(), "127.0.0.1".to_string());
    assert_eq!(check_ws("127.0.0.1:21115", &options), "ws://127.0.0.1:21118");
    assert_eq!(check_ws("127.0.0.1:21116", &options), "ws://127.0.0.1:21118");
    assert_eq!(check_ws("127.0.0.1:21117", &options), "ws://127.0.0.1:21119");
    // set relay-server with default port
    options.set_option("relay-server".to_string(), "127.0.0.1:21117".to_string());
    assert_eq!(check_ws("127.0.0.1:21115", &options), "ws://127.0.0.1:21118");
    assert_eq!(check_ws("127.0.0.1:21116", &options), "ws://127.0.0.1:21118");
    assert_eq!(check_ws("127.0.0.1:21117", &options), "ws://127.0.0.1:21119");
    // set relay-server with custom port
    options.set_option("relay-server".to_string(), "127.0.0.1:34567".to_string());
    assert_eq!(check_ws("127.0.0.1:21115", &options), "ws://127.0.0.1:21118");
    assert_eq!(check_ws("127.0.0.1:21116", &options), "ws://127.0.0.1:21118");
    assert_eq!(check_ws("127.0.0.1:34567", &options), "ws://127.0.0.1:34569");

    // set custom-rendezvous-server with custom port
    options.set_option(
        "custom-rendezvous-server".to_string(),
        "127.0.0.1:23456".to_string(),
    );
    options.set_option("relay-server".to_string(), "".to_string());
    options.set_option("api-server".to_string(), "".to_string());
    assert_eq!(check_ws("127.0.0.1:23455", &options), "ws://127.0.0.1:23458");
    assert_eq!(check_ws("127.0.0.1:23456", &options), "ws://127.0.0.1:23458");
    assert_eq!(check_ws("127.0.0.1:23457", &options), "ws://127.0.0.1:23459");
    // set relay-server without port
    options.set_option("relay-server".to_string(), "127.0.0.1".to_string());
    assert_eq!(check_ws("127.0.0.1:23455", &options), "ws://127.0.0.1:23458");
    assert_eq!(check_ws("127.0.0.1:23456", &options), "ws://127.0.0.1:23458");
    assert_eq!(check_ws("127.0.0.1:21117", &options), "ws://127.0.0.1:21119");
    // set relay-server with default port
    options.set_option("relay-server".to_string(), "127.0.0.1:21117".to_string());
    assert_eq!(check_ws("127.0.0.1:23455", &options), "ws://127.0.0.1:23458");
    assert_eq!(check_ws("127.0.0.1:23456", &options), "ws://127.0.0.1:23458");
    assert_eq!(check_ws("127.0.0.1:21117", &options), "ws://127.0.0.1:21119");
    // set relay-server with custom port
    options.set_option("relay-server".to_string(), "127.0.0.1:34567".to_string());
    assert_eq!(check_ws("127.0.0.1:23455", &options), "ws://127.0.0.1:23458");
    assert_eq!(check_ws("127.0.0.1:23456", &options), "ws://127.0.0.1:23458");
    assert_eq!(check_ws("127.0.0.1:34567", &options), "ws://127.0.0.1:34569");
}

#[test]
fn ws_endpoints_are_told_by_their_scheme() {
    assert!(is_ws_endpoint("ws://example.com"));
    assert!(is_ws_endpoint("wss://example.com"));
    assert!(is_ws_endpoint("ws://"));
    assert!(!is_ws_endpoint("ws:/"));
    assert!(!is_ws_endpoint("http://example.com"));
    assert!(!is_ws_endpoint("WS://example.com"));
    assert!(!is_ws_endpoint(" ws://example.com"));
    assert!(!is_ws_endpoint(""));
}

#[test]
fn endpoints_stay_as_they_are_without_websocket() {
    let mut options = WsOptions::new();
    assert_eq!(check_ws("127.0.0.1:21116", &options), "127.0.0.1:21116");
    options.set_option("allow-websocket".to_string(), "N".to_string());
    assert_eq!(check_ws("rustdesk.com:21117", &options), "rustdesk.com:21117");
    options.set_option("allow-websocket".to_string(), "y".to_string());
    assert_eq!(check_ws("rustdesk.com:21117", &options), "rustdesk.com:21117");
}

#[test]
fn endpoints_without_a_port_stand_for_the_rendezvous_service() {
    let mut options = enabled();
    assert_eq!(check_ws("127.0.0.1", &options), "ws://127.0.0.1:21118");
    assert_eq!(check_ws("rustdesk.com", &options), "ws://rustdesk.com/ws/id");
    assert_eq!(check_ws("0:0:0:0:0:0:0:1", &options), "ws://[0:0:0:0:0:0:0:1]:21118");
    assert_eq!(check_ws("[0:0:0:0:0:0:0:1]", &options), "ws://[0:0:0:0:0:0:0:1]:21118");
    assert_eq!(check_ws("::1", &options), "ws://[::1]:21118");
    options.set_option("custom-rendezvous-server".to_string(), "10.0.0.1:30000".to_string());
    options.set_option("api-server".to_string(), "https://api.rustdesk.com".to_string());
    assert_eq!(check_ws("127.0.0.1", &options), "ws://127.0.0.1:30002");
    assert_eq!(check_ws("[::1]", &options), "ws://[::1]:30002");
    assert_eq!(check_ws("rustdesk.com", &options), "wss://rustdesk.com/ws/id");
    for (bare, full) in [
        ("127.0.0.1", "127.0.0.1:30000"),
        ("::1", "[::1]:30000"),
        ("[::1]", "[::1]:30000"),
        ("rustdesk.com", "rustdesk.com:30000"),
    ] {
        assert_eq!(check_ws(bare, &options), check_ws(full, &options));
    }
}

#[test]
fn text_that_names_no_host_stays_as_it_is() {
    let options = enabled();
    assert_eq!(check_ws("", &options), "");
    assert_eq!(check_ws("a:b:21116", &options), "a:b:21116");
    assert_eq!(check_ws("rustdesk.com:21116:21117", &options), "rustdesk.com:21116:21117");
}

#[test]
fn checking_twice_changes_nothing() {
    let options = enabled();
    let endpoints = [
        "127.0.0.1:21116",
        "rustdesk.com:21117",
        "[0:0:0:0:0:0:0:1]:21115",
        "ws://example.com/ws/id",
        "wss://example.com/ws/id",
        "example.com",
        "10.0.0.1",
        "::1",
        "a:b:21116",
        "",
    ];
    for endpoint in endpoints {
        let once = check_ws(endpoint, &options);
        assert_eq!(check_ws(&once, &options), once);
    }
}

#[test]
fn the_relay_server_has_no_say() {
    let mut options = enabled();
    options.set_option("relay-server".to_string(), "10.0.0.1:40000".to_string());
    assert_eq!(check_ws("10.0.0.1:40000", &options), "ws://10.0.0.1:40002");
    assert_eq!(check_ws("10.0.0.2:50000", &options), "ws://10.0.0.2:50002");
    assert_eq!(check_ws("relay.net:50000", &options), "ws://relay.net/ws/relay");
    options.set_option("relay-server".to_string(), "".to_string());
    assert_eq!(check_ws("10.0.0.1:40000", &options), "ws://10.0.0.1:40002");
    assert_eq!(check_ws("relay.net:50000", &options), "ws://relay.net/ws/relay");
}

#[test]
fn an_ip_is_spoken_to_in_plain_whatever_the_api_server() {
    let mut options = enabled();
    options.set_option("api-server".to_string(), "https://api.rustdesk.com".to_string());
    assert_eq!(check_ws("10.0.0.1:21116", &options), "ws://10.0.0.1:21118");
    assert_eq!(check_ws("[1:2::3]:21117", &options), "ws://[1:2::3]:21119");
    assert_eq!(check_ws("10.0.0.256:21116", &options), "wss://10.0.0.256/ws/id");
    options.set_option("api-server".to_string(), "http://api.rustdesk.com".to_string());
    assert_eq!(check_ws("10.0.0.256:21116", &options), "ws://10.0.0.256/ws/id");
}

#[test]
fn options_without_a_part_in_the_url_are_ignored() {
    let mut options = enabled();
    options.set_option("proxy".to_string(), "10.0.0.1:1".to_string());
    assert!(options.use_ws);
    assert_eq!(options.rendezvous_server, "");
    assert_eq!(options.relay_server, "");
    assert_eq!(options.api_server, "");
}

#[test]
fn ports_that_are_no_numbers_count_as_zero() {
    let options = enabled();
    assert_eq!(check_ws("example.com:http", &options), "ws://example.com/ws/relay");
    assert_eq!(check_ws("10.0.0.1:99999999999", &options), "ws://10.0.0.1:2");
    assert_eq!(check_ws("10.0.0.1:0", &options), "ws://10.0.0.1:2");
}

#[test]
fn ports_at_the_end_of_the_range_are_told_beforehand() {
    let mut options = enabled();
    assert!(can_check_ws("10.0.0.1:2147483645", &options));
    assert_eq!(check_ws("10.0.0.1:2147483645", &options), "ws://10.0.0.1:2147483647");
    assert!(!can_check_ws("10.0.0.1:2147483646", &options));
    assert!(!can_check_ws("example.com:2147483646", &options));
    options.set_option(
        "custom-rendezvous-server".to_string(),
        "10.0.0.1:2147483647".to_string(),
    );
    assert!(!can_check_ws("10.0.0.1:2147483646", &options));
    assert!(!can_check_ws("10.0.0.1:80", &options));
    assert!(!can_check_ws("10.0.0.1", &options));
    assert!(!can_check_ws("::1", &options));
    assert!(can_check_ws("example.com", &options));
    assert_eq!(check_ws("example.com", &options), "ws://example.com/ws/id");
    assert!(can_check_ws("a:b:21116", &options));
    options.set_option("relay-server".to_string(), "10.0.0.1:80".to_string());
    assert!(can_check_ws("10.0.0.1:80", &options));
    assert_eq!(check_ws("10.0.0.1:80", &options), "ws://10.0.0.1:82");
    options.set_option("allow-websocket".to_string(), "N".to_string());
    assert!(can_check_ws("10.0.0.1:2147483646", &options));
}
