use websocket::{
    ConnectAttempt, ConnectError, ConnectOutcome, ConnectStep, ConnectorPlan, PeerAddr, TlsType,
    Transport, WsFramedStream,
};

fn refused(text: &str, http_status: Option<u16>) -> ConnectOutcome {
    ConnectOutcome::Refused { text: text.to_string(), http_status }
}

/// The attempts that are made when every one is refused, and the words at the
/// end.
fn all_refused(
    tls_type: Option<TlsType>,
    accept: Option<bool>,
    http_status: Option<u16>,
) -> (Vec<(TlsType, Option<bool>)>, String) {
    let mut attempt = WsFramedStream::connect(tls_type, accept);
    let mut made = vec![];
    loop {
        made.push((attempt.tls_type, attempt.danger_accept_invalid_cert));
        match WsFramedStream::try_connect(attempt, refused("no", http_status)) {
            ConnectStep::Retry(next) => attempt = next,
            ConnectStep::Failed(error) => return (made, error.message()),
            ConnectStep::Connected { .. } => panic!("a refusal is no connection"),
        }
    }
}

#[test]
fn unknown_servers_are_tried_four_ways() {
    let (made, words) = all_refused(None, None, None);
    assert_eq!(
        made,
        vec![
            (TlsType::Rustls, None),
            (TlsType::Rustls, Some(true)),
            (TlsType::NativeTls, None),
            (TlsType::NativeTls, Some(true)),
        ]
    );
    assert_eq!(words, "WebSocket error: no");
}

#[test]
fn what_is_remembered_is_kept() {
    assert_eq!(
        all_refused(None, Some(false), None).0,
        vec![(TlsType::Rustls, Some(false)), (TlsType::NativeTls, Some(false))]
    );
    assert_eq!(
        all_refused(Some(TlsType::Rustls), None, None).0,
        vec![(TlsType::Rustls, None), (TlsType::Rustls, Some(true))]
    );
    assert_eq!(
        all_refused(Some(TlsType::NativeTls), None, None).0,
        vec![(TlsType::NativeTls, None), (TlsType::NativeTls, Some(true))]
    );
    assert_eq!(
        all_refused(Some(TlsType::Rustls), Some(true), None).0,
        vec![(TlsType::Rustls, Some(true))]
    );
    assert_eq!(
        all_refused(Some(TlsType::Plain), None, None).0,
        vec![(TlsType::Plain, None)]
    );
}

#[test]
fn redirections_are_told_apart() {
    let redirected = "WebSocket connection failed (no). The server may not support WebSocket.";
    assert_eq!(all_refused(None, None, Some(300)).1, redirected);
    assert_eq!(all_refused(None, None, Some(399)).1, redirected);
    assert_eq!(all_refused(None, None, Some(299)).1, "WebSocket error: no");
    assert_eq!(all_refused(None, None, Some(400)).1, "WebSocket error: no");
}

#[test]
fn only_refusals_are_retried() {
    let attempt = WsFramedStream::connect(None, None);
    match WsFramedStream::try_connect(attempt, ConnectOutcome::TimedOut) {
        ConnectStep::Failed(error) => {
            assert!(matches!(error, ConnectError::TimedOut));
            assert_eq!(error.message(), "deadline has elapsed");
        }
        _ => panic!("a timeout is final"),
    }
    match WsFramedStream::try_connect(attempt, ConnectOutcome::BadConnector("bad".to_string())) {
        ConnectStep::Failed(error) => {
            assert!(matches!(error, ConnectError::Connector(_)));
            assert_eq!(error.message(), "bad");
        }
        _ => panic!("a connector that cannot be made is final"),
    }
}

#[test]
fn what_worked_is_tried_next() {
    let attempt = ConnectAttempt {
        tls_type: TlsType::NativeTls,
        is_tls_type_cached: false,
        danger_accept_invalid_cert: None,
        original_danger_accept_invalid_certs: None,
    };
    assert!(!attempt.accept_invalid_certs());
    match WsFramedStream::try_connect(attempt, ConnectOutcome::Connected) {
        ConnectStep::Connected { tls_type, accept_invalid_cert } => {
            assert_eq!(tls_type, TlsType::NativeTls);
            assert!(!accept_invalid_cert);
            let next = WsFramedStream::connect(Some(tls_type), Some(accept_invalid_cert));
            assert_eq!(next.tls_type, TlsType::NativeTls);
            assert!(next.is_tls_type_cached);
            assert_eq!(next.danger_accept_invalid_cert, Some(false));
            assert_eq!(next.original_danger_accept_invalid_certs, Some(false));
        }
        _ => panic!("the connection is open"),
    }
}

#[test]
fn connectors_follow_the_attempt() {
    assert_eq!(WsFramedStream::get_connector(&TlsType::Plain, true), ConnectorPlan::Plain);
    for accept in [false, true] {
        assert_eq!(
            WsFramedStream::get_connector(&TlsType::NativeTls, accept),
            ConnectorPlan::NativeTls { danger_accept_invalid_certs: accept }
        );
        assert_eq!(
            WsFramedStream::get_connector(&TlsType::Rustls, accept),
            ConnectorPlan::Rustls { danger_accept_invalid_certs: accept }
        );
    }
}

#[test]
fn rustls_falls_back_to_the_default_connector() {
    let native = ConnectorPlan::NativeTls { danger_accept_invalid_certs: false };
    let rustls = ConnectorPlan::Rustls { danger_accept_invalid_certs: false };
    assert_eq!(WsFramedStream::connector_made(&ConnectorPlan::Plain, Ok(1u8)), Ok(Some(1)));
    assert_eq!(WsFramedStream::connector_made(&native, Ok(2u8)), Ok(Some(2)));
    assert_eq!(WsFramedStream::connector_made(&rustls, Ok(3u8)), Ok(Some(3)));
    assert_eq!(WsFramedStream::connector_made::<u8>(&rustls, Err("no".to_string())), Ok(None));
    assert_eq!(
        WsFramedStream::connector_made::<u8>(&native, Err("no".to_string())),
        Err("no".to_string())
    );
}

#[test]
fn requests_are_made_of_urls_with_a_host() {
    let request = WsFramedStream::client_request("ws://127.0.0.1:21118").unwrap_or_else(|error| {
        panic!("{}", error.message());
    });
    assert_eq!(request.uri().to_string(), "ws://127.0.0.1:21118/");
    assert_eq!(request.headers()["Host"], "127.0.0.1:21118");
    let request = WsFramedStream::client_request("wss://rustdesk.com/ws/id").unwrap_or_else(|error| {
        panic!("{}", error.message());
    });
    assert_eq!(request.uri().to_string(), "wss://rustdesk.com/ws/id");
    assert_eq!(request.headers()["Host"], "rustdesk.com");
    assert_eq!(request.headers()["Upgrade"], "websocket");
    for url in ["", "/ws/id", "ws://", "not a url"] {
        match WsFramedStream::client_request(url) {
            Err(ConnectError::Request(text)) => assert!(!text.is_empty()),
            _ => panic!("no request can be made of {:?}", url),
        }
    }
}

#[test]
fn new_connections_know_their_peer() {
    let addr = PeerAddr::V4 { ipv4: 0x7f00_0001, port: 21118 };
    for transport in [
        Transport::Plain(Ok(addr)),
        Transport::NativeTls(Ok(addr)),
        Transport::Rustls(Ok(addr)),
    ] {
        match WsFramedStream::new(transport, 3000) {
            Ok(stream) => {
                assert_eq!(stream.local_addr(), addr);
                assert!(!stream.is_secured());
                assert_eq!(stream.limits().max_message_size, Some(64 << 20));
                assert_eq!(stream.limits().max_frame_size, Some(16 << 20));
                assert_eq!(stream.send_bytes(bytes::Bytes::new()).timeout_ms, Some(3000));
            }
            Err(error) => panic!("{}", error.message()),
        }
    }
    for transport in [
        Transport::Plain(Err("gone".to_string())),
        Transport::NativeTls(Err("gone".to_string())),
        Transport::Rustls(Err("gone".to_string())),
    ] {
        match WsFramedStream::new(transport, 3000) {
            Err(ConnectError::PeerAddr(text)) => assert_eq!(text, "gone"),
            _ => panic!("the address is not known"),
        }
    }
    match WsFramedStream::new(Transport::Other, 3000) {
        Err(error) => {
            assert!(matches!(error, ConnectError::UnsupportedStream));
            assert_eq!(error.message(), "Unsupported stream type");
        }
        Ok(_) => panic!("the transport is not known"),
    }
}
