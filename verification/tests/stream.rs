use bytes::{Bytes, BytesMut};
use sodiumoxide::crypto::secretbox;
use std::collections::VecDeque;
use std::io::{Error, ErrorKind, Read, Write};
use tungstenite::protocol::{Message, Role, WebSocket};
use websocket::{
    Encrypt, Key, Limits, NextStep, PeerAddr, RecvError, SendError, SendOutcome, WsFramedStream,
    WsMessage,
};

const ADDR: PeerAddr = PeerAddr::V6 { ipv6: 1, port: 21118, flowinfo: 0, scope_id: 0 };

fn stream() -> WsFramedStream {
    WsFramedStream::from_tcp_stream(ADDR)
}

fn secured() -> WsFramedStream {
    let mut ws = stream();
    ws.set_key(Key([7u8; 32]));
    ws
}

fn payload(message: WsMessage) -> Bytes {
    match message {
        WsMessage::Binary(data) => data,
        _ => panic!("messages are sent as binary ones"),
    }
}

fn delivered(step: NextStep) -> Vec<u8> {
    match step {
        NextStep::Done(Some(Ok(data))) => data.to_vec(),
        NextStep::Done(Some(Err(error))) => panic!("{}", error.message()),
        NextStep::Done(None) => panic!("the end"),
        NextStep::Wait => panic!("nothing was delivered"),
    }
}

/// A transport in memory: what the other end has written, to be read once.
struct Wire {
    incoming: VecDeque<u8>,
}

impl Read for Wire {
    fn read(&mut self, buf: &mut [u8]) -> Result<usize, Error> {
        if self.incoming.is_empty() {
            return Err(Error::new(ErrorKind::WouldBlock, "nothing more was written"));
        }
        self.incoming.read(buf)
    }
}

impl Write for Wire {
    fn write(&mut self, buf: &[u8]) -> Result<usize, Error> {
        Ok(buf.len())
    }

    fn flush(&mut self) -> Result<(), Error> {
        Ok(())
    }
}

fn ws_loopback() -> (WsFramedStream, WebSocket<Wire>) {
    let wire = Wire { incoming: VecDeque::new() };
    (stream(), WebSocket::from_raw_socket(wire, Role::Client, None))
}

fn set_max_packet_length(ws: &mut WsFramedStream, socket: &mut WebSocket<Wire>, n: usize) {
    ws.set_max_packet_length(n);
    let limits: Limits = ws.limits();
    socket.set_config(|c| {
        c.max_message_size = limits.max_message_size;
        c.max_frame_size = limits.max_frame_size;
    });
}

/// Reads until something is delivered. `None` where the transport waits for
/// more than was written.
fn next(
    ws: &mut WsFramedStream,
    socket: &mut WebSocket<Wire>,
) -> Option<Option<Result<BytesMut, RecvError>>> {
    loop {
        let incoming = match socket.read() {
            Ok(Message::Text(text)) => Some(Ok(WsMessage::Text(text.to_string()))),
            Ok(Message::Binary(data)) => Some(Ok(WsMessage::Binary(data))),
            Ok(Message::Ping(data)) => Some(Ok(WsMessage::Ping(data))),
            Ok(Message::Pong(data)) => Some(Ok(WsMessage::Pong(data))),
            Ok(Message::Close(_)) => Some(Ok(WsMessage::Close)),
            Ok(Message::Frame(_)) => Some(Ok(WsMessage::Frame)),
            Err(tungstenite::Error::Io(e)) if e.kind() == ErrorKind::WouldBlock => return None,
            Err(e) => Some(Err(e.to_string())),
        };
        match ws.next(incoming) {
            NextStep::Wait => continue,
            NextStep::Done(result) => return Some(result),
        }
    }
}

// A server-to-client frame is unmasked, so it can be put on the wire by hand: the header alone,
// which is all it takes to ask the transport for the allocation, or with its payload. `head` is
// the first byte, FIN and opcode.
fn ws_frame(head: u8, len: usize, with_payload: bool) -> Vec<u8> {
    let mut f = vec![head];
    if len < 126 {
        f.push(len as u8);
    } else if len <= u16::MAX as usize {
        f.push(0x7E);
        f.extend_from_slice(&(len as u16).to_be_bytes());
    } else {
        f.push(0x7F);
        f.extend_from_slice(&(len as u64).to_be_bytes());
    }
    if with_payload {
        f.resize(f.len() + len, 0xCD);
    }
    f
}

fn ws_binary_frame(len: usize, with_payload: bool) -> Vec<u8> {
    ws_frame(0x82, len, with_payload)
}

fn write_all(socket: &mut WebSocket<Wire>, data: &[u8]) {
    socket.get_mut().incoming.extend(data);
}

#[test]
fn max_packet_length_refuses_a_frame_on_its_header() {
    const CAP: usize = 16 * 1024;
    let (mut ws, mut server) = ws_loopback();
    set_max_packet_length(&mut ws, &mut server, CAP);

    // One byte over, header only: refused before there is any payload to buffer.
    write_all(&mut server, &ws_binary_frame(CAP + 1, false));
    match next(&mut ws, &mut server) {
        Some(Some(Err(e))) => assert!(e.message().contains("Message too long"), "{}", e.message()),
        Some(other) => panic!(
            "expected a refusal, got {:?}",
            other.map(|r| r.map(|b| b.len()).map_err(|e| e.message()))
        ),
        None => panic!("next() waited for a payload the header should have refused"),
    }
}

#[test]
fn max_packet_length_lowered_then_restored() {
    const CAP: usize = 16 * 1024;
    let (mut ws, mut server) = ws_loopback();

    set_max_packet_length(&mut ws, &mut server, CAP);
    write_all(&mut server, &ws_binary_frame(8 * 1024, true));
    match next(&mut ws, &mut server) {
        Some(Some(Ok(got))) => {
            assert_eq!(got.len(), 8 * 1024, "a message under the cap still arrives")
        }
        _ => panic!("a message under the cap still arrives"),
    }

    set_max_packet_length(&mut ws, &mut server, usize::MAX);
    write_all(&mut server, &ws_binary_frame(200_000, true));
    match next(&mut ws, &mut server) {
        Some(Some(Ok(got))) => assert_eq!(
            got.len(),
            200_000,
            "lifting the cap lets a large message through again"
        ),
        Some(_) => panic!("lifting the cap lets a large message through again"),
        None => panic!("next() hung after the cap was lifted"),
    }
}

// Two frames each under the cap that reassemble to a message over it: the frame bound lets
// both through, so this is what the message bound alone refuses.
#[test]
fn max_packet_length_bounds_fragmented_message() {
    const CAP: usize = 16 * 1024;
    let (mut ws, mut server) = ws_loopback();
    set_max_packet_length(&mut ws, &mut server, CAP);

    // Binary with FIN clear, then a continuation with FIN set: 12 KiB each, 24 KiB together.
    write_all(&mut server, &ws_frame(0x02, 12 * 1024, true));
    write_all(&mut server, &ws_frame(0x80, 12 * 1024, true));
    match next(&mut ws, &mut server) {
        Some(Some(Err(e))) => assert!(e.message().contains("Message too long"), "{}", e.message()),
        Some(other) => panic!(
            "expected a refusal, got {:?}",
            other.map(|r| r.map(|b| b.len()).map_err(|e| e.message()))
        ),
        None => panic!("next() hung on a fragmented message over the cap"),
    }
}

#[test]
fn packets_of_exactly_the_length_arrive() {
    const CAP: usize = 16 * 1024;
    let (mut ws, mut server) = ws_loopback();
    set_max_packet_length(&mut ws, &mut server, CAP);
    write_all(&mut server, &ws_binary_frame(CAP, true));
    // In two frames, the second of them with the rest.
    write_all(&mut server, &ws_frame(0x02, 12 * 1024, true));
    write_all(&mut server, &ws_frame(0x80, 4 * 1024, true));
    for _ in 0..2 {
        match next(&mut ws, &mut server) {
            Some(Some(Ok(got))) => assert_eq!(got.to_vec(), vec![0xCD; CAP]),
            _ => panic!("a message of the length still arrives"),
        }
    }
    // One byte more in the second frame.
    write_all(&mut server, &ws_frame(0x02, 12 * 1024, true));
    write_all(&mut server, &ws_frame(0x80, 4 * 1024 + 1, true));
    match next(&mut ws, &mut server) {
        Some(Some(Err(e))) => assert!(e.message().contains("Message too long"), "{}", e.message()),
        _ => panic!("a message of one byte more is refused"),
    }
}

#[test]
fn what_is_refused_stays_refused_whatever_follows() {
    let (mut ws, mut server) = ws_loopback();
    set_max_packet_length(&mut ws, &mut server, 100);
    // 120 bytes in two frames, with more frames to come.
    write_all(&mut server, &ws_frame(0x02, 60, true));
    write_all(&mut server, &ws_frame(0x00, 60, true));
    match next(&mut ws, &mut server) {
        Some(Some(Err(e))) => assert_eq!(
            e.message(),
            "WebSocket protocol error: Space limit exceeded: Message too long: 120 > 100"
        ),
        _ => panic!("the first frames are too long already"),
    }
}

#[test]
fn frames_are_bounded_by_the_defaults_whatever_the_length() {
    let (mut ws, mut server) = ws_loopback();
    set_max_packet_length(&mut ws, &mut server, usize::MAX);
    write_all(&mut server, &ws_binary_frame((16 << 20) + 1, false));
    match next(&mut ws, &mut server) {
        Some(Some(Err(e))) => assert!(e.message().contains("Message too long"), "{}", e.message()),
        _ => panic!("a frame over the default bound is refused on its header"),
    }
}

#[test]
fn text_messages_are_bounded_like_binary_ones() {
    let (mut ws, mut server) = ws_loopback();
    set_max_packet_length(&mut ws, &mut server, 5);
    write_all(&mut server, &[0x81, 5, b'h', b'e', b'l', b'l', b'o']);
    match next(&mut ws, &mut server) {
        Some(Some(Ok(got))) => assert_eq!(got.to_vec(), b"hello".to_vec()),
        _ => panic!("a text of the length still arrives"),
    }
    write_all(&mut server, &[0x81, 6]);
    match next(&mut ws, &mut server) {
        Some(Some(Err(e))) => assert!(e.message().contains("Message too long"), "{}", e.message()),
        _ => panic!("a longer text is refused on its header"),
    }
}

#[test]
fn limits_are_clamped_to_the_defaults() {
    let defaults = tungstenite::protocol::WebSocketConfig::default();
    let mut ws = stream();
    assert_eq!(ws.limits().max_message_size, defaults.max_message_size);
    assert_eq!(ws.limits().max_frame_size, defaults.max_frame_size);
    ws.set_max_packet_length(0);
    assert_eq!(ws.limits(), Limits { max_message_size: Some(0), max_frame_size: Some(0) });
    ws.set_max_packet_length(20 << 20);
    assert_eq!(
        ws.limits(),
        Limits { max_message_size: Some(20 << 20), max_frame_size: Some(16 << 20) }
    );
    ws.set_max_packet_length(usize::MAX);
    assert_eq!(ws.limits().max_message_size, defaults.max_message_size);
    assert_eq!(ws.limits().max_frame_size, defaults.max_frame_size);
}

#[test]
fn keys_secure_and_raw_undoes_them() {
    let mut ws = stream();
    assert_eq!(ws.local_addr(), ADDR);
    assert!(!ws.is_secured());
    ws.set_key(Key([1u8; 32]));
    assert!(ws.is_secured());
    ws.set_raw();
    assert!(!ws.is_secured());
    assert_eq!(payload(ws.send_raw(vec![1, 2, 3]).message).to_vec(), vec![1, 2, 3]);
}

#[test]
fn sealed_messages_are_those_of_the_cipher() {
    let mut ws = secured();
    let key = secretbox::Key([7u8; 32]);
    let mut nonce = [0u8; 24];
    for number in 1u8..4 {
        nonce[0] = number;
        let sealed = payload(ws.send_raw(b"hello".to_vec()).message);
        assert_eq!(sealed.to_vec(), secretbox::seal(b"hello", &secretbox::Nonce(nonce), &key));
        assert_eq!(sealed.len(), 5 + 16);
    }
}

#[test]
fn nonces_count_in_little_endian_order() {
    let mut encrypt = Encrypt::new(Key([7u8; 32]));
    for _ in 0..255 {
        encrypt.enc(b"x");
    }
    let sealed = encrypt.enc(b"x");
    let mut nonce = [0u8; 24];
    nonce[1] = 1;
    let key = secretbox::Key([7u8; 32]);
    assert_eq!(sealed, secretbox::seal(b"x", &secretbox::Nonce(nonce), &key));
}

#[test]
fn all_sent_is_received_in_order() {
    for (mut a, mut b) in [(stream(), stream()), (secured(), secured())] {
        for message in [&b"one"[..], &b""[..], &b"2"[..], &[0u8; 100_000][..]] {
            assert!(a.can_send(message));
            let sent = payload(a.send_raw(message.to_vec()).message);
            let incoming = Some(Ok(WsMessage::Binary(sent)));
            assert!(b.can_take(&incoming));
            assert_eq!(delivered(b.next(incoming)), message);
            // What is none of the caller's business does not disturb the count.
            assert!(matches!(b.next(Some(Ok(WsMessage::Ping(Bytes::new())))), NextStep::Wait));
            let answer = payload(b.send_raw(b"ack".to_vec()).message);
            assert_eq!(delivered(a.next(Some(Ok(WsMessage::Binary(answer))))), b"ack");
        }
    }
}

#[test]
fn messages_that_were_tampered_with_are_refused() {
    let mut a = secured();
    let mut b = secured();
    let mut sent = payload(a.send_raw(b"hello".to_vec()).message).to_vec();
    sent[20] ^= 1;
    match b.next(Some(Ok(WsMessage::Binary(Bytes::from(sent))))) {
        NextStep::Done(Some(Err(error))) => {
            assert!(matches!(error, RecvError::Decryption));
            assert_eq!(error.message(), "decryption error");
        }
        _ => panic!("the message does not pass verification"),
    }
    // It is counted all the same.
    let sent = payload(a.send_raw(b"again".to_vec()).message);
    assert_eq!(delivered(b.next(Some(Ok(WsMessage::Binary(sent))))), b"again");
}

#[test]
fn short_messages_are_not_opened() {
    let mut b = secured();
    assert_eq!(delivered(b.next(Some(Ok(WsMessage::Binary(Bytes::new()))))), b"");
    assert_eq!(delivered(b.next(Some(Ok(WsMessage::Binary(Bytes::from(vec![9u8])))))), [9]);
    let sent = payload(secured().send_raw(b"first".to_vec()).message);
    assert_eq!(delivered(b.next(Some(Ok(WsMessage::Binary(sent))))), b"first");
    match b.next(Some(Ok(WsMessage::Binary(Bytes::from(vec![9u8, 9]))))) {
        NextStep::Done(Some(Err(RecvError::Decryption))) => {}
        _ => panic!("two bytes are no sealed message"),
    }
}

#[test]
fn text_is_delivered_as_it_is() {
    let mut ws = secured();
    assert_eq!(
        delivered(ws.next(Some(Ok(WsMessage::Text("gr\u{fc}n".to_string()))))),
        "gr\u{fc}n".as_bytes()
    );
}

#[test]
fn events_end_fail_or_wait() {
    let mut ws = stream();
    assert!(matches!(ws.next(None), NextStep::Done(None)));
    assert!(matches!(ws.next(Some(Ok(WsMessage::Close))), NextStep::Done(None)));
    assert!(matches!(ws.next(Some(Ok(WsMessage::Ping(Bytes::new())))), NextStep::Wait));
    assert!(matches!(ws.next(Some(Ok(WsMessage::Pong(Bytes::new())))), NextStep::Wait));
    assert!(matches!(ws.next(Some(Ok(WsMessage::Frame))), NextStep::Wait));
    match ws.next(Some(Err("Connection reset".to_string()))) {
        NextStep::Done(Some(Err(error))) => {
            assert!(matches!(error, RecvError::Protocol(_)));
            assert_eq!(error.message(), "WebSocket protocol error: Connection reset");
        }
        _ => panic!("the transport failed"),
    }
}

#[test]
fn sending_has_the_time_that_was_set() {
    let mut ws = stream();
    assert_eq!(ws.send_bytes(Bytes::from(vec![1u8])).timeout_ms, None);
    ws.set_send_timeout(1500);
    let outgoing = ws.send_bytes(Bytes::from(vec![1u8, 2]));
    assert_eq!(outgoing.timeout_ms, Some(1500));
    assert_eq!(payload(outgoing.message).to_vec(), vec![1, 2]);
    ws.set_send_timeout(0);
    assert_eq!(ws.send_raw(vec![1]).timeout_ms, None);
}

#[test]
fn messages_that_cannot_be_encoded_are_not_sent() {
    let mut ws = secured();
    match ws.send(Err("required field missing".to_string())) {
        Err(error) => {
            assert!(matches!(error, SendError::Encode(_)));
            assert_eq!(error.message(), "required field missing");
        }
        Ok(_) => panic!("there is nothing to send"),
    }
    match ws.send(Ok(b"first".to_vec())) {
        Ok(outgoing) => {
            let incoming = Some(Ok(WsMessage::Binary(payload(outgoing.message))));
            assert_eq!(delivered(secured().next(incoming)), b"first");
        }
        Err(error) => panic!("{}", error.message()),
    }
}

#[test]
fn sending_comes_out_one_way_or_another() {
    assert!(WsFramedStream::send_result(SendOutcome::Sent).is_ok());
    match WsFramedStream::send_result(SendOutcome::TimedOut) {
        Err(error) => {
            assert!(matches!(error, SendError::TimedOut));
            assert_eq!(error.message(), "deadline has elapsed");
        }
        Ok(()) => panic!("the time was up"),
    }
    match WsFramedStream::send_result(SendOutcome::Failed("broken pipe".to_string())) {
        Err(error) => {
            assert!(matches!(error, SendError::Transport(_)));
            assert_eq!(error.message(), "broken pipe");
        }
        Ok(()) => panic!("the transport failed"),
    }
}

#[test]
fn nothing_comes_when_the_time_is_up() {
    assert!(WsFramedStream::next_timeout(None).is_none());
    assert!(WsFramedStream::next_timeout(Some(None)).is_none());
    match WsFramedStream::next_timeout(Some(Some(Ok(BytesMut::from(&b"x"[..]))))) {
        Some(Ok(data)) => assert_eq!(&data[..], b"x"),
        _ => panic!("a message came in time"),
    }
}
