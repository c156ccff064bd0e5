//! An open WebSocket connection: who is at its other end, how large a packet
//! may be, whether its messages are sealed, and how long sending may take.

use bytes::{Bytes, BytesMut};
use tungstenite::protocol::WebSocketConfig;
use vstd::prelude::*;

use crate::buffers;
use crate::buffers::{bytes_as_slice, bytes_from_vec, bytes_mut_from_slice};
use crate::encrypt;
use crate::encrypt::{Encrypt, EncryptView, Key};

verus! {

/// The bound on messages that a transport starts with.
pub const DEFAULT_MAX_MESSAGE_SIZE: usize = 67_108_864;

/// The bound on frames that a transport starts with.
pub const DEFAULT_MAX_FRAME_SIZE: usize = 16_777_216;

/// The bounds that the transport holds incoming data to. The bound on frames is
/// what keeps a frame header from buying an allocation, for the whole payload
/// that it declares is reserved once it has passed; the bound on messages is
/// for what is put together from several frames.
#[derive(Clone, Copy, PartialEq, Eq, Structural, Debug)]
pub struct Limits {
    pub max_message_size: Option<usize>,
    pub max_frame_size: Option<usize>,
}

/// Whether a size is within a bound; without one, every size is.
pub open spec fn is_within(size: nat, bound: Option<usize>) -> bool {
    bound matches Some(bound) ==> size <= bound
}

/// The length of a message that comes in frames of these lengths.
pub open spec fn total(frames: Seq<nat>) -> nat
    decreases frames.len(),
{
    if frames.len() == 0 {
        0
    } else {
        total(frames.drop_last()) + frames.last()
    }
}

impl Limits {
    /// Whether frames with these lengths in their headers are each within the
    /// bound on frames.
    pub open spec fn admits_headers(self, frames: Seq<nat>) -> bool {
        forall|i: int| 0 <= i < frames.len() ==> is_within(#[trigger] frames[i], self.max_frame_size)
    }

    /// Whether a message may come in frames of these lengths: each frame is
    /// within the bound on frames, and all together are within the bound on
    /// messages.
    pub open spec fn admits(self, frames: Seq<nat>) -> bool {
        self.admits_headers(frames) && is_within(total(frames), self.max_message_size)
    }
}

/// The bounds that a transport starts with.
pub open spec fn default_limits() -> Limits {
    Limits {
        max_message_size: Some(DEFAULT_MAX_MESSAGE_SIZE),
        max_frame_size: Some(DEFAULT_MAX_FRAME_SIZE),
    }
}

/// The lesser of two sizes.
pub open spec fn lesser(a: usize, b: usize) -> usize {
    if a <= b {
        a
    } else {
        b
    }
}

/// The bounds for packets of at most `n` bytes: never above those that a
/// transport starts with.
pub open spec fn limits_for(n: usize) -> Limits {
    Limits {
        max_message_size: Some(lesser(n, DEFAULT_MAX_MESSAGE_SIZE)),
        max_frame_size: Some(lesser(n, DEFAULT_MAX_FRAME_SIZE)),
    }
}

/// Calls `WebSocketConfig::default`, which every transport that is made without
/// a configuration starts from, and takes the two bounds out of it: 64 MiB for
/// a message and 16 MiB for a frame.
#[verifier::external_body]
fn websocket_config_default() -> (r: Limits)
    ensures
        r == default_limits(),
{
    let config = WebSocketConfig::default();
    Limits { max_message_size: config.max_message_size, max_frame_size: config.max_frame_size }
}

/// The address of a socket.
#[derive(Clone, Copy, PartialEq, Eq, Structural, Debug)]
pub enum PeerAddr {
    V4 { ipv4: u32, port: u16 },
    V6 { ipv6: u128, port: u16, flowinfo: u32, scope_id: u32 },
}

/// A WebSocket message.
pub enum WsMessage {
    Text(String),
    Binary(Bytes),
    Ping(Bytes),
    Pong(Bytes),
    Close,
    Frame,
}

/// A message to be sent, and how many milliseconds sending it may take; without
/// a number it may take any time.
pub struct Outgoing {
    pub message: WsMessage,
    pub timeout_ms: Option<u64>,
}

/// How sending came out.
pub enum SendOutcome {
    /// The message was sent.
    Sent,
    /// The time was up.
    TimedOut,
    /// The transport failed, with its words.
    Failed(String),
}

/// Why a message could not be sent.
pub enum SendError {
    /// It could not be encoded, with the encoder's words.
    Encode(String),
    /// The time was up.
    TimedOut,
    /// The transport failed, with its words.
    Transport(String),
}

impl SendError {
    /// The error in words.
    pub open spec fn words(self) -> Seq<char> {
        match self {
            SendError::Encode(text) => text@,
            SendError::TimedOut => "deadline has elapsed"@,
            SendError::Transport(text) => text@,
        }
    }

    /// The error in words.
    pub fn message(&self) -> (r: String)
        ensures
            r@ == self.words(),
    {
        match self {
            SendError::Encode(text) => text.as_str().to_owned(),
            SendError::TimedOut => "deadline has elapsed".to_owned(),
            SendError::Transport(text) => text.as_str().to_owned(),
        }
    }
}

/// Why a message could not be received.
pub enum RecvError {
    /// The transport broke the protocol, with the transport's words.
    Protocol(String),
    /// The message did not pass verification.
    Decryption,
}

impl RecvError {
    /// The error in words.
    pub open spec fn words(self) -> Seq<char> {
        match self {
            RecvError::Protocol(text) => "WebSocket protocol error: "@ + text@,
            RecvError::Decryption => "decryption error"@,
        }
    }

    /// The error in words.
    pub fn message(&self) -> (r: String)
        ensures
            r@ == self.words(),
    {
        match self {
            RecvError::Protocol(text) => {
                let mut words: String = "WebSocket protocol error: ".to_owned();
                words.append(text.as_str());
                words
            },
            RecvError::Decryption => "decryption error".to_owned(),
        }
    }
}

/// What [`WsFramedStream::next`] makes of one event of the transport.
pub enum NextStep {
    /// The event is none of the caller's business: wait for another.
    Wait,
    /// This is what the caller gets: a message, an error, or the end.
    Done(Option<Result<BytesMut, RecvError>>),
}

/// The contents of what the caller gets.
pub enum Delivery {
    Wait,
    End,
    Message(Seq<u8>),
    Failure(RecvError),
}

impl View for NextStep {
    type V = Delivery;

    open spec fn view(&self) -> Delivery {
        match *self {
            NextStep::Wait => Delivery::Wait,
            NextStep::Done(None) => Delivery::End,
            NextStep::Done(Some(Ok(data))) => Delivery::Message(buffers::bytes_mut_contents(data)),
            NextStep::Done(Some(Err(error))) => Delivery::Failure(error),
        }
    }
}

/// An open WebSocket connection, apart from the transport itself.
pub struct WsFramedStream {
    limits: Limits,
    addr: PeerAddr,
    encrypt: Option<Encrypt>,
    send_timeout: u64,
}

/// The contents of [`WsFramedStream`].
#[verifier::ext_equal]
pub struct WsFramedStreamView {
    pub limits: Limits,
    pub addr: PeerAddr,
    pub encrypt: Option<EncryptView>,
    pub send_timeout: u64,
}

impl View for WsFramedStream {
    type V = WsFramedStreamView;

    closed spec fn view(&self) -> WsFramedStreamView {
        WsFramedStreamView {
            limits: self.limits,
            addr: self.addr,
            encrypt: match self.encrypt {
                Some(encrypt) => Some(encrypt@),
                None => None,
            },
            send_timeout: self.send_timeout,
        }
    }
}

impl WsFramedStreamView {
    /// A connection over which nothing was sent yet.
    pub open spec fn opened(addr: PeerAddr, send_timeout: u64) -> WsFramedStreamView {
        WsFramedStreamView { limits: default_limits(), addr, encrypt: None, send_timeout }
    }

    /// Whether the bounds are no wider than those that a transport starts with.
    pub open spec fn is_bounded(self) -> bool {
        &&& self.limits.max_message_size matches Some(n) && n <= DEFAULT_MAX_MESSAGE_SIZE
        &&& self.limits.max_frame_size matches Some(n) && n <= DEFAULT_MAX_FRAME_SIZE
    }

    /// How long sending may take: zero stands for any time.
    pub open spec fn timeout(self) -> Option<u64> {
        if self.send_timeout > 0 {
            Some(self.send_timeout)
        } else {
            None
        }
    }

    /// Whether `message` can be sent.
    pub open spec fn can_send(self, message: Seq<u8>) -> bool {
        self.encrypt matches Some(encrypt) ==> encrypt.can_seal(message)
    }

    /// Whether `payload` is what goes over the wire for `message`: the message
    /// itself, or the sealed message where the connection is secured.
    pub open spec fn carries(self, message: Seq<u8>, payload: Seq<u8>) -> bool {
        match self.encrypt {
            Some(encrypt) => encrypt.seals(message, payload),
            None => payload == message,
        }
    }

    /// The connection after one more message was sent.
    pub open spec fn after_sending(self) -> WsFramedStreamView {
        match self.encrypt {
            Some(encrypt) => WsFramedStreamView { encrypt: Some(encrypt.after_sending()), ..self },
            None => self,
        }
    }

    /// Whether a binary message with this payload can be taken.
    pub open spec fn can_receive(self, payload: Seq<u8>) -> bool {
        self.encrypt matches Some(encrypt) ==> encrypt.can_open(payload)
    }

    /// What the payload of a binary message is delivered as.
    pub open spec fn delivers(self, payload: Seq<u8>) -> Delivery {
        match self.encrypt {
            Some(encrypt) => match encrypt.opens(payload) {
                Some(message) => Delivery::Message(message),
                None => Delivery::Failure(RecvError::Decryption),
            },
            None => Delivery::Message(payload),
        }
    }

    /// The connection after a binary message with this payload was received.
    pub open spec fn after_receiving(self, payload: Seq<u8>) -> WsFramedStreamView {
        match self.encrypt {
            Some(encrypt) => WsFramedStreamView {
                encrypt: Some(encrypt.after_receiving(payload)),
                ..self
            },
            None => self,
        }
    }

    /// Whether the other end, with this state, opens what this end seals next.
    pub open spec fn is_in_step_with(self, other: WsFramedStreamView) -> bool {
        match (self.encrypt, other.encrypt) {
            (Some(sender), Some(receiver)) => {
                &&& sender.key == receiver.key
                &&& sender.sent == receiver.received
            },
            (None, None) => true,
            _ => false,
        }
    }
}

/// What an event of the transport is delivered as: a binary message is opened
/// where the connection is secured, a text message never is, and a closing
/// message or the end of the transport ends the delivery.
pub open spec fn delivery_of(
    stream: WsFramedStreamView,
    incoming: Option<Result<WsMessage, String>>,
) -> Delivery {
    match incoming {
        None => Delivery::End,
        Some(Err(text)) => Delivery::Failure(RecvError::Protocol(text)),
        Some(Ok(WsMessage::Binary(data))) => stream.delivers(buffers::bytes_contents(data)),
        Some(Ok(WsMessage::Text(text))) => Delivery::Message(vstd::utf8::encode_utf8(text@)),
        Some(Ok(WsMessage::Close)) => Delivery::End,
        Some(Ok(_)) => Delivery::Wait,
    }
}

/// The connection after an event of the transport: only a binary message
/// changes it.
pub open spec fn after_event(
    stream: WsFramedStreamView,
    incoming: Option<Result<WsMessage, String>>,
) -> WsFramedStreamView {
    match incoming {
        Some(Ok(WsMessage::Binary(data))) => stream.after_receiving(buffers::bytes_contents(data)),
        _ => stream,
    }
}

/// Whether the connection can take an event of the transport.
pub open spec fn can_take(
    stream: WsFramedStreamView,
    incoming: Option<Result<WsMessage, String>>,
) -> bool {
    match incoming {
        Some(Ok(WsMessage::Binary(data))) => stream.can_receive(buffers::bytes_contents(data)),
        _ => true,
    }
}

impl WsFramedStream {
    /// A connection over a transport to `addr` that is already open. Sending
    /// may take any time.
    pub fn from_tcp_stream(addr: PeerAddr) -> (r: WsFramedStream)
        ensures
            r@ == WsFramedStreamView::opened(addr, 0),
            r@.is_bounded(),
    {
        Self::opened(addr, 0)
    }

    /// A connection over which nothing was sent yet.
    pub(crate) fn opened(addr: PeerAddr, send_timeout: u64) -> (r: WsFramedStream)
        ensures
            r@ == WsFramedStreamView::opened(addr, send_timeout),
    {
        WsFramedStream { limits: websocket_config_default(), addr, encrypt: None, send_timeout }
    }

    /// Sends and receives messages as they are from now on.
    pub fn set_raw(&mut self)
        ensures
            final(self)@ == (WsFramedStreamView { encrypt: None, ..old(self)@ }),
    {
        self.encrypt = None;
    }

    /// Bounds what the transport takes in to packets of at most `n` bytes, as
    /// far as that is less than what it takes in to begin with. Both bounds are
    /// lowered: the one on frames refuses a frame on its header, the one on
    /// messages refuses what several frames add up to.
    pub fn set_max_packet_length(&mut self, n: usize)
        ensures
            final(self)@ == (WsFramedStreamView { limits: limits_for(n), ..old(self)@ }),
            final(self)@.is_bounded(),
    {
        self.limits = Limits {
            max_message_size: Some(
                if n <= DEFAULT_MAX_MESSAGE_SIZE {
                    n
                } else {
                    DEFAULT_MAX_MESSAGE_SIZE
                },
            ),
            max_frame_size: Some(
                if n <= DEFAULT_MAX_FRAME_SIZE {
                    n
                } else {
                    DEFAULT_MAX_FRAME_SIZE
                },
            ),
        };
    }

    /// The bounds that the transport has to hold incoming data to.
    pub fn limits(&self) -> (r: Limits)
        ensures
            r == self@.limits,
    {
        self.limits
    }

    /// The address of the other end.
    pub fn local_addr(&self) -> (r: PeerAddr)
        ensures
            r == self@.addr,
    {
        self.addr
    }

    /// Lets sending take at most `ms` milliseconds; zero stands for any time.
    pub fn set_send_timeout(&mut self, ms: u64)
        ensures
            final(self)@ == (WsFramedStreamView { send_timeout: ms, ..old(self)@ }),
    {
        self.send_timeout = ms;
    }

    /// Seals and opens messages under `key` from now on.
    pub fn set_key(&mut self, key: Key)
        ensures
            final(self)@ == (WsFramedStreamView {
                encrypt: Some(EncryptView::fresh(key.0@)),
                ..old(self)@
            }),
    {
        self.encrypt = Some(Encrypt::new(key));
    }

    /// Whether messages are sealed.
    pub fn is_secured(&self) -> (r: bool)
        ensures
            r == (self@.encrypt is Some),
    {
        self.encrypt.is_some()
    }

    /// Whether `message` can be sent.
    pub fn can_send(&self, message: &[u8]) -> (r: bool)
        ensures
            r == self@.can_send(message@),
    {
        match &self.encrypt {
            Some(encrypt) => encrypt.can_enc(message),
            None => true,
        }
    }

    /// Whether an event of the transport can be taken.
    pub fn can_take(&self, incoming: &Option<Result<WsMessage, String>>) -> (r: bool)
        ensures
            r == can_take(self@, *incoming),
    {
        match incoming {
            Some(Ok(WsMessage::Binary(data))) => match &self.encrypt {
                Some(encrypt) => encrypt.can_dec(bytes_as_slice(data)),
                None => true,
            },
            _ => true,
        }
    }

    /// Sends a message that was encoded, or reports that it could not be.
    pub fn send(&mut self, written: Result<Vec<u8>, String>) -> (r: Result<Outgoing, SendError>)
        requires
            written matches Ok(msg) ==> old(self)@.can_send(msg@),
        ensures
            match (written, r) {
                (Ok(msg), Ok(outgoing)) => {
                    &&& outgoing.message matches WsMessage::Binary(data)
                        && old(self)@.carries(msg@, buffers::bytes_contents(data))
                    &&& outgoing.timeout_ms == old(self)@.timeout()
                    &&& final(self)@ == old(self)@.after_sending()
                },
                (Err(text), Err(error)) => {
                    &&& error == SendError::Encode(text)
                    &&& final(self)@ == old(self)@
                },
                _ => false,
            },
    {
        match written {
            Ok(msg) => Ok(self.send_raw(msg)),
            Err(text) => Err(SendError::Encode(text)),
        }
    }

    /// Sends a message, sealed where the connection is secured.
    pub fn send_raw(&mut self, msg: Vec<u8>) -> (r: Outgoing)
        requires
            old(self)@.can_send(msg@),
        ensures
            r.message matches WsMessage::Binary(data) && old(self)@.carries(
                msg@,
                buffers::bytes_contents(data),
            ),
            r.timeout_ms == old(self)@.timeout(),
            final(self)@ == old(self)@.after_sending(),
    {
        let mut msg: Vec<u8> = msg;
        if let Some(key) = self.encrypt.as_mut() {
            msg = key.enc(msg.as_slice());
        }
        self.send_bytes(bytes_from_vec(msg))
    }

    /// Sends bytes as they are.
    pub fn send_bytes(&self, bytes: Bytes) -> (r: Outgoing)
        ensures
            r.message == WsMessage::Binary(bytes),
            r.timeout_ms == self@.timeout(),
            self@.send_timeout > 0 ==> r.timeout_ms == Some(self@.send_timeout),
            self@.send_timeout == 0 ==> r.timeout_ms is None,
    {
        Outgoing {
            message: WsMessage::Binary(bytes),
            timeout_ms: if self.send_timeout > 0 {
                Some(self.send_timeout)
            } else {
                None
            },
        }
    }

    /// What a caller gets for how sending came out.
    pub fn send_result(outcome: SendOutcome) -> (r: Result<(), SendError>)
        ensures
            match outcome {
                SendOutcome::Sent => r is Ok,
                SendOutcome::TimedOut => r == Err::<(), SendError>(SendError::TimedOut),
                SendOutcome::Failed(text) => r == Err::<(), SendError>(SendError::Transport(text)),
            },
    {
        match outcome {
            SendOutcome::Sent => Ok(()),
            SendOutcome::TimedOut => Err(SendError::TimedOut),
            SendOutcome::Failed(text) => Err(SendError::Transport(text)),
        }
    }

    /// Takes one event of the transport: a message, an error in words, or the
    /// end.
    pub fn next(&mut self, incoming: Option<Result<WsMessage, String>>) -> (r: NextStep)
        requires
            can_take(old(self)@, incoming),
        ensures
            r@ == delivery_of(old(self)@, incoming),
            final(self)@ == after_event(old(self)@, incoming),
    {
        let msg: WsMessage = match incoming {
            None => {
                return NextStep::Done(None);
            },
            Some(Err(text)) => {
                return NextStep::Done(Some(Err(RecvError::Protocol(text))));
            },
            Some(Ok(msg)) => msg,
        };
        match msg {
            WsMessage::Binary(data) => {
                let mut bytes: BytesMut = bytes_mut_from_slice(bytes_as_slice(&data));
                if let Some(key) = self.encrypt.as_mut() {
                    if let Err(_) = key.dec(&mut bytes) {
                        return NextStep::Done(Some(Err(RecvError::Decryption)));
                    }
                }
                NextStep::Done(Some(Ok(bytes)))
            },
            WsMessage::Text(text) => NextStep::Done(
                Some(Ok(bytes_mut_from_slice(text.as_str().as_bytes()))),
            ),
            WsMessage::Close => NextStep::Done(None),
            _ => NextStep::Wait,
        }
    }

    /// What a caller gets that waits for a limited time: what came in time, or
    /// nothing.
    pub fn next_timeout(
        in_time: Option<Option<Result<BytesMut, RecvError>>>,
    ) -> (r: Option<Result<BytesMut, RecvError>>)
        ensures
            match in_time {
                Some(delivered) => r == delivered,
                None => r is None,
            },
    {
        match in_time {
            Some(delivered) => delivered,
            None => None,
        }
    }
}

/// Law: what one end sends, the other end gets, and the two stay in step. The
/// payload is any that [`WsFramedStream::send_raw`] makes of the message.
pub proof fn law_sent_is_received(
    sender: WsFramedStreamView,
    receiver: WsFramedStreamView,
    message: Seq<u8>,
    payload: Seq<u8>,
)
    requires
        sender.is_in_step_with(receiver),
        sender.carries(message, payload),
    ensures
        receiver.delivers(payload) == Delivery::Message(message),
        sender.after_sending().is_in_step_with(receiver.after_receiving(payload)),
{
}

/// The sender after `n` messages.
pub open spec fn sender_after(sender: WsFramedStreamView, n: nat) -> WsFramedStreamView
    decreases n,
{
    if n == 0 {
        sender
    } else {
        sender_after(sender, (n - 1) as nat).after_sending()
    }
}

/// The receiver after the first `n` payloads.
pub open spec fn receiver_after(
    receiver: WsFramedStreamView,
    payloads: Seq<Seq<u8>>,
    n: nat,
) -> WsFramedStreamView
    decreases n,
{
    if n == 0 {
        receiver
    } else {
        receiver_after(receiver, payloads, (n - 1) as nat).after_receiving(payloads[n - 1])
    }
}

/// Law: all that one end sends, the other end gets, in the same order.
pub proof fn law_all_sent_is_received_in_order(
    sender: WsFramedStreamView,
    receiver: WsFramedStreamView,
    messages: Seq<Seq<u8>>,
    payloads: Seq<Seq<u8>>,
)
    requires
        sender.is_in_step_with(receiver),
        messages.len() == payloads.len(),
        forall|i: int|
            0 <= i < messages.len() ==> sender_after(sender, i as nat).carries(
                #[trigger] messages[i],
                payloads[i],
            ),
    ensures
        forall|i: int|
            0 <= i < messages.len() ==> receiver_after(receiver, payloads, i as nat).delivers(
                #[trigger] payloads[i],
            ) == Delivery::Message(messages[i]),
{
    assert forall|i: int| 0 <= i < messages.len() implies receiver_after(
        receiver,
        payloads,
        i as nat,
    ).delivers(#[trigger] payloads[i]) == Delivery::Message(messages[i]) by {
        lemma_in_step_after(sender, receiver, messages, payloads, i as nat);
        law_sent_is_received(
            sender_after(sender, i as nat),
            receiver_after(receiver, payloads, i as nat),
            messages[i],
            payloads[i],
        );
    }
}

proof fn lemma_in_step_after(
    sender: WsFramedStreamView,
    receiver: WsFramedStreamView,
    messages: Seq<Seq<u8>>,
    payloads: Seq<Seq<u8>>,
    n: nat,
)
    requires
        sender.is_in_step_with(receiver),
        n <= messages.len() == payloads.len(),
        forall|i: int|
            0 <= i < messages.len() ==> sender_after(sender, i as nat).carries(
                #[trigger] messages[i],
                payloads[i],
            ),
    ensures
        sender_after(sender, n).is_in_step_with(receiver_after(receiver, payloads, n)),
    decreases n,
{
    if n > 0 {
        lemma_in_step_after(sender, receiver, messages, payloads, (n - 1) as nat);
        law_sent_is_received(
            sender_after(sender, (n - 1) as nat),
            receiver_after(receiver, payloads, (n - 1) as nat),
            messages[n - 1],
            payloads[n - 1],
        );
    }
}

/// Law: two ends that set the same key are in step, each way, whatever was sent
/// before.
pub proof fn law_same_key_brings_into_step(
    a: WsFramedStreamView,
    b: WsFramedStreamView,
    key: Seq<u8>,
)
    ensures
        ({
            let secured_a = WsFramedStreamView { encrypt: Some(EncryptView::fresh(key)), ..a };
            let secured_b = WsFramedStreamView { encrypt: Some(EncryptView::fresh(key)), ..b };
            &&& secured_a.is_in_step_with(secured_b)
            &&& secured_b.is_in_step_with(secured_a)
        }),
{
}

/// Law: between two ends without a key a message goes over the wire as it is.
pub proof fn law_without_key_messages_are_plain(
    sender: WsFramedStreamView,
    receiver: WsFramedStreamView,
    message: Seq<u8>,
    payload: Seq<u8>,
)
    requires
        sender.encrypt is None,
        receiver.encrypt is None,
    ensures
        sender.carries(message, payload) <==> payload == message,
        receiver.delivers(payload) == Delivery::Message(payload),
        sender.after_sending() == sender,
        receiver.after_receiving(payload) == receiver,
{
}

/// Law: an event that the caller does not get to see leaves the connection as
/// it is, and so does every event but a binary message.
pub proof fn law_only_binary_messages_count(
    stream: WsFramedStreamView,
    incoming: Option<Result<WsMessage, String>>,
)
    ensures
        delivery_of(stream, incoming) is Wait ==> after_event(stream, incoming) == stream,
        !(incoming matches Some(Ok(WsMessage::Binary(_)))) ==> after_event(stream, incoming)
            == stream && can_take(stream, incoming),
{
}

/// What the caller gets of a series of events: what the first event is
/// delivered as that does not leave it waiting.
pub open spec fn next_of(
    stream: WsFramedStreamView,
    events: Seq<Option<Result<WsMessage, String>>>,
) -> Delivery
    decreases events.len(),
{
    if events.len() == 0 {
        Delivery::Wait
    } else {
        match delivery_of(stream, events[0]) {
            Delivery::Wait => next_of(after_event(stream, events[0]), events.drop_first()),
            delivery => delivery,
        }
    }
}

/// Whether an event is one that the transport answers by itself.
pub open spec fn is_control(incoming: Option<Result<WsMessage, String>>) -> bool {
    match incoming {
        Some(Ok(WsMessage::Ping(_))) => true,
        Some(Ok(WsMessage::Pong(_))) => true,
        Some(Ok(WsMessage::Frame)) => true,
        _ => false,
    }
}

/// Law: the caller waits through the events that the transport answers by
/// itself, and gets the first other one as if it had come at once.
pub proof fn law_control_events_are_waited_through(
    stream: WsFramedStreamView,
    events: Seq<Option<Result<WsMessage, String>>>,
    k: int,
)
    requires
        0 <= k < events.len(),
        forall|i: int| 0 <= i < k ==> is_control(#[trigger] events[i]),
        !is_control(events[k]),
    ensures
        next_of(stream, events) == delivery_of(stream, events[k]),
        !(next_of(stream, events) is Wait),
    decreases k,
{
    if k > 0 {
        assert(is_control(events[0]));
        assert forall|i: int| 0 <= i < k - 1 implies is_control(
            #[trigger] events.drop_first()[i],
        ) by {
            assert(is_control(events[i + 1]));
        }
        law_control_events_are_waited_through(stream, events.drop_first(), k - 1);
    }
}

/// Law: sending and receiving change nothing but the counts of messages. The
/// other end, the bounds, the time for sending, the key and whether there is
/// one stay as they are.
pub proof fn law_traffic_changes_only_the_counts(
    stream: WsFramedStreamView,
    incoming: Option<Result<WsMessage, String>>,
)
    ensures
        ({
            let sent = stream.after_sending();
            &&& sent == (WsFramedStreamView { encrypt: sent.encrypt, ..stream })
            &&& match (stream.encrypt, sent.encrypt) {
                (Some(before), Some(after)) => after.key == before.key && after.received
                    == before.received && after.sent == before.sent + 1,
                (None, None) => true,
                _ => false,
            }
        }),
        ({
            let received = after_event(stream, incoming);
            &&& received == (WsFramedStreamView { encrypt: received.encrypt, ..stream })
            &&& match (stream.encrypt, received.encrypt) {
                (Some(before), Some(after)) => after.key == before.key && after.sent == before.sent
                    && before.received <= after.received <= before.received + 1,
                (None, None) => true,
                _ => false,
            }
        }),
{
}

/// Law: the bounds for packets of `n` bytes exceed neither `n` nor those that a
/// transport starts with, and a frame is never allowed more than a message.
pub proof fn law_limits_are_within_bounds(n: usize)
    ensures
        limits_for(n).max_message_size matches Some(message) && limits_for(
            n,
        ).max_frame_size matches Some(frame) && message <= n && message
            <= DEFAULT_MAX_MESSAGE_SIZE && frame <= message && frame <= DEFAULT_MAX_FRAME_SIZE,
{
}

/// Law: with packets of at most `n` bytes, the bound on messages is `n` up to
/// 64 MiB and 64 MiB above, and the bound on frames is `n` up to 16 MiB and
/// 16 MiB above.
pub proof fn law_bounds_are_the_length_up_to_the_defaults(n: usize)
    ensures
        n <= 67108864 ==> limits_for(n).max_message_size == Some(n),
        n > 67108864 ==> limits_for(n).max_message_size == Some(67108864usize),
        n <= 16777216 ==> limits_for(n).max_frame_size == Some(n),
        n > 16777216 ==> limits_for(n).max_frame_size == Some(16777216usize),
{
}

/// Law: a connection starts with bounds of 64 MiB on messages and 16 MiB on
/// frames, without a key, with the other end and the time for sending that it was
/// made with.
pub proof fn law_a_connection_starts_with_the_defaults(addr: PeerAddr, send_timeout: u64)
    ensures
        ({
            let stream = WsFramedStreamView::opened(addr, send_timeout);
            &&& stream.limits.max_message_size == Some(67108864usize)
            &&& stream.limits.max_frame_size == Some(16777216usize)
            &&& stream.addr == addr
            &&& stream.encrypt is None
            &&& stream.send_timeout == send_timeout
        }),
{
}

/// Law: with packets of at most `n` bytes, a message may come in some frames
/// exactly where no frame is longer than `n` or 16 MiB, and the message is no
/// longer than `n` or 64 MiB.
pub proof fn law_packets_are_admitted_up_to_their_length(n: usize, frames: Seq<nat>)
    ensures
        limits_for(n).admits_headers(frames) <==> forall|i: int|
            0 <= i < frames.len() ==> #[trigger] frames[i] <= n && frames[i] <= 16777216,
        limits_for(n).admits(frames) <==> {
            &&& forall|i: int|
                0 <= i < frames.len() ==> #[trigger] frames[i] <= n && frames[i] <= 16777216
            &&& total(frames) <= n && total(frames) <= 67108864
        },
{
    let bound = limits_for(n).max_frame_size;
    assert(forall|size: nat|
        #[trigger] is_within(size, bound) <==> size <= n && size <= 16777216);
    assert(limits_for(n).admits_headers(frames) <==> forall|i: int|
        0 <= i < frames.len() ==> is_within(#[trigger] frames[i], bound));
}

/// Law: a message in one frame is admitted exactly where it is no longer than `n`
/// or 16 MiB.
pub proof fn law_a_single_frame_is_admitted_up_to_its_length(n: usize, length: nat)
    ensures
        limits_for(n).admits(seq![length]) <==> length <= n && length <= 16777216,
{
    let frames = seq![length];
    assert(frames.drop_last() =~= Seq::<nat>::empty());
    reveal_with_fuel(total, 2);
    law_packets_are_admitted_up_to_their_length(n, frames);
    assert(frames[0] == length);
}

/// Law: a message that is refused for its first frames is refused whatever
/// frames follow.
pub proof fn law_refusal_stands_whatever_follows(limits: Limits, frames: Seq<nat>, rest: Seq<nat>)
    requires
        !limits.admits(frames),
    ensures
        !limits.admits(frames + rest),
        !limits.admits_headers(frames) ==> !limits.admits_headers(frames + rest),
    decreases rest.len(),
{
    let all = frames + rest;
    if !limits.admits_headers(frames) {
        let i: int = choose|i: int|
            0 <= i < frames.len() && !is_within(#[trigger] frames[i], limits.max_frame_size);
        assert(all[i] == frames[i]);
    } else if rest.len() > 0 {
        law_refusal_stands_whatever_follows(limits, frames, rest.drop_last());
        assert(all.drop_last() =~= frames + rest.drop_last());
        if limits.admits(all) {
            assert forall|i: int| 0 <= i < all.drop_last().len() implies is_within(
                #[trigger] all.drop_last()[i],
                limits.max_frame_size,
            ) by {
                assert(is_within(all[i], limits.max_frame_size));
            }
        }
    } else {
        assert(all =~= frames);
    }
}

/// Whether `words` stand somewhere in `text`.
pub open spec fn mentions(text: Seq<char>, words: Seq<char>) -> bool {
    exists|at: int|
        0 <= at <= text.len() - words.len() && #[trigger] text.subrange(at, at + words.len())
            == words
}

/// Whether an event of the transport is the refusal of a message that is too
/// long.
pub open spec fn is_refusal(incoming: Option<Result<WsMessage, String>>) -> bool {
    incoming matches Some(Err(text)) && mentions(text@, "Message too long"@)
}

/// Whether an event of the transport is a data message with this payload.
pub open spec fn is_data(incoming: Option<Result<WsMessage, String>>, payload: Seq<u8>) -> bool {
    match incoming {
        Some(Ok(WsMessage::Binary(data))) => buffers::bytes_contents(data) == payload,
        Some(Ok(WsMessage::Text(text))) => vstd::utf8::encode_utf8(text@) == payload,
        _ => false,
    }
}

/// Whether a transport with these bounds holds to them when it answers a data
/// message with the event `incoming`. The message comes in frames whose headers
/// declare the lengths `frames`, and `payload` is what has arrived of it. A
/// header over the bound on frames is refused, whatever has arrived. A message
/// that has arrived as a whole is refused where the bounds do not admit it, and
/// handed out where they do.
pub open spec fn holds_to(
    limits: Limits,
    frames: Seq<nat>,
    payload: Seq<u8>,
    incoming: Option<Result<WsMessage, String>>,
) -> bool {
    &&& !limits.admits_headers(frames) ==> is_refusal(incoming)
    &&& payload.len() == total(frames) ==> if limits.admits(frames) {
        is_data(incoming, payload)
    } else {
        is_refusal(incoming)
    }
}

/// Whether a delivery is an error that says that a message is too long.
pub open spec fn is_too_long(delivery: Delivery) -> bool {
    delivery matches Delivery::Failure(error) && mentions(error.words(), "Message too long"@)
}

/// The words for an error of the transport mention what the transport's own
/// words do.
proof fn lemma_protocol_error_mentions(text: String, words: Seq<char>)
    requires
        mentions(text@, words),
    ensures
        mentions(RecvError::Protocol(text).words(), words),
{
    let before = "WebSocket protocol error: "@;
    let at: int = choose|at: int|
        0 <= at <= text@.len() - words.len() && #[trigger] text@.subrange(at, at + words.len())
            == words;
    let whole = before + text@;
    let shifted: int = before.len() + at;
    assert(whole.subrange(shifted, shifted + words.len()) =~= text@.subrange(
        at,
        at + words.len(),
    ));
}

/// Law: over a transport that holds to its bounds, with packets of at most `n`
/// bytes, [`WsFramedStream::next`] gives an error that says so where the header
/// of a frame declares more than `n` or 16 MiB, even before the payload of the
/// frame has arrived. Of a message that has arrived as a whole it gives that
/// error where a frame is longer than that, or the message longer than `n` or
/// 64 MiB. Without a key it gives that error exactly there, and the whole message
/// otherwise.
pub proof fn law_next_refuses_what_is_too_long(
    stream: WsFramedStreamView,
    n: usize,
    frames: Seq<nat>,
    payload: Seq<u8>,
    incoming: Option<Result<WsMessage, String>>,
)
    requires
        stream.limits == limits_for(n),
        holds_to(stream.limits, frames, payload, incoming),
    ensures
        (exists|i: int|
            0 <= i < frames.len() && (#[trigger] frames[i] > n || frames[i] > 16777216))
            ==> is_too_long(delivery_of(stream, incoming)),
        payload.len() == total(frames) ==> {
            let too_long = (exists|i: int|
                0 <= i < frames.len() && (#[trigger] frames[i] > n || frames[i] > 16777216))
                || total(frames) > n || total(frames) > 67108864;
            &&& too_long ==> is_too_long(delivery_of(stream, incoming))
            &&& stream.encrypt is None ==> {
                &&& too_long <==> is_too_long(delivery_of(stream, incoming))
                &&& !too_long <==> delivery_of(stream, incoming) == Delivery::Message(payload)
            }
        },
{
    law_packets_are_admitted_up_to_their_length(n, frames);
    if is_refusal(incoming) {
        if let Some(Err(text)) = incoming {
            lemma_protocol_error_mentions(text, "Message too long"@);
        }
    }
}

/// Law: the largest length puts the transport back where it started.
pub proof fn law_largest_length_restores_the_defaults()
    ensures
        limits_for(usize::MAX) == default_limits(),
{
}

/// Law: sending may take as many milliseconds as were set, and any time where
/// zero was set, on a connection that was made with a number as on one that it was
/// set for later.
pub proof fn law_sending_takes_the_time_that_was_set(
    stream: WsFramedStreamView,
    addr: PeerAddr,
    ms: u64,
)
    ensures
        ms > 0 ==> {
            &&& (WsFramedStreamView { send_timeout: ms, ..stream }).timeout() == Some(ms)
            &&& WsFramedStreamView::opened(addr, ms).timeout() == Some(ms)
        },
        ms == 0 ==> {
            &&& (WsFramedStreamView { send_timeout: ms, ..stream }).timeout() is None
            &&& WsFramedStreamView::opened(addr, ms).timeout() is None
        },
{
}

/// Law: the words of each error. What others said is passed on in full.
pub proof fn law_stream_errors_in_words(text: String)
    ensures
        SendError::Encode(text).words() == text@,
        SendError::Transport(text).words() == text@,
        SendError::TimedOut.words() == "deadline has elapsed"@,
        RecvError::Protocol(text).words() == "WebSocket protocol error: "@ + text@,
        RecvError::Decryption.words() == "decryption error"@,
{
}

/// Law: what [`WsFramedStream::next`] gives is seen as what it holds.
pub proof fn law_a_step_is_seen_as_what_it_holds(data: BytesMut, error: RecvError)
    ensures
        NextStep::Wait@ == Delivery::Wait,
        NextStep::Done(None)@ == Delivery::End,
        NextStep::Done(Some(Ok(data)))@ == Delivery::Message(buffers::bytes_mut_contents(data)),
        NextStep::Done(Some(Err(error)))@ == Delivery::Failure(error),
{
}

/// Law: without a key a message goes over the wire as it is. With a key it goes
/// sealed by `secretbox`, under that key and its own number, and is 16 bytes
/// longer.
pub proof fn law_the_wire_carries_sealed_messages(
    stream: WsFramedStreamView,
    message: Seq<u8>,
    payload: Seq<u8>,
)
    requires
        stream.carries(message, payload),
    ensures
        match stream.encrypt {
            None => payload == message && stream.after_sending() == stream,
            Some(state) => {
                &&& payload == encrypt::secretbox_seal(
                    message,
                    encrypt::nonce_of(state.sent + 1),
                    state.key,
                )
                &&& payload.len() == message.len() + 16
                &&& encrypt::secretbox_open(
                    payload,
                    encrypt::nonce_of(state.sent + 1),
                    state.key,
                ) == Some(message)
                &&& stream.after_sending() == (WsFramedStreamView {
                    encrypt: Some(EncryptView { sent: state.sent + 1, ..state }),
                    ..stream
                })
            },
        },
{
}

/// Law: any message can be sent without a key. With a key it can as long as its
/// number is one that a `u64` holds and 16 bytes more fit in memory.
pub proof fn law_messages_can_be_sent(stream: WsFramedStreamView, message: Seq<u8>)
    ensures
        stream.can_send(message) <==> match stream.encrypt {
            None => true,
            Some(state) => state.sent + 1 <= 18446744073709551615 && message.len() + 16
                <= isize::MAX,
        },
{
}

/// Law: any event can be taken without a key. With a key a binary message of two
/// bytes or more needs a number that a `u64` holds.
pub proof fn law_events_can_be_taken(
    stream: WsFramedStreamView,
    incoming: Option<Result<WsMessage, String>>,
)
    ensures
        can_take(stream, incoming) <==> match (stream.encrypt, incoming) {
            (Some(state), Some(Ok(WsMessage::Binary(data)))) => buffers::bytes_contents(data).len()
                < 2 || state.received + 1 <= 18446744073709551615,
            _ => true,
        },
{
}

/// Law: without a key a binary message is delivered as it is, however long it is,
/// and changes nothing.
pub proof fn law_plain_messages_are_delivered_as_they_are(stream: WsFramedStreamView, data: Bytes)
    requires
        stream.encrypt is None,
    ensures
        delivery_of(stream, Some(Ok(WsMessage::Binary(data)))) == Delivery::Message(
            buffers::bytes_contents(data),
        ),
        after_event(stream, Some(Ok(WsMessage::Binary(data)))) == stream,
{
}

/// Law: with a key a binary message is delivered as what `secretbox` finds in it
/// under that key and its own number, however long it is, and as a failure where
/// it finds nothing. It is counted either way. What is empty or a single byte is
/// delivered as it is, and not counted.
pub proof fn law_sealed_messages_are_delivered_opened(
    stream: WsFramedStreamView,
    state: EncryptView,
    data: Bytes,
)
    requires
        stream.encrypt == Some(state),
    ensures
        ({
            let payload = buffers::bytes_contents(data);
            let delivery = delivery_of(stream, Some(Ok(WsMessage::Binary(data))));
            let after = after_event(stream, Some(Ok(WsMessage::Binary(data))));
            if payload.len() < 2 {
                delivery == Delivery::Message(payload) && after == stream
            } else {
                &&& match encrypt::secretbox_open(
                    payload,
                    encrypt::nonce_of(state.received + 1),
                    state.key,
                ) {
                    Some(message) => delivery == Delivery::Message(message),
                    None => delivery == Delivery::Failure(RecvError::Decryption),
                }
                &&& after == (WsFramedStreamView {
                    encrypt: Some(EncryptView { received: state.received + 1, ..state }),
                    ..stream
                })
            }
        }),
{
}

/// Law: key or no key, text is delivered as its UTF-8 bytes, an error of the
/// transport as a protocol error with its words, and the end or a closing message
/// as the end. Pings, pongs and raw frames are not delivered. None of these
/// changes anything.
pub proof fn law_other_events_are_delivered_key_or_no_key(
    stream: WsFramedStreamView,
    text: String,
    data: Bytes,
)
    ensures
        delivery_of(stream, Some(Ok(WsMessage::Text(text)))) == Delivery::Message(
            vstd::utf8::encode_utf8(text@),
        ),
        delivery_of(stream, Some(Err(text))) == Delivery::Failure(RecvError::Protocol(text)),
        delivery_of(stream, None) == Delivery::End,
        delivery_of(stream, Some(Ok(WsMessage::Close))) == Delivery::End,
        delivery_of(stream, Some(Ok(WsMessage::Ping(data)))) == Delivery::Wait,
        delivery_of(stream, Some(Ok(WsMessage::Pong(data)))) == Delivery::Wait,
        delivery_of(stream, Some(Ok(WsMessage::Frame))) == Delivery::Wait,
        after_event(stream, Some(Ok(WsMessage::Text(text)))) == stream,
        after_event(stream, Some(Err(text))) == stream,
        after_event(stream, None) == stream,
        after_event(stream, Some(Ok(WsMessage::Close))) == stream,
        after_event(stream, Some(Ok(WsMessage::Ping(data)))) == stream,
        after_event(stream, Some(Ok(WsMessage::Pong(data)))) == stream,
        after_event(stream, Some(Ok(WsMessage::Frame))) == stream,
{
}

/// Law: two ends are in step exactly where both are without a key, or both have
/// the same key and the one has received as many messages as the other has sent.
pub proof fn law_in_step_is_same_key_and_count(
    sender: WsFramedStreamView,
    receiver: WsFramedStreamView,
)
    ensures
        sender.is_in_step_with(receiver) <==> match (sender.encrypt, receiver.encrypt) {
            (None, None) => true,
            (Some(a), Some(b)) => a.key == b.key && a.sent == b.received,
            _ => false,
        },
{
}

/// Law: what one end sends, [`WsFramedStream::next`] gives at the other end, with
/// or without a key and however long it is, and the two stay in step.
pub proof fn law_next_gives_what_was_sent(
    sender: WsFramedStreamView,
    receiver: WsFramedStreamView,
    message: Seq<u8>,
    data: Bytes,
)
    requires
        sender.is_in_step_with(receiver),
        sender.carries(message, buffers::bytes_contents(data)),
    ensures
        delivery_of(receiver, Some(Ok(WsMessage::Binary(data)))) == Delivery::Message(message),
        sender.after_sending().is_in_step_with(
            after_event(receiver, Some(Ok(WsMessage::Binary(data)))),
        ),
{
}

/// The receiver after the first `n` binary messages.
pub open spec fn receiver_after_events(
    receiver: WsFramedStreamView,
    data: Seq<Bytes>,
    n: nat,
) -> WsFramedStreamView
    decreases n,
{
    if n == 0 {
        receiver
    } else {
        after_event(
            receiver_after_events(receiver, data, (n - 1) as nat),
            Some(Ok(WsMessage::Binary(data[n - 1]))),
        )
    }
}

/// Law: of all that one end sends, [`WsFramedStream::next`] gives each message at
/// the other end, in the same order, and the two stay in step.
pub proof fn law_next_gives_all_that_was_sent_in_order(
    sender: WsFramedStreamView,
    receiver: WsFramedStreamView,
    messages: Seq<Seq<u8>>,
    data: Seq<Bytes>,
    n: nat,
)
    requires
        sender.is_in_step_with(receiver),
        messages.len() == data.len(),
        forall|i: int|
            0 <= i < messages.len() ==> sender_after(sender, i as nat).carries(
                #[trigger] messages[i],
                buffers::bytes_contents(data[i]),
            ),
        n <= messages.len(),
    ensures
        n < messages.len() ==> delivery_of(
            receiver_after_events(receiver, data, n),
            Some(Ok(WsMessage::Binary(data[n as int]))),
        ) == Delivery::Message(messages[n as int]),
        sender_after(sender, n).is_in_step_with(receiver_after_events(receiver, data, n)),
    decreases n,
{
    if n > 0 {
        law_next_gives_all_that_was_sent_in_order(
            sender,
            receiver,
            messages,
            data,
            (n - 1) as nat,
        );
        assert(sender_after(sender, (n - 1) as nat).carries(
            messages[n - 1],
            buffers::bytes_contents(data[n - 1]),
        ));
        law_next_gives_what_was_sent(
            sender_after(sender, (n - 1) as nat),
            receiver_after_events(receiver, data, (n - 1) as nat),
            messages[n - 1],
            data[n - 1],
        );
    }
    if n < messages.len() {
        assert(sender_after(sender, n).carries(
            messages[n as int],
            buffers::bytes_contents(data[n as int]),
        ));
        law_next_gives_what_was_sent(
            sender_after(sender, n),
            receiver_after_events(receiver, data, n),
            messages[n as int],
            data[n as int],
        );
    }
}

} // verus!
