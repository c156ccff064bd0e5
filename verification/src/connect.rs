//! How a connection is made: which TLS settings are tried, in which order, and
//! when to give up.
//!
//! A server whose TLS settings are not known yet is tried with Rustls first and
//! with the TLS of the platform next, each time with the certificate checked
//! before it is taken unchecked. What worked is remembered for the next time.

use tungstenite::client::IntoClientRequest;
use tungstenite::http::Request;
use vstd::prelude::*;

use crate::stream::{PeerAddr, WsFramedStream, WsFramedStreamView};

verus! {

/// The HTTP request of the `http` crate.
#[verifier::external_type_specification]
#[verifier::external_body]
#[verifier::reject_recursive_types(T)]
pub struct ExRequest<T>(tungstenite::http::Request<T>);

/// The URI that a request is for, as text.
pub uninterp spec fn request_uri(request: Request<()>) -> Seq<char>;

/// The URI of the request that `into_client_request` makes of a URL, or the
/// words with which it refuses the URL.
pub uninterp spec fn client_request_uri(url: Seq<char>) -> Result<Seq<char>, Seq<char>>;

/// Calls `IntoClientRequest::into_client_request` for a string, and puts an
/// error in words. Whether a request comes out, the URI that it is for, and the
/// words of the error are a function of the URL. Nothing is said of the headers:
/// the host among them is part of the URI, the others are the same in every
/// request but for a key, which is drawn by lot.
#[verifier::external_body]
fn into_client_request(url: &str) -> (r: Result<Request<()>, String>)
    ensures
        match r {
            Ok(request) => client_request_uri(url@) == Ok::<Seq<char>, Seq<char>>(
                request_uri(request),
            ),
            Err(text) => client_request_uri(url@) == Err::<Seq<char>, Seq<char>>(text@),
        },
{
    url.into_client_request().map_err(|e| e.to_string())
}

/// What secures the transport.
#[derive(Clone, Copy, PartialEq, Eq, Structural, Debug)]
pub enum TlsType {
    Plain,
    NativeTls,
    Rustls,
}

/// The settings of one attempt at a connection.
#[derive(Clone, Copy, PartialEq, Eq, Structural, Debug)]
pub struct ConnectAttempt {
    /// What secures the transport.
    pub tls_type: TlsType,
    /// Whether that is known to work for this server.
    pub is_tls_type_cached: bool,
    /// Whether a certificate is taken unchecked. Without an answer it is
    /// checked, and a failure is followed by an attempt without the check.
    pub danger_accept_invalid_cert: Option<bool>,
    /// The answer to that question that the first attempt began with.
    pub original_danger_accept_invalid_certs: Option<bool>,
}

/// The connector that an attempt needs, and whether it takes certificates
/// unchecked.
#[derive(Clone, Copy, PartialEq, Eq, Structural, Debug)]
pub enum ConnectorPlan {
    Plain,
    NativeTls { danger_accept_invalid_certs: bool },
    Rustls { danger_accept_invalid_certs: bool },
}

/// How an attempt came out.
pub enum ConnectOutcome {
    /// The connection is open.
    Connected,
    /// The TLS connector could not be made, with its maker's words.
    BadConnector(String),
    /// The time was up.
    TimedOut,
    /// The connection failed, with the transport's words, and the status of
    /// the HTTP response where one came.
    Refused { text: String, http_status: Option<u16> },
}

/// What follows from the outcome of an attempt.
pub enum ConnectStep {
    /// The connection is open: remember these settings for the server.
    Connected { tls_type: TlsType, accept_invalid_cert: bool },
    /// Make another attempt.
    Retry(ConnectAttempt),
    /// Give up.
    Failed(ConnectError),
}

/// Why there is no connection.
pub enum ConnectError {
    /// No request can be made of the URL.
    Request(String),
    /// The TLS connector could not be made.
    Connector(String),
    /// The time was up.
    TimedOut,
    /// The server redirected the request.
    NotWebSocket(String),
    /// The connection failed.
    WebSocket(String),
    /// The address of the other end could not be found out.
    PeerAddr(String),
    /// The transport is of a kind that is not known.
    UnsupportedStream,
}

impl ConnectError {
    /// The error in words.
    pub open spec fn words(self) -> Seq<char> {
        match self {
            ConnectError::Request(text) => text@,
            ConnectError::Connector(text) => text@,
            ConnectError::TimedOut => "deadline has elapsed"@,
            ConnectError::NotWebSocket(text) => "WebSocket connection failed ("@ + text@
                + "). The server may not support WebSocket."@,
            ConnectError::WebSocket(text) => "WebSocket error: "@ + text@,
            ConnectError::PeerAddr(text) => text@,
            ConnectError::UnsupportedStream => "Unsupported stream type"@,
        }
    }

    /// The error in words.
    pub fn message(&self) -> (r: String)
        ensures
            r@ == self.words(),
    {
        match self {
            ConnectError::Request(text) => text.as_str().to_owned(),
            ConnectError::Connector(text) => text.as_str().to_owned(),
            ConnectError::TimedOut => "deadline has elapsed".to_owned(),
            ConnectError::NotWebSocket(text) => {
                let mut words: String = "WebSocket connection failed (".to_owned();
                words.append(text.as_str());
                words.append("). The server may not support WebSocket.");
                words
            },
            ConnectError::WebSocket(text) => {
                let mut words: String = "WebSocket error: ".to_owned();
                words.append(text.as_str());
                words
            },
            ConnectError::PeerAddr(text) => text.as_str().to_owned(),
            ConnectError::UnsupportedStream => "Unsupported stream type".to_owned(),
        }
    }
}

/// The kind of the transport that a connection was made over, and the address
/// of its other end, or why that could not be found out.
pub enum Transport {
    Plain(Result<PeerAddr, String>),
    NativeTls(Result<PeerAddr, String>),
    Rustls(Result<PeerAddr, String>),
    Other,
}

impl Transport {
    /// The address of the other end.
    pub open spec fn peer(self) -> Result<PeerAddr, ConnectError> {
        match self {
            Transport::Plain(Ok(addr)) => Ok(addr),
            Transport::NativeTls(Ok(addr)) => Ok(addr),
            Transport::Rustls(Ok(addr)) => Ok(addr),
            Transport::Plain(Err(text)) => Err(ConnectError::PeerAddr(text)),
            Transport::NativeTls(Err(text)) => Err(ConnectError::PeerAddr(text)),
            Transport::Rustls(Err(text)) => Err(ConnectError::PeerAddr(text)),
            Transport::Other => Err(ConnectError::UnsupportedStream),
        }
    }
}

/// The answer to a question that is answered with no where it is open.
pub open spec fn or_no(answer: Option<bool>) -> bool {
    answer == Some(true)
}

/// Whether an HTTP status redirects the client.
pub open spec fn is_redirection(status: u16) -> bool {
    300 <= status < 400
}

/// The connector for a TLS type.
pub open spec fn connector_for(
    tls_type: TlsType,
    danger_accept_invalid_certs: bool,
) -> ConnectorPlan {
    match tls_type {
        TlsType::Plain => ConnectorPlan::Plain,
        TlsType::NativeTls => ConnectorPlan::NativeTls { danger_accept_invalid_certs },
        TlsType::Rustls => ConnectorPlan::Rustls { danger_accept_invalid_certs },
    }
}

/// The attempt that a connection begins with: with Rustls where nothing is
/// known of the server.
pub open spec fn first_attempt(
    cached_tls_type: Option<TlsType>,
    cached_accept_invalid_cert: Option<bool>,
) -> ConnectAttempt {
    ConnectAttempt {
        tls_type: match cached_tls_type {
            Some(tls_type) => tls_type,
            None => TlsType::Rustls,
        },
        is_tls_type_cached: cached_tls_type is Some,
        danger_accept_invalid_cert: cached_accept_invalid_cert,
        original_danger_accept_invalid_certs: cached_accept_invalid_cert,
    }
}

impl ConnectAttempt {
    /// The attempt that follows when this one is refused.
    pub open spec fn fallback(self) -> Option<ConnectAttempt> {
        if self.tls_type is Plain {
            None
        } else if self.danger_accept_invalid_cert is None {
            // Take the certificate unchecked.
            Some(ConnectAttempt { danger_accept_invalid_cert: Some(true), ..self })
        } else if self.tls_type is Rustls && !self.is_tls_type_cached {
            // Start over with the TLS of the platform.
            Some(
                ConnectAttempt {
                    tls_type: TlsType::NativeTls,
                    danger_accept_invalid_cert: self.original_danger_accept_invalid_certs,
                    ..self
                },
            )
        } else {
            None
        }
    }

    /// How many more attempts may follow this one.
    pub open spec fn fallbacks_left(self) -> nat {
        let unchecked: nat = if self.danger_accept_invalid_cert is None {
            1
        } else {
            0
        };
        let unchecked_natively: nat = if self.original_danger_accept_invalid_certs is None {
            1
        } else {
            0
        };
        match self.tls_type {
            TlsType::Plain => 0,
            TlsType::NativeTls => unchecked,
            TlsType::Rustls => if self.is_tls_type_cached {
                unchecked
            } else {
                unchecked + 1 + unchecked_natively
            },
        }
    }

    /// This attempt and all that follow when each is refused.
    pub open spec fn series(self) -> Seq<ConnectAttempt>
        decreases self.fallbacks_left(),
    {
        match self.fallback() {
            Some(next) => seq![self] + next.series(),
            None => seq![self],
        }
    }

    /// Whether a certificate is taken unchecked.
    pub fn accept_invalid_certs(&self) -> (r: bool)
        ensures
            r == or_no(self.danger_accept_invalid_cert),
            match self.danger_accept_invalid_cert {
                Some(answer) => r == answer,
                None => !r,
            },
    {
        match self.danger_accept_invalid_cert {
            Some(accept) => accept,
            None => false,
        }
    }
}

/// What follows from the outcome of an attempt: only a refusal is followed by
/// another attempt.
pub open spec fn step_after(attempt: ConnectAttempt, outcome: ConnectOutcome) -> ConnectStep {
    match outcome {
        ConnectOutcome::Connected => ConnectStep::Connected {
            tls_type: attempt.tls_type,
            accept_invalid_cert: or_no(attempt.danger_accept_invalid_cert),
        },
        ConnectOutcome::BadConnector(text) => ConnectStep::Failed(ConnectError::Connector(text)),
        ConnectOutcome::TimedOut => ConnectStep::Failed(ConnectError::TimedOut),
        ConnectOutcome::Refused { text, http_status } => match attempt.fallback() {
            Some(next) => ConnectStep::Retry(next),
            None => if http_status matches Some(status) && is_redirection(status) {
                ConnectStep::Failed(ConnectError::NotWebSocket(text))
            } else {
                ConnectStep::Failed(ConnectError::WebSocket(text))
            },
        },
    }
}

impl WsFramedStream {
    /// Makes the request for a URL. Two requests for one URL may differ in the
    /// key that they hold.
    pub fn client_request(url: &str) -> (r: Result<Request<()>, ConnectError>)
        ensures
            match r {
                Ok(request) => client_request_uri(url@) == Ok::<Seq<char>, Seq<char>>(
                    request_uri(request),
                ),
                Err(ConnectError::Request(text)) => client_request_uri(url@) == Err::<
                    Seq<char>,
                    Seq<char>,
                >(text@),
                Err(_) => false,
            },
    {
        match into_client_request(url) {
            Ok(request) => Ok(request),
            Err(text) => Err(ConnectError::Request(text)),
        }
    }

    /// The connector that an attempt needs.
    pub fn get_connector(tls_type: &TlsType, danger_accept_invalid_certs: bool) -> (r:
        ConnectorPlan)
        ensures
            r == connector_for(*tls_type, danger_accept_invalid_certs),
    {
        match tls_type {
            TlsType::Plain => ConnectorPlan::Plain,
            TlsType::NativeTls => ConnectorPlan::NativeTls { danger_accept_invalid_certs },
            TlsType::Rustls => ConnectorPlan::Rustls { danger_accept_invalid_certs },
        }
    }

    /// The connector to use, from the one that was made for a plan or the words
    /// why none could be made. Without one for Rustls, the transport uses the
    /// one it has by default.
    pub fn connector_made<C>(plan: &ConnectorPlan, made: Result<C, String>) -> (r: Result<
        Option<C>,
        String,
    >)
        ensures
            match made {
                Ok(connector) => r == Ok::<Option<C>, String>(Some(connector)),
                Err(text) => if *plan is Rustls {
                    r == Ok::<Option<C>, String>(None)
                } else {
                    r == Err::<Option<C>, String>(text)
                },
            },
    {
        match made {
            Ok(connector) => Ok(Some(connector)),
            Err(text) => match plan {
                ConnectorPlan::Rustls { .. } => Ok(None),
                _ => Err(text),
            },
        }
    }

    /// The attempt that a connection begins with, from what is remembered of
    /// the server.
    pub fn connect(
        cached_tls_type: Option<TlsType>,
        cached_accept_invalid_cert: Option<bool>,
    ) -> (r: ConnectAttempt)
        ensures
            r == first_attempt(cached_tls_type, cached_accept_invalid_cert),
    {
        let is_tls_type_cached: bool = cached_tls_type.is_some();
        let tls_type: TlsType = match cached_tls_type {
            Some(tls_type) => tls_type,
            None => TlsType::Rustls,
        };
        ConnectAttempt {
            tls_type,
            is_tls_type_cached,
            danger_accept_invalid_cert: cached_accept_invalid_cert,
            original_danger_accept_invalid_certs: cached_accept_invalid_cert,
        }
    }

    /// Decides what follows from the outcome of an attempt.
    pub fn try_connect(attempt: ConnectAttempt, outcome: ConnectOutcome) -> (r: ConnectStep)
        ensures
            r == step_after(attempt, outcome),
    {
        let (text, http_status): (String, Option<u16>) = match outcome {
            ConnectOutcome::Connected => {
                return ConnectStep::Connected {
                    tls_type: attempt.tls_type,
                    accept_invalid_cert: attempt.accept_invalid_certs(),
                };
            },
            ConnectOutcome::BadConnector(text) => {
                return ConnectStep::Failed(ConnectError::Connector(text));
            },
            ConnectOutcome::TimedOut => {
                return ConnectStep::Failed(ConnectError::TimedOut);
            },
            ConnectOutcome::Refused { text, http_status } => (text, http_status),
        };
        match (
            attempt.tls_type,
            attempt.is_tls_type_cached,
            attempt.danger_accept_invalid_cert,
        ) {
            (TlsType::Rustls, _, None) => ConnectStep::Retry(
                ConnectAttempt { danger_accept_invalid_cert: Some(true), ..attempt },
            ),
            (TlsType::Rustls, false, Some(_)) => ConnectStep::Retry(
                ConnectAttempt {
                    tls_type: TlsType::NativeTls,
                    danger_accept_invalid_cert: attempt.original_danger_accept_invalid_certs,
                    ..attempt
                },
            ),
            (TlsType::NativeTls, _, None) => ConnectStep::Retry(
                ConnectAttempt { danger_accept_invalid_cert: Some(true), ..attempt },
            ),
            _ => {
                if let Some(status) = http_status {
                    if 300 <= status && status < 400 {
                        return ConnectStep::Failed(ConnectError::NotWebSocket(text));
                    }
                }
                ConnectStep::Failed(ConnectError::WebSocket(text))
            },
        }
    }

    /// A connection over a transport that was opened. Sending may take as long
    /// as connecting might have.
    pub fn new(transport: Transport, ms_timeout: u64) -> (r: Result<WsFramedStream, ConnectError>)
        ensures
            match transport.peer() {
                Ok(addr) => r matches Ok(stream) && stream@ == WsFramedStreamView::opened(
                    addr,
                    ms_timeout,
                ) && stream@.is_bounded(),
                Err(error) => r == Err::<WsFramedStream, ConnectError>(error),
            },
    {
        let found: Result<PeerAddr, String> = match transport {
            Transport::Plain(found) => found,
            Transport::NativeTls(found) => found,
            Transport::Rustls(found) => found,
            Transport::Other => {
                return Err(ConnectError::UnsupportedStream);
            },
        };
        match found {
            Ok(addr) => Ok(WsFramedStream::opened(addr, ms_timeout)),
            Err(text) => Err(ConnectError::PeerAddr(text)),
        }
    }
}

/// Law: the attempts come to an end. Each refusal leaves fewer attempts to
/// follow, and no connection takes more than four.
pub proof fn law_attempts_come_to_an_end(attempt: ConnectAttempt)
    ensures
        attempt.fallback() matches Some(next) ==> next.fallbacks_left() < attempt.fallbacks_left(),
        attempt.fallback() is None <==> attempt.fallbacks_left() == 0,
        attempt.series().len() == attempt.fallbacks_left() + 1,
        attempt.series().len() <= 4,
    decreases attempt.fallbacks_left(),
{
    if let Some(next) = attempt.fallback() {
        law_attempts_come_to_an_end(next);
    }
}

/// The TLS types and answers of the attempts that follow from what is
/// remembered of a server, in order.
pub open spec fn order_of_attempts(
    cached_tls_type: Option<TlsType>,
    cached_accept_invalid_cert: Option<bool>,
) -> Seq<(TlsType, Option<bool>)> {
    match (cached_tls_type, cached_accept_invalid_cert) {
        (None, None) => seq![
            (TlsType::Rustls, None),
            (TlsType::Rustls, Some(true)),
            (TlsType::NativeTls, None),
            (TlsType::NativeTls, Some(true)),
        ],
        (None, Some(accept)) => seq![
            (TlsType::Rustls, Some(accept)),
            (TlsType::NativeTls, Some(accept)),
        ],
        (Some(TlsType::Plain), answer) => seq![(TlsType::Plain, answer)],
        (Some(tls_type), None) => seq![(tls_type, None), (tls_type, Some(true))],
        (Some(tls_type), Some(accept)) => seq![(tls_type, Some(accept))],
    }
}

/// Law: the attempts are made in this order, whatever is remembered of the
/// server. A TLS type that is remembered is kept, an answer about certificates
/// that is remembered is kept, and certificates are checked before they are
/// taken unchecked.
pub proof fn law_attempts_are_made_in_order(
    cached_tls_type: Option<TlsType>,
    cached_accept_invalid_cert: Option<bool>,
)
    ensures
        first_attempt(cached_tls_type, cached_accept_invalid_cert).series().map_values(
            |attempt: ConnectAttempt| (attempt.tls_type, attempt.danger_accept_invalid_cert),
        ) == order_of_attempts(cached_tls_type, cached_accept_invalid_cert),
{
    reveal_with_fuel(ConnectAttempt::series, 5);
}

/// Law: no refusal leads to a connection without TLS, and one without TLS leads
/// to no other attempt.
pub proof fn law_no_fallback_drops_tls(attempt: ConnectAttempt)
    ensures
        attempt.fallback() matches Some(next) ==> !(next.tls_type is Plain) && !(
        attempt.tls_type is Plain),
{
}

/// Law: an attempt that takes certificates unchecked, where the server gave no
/// reason to beforehand, follows a refusal of one that was alike but for the
/// check.
pub proof fn law_unchecked_follows_checked(attempt: ConnectAttempt, next: ConnectAttempt)
    requires
        attempt.fallback() == Some(next),
        or_no(next.danger_accept_invalid_cert),
        !or_no(next.original_danger_accept_invalid_certs),
    ensures
        attempt == (ConnectAttempt { danger_accept_invalid_cert: None, ..next }),
{
}

/// Law: nothing but a refusal is followed by another attempt, and that attempt
/// is the fallback.
pub proof fn law_only_refusals_are_retried(
    attempt: ConnectAttempt,
    outcome: ConnectOutcome,
    next: ConnectAttempt,
)
    ensures
        step_after(attempt, outcome) == ConnectStep::Retry(next) <==> outcome is Refused
            && attempt.fallback() == Some(next),
{
}

/// Law: a connection is remembered by the settings that it was made with, and
/// the next one begins with them and does not leave them.
pub proof fn law_what_worked_is_tried_next(
    attempt: ConnectAttempt,
    tls_type: TlsType,
    accept_invalid_cert: bool,
)
    requires
        step_after(attempt, ConnectOutcome::Connected) == (ConnectStep::Connected {
            tls_type,
            accept_invalid_cert,
        }),
    ensures
        ({
            let next = first_attempt(Some(tls_type), Some(accept_invalid_cert));
            &&& next.tls_type == attempt.tls_type
            &&& or_no(next.danger_accept_invalid_cert) == or_no(attempt.danger_accept_invalid_cert)
            &&& next.series() == seq![next]
        }),
{
}

/// Law: the answer about certificates is what the connector is made with and
/// what a connection is remembered with. Without an answer both are no.
pub proof fn law_the_answer_is_kept(attempt: ConnectAttempt)
    ensures
        or_no(Some(true)) == true,
        or_no(Some(false)) == false,
        or_no(None) == false,
        attempt.danger_accept_invalid_cert == Some(true) ==> step_after(
            attempt,
            ConnectOutcome::Connected,
        ) == (ConnectStep::Connected { tls_type: attempt.tls_type, accept_invalid_cert: true }),
        attempt.danger_accept_invalid_cert == Some(false) ==> step_after(
            attempt,
            ConnectOutcome::Connected,
        ) == (ConnectStep::Connected { tls_type: attempt.tls_type, accept_invalid_cert: false }),
        attempt.danger_accept_invalid_cert is None ==> step_after(
            attempt,
            ConnectOutcome::Connected,
        ) == (ConnectStep::Connected { tls_type: attempt.tls_type, accept_invalid_cert: false }),
{
}

/// Law: a connector is of the type that is asked for, and checks certificates
/// unless it is told not to. One without TLS has none to check.
pub proof fn law_a_connector_is_as_asked_for(accept: bool)
    ensures
        connector_for(TlsType::Plain, accept) == ConnectorPlan::Plain,
        connector_for(TlsType::NativeTls, true) == (ConnectorPlan::NativeTls {
            danger_accept_invalid_certs: true,
        }),
        connector_for(TlsType::NativeTls, false) == (ConnectorPlan::NativeTls {
            danger_accept_invalid_certs: false,
        }),
        connector_for(TlsType::Rustls, true) == (ConnectorPlan::Rustls {
            danger_accept_invalid_certs: true,
        }),
        connector_for(TlsType::Rustls, false) == (ConnectorPlan::Rustls {
            danger_accept_invalid_certs: false,
        }),
{
}

/// Law: a connection begins with what is remembered of the server: its TLS type,
/// and Rustls where none is, and the answer about certificates, for this attempt
/// and for one that starts over.
pub proof fn law_a_connection_begins_with_what_is_remembered(
    tls_type: TlsType,
    answer: Option<bool>,
)
    ensures
        first_attempt(Some(tls_type), answer).tls_type == tls_type,
        first_attempt(Some(tls_type), answer).is_tls_type_cached,
        first_attempt(Some(tls_type), answer).danger_accept_invalid_cert == answer,
        first_attempt(Some(tls_type), answer).original_danger_accept_invalid_certs == answer,
        first_attempt(None, answer).tls_type == TlsType::Rustls,
        !first_attempt(None, answer).is_tls_type_cached,
        first_attempt(None, answer).danger_accept_invalid_cert == answer,
        first_attempt(None, answer).original_danger_accept_invalid_certs == answer,
{
}

/// Law: an attempt over TLS that checked the certificate without having been told
/// to, and was refused, is made once more with the certificate taken unchecked,
/// whatever the refusal says. Nothing else about it changes.
pub proof fn law_a_refused_check_is_dropped(
    attempt: ConnectAttempt,
    text: String,
    http_status: Option<u16>,
)
    requires
        attempt.tls_type == TlsType::Rustls || attempt.tls_type == TlsType::NativeTls,
        attempt.danger_accept_invalid_cert is None,
    ensures
        step_after(attempt, (ConnectOutcome::Refused { text, http_status })) matches
            ConnectStep::Retry(next) && next.tls_type == attempt.tls_type
            && next.is_tls_type_cached == attempt.is_tls_type_cached
            && next.danger_accept_invalid_cert == Some(true)
            && next.original_danger_accept_invalid_certs
            == attempt.original_danger_accept_invalid_certs,
{
}

/// Law: an attempt with Rustls that had an answer about certificates, and was
/// refused, starts over with the TLS of the platform and the first answer, where
/// Rustls is not known to work for the server.
pub proof fn law_refused_rustls_starts_over_natively(
    attempt: ConnectAttempt,
    text: String,
    http_status: Option<u16>,
)
    requires
        attempt.tls_type == TlsType::Rustls,
        !attempt.is_tls_type_cached,
        attempt.danger_accept_invalid_cert is Some,
    ensures
        step_after(attempt, (ConnectOutcome::Refused { text, http_status })) matches
            ConnectStep::Retry(next) && next.tls_type == TlsType::NativeTls
            && !next.is_tls_type_cached && next.danger_accept_invalid_cert
            == attempt.original_danger_accept_invalid_certs
            && next.original_danger_accept_invalid_certs
            == attempt.original_danger_accept_invalid_certs,
{
}

/// Law: any other refusal is final. It says that the server may not support
/// WebSocket where the response had a status from 300 to 399, and gives the
/// transport's words in any case.
pub proof fn law_any_other_refusal_is_final(
    attempt: ConnectAttempt,
    text: String,
    http_status: Option<u16>,
)
    requires
        ({
            ||| attempt.tls_type == TlsType::Plain
            ||| attempt.tls_type == TlsType::NativeTls && attempt.danger_accept_invalid_cert is Some
            ||| attempt.is_tls_type_cached && attempt.danger_accept_invalid_cert is Some
        }),
    ensures
        (http_status matches Some(status) && status >= 300 && status <= 399) ==> step_after(
            attempt,
            (ConnectOutcome::Refused { text, http_status }),
        ) == ConnectStep::Failed(ConnectError::NotWebSocket(text)),
        !(http_status matches Some(status) && status >= 300 && status <= 399) ==> step_after(
            attempt,
            (ConnectOutcome::Refused { text, http_status }),
        ) == ConnectStep::Failed(ConnectError::WebSocket(text)),
{
}

/// Law: a connector that cannot be made and a time that is up are final, whatever
/// the attempt.
pub proof fn law_no_connector_and_no_time_are_final(attempt: ConnectAttempt, text: String)
    ensures
        step_after(attempt, ConnectOutcome::BadConnector(text)) == ConnectStep::Failed(
            ConnectError::Connector(text),
        ),
        step_after(attempt, ConnectOutcome::TimedOut) == ConnectStep::Failed(
            ConnectError::TimedOut,
        ),
{
}

/// Law: the words of each error. What others said is passed on in full.
pub proof fn law_connect_errors_in_words(text: String)
    ensures
        ConnectError::Request(text).words() == text@,
        ConnectError::Connector(text).words() == text@,
        ConnectError::PeerAddr(text).words() == text@,
        ConnectError::TimedOut.words() == "deadline has elapsed"@,
        ConnectError::UnsupportedStream.words() == "Unsupported stream type"@,
        ConnectError::WebSocket(text).words() == "WebSocket error: "@ + text@,
        ConnectError::NotWebSocket(text).words() == "WebSocket connection failed ("@ + text@
            + "). The server may not support WebSocket."@,
{
}

/// Law: the other end is the one that the transport names, whatever secures it,
/// and an address that the transport cannot name is passed on as its words.
pub proof fn law_the_peer_is_the_one_that_the_transport_names(addr: PeerAddr, text: String)
    ensures
        Transport::Plain(Ok(addr)).peer() == Ok::<PeerAddr, ConnectError>(addr),
        Transport::NativeTls(Ok(addr)).peer() == Ok::<PeerAddr, ConnectError>(addr),
        Transport::Rustls(Ok(addr)).peer() == Ok::<PeerAddr, ConnectError>(addr),
        Transport::Plain(Err(text)).peer() == Err::<PeerAddr, ConnectError>(
            ConnectError::PeerAddr(text),
        ),
        Transport::NativeTls(Err(text)).peer() == Err::<PeerAddr, ConnectError>(
            ConnectError::PeerAddr(text),
        ),
        Transport::Rustls(Err(text)).peer() == Err::<PeerAddr, ConnectError>(
            ConnectError::PeerAddr(text),
        ),
        Transport::Other.peer() == Err::<PeerAddr, ConnectError>(ConnectError::UnsupportedStream),
{
}

} // verus!
