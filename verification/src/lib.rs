//! The client side of a WebSocket transport: which URL an endpoint is reached
//! under, in which order the TLS settings are tried, and how the messages of an
//! open connection are sealed, bounded and delivered.

pub mod buffers;
pub mod connect;
pub mod encrypt;
pub mod endpoint;
pub mod stream;
pub mod text;
pub mod url;

pub use crate::connect::{
    ConnectAttempt, ConnectError, ConnectOutcome, ConnectStep, ConnectorPlan, TlsType,
    Transport,
};
pub use crate::encrypt::{Encrypt, Key};
pub use crate::endpoint::{host_alone, is_ip_str, is_ipv4_str, is_ipv6_str, split_host_port};
pub use crate::stream::{
    Limits, NextStep, Outgoing, PeerAddr, RecvError, SendError, SendOutcome, WsFramedStream,
    WsMessage,
};
pub use crate::url::{can_check_ws, check_ws, is_ws_endpoint, WsOptions};
