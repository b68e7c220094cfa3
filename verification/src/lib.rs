//! A STUN client library core: the message codec of RFC 8489, the bookkeeping
//! of in-flight transactions for a client that multiplexes requests over one
//! UDP socket, and the probe sequences of RFC 5780 that classify the mapping
//! and filtering behaviour of a NAT.
//!
//! Everything here is synchronous and free of I/O. Sockets, timers and tasks
//! belong to the caller, which feeds events in and carries actions out.

pub mod address;
pub mod client;
pub mod error;
pub mod format;
pub mod kinds;
pub mod laws;
pub mod message;
pub mod nat_behavior_discovery;
pub mod transactions;
pub mod values;
pub mod wire;

pub use address::{IpAddress, SocketAddress};
pub use client::{
    begin_request, finish_request, receive_step, Options, PendingRequest, ReceiveAction,
    ReceiveEvent, RequestEvent, DEFAULT_RECV_BUF_SIZE, DEFAULT_RECV_TIMEOUT_MS,
};
pub use error::STUNClientError;
pub use kinds::{
    Attribute, Class, Method, ATTR_CHANGE_REQUEST, ATTR_ERROR_CODE, ATTR_MAPPED_ADDRESS,
    ATTR_OTHER_ADDRESS, ATTR_RESPONSE_ORIGIN, ATTR_SOFTWARE, ATTR_XOR_MAPPED_ADDRESS,
    CHANGE_REQUEST_IP_FLAG, CHANGE_REQUEST_PORT_FLAG, CLASS_ERROR_RESPONSE, CLASS_INDICATION,
    CLASS_REQUEST, CLASS_SUCCESS_RESPONSE, FAMILY_IPV4, FAMILY_IPV6, HEADER_BYTE_SIZE,
    MAGIC_COOKIE, METHOD_BINDING,
};
pub use message::{encoded_length, Header, Message};
pub use transactions::TransactionTable;
pub use values::ErrorCode;
