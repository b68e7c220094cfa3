//! The decisions of a STUN client that shares one UDP socket among its
//! requests: what a request puts on the wire and how it ends, and what the
//! receive task does with what the socket hands it.
//!
//! The socket, the timer and the channels belong to the caller. A request
//! begins with [`begin_request`], which registers the sink of the response
//! before it hands out the datagram to send, and ends with
//! [`finish_request`], which takes the sink out of the table again on every
//! way out. The receive task asks [`receive_step`] what to do with each
//! event.

use std::collections::HashMap;
use vstd::prelude::*;

use crate::error::{ErrorView, STUNClientError};
use crate::format::{attributes_length, decode_message, is_encoding_of, MessageView};
use crate::kinds::{Class, Method, HEADER_BYTE_SIZE, TRANSACTION_ID_BYTE_SIZE};
use crate::laws::lemma_message_roundtrip;
use crate::message::{attributes_view, Message};
use crate::transactions::{is_listing_of, TransactionTable};

verus! {

/// For how long a request waits for its response, unless the options say
/// otherwise: three seconds.
pub const DEFAULT_RECV_TIMEOUT_MS: u64 = 3000;

/// The size of the buffer that a datagram is received into, unless the
/// options say otherwise.
pub const DEFAULT_RECV_BUF_SIZE: usize = 1024;

/// STUN client options.
#[derive(Clone, Debug)]
pub struct Options {
    pub recv_timeout_ms: u64,
    pub recv_buf_size: usize,
}

impl Default for Options {
    fn default() -> (options: Self)
        ensures
            options.recv_timeout_ms == DEFAULT_RECV_TIMEOUT_MS,
            options.recv_buf_size == DEFAULT_RECV_BUF_SIZE,
    {
        Options { recv_timeout_ms: DEFAULT_RECV_TIMEOUT_MS, recv_buf_size: DEFAULT_RECV_BUF_SIZE }
    }
}

impl Options {
    /// The options that a client works with: the given ones, or the
    /// defaults where none are given.
    pub fn or_default(opts: Option<Options>) -> (options: Options)
        ensures
            options == match opts {
                Some(given) => given,
                None => Options {
                    recv_timeout_ms: DEFAULT_RECV_TIMEOUT_MS,
                    recv_buf_size: DEFAULT_RECV_BUF_SIZE,
                },
            },
    {
        match opts {
            Some(given) => given,
            None => Options::default(),
        }
    }
}

/// What wakes the receive task.
pub enum ReceiveEvent<'a> {
    /// A datagram has arrived.
    Datagram(&'a [u8]),
    /// Receiving from the socket has failed.
    SocketError(std::io::Error),
    /// The client is being dropped.
    Stop,
}

/// What the receive task does next.
pub enum ReceiveAction<'a, S> {
    /// Hand the response to the sink of its request.
    Deliver { sink: &'a S, message: Message },
    /// Hand a copy of the error to every sink.
    Broadcast { sinks: Vec<&'a S>, error: STUNClientError },
    /// Nothing: no request waits for this response.
    Ignore,
    /// Return.
    Exit,
}

impl<'a> View for ReceiveEvent<'a> {
    type V = ReceiveEventView;

    open spec fn view(&self) -> ReceiveEventView {
        match self {
            ReceiveEvent::Datagram(datagram) => ReceiveEventView::Datagram(datagram@),
            ReceiveEvent::SocketError(_) => ReceiveEventView::SocketError,
            ReceiveEvent::Stop => ReceiveEventView::Stop,
        }
    }
}

/// What wakes the receive task, without the operating system's error.
pub enum ReceiveEventView {
    Datagram(Seq<u8>),
    SocketError,
    Stop,
}

/// Where an event goes.
pub enum Routing<S> {
    /// The response goes to this sink.
    Deliver { sink: S, message: MessageView },
    /// The error goes to every sink in the table.
    Broadcast { error: ErrorView },
    /// The response goes nowhere.
    Ignore,
    /// The receive task ends.
    Exit,
}

/// Where an event goes, with the given requests in flight. A datagram that
/// is a message goes to the sink that waits under its transaction id, and
/// nowhere where none waits. A datagram that is no message fails every
/// request in flight with a `ParseError`, and a failure of the socket with
/// an `IOError`. The stop signal ends the task.
pub open spec fn routing<S>(table: Map<Seq<u8>, S>, event: ReceiveEventView) -> Routing<S> {
    match event {
        ReceiveEventView::Stop => Routing::Exit,
        ReceiveEventView::SocketError => Routing::Broadcast { error: ErrorView::Io },
        ReceiveEventView::Datagram(datagram) => match decode_message(datagram) {
            None => Routing::Broadcast { error: ErrorView::Parse },
            Some(response) => if table.contains_key(response.header.transaction_id) {
                Routing::Deliver {
                    sink: table[response.header.transaction_id],
                    message: response,
                }
            } else {
                Routing::Ignore
            },
        },
    }
}

impl<'a, S> ReceiveAction<'a, S> {
    /// Whether the action takes the event where `routing` says, with the
    /// requests of `table` in flight.
    pub open spec fn follows(self, routing: Routing<S>, table: Map<Seq<u8>, S>) -> bool {
        match routing {
            Routing::Deliver { sink, message } => self matches ReceiveAction::Deliver {
                sink: to,
                message: response,
            } && *to == sink && response@ == message,
            Routing::Broadcast { error } => self matches ReceiveAction::Broadcast {
                sinks,
                error: cause,
            } && cause@ == error && is_listing_of(sinks@.unref(), table),
            Routing::Ignore => self is Ignore,
            Routing::Exit => self is Exit,
        }
    }
}

/// What the receive task does with an event: it takes the event where
/// [`routing`] says. A socket error is handed on inside the `IOError`.
pub fn receive_step<'a, S>(table: &'a TransactionTable<S>, event: ReceiveEvent<'_>) -> (action:
    ReceiveAction<'a, S>)
    ensures
        action.follows(routing(table@, event@), table@),
        event matches ReceiveEvent::SocketError(e) ==> action matches ReceiveAction::Broadcast {
            error,
            ..
        } && error == STUNClientError::IOError(e),
{
    match event {
        ReceiveEvent::Stop => ReceiveAction::Exit,
        ReceiveEvent::SocketError(e) => ReceiveAction::Broadcast {
            sinks: table.sinks(),
            error: STUNClientError::IOError(e),
        },
        ReceiveEvent::Datagram(datagram) => match Message::from_raw(datagram) {
            Ok(message) => {
                let transaction_id = message.get_transaction_id();
                match table.get(transaction_id.as_slice()) {
                    Some(sink) => ReceiveAction::Deliver { sink, message },
                    None => ReceiveAction::Ignore,
                }
            },
            Err(error) => ReceiveAction::Broadcast { sinks: table.sinks(), error },
        },
    }
}

/// A response reaches the request it answers, and no other: whatever the
/// order in which a server wrote the attributes of a canonical message, the
/// datagram goes to the sink that waits under the transaction id of the
/// message, and the message arrives as it was written.
pub proof fn lemma_response_reaches_its_request<S>(
    table: Map<Seq<u8>, S>,
    response: MessageView,
    datagram: Seq<u8>,
)
    requires
        response.canonical(),
        is_encoding_of(datagram, response),
        table.contains_key(response.header.transaction_id),
    ensures
        routing(table, ReceiveEventView::Datagram(datagram)) == (Routing::Deliver {
            sink: table[response.header.transaction_id],
            message: response,
        }),
{
    lemma_message_roundtrip(response, datagram);
}

/// A response that no request waits for goes nowhere.
pub proof fn lemma_unsolicited_response_ignored<S>(
    table: Map<Seq<u8>, S>,
    response: MessageView,
    datagram: Seq<u8>,
)
    requires
        response.canonical(),
        is_encoding_of(datagram, response),
        !table.contains_key(response.header.transaction_id),
    ensures
        routing(table, ReceiveEventView::Datagram(datagram)) == Routing::<S>::Ignore,
{
    lemma_message_roundtrip(response, datagram);
}

/// Two requests in flight get each its own response, in whichever order
/// the responses arrive: the table is the same before and after a
/// response, and each response goes to the sink of its own request.
pub proof fn lemma_concurrent_requests<S>(
    table: Map<Seq<u8>, S>,
    first: S,
    second: S,
    to_first: MessageView,
    to_second: MessageView,
    first_datagram: Seq<u8>,
    second_datagram: Seq<u8>,
)
    requires
        to_first.canonical(),
        to_second.canonical(),
        to_first.header.transaction_id != to_second.header.transaction_id,
        is_encoding_of(first_datagram, to_first),
        is_encoding_of(second_datagram, to_second),
    ensures
        ({
            let in_flight = table.insert(to_first.header.transaction_id, first).insert(
                to_second.header.transaction_id,
                second,
            );
            &&& routing(in_flight, ReceiveEventView::Datagram(first_datagram))
                == (Routing::Deliver { sink: first, message: to_first })
            &&& routing(in_flight, ReceiveEventView::Datagram(second_datagram))
                == (Routing::Deliver { sink: second, message: to_second })
        }),
{
    let in_flight = table.insert(to_first.header.transaction_id, first).insert(
        to_second.header.transaction_id,
        second,
    );
    lemma_response_reaches_its_request(in_flight, to_first, first_datagram);
    lemma_response_reaches_its_request(in_flight, to_second, second_datagram);
}

/// A datagram of fewer than 20 bytes fails every request in flight with a
/// `ParseError`.
pub proof fn lemma_short_datagram_fails_all<S>(table: Map<Seq<u8>, S>, datagram: Seq<u8>)
    requires
        datagram.len() < HEADER_BYTE_SIZE,
    ensures
        routing(table, ReceiveEventView::Datagram(datagram)) == (Routing::<S>::Broadcast {
            error: ErrorView::Parse,
        }),
{
}

/// A request leaves nothing behind: once a request that began with a fresh
/// transaction id has ended, the table is what it was before.
pub proof fn lemma_request_leaves_table<S>(table: Map<Seq<u8>, S>, transaction_id: Seq<u8>, sink: S)
    requires
        !table.contains_key(transaction_id),
    ensures
        table.insert(transaction_id, sink).remove(transaction_id) == table,
{
}

/// A request that is registered and ready to be sent.
pub struct PendingRequest {
    /// The transaction id that the response will carry.
    pub transaction_id: Vec<u8>,
    /// The datagram to send to the server.
    pub datagram: Vec<u8>,
}

/// Begins a Binding request with the given attributes: makes the message
/// with a fresh transaction id, puts the sink of the response into the
/// table under that id, and hands out the datagram. The sink is in the
/// table before the caller can send.
pub fn begin_request<S>(
    table: &mut TransactionTable<S>,
    attrs: Option<HashMap<u16, Vec<u8>>>,
    sink: S,
) -> (request: PendingRequest)
    requires
        attrs matches Some(held) ==> attributes_length(attributes_view(held@)) <= u16::MAX,
    ensures
        request.transaction_id@.len() == TRANSACTION_ID_BYTE_SIZE,
        final(table)@ == old(table)@.insert(request.transaction_id@, sink),
        is_encoding_of(
            request.datagram@,
            Message::assembled(Method::Binding, Class::Request, attrs, request.transaction_id@),
        ),
{
    let msg = Message::new(Method::Binding, Class::Request, attrs);
    let transaction_id = msg.get_transaction_id();
    table.insert(msg.get_transaction_id(), sink);
    let datagram = msg.to_raw();
    PendingRequest { transaction_id, datagram }
}

/// How the wait of a request ends.
pub enum RequestEvent {
    /// Sending the datagram has failed.
    SendFailed(std::io::Error),
    /// The time to wait is over.
    TimedOut,
    /// The sink was closed with nothing in it.
    SinkClosed,
    /// The receive task has handed this to the sink.
    Received(Result<Message, STUNClientError>),
}

/// What is said where the sink of a request is closed with nothing in it.
pub open spec fn sink_closed_message() -> Seq<char> {
    "Receive stream terminated unintentionally"@
}

/// Ends a request, however it ends: takes its sink out of the table, and
/// says what the request returns. What the receive task handed over is
/// returned as it is; a failed send is an `IOError` with the socket's error
/// inside, and a wait that ran out is a `TimeoutError`.
pub fn finish_request<S>(
    table: &mut TransactionTable<S>,
    transaction_id: &[u8],
    event: RequestEvent,
) -> (outcome: Result<Message, STUNClientError>)
    ensures
        final(table)@ == old(table)@.remove(transaction_id@),
        match event {
            RequestEvent::SendFailed(e) => outcome == Err::<Message, STUNClientError>(
                STUNClientError::IOError(e),
            ),
            RequestEvent::TimedOut => outcome == Err::<Message, STUNClientError>(
                STUNClientError::TimeoutError(),
            ),
            RequestEvent::SinkClosed => outcome matches Err(STUNClientError::Unknown(message))
                && message@ == sink_closed_message(),
            RequestEvent::Received(received) => outcome == received,
        },
{
    table.remove(transaction_id);
    match event {
        RequestEvent::SendFailed(e) => Err(STUNClientError::IOError(e)),
        RequestEvent::TimedOut => Err(STUNClientError::TimeoutError()),
        RequestEvent::SinkClosed => Err(
            STUNClientError::Unknown("Receive stream terminated unintentionally".to_owned()),
        ),
        RequestEvent::Received(received) => received,
    }
}

} // verus!
