//! The boundary to the transport.
//!
//! The broker is transport-agnostic: a transport accepts connections and
//! moves framed bytes. This module holds what the broker decides at that
//! boundary without touching a socket: connection identifiers, the choice of
//! a transport, the choice among several listeners, and the state machine of
//! the receiving side of a WebSocket connection.

use crate::buffer::buffered;
use crate::clock::unix_nanos_wide;
use crate::codec::decode_from;
use crate::codec::read_frame;
use crate::codec::reading_of;
use crate::codec::ProtocolError;
use crate::codec::ProtocolErrorView;
use crate::text::hex_digits;
use crate::text::push_hex;
use crate::text::same_text;
use bytes::BytesMut;
use vstd::prelude::*;
use vstd::std_specs::convert::FromSpecImpl;

verus! {

/// The identifier of a connection.
#[derive(Debug, Clone, PartialEq, Eq, Hash)]
pub struct ConnectionId(pub String);

/// The identifier generated at the clock reading `nanos`: `conn_` followed
/// by the reading in lower-case hexadecimal.
pub open spec fn generated_id(nanos: u128) -> Seq<char> {
    "conn_"@ + hex_digits(nanos as nat)
}

impl ConnectionId {
    /// The identifier with the text `id`.
    #[must_use]
    pub fn new(id: &str) -> (connection: Self)
        ensures
            connection.0@ == id@,
    {
        ConnectionId(id.to_owned())
    }

    /// The identifier for a connection accepted at the clock reading `nanos`,
    /// in nanoseconds since the Unix epoch.
    #[must_use]
    pub fn generate_at(nanos: u128) -> (connection: Self)
        ensures
            connection.0@ == generated_id(nanos),
    {
        let mut text = "conn_".to_owned();
        push_hex(&mut text, nanos);
        ConnectionId(text)
    }

    /// A new identifier, made from the current time.
    #[must_use]
    pub fn generate() -> (connection: Self)
        ensures
            exists|nanos: u128| connection.0@ == generated_id(nanos),
    {
        ConnectionId::generate_at(unix_nanos_wide())
    }

    /// The identifier as text.
    #[must_use]
    pub fn as_str(&self) -> (text: &str)
        ensures
            text@ == self.0@,
    {
        self.0.as_str()
    }

    /// The identifier as an owned string.
    #[must_use]
    pub fn to_string(&self) -> (text: String)
        ensures
            text@ == self.0@,
    {
        self.0.clone()
    }
}

impl FromSpecImpl<String> for ConnectionId {
    open spec fn obeys_from_spec() -> bool {
        true
    }

    open spec fn from_spec(s: String) -> ConnectionId {
        ConnectionId(s)
    }
}

impl From<String> for ConnectionId {
    fn from(s: String) -> (connection: Self) {
        ConnectionId(s)
    }
}

impl<'a> FromSpecImpl<&'a str> for ConnectionId {
    open spec fn obeys_from_spec() -> bool {
        false
    }

    open spec fn from_spec(s: &'a str) -> ConnectionId {
        arbitrary()
    }
}

impl<'a> From<&'a str> for ConnectionId {
    fn from(s: &'a str) -> (connection: Self)
        ensures
            connection.0@ == s@,
    {
        ConnectionId(s.to_owned())
    }
}

/// Every generated identifier starts with `conn_` and has at least one digit
/// after it.
pub proof fn lemma_generated_id_prefix(nanos: u128)
    ensures
        generated_id(nanos).len() > 5,
        generated_id(nanos).subrange(0, 5) == "conn_"@,
    decreases nanos,
{
    reveal_strlit("conn_");
    lemma_hex_digits_not_empty(nanos as nat);
    assert(generated_id(nanos).subrange(0, 5) =~= "conn_"@);
}

/// A number has at least one hexadecimal digit.
pub proof fn lemma_hex_digits_not_empty(n: nat)
    ensures
        hex_digits(n).len() > 0,
    decreases n,
{
    if n >= 16 {
        lemma_hex_digits_not_empty(n / 16);
    }
}

/// Why an operation of the transport failed.
#[derive(Debug)]
pub enum TransportError {
    /// The connection was closed.
    ConnectionClosed,
    /// The connection timed out.
    Timeout,
    /// Data could not be sent.
    SendFailed(String),
    /// Data could not be received.
    ReceiveFailed(String),
    /// The peer broke the protocol.
    Protocol(ProtocolError),
    /// The operating system reported an error; this is its description.
    Io(String),
    /// Anything else.
    Other(String),
}

/// The mathematical value of a [`TransportError`].
pub ghost enum TransportErrorView {
    ConnectionClosed,
    Timeout,
    SendFailed(Seq<char>),
    ReceiveFailed(Seq<char>),
    Protocol(ProtocolErrorView),
    Io(Seq<char>),
    Other(Seq<char>),
}

impl View for TransportError {
    type V = TransportErrorView;

    open spec fn view(&self) -> TransportErrorView {
        match *self {
            TransportError::ConnectionClosed => TransportErrorView::ConnectionClosed,
            TransportError::Timeout => TransportErrorView::Timeout,
            TransportError::SendFailed(what) => TransportErrorView::SendFailed(what@),
            TransportError::ReceiveFailed(what) => TransportErrorView::ReceiveFailed(what@),
            TransportError::Protocol(e) => TransportErrorView::Protocol(e@),
            TransportError::Io(what) => TransportErrorView::Io(what@),
            TransportError::Other(what) => TransportErrorView::Other(what@),
        }
    }
}

impl TransportErrorView {
    /// The message of an error.
    pub open spec fn text(self) -> Seq<char> {
        match self {
            TransportErrorView::ConnectionClosed => "Connection closed"@,
            TransportErrorView::Timeout => "Connection timed out"@,
            TransportErrorView::SendFailed(what) => "Send failed: "@ + what,
            TransportErrorView::ReceiveFailed(what) => "Receive failed: "@ + what,
            TransportErrorView::Protocol(e) => "Protocol error: "@ + e.text(),
            TransportErrorView::Io(what) => "I/O error: "@ + what,
            TransportErrorView::Other(what) => what,
        }
    }
}

impl TransportError {
    /// The message of the error.
    #[must_use]
    pub fn to_string(&self) -> (text: String)
        ensures
            text@ == self@.text(),
    {
        match self {
            TransportError::ConnectionClosed => "Connection closed".to_owned(),
            TransportError::Timeout => "Connection timed out".to_owned(),
            TransportError::SendFailed(what) => "Send failed: ".to_owned().concat(what.as_str()),
            TransportError::ReceiveFailed(what) => {
                "Receive failed: ".to_owned().concat(what.as_str())
            },
            TransportError::Protocol(e) => {
                let inner = e.to_string();
                "Protocol error: ".to_owned().concat(inner.as_str())
            },
            TransportError::Io(what) => "I/O error: ".to_owned().concat(what.as_str()),
            TransportError::Other(what) => what.clone(),
        }
    }
}

/// Whether `list` names the transport `name`.
pub open spec fn names_transport(list: Seq<&str>, name: Seq<char>) -> bool {
    exists|i: int| 0 <= i < list.len() && (#[trigger] list[i])@ == name
}

/// Whether both sides name the transport `name`.
pub open spec fn shared_transport(client: Seq<&str>, available: Seq<&str>, name: Seq<char>) -> bool {
    names_transport(client, name) && names_transport(available, name)
}

/// The transport to use between a client with the capabilities `client` and
/// a broker with the transports `available`: the first of `webtransport`,
/// `websocket` and `sse` that both sides name, if there is one.
pub open spec fn negotiated(client: Seq<&str>, available: Seq<&str>) -> Option<Seq<char>> {
    if shared_transport(client, available, "webtransport"@) {
        Some("webtransport"@)
    } else if shared_transport(client, available, "websocket"@) {
        Some("websocket"@)
    } else if shared_transport(client, available, "sse"@) {
        Some("sse"@)
    } else {
        None
    }
}

/// Tells whether `list` names the transport `name`.
fn lists_transport(list: &[&str], name: &str) -> (found: bool)
    ensures
        found == names_transport(list@, name@),
{
    let mut i: usize = 0;
    while i < list.len()
        invariant
            i <= list.len(),
            forall|k: int| 0 <= k < i ==> (#[trigger] list@[k])@ != name@,
        decreases list.len() - i,
    {
        if same_text(list[i], name) {
            return true;
        }
        i += 1;
    }
    false
}

/// Picks the transport for a client: the first of `webtransport`, `websocket`
/// and `sse` that the client supports and the broker offers.
#[must_use]
pub fn negotiate_transport(client_capabilities: &[&str], available_transports: &[&str]) -> (chosen:
    Option<&'static str>)
    ensures
        match chosen {
            Some(name) => negotiated(client_capabilities@, available_transports@) == Some(name@),
            None => negotiated(client_capabilities@, available_transports@) is None,
        },
{
    if lists_transport(client_capabilities, "webtransport") && lists_transport(
        available_transports,
        "webtransport",
    ) {
        return Some("webtransport");
    }
    if lists_transport(client_capabilities, "websocket") && lists_transport(
        available_transports,
        "websocket",
    ) {
        return Some("websocket");
    }
    if lists_transport(client_capabilities, "sse") && lists_transport(available_transports, "sse") {
        return Some("sse");
    }
    None
}

/// The first healthy transport of a fallback chain, by position: transports
/// are tried in order of priority, and the first one that reports itself
/// healthy accepts the connection.
pub fn first_healthy(healthy: &[bool]) -> (chosen: Option<usize>)
    ensures
        match chosen {
            Some(i) => i < healthy@.len() && healthy@[i as int] && forall|k: int|
                0 <= k < i ==> !healthy@[k],
            None => forall|k: int| 0 <= k < healthy@.len() ==> !healthy@[k],
        },
{
    let mut i: usize = 0;
    while i < healthy.len()
        invariant
            i <= healthy.len(),
            forall|k: int| 0 <= k < i ==> !healthy@[k],
        decreases healthy.len() - i,
    {
        if healthy[i] {
            return Some(i);
        }
        i += 1;
    }
    None
}

/// What a WebSocket handed to the receiving side of a connection.
#[derive(Debug)]
pub enum SocketEvent {
    /// A binary message.
    Binary(Vec<u8>),
    /// A text message; its bytes are treated like a binary message.
    Text(String),
    /// A ping with its payload.
    Ping(Vec<u8>),
    /// A pong.
    Pong,
    /// A close message.
    Close,
    /// A raw frame.
    Raw,
    /// The socket reports that the connection is closed.
    ConnectionClosed,
    /// The socket reports another error; this is its description.
    Failed(String),
    /// The stream of messages ended.
    Ended,
}

/// What the receiving side does after a socket event.
#[derive(Debug)]
pub enum ReceiveStep {
    /// Data was appended to the buffer: try to read a frame from it.
    ReadFrame,
    /// Answer the ping with a pong that carries this payload, then read on.
    Pong(Vec<u8>),
    /// Read on.
    Continue,
    /// The connection ended cleanly: there is no further frame.
    Finished,
    /// Receiving failed.
    Fail(TransportError),
}

/// The mathematical value of a [`ReceiveStep`].
pub ghost enum ReceiveStepView {
    ReadFrame,
    Pong(Seq<u8>),
    Continue,
    Finished,
    Fail(TransportErrorView),
}

impl View for ReceiveStep {
    type V = ReceiveStepView;

    open spec fn view(&self) -> ReceiveStepView {
        match *self {
            ReceiveStep::ReadFrame => ReceiveStepView::ReadFrame,
            ReceiveStep::Pong(payload) => ReceiveStepView::Pong(payload@),
            ReceiveStep::Continue => ReceiveStepView::Continue,
            ReceiveStep::Finished => ReceiveStepView::Finished,
            ReceiveStep::Fail(e) => ReceiveStepView::Fail(e@),
        }
    }
}

/// The state of a WebSocket connection, as far as receiving and sending
/// decide on it.
pub ghost struct SocketState {
    /// The bytes received and not yet read as frames.
    pub pending: Seq<u8>,
    /// Whether the connection is open.
    pub open: bool,
    /// Largest binary message accepted, in bytes.
    pub max_message_size: usize,
}

/// The largest number of bytes that the buffer of a connection can hold.
pub open spec fn buffer_limit() -> int {
    isize::MAX as int
}

/// What appending `data` to the buffer gives: the data is appended and a
/// frame is to be read, unless the buffer would grow beyond its limit; then
/// receiving fails as for a frame that is too large, and the state stays.
pub open spec fn append_step(state: SocketState, data: Seq<u8>) -> (ReceiveStepView, SocketState) {
    if state.pending.len() + data.len() > buffer_limit() {
        (
            ReceiveStepView::Fail(
                TransportErrorView::Protocol(ProtocolErrorView::FrameTooLarge(data.len() as usize)),
            ),
            state,
        )
    } else {
        (ReceiveStepView::ReadFrame, SocketState { pending: state.pending + data, ..state })
    }
}

/// What the receiving side does on `event` in state `state`, and the state
/// afterwards:
///
/// - a binary message above the size limit fails as a frame that is too
///   large; any other data is appended to the buffer, from which a frame is
///   then to be read;
/// - a ping is answered, a pong and a raw frame are passed over;
/// - a close message, the report that the connection is closed and the end of
///   the stream close the connection cleanly;
/// - any other error closes the connection and fails.
pub open spec fn receive_step(state: SocketState, event: SocketEvent) -> (
    ReceiveStepView,
    SocketState,
) {
    match event {
        SocketEvent::Binary(data) => {
            if data@.len() > state.max_message_size {
                (
                    ReceiveStepView::Fail(
                        TransportErrorView::Protocol(
                            ProtocolErrorView::FrameTooLarge(data@.len() as usize),
                        ),
                    ),
                    state,
                )
            } else {
                append_step(state, data@)
            }
        },
        SocketEvent::Text(text) => append_step(state, vstd::utf8::encode_utf8(text@)),
        SocketEvent::Ping(payload) => (ReceiveStepView::Pong(payload@), state),
        SocketEvent::Pong => (ReceiveStepView::Continue, state),
        SocketEvent::Raw => (ReceiveStepView::Continue, state),
        SocketEvent::Close => (ReceiveStepView::Finished, SocketState { open: false, ..state }),
        SocketEvent::ConnectionClosed => (
            ReceiveStepView::Finished,
            SocketState { open: false, ..state },
        ),
        SocketEvent::Failed(what) => (
            ReceiveStepView::Fail(TransportErrorView::ReceiveFailed(what@)),
            SocketState { open: false, ..state },
        ),
        SocketEvent::Ended => (ReceiveStepView::Finished, SocketState { open: false, ..state }),
    }
}

/// The receiving and sending state of one WebSocket connection.
#[derive(Debug)]
pub struct WebSocketState {
    read_buffer: BytesMut,
    is_open: bool,
    max_message_size: usize,
}

impl View for WebSocketState {
    type V = SocketState;

    closed spec fn view(&self) -> SocketState {
        SocketState {
            pending: buffered(self.read_buffer),
            open: self.is_open,
            max_message_size: self.max_message_size,
        }
    }
}

impl WebSocketState {
    /// The state of a connection that was just accepted: open, nothing
    /// received yet.
    #[must_use]
    pub fn new(max_message_size: usize) -> (state: Self)
        ensures
            state@ == (SocketState { pending: Seq::empty(), open: true, max_message_size }),
    {
        WebSocketState {
            read_buffer: BytesMut::with_capacity(4096),
            is_open: true,
            max_message_size,
        }
    }

    /// Tells whether the connection is open.
    #[must_use]
    pub fn is_open(&self) -> (open: bool)
        ensures
            open == self@.open,
    {
        self.is_open
    }

    /// Reads the next frame body from the buffer, as
    /// [`decode_from`](crate::codec::decode_from) does.
    pub fn next_body(&mut self) -> (r: Result<Option<BytesMut>, ProtocolError>)
        ensures
            (reading_of(r), final(self)@.pending) == read_frame(old(self)@.pending),
            final(self)@.open == old(self)@.open,
            final(self)@.max_message_size == old(self)@.max_message_size,
    {
        decode_from(&mut self.read_buffer)
    }

    /// Takes in what the socket handed over and says what to do next.
    pub fn on_event(&mut self, event: SocketEvent) -> (step: ReceiveStep)
        ensures
            (step@, final(self)@) == receive_step(old(self)@, event),
    {
        match event {
            SocketEvent::Binary(data) => {
                if data.len() > self.max_message_size {
                    return ReceiveStep::Fail(
                        TransportError::Protocol(ProtocolError::FrameTooLarge(data.len())),
                    );
                }
                self.append(data.as_slice())
            },
            SocketEvent::Text(text) => self.append(text.as_str().as_bytes()),
            SocketEvent::Ping(payload) => ReceiveStep::Pong(payload),
            SocketEvent::Pong => ReceiveStep::Continue,
            SocketEvent::Raw => ReceiveStep::Continue,
            SocketEvent::Close => {
                self.is_open = false;
                ReceiveStep::Finished
            },
            SocketEvent::ConnectionClosed => {
                self.is_open = false;
                ReceiveStep::Finished
            },
            SocketEvent::Failed(what) => {
                self.is_open = false;
                ReceiveStep::Fail(TransportError::ReceiveFailed(what))
            },
            SocketEvent::Ended => {
                self.is_open = false;
                ReceiveStep::Finished
            },
        }
    }

    /// Appends data to the buffer if it fits.
    fn append(&mut self, data: &[u8]) -> (step: ReceiveStep)
        ensures
            (step@, final(self)@) == append_step(old(self)@, data@),
    {
        let held = self.read_buffer.len();
        if held > isize::MAX as usize || data.len() > isize::MAX as usize - held {
            return ReceiveStep::Fail(
                TransportError::Protocol(ProtocolError::FrameTooLarge(data.len())),
            );
        }
        self.read_buffer.extend_from_slice(data);
        ReceiveStep::ReadFrame
    }

    /// Checks that data may be sent: it may while the connection is open.
    pub fn check_send(&self) -> (r: Result<(), TransportError>)
        ensures
            match r {
                Ok(()) => self@.open,
                Err(e) => !self@.open && e@ == TransportErrorView::ConnectionClosed,
            },
    {
        if self.is_open {
            Ok(())
        } else {
            Err(TransportError::ConnectionClosed)
        }
    }

    /// Marks the connection as closed and tells whether the socket still has
    /// to be closed: it has when the connection was open.
    pub fn begin_close(&mut self) -> (was_open: bool)
        ensures
            was_open == old(self)@.open,
            final(self)@ == (SocketState { open: false, ..old(self)@ }),
    {
        let was_open = self.is_open;
        self.is_open = false;
        was_open
    }
}

/// A WebTransport connection. The transport is experimental: a connection of
/// this kind has an identifier and is never open.
#[derive(Debug)]
pub struct WebTransportConnection {
    id: ConnectionId,
}

impl WebTransportConnection {
    /// The text of the connection's identifier.
    pub closed spec fn id_text(&self) -> Seq<char> {
        self.id.0@
    }

    /// A connection with a new identifier.
    #[must_use]
    pub fn new() -> (connection: Self)
        ensures
            exists|nanos: u128| connection.id_text() == generated_id(nanos),
    {
        WebTransportConnection { id: ConnectionId::generate() }
    }

    /// The connection's identifier.
    #[must_use]
    pub fn id(&self) -> (id: &ConnectionId)
        ensures
            id.0@ == self.id_text(),
    {
        &self.id
    }

    /// Tells whether the connection is open: it never is.
    #[must_use]
    pub fn is_open(&self) -> (open: bool)
        ensures
            !open,
    {
        false
    }
}

} // verus!
