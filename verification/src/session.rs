//! The session: the state machine that binds one connection to the router.
//!
//! A session is driven from outside. The code that owns the socket hands it
//! what arrived (bytes, then the frames decoded from them) and gets back what
//! to do: frames to send, forwarders to start or stop. The session never
//! touches a socket and never waits; every decision it takes is a function of
//! its state, the router's state and the event, and is stated as such.
//!
//! A forwarder is the task that reads one subscription's receiver and feeds
//! the messages into the session's outbound queue. The session keeps the list
//! of the channels that have one.

use crate::buffer::buffered;
use crate::codec::bodies_in;
use crate::codec::body_views;
use crate::codec::decode_all;
use crate::codec::decode_from;
use crate::codec::left_over;
use crate::codec::Reading;
use crate::codec::read_frame;
use crate::codec::reading_of;
use crate::codec::ProtocolError;
use crate::frames::text_of;
use crate::frames::Frame;
use crate::frames::FrameView;
use crate::message::message_id;
use crate::message::Message;
use crate::router::Router;
use crate::router::RouterError;
use crate::routing::Limits;
use crate::routing::RouterErrorView;
use crate::routing::RouterState;
use crate::text::insert_text;
use crate::text::lemma_with_text;
use crate::text::lemma_without;
use crate::text::remove_text;
use crate::text::texts;
use crate::text::with_text;
use crate::text::without;
use crate::version::PROTOCOL_MAJOR;
use bytes::BytesMut;
use std::sync::Arc;
use tokio::sync::broadcast::Receiver;
use vstd::prelude::*;
use vstd::slice::slice_to_vec;

verus! {

/// Error code for a failure inside the broker.
pub const CODE_INTERNAL: u16 = 1000;

/// Error code for a request that fails validation or exceeds a limit.
pub const CODE_REJECTED: u16 = 1002;

/// Error code for an unsubscribe without subscription.
pub const CODE_NOT_SUBSCRIBED: u16 = 1008;

/// Initial capacity of a session's inbound buffer, in bytes.
pub const READ_BUFFER_CAPACITY: usize = 4096;

/// What the owner of the socket has to do for the session.
#[derive(Debug)]
pub enum SessionAction {
    /// Send this frame to the client.
    Send(Frame),
    /// Start a forwarder for this channel, reading this receiver.
    StartForwarder {
        /// The channel subscribed to.
        channel: String,
        /// The receiver of the channel's messages.
        receiver: Receiver<Arc<Message>>,
    },
    /// Abort the forwarder of this channel.
    StopForwarder {
        /// The channel unsubscribed from.
        channel: String,
    },
}

/// The mathematical value of a [`SessionAction`]. A receiver has none: which
/// messages it will yield is decided by what is published later.
pub ghost enum ActionView {
    Send(FrameView),
    StartForwarder { channel: Seq<char> },
    StopForwarder { channel: Seq<char> },
}

impl View for SessionAction {
    type V = ActionView;

    open spec fn view(&self) -> ActionView {
        match *self {
            SessionAction::Send(frame) => ActionView::Send(frame@),
            SessionAction::StartForwarder { channel, receiver } => ActionView::StartForwarder {
                channel: channel@,
            },
            SessionAction::StopForwarder { channel } => ActionView::StopForwarder {
                channel: channel@,
            },
        }
    }
}

/// The values of a list of actions, in order.
pub open spec fn action_views(actions: Seq<SessionAction>) -> Seq<ActionView> {
    Seq::new(actions.len(), |i: int| actions[i]@)
}

/// The code under which a failed subscribe is reported: 1000 for a failure
/// inside the broker, 1002 for every refusal.
pub open spec fn subscribe_error_code(error: RouterErrorView) -> u16 {
    if error is Internal {
        CODE_INTERNAL
    } else {
        CODE_REJECTED
    }
}

/// The frame that answers a subscribe request with id `id`.
pub open spec fn subscribe_reply(id: u64, error: Option<RouterErrorView>) -> FrameView {
    match error {
        None => FrameView::Ack { id },
        Some(e) => FrameView::Error { id, code: subscribe_error_code(e), message: e.text() },
    }
}

/// The frame that answers an unsubscribe request with id `id`.
pub open spec fn unsubscribe_reply(id: u64, error: Option<RouterErrorView>) -> FrameView {
    match error {
        None => FrameView::Ack { id },
        Some(e) => FrameView::Error { id, code: CODE_NOT_SUBSCRIBED, message: e.text() },
    }
}

/// What a session with the connection `connection` and the forwarders
/// `forwarders` asks for when `frame` arrives, the router being in state
/// `router`:
///
/// - a subscribe that the router accepts starts a forwarder and is
///   acknowledged; one that it refuses is answered by an error frame;
/// - an unsubscribe stops the channel's forwarder if there is one, and is
///   acknowledged, or answered by an error frame when the router refuses it;
/// - a publish is acknowledged when it carries a request id;
/// - a ping is answered by a pong with the same timestamp;
/// - every other frame asks for nothing.
pub open spec fn replies(
    connection: Seq<char>,
    forwarders: Seq<Seq<char>>,
    router: RouterState,
    limits: Limits,
    frame: FrameView,
) -> Seq<ActionView> {
    match frame {
        FrameView::Subscribe { id, channel } => {
            let error = router.subscribe_error(limits, connection, channel);
            if error is None {
                seq![
                    ActionView::StartForwarder { channel },
                    ActionView::Send(subscribe_reply(id, error)),
                ]
            } else {
                seq![ActionView::Send(subscribe_reply(id, error))]
            }
        },
        FrameView::Unsubscribe { id, channel } => {
            let reply = ActionView::Send(
                unsubscribe_reply(id, router.unsubscribe_error(connection, channel)),
            );
            if forwarders.contains(channel) {
                seq![ActionView::StopForwarder { channel }, reply]
            } else {
                seq![reply]
            }
        },
        FrameView::Publish { id, channel, event, payload } => {
            match id {
                Some(id) => seq![ActionView::Send(FrameView::Ack { id })],
                None => Seq::empty(),
            }
        },
        FrameView::Ping { timestamp } => seq![ActionView::Send(FrameView::Pong { timestamp })],
        _ => Seq::empty(),
    }
}

/// The router's state after a session with the connection `connection`
/// handled `frame`: subscribe and unsubscribe frames change it as the
/// router's operations of these names do, no other frame changes it.
pub open spec fn router_after(
    connection: Seq<char>,
    router: RouterState,
    limits: Limits,
    frame: FrameView,
) -> RouterState {
    match frame {
        FrameView::Subscribe { id, channel } => router.subscribe(limits, connection, channel),
        FrameView::Unsubscribe { id, channel } => router.unsubscribe(limits, connection, channel),
        _ => router,
    }
}

/// The forwarders of a session after it handled `frame`: an accepted
/// subscribe adds the channel, an unsubscribe takes it away.
pub open spec fn forwarders_after(
    connection: Seq<char>,
    forwarders: Seq<Seq<char>>,
    router: RouterState,
    limits: Limits,
    frame: FrameView,
) -> Seq<Seq<char>> {
    match frame {
        FrameView::Subscribe { id, channel } => {
            if router.subscribe_error(limits, connection, channel) is None {
                with_text(forwarders, channel)
            } else {
                forwarders
            }
        },
        FrameView::Unsubscribe { id, channel } => without(forwarders, channel),
        _ => forwarders,
    }
}

/// The number of message identifiers that the router has handed out after a
/// session handled `frame`: a publish frame takes one, no other frame does.
pub open spec fn issued_after(issued: u64, frame: FrameView) -> u64 {
    match frame {
        FrameView::Publish { id, channel, event, payload } => message_id(issued, 1),
        _ => issued,
    }
}

/// The actions that stop the forwarders of `channels`, in order.
pub open spec fn stop_all(channels: Seq<Seq<char>>) -> Seq<ActionView> {
    Seq::new(channels.len(), |i: int| ActionView::StopForwarder { channel: channels[i] })
}

/// The low 32 bits of `n`.
pub open spec fn low_32(n: u64) -> u32 {
    (n % 0x1_0000_0000) as u32
}

/// The frame that a forwarded message goes out as: a publish without request
/// id, for the channel the forwarder reads, with the event name and the
/// payload of the message.
pub open spec fn outbound_view(channel: Seq<char>, message: Message) -> FrameView {
    FrameView::Publish {
        id: None,
        channel,
        event: text_of(message.event),
        payload: message.payload_bytes(),
    }
}

/// Builds the frame that a forwarded message goes out as.
pub fn outbound_frame(channel: String, message: &Message) -> (frame: Frame)
    ensures
        frame@ == outbound_view(channel@, *message),
{
    let event = match &message.event {
        Some(name) => Some(name.clone()),
        None => None,
    };
    let bytes: &bytes::Bytes = &message.payload;
    let payload = slice_to_vec(bytes);
    Frame::Publish { id: None, channel, event, payload }
}

/// Builds the message that a publish frame of the connection `source`
/// becomes: it carries the identifier `id`, the frame's channel, event name
/// and payload, and names the connection as its source.
pub fn published_message(
    id: crate::message::MessageId,
    source: &str,
    channel: &str,
    event: &Option<String>,
    payload: &Vec<u8>,
) -> (message: Message)
    ensures
        message.id == id,
        message.source matches Some(s) && s@ == source@,
        message.channel@ == channel@,
        text_of(message.event) == text_of(*event),
        message.payload_bytes() == payload@,
{
    let message = Message::new(id, channel, payload.clone()).with_source(source);
    assert(message.payload_bytes() =~= payload@);
    match event {
        Some(name) => message.with_event(name.as_str()),
        None => message,
    }
}

/// What a forwarder's read of its receiver came back with.
#[derive(Debug)]
pub enum ForwardEvent {
    /// The next message of the channel.
    Message(Arc<Message>),
    /// The forwarder fell behind the ring and missed this many messages.
    Lagged(u64),
    /// The channel is gone.
    Closed,
}

/// What a forwarder does next.
#[derive(Debug)]
pub enum ForwardStep {
    /// Push the message into the session's outbound queue, then read on; stop
    /// when the queue is closed.
    Deliver(Arc<Message>),
    /// Read on.
    Continue,
    /// Stop.
    Stop,
}

/// Decides what a forwarder does after a read: it delivers a message, reads
/// on after a lag, and stops when the channel is gone.
pub fn forward_step(event: ForwardEvent) -> (step: ForwardStep)
    ensures
        match event {
            ForwardEvent::Message(message) => step == ForwardStep::Deliver(message),
            ForwardEvent::Lagged(_) => step is Continue,
            ForwardEvent::Closed => step is Stop,
        },
{
    match event {
        ForwardEvent::Message(message) => ForwardStep::Deliver(message),
        ForwardEvent::Lagged(_) => ForwardStep::Continue,
        ForwardEvent::Closed => ForwardStep::Stop,
    }
}

/// Something that went wrong while a session was served.
#[derive(Debug, Clone, Copy, PartialEq, Eq, Structural)]
pub enum SessionFailure {
    /// Inbound data could not be read as frames, or a frame body could not
    /// be deserialized.
    InboundDecode,
    /// A frame could not be written to the transport.
    Send,
    /// A message to forward could not be serialized.
    OutboundEncode,
}

/// What the owner of the socket does after a failure.
#[derive(Debug, Clone, Copy, PartialEq, Eq, Structural)]
pub enum FailureStep {
    /// The session is over: tear it down.
    Teardown,
    /// Drop the message concerned and go on.
    DropMessage,
}

/// Decides what follows a failure. A length-prefixed stream cannot be picked
/// up again after a bad frame, and a transport that fails to send is gone:
/// both end the session. A message that cannot be serialized is dropped, and
/// the session goes on.
pub fn after_failure(failure: SessionFailure) -> (step: FailureStep)
    ensures
        step == match failure {
            SessionFailure::InboundDecode => FailureStep::Teardown,
            SessionFailure::Send => FailureStep::Teardown,
            SessionFailure::OutboundEncode => FailureStep::DropMessage,
        },
{
    match failure {
        SessionFailure::InboundDecode => FailureStep::Teardown,
        SessionFailure::Send => FailureStep::Teardown,
        SessionFailure::OutboundEncode => FailureStep::DropMessage,
    }
}

/// What the transport handed to the session.
#[derive(Debug)]
pub enum TransportEvent {
    /// Binary data.
    Binary(Vec<u8>),
    /// Text data; its bytes are treated like binary data.
    Text(String),
    /// A transport-level ping with its payload.
    Ping(Vec<u8>),
    /// A transport-level pong.
    Pong,
    /// The peer closed the connection.
    Close,
    /// The transport failed.
    Failed,
    /// The stream of events ended.
    Ended,
}

/// What the owner of the socket does after a transport event.
#[derive(Debug)]
pub enum TransportStep {
    /// Data was appended to the inbound buffer: read frames from it.
    ReadFrames,
    /// Answer the ping with a pong that carries this payload.
    Pong(Vec<u8>),
    /// Nothing to do.
    Nothing,
    /// The connection is over: tear the session down.
    Teardown,
}

/// The session of one connection.
#[derive(Debug)]
pub struct Session {
    connection_id: String,
    forwarders: Vec<String>,
    read_buffer: BytesMut,
    open: bool,
}

impl Session {
    /// The connection that the session serves.
    pub closed spec fn connection(&self) -> Seq<char> {
        self.connection_id@
    }

    /// The channels that have a forwarder, in the order in which the
    /// forwarders were started.
    pub closed spec fn forwarders(&self) -> Seq<Seq<char>> {
        texts(self.forwarders@)
    }

    /// The inbound bytes that were received and not yet read as frames.
    pub closed spec fn pending(&self) -> Seq<u8> {
        buffered(self.read_buffer)
    }

    /// Whether the session is open.
    pub closed spec fn is_open(&self) -> bool {
        self.open
    }

    /// The session's invariant: no channel has two forwarders.
    pub closed spec fn wf(&self) -> bool {
        self.forwarders().no_duplicates()
    }

    /// Opens a session for an accepted connection and builds the handshake
    /// answer to send first: a `Connected` frame with the connection's id, the
    /// protocol's major version and the low 32 bits of the heartbeat interval.
    pub fn accept(connection_id: &str, heartbeat_interval_ms: u64) -> (opened: (Session, Frame))
        ensures
            opened.0.wf(),
            opened.0.is_open(),
            opened.0.connection() == connection_id@,
            opened.0.forwarders() == Seq::<Seq<char>>::empty(),
            opened.0.pending() == Seq::<u8>::empty(),
            opened.1@ == (FrameView::Connected {
                connection_id: connection_id@,
                version: PROTOCOL_MAJOR,
                heartbeat: low_32(heartbeat_interval_ms),
            }),
    {
        let session = Session {
            connection_id: connection_id.to_owned(),
            forwarders: Vec::new(),
            read_buffer: BytesMut::with_capacity(READ_BUFFER_CAPACITY),
            open: true,
        };
        let heartbeat = (heartbeat_interval_ms % 0x1_0000_0000) as u32;
        let frame = Frame::connected(connection_id, PROTOCOL_MAJOR, heartbeat);
        assert(session.forwarders() =~= Seq::<Seq<char>>::empty());
        (session, frame)
    }

    /// The id of the connection.
    #[must_use]
    pub fn connection_id(&self) -> (id: &str)
        ensures
            id@ == self.connection(),
    {
        self.connection_id.as_str()
    }

    /// Tells whether the session is open.
    #[must_use]
    pub fn open(&self) -> (open: bool)
        ensures
            open == self.is_open(),
    {
        self.open
    }

    /// The number of forwarders.
    #[must_use]
    pub fn forwarder_count(&self) -> (count: usize)
        ensures
            count == self.forwarders().len(),
    {
        self.forwarders.len()
    }

    /// Appends inbound bytes to the buffer. Data that would grow the buffer
    /// beyond the largest size of an allocation is refused, and the buffer
    /// stays as it is.
    pub fn receive(&mut self, data: &[u8]) -> (r: Result<(), ProtocolError>)
        ensures
            final(self).connection() == old(self).connection(),
            final(self).forwarders() == old(self).forwarders(),
            final(self).is_open() == old(self).is_open(),
            match r {
                Ok(()) => final(self).pending() == old(self).pending() + data@,
                Err(e) => final(self).pending() == old(self).pending() && old(self).pending().len()
                    + data@.len() > isize::MAX && e@ == crate::codec::ProtocolErrorView::FrameTooLarge(
                    data.len(),
                ),
            },
    {
        let held = self.read_buffer.len();
        if held > isize::MAX as usize || data.len() > isize::MAX as usize - held {
            return Err(ProtocolError::FrameTooLarge(data.len()));
        }
        self.read_buffer.extend_from_slice(data);
        Ok(())
    }

    /// Reads the next frame body from the inbound buffer, as
    /// [`decode_from`](crate::codec::decode_from) does.
    pub fn next_body(&mut self) -> (r: Result<Option<BytesMut>, ProtocolError>)
        ensures
            final(self).connection() == old(self).connection(),
            final(self).forwarders() == old(self).forwarders(),
            final(self).is_open() == old(self).is_open(),
            (reading_of(r), final(self).pending()) == read_frame(old(self).pending()),
    {
        decode_from(&mut self.read_buffer)
    }

    /// Reads every complete frame body from the inbound buffer, in order, as
    /// [`decode_all`](crate::codec::decode_all) does. An error in the second
    /// part of the result is fatal to the session: a length-prefixed stream
    /// cannot be picked up again in the middle.
    pub fn read_bodies(&mut self) -> (r: (Vec<BytesMut>, Result<(), ProtocolError>))
        ensures
            final(self).connection() == old(self).connection(),
            final(self).forwarders() == old(self).forwarders(),
            final(self).is_open() == old(self).is_open(),
            body_views(r.0@) == bodies_in(old(self).pending()),
            final(self).pending() == left_over(old(self).pending()),
            match r.1 {
                Ok(()) => read_frame(final(self).pending()).0 == Reading::NeedMore,
                Err(e) => read_frame(final(self).pending()).0 == Reading::Failed(e@),
            },
    {
        decode_all(&mut self.read_buffer)
    }

    /// Whether the session and the router agree on the subscriptions of the
    /// session's connection: a channel has a forwarder exactly when the
    /// router lists it for the connection.
    pub open spec fn in_step_with(&self, router: RouterState) -> bool {
        in_step(self.connection(), self.forwarders(), router)
    }

    /// Takes in what the transport handed over and says what to do next:
    /// data goes into the inbound buffer, from which frames are to be read; a
    /// ping is to be answered with a pong of the same payload; a pong needs
    /// nothing; a close, a failure and the end of the stream end the session.
    pub fn on_transport_event(&mut self, event: TransportEvent) -> (r: Result<
        TransportStep,
        ProtocolError,
    >)
        ensures
            final(self).connection() == old(self).connection(),
            final(self).forwarders() == old(self).forwarders(),
            final(self).is_open() == old(self).is_open(),
            match event {
                TransportEvent::Binary(data) => match r {
                    Ok(step) => step is ReadFrames && final(self).pending() == old(self).pending()
                        + data@,
                    Err(_) => final(self).pending() == old(self).pending() && old(self).pending().len() + data@.len() > isize::MAX,
                },
                TransportEvent::Text(text) => match r {
                    Ok(step) => step is ReadFrames && final(self).pending() == old(self).pending()
                        + vstd::utf8::encode_utf8(text@),
                    Err(_) => final(self).pending() == old(self).pending() && old(self).pending().len() + vstd::utf8::encode_utf8(text@).len() > isize::MAX,
                },
                TransportEvent::Ping(data) => r matches Ok(TransportStep::Pong(payload))
                    && payload == data && final(self).pending() == old(self).pending(),
                TransportEvent::Pong => r matches Ok(TransportStep::Nothing) && final(self).pending() == old(self).pending(),
                _ => r matches Ok(TransportStep::Teardown) && final(self).pending() == old(self).pending(),
            },
    {
        match event {
            TransportEvent::Binary(data) => {
                match self.receive(data.as_slice()) {
                    Ok(()) => Ok(TransportStep::ReadFrames),
                    Err(e) => Err(e),
                }
            },
            TransportEvent::Text(text) => {
                match self.receive(text.as_str().as_bytes()) {
                    Ok(()) => Ok(TransportStep::ReadFrames),
                    Err(e) => Err(e),
                }
            },
            TransportEvent::Ping(data) => Ok(TransportStep::Pong(data)),
            TransportEvent::Pong => Ok(TransportStep::Nothing),
            TransportEvent::Close => Ok(TransportStep::Teardown),
            TransportEvent::Failed => Ok(TransportStep::Teardown),
            TransportEvent::Ended => Ok(TransportStep::Teardown),
        }
    }

    /// Builds the frame that reports a refused subscribe.
    fn subscribe_refusal(id: u64, error: &RouterError) -> (frame: Frame)
        ensures
            frame@ == subscribe_reply(id, Some(error@)),
    {
        let code = match error {
            RouterError::Internal(_) => CODE_INTERNAL,
            _ => CODE_REJECTED,
        };
        let message = error.to_string();
        Frame::error(id, code, message.as_str())
    }

    /// Handles one frame from the client and returns what to do, in order.
    ///
    /// A subscribe goes to the router; when the router accepts it, the
    /// session notes a forwarder for the channel, hands out the receiver for
    /// it and acknowledges, otherwise it reports the error under code 1002
    /// (1000 for a failure inside the broker). An unsubscribe stops the
    /// channel's forwarder, goes to the router, and is acknowledged or
    /// reported under code 1008. A publish becomes a message with this
    /// connection as source and goes to the router; it is acknowledged when
    /// the frame carries an id. A ping is answered by a pong with the same
    /// timestamp. Every other frame is ignored.
    pub fn handle_frame(&mut self, router: &mut Router, frame: &Frame) -> (actions: Vec<
        SessionAction,
    >)
        requires
            old(self).wf(),
            old(router).wf(),
        ensures
            final(self).wf(),
            final(router).wf(),
            final(router).settings() == old(router).settings(),
            final(router).issued() == issued_after(old(router).issued(), frame@),
            final(self).connection() == old(self).connection(),
            final(self).pending() == old(self).pending(),
            final(self).is_open() == old(self).is_open(),
            action_views(actions@) == replies(
                old(self).connection(),
                old(self).forwarders(),
                old(router)@,
                old(router).limits(),
                frame@,
            ),
            final(router)@ == router_after(
                old(self).connection(),
                old(router)@,
                old(router).limits(),
                frame@,
            ),
            final(self).forwarders() == forwarders_after(
                old(self).connection(),
                old(self).forwarders(),
                old(router)@,
                old(router).limits(),
                frame@,
            ),
            old(self).in_step_with(old(router)@) ==> final(self).in_step_with(final(router)@),
    {
        proof {
            if self.in_step_with(router@) {
                lemma_in_step(
                    self.connection(),
                    self.forwarders(),
                    router@,
                    router.limits(),
                    frame@,
                );
            }
        }
        let mut actions: Vec<SessionAction> = Vec::new();
        let ghost expected = replies(
            self.connection(),
            self.forwarders(),
            router@,
            router.limits(),
            frame@,
        );
        match frame {
            Frame::Subscribe { id, channel } => {
                proof {
                    lemma_with_text(self.forwarders(), channel@);
                }
                match router.subscribe(self.connection_id.as_str(), channel.as_str()) {
                    Ok(receiver) => {
                        let _ = insert_text(&mut self.forwarders, channel.as_str());
                        actions.push(
                            SessionAction::StartForwarder { channel: channel.clone(), receiver },
                        );
                        actions.push(SessionAction::Send(Frame::ack(*id)));
                    },
                    Err(error) => {
                        actions.push(SessionAction::Send(Session::subscribe_refusal(*id, &error)));
                    },
                }
            },
            Frame::Unsubscribe { id, channel } => {
                proof {
                    lemma_without(self.forwarders(), channel@);
                }
                if remove_text(&mut self.forwarders, channel.as_str()) {
                    actions.push(SessionAction::StopForwarder { channel: channel.clone() });
                }
                match router.unsubscribe(self.connection_id.as_str(), channel.as_str()) {
                    Ok(()) => {
                        actions.push(SessionAction::Send(Frame::ack(*id)));
                    },
                    Err(error) => {
                        let message = error.to_string();
                        actions.push(
                            SessionAction::Send(
                                Frame::error(*id, CODE_NOT_SUBSCRIBED, message.as_str()),
                            ),
                        );
                    },
                }
            },
            Frame::Publish { id, channel, event, payload } => {
                let message_id = router.next_message_id();
                let message = published_message(
                    message_id,
                    self.connection_id.as_str(),
                    channel.as_str(),
                    event,
                    payload,
                );
                let _ = router.publish(message);
                match id {
                    Some(request) => {
                        actions.push(SessionAction::Send(Frame::ack(*request)));
                    },
                    None => {},
                }
            },
            Frame::Ping { timestamp } => {
                actions.push(SessionAction::Send(Frame::pong(*timestamp)));
            },
            _ => {},
        }
        assert(action_views(actions@) =~= expected);
        actions
    }

    /// Ends the session: every forwarder is to be stopped, the connection is
    /// unsubscribed from all its channels and leaves their presence, and the
    /// session is closed. The bytes still pending are dropped with it.
    pub fn close(&mut self, router: &mut Router) -> (actions: Vec<SessionAction>)
        requires
            old(self).wf(),
            old(router).wf(),
        ensures
            final(self).wf(),
            !final(self).is_open(),
            final(self).connection() == old(self).connection(),
            final(self).forwarders() == Seq::<Seq<char>>::empty(),
            final(router).wf(),
            final(router).settings() == old(router).settings(),
            final(router).issued() == old(router).issued(),
            final(router)@ == old(router)@.unsubscribe_all(
                old(router).limits(),
                old(self).connection(),
            ),
            action_views(actions@) == stop_all(old(self).forwarders()),
            final(self).in_step_with(final(router)@),
    {
        proof {
            let after = router@.unsubscribe_all(router.limits(), self.connection());
            assert forall|channel: Seq<char>| !#[trigger] after.connection_lists(
                self.connection(),
                channel,
            ) by {}
        }
        let mut actions: Vec<SessionAction> = Vec::new();
        let mut stopped: Vec<String> = Vec::new();
        core::mem::swap(&mut stopped, &mut self.forwarders);
        let mut i: usize = 0;
        while i < stopped.len()
            invariant
                i <= stopped.len(),
                actions.len() == i,
                forall|k: int|
                    0 <= k < i ==> actions[k]@ == (ActionView::StopForwarder {
                        channel: stopped[k]@,
                    }),
            decreases stopped.len() - i,
        {
            actions.push(SessionAction::StopForwarder { channel: stopped[i].clone() });
            i += 1;
        }
        router.unsubscribe_all(self.connection_id.as_str());
        self.open = false;
        proof {
            assert(self.forwarders() =~= Seq::<Seq<char>>::empty());
            assert(action_views(actions@) =~= stop_all(old(self).forwarders()));
        }
        actions
    }
}

/// Whether a session with the connection `connection` and the forwarders
/// `forwarders` agrees with the router on the connection's subscriptions: a
/// channel has a forwarder exactly when the router lists it for the
/// connection.
pub open spec fn in_step(connection: Seq<char>, forwarders: Seq<Seq<char>>, router: RouterState)
    -> bool {
    forall|channel: Seq<char>|
        forwarders.contains(channel) <==> #[trigger] router.connection_lists(connection, channel)
}

/// A session that agrees with the router on the subscriptions of its
/// connection still does after handling a frame.
pub proof fn lemma_in_step(
    connection: Seq<char>,
    forwarders: Seq<Seq<char>>,
    router: RouterState,
    limits: Limits,
    frame: FrameView,
)
    requires
        forwarders.no_duplicates(),
        in_step(connection, forwarders, router),
    ensures
        in_step(
            connection,
            forwarders_after(connection, forwarders, router, limits, frame),
            router_after(connection, router, limits, frame),
        ),
{
    let after = router_after(connection, router, limits, frame);
    let listed = forwarders_after(connection, forwarders, router, limits, frame);
    match frame {
        FrameView::Subscribe { id, channel } => {
            lemma_with_text(forwarders, channel);
            assert forall|c: Seq<char>| listed.contains(c) <==> #[trigger] after.connection_lists(
                connection,
                c,
            ) by {
                assert(forwarders.contains(c) <==> router.connection_lists(connection, c));
            }
        },
        FrameView::Unsubscribe { id, channel } => {
            lemma_without(forwarders, channel);
            assert forall|c: Seq<char>| listed.contains(c) <==> #[trigger] after.connection_lists(
                connection,
                c,
            ) by {
                assert(forwarders.contains(c) <==> router.connection_lists(connection, c));
                assert(forwarders.contains(channel) <==> router.connection_lists(
                    connection,
                    channel,
                ));
            }
        },
        _ => {},
    }
}

/// Handling a frame keeps the router's two indices in agreement, whatever the
/// frame; and after a session was closed, no channel lists its connection.
pub proof fn lemma_session_keeps_indices(
    connection: Seq<char>,
    router: RouterState,
    limits: Limits,
    frame: FrameView,
)
    requires
        router.wf(),
    ensures
        router_after(connection, router, limits, frame).wf(),
        router.unsubscribe_all(limits, connection).wf(),
        forall|channel: Seq<char>| !#[trigger] router.unsubscribe_all(
            limits,
            connection,
        ).channel_lists(channel, connection),
{
    match frame {
        FrameView::Subscribe { id, channel } => {
            crate::routing::lemma_subscribe_keeps_indices(router, limits, connection, channel);
        },
        FrameView::Unsubscribe { id, channel } => {
            crate::routing::lemma_unsubscribe_keeps_indices(router, limits, connection, channel);
        },
        _ => {},
    }
    crate::routing::lemma_unsubscribe_all_keeps_indices(router, limits, connection);
}

} // verus!
