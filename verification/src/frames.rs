//! The frame model: the tagged messages that clients and the broker exchange.
//!
//! A frame is immutable once built. Its mathematical value is a [`FrameView`],
//! in which every string stands for its sequence of characters; contracts that
//! speak of frames speak of that view.

use vstd::prelude::*;
use vstd::std_specs::convert::FromSpecImpl;
use vstd::std_specs::convert::TryFromSpecImpl;

verus! {

/// The kind of a frame, as a one-byte code on the wire.
#[derive(Debug, Clone, Copy, PartialEq, Eq, Hash, Structural)]
pub enum FrameType {
    Subscribe,
    Unsubscribe,
    Publish,
    Presence,
    Ack,
    Error,
    Ping,
    Pong,
    Connect,
    Connected,
}

impl FrameType {
    /// The wire code of a frame kind: `Subscribe` is 1 and the codes go up by
    /// one in declaration order, to 10 for `Connected`.
    pub open spec fn code(self) -> u8 {
        match self {
            FrameType::Subscribe => 1,
            FrameType::Unsubscribe => 2,
            FrameType::Publish => 3,
            FrameType::Presence => 4,
            FrameType::Ack => 5,
            FrameType::Error => 6,
            FrameType::Ping => 7,
            FrameType::Pong => 8,
            FrameType::Connect => 9,
            FrameType::Connected => 10,
        }
    }

    /// The frame kind with the given wire code, if there is one.
    pub open spec fn of_code(code: u8) -> Option<FrameType> {
        if code == 1 {
            Some(FrameType::Subscribe)
        } else if code == 2 {
            Some(FrameType::Unsubscribe)
        } else if code == 3 {
            Some(FrameType::Publish)
        } else if code == 4 {
            Some(FrameType::Presence)
        } else if code == 5 {
            Some(FrameType::Ack)
        } else if code == 6 {
            Some(FrameType::Error)
        } else if code == 7 {
            Some(FrameType::Ping)
        } else if code == 8 {
            Some(FrameType::Pong)
        } else if code == 9 {
            Some(FrameType::Connect)
        } else if code == 10 {
            Some(FrameType::Connected)
        } else {
            None
        }
    }
}

impl FromSpecImpl<FrameType> for u8 {
    open spec fn obeys_from_spec() -> bool {
        true
    }

    open spec fn from_spec(ft: FrameType) -> u8 {
        ft.code()
    }
}

impl From<FrameType> for u8 {
    fn from(ft: FrameType) -> (code: u8) {
        match ft {
            FrameType::Subscribe => 1,
            FrameType::Unsubscribe => 2,
            FrameType::Publish => 3,
            FrameType::Presence => 4,
            FrameType::Ack => 5,
            FrameType::Error => 6,
            FrameType::Ping => 7,
            FrameType::Pong => 8,
            FrameType::Connect => 9,
            FrameType::Connected => 10,
        }
    }
}

impl TryFromSpecImpl<u8> for FrameType {
    open spec fn obeys_try_from_spec() -> bool {
        true
    }

    open spec fn try_from_spec(value: u8) -> Result<Self, &'static str> {
        match FrameType::of_code(value) {
            Some(ft) => Ok(ft),
            None => Err("Invalid frame type"),
        }
    }
}

impl TryFrom<u8> for FrameType {
    type Error = &'static str;

    fn try_from(value: u8) -> (r: Result<Self, &'static str>) {
        match value {
            1 => Ok(FrameType::Subscribe),
            2 => Ok(FrameType::Unsubscribe),
            3 => Ok(FrameType::Publish),
            4 => Ok(FrameType::Presence),
            5 => Ok(FrameType::Ack),
            6 => Ok(FrameType::Error),
            7 => Ok(FrameType::Ping),
            8 => Ok(FrameType::Pong),
            9 => Ok(FrameType::Connect),
            10 => Ok(FrameType::Connected),
            _ => Err("Invalid frame type"),
        }
    }
}

/// What a presence frame asks for or reports.
#[derive(Debug, Clone, Copy, PartialEq, Eq, Hash, Structural)]
pub enum PresenceAction {
    /// A client joined the channel.
    Join,
    /// A client left the channel.
    Leave,
    /// A client replaced its presence metadata.
    Update,
    /// The broker sends the full presence state.
    Sync,
}

impl PresenceAction {
    /// The wire code of a presence action: 0 for `Join` up to 3 for `Sync`.
    pub open spec fn code(self) -> u8 {
        match self {
            PresenceAction::Join => 0,
            PresenceAction::Leave => 1,
            PresenceAction::Update => 2,
            PresenceAction::Sync => 3,
        }
    }

    /// The presence action with the given wire code, if there is one.
    pub open spec fn of_code(code: u8) -> Option<PresenceAction> {
        if code == 0 {
            Some(PresenceAction::Join)
        } else if code == 1 {
            Some(PresenceAction::Leave)
        } else if code == 2 {
            Some(PresenceAction::Update)
        } else if code == 3 {
            Some(PresenceAction::Sync)
        } else {
            None
        }
    }
}

impl FromSpecImpl<PresenceAction> for u8 {
    open spec fn obeys_from_spec() -> bool {
        true
    }

    open spec fn from_spec(pa: PresenceAction) -> u8 {
        pa.code()
    }
}

impl From<PresenceAction> for u8 {
    fn from(pa: PresenceAction) -> (code: u8) {
        match pa {
            PresenceAction::Join => 0,
            PresenceAction::Leave => 1,
            PresenceAction::Update => 2,
            PresenceAction::Sync => 3,
        }
    }
}

impl TryFromSpecImpl<u8> for PresenceAction {
    open spec fn obeys_try_from_spec() -> bool {
        true
    }

    open spec fn try_from_spec(value: u8) -> Result<Self, &'static str> {
        match PresenceAction::of_code(value) {
            Some(pa) => Ok(pa),
            None => Err("Invalid presence action"),
        }
    }
}

impl TryFrom<u8> for PresenceAction {
    type Error = &'static str;

    fn try_from(value: u8) -> (r: Result<Self, &'static str>) {
        match value {
            0 => Ok(PresenceAction::Join),
            1 => Ok(PresenceAction::Leave),
            2 => Ok(PresenceAction::Update),
            3 => Ok(PresenceAction::Sync),
            _ => Err("Invalid presence action"),
        }
    }
}

/// A protocol frame: one message on the wire.
#[derive(Debug, Clone, PartialEq)]
#[allow(inconsistent_fields)]
pub enum Frame {
    /// Subscribe to a channel.
    Subscribe {
        /// Request id, echoed in the acknowledgment.
        id: u64,
        /// Channel to subscribe to.
        channel: String,
    },
    /// Unsubscribe from a channel.
    Unsubscribe {
        /// Request id, echoed in the acknowledgment.
        id: u64,
        /// Channel to leave.
        channel: String,
    },
    /// Publish a payload to a channel.
    Publish {
        /// Request id, present when the publisher wants an acknowledgment.
        id: Option<u64>,
        /// Target channel.
        channel: String,
        /// Optional event name.
        event: Option<String>,
        /// Opaque payload; may be empty.
        payload: Vec<u8>,
    },
    /// Presence request or report.
    Presence {
        /// Request id.
        id: u64,
        /// Channel concerned.
        channel: String,
        /// What happens to the sender's presence.
        action: PresenceAction,
        /// Optional presence metadata.
        data: Option<serde_json::Value>,
    },
    /// Acknowledgment of a request.
    Ack {
        /// Id of the acknowledged request.
        id: u64,
    },
    /// Failure report for a request.
    Error {
        /// Id of the failed request, 0 when there is none.
        id: u64,
        /// Error code.
        code: u16,
        /// Human-readable description.
        message: String,
    },
    /// Keepalive probe.
    Ping {
        /// Optional timestamp, echoed by the pong.
        timestamp: Option<u64>,
    },
    /// Keepalive answer.
    Pong {
        /// Timestamp of the ping this answers.
        timestamp: Option<u64>,
    },
    /// Handshake sent by a client.
    Connect {
        /// Protocol version the client speaks.
        version: u8,
        /// Optional authentication token.
        token: Option<String>,
    },
    /// Handshake answer sent by the broker.
    Connected {
        /// Identifier the broker gave the connection.
        connection_id: String,
        /// Protocol version the broker speaks.
        version: u8,
        /// Recommended heartbeat interval in milliseconds.
        heartbeat: u32,
    },
}

/// The mathematical value of a [`Frame`]: the same variants and fields, with
/// strings as character sequences and the payload as a byte sequence.
#[allow(inconsistent_fields)]
pub ghost enum FrameView {
    Subscribe { id: u64, channel: Seq<char> },
    Unsubscribe { id: u64, channel: Seq<char> },
    Publish { id: Option<u64>, channel: Seq<char>, event: Option<Seq<char>>, payload: Seq<u8> },
    Presence { id: u64, channel: Seq<char>, action: PresenceAction, data: Option<serde_json::Value> },
    Ack { id: u64 },
    Error { id: u64, code: u16, message: Seq<char> },
    Ping { timestamp: Option<u64> },
    Pong { timestamp: Option<u64> },
    Connect { version: u8, token: Option<Seq<char>> },
    Connected { connection_id: Seq<char>, version: u8, heartbeat: u32 },
}

/// The characters of an optional string.
pub open spec fn text_of(s: Option<String>) -> Option<Seq<char>> {
    match s {
        Some(s) => Some(s@),
        None => None,
    }
}

impl View for Frame {
    type V = FrameView;

    open spec fn view(&self) -> FrameView {
        match *self {
            Frame::Subscribe { id, channel } => FrameView::Subscribe { id, channel: channel@ },
            Frame::Unsubscribe { id, channel } => FrameView::Unsubscribe { id, channel: channel@ },
            Frame::Publish { id, channel, event, payload } => FrameView::Publish {
                id,
                channel: channel@,
                event: text_of(event),
                payload: payload@,
            },
            Frame::Presence { id, channel, action, data } => FrameView::Presence {
                id,
                channel: channel@,
                action,
                data,
            },
            Frame::Ack { id } => FrameView::Ack { id },
            Frame::Error { id, code, message } => FrameView::Error { id, code, message: message@ },
            Frame::Ping { timestamp } => FrameView::Ping { timestamp },
            Frame::Pong { timestamp } => FrameView::Pong { timestamp },
            Frame::Connect { version, token } => FrameView::Connect {
                version,
                token: text_of(token),
            },
            Frame::Connected { connection_id, version, heartbeat } => FrameView::Connected {
                connection_id: connection_id@,
                version,
                heartbeat,
            },
        }
    }
}

impl FrameView {
    /// The kind of a frame value.
    pub open spec fn kind(self) -> FrameType {
        match self {
            FrameView::Subscribe { .. } => FrameType::Subscribe,
            FrameView::Unsubscribe { .. } => FrameType::Unsubscribe,
            FrameView::Publish { .. } => FrameType::Publish,
            FrameView::Presence { .. } => FrameType::Presence,
            FrameView::Ack { .. } => FrameType::Ack,
            FrameView::Error { .. } => FrameType::Error,
            FrameView::Ping { .. } => FrameType::Ping,
            FrameView::Pong { .. } => FrameType::Pong,
            FrameView::Connect { .. } => FrameType::Connect,
            FrameView::Connected { .. } => FrameType::Connected,
        }
    }
}

impl Frame {
    /// The kind of this frame.
    #[must_use]
    pub fn frame_type(&self) -> (kind: FrameType)
        ensures
            kind == self@.kind(),
    {
        match self {
            Frame::Subscribe { .. } => FrameType::Subscribe,
            Frame::Unsubscribe { .. } => FrameType::Unsubscribe,
            Frame::Publish { .. } => FrameType::Publish,
            Frame::Presence { .. } => FrameType::Presence,
            Frame::Ack { .. } => FrameType::Ack,
            Frame::Error { .. } => FrameType::Error,
            Frame::Ping { .. } => FrameType::Ping,
            Frame::Pong { .. } => FrameType::Pong,
            Frame::Connect { .. } => FrameType::Connect,
            Frame::Connected { .. } => FrameType::Connected,
        }
    }

    /// A `Subscribe` frame for `channel` with request id `id`.
    #[must_use]
    pub fn subscribe(id: u64, channel: &str) -> (frame: Self)
        ensures
            frame@ == (FrameView::Subscribe { id, channel: channel@ }),
    {
        Frame::Subscribe { id, channel: channel.to_owned() }
    }

    /// An `Unsubscribe` frame for `channel` with request id `id`.
    #[must_use]
    pub fn unsubscribe(id: u64, channel: &str) -> (frame: Self)
        ensures
            frame@ == (FrameView::Unsubscribe { id, channel: channel@ }),
    {
        Frame::Unsubscribe { id, channel: channel.to_owned() }
    }

    /// A `Publish` frame without request id and without event name.
    #[must_use]
    pub fn publish(channel: &str, payload: Vec<u8>) -> (frame: Self)
        ensures
            frame@ == (FrameView::Publish {
                id: None,
                channel: channel@,
                event: None,
                payload: payload@,
            }),
    {
        Frame::Publish { id: None, channel: channel.to_owned(), event: None, payload }
    }

    /// A `Publish` frame that asks for an acknowledgment under `id`.
    #[must_use]
    pub fn publish_with_ack(id: u64, channel: &str, payload: Vec<u8>) -> (frame: Self)
        ensures
            frame@ == (FrameView::Publish {
                id: Some(id),
                channel: channel@,
                event: None,
                payload: payload@,
            }),
    {
        Frame::Publish { id: Some(id), channel: channel.to_owned(), event: None, payload }
    }

    /// An `Ack` frame for request `id`.
    #[must_use]
    pub fn ack(id: u64) -> (frame: Self)
        ensures
            frame@ == (FrameView::Ack { id }),
    {
        Frame::Ack { id }
    }

    /// An `Error` frame for request `id`.
    #[must_use]
    pub fn error(id: u64, code: u16, message: &str) -> (frame: Self)
        ensures
            frame@ == (FrameView::Error { id, code, message: message@ }),
    {
        Frame::Error { id, code, message: message.to_owned() }
    }

    /// A `Ping` frame without timestamp.
    #[must_use]
    pub fn ping() -> (frame: Self)
        ensures
            frame@ == (FrameView::Ping { timestamp: None }),
    {
        Frame::Ping { timestamp: None }
    }

    /// A `Ping` frame that carries `timestamp`.
    #[must_use]
    pub fn ping_with_timestamp(timestamp: u64) -> (frame: Self)
        ensures
            frame@ == (FrameView::Ping { timestamp: Some(timestamp) }),
    {
        Frame::Ping { timestamp: Some(timestamp) }
    }

    /// A `Pong` frame that echoes `timestamp`.
    #[must_use]
    pub fn pong(timestamp: Option<u64>) -> (frame: Self)
        ensures
            frame@ == (FrameView::Pong { timestamp }),
    {
        Frame::Pong { timestamp }
    }

    /// A `Connect` frame.
    #[must_use]
    pub fn connect(version: u8, token: Option<String>) -> (frame: Self)
        ensures
            frame@ == (FrameView::Connect { version, token: text_of(token) }),
    {
        Frame::Connect { version, token }
    }

    /// A `Connected` frame.
    #[must_use]
    pub fn connected(connection_id: &str, version: u8, heartbeat: u32) -> (frame: Self)
        ensures
            frame@ == (FrameView::Connected {
                connection_id: connection_id@,
                version,
                heartbeat,
            }),
    {
        Frame::Connected { connection_id: connection_id.to_owned(), version, heartbeat }
    }
}

/// Every wire code names the kind it came from, and a byte that names a kind
/// is that kind's code: the two conversions are inverse to each other.
pub proof fn lemma_codes_round_trip(ft: FrameType, pa: PresenceAction, byte: u8)
    ensures
        FrameType::of_code(ft.code()) == Some(ft),
        PresenceAction::of_code(pa.code()) == Some(pa),
        FrameType::of_code(byte) matches Some(k) ==> k.code() == byte,
        PresenceAction::of_code(byte) matches Some(a) ==> a.code() == byte,
        FrameType::of_code(byte) is Some <==> 1 <= byte <= 10,
        PresenceAction::of_code(byte) is Some <==> byte <= 3,
{
}

} // verus!
