//! Pulse: the message plane of a realtime publish/subscribe broker.
//!
//! Clients hold a duplex connection to the broker, subscribe to named
//! channels and publish opaque payloads, which the broker fans out to the
//! subscribers of the channel. This crate holds what decides how that works:
//!
//! - [`frames`]: the frames that travel on the wire;
//! - [`codec`]: the length-prefixed framing of frame bodies;
//! - [`channel`], [`presence`], [`message`]: one fan-out unit, who is present
//!   in it, and what is published to it;
//! - [`routing`] and [`router`]: the state of the broker as a mathematical
//!   value with the laws of its operations, and the router that implements it;
//! - [`session`]: the state machine of one connection;
//! - [`transport`], [`config`]: the boundary to the transport and the
//!   configuration of a server.
//!
//! Every function carries a contract that Verus proves. What is taken from
//! other crates (byte buffers, the concurrent maps of the router, the
//! broadcast queue, the clock) is described by contracts in [`buffer`],
//! [`registry`], [`broadcast`], [`clock`] and [`json`], which the proofs rely
//! on.

pub mod broadcast;
pub mod buffer;
pub mod channel;
pub mod clock;
pub mod codec;
pub mod config;
pub mod frames;
pub mod json;
pub mod message;
pub mod presence;
pub mod registry;
pub mod router;
pub mod routing;
pub mod session;
pub mod text;
pub mod transport;
pub mod version;

pub use channel::{Channel, ChannelId};
pub use codec::{decode, encode, ProtocolError};
pub use frames::{Frame, PresenceAction};
pub use message::Message;
pub use presence::{Presence, PresenceState};
pub use router::{Router, RouterConfig, RouterError};
pub use session::Session;
pub use transport::{ConnectionId, TransportError};
pub use version::{Version, PROTOCOL_MAJOR, PROTOCOL_MINOR};
