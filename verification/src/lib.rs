//! Connection dispatch for a QUIC server.
//!
//! The dispatcher classifies inbound datagrams by the first packet header,
//! routes them to the connection that owns the destination connection ID,
//! answers unknown versions and unvalidated addresses statelessly, and keeps
//! the waiting queue, the timers and the set of connections with events.
//!
//! The connections themselves, the packet codec and the sockets belong to the
//! host: the dispatcher tells the host what to do next (`Action`) and is told
//! what came of it (`Event`).
//!
//! Instants and delays are `u64` counts of nanoseconds, instants from an
//! origin that the host chooses. Connections are named by `usize` numbers
//! that the dispatcher hands out when the host accepts them.

pub mod laws;
pub mod model;
pub mod packet;
pub mod retry;
pub mod server;
pub mod table;
pub mod timer;

pub use model::{GREASE_VERSION, MIN_INITIAL_PACKET_SIZE, QUIC_VERSION};
pub use packet::{Address, ConnectionId, Datagram, Output, PacketHdr, PacketType};
pub use retry::{InitialResult, RetryToken, RetryTokenResult};
pub use server::{
    Action, ActiveConnectionRef, ConnectionIdManager, Event, Routing, Server,
    ServerConnectionState, StatelessReply,
};
pub use table::ConnectionTable;
pub use timer::Timer;
