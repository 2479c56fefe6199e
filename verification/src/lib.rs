//! The conversations of a Modbus TCP proxy, kept apart from the sockets and the
//! channels that carry them out.
//!
//! A conversation that waits for the network is cut at each wait. What is left
//! to do is a value; its `resume` takes what the wait gave and says what comes
//! next. Connections (`S`) and reply channels (`R`) are carried through and
//! never looked into.

pub mod client;
pub mod clients;
pub mod device;
pub mod dial;
pub mod error;
pub mod exchange;
pub mod frame;
pub mod server;
pub mod task;

pub use client::{
    Announcing, Arriving, Awaiting, ClientStep, Forwarding, Leaving, Listening, Replying,
};
pub use device::{Device, RawRead, RawWrite, REPLY_TIMEOUT_SECS};
pub use dial::{create_connection, Dialed, Dialing, Opened, Settling};
pub use error::Error;
pub use exchange::{Connecting, ExchangeStep, Reading, Writing};
pub use frame::{frame_size, read_frame, BodyRead, Frame, HeaderRead, HEADER_LEN};
pub use server::{Bridge, BridgeTask, Listen, Modbus, Server, QUEUE_LEN};
pub use task::{InFlight, Message, Receiving, RunStep};
