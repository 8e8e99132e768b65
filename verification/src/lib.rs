//! Client-side implementation of the Spread group-communication wire
//! protocol: a connection handshake, a binary message codec, runtime
//! endianness resolution, and a frame parser for the byte stream between a
//! client and a Spread daemon.
//!
//! The crate never touches a socket itself: the handshake is a state machine
//! that tells its caller what to write and how many bytes to read next, and
//! the session operations return the frames to be written, so that the
//! transport can live entirely outside the library.

pub mod client;
pub mod codec;
pub mod error;
pub mod framer;
pub mod handshake;
pub mod text;
pub mod util;

pub use client::SpreadClient;
pub use codec::encode_connect_message;
pub use error::SpreadError;
pub use framer::SpreadMessage;
