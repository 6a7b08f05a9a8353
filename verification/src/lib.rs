//! Multiplexed tunnelling: the frame codec, the stream tables of both
//! endpoints, SOCKS5 admission and the buffer pools, with machine-checked
//! contracts.

pub mod cli;
pub mod clock;
pub mod entropy_events;
pub mod error;
pub mod key_rotation;
pub mod kill_switch;
pub mod message;
pub mod packet_pool;
pub mod replay_protection;
pub mod socks5;
pub mod stream_manager;
pub mod system;
pub mod text;
pub mod traffic_shaping;
pub mod tunnel;
pub mod tunnel_session;
pub mod vpn;
pub mod wire;

pub use error::ProtoError;
pub use message::{CommandType, StreamId, TunnelMessage, MAX_FRAME_SIZE};
