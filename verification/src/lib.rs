//! Core of a Minecraft-style proxy front end: variable-width integer and
//! frame codecs, the packet catalog, the handshake/status/login protocol
//! logic, and the directory of logged-in players.
pub mod backend;
pub mod codec;
pub mod config;
pub mod error;
pub mod handshake;
pub mod ident;
pub mod login;
pub mod packet;
pub mod packets;
pub mod registry;
pub mod status;
pub mod varint;
pub mod wire;

pub use backend::BackendServer;
pub use codec::{read_varint_peek, MinecraftCodec, MAX_PACKET_SIZE};
pub use config::{ProxyConfig, TakumiConfig};
pub use error::ProtocolError;
pub use handshake::{Handshake, HandshakeHandler};
pub use ident::{derive_offline_uuid, Uuid};
pub use login::{
    check_login_ack, decide_login, parse_login_start, LoginDecision, LoginRequest, LoginSession,
    LoginStage,
};
pub use packet::{Packet, PacketDirection, State};
pub use registry::{ConnectedPlayer, PlayerRegistry};
pub use status::{build_status_json, handle_status_ping, handle_status_request};
pub use varint::{read_varint, read_varlong, varint_size, write_varint, write_varlong};
pub use wire::{
    read_bool, read_byte_array, read_remaining, read_string, read_u16_be, write_bool,
    write_byte_array, write_string,
};
