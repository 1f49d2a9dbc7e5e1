//! Wire formats of the Minecraft Java protocol (handshake, status, login and
//! play packets, the pre-Netty legacy ping) with their framing, VarInt
//! encoding and optional zlib compression, together with the decisions a
//! minimal server takes for each packet it receives.

pub mod big_endian;
pub mod codec;
pub mod compression;
pub mod error;
pub mod events;
pub mod game_state;
pub mod json;
pub mod legacy;
pub mod packets;
pub mod reader;
pub mod server;
pub mod state;
pub mod text;
pub mod var_int;
