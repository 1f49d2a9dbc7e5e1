pub mod handshake;
pub mod login;
pub mod packet;
pub mod play;
pub mod status;
