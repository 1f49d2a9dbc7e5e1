pub mod ping;
pub mod status;
