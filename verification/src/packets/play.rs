pub mod chat;
pub mod disconnect;
