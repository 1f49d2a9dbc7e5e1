pub mod login_start;
pub mod login_success;
pub mod set_compression;
