pub mod legacy_ping;
