//! Core of a dynamic DNS update service: who may change which hostnames,
//! which hosted zone each hostname belongs to, and which record changes
//! an update request turns into.

pub mod client;
pub mod create_user;
pub mod error;
pub mod ipv4;
pub mod nic;
pub mod password;
pub mod records;
pub mod store;
pub mod text;
pub mod zones;
