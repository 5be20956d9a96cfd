//! Remote shutdown over a shared secret: the configuration record, its
//! persisted forms, and the decisions of the listener.

pub mod configuration;
pub mod error;
pub mod file_storage;
pub mod ini_file;
pub mod ip_address;
pub mod listener_service;
pub mod location;
pub mod property_list;
pub mod registry;
pub mod round_trip;
pub mod storage;
pub mod text;
