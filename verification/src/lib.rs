//! Decisions of a self-hosted location sharing server.

pub mod admin;
pub mod api;
pub mod clock;
pub mod console;
pub mod coordinates;
pub mod decimal;
pub mod device_id;
pub mod header;
pub mod hex;
pub mod lang;
pub mod markup;
pub mod pages;
pub mod query;
pub mod records;
pub mod requests;
pub mod results;
pub mod secret;
pub mod settings;
pub mod store;
pub mod tables;
pub mod text;
