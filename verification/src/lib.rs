//! Verified core of the open-sse services: the server-sent-events exchange,
//! the client registration messages shared by the server and the broker,
//! and the operational helpers both services use.

pub mod server;
pub mod text;
pub mod ipv4;
pub mod protocol;
pub mod broker;
pub mod app_ops;
pub mod actix_web_utils;
