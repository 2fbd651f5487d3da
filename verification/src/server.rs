pub mod application;
pub mod routes;
pub mod settings;
pub mod sse_exchange;
