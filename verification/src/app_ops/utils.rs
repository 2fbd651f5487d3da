pub mod grpc_settings;
pub mod http_settings;
pub mod network;

pub use grpc_settings::GrpcSettings;
pub use http_settings::HttpSettings;
