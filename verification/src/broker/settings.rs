use vstd::prelude::*;
use crate::app_ops::logging::{CommonLogAttributes, CreateLoggingRequest, LogSettings};
use crate::app_ops::ops_endpoints::RuntimeInfo;
use crate::app_ops::readiness::ReadinessSettings;
use crate::app_ops::startup::{ApplicationStartUpDisplayInfo, bool_text};
use crate::app_ops::utils::grpc_settings::GrpcSettings;
use crate::app_ops::utils::http_settings::HttpSettings;
use crate::text::decimal;

verus! {

/// Name of the broker service.
pub const APP_NAME: &'static str = "open-sse-broker";

/// Prefix of the environment variables that configure the broker.
pub const APP_ENV_PREFIX: &'static str = "sse";

/// Everything the broker runs with: its settings and what it knows of itself.
#[derive(Clone)]
pub struct AppSettings {
    pub settings: Settings,
    pub runtime_info: RuntimeInfo,
}

/// The services the broker calls.
#[derive(Clone)]
pub struct OutgoingEndpoints {
    pub redis: String,
}

#[derive(Clone)]
pub struct Settings {
    pub environment: ExecutionEnvironment,
    pub http: HttpSettings,
    pub grpc: GrpcSettings,
    pub logging: LogSettings,
    pub outgoing_endpoints: OutgoingEndpoints,
    pub readiness: ReadinessSettings,
}

#[derive(Clone)]
pub struct ExecutionEnvironment {
    pub name: String,
    pub debug: bool,
}

impl CommonLogAttributes for AppSettings {
    fn get_commit_id(&self) -> (r: String)
        ensures
            r@ == self.runtime_info.git_commit_id@,
    {
        self.runtime_info.git_commit_id.clone()
    }

    fn get_correlation_header_name(&self) -> (r: String)
        ensures
            r@ == self.settings.logging.correlation_id_http_header@,
    {
        self.settings.logging.correlation_id_http_header.clone()
    }
}

impl AppSettings {
    /// The logging request of the broker: its name and log settings.
    pub fn create_logging_request(&self) -> (r: CreateLoggingRequest)
        ensures
            r.app_name == self.runtime_info.app_name,
            r.settings == self.settings.logging,
    {
        CreateLoggingRequest {
            app_name: self.runtime_info.app_name.clone(),
            settings: LogSettings {
                level: self.settings.logging.level.clone(),
                correlation_id_http_header: self.settings.logging.correlation_id_http_header.clone(),
            },
        }
    }

    /// What the broker reports when it starts: environment, debug flag and
    /// HTTP port.
    pub fn start_up_display_info(&self) -> (r: ApplicationStartUpDisplayInfo)
        ensures
            r.environment_name@ == self.settings.environment.name@,
            r.is_debug@ == bool_text(self.settings.environment.debug),
            r.port@ == decimal(self.settings.http.port as nat),
    {
        ApplicationStartUpDisplayInfo::new(
            self.settings.environment.name.as_str(),
            self.settings.environment.debug,
            self.settings.http.port,
        )
    }
}

} // verus!
