pub mod logging;
pub mod ops_endpoints;
pub mod readiness;
pub mod settings_loader;
pub mod startup;
pub mod utils;

pub use logging::{CommonLogAttributes, CreateLoggingRequest, HttpAppRootSpanBuilder, LogSettings, LoggingBuilder};
pub use ops_endpoints::{AppInfoSettings, DATE_ISO_FORMAT, GetAppInfoResponse, RuntimeInfo, format_date_time};
pub use readiness::ReadinessSettings;
pub use startup::ApplicationStartUpDisplayInfo;
