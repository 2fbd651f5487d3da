use open_sse::app_ops::logging::{CommonLogAttributes, LogSettings};
use open_sse::app_ops::ops_endpoints::RuntimeInfo;
use open_sse::app_ops::utils::http_settings::HttpSettings;
use open_sse::server::application::Application;
use open_sse::server::settings::{AppSettings, ExecutionEnvironment, Settings, APP_ENV_PREFIX, APP_NAME};

#[test]
fn server_settings_views() {
    let s = AppSettings {
        settings: Settings {
            environment: ExecutionEnvironment { name: "staging".to_string(), debug: false },
            http: HttpSettings { port: 8080, url_prefix: "/sse".to_string(), allowed_origin: "https://a.b".to_string() },
            logging: LogSettings { level: "info".to_string(), correlation_id_http_header: "x-correlation-id".to_string() },
        },
        runtime_info: RuntimeInfo::new(APP_NAME, None, "t".to_string(), "10.0.0.2".to_string()),
    };
    assert_eq!(APP_NAME, "open-sse-server");
    assert_eq!(APP_ENV_PREFIX, "SSE_");
    assert_eq!(s.get_commit_id(), "local-dev");
    assert_eq!(s.get_correlation_header_name(), "x-correlation-id");
    let request = s.create_logging_request();
    assert_eq!(request.app_name, "open-sse-server");
    assert_eq!(request.settings.correlation_id_http_header, "x-correlation-id");
    let info = s.start_up_display_info();
    assert_eq!(info.environment_name, "staging");
    assert_eq!(info.is_debug, "false");
    assert_eq!(info.port, "8080");
    let app = Application::new(s.settings.http.clone());
    assert_eq!(app.settings().allowed_origin, "https://a.b");
}
