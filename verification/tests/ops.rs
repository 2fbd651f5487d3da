use open_sse::actix_web_utils::{cors_policy, create_cors_policy, header_value_text, AllowedOrigins, CORS_MAX_AGE};
use open_sse::app_ops::logging::{CreateLoggingRequest, HttpAppRootSpanBuilder, LogSettings, LoggingBuilder};
use open_sse::app_ops::ops_endpoints::{format_date_time, DateFormatError, RuntimeInfo, DATE_ISO_FORMAT, PING_RESPONSE};
use open_sse::app_ops::settings_loader::settings_sources;
use open_sse::app_ops::startup::ApplicationStartUpDisplayInfo;
use open_sse::app_ops::utils::http_settings::{any_address_string, HttpSettings};
use open_sse::app_ops::utils::network::{ipv4_addresses, select_host_ip_address, InterfaceAddress};
use open_sse::text::{decimal_string, parse_u8_str, split_str};

#[test]
fn start_up_display_info() {
    let info = ApplicationStartUpDisplayInfo::new("production", true, 8080);
    assert_eq!(info.environment_name, "production");
    assert_eq!(info.is_debug, "true");
    assert_eq!(info.port, "8080");
    let info = ApplicationStartUpDisplayInfo::new("dev", false, 0);
    assert_eq!(info.is_debug, "false");
    assert_eq!(info.port, "0");
    assert_eq!(ApplicationStartUpDisplayInfo::new("", false, 65535).port, "65535");
}

#[test]
fn listener_addresses() {
    let settings = HttpSettings { port: 8080, url_prefix: "/api".to_string(), allowed_origin: "*".to_string() };
    assert_eq!(settings.listener_address(), "0.0.0.0:8080");
    assert_eq!(any_address_string(50051), "0.0.0.0:50051");
}

#[test]
fn decimal_rendering_matches_to_string() {
    for n in [0u64, 1, 9, 10, 99, 100, 255, 1000, 65535, u64::MAX] {
        assert_eq!(decimal_string(n), n.to_string());
    }
}

#[test]
fn byte_parsing_matches_std() {
    for s in ["", "+", "-", "0", "+0", "00", "255", "256", "+255", "-1", "1a", " 1", "1 ", "0255", "999999999999"] {
        assert_eq!(parse_u8_str(s), s.parse::<u8>().ok(), "input {:?}", s);
    }
}

#[test]
fn splitting_matches_std() {
    for s in ["", ".", "a", "a.b", ".a.", "a..b", "1.2.3.4"] {
        let ours: Vec<&str> = split_str(s, '.');
        let theirs: Vec<&str> = s.split('.').collect();
        assert_eq!(ours, theirs);
    }
}

#[test]
fn host_address_skips_loopback() {
    let addresses = vec!["127.0.0.1:0".to_string(), "192.168.1.5:0".to_string()];
    assert_eq!(select_host_ip_address(&addresses), "192.168.1.5");
    let addresses = vec!["10.1.2.3:0".to_string(), "127.0.0.1:0".to_string()];
    assert_eq!(select_host_ip_address(&addresses), "10.1.2.3");
    let addresses = vec!["127.0.0.1:0".to_string()];
    assert_eq!(select_host_ip_address(&addresses), "127.0.0.1");
    let addresses = vec!["172.17.0.2".to_string()];
    assert_eq!(select_host_ip_address(&addresses), "172.17.0.2");
}

#[test]
fn only_ipv4_addresses_are_candidates() {
    let interfaces = vec![
        InterfaceAddress::Unreadable { interface_name: "lo".to_string() },
        InterfaceAddress::Inet { address: "127.0.0.1:0".to_string() },
        InterfaceAddress::OtherFamily,
        InterfaceAddress::Inet { address: "10.0.0.7:0".to_string() },
    ];
    let addresses = ipv4_addresses(&interfaces);
    assert_eq!(addresses, vec!["127.0.0.1:0".to_string(), "10.0.0.7:0".to_string()]);
    assert_eq!(select_host_ip_address(&addresses), "10.0.0.7");
}

#[test]
fn runtime_info_defaults_commit() {
    let info = RuntimeInfo::new("svc", None, "2021-01-01 00:00:00".to_string(), "10.0.0.1".to_string());
    assert_eq!(info.app_name, "svc");
    assert_eq!(info.git_commit_id, "local-dev");
    let info = RuntimeInfo::new("svc", Some("abc123".to_string()), "s".to_string(), "ip".to_string());
    assert_eq!(info.git_commit_id, "abc123");
    let response = info.app_info_response("now".to_string());
    assert_eq!(response.app_name, "svc");
    assert_eq!(response.git_commit_id, "abc123");
    assert_eq!(response.started, "s");
    assert_eq!(response.current_time, "now");
    assert_eq!(response.ip_address, "ip");
    assert_eq!(PING_RESPONSE, "application running\n");
}

#[test]
fn formats_dates() {
    assert_eq!(format_date_time(0, DATE_ISO_FORMAT).unwrap(), "1970-01-01 00:00:00");
    assert_eq!(format_date_time(1_000_000_000_000_000_000, DATE_ISO_FORMAT).unwrap(), "2001-09-09 01:46:40");
    assert_eq!(format_date_time(-1, DATE_ISO_FORMAT).unwrap(), "1969-12-31 23:59:59");
    assert_eq!(format_date_time(1_999_999_999, "[second].[subsecond digits:3]").unwrap(), "01.999");
    assert!(matches!(format_date_time(0, "[bogus"), Err(DateFormatError::InvalidDescription(_))));
    assert!(matches!(format_date_time(i128::MAX, DATE_ISO_FORMAT), Err(DateFormatError::OutOfRange(_))));
}

#[test]
fn settings_come_from_the_service_directory() {
    let sources = settings_sources("sse", "open-sse-broker", None);
    assert_eq!(sources.default_file, "config/open-sse-broker/default.toml");
    assert_eq!(sources.environment_file, "config/open-sse-broker/development");
    assert_eq!(sources.local_file, "config/open-sse-broker/local");
    assert_eq!(sources.environment_name, "development");
    assert_eq!(sources.env_prefix, "sse");
    let sources = settings_sources("SSE_", "srv", Some("production".to_string()));
    assert_eq!(sources.environment_file, "config/srv/production");
    assert_eq!(sources.environment_name, "production");
}

#[test]
fn cors_policies() {
    let any = cors_policy("*");
    assert!(any.any_method && any.any_header);
    assert_eq!(any.max_age, 3600);
    assert_eq!(CORS_MAX_AGE, 3600);
    assert!(matches!(any.origins, AllowedOrigins::Any));
    let one = cors_policy("https://example.com");
    match one.origins {
        AllowedOrigins::Only(o) => assert_eq!(o, "https://example.com"),
        AllowedOrigins::Any => panic!("expected a single origin"),
    }
    assert!(matches!(cors_policy("**").origins, AllowedOrigins::Only(_)));
    let _ = create_cors_policy("*");
    let _ = create_cors_policy("https://example.com");
}

#[test]
fn logging_builder_keeps_its_request() {
    let settings = LogSettings { level: "info".to_string(), correlation_id_http_header: "x-correlation-id".to_string() };
    let builder = LoggingBuilder::new(CreateLoggingRequest { app_name: "svc".to_string(), settings });
    assert_eq!(builder.app_name(), "svc");
    assert_eq!(builder.settings().level, "info");
    assert_eq!(builder.settings().correlation_id_http_header, "x-correlation-id");
}

#[test]
fn span_correlation_ids() {
    assert_eq!(HttpAppRootSpanBuilder::<()>::correlation_id(Some("abc")), "abc");
    assert_eq!(HttpAppRootSpanBuilder::<()>::correlation_id(None), "none");
}

#[test]
fn header_value_texts() {
    assert!(header_value_text("https://example.com"));
    assert!(header_value_text("*"));
    assert!(header_value_text("a\tb"));
    assert!(header_value_text("caf\u{e9}"));
    assert!(header_value_text(""));
    assert!(!header_value_text("/#\n"));
    assert!(!header_value_text("a\u{7f}"));
    assert!(!header_value_text("\u{1f}"));
}
