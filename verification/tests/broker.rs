use open_sse::app_ops::logging::{CommonLogAttributes, LogSettings};
use open_sse::app_ops::ops_endpoints::RuntimeInfo;
use open_sse::app_ops::readiness::ReadinessSettings;
use open_sse::app_ops::utils::grpc_settings::GrpcSettings;
use open_sse::app_ops::utils::http_settings::HttpSettings;
use open_sse::broker::application::{Application, StartUpError};
use open_sse::broker::readiness_checks::{readiness_step, ReadinessStep};
use open_sse::broker::redis_helpers::open_redis;
use open_sse::broker::run::{readiness_check_outcome, RunError};
use open_sse::broker::settings::{AppSettings, ExecutionEnvironment, OutgoingEndpoints, Settings};

fn settings() -> AppSettings {
    AppSettings {
        settings: Settings {
            environment: ExecutionEnvironment { name: "test".to_string(), debug: true },
            http: HttpSettings { port: 8081, url_prefix: "/broker".to_string(), allowed_origin: "*".to_string() },
            grpc: GrpcSettings { port: 50051 },
            logging: LogSettings { level: "debug".to_string(), correlation_id_http_header: "x-cid".to_string() },
            outgoing_endpoints: OutgoingEndpoints { redis: "redis://127.0.0.1:6379".to_string() },
            readiness: ReadinessSettings { check: false, retry_count: 3, retry_interval_in_seconds: 1 },
        },
        runtime_info: RuntimeInfo::new("open-sse-broker", Some("c0ffee".to_string()), "t".to_string(), "1.2.3.4".to_string()),
    }
}

/// Runs the readiness decisions over the given probe answers.
fn run_readiness(max: u8, probes: &[bool]) -> (bool, usize, usize) {
    let mut retry_count = 0u8;
    let mut used = 0;
    let mut warnings = 0;
    loop {
        let reachable = probes[used];
        used += 1;
        match readiness_step(retry_count, max, reachable) {
            ReadinessStep::Ready => return (true, used, warnings),
            ReadinessStep::NotReady => return (false, used, warnings),
            ReadinessStep::Retry { next_retry_count, warn } => {
                if warn {
                    warnings += 1;
                }
                retry_count = next_retry_count;
            }
        }
    }
}

#[test]
fn readiness_gives_up_after_the_retries() {
    assert_eq!(run_readiness(3, &[false, false, false, false, true]), (false, 4, 2));
    assert_eq!(run_readiness(3, &[false, false, true, false]), (true, 3, 1));
    assert_eq!(run_readiness(0, &[false, true]), (false, 1, 0));
    assert_eq!(run_readiness(0, &[true]), (true, 1, 0));
    assert_eq!(run_readiness(255, &[false; 300]).1, 256);
    assert_eq!(readiness_step(254, 255, false), ReadinessStep::Retry { next_retry_count: 255, warn: true });
    assert_eq!(readiness_step(255, 255, false), ReadinessStep::NotReady);
}

#[test]
fn readiness_only_run() {
    assert_eq!(readiness_check_outcome(true), Ok(()));
    assert_eq!(readiness_check_outcome(false), Err(RunError::NotReady));
}

#[test]
fn redis_urls() {
    assert!(open_redis("redis://127.0.0.1:6379").is_ok());
    let client = open_redis("redis://cache.internal:6380/2").ok().unwrap();
    assert_eq!(client.get_connection_info().addr.to_string(), "cache.internal:6380");
    assert_eq!(client.get_connection_info().redis.db, 2);
    assert!(open_redis("redis://cache.internal:6380/1").is_ok());
    assert!(matches!(open_redis("not a url"), Err(StartUpError::FailToGetRedisClient(_))));
    match (open_redis("not a url"), redis::Client::open("not a url")) {
        (Err(StartUpError::FailToGetRedisClient(ours)), Err(theirs)) => {
            assert_eq!(ours.kind(), theirs.kind());
            assert_eq!(ours.to_string(), theirs.to_string());
        }
        _ => panic!("both should fail"),
    }
    assert!(matches!(open_redis("http://127.0.0.1:6379"), Err(StartUpError::FailToGetRedisClient(_))));
}

#[test]
fn broker_settings_views() {
    let s = settings();
    assert_eq!(s.get_commit_id(), "c0ffee");
    assert_eq!(s.get_correlation_header_name(), "x-cid");
    let request = s.create_logging_request();
    assert_eq!(request.app_name, "open-sse-broker");
    assert_eq!(request.settings.level, "debug");
    let info = s.start_up_display_info();
    assert_eq!(info.environment_name, "test");
    assert_eq!(info.is_debug, "true");
    assert_eq!(info.port, "8081");
    let app = Application::new(s.settings.http.clone());
    assert_eq!(app.settings().port, 8081);
    assert_eq!(app.settings().url_prefix, "/broker");
}
