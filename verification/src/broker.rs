pub mod application;
pub mod clients_service;
pub mod contracts;
pub mod readiness_checks;
pub mod redis_helpers;
pub mod run;
pub mod settings;
