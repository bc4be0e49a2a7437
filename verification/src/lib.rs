//! Verified core of the Isolate DPI-bypass strategy toolkit.
pub mod text;
pub mod decimal;
pub mod analyzer;
pub mod error;
pub mod composition;
pub mod loader;
pub mod combiner;
pub mod models;
pub mod endpoints;
pub mod composition_config;
pub mod engine;
pub mod engine_state;
pub mod keyed;
pub mod history;
pub mod telemetry;
pub mod tester;
pub mod tcp_timestamps;
pub mod tun;
pub mod singbox;
pub mod records;
pub mod system_proxy;
pub mod probe;
pub mod prewarming;
pub mod service_checks;
