//! A TCP connectivity probe: the verified core of the `tcping` tool.

pub mod config;
pub mod json_printer;
pub mod csv_printer;
pub mod printer;
pub mod session;
pub mod signal_handler;
pub mod statistics;
pub mod tcp_probe;
pub mod text;
pub mod timestamp;

pub use config::Config;
pub use statistics::Statistics;
pub use tcp_probe::{ProbeResult, TcpProbe};
