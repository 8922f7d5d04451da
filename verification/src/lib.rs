//! Policy core of the TCP Optimiser module: interface classification,
//! congestion-control policy resolution, runtime-control state transitions,
//! checkpoint and baseline validation, and the parsers for kernel and tool
//! output that these decisions read.
pub mod text;
pub mod config;
pub mod network;
pub mod clock;
pub mod control;
pub mod sysctl;
pub mod daemon;
pub mod daemon_loop;
pub mod daemon_apply;
pub mod digest;
pub mod kernel_module;
pub mod integrity;
pub mod checkpoint;
pub mod policy;
pub mod plan;
pub mod stats;
pub mod proxy;
pub mod profile;
pub mod order;
pub mod baseline;
pub mod bbr2;
pub mod build_info;
pub mod baseline_status;
pub mod install;
pub mod adaptive;
pub mod logging;
pub mod liveness;
pub mod health;
