//! Telemetry-collection core for a status bar.
//!
//! Each block samples host state (CPU utilization from the kernel statistics
//! pseudo-file, wireless connectivity from the wireless pseudo-files and
//! command-line utilities) and renders it into a short display string.  This
//! crate holds the stateful delta computation, the fallback-chain decisions
//! and the output templating; reading the pseudo-files and spawning the
//! utilities is left to the embedding program, which hands the raw text in.

pub mod cpu;
pub mod errors;
pub mod num;
pub mod text;
pub mod wifi_block;
pub mod wifi_info;
