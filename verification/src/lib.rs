//! Verified core of a small SOCKS5-to-tunnel proxy: line bookkeeping,
//! the SOCKS5 handshake of browser-facing lines, the SNI shuffling frame
//! exchanged with the remote side, the hub that pairs lines and keeps the
//! pool of caller lines, the log layout, and the settings read from the
//! INI file.

pub mod head;
pub mod text;
pub mod sni;
pub mod line;
pub mod fox;
pub mod operator;
pub mod hub;
pub mod pool;
pub mod ini;
pub mod config;
pub mod log;

pub use config::Config;
pub use head::{LineType, LogTag};
pub use hub::{EventFlags, EventStep, Hub, Route};
pub use line::{Line, LineAge, Status, WriteOutcome};
pub use log::Log;
pub use pool::{CheckPlan, OldCheck};
