//! Mail-session lifecycle and live-synchronization core.
//!
//! Keeps one reusable connection handle per mail account, refreshes expiring
//! credentials with a safety margin, supervises per-folder "await new mail"
//! watchers, and provides the stable `account:folder:uid` addressing scheme.

pub mod codec;
pub mod credentials;
pub mod errors;
pub mod keys;
pub mod session;
pub mod stats;
pub mod text;
pub mod watch;
