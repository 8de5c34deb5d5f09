//! The destination side of Tunnet SSH: who may log in, as whom, and what the
//! session may do.
pub mod account;
pub mod authorize;
pub mod capabilities;
pub mod host_key;
pub mod intercept;
pub mod launch;
pub mod listener;
pub mod server;
pub mod session_child;
pub mod shell_session;
