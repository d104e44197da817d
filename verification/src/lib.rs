//! The decisions of a desktop application's host bridge: which SSH key files
//! to report, what to reply to a request for a free port, and where the
//! bundled server binary lies. Reading the environment, the file system and
//! the network is left to the caller, who hands in what it found as plain
//! values.

pub mod paths;
pub mod port;
pub mod server_binary;
pub mod ssh_keys;
