//! Authorization core for a chat bot that grants and revokes a privileged
//! "operator" role.
//!
//! The crate holds the three parts of that bot worth stating precisely:
//! resolving the policy from raw configuration strings ([`config`]), deciding
//! whether a requester may act ([`auth`]), and the per-invocation command
//! state machine with its user-visible outcome messages ([`command`]). The
//! chat gateway, the network client and the event loop stay outside; they
//! hand these functions plain values and carry the answers back.

pub mod auth;
pub mod command;
pub mod config;
