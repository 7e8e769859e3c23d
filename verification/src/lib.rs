//! A local broker for approval requests: requests come in over a webhook, wait for a decision of
//! the machine's owner, and are answered once.
use vstd::prelude::*;

pub mod broker;
pub mod cli;
pub mod clock;
pub mod config;
pub mod control;
pub mod daemon;
pub mod debug_capture;
pub mod display;
pub mod interactive;
pub mod keys;
pub mod peer_identity;
pub mod policy;
pub mod profile_validation;
pub mod protocol;
pub mod rule_selector;
pub mod runtime_path;
pub mod screen;
pub mod text;
pub mod webhook;

verus! {

/// The version of the daemon and its clients.
pub const VERSION: &'static str = "0.1.0";

} // verus!
