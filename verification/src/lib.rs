//! Verified core of a private desktop assistant driven from a paired phone:
//! intent recognition and approval, input-automation plans, the HMAC-chained
//! audit log, sealing of stored fields and session traffic, the vault key,
//! admission and authentication of mobile sessions, model selection and
//! prompt checks, and the desktop host's pairing and publishing decisions.
use vstd::prelude::*;

pub mod text;
pub mod json;
pub mod crypto;
pub mod automation;
pub mod intent;
pub mod audit;
pub mod security;
pub mod db;
pub mod streaming;
pub mod desktop;
pub mod ai;
pub mod voice;
pub mod camera;
pub mod memory;
pub mod capture;
pub mod system_monitor;

verus! {
} // verus!
