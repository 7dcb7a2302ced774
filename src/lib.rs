//! Core of a multi-account chat engine: the account registry, the
//! ephemeral-message engine and the per-account connection scheduler.

#[allow(unused_imports)]
use vstd::prelude::*;

pub mod accounts;
pub mod chat;
pub mod decimal;
pub mod ephemeral;
pub mod imap;
pub mod message;
pub mod scheduler;

verus! {

} // verus!
