pub mod access;
pub mod addr;
pub mod config;
pub mod engine;
pub mod inventory;
pub mod ir;
pub mod models;
pub mod printers;
pub mod scripts;
pub mod text;
pub mod tickets;
pub mod visualizations;
pub mod zones;

use vstd::prelude::*;

verus! {

/// The failure taxonomy of the policy engine.
///
/// `NotFound` reports a missing interface or rule handle, `InvalidAddress` a
/// malformed `ip/prefix` string, `ProtocolError` a kernel-channel failure,
/// `UnsupportedAction` a rule action outside accept/drop, `ApplicationError`
/// a rejection by the external rule-application tool (carrying its
/// diagnostic text), and `LockError` a failed synchronization primitive.
#[derive(Debug, Clone)]
pub enum NetError {
    NotFound,
    InvalidAddress,
    ProtocolError,
    UnsupportedAction,
    ApplicationError(String),
    LockError,
}

} // verus!
