//! Verified core of a small administrative front-end: the bridge that
//! turns user-triggered actions (notify, fetch client data, upload a file)
//! into transport requests and folds each transport outcome back into the
//! shared UI state.
//!
//! The transport calls themselves (the host command invocation, the HTTP
//! requests, the file read) happen in the surrounding shell; every
//! decision and every state update is made here, under contract.

pub mod bridge;
pub mod codec;
pub mod numeric;
pub mod state;
