//! A client-side workflow orchestrator for an eventually consistent ledger.
//!
//! The crate builds ledger identities (accounts) and executable intents
//! (notes, scripts) deterministically, assembles transaction requests,
//! reconciles a local session cache against a remote authority, and drives
//! a commitment-polling state machine until a watched transaction or note
//! is observed as committed.  The remote authority itself, the script
//! assembler, and key generation are external collaborators: the library
//! models their data as plain values and takes their answers as inputs.

pub mod account;
pub mod compiler;
pub mod digest;
pub mod errors;
pub mod field;
pub mod note;
pub mod poller;
pub mod rng;
pub mod session;
pub mod telemetry;
pub mod tx;
pub mod workflow;
