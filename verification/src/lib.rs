//! A two-tier registry of independent stateful entities: a museum that owns a
//! permissioned collection of memes, each meme tracking votes, comments and
//! donations.
//!
//! Every entity is a plain state record. Each entry point takes the calling
//! context as an explicit argument and returns the outgoing requests it wants
//! the host to deliver, so the whole protocol can be driven without a live
//! host.

pub mod access;
pub mod context;
pub mod dispatch;
pub mod error;
pub mod ledger;
pub mod meme;
pub mod meme_laws;
pub mod museum;
pub mod museum_laws;
pub mod pending;
pub mod protocol_laws;
pub mod seq_facts;
pub mod state;

pub use crate::context::Context;
pub use crate::dispatch::Dispatch;
pub use crate::error::Error;
pub use crate::meme::Meme;
pub use crate::museum::Museum;
pub use crate::state::{Category, Lifecycle, Outcome};
