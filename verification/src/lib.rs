//! Verified core of the Bevy/Solana suite: the Anchor IDL model, the plan that
//! the component generator derives from an IDL, the instruction-data encoding
//! that generated builders perform, the account deserializer, and the key and
//! wire helpers around them.

pub mod pubkey;
pub mod idl;
pub mod ident;
pub mod naming;
pub mod types;
pub mod encode;
pub mod plan;
pub mod builder;
pub mod account;
pub mod wire;
