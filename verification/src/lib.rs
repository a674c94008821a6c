//! Core of a UTXO virtual machine: the transaction model with its canonical
//! byte format, and the interpreter's memory with its ownership rules.

pub mod codec;
pub mod consts;
pub mod create;
pub mod crypto;
pub mod error;
pub mod executable;
pub mod id;
pub mod input;
pub mod introspection;
pub mod memory;
pub mod mint;
pub mod output;
pub mod script;
pub mod transaction;
pub mod types;
pub mod validity;
