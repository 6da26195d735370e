//! Core execution engine of an Ethereum Virtual Machine: hardfork registries,
//! journaled world state with transactional rollback, call-frame construction,
//! and the host interface through which bytecode observes and mutates state.

pub mod db;
pub mod env;
pub mod evm_context;
pub mod host;
pub mod interpreter;
pub mod journaled_state;
pub mod optimism;
pub mod precompile;
pub mod primitives;
pub mod specification;
pub mod text;

use vstd::prelude::*;

verus! {

/// Maximum permitted call-tree depth.
pub const CALL_STACK_LIMIT: u64 = 1024;

} // verus!
