//! The execution environment: block, transaction and chain configuration,
//! immutable during a single call tree.

use vstd::prelude::*;
use crate::primitives::{Address, U256};

verus! {

/// Chain-level configuration.
#[derive(Clone, Copy, Debug, PartialEq, Eq, Structural, Hash)]
pub struct CfgEnv {
    /// The chain the transaction belongs to.
    pub chain_id: u64,
}

impl Default for CfgEnv {
    /// Chain id one.
    fn default() -> (r: Self)
        ensures
            r.chain_id == 1,
    {
        CfgEnv { chain_id: 1 }
    }
}

/// Block-level fields.
#[derive(Clone, Copy, Debug, PartialEq, Eq, Structural, Hash)]
pub struct BlockEnv {
    /// Height of the block.
    pub number: u64,
    /// Beneficiary of the block's fees.
    pub coinbase: Address,
    /// Timestamp of the block.
    pub timestamp: u64,
    /// Gas the whole block may spend.
    pub gas_limit: u64,
    /// Base fee per unit of gas.
    pub basefee: u64,
}

impl Default for BlockEnv {
    /// A zero block with a zero coinbase.
    fn default() -> (r: Self)
        ensures
            r.number == 0,
            r.coinbase == (Address { hi: 0, lo: 0 }),
            r.timestamp == 0,
            r.gas_limit == u64::MAX,
            r.basefee == 0,
    {
        BlockEnv {
            number: 0,
            coinbase: Address::zero(),
            timestamp: 0,
            gas_limit: u64::MAX,
            basefee: 0,
        }
    }
}

/// Transaction-level fields.
#[derive(Clone, Debug, PartialEq, Eq, Hash)]
pub struct TxEnv {
    /// Account the transaction comes from.
    pub caller: Address,
    /// Gas the transaction may spend.
    pub gas_limit: u64,
    /// Value the transaction carries.
    pub value: U256,
    /// Call data.
    pub data: Vec<u8>,
    /// The caller's nonce, when checked.
    pub nonce: Option<u64>,
}

impl Default for TxEnv {
    /// A zero-value transaction from the zero address.
    fn default() -> (r: Self)
        ensures
            r.caller == (Address { hi: 0, lo: 0 }),
            r.gas_limit == u64::MAX,
            r.value.as_nat() == 0,
            r.data@.len() == 0,
            r.nonce is None,
    {
        TxEnv {
            caller: Address::zero(),
            gas_limit: u64::MAX,
            value: U256::zero(),
            data: Vec::new(),
            nonce: None,
        }
    }
}

/// The whole execution environment.
#[derive(Clone, Debug, PartialEq, Eq, Hash)]
pub struct Env {
    /// Chain-level configuration.
    pub cfg: CfgEnv,
    /// Block-level fields.
    pub block: BlockEnv,
    /// Transaction-level fields.
    pub tx: TxEnv,
}

/// What the default environment holds: chain id one, a zero block with the
/// maximum gas limit, and a zero-value transaction from the zero address.
pub open spec fn is_default_env(e: Env) -> bool {
    &&& e.cfg == (CfgEnv { chain_id: 1 })
    &&& e.block == (BlockEnv {
        number: 0,
        coinbase: Address { hi: 0, lo: 0 },
        timestamp: 0,
        gas_limit: u64::MAX,
        basefee: 0,
    })
    &&& e.tx.caller == (Address { hi: 0, lo: 0 })
    &&& e.tx.gas_limit == u64::MAX
    &&& e.tx.value.as_nat() == 0
    &&& e.tx.data@ == Seq::<u8>::empty()
    &&& e.tx.nonce is None
}

impl Default for Env {
    /// The default environment: default chain, block and transaction.
    fn default() -> (r: Self)
        ensures
            is_default_env(r),
    {
        let r = Env { cfg: CfgEnv::default(), block: BlockEnv::default(), tx: TxEnv::default() };
        proof {
            assert(r.tx.data@ =~= Seq::<u8>::empty());
        }
        r
    }
}

} // verus!
