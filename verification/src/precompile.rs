//! Precompile dispatch: the hardforks at which the set of built-in contracts
//! changed, and the outcome taxonomy of running one.

use vstd::prelude::*;
use crate::primitives::{copy_bytes, Address};
use crate::specification::SpecId;

verus! {

/// Output of a successful precompile run.
#[derive(Clone, Debug, PartialEq, Eq, Hash)]
pub struct PrecompileOutput {
    /// Gas the routine consumed.
    pub gas_used: u64,
    /// The bytes it returned.
    pub bytes: Vec<u8>,
}

/// Why a precompile run failed.
#[derive(Clone, Debug, PartialEq, Eq, Hash)]
pub enum PrecompileErrors {
    /// A recoverable failure; `oog` tells gas exhaustion apart from the
    /// rest.
    Error { oog: bool },
    /// A misconfiguration that aborts the whole call tree.
    Fatal { msg: String },
}

/// What one precompile run yields, mathematically.
pub enum PrecompileResultModel {
    /// The routine succeeds, consuming `gas_used` and returning `bytes`.
    Success { gas_used: u64, bytes: Seq<u8> },
    /// The routine fails recoverably; `oog` tells gas exhaustion apart.
    Failure { oog: bool },
    /// The routine reports a fatal misconfiguration.
    Fatal { msg: Seq<char> },
}

/// A registry of built-in contracts, looked up by address. Users may
/// implement their own; frame construction relies only on the stated
/// contract of its methods.
pub trait PrecompileSet {
    /// The addresses the registry serves.
    spec fn addr_set(&self) -> Set<Address>;

    /// What the routine at `address` yields on `input` with `gas_limit` gas;
    /// meaningful only for addresses the registry serves.
    spec fn outcome(&self, address: Address, input: Seq<u8>, gas_limit: u64) -> PrecompileResultModel;

    /// Whether the registry serves `address`.
    fn contains(&self, address: &Address) -> (r: bool)
        ensures
            r == self.addr_set().contains(*address),
    ;

    /// The addresses the registry serves.
    fn addresses(&self) -> (r: Vec<Address>)
        ensures
            forall|a: Address| #[trigger] r@.contains(a) <==> self.addr_set().contains(a),
    ;

    /// Runs the routine at `address` on `input` with `gas_limit` gas, or
    /// returns nothing if the registry serves no such address.
    fn call(&mut self, address: &Address, input: &Vec<u8>, gas_limit: u64) -> (r: Option<
        Result<PrecompileOutput, PrecompileErrors>,
    >)
        ensures
            final(self).addr_set() == old(self).addr_set(),
            forall|a: Address, i: Seq<u8>, g: u64| #[trigger] final(self).outcome(a, i, g) == old(
                self,
            ).outcome(a, i, g),
            (r is Some) == old(self).addr_set().contains(*address),
            r matches Some(out) ==> match old(self).outcome(*address, input@, gas_limit) {
                PrecompileResultModel::Success { gas_used, bytes } => {
                    &&& out matches Ok(o) && o.gas_used == gas_used && o.bytes@ == bytes
                },
                PrecompileResultModel::Failure { oog } => {
                    &&& out matches Err(PrecompileErrors::Error { oog: e_oog }) && e_oog == oog
                },
                PrecompileResultModel::Fatal { msg } => {
                    &&& out matches Err(PrecompileErrors::Fatal { msg: m }) && m@ == msg
                },
            },
    ;
}

/// What one registered built-in does on every input.
#[derive(Clone, Debug, PartialEq, Eq, Hash)]
pub enum PrecompileBehavior {
    /// The routine succeeds, consuming the given gas and returning the given
    /// bytes.
    Success { gas_used: u64, bytes: Vec<u8> },
    /// The routine fails recoverably.
    Failure { oog: bool },
    /// The routine reports a fatal misconfiguration.
    Fatal { msg: String },
}

/// The mathematical content of one bound behavior.
pub open spec fn behavior_model(b: PrecompileBehavior) -> PrecompileResultModel {
    match b {
        PrecompileBehavior::Success { gas_used, bytes } => PrecompileResultModel::Success {
            gas_used,
            bytes: bytes@,
        },
        PrecompileBehavior::Failure { oog } => PrecompileResultModel::Failure { oog },
        PrecompileBehavior::Fatal { msg } => PrecompileResultModel::Fatal { msg: msg@ },
    }
}

/// The behavior a table binds to an address: the first entry wins, as the
/// scan below finds it.
pub open spec fn table_outcome(s: Seq<(Address, PrecompileBehavior)>, a: Address) -> PrecompileResultModel
    decreases s.len(),
{
    if s.len() == 0 {
        PrecompileResultModel::Failure { oog: false }
    } else if s.first().0 == a {
        behavior_model(s.first().1)
    } else {
        table_outcome(s.drop_first(), a)
    }
}

proof fn lemma_table_outcome_first(s: Seq<(Address, PrecompileBehavior)>, i: int)
    requires
        0 <= i < s.len(),
        forall|k: int| 0 <= k < i ==> (#[trigger] s[k]).0 != s[i].0,
    ensures
        table_outcome(s, s[i].0) == behavior_model(s[i].1),
    decreases s.len(),
{
    if i > 0 {
        assert forall|k: int| 0 <= k < i - 1 implies (#[trigger] s.drop_first()[k]).0 != s.drop_first()[
            i - 1].0 by {
            assert(s.drop_first()[k] == s[k + 1]);
            assert(s.drop_first()[i - 1] == s[i]);
        }
        assert(s.drop_first()[i - 1] == s[i]);
        lemma_table_outcome_first(s.drop_first(), i - 1);
        assert(s.first().0 != s[i].0);
    }
}

/// A table-driven registry of built-in contracts: each address is bound to a
/// fixed behavior. The cryptographic built-ins of a production chain live
/// outside this crate's scope; this registry carries the dispatch structure.
pub struct ContextPrecompiles {
    /// The registered routines, keyed by address.
    pub entries: Vec<(Address, PrecompileBehavior)>,
}

impl ContextPrecompiles {
    /// An empty registry.
    pub fn new() -> (r: ContextPrecompiles)
        ensures
            r.entries@.len() == 0,
            r.addr_set() =~= Set::<Address>::empty(),
    {
        ContextPrecompiles { entries: Vec::new() }
    }

    /// Binds `address` to `behavior`.
    pub fn insert(&mut self, address: Address, behavior: PrecompileBehavior)
        ensures
            final(self).entries@ == old(self).entries@.push((address, behavior)),
            final(self).addr_set() == old(self).addr_set().insert(address),
    {
        self.entries.push((address, behavior));
        proof {
            assert forall|a: Address| #[trigger] self.addr_set().contains(a) implies (old(
                self,
            ).addr_set().contains(a) || a == address) by {
                let k = choose|k: int|
                    0 <= k < self.entries@.len() && (#[trigger] self.entries@[k]).0 == a;
                if k < old(self).entries@.len() {
                    assert(old(self).entries@[k].0 == a);
                }
            }
            assert forall|a: Address| (old(self).addr_set().contains(a) || a
                == address) implies #[trigger] self.addr_set().contains(a) by {
                if old(self).addr_set().contains(a) {
                    let k = choose|k: int|
                        0 <= k < old(self).entries@.len() && (#[trigger] old(
                            self,
                        ).entries@[k]).0 == a;
                    assert(self.entries@[k].0 == a);
                } else {
                    assert(self.entries@[self.entries@.len() - 1].0 == a);
                }
            }
            assert(self.addr_set() =~= old(self).addr_set().insert(address));
        }
    }
}

impl Default for ContextPrecompiles {
    /// An empty registry.
    fn default() -> (r: Self)
        ensures
            r.entries@.len() == 0,
            r.addr_set() =~= Set::<Address>::empty(),
    {
        ContextPrecompiles::new()
    }
}

impl PrecompileSet for ContextPrecompiles {
    open spec fn addr_set(&self) -> Set<Address> {
        Set::new(
            |a: Address| exists|i: int| 0 <= i < self.entries@.len() && self.entries@[i].0 == a,
        )
    }

    open spec fn outcome(&self, address: Address, input: Seq<u8>, gas_limit: u64) -> PrecompileResultModel {
        table_outcome(self.entries@, address)
    }

    fn contains(&self, address: &Address) -> (r: bool) {
        let mut i: usize = 0;
        let n = self.entries.len();
        while i < n
            invariant
                i <= n,
                n == self.entries@.len(),
                forall|k: int| 0 <= k < i ==> (#[trigger] self.entries@[k]).0 != *address,
            decreases n - i,
        {
            if self.entries[i].0 == *address {
                proof {
                    assert(self.entries@[i as int].0 == *address);
                }
                return true;
            }
            i += 1;
        }
        false
    }

    fn addresses(&self) -> (r: Vec<Address>) {
        let mut out: Vec<Address> = Vec::new();
        let mut i: usize = 0;
        let n = self.entries.len();
        while i < n
            invariant
                i <= n,
                n == self.entries@.len(),
                out@.len() == i,
                forall|k: int| 0 <= k < i ==> out@[k] == (#[trigger] self.entries@[k]).0,
            decreases n - i,
        {
            out.push(self.entries[i].0);
            i += 1;
        }
        proof {
            assert forall|a: Address| #[trigger] out@.contains(a) implies self.addr_set().contains(
                a,
            ) by {
                let k = choose|k: int| 0 <= k < out@.len() && out@[k] == a;
                assert(self.entries@[k].0 == a);
            }
            assert forall|a: Address| self.addr_set().contains(a) implies out@.contains(a) by {
                let k = choose|k: int| 0 <= k < self.entries@.len() && self.entries@[k].0 == a;
                assert(out@[k] == a);
            }
        }
        out
    }

    fn call(&mut self, address: &Address, input: &Vec<u8>, gas_limit: u64) -> (r: Option<
        Result<PrecompileOutput, PrecompileErrors>,
    >) {
        let mut i: usize = 0;
        let n = self.entries.len();
        while i < n
            invariant
                i <= n,
                n == self.entries@.len(),
                forall|k: int| 0 <= k < i ==> (#[trigger] self.entries@[k]).0 != *address,
            decreases n - i,
        {
            if self.entries[i].0 == *address {
                proof {
                    assert(self.entries@[i as int].0 == *address);
                    assert(self.addr_set().contains(*address));
                    lemma_table_outcome_first(self.entries@, i as int);
                }
                let r = match &self.entries[i].1 {
                    PrecompileBehavior::Success { gas_used, bytes } => {
                        Some(Ok(PrecompileOutput { gas_used: *gas_used, bytes: copy_bytes(bytes) }))
                    },
                    PrecompileBehavior::Failure { oog } => {
                        Some(Err(PrecompileErrors::Error { oog: *oog }))
                    },
                    PrecompileBehavior::Fatal { msg } => {
                        Some(Err(PrecompileErrors::Fatal { msg: msg.clone() }))
                    },
                };
                return r;
            }
            i += 1;
        }
        None
    }
}

/// Selector for the precompile set: only these hardforks changed the set of
/// built-in contracts.
#[allow(non_camel_case_types)]
#[derive(Clone, Copy, Debug, PartialEq, Eq, Structural, Hash)]
pub enum PrecompileSpecId {
    HOMESTEAD,
    BYZANTIUM,
    ISTANBUL,
    BERLIN,
    CANCUN,
    PRAGUE,
    LATEST,
}

impl PrecompileSpecId {
    /// The precompile set active at the given hardfork.
    pub open spec fn from_spec_id_spec(spec_id: SpecId) -> PrecompileSpecId {
        match spec_id {
            SpecId::FRONTIER
            | SpecId::FRONTIER_THAWING
            | SpecId::HOMESTEAD
            | SpecId::DAO_FORK
            | SpecId::TANGERINE
            | SpecId::SPURIOUS_DRAGON => PrecompileSpecId::HOMESTEAD,
            SpecId::BYZANTIUM | SpecId::CONSTANTINOPLE | SpecId::PETERSBURG => {
                PrecompileSpecId::BYZANTIUM
            },
            SpecId::ISTANBUL | SpecId::MUIR_GLACIER => PrecompileSpecId::ISTANBUL,
            SpecId::BERLIN
            | SpecId::LONDON
            | SpecId::ARROW_GLACIER
            | SpecId::GRAY_GLACIER
            | SpecId::MERGE
            | SpecId::SHANGHAI => PrecompileSpecId::BERLIN,
            SpecId::CANCUN => PrecompileSpecId::CANCUN,
            SpecId::PRAGUE => PrecompileSpecId::PRAGUE,
            SpecId::LATEST => PrecompileSpecId::LATEST,
        }
    }

    /// The precompile set active at the given hardfork.
    pub fn from_spec_id(spec_id: SpecId) -> (r: Self)
        ensures
            r == Self::from_spec_id_spec(spec_id),
    {
        match spec_id {
            SpecId::FRONTIER
            | SpecId::FRONTIER_THAWING
            | SpecId::HOMESTEAD
            | SpecId::DAO_FORK
            | SpecId::TANGERINE
            | SpecId::SPURIOUS_DRAGON => PrecompileSpecId::HOMESTEAD,
            SpecId::BYZANTIUM | SpecId::CONSTANTINOPLE | SpecId::PETERSBURG => {
                PrecompileSpecId::BYZANTIUM
            },
            SpecId::ISTANBUL | SpecId::MUIR_GLACIER => PrecompileSpecId::ISTANBUL,
            SpecId::BERLIN
            | SpecId::LONDON
            | SpecId::ARROW_GLACIER
            | SpecId::GRAY_GLACIER
            | SpecId::MERGE
            | SpecId::SHANGHAI => PrecompileSpecId::BERLIN,
            SpecId::CANCUN => PrecompileSpecId::CANCUN,
            SpecId::PRAGUE => PrecompileSpecId::PRAGUE,
            SpecId::LATEST => PrecompileSpecId::LATEST,
        }
    }
}

} // verus!
