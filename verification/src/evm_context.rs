//! The execution context: environment, database, journaled state and the
//! precompile registry, and the frame-construction pipeline that stitches
//! them together.

use vstd::prelude::*;
use crate::db::Database;
use crate::env::{is_default_env, Env};
use crate::interpreter::{
    CallInputs, CallValue, Contract, Frame, FrameOrResult, FrameResult, Gas, InstructionResult,
    Interpreter, InterpreterResult,
};
use crate::journaled_state::JournaledState;
use crate::precompile::{ContextPrecompiles, PrecompileErrors, PrecompileResultModel, PrecompileSet};
use crate::primitives::Address;
use crate::specification::SpecId;
use crate::CALL_STACK_LIMIT;

verus! {

/// An error that aborts the whole call tree.
#[derive(Clone, Debug, PartialEq, Eq, Hash)]
pub enum EVMError<DBError> {
    /// The backing store failed.
    Database(DBError),
    /// A precompile reported a fatal misconfiguration.
    Precompile(String),
}

/// Whether every account the call's depth-passed path reads is already
/// cached in the overlay: the code-bearing account, and the accounts the
/// value handling touches.
pub open spec fn call_state_cached(js: JournaledState, inputs: &CallInputs) -> bool {
    &&& js.accounts().contains_key(inputs.bytecode_address)
    &&& match inputs.value {
        CallValue::Transfer(v) => if v.as_nat() == 0 {
            js.accounts().contains_key(inputs.target_address)
        } else {
            js.accounts().contains_key(inputs.caller) && js.accounts().contains_key(
                inputs.target_address,
            )
        },
        CallValue::Apparent(_) => true,
    }
}

/// Whether the value the call carries exceeds what the cached caller holds.
pub open spec fn transfer_underfunded(js: JournaledState, inputs: &CallInputs) -> bool {
    inputs.value matches CallValue::Transfer(v) && v.as_nat() > 0
        && js.accounts()[inputs.caller].info.balance < v.as_nat()
}

/// Whether crediting the value the call carries would overflow the cached
/// target's balance.
pub open spec fn transfer_overflows(js: JournaledState, inputs: &CallInputs) -> bool {
    inputs.value matches CallValue::Transfer(v) && v.as_nat() > 0
        && js.accounts()[inputs.caller].info.balance >= v.as_nat()
        && inputs.caller != inputs.target_address
        && js.accounts()[inputs.target_address].info.balance + v.as_nat()
            >= crate::primitives::pow256()
}

/// Whether the cached account at `a` carries empty code.
pub open spec fn cached_code_empty(js: JournaledState, a: Address) -> bool {
    js.accounts()[a].info.code matches Some(c) && c.len() == 0
}

/// Whether the value the call carries exceeds what the caller effectively
/// holds: the cached balance, or the store's for an account not yet loaded.
pub open spec fn transfer_underfunded_effective<DB: Database>(
    js: JournaledState,
    db: &DB,
    inputs: &CallInputs,
) -> bool {
    inputs.value matches CallValue::Transfer(v) && v.as_nat() > 0 && js.effective_balance(
        db,
        inputs.caller,
    ) < v.as_nat()
}

/// Whether crediting the value the call carries would overflow the target's
/// effective balance.
pub open spec fn transfer_overflows_effective<DB: Database>(
    js: JournaledState,
    db: &DB,
    inputs: &CallInputs,
) -> bool {
    inputs.value matches CallValue::Transfer(v) && v.as_nat() > 0 && js.effective_balance(
        db,
        inputs.caller,
    ) >= v.as_nat() && inputs.caller != inputs.target_address && js.effective_balance(
        db,
        inputs.target_address,
    ) + v.as_nat() >= crate::primitives::pow256()
}

/// What a committed call leaves of its value handling: a zero transfer
/// leaves the target present and touched with no balance moved; a positive
/// transfer moves the value from caller to target and touches both; an
/// apparent value changes nothing at all. Balance movement is stated for the
/// accounts already known before the call.
pub open spec fn value_effects_hold(
    pre: JournaledState,
    post: JournaledState,
    inputs: &CallInputs,
) -> bool {
    match inputs.value {
        CallValue::Transfer(v) => {
            &&& post.accounts().contains_key(inputs.target_address)
            &&& post.accounts()[inputs.target_address].touched
            &&& (v.as_nat() == 0 ==> forall|a: Address|
                pre.accounts().contains_key(a) ==> #[trigger] post.accounts()[a].info.balance
                    == pre.accounts()[a].info.balance)
            &&& ((v.as_nat() > 0 && inputs.caller != inputs.target_address
                && pre.accounts().contains_key(inputs.caller)) ==> post.accounts()[
                inputs.caller
            ].info.balance == pre.accounts()[inputs.caller].info.balance - v.as_nat())
            &&& ((v.as_nat() > 0 && inputs.caller != inputs.target_address
                && pre.accounts().contains_key(inputs.target_address)) ==> post.accounts()[
                inputs.target_address
            ].info.balance == pre.accounts()[inputs.target_address].info.balance + v.as_nat())
            &&& ((v.as_nat() > 0 && inputs.caller == inputs.target_address
                && pre.accounts().contains_key(inputs.caller)) ==> post.accounts()[
                inputs.caller
            ].info.balance == pre.accounts()[inputs.caller].info.balance)
        },
        CallValue::Apparent(_) => forall|a: Address|
            pre.accounts().contains_key(a) ==> #[trigger] post.accounts()[a]
                == pre.accounts()[a],
    }
}

/// The inner context: environment, database, journaled state, and the slot
/// for a deferred database error.
pub struct InnerEvmContext<DB: Database> {
    /// The execution environment.
    pub env: Env,
    /// The transactional world-state overlay.
    pub journaled_state: JournaledState,
    /// The backing store.
    pub db: DB,
    /// A database error that could not travel through a return type; the
    /// outer loop consults it at safe points.
    pub error: Result<(), EVMError<DB::Error>>,
}

impl<DB: Database> InnerEvmContext<DB> {
    /// A fresh inner context over `db` with a default environment.
    pub fn new(db: DB) -> (r: InnerEvmContext<DB>)
        ensures
            is_default_env(r.env),
            r.db == db,
            r.journaled_state.wf(),
            r.journaled_state.depth == 0,
            r.journaled_state.state@.len() == 0,
            r.journaled_state.spec_id == SpecId::LATEST,
            r.error is Ok,
    {
        InnerEvmContext {
            env: Env::default(),
            journaled_state: JournaledState::new(SpecId::LATEST, Vec::new()),
            db,
            error: Ok(()),
        }
    }

    /// A fresh inner context over `db` with the given environment.
    pub fn new_with_env(db: DB, env: Env) -> (r: InnerEvmContext<DB>)
        ensures
            r.env == env,
            r.db == db,
            r.journaled_state.wf(),
            r.journaled_state.depth == 0,
            r.journaled_state.state@.len() == 0,
            r.journaled_state.spec_id == SpecId::LATEST,
            r.error is Ok,
    {
        InnerEvmContext {
            env,
            journaled_state: JournaledState::new(SpecId::LATEST, Vec::new()),
            db,
            error: Ok(()),
        }
    }

    /// The same context over another database; a pending deferred error is
    /// dropped.
    pub fn with_db<ODB: Database>(self, db: ODB) -> (r: InnerEvmContext<ODB>)
        ensures
            r.env == self.env,
            r.journaled_state == self.journaled_state,
            r.db == db,
            r.error is Ok,
    {
        InnerEvmContext { env: self.env, journaled_state: self.journaled_state, db, error: Ok(()) }
    }
}

/// The outer context: the inner context plus the precompile registry.
pub struct EvmContext<DB: Database, P: PrecompileSet> {
    /// The inner context.
    pub inner: InnerEvmContext<DB>,
    /// The precompile registry.
    pub precompiles: P,
}

impl<DB: Database> EvmContext<DB, ContextPrecompiles> {
    /// A fresh context over `db` with a default environment and no
    /// precompiles.
    pub fn new(db: DB) -> (r: EvmContext<DB, ContextPrecompiles>)
        ensures
            is_default_env(r.inner.env),
            r.inner.db == db,
            r.inner.journaled_state.wf(),
            r.inner.journaled_state.depth == 0,
            r.inner.journaled_state.state@.len() == 0,
            r.inner.journaled_state.spec_id == SpecId::LATEST,
            r.precompiles.entries@.len() == 0,
            r.precompiles.addr_set() =~= Set::<Address>::empty(),
            r.inner.error is Ok,
    {
        EvmContext { inner: InnerEvmContext::new(db), precompiles: ContextPrecompiles::new() }
    }

    /// A fresh context over `db` with the given environment and no
    /// precompiles.
    pub fn new_with_env(db: DB, env: Env) -> (r: EvmContext<DB, ContextPrecompiles>)
        ensures
            r.inner.env == env,
            r.inner.db == db,
            r.inner.journaled_state.wf(),
            r.inner.journaled_state.depth == 0,
            r.inner.journaled_state.state@.len() == 0,
            r.inner.journaled_state.spec_id == SpecId::LATEST,
            r.precompiles.entries@.len() == 0,
            r.precompiles.addr_set() =~= Set::<Address>::empty(),
            r.inner.error is Ok,
    {
        EvmContext {
            inner: InnerEvmContext::new_with_env(db, env),
            precompiles: ContextPrecompiles::new(),
        }
    }
}

impl<DB: Database, P: PrecompileSet> EvmContext<DB, P> {
    /// The same context over another database, with an empty precompile
    /// registry; a pending deferred error is dropped.
    pub fn with_db<ODB: Database>(self, db: ODB) -> (r: EvmContext<ODB, ContextPrecompiles>)
        ensures
            r.inner.env == self.inner.env,
            r.inner.journaled_state == self.inner.journaled_state,
            r.inner.db == db,
            r.precompiles.entries@.len() == 0,
            r.precompiles.addr_set() =~= Set::<Address>::empty(),
            r.inner.error is Ok,
    {
        EvmContext { inner: self.inner.with_db(db), precompiles: ContextPrecompiles::new() }
    }

    /// Installs a precompile registry and merges its addresses into the
    /// pre-warmed set: afterwards an address is pre-warmed exactly when it
    /// was before or the new registry serves it.
    pub fn set_precompiles(&mut self, precompiles: P)
        ensures
            final(self).precompiles == precompiles,
            final(self).inner.env == old(self).inner.env,
            final(self).inner.db == old(self).inner.db,
            final(self).inner.error == old(self).inner.error,
            final(self).inner.journaled_state.state == old(self).inner.journaled_state.state,
            final(self).inner.journaled_state.storage == old(self).inner.journaled_state.storage,
            final(self).inner.journaled_state.transient_storage == old(self).inner.journaled_state.transient_storage,
            final(self).inner.journaled_state.journal == old(self).inner.journaled_state.journal,
            final(self).inner.journaled_state.logs == old(self).inner.journaled_state.logs,
            final(self).inner.journaled_state.depth == old(self).inner.journaled_state.depth,
            final(self).inner.journaled_state.spec_id == old(self).inner.journaled_state.spec_id,
            forall|a: Address|
                final(self).inner.journaled_state.preloaded(a) <==> (old(self).inner.journaled_state.preloaded(a) || precompiles.addr_set().contains(a)),
    {
        let mut merged = precompiles.addresses();
        let ghost fresh = merged@;
        let n = self.inner.journaled_state.warm_preloaded_addresses.len();
        let mut i: usize = 0;
        while i < n
            invariant
                i <= n,
                n == self.inner.journaled_state.warm_preloaded_addresses@.len(),
                merged@ == fresh + self.inner.journaled_state.warm_preloaded_addresses@.subrange(
                    0,
                    i as int,
                ),
            decreases n - i,
        {
            merged.push(self.inner.journaled_state.warm_preloaded_addresses[i]);
            i += 1;
            proof {
                assert(merged@ =~= fresh
                    + self.inner.journaled_state.warm_preloaded_addresses@.subrange(0, i as int));
            }
        }
        proof {
            let warm = self.inner.journaled_state.warm_preloaded_addresses@;
            assert(merged@ =~= fresh + warm);
            assert forall|a: Address| #[trigger] merged@.contains(a) implies (warm.contains(a)
                || precompiles.addr_set().contains(a)) by {
                let k = choose|k: int| 0 <= k < merged@.len() && merged@[k] == a;
                if k < fresh.len() {
                    assert(fresh[k] == a);
                    assert(fresh.contains(a));
                } else {
                    assert(warm[k - fresh.len()] == a);
                    assert(warm.contains(a));
                }
            }
            assert forall|a: Address| (warm.contains(a) || precompiles.addr_set().contains(
                a,
            )) implies #[trigger] merged@.contains(a) by {
                if warm.contains(a) {
                    let k = choose|k: int| 0 <= k < warm.len() && warm[k] == a;
                    assert(merged@[fresh.len() + k] == a);
                } else {
                    assert(fresh.contains(a));
                    let k = choose|k: int| 0 <= k < fresh.len() && fresh[k] == a;
                    assert(merged@[k] == a);
                }
            }
        }
        self.inner.journaled_state.warm_preloaded_addresses = merged;
        self.precompiles = precompiles;
    }

    /// Runs the precompile at `address` if the registry serves it, and turns
    /// its outcome into an interpreter result charged against `gas`.
    fn call_precompile(&mut self, address: &Address, input_data: &Vec<u8>, gas: Gas) -> (r: Result<
        Option<InterpreterResult>,
        EVMError<DB::Error>,
    >)
        ensures
            final(self).inner == old(self).inner,
            final(self).precompiles.addr_set() == old(self).precompiles.addr_set(),
            forall|a: Address, i: Seq<u8>, g: u64|
                #[trigger] final(self).precompiles.outcome(a, i, g) == old(self).precompiles.outcome(a, i, g),
            match r {
                Ok(opt) => {
                    &&& (opt is Some) == old(self).precompiles.addr_set().contains(*address)
                    &&& (opt matches Some(res) ==> {
                        &&& res.gas.limit == gas.limit
                        &&& (res.result == InstructionResult::Return || res.result
                            == InstructionResult::PrecompileOOG || res.result
                            == InstructionResult::PrecompileError)
                        &&& (res.result == InstructionResult::Return ==> res.gas.remaining
                            <= gas.remaining)
                        &&& (res.result != InstructionResult::Return ==> res.gas.remaining
                            == gas.remaining && res.output@.len() == 0)
                        &&& match old(self).precompiles.outcome(*address, input_data@, gas.limit) {
                            PrecompileResultModel::Success { gas_used, bytes } => {
                                if gas_used <= gas.remaining {
                                    &&& res.result == InstructionResult::Return
                                    &&& res.output@ == bytes
                                    &&& res.gas.remaining == gas.remaining - gas_used
                                } else {
                                    &&& res.result == InstructionResult::PrecompileOOG
                                    &&& res.gas.remaining == gas.remaining
                                    &&& res.output@.len() == 0
                                }
                            },
                            PrecompileResultModel::Failure { oog } => {
                                &&& res.result == (if oog {
                                    InstructionResult::PrecompileOOG
                                } else {
                                    InstructionResult::PrecompileError
                                })
                                &&& res.gas.remaining == gas.remaining
                                &&& res.output@.len() == 0
                            },
                            PrecompileResultModel::Fatal { .. } => false,
                        }
                    })
                },
                Err(e) => {
                    &&& old(self).precompiles.addr_set().contains(*address)
                    &&& old(self).precompiles.outcome(*address, input_data@, gas.limit) matches PrecompileResultModel::Fatal { msg }
                        && e matches EVMError::Precompile(m) && m@ == msg
                },
            },
    {
        let outcome = match self.precompiles.call(address, input_data, gas.limit()) {
            Some(o) => o,
            None => {
                return Ok(None);
            },
        };
        let mut result = InterpreterResult {
            result: InstructionResult::Return,
            gas,
            output: Vec::new(),
        };
        match outcome {
            Ok(output) => {
                if result.gas.record_cost(output.gas_used) {
                    result.result = InstructionResult::Return;
                    result.output = output.bytes;
                } else {
                    result.result = InstructionResult::PrecompileOOG;
                }
            },
            Err(PrecompileErrors::Error { oog }) => {
                result.result = if oog {
                    InstructionResult::PrecompileOOG
                } else {
                    InstructionResult::PrecompileError
                };
            },
            Err(PrecompileErrors::Fatal { msg }) => {
                return Err(EVMError::Precompile(msg));
            },
        }
        Ok(Some(result))
    }

    /// Builds the frame for a call request, or computes its result outright.
    ///
    /// The decision list: a call past the depth limit fails without touching
    /// state; a transfer the caller cannot afford reverts to the checkpoint,
    /// leaving every previously known account unchanged; an address the
    /// precompile registry serves yields the precompile's result and never an
    /// interpreter frame, even when code is also deployed there; otherwise
    /// non-empty code yields a live frame bound to that code, and empty code
    /// yields a committed `Stop`.
    ///
    /// When the address is no precompile, each of these outcomes is also
    /// owed: with every account the call reads already in the overlay, the
    /// call succeeds and the result is decided by the cached balances and
    /// code; over a store that never fails, the call succeeds and the result
    /// is decided by the effective balances and code — cached, or as the
    /// store holds them — so a result computed from the store alone is
    /// pinned too. A committed outcome carries the value handling's effects:
    /// the target touched, and the value moved.
    #[verifier::rlimit(100)]
    pub fn make_call_frame(&mut self, inputs: &CallInputs) -> (r: Result<
        FrameOrResult,
        EVMError<DB::Error>,
    >)
        requires
            old(self).inner.journaled_state.wf(),
            old(self).inner.journaled_state.journal@.len() < usize::MAX,
        ensures
            final(self).inner.env == old(self).inner.env,
            final(self).inner.error == old(self).inner.error,
            final(self).precompiles.addr_set() == old(self).precompiles.addr_set(),
            final(self).inner.journaled_state.wf(),
            final(self).inner.journaled_state.spec_id == old(self).inner.journaled_state.spec_id,
            final(self).inner.journaled_state.warm_preloaded_addresses == old(self).inner.journaled_state.warm_preloaded_addresses,
            final(self).inner.journaled_state.logs@ == old(self).inner.journaled_state.logs@,
            final(self).inner.journaled_state.storage_map() == old(self).inner.journaled_state.storage_map(),
            final(self).inner.journaled_state.transient_map() == old(self).inner.journaled_state.transient_map(),
            (old(self).inner.journaled_state.depth > CALL_STACK_LIMIT ==> {
                &&& *final(self) == *old(self)
                &&& r matches Ok(FrameOrResult::Result(FrameResult::Call(c))) && c.result.result
                    == InstructionResult::CallTooDeep && c.result.gas.limit == inputs.gas_limit
                    && c.result.gas.remaining == inputs.gas_limit && c.result.output@.len() == 0
                    && c.memory_offset == inputs.return_memory_offset
            }),
            (r matches Ok(FrameOrResult::Result(FrameResult::Call(c))) ==> (c.result.result
                == InstructionResult::CallTooDeep ==> old(self).inner.journaled_state.depth
                > CALL_STACK_LIMIT)),
            (r matches Ok(FrameOrResult::Frame(_)) ==> final(self).inner.journaled_state.depth
                == old(self).inner.journaled_state.depth + 1),
            (r matches Ok(FrameOrResult::Result(_)) ==> final(self).inner.journaled_state.depth
                == old(self).inner.journaled_state.depth),
            (r matches Ok(FrameOrResult::Frame(Frame::Call(f))) ==> {
                &&& !old(self).precompiles.addr_set().contains(inputs.bytecode_address)
                &&& f.return_memory_range == inputs.return_memory_offset
                &&& f.interpreter.is_static == inputs.is_static
                &&& f.interpreter.gas.limit == inputs.gas_limit
                &&& f.interpreter.gas.remaining == inputs.gas_limit
                &&& f.interpreter.contract.bytecode@.len() > 0
                &&& final(self).inner.journaled_state.accounts().contains_key(
                    inputs.bytecode_address,
                )
                &&& final(self).inner.journaled_state.accounts()[inputs.bytecode_address].info.code
                    == Some(f.interpreter.contract.bytecode@)
                &&& f.interpreter.contract.hash == Some(
                    final(self).inner.journaled_state.accounts()[inputs.bytecode_address].info.code_hash,
                )
                &&& f.interpreter.contract.input@ == inputs.input@
                &&& f.interpreter.contract.target_address == inputs.target_address
                &&& f.interpreter.contract.caller == inputs.caller
                &&& f.interpreter.contract.call_value == inputs.value.get_spec()
                &&& final(self).inner.journaled_state.checkpoint_open(f.checkpoint)
                &&& f.checkpoint.journal_i == old(self).inner.journaled_state.journal@.len()
                &&& final(self).inner.journaled_state.frames().len() == old(self).inner.journaled_state.frames().len() + 1
                &&& value_effects_hold(
                    old(self).inner.journaled_state,
                    final(self).inner.journaled_state,
                    inputs,
                )
            }),
            (r matches Ok(FrameOrResult::Result(FrameResult::Call(c))) ==> (old(self).inner.journaled_state.depth <= CALL_STACK_LIMIT ==> {
                &&& c.memory_offset == inputs.return_memory_offset
                &&& c.result.gas.limit == inputs.gas_limit
                &&& ((c.result.result == InstructionResult::Stop || c.result.result
                    == InstructionResult::Return) ==> final(self).inner.journaled_state.frames().len() == old(self).inner.journaled_state.frames().len() + 1
                    && value_effects_hold(
                    old(self).inner.journaled_state,
                    final(self).inner.journaled_state,
                    inputs,
                ))
                &&& ((c.result.result == InstructionResult::OutOfFunds || c.result.result
                    == InstructionResult::OverflowPayment || c.result.result
                    == InstructionResult::PrecompileOOG || c.result.result
                    == InstructionResult::PrecompileError) ==> final(self).inner.journaled_state.frames() == (if old(self).inner.journaled_state.accounts().contains_key(inputs.bytecode_address) {
                    old(self).inner.journaled_state.frames()
                } else {
                    old(self).inner.journaled_state.frames().update(
                        old(self).inner.journaled_state.frames().len() - 1,
                        old(self).inner.journaled_state.frames().last().push(
                            crate::journaled_state::JournalEntry::AccountWarmed {
                                address: inputs.bytecode_address,
                            },
                        ),
                    )
                }))
                &&& ((c.result.result == InstructionResult::PrecompileOOG || c.result.result
                    == InstructionResult::PrecompileError) ==> {
                    &&& final(self).inner.journaled_state.frames().len() == old(self).inner.journaled_state.frames().len()
                    &&& forall|a: Address|
                        old(self).inner.journaled_state.accounts().contains_key(a) ==> final(self).inner.journaled_state.accounts()[a] == old(self).inner.journaled_state.accounts()[a]
                    &&& forall|a: Address|
                        final(self).inner.journaled_state.accounts().contains_key(a) ==> (old(self).inner.journaled_state.accounts().contains_key(a) || a
                            == inputs.bytecode_address)
                })
                &&& (c.result.result == InstructionResult::Stop ==> {
                    &&& !old(self).precompiles.addr_set().contains(inputs.bytecode_address)
                    &&& final(self).inner.journaled_state.accounts().contains_key(
                        inputs.bytecode_address,
                    )
                    &&& final(self).inner.journaled_state.accounts()[inputs.bytecode_address].info.code == Some(
                        Seq::<u8>::empty(),
                    )
                    &&& c.result.gas.remaining == inputs.gas_limit
                    &&& c.result.output@.len() == 0
                })
                &&& ((c.result.result == InstructionResult::Return || c.result.result
                    == InstructionResult::PrecompileOOG || c.result.result
                    == InstructionResult::PrecompileError) ==> old(self).precompiles.addr_set().contains(inputs.bytecode_address))
                &&& ((c.result.result == InstructionResult::OutOfFunds || c.result.result
                    == InstructionResult::OverflowPayment) ==> {
                    &&& inputs.value matches CallValue::Transfer(v) && v.as_nat() > 0
                    &&& c.result.gas.remaining == inputs.gas_limit
                    &&& c.result.output@.len() == 0
                    &&& forall|a: Address|
                        old(self).inner.journaled_state.accounts().contains_key(a) ==> final(self).inner.journaled_state.accounts()[a] == old(self).inner.journaled_state.accounts()[a]
                    &&& forall|a: Address|
                        final(self).inner.journaled_state.accounts().contains_key(a) ==> (old(self).inner.journaled_state.accounts().contains_key(a) || a
                            == inputs.bytecode_address)
                    &&& final(self).inner.journaled_state.frames().len() == old(self).inner.journaled_state.frames().len()
                })
            })),
            (r matches Err(EVMError::Precompile(_)) ==> old(self).precompiles.addr_set().contains(
                inputs.bytecode_address,
            )),
            (old(self).inner.db.infallible() ==> !(r matches Err(EVMError::Database(_)))),
            ((old(self).inner.db.infallible() && !old(self).precompiles.addr_set().contains(
                inputs.bytecode_address,
            )) ==> r is Ok),
            ((old(self).inner.journaled_state.depth <= CALL_STACK_LIMIT && call_state_cached(
                old(self).inner.journaled_state,
                inputs,
            ) && !old(self).precompiles.addr_set().contains(inputs.bytecode_address)) ==> {
                &&& r is Ok
                &&& (transfer_underfunded(old(self).inner.journaled_state, inputs) ==> {
                    &&& r matches Ok(FrameOrResult::Result(FrameResult::Call(c)))
                        && c.result.result == InstructionResult::OutOfFunds
                })
                &&& (transfer_overflows(old(self).inner.journaled_state, inputs) ==> {
                    &&& r matches Ok(FrameOrResult::Result(FrameResult::Call(c)))
                        && c.result.result == InstructionResult::OverflowPayment
                })
                &&& ((!transfer_underfunded(old(self).inner.journaled_state, inputs)
                    && !transfer_overflows(old(self).inner.journaled_state, inputs)
                    && cached_code_empty(
                    old(self).inner.journaled_state,
                    inputs.bytecode_address,
                )) ==> {
                    &&& r matches Ok(FrameOrResult::Result(FrameResult::Call(c)))
                        && c.result.result == InstructionResult::Stop
                })
                &&& ((!transfer_underfunded(old(self).inner.journaled_state, inputs)
                    && !transfer_overflows(old(self).inner.journaled_state, inputs)
                    && !cached_code_empty(
                    old(self).inner.journaled_state,
                    inputs.bytecode_address,
                )) ==> r matches Ok(FrameOrResult::Frame(_)))
            }),
            ((old(self).inner.journaled_state.depth <= CALL_STACK_LIMIT && old(
                self,
            ).inner.db.infallible() && !old(self).precompiles.addr_set().contains(
                inputs.bytecode_address,
            )) ==> {
                &&& (transfer_underfunded_effective(
                    old(self).inner.journaled_state,
                    &old(self).inner.db,
                    inputs,
                ) ==> {
                    &&& r matches Ok(FrameOrResult::Result(FrameResult::Call(c)))
                        && c.result.result == InstructionResult::OutOfFunds
                })
                &&& (transfer_overflows_effective(
                    old(self).inner.journaled_state,
                    &old(self).inner.db,
                    inputs,
                ) ==> {
                    &&& r matches Ok(FrameOrResult::Result(FrameResult::Call(c)))
                        && c.result.result == InstructionResult::OverflowPayment
                })
                &&& ((!transfer_underfunded_effective(
                    old(self).inner.journaled_state,
                    &old(self).inner.db,
                    inputs,
                ) && !transfer_overflows_effective(
                    old(self).inner.journaled_state,
                    &old(self).inner.db,
                    inputs,
                ) && old(self).inner.journaled_state.effective_code_empty(
                    &old(self).inner.db,
                    inputs.bytecode_address,
                )) ==> {
                    &&& r matches Ok(FrameOrResult::Result(FrameResult::Call(c)))
                        && c.result.result == InstructionResult::Stop
                })
                &&& ((!transfer_underfunded_effective(
                    old(self).inner.journaled_state,
                    &old(self).inner.db,
                    inputs,
                ) && !transfer_overflows_effective(
                    old(self).inner.journaled_state,
                    &old(self).inner.db,
                    inputs,
                ) && !old(self).inner.journaled_state.effective_code_empty(
                    &old(self).inner.db,
                    inputs.bytecode_address,
                )) ==> r matches Ok(FrameOrResult::Frame(_)))
            }),
            (r matches Err(EVMError::Database(_)) ==> {
                &&& forall|a: Address|
                    old(self).inner.journaled_state.accounts().contains_key(a) ==> final(self).inner.journaled_state.accounts().contains_key(a) && final(self).inner.journaled_state.accounts()[a] == old(self).inner.journaled_state.accounts()[a]
                &&& forall|a: Address|
                    final(self).inner.journaled_state.accounts().contains_key(a) ==> (old(self).inner.journaled_state.accounts().contains_key(a) || a
                        == inputs.bytecode_address || a == inputs.caller || a
                        == inputs.target_address)
                &&& (final(self).inner.journaled_state.depth == old(self).inner.journaled_state.depth || final(self).inner.journaled_state.depth == old(self).inner.journaled_state.depth + 1)
                &&& (final(self).inner.journaled_state.frames().len() == old(self).inner.journaled_state.frames().len() || final(self).inner.journaled_state.frames().len() == old(self).inner.journaled_state.frames().len() + 1)
                &&& (final(self).inner.journaled_state.depth == old(self).inner.journaled_state.depth
                    ==> final(self).inner.journaled_state == old(self).inner.journaled_state)
            }),
    {
        let gas = Gas::new(inputs.gas_limit);
        if self.inner.journaled_state.depth() > CALL_STACK_LIMIT {
            return Ok(
                FrameOrResult::new_call_result(
                    InterpreterResult {
                        result: InstructionResult::CallTooDeep,
                        gas,
                        output: Vec::new(),
                    },
                    range_copy(&inputs.return_memory_offset),
                ),
            );
        }
        let (account_info, _was_cold) = match self.inner.journaled_state.load_code(
            inputs.bytecode_address,
            &mut self.inner.db,
        ) {
            Ok(v) => v,
            Err(e) => {
                return Err(EVMError::Database(e));
            },
        };
        let code_hash = account_info.code_hash;
        let bytecode = match account_info.code {
            Some(c) => c,
            None => unreached(),
        };
        let ghost s_loaded = *self;
        proof {
            assert((bytecode@.len() == 0) <==> old(self).inner.journaled_state.effective_code_empty(
                &old(self).inner.db,
                inputs.bytecode_address,
            ));
        }
        let checkpoint = self.inner.journaled_state.checkpoint();
        let ghost s_cp = *self;
        match &inputs.value {
            CallValue::Transfer(value) => {
                if value.is_zero() {
                    match self.inner.journaled_state.load_account(
                        inputs.target_address,
                        &mut self.inner.db,
                    ) {
                        Ok(_) => (),
                        Err(e) => {
                            return Err(EVMError::Database(e));
                        },
                    }
                    self.inner.journaled_state.touch(&inputs.target_address);
                } else {
                    proof {
                        let g = old(self).inner.journaled_state;
                        let gdb = &old(self).inner.db;
                        let ba = inputs.bytecode_address;
                        assert(self.inner.db.basic_view() == gdb.basic_view());
                        assert forall|a: Address|
                            a == inputs.caller || a
                                == inputs.target_address implies #[trigger] self.inner.journaled_state.effective_balance(
                            &self.inner.db,
                            a,
                        ) == g.effective_balance(gdb, a) by {
                            if g.accounts().contains_key(a) {
                                assert(self.inner.journaled_state.accounts().contains_key(a));
                                assert(self.inner.journaled_state.accounts()[a]
                                    == g.accounts()[a]);
                            } else if a == ba {
                                assert(self.inner.journaled_state.accounts()[a].info.balance
                                    == g.effective_balance(gdb, a));
                            } else {
                                assert(!self.inner.journaled_state.accounts().contains_key(a));
                            }
                        }
                    }
                    match self.inner.journaled_state.transfer(
                        &inputs.caller,
                        &inputs.target_address,
                        *value,
                        &mut self.inner.db,
                    ) {
                        Ok(None) => (),
                        Ok(Some(result)) => {
                            let ghost s_fail = *self;
                            self.inner.journaled_state.checkpoint_revert(checkpoint);
                            proof {
                                assert(self.inner.journaled_state.accounts()
                                    == s_loaded.inner.journaled_state.accounts());
                                assert(self.inner.journaled_state.storage_map()
                                    == s_loaded.inner.journaled_state.storage_map());
                                assert(self.inner.journaled_state.transient_map()
                                    == s_loaded.inner.journaled_state.transient_map());
                                let g = old(self).inner.journaled_state;
                                if g.depth <= CALL_STACK_LIMIT && call_state_cached(g, inputs)
                                    && !old(self).precompiles.addr_set().contains(
                                    inputs.bytecode_address,
                                ) {
                                    assert(s_cp.inner.journaled_state.accounts() == g.accounts());
                                    assert(s_fail.inner.journaled_state.accounts()[inputs.caller]
                                        == g.accounts()[inputs.caller]);
                                    assert(s_fail.inner.journaled_state.accounts()[inputs.target_address]
                                        == g.accounts()[inputs.target_address]);
                                }
                            }
                            return Ok(
                                FrameOrResult::new_call_result(
                                    InterpreterResult { result, gas, output: Vec::new() },
                                    range_copy(&inputs.return_memory_offset),
                                ),
                            );
                        },
                        Err(e) => {
                            return Err(EVMError::Database(e));
                        },
                    }
                }
            },
            CallValue::Apparent(_) => {},
        }
        let ghost s_valued = *self;
        match self.call_precompile(&inputs.bytecode_address, &inputs.input, gas) {
            Ok(Some(result)) => {
                if result.result.is_ok() {
                    self.inner.journaled_state.checkpoint_commit();
                } else {
                    self.inner.journaled_state.checkpoint_revert(checkpoint);
                    proof {
                        assert(self.inner.journaled_state.accounts()
                            == s_loaded.inner.journaled_state.accounts());
                        assert(self.inner.journaled_state.storage_map()
                            == s_loaded.inner.journaled_state.storage_map());
                        assert(self.inner.journaled_state.transient_map()
                            == s_loaded.inner.journaled_state.transient_map());
                    }
                }
                Ok(
                    FrameOrResult::new_call_result(
                        result,
                        range_copy(&inputs.return_memory_offset),
                    ),
                )
            },
            Ok(None) => {
                if !bytecode.is_empty() {
                    let contract = Contract::new_with_context(
                        crate::primitives::copy_bytes(&inputs.input),
                        bytecode,
                        Some(code_hash),
                        inputs,
                    );
                    Ok(
                        FrameOrResult::new_call_frame(
                            range_copy(&inputs.return_memory_offset),
                            checkpoint,
                            Interpreter::new(contract, gas.limit(), inputs.is_static),
                        ),
                    )
                } else {
                    self.inner.journaled_state.checkpoint_commit();
                    Ok(
                        FrameOrResult::new_call_result(
                            InterpreterResult {
                                result: InstructionResult::Stop,
                                gas,
                                output: Vec::new(),
                            },
                            range_copy(&inputs.return_memory_offset),
                        ),
                    )
                }
            },
            Err(e) => Err(e),
        }
    }
}

/// A copy of a half-open memory window.
fn range_copy(r: &core::ops::Range<usize>) -> (out: core::ops::Range<usize>)
    ensures
        out == *r,
{
    r.start..r.end
}

} // verus!
