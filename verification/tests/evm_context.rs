//! Tests of frame construction over the journaled state.

use evm_core::db::{CacheDB, EmptyDB};
use evm_core::env::Env;
use evm_core::evm_context::EvmContext;
use evm_core::interpreter::{
    CallInputs, CallScheme, CallValue, Frame, FrameOrResult, InstructionResult,
};
use evm_core::journaled_state::{JournalEntry, JournaledState};
use evm_core::precompile::ContextPrecompiles;
use evm_core::primitives::{AccountInfo, Address, Bytecode, B256, U256};
use evm_core::specification::SpecId;
use evm_core::CALL_STACK_LIMIT;

/// The mock caller of every test call.
fn mock_caller() -> Address {
    Address::zero()
}

/// `CallInputs` that call the given contract address from the mock caller.
fn create_mock_call_inputs(to: Address) -> CallInputs {
    CallInputs {
        input: Vec::new(),
        gas_limit: 0,
        bytecode_address: to,
        target_address: to,
        caller: mock_caller(),
        value: CallValue::Transfer(U256::zero()),
        scheme: CallScheme::Call,
        is_eof: false,
        is_static: false,
        return_memory_offset: 0..0,
    }
}

/// A context over an empty database with an empty journaled state.
fn create_empty_evm_context(env: Env, db: EmptyDB) -> EvmContext<EmptyDB, ContextPrecompiles> {
    let mut context = EvmContext::new_with_env(db, env);
    context.inner.journaled_state = JournaledState::new(SpecId::CANCUN, Vec::new());
    context
}

/// A context over a cache database with an empty journaled state.
fn create_cache_db_evm_context(
    env: Env,
    db: CacheDB<EmptyDB>,
) -> EvmContext<CacheDB<EmptyDB>, ContextPrecompiles> {
    let mut context = EvmContext::new_with_env(db, env);
    context.inner.journaled_state = JournaledState::new(SpecId::CANCUN, Vec::new());
    context
}

/// As above, with the mock caller funded with `balance`.
fn create_cache_db_evm_context_with_balance(
    env: Env,
    mut db: CacheDB<EmptyDB>,
    balance: U256,
) -> EvmContext<CacheDB<EmptyDB>, ContextPrecompiles> {
    db.insert_account_info(
        mock_caller(),
        AccountInfo { nonce: 0, balance, code_hash: B256::default(), code: None },
    );
    create_cache_db_evm_context(env, db)
}

/// The contract address the tests call.
fn dead_address() -> Address {
    Address::new(0xdead1000, 0x1dead)
}

#[test]
fn test_make_call_frame_stack_too_deep() {
    let env = Env::default();
    let db = EmptyDB::default();
    let mut context = create_empty_evm_context(env, db);
    context.inner.journaled_state.depth = CALL_STACK_LIMIT + 1;
    let contract = dead_address();
    let call_inputs = create_mock_call_inputs(contract);
    let res = context.make_call_frame(&call_inputs);
    let Ok(FrameOrResult::Result(err)) = res else {
        panic!("Expected FrameOrResult::Result");
    };
    assert_eq!(err.interpreter_result().result, InstructionResult::CallTooDeep);
}

#[test]
fn test_make_call_frame_transfer_revert() {
    let env = Env::default();
    let db = EmptyDB::default();
    let mut evm_context = create_empty_evm_context(env, db);
    let contract = dead_address();
    let mut call_inputs = create_mock_call_inputs(contract);
    call_inputs.value = CallValue::Transfer(U256::from_u64(1));
    let res = evm_context.make_call_frame(&call_inputs);
    let Ok(FrameOrResult::Result(result)) = res else {
        panic!("Expected FrameOrResult::Result");
    };
    assert_eq!(result.interpreter_result().result, InstructionResult::OutOfFunds);
    let checkpointed = vec![vec![JournalEntry::AccountWarmed { address: contract }]];
    assert_eq!(evm_context.inner.journaled_state.journal, checkpointed);
    assert_eq!(evm_context.inner.journaled_state.depth, 0);
}

#[test]
fn test_make_call_frame_missing_code_context() {
    let env = Env::default();
    let cdb = CacheDB::new(EmptyDB::default());
    let bal = U256::from_u128(3_000_000_000_u128);
    let mut context = create_cache_db_evm_context_with_balance(env, cdb, bal);
    let contract = dead_address();
    let call_inputs = create_mock_call_inputs(contract);
    let res = context.make_call_frame(&call_inputs);
    let Ok(FrameOrResult::Result(result)) = res else {
        panic!("Expected FrameOrResult::Result");
    };
    assert_eq!(result.interpreter_result().result, InstructionResult::Stop);
}

#[test]
fn test_make_call_frame_succeeds() {
    let env = Env::default();
    let mut cdb = CacheDB::new(EmptyDB::default());
    let bal = U256::from_u128(3_000_000_000_u128);
    let by = Bytecode::new_raw(vec![0x60, 0x00, 0x60, 0x00]);
    let contract = dead_address();
    cdb.insert_account_info(
        contract,
        AccountInfo { nonce: 0, balance: bal, code_hash: by.clone().hash_slow(), code: Some(by) },
    );
    let mut evm_context = create_cache_db_evm_context_with_balance(env, cdb, bal);
    let call_inputs = create_mock_call_inputs(contract);
    let res = evm_context.make_call_frame(&call_inputs);
    let Ok(FrameOrResult::Frame(Frame::Call(call_frame))) = res else {
        panic!("Expected FrameOrResult::Frame(Frame::Call(..))");
    };
    assert_eq!(call_frame.return_memory_range, 0..0,);
}
