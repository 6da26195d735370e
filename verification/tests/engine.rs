//! Tests of the journaled state, the value types, the precompile dispatch,
//! and the dummy host.

use evm_core::db::{CacheDB, EmptyDB};
use evm_core::env::Env;
use evm_core::evm_context::{EVMError, EvmContext};
use evm_core::host::DummyHost;
use evm_core::interpreter::{
    CallInputs, CallScheme, CallValue, FrameOrResult, InstructionResult,
};
use evm_core::journaled_state::JournaledState;
use evm_core::precompile::{ContextPrecompiles, PrecompileBehavior, PrecompileSet};
use evm_core::primitives::{AccountInfo, Address, Bytecode, B256, U256};
use evm_core::specification::SpecId;

fn funded(balance: U256) -> AccountInfo {
    AccountInfo { nonce: 0, balance, code_hash: B256::default(), code: None }
}

fn addr(n: u128) -> Address {
    Address::new(0, n)
}

#[test]
fn u256_checked_arithmetic_exact() {
    let a = U256::from_u64(40);
    let b = U256::from_u64(2);
    assert_eq!(a.checked_add(b), Some(U256::from_u64(42)));
    assert_eq!(a.checked_sub(b), Some(U256::from_u64(38)));
    assert_eq!(b.checked_sub(a), None);
    let max = U256 { l0: u64::MAX, l1: u64::MAX, l2: u64::MAX, l3: u64::MAX };
    assert_eq!(max.checked_add(U256::from_u64(1)), None);
    assert_eq!(max.checked_add(U256::zero()), Some(max));
}

#[test]
fn u256_wrapping_arithmetic_exact() {
    let max = U256 { l0: u64::MAX, l1: u64::MAX, l2: u64::MAX, l3: u64::MAX };
    let one = U256::from_u64(1);
    assert_eq!(max.wrapping_add(one), U256::zero());
    assert_eq!(U256::zero().wrapping_sub(one), max);
    assert_eq!(one.wrapping_add(one), U256::from_u64(2));
}

#[test]
fn u256_comparison() {
    let small = U256::from_u64(5);
    let big = U256 { l0: 0, l1: 0, l2: 0, l3: 1 };
    assert!(small.lt(&big));
    assert!(!big.lt(&small));
    assert!(!small.lt(&small));
    assert!(U256::zero().is_zero());
    assert!(!small.is_zero());
}

#[test]
fn empty_code_hashes_to_the_empty_hash() {
    // Exercises the real Keccak-256 behind `hash_slow`.
    let h = Bytecode::new().hash_slow();
    assert_eq!(
        h,
        B256 { hi: 0xc5d2460186f7233c927e7db2dcc703c0, lo: 0xe500b653ca82273b7bfad8045d85a470 }
    );
    // A non-empty code must hash to something else.
    let h2 = Bytecode::new_raw(vec![0x60, 0x00]).hash_slow();
    assert_ne!(h, h2);
}

#[test]
fn checkpoint_revert_restores_state_exactly() {
    let mut db = CacheDB::new(EmptyDB::default());
    let a = addr(1);
    let b = addr(2);
    db.insert_account_info(a, funded(U256::from_u64(100)));
    db.insert_account_info(b, funded(U256::from_u64(7)));
    let mut js = JournaledState::new(SpecId::CANCUN, Vec::new());
    js.load_account(a, &mut db).unwrap();
    js.load_account(b, &mut db).unwrap();
    js.tstore(a, U256::from_u64(1), U256::from_u64(11));
    js.sstore(a, U256::from_u64(4), U256::from_u64(44), &mut db).unwrap();
    let before_state = js.state.clone();
    let before_storage = js.storage.clone();
    let before_transient = js.transient_storage.clone();
    let before_journal = js.journal.clone();
    let before_logs = js.logs.clone();

    let cp = js.checkpoint();
    let moved = js.transfer(&a, &b, U256::from_u64(30), &mut db).unwrap();
    assert_eq!(moved, None);
    js.touch(&b);
    js.load_account(addr(3), &mut db).unwrap();
    js.tstore(a, U256::from_u64(1), U256::from_u64(99));
    js.tstore(b, U256::from_u64(2), U256::from_u64(5));
    js.sstore(a, U256::from_u64(4), U256::from_u64(45), &mut db).unwrap();
    js.sload(b, U256::from_u64(6), &mut db).unwrap();
    js.checkpoint_revert(cp);

    assert_eq!(js.state, before_state);
    assert_eq!(js.storage, before_storage);
    assert_eq!(js.transient_storage, before_transient);
    assert_eq!(js.journal, before_journal);
    assert_eq!(js.logs, before_logs);
    assert_eq!(js.depth, 0);
}

#[test]
fn journaled_storage_reads_and_writes() {
    let mut db = CacheDB::new(EmptyDB::default());
    let a = addr(1);
    db.insert_account_info(a, funded(U256::from_u64(1)));
    let mut js = JournaledState::new(SpecId::CANCUN, Vec::new());
    js.load_account(a, &mut db).unwrap();
    let k = U256::from_u64(2);

    // First access is cold and reads what the database holds: nothing.
    assert_eq!(js.sload(a, k, &mut db).unwrap(), (U256::zero(), true));
    assert_eq!(js.sload(a, k, &mut db).unwrap(), (U256::zero(), false));

    // A write reports original, previous and new values.
    let r = js.sstore(a, k, U256::from_u64(9), &mut db).unwrap();
    assert_eq!(r.original_value, U256::zero());
    assert_eq!(r.present_value, U256::zero());
    assert_eq!(r.new_value, U256::from_u64(9));
    assert!(!r.is_cold);
    assert_eq!(js.sload(a, k, &mut db).unwrap(), (U256::from_u64(9), false));

    // A second write still reports the original value from before any write.
    let r2 = js.sstore(a, k, U256::from_u64(10), &mut db).unwrap();
    assert_eq!(r2.original_value, U256::zero());
    assert_eq!(r2.present_value, U256::from_u64(9));
    assert_eq!(r2.new_value, U256::from_u64(10));
}

#[test]
fn transient_storage_reads_writes_and_erasure() {
    let mut js = JournaledState::new(SpecId::CANCUN, Vec::new());
    let a = addr(1);
    let k = U256::from_u64(7);
    assert_eq!(js.tload(a, k), U256::zero());
    js.tstore(a, k, U256::from_u64(3));
    assert_eq!(js.tload(a, k), U256::from_u64(3));
    // The same key under another address is a different slot.
    assert_eq!(js.tload(addr(2), k), U256::zero());
    // Writing zero erases the slot.
    js.tstore(a, k, U256::zero());
    assert_eq!(js.tload(a, k), U256::zero());
    assert!(js.transient_storage.is_empty());
}

#[test]
fn transfer_moves_balances_and_fails_cleanly() {
    let mut db = CacheDB::new(EmptyDB::default());
    let a = addr(1);
    let b = addr(2);
    db.insert_account_info(a, funded(U256::from_u64(100)));
    db.insert_account_info(b, funded(U256::from_u64(7)));
    let mut js = JournaledState::new(SpecId::CANCUN, Vec::new());

    // A successful move.
    assert_eq!(js.transfer(&a, &b, U256::from_u64(30), &mut db).unwrap(), None);
    let balance_of = |js: &JournaledState, who: Address| -> U256 {
        js.state.iter().find(|e| e.0 == who).unwrap().1.info.balance
    };
    assert_eq!(balance_of(&js, a), U256::from_u64(70));
    assert_eq!(balance_of(&js, b), U256::from_u64(37));

    // Asking for more than the balance moves nothing.
    assert_eq!(
        js.transfer(&a, &b, U256::from_u64(1000), &mut db).unwrap(),
        Some(InstructionResult::OutOfFunds)
    );
    assert_eq!(balance_of(&js, a), U256::from_u64(70));
    assert_eq!(balance_of(&js, b), U256::from_u64(37));
}

#[test]
fn transfer_reports_overflow_payment() {
    let mut db = CacheDB::new(EmptyDB::default());
    let a = addr(1);
    let b = addr(2);
    let max = U256 { l0: u64::MAX, l1: u64::MAX, l2: u64::MAX, l3: u64::MAX };
    db.insert_account_info(a, funded(U256::from_u64(5)));
    db.insert_account_info(b, funded(max));
    let mut js = JournaledState::new(SpecId::CANCUN, Vec::new());
    assert_eq!(
        js.transfer(&a, &b, U256::from_u64(1), &mut db).unwrap(),
        Some(InstructionResult::OverflowPayment)
    );
}

fn mock_call(to: Address, gas_limit: u64) -> CallInputs {
    CallInputs {
        input: Vec::new(),
        gas_limit,
        bytecode_address: to,
        target_address: to,
        caller: Address::zero(),
        value: CallValue::Transfer(U256::zero()),
        scheme: CallScheme::Call,
        is_eof: false,
        is_static: false,
        return_memory_offset: 0..0,
    }
}

#[test]
fn precompile_wins_over_deployed_code() {
    // The precompile address also carries code; the precompile must win.
    let p = addr(9);
    let mut cdb = CacheDB::new(EmptyDB::default());
    let by = Bytecode::new_raw(vec![0x60, 0x00]);
    cdb.insert_account_info(
        p,
        AccountInfo {
            nonce: 0,
            balance: U256::zero(),
            code_hash: by.clone().hash_slow(),
            code: Some(by),
        },
    );
    let mut context = EvmContext::new_with_env(cdb, Env::default());
    context.inner.journaled_state = JournaledState::new(SpecId::CANCUN, Vec::new());
    let mut registry = ContextPrecompiles::new();
    registry.insert(p, PrecompileBehavior::Success { gas_used: 3, bytes: vec![1, 2] });
    context.set_precompiles(registry);
    assert!(context.precompiles.contains(&p));

    let res = context.make_call_frame(&mock_call(p, 100));
    let Ok(FrameOrResult::Result(result)) = res else {
        panic!("Expected FrameOrResult::Result");
    };
    let ir = result.interpreter_result();
    assert_eq!(ir.result, InstructionResult::Return);
    assert_eq!(ir.output, vec![1, 2]);
    assert_eq!(ir.gas.remaining, 97);
    assert_eq!(context.inner.journaled_state.depth, 0);
}

#[test]
fn precompile_out_of_gas_reverts() {
    let p = addr(9);
    let mut context = EvmContext::new_with_env(EmptyDB::default(), Env::default());
    context.inner.journaled_state = JournaledState::new(SpecId::CANCUN, Vec::new());
    let mut registry = ContextPrecompiles::new();
    registry.insert(p, PrecompileBehavior::Success { gas_used: 200, bytes: vec![1] });
    context.set_precompiles(registry);

    let res = context.make_call_frame(&mock_call(p, 100));
    let Ok(FrameOrResult::Result(result)) = res else {
        panic!("Expected FrameOrResult::Result");
    };
    assert_eq!(result.interpreter_result().result, InstructionResult::PrecompileOOG);
    assert_eq!(result.interpreter_result().gas.remaining, 100);
    assert_eq!(context.inner.journaled_state.depth, 0);
}

#[test]
fn precompile_recoverable_error_reverts() {
    let p = addr(9);
    let mut context = EvmContext::new_with_env(EmptyDB::default(), Env::default());
    context.inner.journaled_state = JournaledState::new(SpecId::CANCUN, Vec::new());
    let mut registry = ContextPrecompiles::new();
    registry.insert(p, PrecompileBehavior::Failure { oog: false });
    context.set_precompiles(registry);

    let res = context.make_call_frame(&mock_call(p, 100));
    let Ok(FrameOrResult::Result(result)) = res else {
        panic!("Expected FrameOrResult::Result");
    };
    assert_eq!(result.interpreter_result().result, InstructionResult::PrecompileError);
}

#[test]
fn precompile_fatal_error_aborts() {
    let p = addr(9);
    let mut context = EvmContext::new_with_env(EmptyDB::default(), Env::default());
    context.inner.journaled_state = JournaledState::new(SpecId::CANCUN, Vec::new());
    let mut registry = ContextPrecompiles::new();
    registry.insert(p, PrecompileBehavior::Fatal { msg: String::from("no table") });
    context.set_precompiles(registry);

    let res = context.make_call_frame(&mock_call(p, 100));
    match res {
        Err(EVMError::Precompile(msg)) => assert_eq!(msg, "no table"),
        _ => panic!("Expected a fatal precompile error"),
    }
}

#[test]
fn dummy_host_storage_cold_then_warm() {
    let mut host = DummyHost::new(Env::default());
    let k = U256::from_u64(3);
    assert_eq!(host.sload(Address::zero(), k), Some((U256::zero(), true)));
    assert_eq!(host.sload(Address::zero(), k), Some((U256::zero(), false)));

    let r = host.sstore(Address::zero(), k, U256::from_u64(9)).unwrap();
    assert_eq!(r.present_value, U256::zero());
    assert_eq!(r.new_value, U256::from_u64(9));
    assert!(!r.is_cold);
    assert_eq!(host.sload(Address::zero(), k), Some((U256::from_u64(9), false)));

    let k2 = U256::from_u64(4);
    let r2 = host.sstore(Address::zero(), k2, U256::from_u64(1)).unwrap();
    assert!(r2.is_cold);
    assert_eq!(r2.original_value, U256::zero());
}

#[test]
fn dummy_host_transient_storage_and_clear() {
    let mut host = DummyHost::new(Env::default());
    let k = U256::from_u64(5);
    assert_eq!(host.tload(Address::zero(), k), U256::zero());
    host.tstore(Address::zero(), k, U256::from_u64(8));
    assert_eq!(host.tload(Address::zero(), k), U256::from_u64(8));

    host.sstore(Address::zero(), k, U256::from_u64(2)).unwrap();
    host.clear();
    // Clearing drops storage and logs but keeps transient storage.
    assert_eq!(host.sload(Address::zero(), k), Some((U256::zero(), true)));
    assert_eq!(host.tload(Address::zero(), k), U256::from_u64(8));
}

#[test]
fn dummy_host_reads_are_empty_and_warm() {
    let mut host = DummyHost::new(Env::default());
    let a = addr(7);
    assert_eq!(host.balance(a), Some((U256::zero(), false)));
    let (code, cold) = host.code(a).unwrap();
    assert!(code.is_empty());
    assert!(!cold);
    let (hash, _) = host.code_hash(a).unwrap();
    assert_eq!(hash, Bytecode::new().hash_slow());
    assert_eq!(host.block_hash(1), Some(B256::zero()));
    assert!(!host.load_account(a).unwrap().is_cold);
}

#[test]
fn set_precompiles_merges_warm_addresses() {
    let mut context = EvmContext::new_with_env(EmptyDB::default(), Env::default());
    context.inner.journaled_state = JournaledState::new(SpecId::CANCUN, vec![addr(1)]);
    let mut registry = ContextPrecompiles::new();
    registry.insert(addr(9), PrecompileBehavior::Failure { oog: true });
    context.set_precompiles(registry);
    let warm = &context.inner.journaled_state.warm_preloaded_addresses;
    assert!(warm.contains(&addr(1)));
    assert!(warm.contains(&addr(9)));
}
