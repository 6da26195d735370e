//! Frame-level types: instruction results, gas accounting, call inputs, the
//! per-frame contract binding, and the frame-or-result union that frame
//! construction produces.

use vstd::prelude::*;
use core::ops::Range;
use crate::journaled_state::JournalCheckpoint;
use crate::primitives::{Address, Bytecode, B256, U256};

verus! {

/// Result code with which a frame halts, or under which it keeps running.
#[allow(non_camel_case_types)]
#[derive(Clone, Copy, Debug, PartialEq, Eq, Structural, Hash)]
pub enum InstructionResult {
    /// Execution continues: no halt yet.
    Continue,
    /// Normal halt without output.
    Stop,
    /// Normal halt with output.
    Return,
    /// Normal halt by self-destruction.
    SelfDestruct,
    /// The frame reverted its own changes.
    Revert,
    /// Gas was exhausted.
    OutOfGas,
    /// The call tree grew past the depth limit.
    CallTooDeep,
    /// A transfer asked for more than the caller holds.
    OutOfFunds,
    /// A credit would overflow the 256-bit balance.
    OverflowPayment,
    /// A precompile ran out of gas.
    PrecompileOOG,
    /// A precompile failed for another recoverable reason.
    PrecompileError,
}

impl InstructionResult {
    /// Whether this code is a normal (successful) halt.
    pub open spec fn is_ok_spec(self) -> bool {
        ||| self == InstructionResult::Stop
        ||| self == InstructionResult::Return
        ||| self == InstructionResult::SelfDestruct
    }

    /// Whether this code is a normal (successful) halt.
    pub fn is_ok(&self) -> (r: bool)
        ensures
            r == self.is_ok_spec(),
    {
        match self {
            InstructionResult::Stop | InstructionResult::Return | InstructionResult::SelfDestruct => {
                true
            },
            _ => false,
        }
    }
}

/// Gas of one frame: the limit it started with and what remains.
#[derive(Clone, Copy, Debug, PartialEq, Eq, Structural, Hash)]
pub struct Gas {
    pub limit: u64,
    pub remaining: u64,
}

impl Gas {
    /// A fresh gas counter with the whole limit remaining.
    pub fn new(limit: u64) -> (r: Gas)
        ensures
            r.limit == limit,
            r.remaining == limit,
    {
        Gas { limit, remaining: limit }
    }

    /// The limit this frame started with.
    pub fn limit(&self) -> (r: u64)
        ensures
            r == self.limit,
    {
        self.limit
    }

    /// What remains to spend.
    pub fn remaining(&self) -> (r: u64)
        ensures
            r == self.remaining,
    {
        self.remaining
    }

    /// Records a cost: deducts it and returns `true` if the remainder was
    /// sufficient, else deducts nothing and returns `false`.
    pub fn record_cost(&mut self, cost: u64) -> (r: bool)
        ensures
            r == (cost <= old(self).remaining),
            final(self).limit == old(self).limit,
            final(self).remaining == if cost <= old(self).remaining {
                old(self).remaining - cost
            } else {
                old(self).remaining as int
            },
    {
        if cost <= self.remaining {
            self.remaining = self.remaining - cost;
            true
        } else {
            false
        }
    }
}

/// What a storage write reports: the slot's original, present and new
/// values, and whether the access was cold.
#[derive(Clone, Copy, Debug, PartialEq, Eq, Structural, Hash)]
pub struct SStoreResult {
    pub original_value: U256,
    pub present_value: U256,
    pub new_value: U256,
    pub is_cold: bool,
}

/// What loading an account reports: whether the access was cold and whether
/// the account has no code.
#[derive(Clone, Copy, Debug, PartialEq, Eq, Structural, Hash)]
pub struct LoadAccountResult {
    pub is_cold: bool,
    pub is_empty_code_hash: bool,
}

impl Default for LoadAccountResult {
    /// A warm account with code.
    fn default() -> (r: Self)
        ensures
            r.is_cold == false,
            r.is_empty_code_hash == false,
    {
        LoadAccountResult { is_cold: false, is_empty_code_hash: false }
    }
}

/// How a call was made.
#[derive(Clone, Copy, Debug, PartialEq, Eq, Structural, Hash)]
pub enum CallScheme {
    /// An ordinary call.
    Call,
    /// A call that runs foreign code on the caller's state and value.
    CallCode,
    /// A call that runs foreign code on the caller's state, keeping caller
    /// and value of the parent.
    DelegateCall,
    /// A call that may not mutate state.
    StaticCall,
}

/// The value a call carries: an actual transfer, or a value that is only
/// apparent (delegated calls).
#[derive(Clone, Copy, Debug, PartialEq, Eq, Structural, Hash)]
pub enum CallValue {
    /// Value moved from caller to target.
    Transfer(U256),
    /// Value only reported to the callee; nothing moves.
    Apparent(U256),
}

impl CallValue {
    /// The value the callee observes.
    pub open spec fn get_spec(self) -> U256 {
        match self {
            CallValue::Transfer(v) => v,
            CallValue::Apparent(v) => v,
        }
    }

    /// The value the callee observes.
    pub fn get(&self) -> (r: U256)
        ensures
            r == self.get_spec(),
    {
        match self {
            CallValue::Transfer(v) => *v,
            CallValue::Apparent(v) => *v,
        }
    }
}

/// A request to enter a call.
#[derive(Debug)]
pub struct CallInputs {
    /// Call data.
    pub input: Vec<u8>,
    /// Gas the frame may spend.
    pub gas_limit: u64,
    /// Account whose code runs.
    pub bytecode_address: Address,
    /// Account whose state is acted on.
    pub target_address: Address,
    /// Account the call comes from.
    pub caller: Address,
    /// Value the call carries.
    pub value: CallValue,
    /// How the call was made.
    pub scheme: CallScheme,
    /// Whether the frame may not mutate state.
    pub is_static: bool,
    /// Whether the code is of the extended format.
    pub is_eof: bool,
    /// Where the caller wants the returned bytes placed in its memory.
    pub return_memory_offset: Range<usize>,
}

/// The immutable execution target of one frame.
#[derive(Clone, Debug)]
pub struct Contract {
    /// Call data.
    pub input: Vec<u8>,
    /// The code that runs.
    pub bytecode: Bytecode,
    /// Hash of that code, when known.
    pub hash: Option<B256>,
    /// Account whose state is acted on.
    pub target_address: Address,
    /// Account the call comes from.
    pub caller: Address,
    /// Value the callee observes.
    pub call_value: U256,
}

impl Contract {
    /// The target of a frame described by `inputs`, bound to the given code.
    pub fn new_with_context(
        input: Vec<u8>,
        bytecode: Bytecode,
        hash: Option<B256>,
        inputs: &CallInputs,
    ) -> (r: Contract)
        ensures
            r.input@ == input@,
            r.bytecode@ == bytecode@,
            r.hash == hash,
            r.target_address == inputs.target_address,
            r.caller == inputs.caller,
            r.call_value == inputs.value.get_spec(),
    {
        let call_value = inputs.value.get();
        Contract {
            input,
            bytecode,
            hash,
            target_address: inputs.target_address,
            caller: inputs.caller,
            call_value,
        }
    }
}

/// One call's execution state, ready to be stepped by the scheduler above.
/// The stepping loop itself is outside this crate's scope.
#[derive(Clone, Debug)]
pub struct Interpreter {
    /// What the frame executes.
    pub contract: Contract,
    /// The frame's gas.
    pub gas: Gas,
    /// Whether the frame may not mutate state.
    pub is_static: bool,
}

impl Interpreter {
    /// A fresh interpreter for one frame.
    pub fn new(contract: Contract, gas_limit: u64, is_static: bool) -> (r: Interpreter)
        ensures
            r.contract == contract,
            r.gas.limit == gas_limit,
            r.gas.remaining == gas_limit,
            r.is_static == is_static,
    {
        Interpreter { contract, gas: Gas::new(gas_limit), is_static }
    }
}

/// Output of a finished frame.
#[derive(Clone, Debug)]
pub struct InterpreterResult {
    /// The halt code.
    pub result: InstructionResult,
    /// Gas left when the frame ended.
    pub gas: Gas,
    /// Returned bytes.
    pub output: Vec<u8>,
}

/// Outcome of a call whose result is already known: the interpreter result
/// and where the caller wants it placed.
#[derive(Debug)]
pub struct CallOutcome {
    /// The finished frame's output.
    pub result: InterpreterResult,
    /// Where the caller wants the returned bytes placed in its memory.
    pub memory_offset: Range<usize>,
}

impl CallOutcome {
    /// The finished frame's output.
    pub fn interpreter_result(&self) -> (r: &InterpreterResult)
        ensures
            *r == self.result,
    {
        &self.result
    }
}

/// A live call frame: its return-memory window, the checkpoint to unwind to,
/// and the interpreter that will run it.
#[derive(Debug)]
pub struct CallFrame {
    /// Where the caller wants the returned bytes placed in its memory.
    pub return_memory_range: Range<usize>,
    /// The journal position this frame unwinds to on failure.
    pub checkpoint: JournalCheckpoint,
    /// The execution state of the frame.
    pub interpreter: Interpreter,
}

/// A live frame of either kind. Frames that create contracts are outside
/// this crate's scope.
#[derive(Debug)]
pub enum Frame {
    /// A call frame.
    Call(CallFrame),
}

/// A pre-computed result of either kind.
#[derive(Debug)]
pub enum FrameResult {
    /// The outcome of a call.
    Call(CallOutcome),
}

impl FrameResult {
    /// The finished frame's output.
    pub fn interpreter_result(&self) -> (r: &InterpreterResult)
        ensures
            self matches FrameResult::Call(c) && *r == c.result,
    {
        match self {
            FrameResult::Call(c) => c.interpreter_result(),
        }
    }
}

/// What frame construction produces: a live frame to step, or a result that
/// is already known.
#[derive(Debug)]
pub enum FrameOrResult {
    /// A live frame.
    Frame(Frame),
    /// A fully computed result.
    Result(FrameResult),
}

impl FrameOrResult {
    /// A computed call result with the caller's return-memory window.
    pub fn new_call_result(result: InterpreterResult, memory_offset: Range<usize>) -> (r:
        FrameOrResult)
        ensures
            r matches FrameOrResult::Result(FrameResult::Call(c)) && c.result == result
                && c.memory_offset == memory_offset,
    {
        FrameOrResult::Result(FrameResult::Call(CallOutcome { result, memory_offset }))
    }

    /// A live call frame.
    pub fn new_call_frame(
        return_memory_range: Range<usize>,
        checkpoint: JournalCheckpoint,
        interpreter: Interpreter,
    ) -> (r: FrameOrResult)
        ensures
            r matches FrameOrResult::Frame(Frame::Call(f)) && f.return_memory_range
                == return_memory_range && f.checkpoint == checkpoint && f.interpreter == interpreter,
    {
        FrameOrResult::Frame(Frame::Call(CallFrame { return_memory_range, checkpoint, interpreter }))
    }
}

} // verus!
