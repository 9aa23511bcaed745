//! What a step builder works on: the snapshot of one opcode's execution, the
//! bookkeeping of the current call, and the record that a step leaves.

use vstd::prelude::*;
use crate::copy::{CopyEvent, Memory};
use crate::operation::OperationLog;
use crate::word::Word;

verus! {

/// Why a trace could not be replayed.
#[derive(Clone, Copy, Debug, PartialEq, Eq, Structural)]
pub enum Error {
    /// The stack holds fewer operands than the opcode consumes.
    StackUnderflow,
}

/// The deepest stack that the machine allows.
pub const STACK_LIMIT: usize = 1024;

/// The snapshot taken before one opcode runs. The top of the stack is the
/// last element of `stack`.
#[derive(Clone, Debug)]
pub struct GethExecStep {
    pub pc: u64,
    pub op: u8,
    pub stack: Vec<Word>,
}

impl GethExecStep {
    /// The `n`-th operand from the top, where the stack has it.
    pub open spec fn operand(&self, n: int) -> Word {
        self.stack@[self.stack@.len() - 1 - n]
    }

    /// The stack address of the `n`-th operand from the top: addresses grow
    /// towards the bottom of the stack, which is at `STACK_LIMIT`.
    pub open spec fn operand_address(&self, n: int) -> int {
        STACK_LIMIT - self.stack@.len() + n
    }

    /// The `n`-th operand from the top, or a stack underflow where the stack
    /// holds `n` operands or fewer.
    pub fn nth_last(&self, n: usize) -> (r: Result<Word, Error>)
        ensures
            r == if n < self.stack@.len() {
                Ok::<Word, Error>(self.operand(n as int))
            } else {
                Err::<Word, Error>(Error::StackUnderflow)
            },
    {
        let len = self.stack.len();
        if n < len {
            Ok(self.stack[len - 1 - n])
        } else {
            Err(Error::StackUnderflow)
        }
    }

    /// The stack address of the `n`-th operand from the top.
    pub fn nth_last_filled(&self, n: usize) -> (a: u64)
        requires
            self.stack@.len() <= STACK_LIMIT,
            n < self.stack@.len(),
        ensures
            a == self.operand_address(n as int),
    {
        (STACK_LIMIT - self.stack.len() + n) as u64
    }
}

/// The bookkeeping of the current call: its own id, and what the last call
/// that it made left behind.
#[derive(Clone, Copy, Debug, PartialEq, Eq, Structural)]
pub struct CallInfo {
    pub call_id: u64,
    pub last_callee_id: u64,
    pub last_callee_return_data_offset: u64,
    pub last_callee_return_data_length: u64,
}

/// The buffers of the current call frame.
#[derive(Clone, Debug)]
pub struct CallContext {
    pub memory: Memory,
    pub return_data: Vec<u8>,
}

/// The state that step builders thread through a block: the operation log
/// with its counter, and the current call.
#[derive(Debug)]
pub struct CircuitInputState {
    pub log: OperationLog,
    pub call: CallInfo,
    pub call_ctx: CallContext,
}

impl CircuitInputState {
    /// The log is well-formed, and the recorded length of the last callee's
    /// return data is the length of the buffered return data.
    pub open spec fn wf(&self) -> bool {
        &&& self.log.wf()
        &&& self.call.last_callee_return_data_length == self.call_ctx.return_data@.len()
    }

    /// Whether the recorded length of the last callee's return data is the
    /// length of the buffered return data.
    pub fn return_data_consistent(&self) -> (ok: bool)
        ensures
            ok == (self.call.last_callee_return_data_length == self.call_ctx.return_data@.len()),
    {
        self.call_ctx.return_data.len() as u64 == self.call.last_callee_return_data_length
    }
}

/// The record of one opcode's execution: where it ran, the counter at its
/// start, the rows of the log that it produced, by index, and the copy
/// events attached to it.
#[derive(Clone, Debug)]
pub struct ExecStep {
    pub pc: u64,
    pub op: u8,
    pub call_id: u64,
    pub rwc: u64,
    pub rows: Vec<usize>,
    pub copy_events: Vec<CopyEvent>,
}

} // verus!
