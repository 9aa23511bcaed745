//! The step builder of the opcode that copies the last callee's return data
//! into the caller's memory.

use vstd::prelude::*;
use crate::copy::{
    copied, copy_entries, gen_copy_steps, read_len, read_trace, write_trace, CopyDataType,
    CopyEvent, NumberOrHash,
};
use crate::operation::{lemma_extends_chain, CallContextField, Entry, Target, RW};
use crate::state::{CallInfo, CircuitInputState, Error, ExecStep, GethExecStep, STACK_LIMIT};
use crate::word::Word;

verus! {

/// How many operands the opcode takes from the stack: the destination
/// offset on top, then the offset into the return data, then the length.
pub const OPERANDS: usize = 3;

/// How many rows the step itself logs: one per operand and one per field of
/// the call's bookkeeping.
pub const STEP_ROWS: u64 = 6;

/// The word that holds `x`.
pub open spec fn word_of(x: u64) -> Word {
    Word { l0: x, l1: 0, l2: 0, l3: 0 }
}

/// The read of the `n`-th operand from the top of the stack.
pub open spec fn stack_read(call: CallInfo, geth_step: &GethExecStep, n: int) -> Entry {
    Entry {
        rw: RW::Read,
        target: Target::Stack {
            call_id: call.call_id,
            address: geth_step.operand_address(n) as u64,
            value: geth_step.operand(n),
        },
    }
}

/// The read of one field of the current call's bookkeeping.
pub open spec fn call_context_read(call: CallInfo, field: CallContextField, x: u64) -> Entry {
    Entry {
        rw: RW::Read,
        target: Target::CallContext { call_id: call.call_id, field: field, value: word_of(x) },
    }
}

/// The entries that the step logs, in order: the three operands from the
/// top of the stack down, then the last callee's id, the offset of its
/// return data and the length of its return data.
pub open spec fn step_entries(call: CallInfo, geth_step: &GethExecStep) -> Seq<Entry> {
    seq![
        stack_read(call, geth_step, 0),
        stack_read(call, geth_step, 1),
        stack_read(call, geth_step, 2),
        call_context_read(call, CallContextField::LastCalleeId, call.last_callee_id),
        call_context_read(
            call,
            CallContextField::LastCalleeReturnDataOffset,
            call.last_callee_return_data_offset,
        ),
        call_context_read(
            call,
            CallContextField::LastCalleeReturnDataLength,
            call.last_callee_return_data_length,
        ),
    ]
}

/// `step` is the record of `geth_step`, taken when the log held `rows` rows
/// and its counter stood at `rwc`: it names the six rows that follow.
pub open spec fn step_recorded(
    step: ExecStep,
    call: CallInfo,
    rows: int,
    rwc: u64,
    geth_step: &GethExecStep,
) -> bool {
    &&& step.pc == geth_step.pc
    &&& step.op == geth_step.op
    &&& step.call_id == call.call_id
    &&& step.rwc == rwc
    &&& step.rows@ == Seq::new(STEP_ROWS as nat, |k: int| (rows + k) as usize)
}

/// The entries that the copy logs: the bytes of the return data from the
/// operand offset on, read in the last callee's memory and written to the
/// current call's.
pub open spec fn event_entries(
    call: CallInfo,
    return_data: Seq<u8>,
    geth_step: &GethExecStep,
) -> Seq<Entry> {
    copy_entries(
        return_data,
        geth_step.operand(1).l0 as int,
        call.last_callee_id,
        call.last_callee_return_data_offset + geth_step.operand(1).l0,
        call.call_id,
        geth_step.operand(0).l0 as int,
        geth_step.operand(2).l0 as nat,
    )
}

/// The operands and the counter `rwc` leave room for the copy: offset and
/// length are below 2^64, the source range and every address written lie
/// below 2^64, and the counter can take the rows of the copy.
pub open spec fn copy_fits(
    call: CallInfo,
    return_data: Seq<u8>,
    rwc: int,
    geth_step: &GethExecStep,
) -> bool {
    let offset = geth_step.operand(1);
    let length = geth_step.operand(2);
    &&& offset.fits_u64()
    &&& length.fits_u64()
    &&& call.last_callee_return_data_offset + offset.l0 <= u64::MAX
    &&& call.last_callee_return_data_offset + call.last_callee_return_data_length <= u64::MAX
    &&& geth_step.operand(0).l0 + length.l0 <= u64::MAX + 1
    &&& rwc + length.l0 + read_len(return_data, offset.l0 as int, length.l0 as nat) <= u64::MAX
}

/// `event` describes the copy that `geth_step` asks for, from the last
/// callee's return data to the current call's memory, with its rows
/// starting at counter `rwc`.
pub open spec fn event_recorded(
    event: CopyEvent,
    call: CallInfo,
    return_data: Seq<u8>,
    rwc: u64,
    geth_step: &GethExecStep,
) -> bool {
    let offset = geth_step.operand(1).l0;
    let length = geth_step.operand(2).l0;
    &&& event.src_type == CopyDataType::Memory
    &&& event.src_id == NumberOrHash::Number(call.last_callee_id)
    &&& event.src_addr == call.last_callee_return_data_offset + offset
    &&& event.src_addr_end == call.last_callee_return_data_offset
        + call.last_callee_return_data_length
    &&& event.dst_type == CopyDataType::Memory
    &&& event.dst_id == NumberOrHash::Number(call.call_id)
    &&& event.dst_addr == geth_step.operand(0).l0
    &&& event.log_id == None::<u64>
    &&& event.rw_counter_start == rwc
    &&& event.bytes@ == read_trace(return_data, offset as int, length as nat)
    &&& event.aux_bytes@ == write_trace(return_data, offset as int, length as nat)
}

/// Builds the step's record and logs its six rows. With fewer than three
/// operands on the stack it fails and logs nothing.
pub fn gen_returndatacopy_step(state: &mut CircuitInputState, geth_step: &GethExecStep) -> (r:
    Result<ExecStep, Error>)
    requires
        old(state).wf(),
        geth_step.stack@.len() <= STACK_LIMIT,
        geth_step.stack@.len() >= OPERANDS ==> old(state).log.rwc + STEP_ROWS <= u64::MAX,
    ensures
        final(state).wf(),
        final(state).call == old(state).call,
        final(state).call_ctx == old(state).call_ctx,
        match r {
            Ok(step) => {
                &&& geth_step.stack@.len() >= OPERANDS
                &&& final(state).log.extends(
                    &old(state).log,
                    step_entries(old(state).call, geth_step),
                )
                &&& step_recorded(
                    step,
                    old(state).call,
                    old(state).log.rows@.len() as int,
                    old(state).log.rwc,
                    geth_step,
                )
                &&& step.copy_events@.len() == 0
            },
            Err(e) => {
                &&& geth_step.stack@.len() < OPERANDS
                &&& e == Error::StackUnderflow
                &&& final(state).log == old(state).log
            },
        },
{
    let memory_offset = geth_step.nth_last(0)?;
    let data_offset = geth_step.nth_last(1)?;
    let length = geth_step.nth_last(2)?;
    let call = state.call;
    let mut rows: Vec<usize> = Vec::new();
    let rwc = state.log.rwc();

    let a0 = geth_step.nth_last_filled(0);
    let r0 = state.log.push(
        RW::Read,
        Target::Stack { call_id: call.call_id, address: a0, value: memory_offset },
    );
    rows.push(r0);
    let a1 = geth_step.nth_last_filled(1);
    let r1 = state.log.push(
        RW::Read,
        Target::Stack { call_id: call.call_id, address: a1, value: data_offset },
    );
    rows.push(r1);
    let a2 = geth_step.nth_last_filled(2);
    let r2 = state.log.push(
        RW::Read,
        Target::Stack { call_id: call.call_id, address: a2, value: length },
    );
    rows.push(r2);

    let return_data_len = state.call_ctx.return_data.len() as u64;
    let r3 = state.log.push(
        RW::Read,
        Target::CallContext {
            call_id: call.call_id,
            field: CallContextField::LastCalleeId,
            value: Word::from_u64(call.last_callee_id),
        },
    );
    rows.push(r3);
    let r4 = state.log.push(
        RW::Read,
        Target::CallContext {
            call_id: call.call_id,
            field: CallContextField::LastCalleeReturnDataOffset,
            value: Word::from_u64(call.last_callee_return_data_offset),
        },
    );
    rows.push(r4);
    let r5 = state.log.push(
        RW::Read,
        Target::CallContext {
            call_id: call.call_id,
            field: CallContextField::LastCalleeReturnDataLength,
            value: Word::from_u64(return_data_len),
        },
    );
    rows.push(r5);
    proof {
        assert(state.log.rows@ =~= old(state).log.rows@ + crate::operation::stamp(
            step_entries(old(state).call, geth_step),
            old(state).log.rwc as int,
        ));
        assert(rows@ =~= Seq::new(
            STEP_ROWS as nat,
            |k: int| (old(state).log.rows@.len() + k) as usize,
        ));
    }
    Ok(
        ExecStep {
            pc: geth_step.pc,
            op: geth_step.op,
            call_id: call.call_id,
            rwc,
            rows,
            copy_events: Vec::new(),
        },
    )
}

/// Logs the rows of the copy and builds its event. With fewer than three
/// operands on the stack it fails and logs nothing.
pub fn gen_copy_event(state: &mut CircuitInputState, geth_step: &GethExecStep) -> (r: Result<
    CopyEvent,
    Error,
>)
    requires
        old(state).wf(),
        geth_step.stack@.len() >= OPERANDS ==> copy_fits(
            old(state).call,
            old(state).call_ctx.return_data@,
            old(state).log.rwc as int,
            geth_step,
        ),
    ensures
        final(state).wf(),
        final(state).call == old(state).call,
        final(state).call_ctx == old(state).call_ctx,
        match r {
            Ok(event) => {
                &&& geth_step.stack@.len() >= OPERANDS
                &&& final(state).log.extends(
                    &old(state).log,
                    event_entries(old(state).call, old(state).call_ctx.return_data@, geth_step),
                )
                &&& event_recorded(
                    event,
                    old(state).call,
                    old(state).call_ctx.return_data@,
                    old(state).log.rwc,
                    geth_step,
                )
                &&& final(state).log.rwc == old(state).log.rwc + geth_step.operand(2).l0
                    + event.bytes@.len()
            },
            Err(e) => {
                &&& geth_step.stack@.len() < OPERANDS
                &&& e == Error::StackUnderflow
                &&& final(state).log == old(state).log
            },
        },
{
    let rw_counter_start = state.log.rwc();
    let dst_addr = geth_step.nth_last(0)?.low_u64();
    let data_offset = geth_step.nth_last(1)?.low_u64();
    let length = geth_step.nth_last(2)?.low_u64();

    let call = state.call;
    let src_addr = call.last_callee_return_data_offset + data_offset;
    let src_addr_end = call.last_callee_return_data_offset + call.last_callee_return_data_length;

    let (read_steps, write_steps) = gen_copy_steps(
        &mut state.log,
        &state.call_ctx.return_data,
        data_offset,
        call.last_callee_id,
        src_addr,
        call.call_id,
        dst_addr,
        length,
    );

    Ok(
        CopyEvent {
            src_type: CopyDataType::Memory,
            src_id: NumberOrHash::Number(call.last_callee_id),
            src_addr,
            src_addr_end,
            dst_type: CopyDataType::Memory,
            dst_id: NumberOrHash::Number(call.call_id),
            dst_addr,
            log_id: None,
            rw_counter_start,
            bytes: read_steps,
            aux_bytes: write_steps,
        },
    )
}

/// The builder of the opcode's steps.
#[derive(Clone, Copy, Debug)]
pub struct Returndatacopy;

impl Returndatacopy {
    /// Whether `gen_associated_ops` can replay `geth_step` on this state:
    /// the stack is no deeper than the machine allows and, where it holds
    /// the operands, the counter has room for the step's rows, the copy
    /// fits after them, and a copy of at least one byte ends inside the
    /// addressable memory.
    pub open spec fn replayable(state: &CircuitInputState, geth_step: &GethExecStep) -> bool {
        &&& geth_step.stack@.len() <= STACK_LIMIT
        &&& geth_step.stack@.len() >= OPERANDS ==> {
            &&& state.log.rwc + STEP_ROWS <= u64::MAX
            &&& copy_fits(
                state.call,
                state.call_ctx.return_data@,
                state.log.rwc + STEP_ROWS,
                geth_step,
            )
            &&& geth_step.operand(2).l0 > 0 ==> geth_step.operand(0).fits_u64()
                && geth_step.operand(0).l0 + geth_step.operand(2).l0 <= usize::MAX
        }
    }

    /// Decides `replayable` for a state with a well-formed log.
    pub fn can_replay(state: &CircuitInputState, geth_step: &GethExecStep) -> (ok: bool)
        ensures
            ok == Self::replayable(state, geth_step),
    {
        let len = geth_step.stack.len();
        if len > STACK_LIMIT {
            return false;
        }
        if len < OPERANDS {
            return true;
        }
        let dst = geth_step.stack[len - 1];
        let offset = geth_step.stack[len - 2];
        let length = geth_step.stack[len - 3];
        if offset.to_u64().is_none() || length.to_u64().is_none() {
            return false;
        }
        let data_len = state.call_ctx.return_data.len();
        let avail: u64 = if offset.l0 < data_len as u64 {
            data_len as u64 - offset.l0
        } else {
            0
        };
        let read: u64 = if length.l0 <= avail {
            length.l0
        } else {
            avail
        };
        let base: u128 = state.call.last_callee_return_data_offset as u128;
        let recorded: u128 = state.call.last_callee_return_data_length as u128;
        let limit: u128 = u64::MAX as u128;
        let dst_end: u128 = dst.l0 as u128 + length.l0 as u128;
        let rows: u128 = state.log.rwc as u128 + STEP_ROWS as u128 + length.l0 as u128
            + read as u128;
        let source_ok = base + offset.l0 as u128 <= limit && base + recorded <= limit;
        let memory_ok = length.l0 == 0 || (dst.to_u64().is_some() && dst_end
            <= usize::MAX as u128);
        source_ok && dst_end <= limit + 1 && rows <= limit && memory_ok
    }

    /// Replays the first of `geth_steps`: logs the step's six rows, copies
    /// the return data into the current call's memory, logs the rows of the
    /// copy and attaches the copy event to the step. With fewer than three
    /// operands on the stack it fails and changes nothing.
    pub fn gen_associated_ops(state: &mut CircuitInputState, geth_steps: &Vec<GethExecStep>) -> (r:
        Result<Vec<ExecStep>, Error>)
        requires
            old(state).wf(),
            geth_steps@.len() >= 1,
            Self::replayable(old(state), &geth_steps@[0]),
        ensures
            final(state).wf(),
            final(state).call == old(state).call,
            final(state).call_ctx.return_data == old(state).call_ctx.return_data,
            match r {
                Ok(steps) => {
                    &&& geth_steps@[0].stack@.len() >= OPERANDS
                    &&& final(state).log.extends(
                        &old(state).log,
                        step_entries(old(state).call, &geth_steps@[0]) + event_entries(
                            old(state).call,
                            old(state).call_ctx.return_data@,
                            &geth_steps@[0],
                        ),
                    )
                    &&& final(state).call_ctx.memory.bytes@ == copied(
                        old(state).call_ctx.memory.bytes@,
                        geth_steps@[0].operand(0).l0 as int,
                        old(state).call_ctx.return_data@,
                        geth_steps@[0].operand(1).l0 as int,
                        geth_steps@[0].operand(2).l0 as nat,
                    )
                    &&& steps@.len() == 1
                    &&& step_recorded(
                        steps@[0],
                        old(state).call,
                        old(state).log.rows@.len() as int,
                        old(state).log.rwc,
                        &geth_steps@[0],
                    )
                    &&& steps@[0].copy_events@.len() == 1
                    &&& event_recorded(
                        steps@[0].copy_events@[0],
                        old(state).call,
                        old(state).call_ctx.return_data@,
                        (old(state).log.rwc + STEP_ROWS) as u64,
                        &geth_steps@[0],
                    )
                    &&& final(state).log.rwc == old(state).log.rwc + STEP_ROWS
                        + geth_steps@[0].operand(2).l0 + steps@[0].copy_events@[0].bytes@.len()
                },
                Err(e) => {
                    &&& geth_steps@[0].stack@.len() < OPERANDS
                    &&& e == Error::StackUnderflow
                    &&& final(state).log == old(state).log
                    &&& final(state).call_ctx == old(state).call_ctx
                },
            },
    {
        let geth_step = &geth_steps[0];
        let mut step = gen_returndatacopy_step(state, geth_step)?;
        let ghost mid = state.log;

        let dst_offset = geth_step.stack[geth_step.stack.len() - 1].low_u64();
        let src_offset = geth_step.stack[geth_step.stack.len() - 2].low_u64();
        let length = geth_step.stack[geth_step.stack.len() - 3].low_u64();
        state.call_ctx.memory.copy_from(dst_offset, src_offset, length, &state.call_ctx.return_data);

        let event = gen_copy_event(state, geth_step);
        match event {
            Ok(copy_event) => {
                step.copy_events.push(copy_event);
                let mut steps: Vec<ExecStep> = Vec::new();
                steps.push(step);
                proof {
                    lemma_extends_chain(
                        &old(state).log,
                        &mid,
                        &state.log,
                        step_entries(old(state).call, geth_step),
                        event_entries(
                            old(state).call,
                            old(state).call_ctx.return_data@,
                            geth_step,
                        ),
                    );
                }
                Ok(steps)
            },
            Err(e) => Err(e),
        }
    }
}

} // verus!
