use zkevm_witness::copy::{gen_copy_steps, CopyDataType, Memory, NumberOrHash};
use zkevm_witness::operation::{CallContextField, Operation, OperationLog, Target, RW};
use zkevm_witness::returndatacopy::{gen_copy_event, gen_returndatacopy_step, Returndatacopy};
use zkevm_witness::state::{CallContext, CallInfo, CircuitInputState, Error, GethExecStep};
use zkevm_witness::word::Word;

fn state_with(memory: Vec<u8>, return_data: Vec<u8>, offset: u64) -> CircuitInputState {
    let length = return_data.len() as u64;
    CircuitInputState {
        log: OperationLog::new(),
        call: CallInfo {
            call_id: 1,
            last_callee_id: 7,
            last_callee_return_data_offset: offset,
            last_callee_return_data_length: length,
        },
        call_ctx: CallContext { memory: Memory { bytes: memory }, return_data },
    }
}

fn copy_step(dst: u64, src: u64, len: u64) -> GethExecStep {
    GethExecStep {
        pc: 58,
        op: 0x3e,
        stack: vec![Word::from_u64(len), Word::from_u64(src), Word::from_u64(dst)],
    }
}

fn hex_bytes(s: &str) -> Vec<u8> {
    let digits: Vec<u8> = s.bytes().map(|c| (c as char).to_digit(16).unwrap() as u8).collect();
    digits.chunks(2).map(|p| p[0] * 16 + p[1]).collect()
}

#[test]
fn test_ok() {
    // The constructor code, stored as one word: it is what the callee
    // receives as call data and hands back as its return data.
    let code = hex_bytes("6B6020600060003760206000F3600052600C6014F3");
    let mut word = vec![0u8; 32 - code.len()];
    word.extend_from_slice(&code);
    assert_eq!(word.len(), 32);
    let mut memory = word.clone();
    memory.extend_from_slice(&word);
    let mut state = state_with(memory, word.clone(), 0);
    let steps = vec![copy_step(0x40, 0, 0x20)];

    let exec_steps = Returndatacopy::gen_associated_ops(&mut state, &steps).unwrap();
    assert_eq!(exec_steps.len(), 1);
    let copy_events = exec_steps[0].copy_events.clone();
    assert_eq!(copy_events.len(), 1);
    let event = &copy_events[0];
    assert_eq!(event.src_type, CopyDataType::Memory);
    assert_eq!(event.dst_type, CopyDataType::Memory);
    assert_eq!(event.src_id, NumberOrHash::Number(7));
    assert_eq!(event.dst_id, NumberOrHash::Number(1));
    assert_eq!(event.src_addr, 0);
    assert_eq!(event.src_addr_end, 0x20);
    assert_eq!(event.dst_addr, 0x40);
    assert_eq!(event.log_id, None);
    assert_eq!(event.rw_counter_start, 7);
    assert_eq!(event.bytes, word);
    assert_eq!(event.aux_bytes.len(), 0x20);
    assert_eq!(event.aux_bytes, word);
    assert_eq!(state.call_ctx.memory.bytes.len(), 0x60);
    assert_eq!(&state.call_ctx.memory.bytes[0x40..0x60], &word[..]);
    assert_eq!(&state.call_ctx.memory.bytes[..0x20], &word[..]);
    assert_eq!(state.log.len(), 6 + 64);
    assert_eq!(state.log.rwc(), 71);
}

#[test]
fn event_source_address_starts_at_callee_offset() {
    let data: Vec<u8> = (1..=32).collect();
    let mut state = state_with(vec![], data.clone(), 0x80);
    let steps = vec![copy_step(0x40, 0, 0x20)];
    let exec_steps = Returndatacopy::gen_associated_ops(&mut state, &steps).unwrap();
    let event = &exec_steps[0].copy_events[0];
    assert_eq!(event.src_addr, 0x80);
    assert_eq!(event.src_addr_end, 0xa0);
    assert_eq!(
        state.log.get(6),
        Some(Operation {
            rwc: 7,
            rw: RW::Read,
            target: Target::Memory { call_id: 7, address: 0x80, value: 1 },
        })
    );
    assert_eq!(
        state.log.get(7),
        Some(Operation {
            rwc: 8,
            rw: RW::Write,
            target: Target::Memory { call_id: 1, address: 0x40, value: 1 },
        })
    );
}

#[test]
fn step_logs_three_stack_reads_and_three_call_context_reads() {
    let mut state = state_with(vec![], vec![9, 9, 9], 5);
    let step = copy_step(0x10, 1, 2);
    let exec = gen_returndatacopy_step(&mut state, &step).unwrap();
    assert_eq!(exec.pc, 58);
    assert_eq!(exec.op, 0x3e);
    assert_eq!(exec.call_id, 1);
    assert_eq!(exec.rwc, 1);
    assert_eq!(exec.rows, vec![0, 1, 2, 3, 4, 5]);
    assert!(exec.copy_events.is_empty());
    let stack = |rwc: u64, address: u64, value: u64| Operation {
        rwc,
        rw: RW::Read,
        target: Target::Stack { call_id: 1, address, value: Word::from_u64(value) },
    };
    let ctx = |rwc: u64, field: CallContextField, value: u64| Operation {
        rwc,
        rw: RW::Read,
        target: Target::CallContext { call_id: 1, field, value: Word::from_u64(value) },
    };
    assert_eq!(state.log.get(0), Some(stack(1, 1021, 0x10)));
    assert_eq!(state.log.get(1), Some(stack(2, 1022, 1)));
    assert_eq!(state.log.get(2), Some(stack(3, 1023, 2)));
    assert_eq!(state.log.get(3), Some(ctx(4, CallContextField::LastCalleeId, 7)));
    assert_eq!(state.log.get(4), Some(ctx(5, CallContextField::LastCalleeReturnDataOffset, 5)));
    assert_eq!(state.log.get(5), Some(ctx(6, CallContextField::LastCalleeReturnDataLength, 3)));
    assert_eq!(state.log.get(6), None);
    assert_eq!(state.log.rwc(), 7);
    assert!(state.return_data_consistent());
}

#[test]
fn row_counters_grow_by_one_without_gaps() {
    let mut state = state_with(vec![], vec![1, 2, 3, 4, 5], 0);
    let steps = vec![copy_step(0, 2, 6)];
    Returndatacopy::gen_associated_ops(&mut state, &steps).unwrap();
    Returndatacopy::gen_associated_ops(&mut state, &steps).unwrap();
    let n = state.log.len();
    // six step rows, three reads and six writes, twice over
    assert_eq!(n, 2 * (6 + 3 + 6));
    for i in 0..n {
        assert_eq!(state.log.get(i).unwrap().rwc, 1 + i as u64);
    }
    assert_eq!(state.log.rwc(), 1 + n as u64);
}

#[test]
fn copy_past_the_source_is_truncated_and_padded() {
    let mut state = state_with(vec![0xff; 4], vec![10, 11, 12, 13, 14, 15, 16, 17], 0);
    let step = copy_step(2, 3, 8);
    let event = gen_copy_event(&mut state, &step).unwrap();
    assert_eq!(event.bytes, vec![13, 14, 15, 16, 17]);
    assert_eq!(event.aux_bytes, vec![13, 14, 15, 16, 17, 0, 0, 0]);
    assert_eq!(event.src_addr, 3);
    assert_eq!(event.src_addr_end, 8);
    assert_eq!(event.rw_counter_start, 1);
    // five reads, eight writes
    assert_eq!(state.log.len(), 13);
    assert_eq!(
        state.log.get(10),
        Some(Operation {
            rwc: 11,
            rw: RW::Write,
            target: Target::Memory { call_id: 1, address: 7, value: 0 },
        })
    );
    assert_eq!(
        state.log.get(12),
        Some(Operation {
            rwc: 13,
            rw: RW::Write,
            target: Target::Memory { call_id: 1, address: 9, value: 0 },
        })
    );
    // the event builder leaves the memory alone
    assert_eq!(state.call_ctx.memory.bytes, vec![0xff; 4]);
}

#[test]
fn zero_length_copy_keeps_the_event_and_logs_no_copy_rows() {
    let mut state = state_with(vec![1, 2, 3], vec![4, 5, 6], 0);
    let steps = vec![copy_step(0x40, 1, 0)];
    let exec_steps = Returndatacopy::gen_associated_ops(&mut state, &steps).unwrap();
    assert_eq!(exec_steps[0].copy_events.len(), 1);
    let event = &exec_steps[0].copy_events[0];
    assert!(event.bytes.is_empty());
    assert!(event.aux_bytes.is_empty());
    assert_eq!(event.rw_counter_start, 7);
    assert_eq!(state.log.len(), 6);
    assert_eq!(state.call_ctx.memory.bytes, vec![1, 2, 3]);
}

#[test]
fn copy_from_the_end_of_the_source_writes_zeros() {
    let mut state = state_with(vec![7; 6], vec![4, 5, 6], 0);
    let steps = vec![copy_step(1, 3, 4)];
    let exec_steps = Returndatacopy::gen_associated_ops(&mut state, &steps).unwrap();
    let event = &exec_steps[0].copy_events[0];
    assert!(event.bytes.is_empty());
    assert_eq!(event.aux_bytes, vec![0, 0, 0, 0]);
    assert_eq!(state.log.len(), 6 + 4);
    assert_eq!(state.call_ctx.memory.bytes, vec![7, 0, 0, 0, 0, 7]);
}

#[test]
fn stack_underflow_is_reported_and_nothing_is_logged() {
    let mut state = state_with(vec![1], vec![2], 0);
    let short = GethExecStep { pc: 0, op: 0x3e, stack: vec![Word::from_u64(1), Word::from_u64(0)] };
    assert_eq!(gen_returndatacopy_step(&mut state, &short).err(), Some(Error::StackUnderflow));
    assert_eq!(gen_copy_event(&mut state, &short).err(), Some(Error::StackUnderflow));
    let steps = vec![short.clone()];
    assert_eq!(
        Returndatacopy::gen_associated_ops(&mut state, &steps).err(),
        Some(Error::StackUnderflow)
    );
    assert_eq!(state.log.len(), 0);
    assert_eq!(state.log.rwc(), 1);
    assert_eq!(state.call_ctx.memory.bytes, vec![1]);
    assert_eq!(short.nth_last(1), Ok(Word::from_u64(1)));
    assert_eq!(short.nth_last(2), Err(Error::StackUnderflow));
    assert_eq!(short.nth_last_filled(0), 1022);
}

#[test]
fn memory_copy_grows_the_destination_with_zeros() {
    let mut m = Memory::new();
    m.copy_from(3, 1, 4, &vec![1, 2, 3]);
    assert_eq!(m.bytes, vec![0, 0, 0, 2, 3, 0, 0]);
    m.copy_from(0, 0, 2, &vec![9, 8, 7]);
    assert_eq!(m.bytes, vec![9, 8, 0, 2, 3, 0, 0]);
    m.copy_from(100, 0, 0, &vec![9, 8, 7]);
    assert_eq!(m.bytes.len(), 7);
}

#[test]
fn copy_steps_return_read_and_write_traces() {
    let mut log = OperationLog::new();
    let (reads, writes) = gen_copy_steps(&mut log, &vec![1, 2, 3], 1, 5, 0x21, 6, 0x40, 3);
    assert_eq!(reads, vec![2, 3]);
    assert_eq!(writes, vec![2, 3, 0]);
    assert_eq!(log.len(), 5);
    assert_eq!(
        log.get(0),
        Some(Operation {
            rwc: 1,
            rw: RW::Read,
            target: Target::Memory { call_id: 5, address: 0x21, value: 2 },
        })
    );
    assert_eq!(
        log.get(4),
        Some(Operation {
            rwc: 5,
            rw: RW::Write,
            target: Target::Memory { call_id: 6, address: 0x42, value: 0 },
        })
    );
}

#[test]
fn log_push_stamps_the_counter() {
    let mut log = OperationLog::new();
    assert_eq!(log.rwc(), 1);
    let target = Target::Memory { call_id: 3, address: 4, value: 5 };
    assert_eq!(log.push(RW::Write, target), 0);
    assert_eq!(log.push(RW::Read, target), 1);
    assert_eq!(log.get(1), Some(Operation { rwc: 2, rw: RW::Read, target }));
    assert_eq!(log.rwc(), 3);
}

#[test]
fn word_conversions() {
    let w = Word { l0: 5, l1: 1, l2: 0, l3: 0 };
    assert_eq!(w.low_u64(), 5);
    assert_eq!(w.to_u64(), None);
    assert!(!w.is_zero());
    assert_eq!(Word::from_u64(9).to_u64(), Some(9));
    assert!(Word::zero().is_zero());
    assert!(!Word { l0: 0, l1: 0, l2: 0, l3: 1 }.is_zero());
}

#[test]
fn can_replay_accepts_what_fits_and_refuses_what_does_not() {
    let state = state_with(vec![], vec![1, 2, 3], 0);
    assert!(Returndatacopy::can_replay(&state, &copy_step(0x40, 0, 0x20)));
    assert!(Returndatacopy::can_replay(&state, &copy_step(0, 7, 0)));
    // too few operands: replayable, and then refused as an underflow
    let short = GethExecStep { pc: 0, op: 0x3e, stack: vec![] };
    assert!(Returndatacopy::can_replay(&state, &short));
    // an offset that does not fit in 64 bits
    let mut wide = copy_step(0, 0, 1);
    wide.stack[1] = Word { l0: 0, l1: 1, l2: 0, l3: 0 };
    assert!(!Returndatacopy::can_replay(&state, &wide));
    // a length that does not fit in 64 bits
    let mut long = copy_step(0, 0, 1);
    long.stack[0] = Word { l0: 1, l1: 0, l2: 0, l3: 1 };
    assert!(!Returndatacopy::can_replay(&state, &long));
    // a destination that ends past the address space
    assert!(!Returndatacopy::can_replay(&state, &copy_step(u64::MAX, 0, 2)));
    // a stack deeper than the machine allows
    let deep = GethExecStep { pc: 0, op: 0x3e, stack: vec![Word::zero(); 1025] };
    assert!(!Returndatacopy::can_replay(&state, &deep));
    // a source range that ends past 2^64
    let far = state_with(vec![], vec![1, 2, 3], u64::MAX - 1);
    assert!(!Returndatacopy::can_replay(&far, &copy_step(0, 0, 1)));
}
