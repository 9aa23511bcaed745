//! Byte-level data movement: the memory of a call frame, the traces of a
//! bulk copy, and the rows that a copy adds to the operation log.

use vstd::prelude::*;
use crate::operation::{Entry, OperationLog, Target, RW, stamp};
use crate::word::H256;

verus! {

/// The address space that one side of a copy lives in.
#[derive(Clone, Copy, Debug, PartialEq, Eq, Structural)]
pub enum CopyDataType {
    Bytecode,
    Memory,
    TxCalldata,
    TxLog,
}

/// The identity of one side of a copy: a call or transaction number, or the
/// hash of a bytecode.
#[derive(Clone, Copy, Debug, PartialEq, Eq, Structural)]
pub enum NumberOrHash {
    Number(u64),
    Hash(H256),
}

/// One bulk data movement. `bytes` is what was really read from the source;
/// `aux_bytes` is what was written, one byte per requested position.
#[derive(Clone, Debug)]
pub struct CopyEvent {
    pub src_type: CopyDataType,
    pub src_id: NumberOrHash,
    pub src_addr: u64,
    pub src_addr_end: u64,
    pub dst_type: CopyDataType,
    pub dst_id: NumberOrHash,
    pub dst_addr: u64,
    pub log_id: Option<u64>,
    pub rw_counter_start: u64,
    pub bytes: Vec<u8>,
    pub aux_bytes: Vec<u8>,
}

/// The byte of `src` at `i`, and zero outside `src`.
pub open spec fn byte_or_zero(src: Seq<u8>, i: int) -> u8 {
    if 0 <= i < src.len() {
        src[i]
    } else {
        0
    }
}

/// How many bytes `src` holds from `offset` on.
pub open spec fn available(src: Seq<u8>, offset: int) -> nat {
    if 0 <= offset < src.len() {
        (src.len() - offset) as nat
    } else {
        0
    }
}

/// How many bytes a copy of `length` bytes from `offset` really reads.
pub open spec fn read_len(src: Seq<u8>, offset: int, length: nat) -> nat {
    if length <= available(src, offset) {
        length
    } else {
        available(src, offset)
    }
}

/// The bytes read by a copy of `length` bytes from `offset`: those that the
/// source has.
pub open spec fn read_trace(src: Seq<u8>, offset: int, length: nat) -> Seq<u8> {
    Seq::new(read_len(src, offset, length), |i: int| src[offset + i])
}

/// The bytes written by a copy of `length` bytes from `offset`: the source's
/// bytes, then zeros.
pub open spec fn write_trace(src: Seq<u8>, offset: int, length: nat) -> Seq<u8> {
    Seq::new(length, |i: int| byte_or_zero(src, offset + i))
}

/// The log entries of a copy of `n` bytes, position by position: a read of
/// the source where it has the byte, then the write to the destination.
pub open spec fn copy_entries(
    src: Seq<u8>,
    offset: int,
    src_id: u64,
    src_addr: int,
    dst_id: u64,
    dst_addr: int,
    n: nat,
) -> Seq<Entry>
    decreases n,
{
    if n == 0 {
        Seq::empty()
    } else {
        let i = n - 1;
        let before = copy_entries(src, offset, src_id, src_addr, dst_id, dst_addr, i as nat);
        let write = Entry {
            rw: RW::Write,
            target: Target::Memory {
                call_id: dst_id,
                address: (dst_addr + i) as u64,
                value: byte_or_zero(src, offset + i),
            },
        };
        if 0 <= offset + i < src.len() {
            before.push(
                Entry {
                    rw: RW::Read,
                    target: Target::Memory {
                        call_id: src_id,
                        address: (src_addr + i) as u64,
                        value: src[offset + i],
                    },
                },
            ).push(write)
        } else {
            before.push(write)
        }
    }
}

/// A memory after a copy of `length` bytes from `src` at `offset` to `dst`:
/// grown with zeros to hold the range, which then holds the written trace.
/// A copy of no bytes changes nothing.
pub open spec fn copied(mem: Seq<u8>, dst: int, src: Seq<u8>, offset: int, length: nat) -> Seq<u8> {
    if length == 0 {
        mem
    } else {
        Seq::new(
            if mem.len() >= dst + length {
                mem.len()
            } else {
                (dst + length) as nat
            },
            |i: int|
                if dst <= i < dst + length {
                    byte_or_zero(src, offset + (i - dst))
                } else {
                    byte_or_zero(mem, i)
                },
        )
    }
}

/// After a copy the destination range holds the written trace, byte for
/// byte, and every other byte of the memory is what it was.
pub proof fn lemma_copied_range(mem: Seq<u8>, dst: int, src: Seq<u8>, offset: int, length: nat)
    requires
        0 <= dst,
        0 <= offset,
    ensures
        forall|i: int|
            0 <= i < length ==> #[trigger] copied(mem, dst, src, offset, length)[dst + i]
                == write_trace(src, offset, length)[i],
        forall|i: int|
            0 <= i < mem.len() && !(dst <= i < dst + length) ==> #[trigger] copied(
                mem,
                dst,
                src,
                offset,
                length,
            )[i] == mem[i],
        copied(mem, dst, src, offset, length).len() >= mem.len(),
        length > 0 ==> copied(mem, dst, src, offset, length).len() >= dst + length,
{
}

/// A copy of `n` bytes logs one write per byte and one read per byte read.
pub proof fn lemma_copy_entries_len(
    src: Seq<u8>,
    offset: int,
    src_id: u64,
    src_addr: int,
    dst_id: u64,
    dst_addr: int,
    n: nat,
)
    requires
        0 <= offset,
    ensures
        copy_entries(src, offset, src_id, src_addr, dst_id, dst_addr, n).len() == n + read_len(
            src,
            offset,
            n,
        ),
    decreases n,
{
    if n > 0 {
        lemma_copy_entries_len(src, offset, src_id, src_addr, dst_id, dst_addr, (n - 1) as nat);
    }
}

/// The truncation law of a copy of `length` bytes from a source that has
/// `available` bytes left: as many bytes are written as were asked for, as
/// many are read as the source has, up to `length`, every byte read is
/// written at the same position, and every byte written past the source's
/// end is zero.
pub proof fn lemma_copy_truncation(src: Seq<u8>, offset: int, length: nat)
    requires
        0 <= offset,
    ensures
        write_trace(src, offset, length).len() == length,
        read_trace(src, offset, length).len() == if length <= available(src, offset) {
            length
        } else {
            available(src, offset)
        },
        forall|i: int|
            0 <= i < read_trace(src, offset, length).len() ==> read_trace(src, offset, length)[i]
                == write_trace(src, offset, length)[i],
        forall|i: int|
            available(src, offset) <= i < length ==> write_trace(src, offset, length)[i] == 0,
{
}

/// A copy of no bytes reads nothing, writes nothing and logs nothing.
pub proof fn lemma_copy_nothing(
    src: Seq<u8>,
    offset: int,
    src_id: u64,
    src_addr: int,
    dst_id: u64,
    dst_addr: int,
)
    ensures
        read_trace(src, offset, 0) == Seq::<u8>::empty(),
        write_trace(src, offset, 0) == Seq::<u8>::empty(),
        copy_entries(src, offset, src_id, src_addr, dst_id, dst_addr, 0) == Seq::<Entry>::empty(),
{
    assert(read_trace(src, offset, 0) =~= Seq::<u8>::empty());
    assert(write_trace(src, offset, 0) =~= Seq::<u8>::empty());
}

/// A copy from at or past the source's end reads nothing and writes zeros.
pub proof fn lemma_copy_past_end(src: Seq<u8>, offset: int, length: nat)
    requires
        offset >= src.len(),
    ensures
        read_trace(src, offset, length) == Seq::<u8>::empty(),
        write_trace(src, offset, length) == Seq::new(length, |i: int| 0u8),
{
    assert(read_trace(src, offset, length) =~= Seq::<u8>::empty());
    assert(write_trace(src, offset, length) =~= Seq::new(length, |i: int| 0u8));
}

/// The bytes of one call frame, addressed from zero.
#[derive(Clone, Debug)]
pub struct Memory {
    pub bytes: Vec<u8>,
}

impl Memory {
    pub fn new() -> (m: Memory)
        ensures
            m.bytes@ == Seq::<u8>::empty(),
    {
        Memory { bytes: Vec::new() }
    }

    /// Overwrites `length` bytes from `dst` on with the bytes of `data` from
    /// `offset` on, and with zeros where `data` has no more. The memory grows
    /// with zeros where it is too short.
    pub fn copy_from(&mut self, dst: u64, offset: u64, length: u64, data: &Vec<u8>)
        requires
            length > 0 ==> dst + length <= usize::MAX,
        ensures
            final(self).bytes@ == copied(
                old(self).bytes@,
                dst as int,
                data@,
                offset as int,
                length as nat,
            ),
    {
        if length == 0 {
            return ;
        }
        let end: usize = (dst + length) as usize;
        while self.bytes.len() < end
            invariant
                self.bytes@.len() >= old(self).bytes@.len(),
                self.bytes@.len() <= end || self.bytes@.len() == old(self).bytes@.len(),
                forall|k: int|
                    0 <= k < self.bytes@.len() ==> self.bytes@[k] == byte_or_zero(
                        old(self).bytes@,
                        k,
                    ),
            decreases end - self.bytes@.len(),
        {
            self.bytes.push(0u8);
        }
        let ghost grown = self.bytes@;
        let avail: u64 = if offset < data.len() as u64 {
            data.len() as u64 - offset
        } else {
            0
        };
        let mut i: u64 = 0;
        while i < length
            invariant
                i <= length,
                end == dst + length,
                dst + length <= usize::MAX,
                data@.len() <= usize::MAX,
                avail == available(data@, offset as int),
                grown.len() >= end,
                self.bytes@.len() == grown.len(),
                forall|k: int|
                    0 <= k < self.bytes@.len() ==> self.bytes@[k] == if dst <= k < dst + i {
                        byte_or_zero(data@, offset + (k - dst))
                    } else {
                        grown[k]
                    },
            decreases length - i,
        {
            let v: u8 = if i < avail {
                data[(offset + i) as usize]
            } else {
                0u8
            };
            self.bytes.set((dst + i) as usize, v);
            i = i + 1;
        }
        proof {
            assert(final(self).bytes@ =~= copied(
                old(self).bytes@,
                dst as int,
                data@,
                offset as int,
                length as nat,
            ));
        }
    }
}

/// Logs the rows of a copy of `length` bytes from `src` at `offset` into the
/// memory of call `dst_id` at `dst_addr`, and returns the read trace and the
/// write trace. A byte that the source has is logged as a read at
/// `src_addr` plus its position and then as a write; a byte past the
/// source's end is logged as a write of zero only.
pub fn gen_copy_steps(
    log: &mut OperationLog,
    src: &Vec<u8>,
    offset: u64,
    src_id: u64,
    src_addr: u64,
    dst_id: u64,
    dst_addr: u64,
    length: u64,
) -> (traces: (Vec<u8>, Vec<u8>))
    requires
        old(log).wf(),
        old(log).rwc + length + read_len(src@, offset as int, length as nat) <= u64::MAX,
        src_addr + read_len(src@, offset as int, length as nat) <= u64::MAX,
        dst_addr + length <= u64::MAX + 1,
    ensures
        final(log).wf(),
        final(log).extends(
            old(log),
            copy_entries(
                src@,
                offset as int,
                src_id,
                src_addr as int,
                dst_id,
                dst_addr as int,
                length as nat,
            ),
        ),
        final(log).rwc == old(log).rwc + length + read_len(src@, offset as int, length as nat),
        traces.0@ == read_trace(src@, offset as int, length as nat),
        traces.1@ == write_trace(src@, offset as int, length as nat),
{
    let mut reads: Vec<u8> = Vec::new();
    let mut writes: Vec<u8> = Vec::new();
    let avail: u64 = if offset < src.len() as u64 {
        src.len() as u64 - offset
    } else {
        0
    };
    let mut i: u64 = 0;
    proof {
        assert(log.rows@ =~= old(log).rows@ + stamp(Seq::<Entry>::empty(), old(log).rwc as int));
        assert(reads@ =~= read_trace(src@, offset as int, 0));
        assert(writes@ =~= write_trace(src@, offset as int, 0));
    }
    while i < length
        invariant
            i <= length,
            old(log).wf(),
            old(log).rwc + length + read_len(src@, offset as int, length as nat) <= u64::MAX,
            src_addr + read_len(src@, offset as int, length as nat) <= u64::MAX,
            dst_addr + length <= u64::MAX + 1,
            src@.len() <= usize::MAX,
            avail == available(src@, offset as int),
            log.wf(),
            log.extends(
                old(log),
                copy_entries(
                    src@,
                    offset as int,
                    src_id,
                    src_addr as int,
                    dst_id,
                    dst_addr as int,
                    i as nat,
                ),
            ),
            log.rwc == old(log).rwc + i + read_len(src@, offset as int, i as nat),
            reads@ == read_trace(src@, offset as int, i as nat),
            writes@ == write_trace(src@, offset as int, i as nat),
        decreases length - i,
    {
        let ghost before = copy_entries(
            src@,
            offset as int,
            src_id,
            src_addr as int,
            dst_id,
            dst_addr as int,
            i as nat,
        );
        let ghost after = copy_entries(
            src@,
            offset as int,
            src_id,
            src_addr as int,
            dst_id,
            dst_addr as int,
            (i + 1) as nat,
        );
        let ghost start = old(log).rwc as int;
        let mut v: u8 = 0u8;
        if i < avail {
            v = src[(offset + i) as usize];
            log.push(RW::Read, Target::Memory { call_id: src_id, address: src_addr + i, value: v });
            reads.push(v);
        }
        log.push(RW::Write, Target::Memory { call_id: dst_id, address: dst_addr + i, value: v });
        writes.push(v);
        proof {
            assert(log.rows@ =~= old(log).rows@ + stamp(after, start));
            assert(reads@ =~= read_trace(src@, offset as int, (i + 1) as nat));
            assert(writes@ =~= write_trace(src@, offset as int, (i + 1) as nat));
        }
        i = i + 1;
    }
    (reads, writes)
}

} // verus!
