//! The operation log: an append-only ledger of typed reads and writes, each
//! stamped with the value of a counter that grows by one per row.

use vstd::prelude::*;
use crate::word::Word;

verus! {

/// Whether a row reads its target or writes it.
#[derive(Clone, Copy, Debug, PartialEq, Eq, Structural)]
pub enum RW {
    Read,
    Write,
}

/// The fields of a call's bookkeeping that a row can address.
#[derive(Clone, Copy, Debug, PartialEq, Eq, Structural)]
pub enum CallContextField {
    LastCalleeId,
    LastCalleeReturnDataOffset,
    LastCalleeReturnDataLength,
}

/// What a row touches, and the value seen or stored there.
#[derive(Clone, Copy, Debug, PartialEq, Eq, Structural)]
pub enum Target {
    Stack { call_id: u64, address: u64, value: Word },
    Memory { call_id: u64, address: u64, value: u8 },
    CallContext { call_id: u64, field: CallContextField, value: Word },
}

/// A read or write that has not been given its place in the log yet.
#[derive(Clone, Copy, Debug, PartialEq, Eq, Structural)]
pub struct Entry {
    pub rw: RW,
    pub target: Target,
}

/// One row of the log.
#[derive(Clone, Copy, Debug, PartialEq, Eq, Structural)]
pub struct Operation {
    pub rwc: u64,
    pub rw: RW,
    pub target: Target,
}

/// The rows that `entries` become when the first of them gets counter `start`.
pub open spec fn stamp(entries: Seq<Entry>, start: int) -> Seq<Operation> {
    Seq::new(
        entries.len(),
        |k: int| Operation { rwc: (start + k) as u64, rw: entries[k].rw, target: entries[k].target },
    )
}

/// The ledger itself. `rwc` is the counter that the next row will get.
#[derive(Debug)]
pub struct OperationLog {
    pub rows: Vec<Operation>,
    pub rwc: u64,
}

/// The counter of the first row of every log.
pub const FIRST_RWC: u64 = 1;

impl OperationLog {
    /// Row `i` carries counter `FIRST_RWC + i`, and the next counter follows
    /// the last row.
    pub open spec fn wf(&self) -> bool {
        &&& self.rwc == FIRST_RWC + self.rows@.len()
        &&& forall|i: int| 0 <= i < self.rows@.len() ==> (#[trigger] self.rows@[i]).rwc == FIRST_RWC + i
    }

    /// This log is `before` with `entries` appended in order.
    pub open spec fn extends(&self, before: &OperationLog, entries: Seq<Entry>) -> bool {
        &&& self.rows@ == before.rows@ + stamp(entries, before.rwc as int)
        &&& self.rwc == before.rwc + entries.len()
    }

    pub fn new() -> (log: OperationLog)
        ensures
            log.wf(),
            log.rows@ == Seq::<Operation>::empty(),
            log.rwc == FIRST_RWC,
    {
        OperationLog { rows: Vec::new(), rwc: FIRST_RWC }
    }

    /// The counter that the next row will get.
    pub fn rwc(&self) -> (c: u64)
        ensures
            c == self.rwc,
    {
        self.rwc
    }

    pub fn len(&self) -> (n: usize)
        ensures
            n == self.rows@.len(),
    {
        self.rows.len()
    }

    /// Row `i`, or `None` where the log has fewer rows.
    pub fn get(&self, i: usize) -> (row: Option<Operation>)
        ensures
            row == if i < self.rows@.len() {
                Some(self.rows@[i as int])
            } else {
                None
            },
    {
        if i < self.rows.len() {
            Some(self.rows[i])
        } else {
            None
        }
    }

    /// Appends one row with the current counter and advances the counter by
    /// one. Returns the index of the new row.
    pub fn push(&mut self, rw: RW, target: Target) -> (row: usize)
        requires
            old(self).wf(),
            old(self).rwc < u64::MAX,
        ensures
            final(self).wf(),
            final(self).rows@ == old(self).rows@.push(
                Operation { rwc: old(self).rwc, rw: rw, target: target },
            ),
            final(self).rwc == old(self).rwc + 1,
            final(self).extends(old(self), seq![Entry { rw: rw, target: target }]),
            row == old(self).rows@.len(),
    {
        let row = self.rows.len();
        let op = Operation { rwc: self.rwc, rw, target };
        self.rows.push(op);
        self.rwc = self.rwc + 1;
        proof {
            assert(final(self).rows@ =~= old(self).rows@ + stamp(
                seq![Entry { rw: rw, target: target }],
                old(self).rwc as int,
            ));
        }
        row
    }
}

/// Appending `b` after `a` to `before` is appending `a + b`.
pub proof fn lemma_extends_chain(
    before: &OperationLog,
    mid: &OperationLog,
    after: &OperationLog,
    a: Seq<Entry>,
    b: Seq<Entry>,
)
    requires
        mid.extends(before, a),
        after.extends(mid, b),
    ensures
        after.extends(before, a + b),
{
    assert(after.rows@ =~= before.rows@ + stamp(a + b, before.rwc as int));
}

/// Row counters grow by exactly one from each row to the next: of two rows
/// the later one has the larger counter, and the counters differ by as much
/// as the positions do. No counter is skipped and none occurs twice.
pub proof fn lemma_rows_increasing_gap_free(log: &OperationLog, i: int, j: int)
    requires
        log.wf(),
        0 <= i < j < log.rows@.len(),
    ensures
        log.rows@[i].rwc < log.rows@[j].rwc,
        log.rows@[j].rwc - log.rows@[i].rwc == j - i,
        log.rows@[i + 1].rwc == log.rows@[i].rwc + 1,
{
}

/// A well-formed log stays well-formed under any appended entries that the
/// counter has room for.
pub proof fn lemma_extends_wf(before: &OperationLog, after: &OperationLog, entries: Seq<Entry>)
    requires
        before.wf(),
        after.extends(before, entries),
        before.rwc + entries.len() <= u64::MAX,
    ensures
        after.wf(),
{
    assert forall|i: int| 0 <= i < after.rows@.len() implies (#[trigger] after.rows@[i]).rwc
        == FIRST_RWC + i by {
        if i < before.rows@.len() {
            assert(after.rows@[i] == before.rows@[i]);
        } else {
            let k = i - before.rows@.len();
            assert(after.rows@[i] == stamp(entries, before.rwc as int)[k]);
        }
    }
}

} // verus!
