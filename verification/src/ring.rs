//! The mathematical content of a trace buffer: a fixed number of record slots
//! and a write cursor.

use crate::record::Span;
use vstd::prelude::*;

verus! {

/// What a trace buffer holds: its record slots in storage order, and the cursor,
/// which counts whole records.
#[verifier::ext_equal]
pub struct Ring {
    pub slots: Seq<Span>,
    pub cursor: nat,
}

/// The index of the first slot at or after `from` whose `stop` is zero, or the
/// number of slots where there is none.
pub open spec fn first_unwritten(slots: Seq<Span>, from: nat) -> nat
    decreases slots.len() - from,
{
    if from >= slots.len() || slots[from as int].stop == 0 {
        from
    } else {
        first_unwritten(slots, from + 1)
    }
}

/// The slots that an export in text form covers: those before the first one
/// whose `stop` is zero.
pub open spec fn written_prefix(slots: Seq<Span>) -> Seq<Span> {
    slots.take(first_unwritten(slots, 0) as int)
}

impl Ring {
    /// The number of record slots.
    pub open spec fn capacity(self) -> nat {
        self.slots.len()
    }

    /// A buffer of `capacity` slots, none written.
    pub open spec fn empty(capacity: nat) -> Ring {
        Ring { slots: Seq::new(capacity, |i: int| Span::zero()), cursor: 0 }
    }

    /// The slot that the next insertion writes: the cursor, or slot zero once the
    /// cursor has reached the capacity.
    pub open spec fn target(self) -> nat {
        if self.cursor >= self.slots.len() {
            0
        } else {
            self.cursor
        }
    }

    /// The buffer after one insertion. A buffer without slots stays as it is.
    pub open spec fn insert(self, record: Span) -> Ring {
        if self.slots.len() == 0 {
            self
        } else {
            Ring {
                slots: self.slots.update(self.target() as int, record),
                cursor: self.target() + 1,
            }
        }
    }

    /// The buffer after inserting `records` one after the other.
    pub open spec fn insert_all(self, records: Seq<Span>) -> Ring
        decreases records.len(),
    {
        if records.len() == 0 {
            self
        } else {
            self.insert_all(records.drop_last()).insert(records.last())
        }
    }

    /// The records of a text export, in storage order.
    pub open spec fn exported(self) -> Seq<Span> {
        written_prefix(self.slots)
    }
}

/// `first_unwritten` is the one index at which the run of written slots that
/// begins at `from` ends.
pub proof fn lemma_first_unwritten(slots: Seq<Span>, from: nat, end: nat)
    requires
        from <= end <= slots.len(),
        forall|j: int| from <= j < end ==> (#[trigger] slots[j]).stop != 0,
        end == slots.len() || slots[end as int].stop == 0,
    ensures
        first_unwritten(slots, from) == end,
    decreases end - from,
{
    if from < end {
        lemma_first_unwritten(slots, from + 1, end);
    }
}

} // verus!
