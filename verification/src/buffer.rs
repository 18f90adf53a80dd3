//! The trace buffer of one thread: a flat store of record slots with a write
//! cursor, the insertion that wraps, and the two exports.

use crate::binary::{binary_image, flat_words, lemma_binary_image_of_words, words_to_bytes};
use crate::record::Span;
use crate::ring::{lemma_first_unwritten, Ring};
use crate::text::{csv_text, push_csv_line};
use vstd::prelude::*;

verus! {

/// The capacity, in records, that a thread records with where nothing else is
/// chosen: that of [`CapacityTier::Million1`].
pub const TSC_TRACE_CAPACITY: usize = 1_000_000;

/// The capacities that a recording thread can be set up with.
#[derive(Clone, Copy, Debug, PartialEq, Eq, Structural)]
pub enum CapacityTier {
    /// Recording is switched off: no slot, and every insertion is a no-op.
    Off,
    /// 1 000 000 records
    Million1,
    /// 8 000 000 records
    Million8,
    /// 16 000 000 records
    Million16,
    /// 32 000 000 records
    Million32,
    /// 64 000 000 records
    Million64,
}

impl CapacityTier {
    /// The number of records of the tier.
    pub open spec fn spec_records(self) -> usize {
        match self {
            CapacityTier::Off => 0,
            CapacityTier::Million1 => 1_000_000,
            CapacityTier::Million8 => 8_000_000,
            CapacityTier::Million16 => 16_000_000,
            CapacityTier::Million32 => 32_000_000,
            CapacityTier::Million64 => 64_000_000,
        }
    }

    /// The number of records of the tier.
    #[verifier::when_used_as_spec(spec_records)]
    pub fn records(self) -> (records: usize)
        ensures
            records == self.spec_records(),
            records * 3 <= usize::MAX,
    {
        match self {
            CapacityTier::Off => 0,
            CapacityTier::Million1 => 1_000_000,
            CapacityTier::Million8 => 8_000_000,
            CapacityTier::Million16 => 16_000_000,
            CapacityTier::Million32 => 32_000_000,
            CapacityTier::Million64 => 64_000_000,
        }
    }
}

/// The recording state of one thread. Storage is flat: three words for each
/// record slot, zero where a slot was never written.
pub struct TraceBuffer {
    words: Vec<u64>,
    capacity: usize,
    cursor: usize,
}

impl View for TraceBuffer {
    type V = Ring;

    closed spec fn view(&self) -> Ring {
        Ring {
            slots: Seq::new(
                self.capacity as nat,
                |i: int|
                    Span {
                        tag: self.words@[3 * i],
                        start: self.words@[3 * i + 1],
                        stop: self.words@[3 * i + 2],
                    },
            ),
            cursor: self.cursor as nat,
        }
    }
}

impl TraceBuffer {
    #[verifier::type_invariant]
    spec fn well_formed(&self) -> bool {
        &&& self.words.len() == 3 * self.capacity
        &&& self.cursor <= self.capacity
    }

    /// A buffer of `capacity` record slots, none written, with its cursor at
    /// slot zero.
    pub fn new(capacity: usize) -> (buffer: TraceBuffer)
        requires
            capacity * 3 <= usize::MAX,
        ensures
            buffer@ == Ring::empty(capacity as nat),
    {
        TraceBuffer { words: vec![0u64; capacity * 3], capacity, cursor: 0 }
    }

    /// A buffer of the capacity of `tier`.
    pub fn with_tier(tier: CapacityTier) -> (buffer: TraceBuffer)
        ensures
            buffer@ == Ring::empty(tier.spec_records() as nat),
    {
        TraceBuffer::new(tier.records())
    }

    /// The number of record slots. Zero means that recording is switched off.
    pub fn capacity(&self) -> (capacity: usize)
        ensures
            capacity == self@.capacity(),
    {
        self.capacity
    }

    /// The cursor, in records: one more than the slot written last, or zero
    /// where nothing was inserted yet.
    pub fn cursor(&self) -> (cursor: usize)
        ensures
            cursor == self@.cursor,
            cursor <= self@.capacity(),
    {
        proof {
            use_type_invariant(self);
        }
        self.cursor
    }

    /// The record in slot `slot`, or `None` where the buffer has no such slot.
    pub fn slot(&self, slot: usize) -> (record: Option<Span>)
        ensures
            record == if slot < self@.capacity() {
                Some(self@.slots[slot as int])
            } else {
                None
            },
    {
        proof {
            use_type_invariant(self);
        }
        if slot < self.capacity {
            let at: usize = 3 * slot;
            Some(Span { tag: self.words[at], start: self.words[at + 1], stop: self.words[at + 2] })
        } else {
            None
        }
    }
}

/// Inserts one record at the cursor and advances the cursor by one record. A
/// cursor that has reached the capacity goes back to slot zero first, so that
/// the oldest record is overwritten. On a buffer without slots nothing happens.
pub fn _insert_trace(buffer: &mut TraceBuffer, tag: u64, start: u64, stop: u64)
    ensures
        final(buffer)@ == old(buffer)@.insert(Span { tag, start, stop }),
{
    proof {
        use_type_invariant(&*buffer);
    }
    if buffer.capacity == 0 {
        return;
    }
    let mut slot: usize = buffer.cursor;
    if slot >= buffer.capacity {
        slot = 0;
    }
    let at: usize = 3 * slot;
    buffer.words[at] = tag;
    buffer.words[at + 1] = start;
    buffer.words[at + 2] = stop;
    buffer.cursor = slot + 1;
}

/// The text form of the buffer: the line of every slot in storage order, up to
/// the first slot whose `stop` is zero.
pub fn write_traces_csv(buffer: &TraceBuffer) -> (text: Vec<u8>)
    ensures
        text@ == csv_text(buffer@.exported()),
{
    proof {
        use_type_invariant(buffer);
    }
    let mut text: Vec<u8> = Vec::new();
    let mut slot: usize = 0;
    while slot < buffer.capacity && buffer.words[3 * slot + 2] != 0
        invariant
            buffer.words.len() == 3 * buffer.capacity,
            slot <= buffer.capacity,
            text@ == csv_text(buffer@.slots.take(slot as int)),
            forall|j: int| 0 <= j < slot ==> (#[trigger] buffer@.slots[j]).stop != 0,
        decreases buffer.capacity - slot,
    {
        let at: usize = 3 * slot;
        let record = Span {
            tag: buffer.words[at],
            start: buffer.words[at + 1],
            stop: buffer.words[at + 2],
        };
        push_csv_line(&mut text, record);
        assert(buffer@.slots.take(slot + 1).drop_last() =~= buffer@.slots.take(slot as int));
        slot += 1;
    }
    proof {
        lemma_first_unwritten(buffer@.slots, 0, slot as nat);
    }
    text
}

/// The binary form of the buffer: every slot in storage order, unwritten ones
/// included, each as three 8-byte little-endian words.
pub fn write_traces_binary(buffer: &TraceBuffer) -> (bytes: Vec<u8>)
    ensures
        bytes@ == binary_image(buffer@.slots),
        bytes@.len() == 24 * buffer@.capacity(),
{
    proof {
        use_type_invariant(buffer);
        lemma_binary_image_of_words(buffer@.slots);
    }
    words_to_bytes(buffer.words.as_slice())
}

} // verus!
