//! What holds of a buffer after any run of insertions, and of its two exports.

use crate::binary::{binary_image, decoded, lemma_binary_image_of_words, lemma_decoded_binary_image};
use crate::decimal::{decimal, decimal_value, lemma_decimal_value};
use crate::record::Span;
use crate::ring::{first_unwritten, lemma_first_unwritten, written_prefix, Ring};
use crate::text::{csv_text, lemma_csv_text_line_count, line_count};
use vstd::arithmetic::div_mod::{
    lemma_fundamental_div_mod, lemma_mod_pos_bound, lemma_small_mod,
};
use vstd::prelude::*;

verus! {

/// None of `records` has a zero `stop`, the value that marks an unwritten slot.
pub open spec fn all_stopped(records: Seq<Span>) -> bool {
    forall|k: int| 0 <= k < records.len() ==> (#[trigger] records[k]).stop != 0
}

/// Two numbers less than `m` apart leave different remainders.
proof fn lemma_mod_distinct(a: int, b: int, m: int)
    requires
        0 <= a < b,
        b - a < m,
    ensures
        a % m != b % m,
{
    lemma_fundamental_div_mod(a, m);
    lemma_fundamental_div_mod(b, m);
    if a % m == b % m {
        let q = b / m - a / m;
        assert(b - a == m * q) by (nonlinear_arith)
            requires
                a == m * (a / m) + a % m,
                b == m * (b / m) + b % m,
                a % m == b % m,
                q == b / m - a / m,
        ;
        assert(false) by (nonlinear_arith)
            requires
                0 < m * q < m,
        ;
    }
}

/// The remainder of the successor: one more, or zero where that reaches `m`.
proof fn lemma_mod_successor(a: int, m: int)
    requires
        0 <= a,
        0 < m,
    ensures
        (a + 1) % m == if a % m + 1 == m {
            0
        } else {
            a % m + 1
        },
{
    lemma_fundamental_div_mod(a, m);
    lemma_fundamental_div_mod(a + 1, m);
    lemma_mod_pos_bound(a, m);
    lemma_mod_pos_bound(a + 1, m);
    let q = (a + 1) / m - a / m;
    assert((a + 1) % m - a % m - 1 == -(m * q)) by (nonlinear_arith)
        requires
            a == m * (a / m) + a % m,
            a + 1 == m * ((a + 1) / m) + (a + 1) % m,
            q == (a + 1) / m - a / m,
    ;
    assert(q == 0 || q == 1) by (nonlinear_arith)
        requires
            -m < m * q <= m,
            0 < m,
    ;
}

/// A run of insertions keeps the number of slots.
pub proof fn lemma_insert_all_keeps_capacity(ring: Ring, records: Seq<Span>)
    ensures
        ring.insert_all(records).capacity() == ring.capacity(),
    decreases records.len(),
{
    if records.len() > 0 {
        lemma_insert_all_keeps_capacity(ring, records.drop_last());
    }
}

/// The storage after `records` were inserted, in order, into a fresh buffer of
/// `capacity > 0` slots: each of the last `capacity` records lies in the slot
/// that its index leaves as remainder, the slots from `records.len()` on were
/// never written, every slot before that holds one of the records, and the
/// next insertion goes to slot `records.len() % capacity`.
pub proof fn law_storage_after_inserts(capacity: nat, records: Seq<Span>)
    requires
        capacity > 0,
    ensures
        ({
            let ring = Ring::empty(capacity).insert_all(records);
            let n = records.len();
            &&& ring.capacity() == capacity
            &&& ring.cursor == if n == 0 {
                0
            } else {
                (n - 1) % (capacity as int) + 1
            }
            &&& ring.target() == n % capacity
            &&& forall|k: int|
                0 <= k < n && n - k <= capacity ==> ring.slots[k % (capacity as int)]
                    == #[trigger] records[k]
            &&& forall|j: int| n <= j < capacity ==> #[trigger] ring.slots[j] == Span::zero()
            &&& forall|j: int|
                0 <= j < capacity && j < n ==> records.contains(#[trigger] ring.slots[j])
        }),
    decreases records.len(),
{
    let c = capacity as int;
    let n = records.len() as int;
    let ring = Ring::empty(capacity).insert_all(records);
    if n == 0 {
        lemma_small_mod(0, capacity);
    } else {
        let front = records.drop_last();
        law_storage_after_inserts(capacity, front);
        let t = (n - 1) % c;
        lemma_mod_pos_bound(n - 1, c);
        lemma_mod_successor(n - 1, c);
        assert forall|k: int| 0 <= k < n && n - k <= c implies ring.slots[k % c]
            == #[trigger] records[k] by {
            lemma_mod_pos_bound(k, c);
            if k < n - 1 {
                lemma_mod_distinct(k, n - 1, c);
                assert(front[k] == records[k]);
            }
        }
        assert forall|j: int| n <= j < c implies #[trigger] ring.slots[j] == Span::zero() by {
            lemma_fundamental_div_mod(n - 1, c);
            assert(t <= n - 1) by (nonlinear_arith)
                requires
                    n - 1 == c * ((n - 1) / c) + t,
                    0 <= t < c,
                    0 <= n - 1,
            ;
        }
        assert forall|j: int| 0 <= j < c && j < n implies records.contains(
            #[trigger] ring.slots[j],
        ) by {
            if j == n - 1 {
                lemma_small_mod((n - 1) as nat, capacity);
            }
        }
    }
}

/// The records of a text export are a prefix of the slots: none of them has a
/// zero `stop`, and the slot after them, if there is one, has.
pub proof fn law_export_ends_at_first_zero_stop(slots: Seq<Span>)
    ensures
        written_prefix(slots).len() <= slots.len(),
        forall|j: int|
            0 <= j < written_prefix(slots).len() ==> written_prefix(slots)[j] == slots[j] && (
            #[trigger] slots[j]).stop != 0,
        written_prefix(slots).len() < slots.len() ==> slots[written_prefix(slots).len() as int].stop
            == 0,
{
    lemma_first_unwritten_bounds(slots, 0);
}

/// The same of the run of written slots that begins at `from`.
proof fn lemma_first_unwritten_bounds(slots: Seq<Span>, from: nat)
    requires
        from <= slots.len(),
    ensures
        from <= first_unwritten(slots, from) <= slots.len(),
        forall|j: int| from <= j < first_unwritten(slots, from) ==> (#[trigger] slots[j]).stop != 0,
        first_unwritten(slots, from) < slots.len() ==> slots[first_unwritten(slots, from) as int].stop
            == 0,
    decreases slots.len() - from,
{
    if from < slots.len() && slots[from as int].stop != 0 {
        lemma_first_unwritten_bounds(slots, from + 1);
    }
}

/// Up to `capacity` insertions into a fresh buffer: a text export holds the
/// records that were inserted, in the order of insertion, one line each,
/// provided that none of them has a zero `stop`.
pub proof fn law_export_before_wrap(capacity: nat, records: Seq<Span>)
    requires
        records.len() <= capacity,
        all_stopped(records),
    ensures
        Ring::empty(capacity).insert_all(records).exported() == records,
        line_count(csv_text(Ring::empty(capacity).insert_all(records).exported()))
            == records.len(),
{
    let ring = Ring::empty(capacity).insert_all(records);
    let n = records.len();
    lemma_insert_all_keeps_capacity(Ring::empty(capacity), records);
    if capacity > 0 {
        law_storage_after_inserts(capacity, records);
        assert forall|j: int| 0 <= j < n implies ring.slots[j] == records[j] by {
            lemma_small_mod(j as nat, capacity);
        }
    }
    lemma_first_unwritten(ring.slots, 0, n);
    lemma_csv_text_line_count(records);
}

/// `capacity` insertions or more into a fresh buffer: a text export holds every
/// slot, so `capacity` lines, in storage order. The oldest record that is left,
/// the one inserted `capacity` insertions before the end, lies in slot
/// `records.len() % capacity`, and those after it follow, going on from slot zero
/// after the last slot. This takes that none of the records has a zero `stop`.
pub proof fn law_export_after_wrap(capacity: nat, records: Seq<Span>)
    requires
        0 < capacity <= records.len(),
        all_stopped(records),
    ensures
        ({
            let ring = Ring::empty(capacity).insert_all(records);
            let n = records.len();
            &&& ring.exported() == ring.slots
            &&& ring.exported().len() == capacity
            &&& line_count(csv_text(ring.exported())) == capacity
            &&& forall|i: int|
                0 <= i < capacity ==> ring.exported()[(n + i) % (capacity as int)]
                    == #[trigger] records[n - capacity + i]
        }),
{
    let ring = Ring::empty(capacity).insert_all(records);
    let n = records.len() as int;
    let c = capacity as int;
    law_storage_after_inserts(capacity, records);
    assert forall|j: int| 0 <= j < c implies (#[trigger] ring.slots[j]).stop != 0 by {
        assert(records.contains(ring.slots[j]));
    }
    lemma_first_unwritten(ring.slots, 0, capacity);
    lemma_csv_text_line_count(ring.slots);
    assert forall|i: int| 0 <= i < c implies ring.exported()[(n + i) % c]
        == #[trigger] records[n - c + i] by {
        let k = n - c + i;
        lemma_fundamental_div_mod(k, c);
        lemma_fundamental_div_mod(n + i, c);
        lemma_mod_pos_bound(k, c);
        lemma_mod_pos_bound(n + i, c);
        let q = (n + i) / c - k / c;
        assert((n + i) % c - k % c == c * (1 - q)) by (nonlinear_arith)
            requires
                k == c * (k / c) + k % c,
                n + i == c * ((n + i) / c) + (n + i) % c,
                n + i == k + c,
                q == (n + i) / c - k / c,
        ;
        assert(1 - q == 0) by (nonlinear_arith)
            requires
                -c < c * (1 - q) < c,
        ;
    }
}

/// The four fields of the line of a record read back as its tag, its start, its
/// stop, and the third less the second in 64-bit unsigned arithmetic.
pub proof fn law_line_fields(record: Span)
    ensures
        decimal_value(decimal(record.tag as nat)) == record.tag,
        decimal_value(decimal(record.start as nat)) == record.start,
        decimal_value(decimal(record.stop as nat)) == record.stop,
        decimal_value(decimal(record.spec_elapsed() as nat)) == (decimal_value(
            decimal(record.stop as nat),
        ) - decimal_value(decimal(record.start as nat))) % 0x1_0000_0000_0000_0000,
{
    lemma_decimal_value(record.tag as nat);
    lemma_decimal_value(record.start as nat);
    lemma_decimal_value(record.stop as nat);
    lemma_decimal_value(record.spec_elapsed() as nat);
}

/// A binary export is `24 * capacity` bytes long, whatever was inserted.
pub proof fn law_binary_length(ring: Ring, records: Seq<Span>)
    ensures
        binary_image(ring.insert_all(records).slots).len() == 24 * ring.capacity(),
{
    lemma_insert_all_keeps_capacity(ring, records);
    lemma_binary_image_of_words(ring.insert_all(records).slots);
}

/// A buffer without slots stays as it is under any run of insertions, and both
/// its exports are empty.
pub proof fn law_disabled_buffer_is_inert(ring: Ring, records: Seq<Span>)
    requires
        ring.capacity() == 0,
    ensures
        ring.insert_all(records) == ring,
        ring.exported() == Seq::<Span>::empty(),
        csv_text(ring.exported()) == Seq::<u8>::empty(),
        binary_image(ring.slots) == Seq::<u8>::empty(),
    decreases records.len(),
{
    if records.len() > 0 {
        law_disabled_buffer_is_inert(ring, records.drop_last());
    }
}

/// Decoding a binary export gives the slots back; the lines of the decoded
/// records before the first zero `stop` are the text export of the same buffer.
pub proof fn law_binary_round_trip(ring: Ring)
    ensures
        decoded(binary_image(ring.slots)) == ring.slots,
        csv_text(written_prefix(decoded(binary_image(ring.slots)))) == csv_text(ring.exported()),
{
    lemma_decoded_binary_image(ring.slots);
}

} // verus!
