//! The text form of an export: one line per record,
//! `tag,start,stop,stop-start`, each ended by a line feed.

use crate::decimal::{decimal, lemma_decimal_is_digits, push_decimal};
use crate::record::Span;
use vstd::prelude::*;

verus! {

/// The byte between two fields of a line.
pub const COMMA: u8 = 44;

/// The byte that ends a line.
pub const LINE_FEED: u8 = 10;

/// The line of one record.
pub open spec fn csv_line(record: Span) -> Seq<u8> {
    decimal(record.tag as nat) + seq![COMMA] + decimal(record.start as nat) + seq![COMMA]
        + decimal(record.stop as nat) + seq![COMMA] + decimal(record.spec_elapsed() as nat)
        + seq![LINE_FEED]
}

/// The lines of `records`, one after the other.
pub open spec fn csv_text(records: Seq<Span>) -> Seq<u8>
    decreases records.len(),
{
    if records.len() == 0 {
        Seq::empty()
    } else {
        csv_text(records.drop_last()) + csv_line(records.last())
    }
}

/// The number of line feeds in `text`.
pub open spec fn line_count(text: Seq<u8>) -> nat
    decreases text.len(),
{
    if text.len() == 0 {
        0
    } else if text.last() == LINE_FEED {
        line_count(text.drop_last()) + 1
    } else {
        line_count(text.drop_last())
    }
}

/// Appends the line of `record` to `out`.
pub fn push_csv_line(out: &mut Vec<u8>, record: Span)
    ensures
        final(out)@ == old(out)@ + csv_line(record),
{
    push_decimal(out, record.tag);
    out.push(COMMA);
    push_decimal(out, record.start);
    out.push(COMMA);
    push_decimal(out, record.stop);
    out.push(COMMA);
    push_decimal(out, record.elapsed());
    out.push(LINE_FEED);
}

/// Line feeds add up over concatenation.
pub proof fn lemma_line_count_concat(a: Seq<u8>, b: Seq<u8>)
    ensures
        line_count(a + b) == line_count(a) + line_count(b),
    decreases b.len(),
{
    if b.len() > 0 {
        lemma_line_count_concat(a, b.drop_last());
        assert((a + b).drop_last() =~= a + b.drop_last());
    }
}

/// A run of decimal digits holds no line feed.
proof fn lemma_digits_hold_no_line_feed(n: nat)
    ensures
        line_count(decimal(n)) == 0,
{
    lemma_decimal_is_digits(n);
    lemma_no_line_feed(decimal(n));
}

proof fn lemma_no_line_feed(s: Seq<u8>)
    requires
        forall|i: int| 0 <= i < s.len() ==> #[trigger] s[i] != LINE_FEED,
    ensures
        line_count(s) == 0,
    decreases s.len(),
{
    if s.len() > 0 {
        lemma_no_line_feed(s.drop_last());
    }
}

/// The line of a record holds one line feed, its last byte.
pub proof fn lemma_csv_line_is_one_line(record: Span)
    ensures
        line_count(csv_line(record)) == 1,
        csv_line(record).last() == LINE_FEED,
{
    let a = decimal(record.tag as nat);
    let b = decimal(record.start as nat);
    let c = decimal(record.stop as nat);
    let d = decimal(record.spec_elapsed() as nat);
    let comma = seq![COMMA];
    let feed = seq![LINE_FEED];
    lemma_digits_hold_no_line_feed(record.tag as nat);
    lemma_digits_hold_no_line_feed(record.start as nat);
    lemma_digits_hold_no_line_feed(record.stop as nat);
    lemma_digits_hold_no_line_feed(record.spec_elapsed() as nat);
    lemma_no_line_feed(comma);
    assert(line_count(feed) == 1) by {
        assert(line_count(feed.drop_last()) == 0);
    }
    lemma_line_count_concat(a, comma);
    lemma_line_count_concat(a + comma, b);
    lemma_line_count_concat(a + comma + b, comma);
    lemma_line_count_concat(a + comma + b + comma, c);
    lemma_line_count_concat(a + comma + b + comma + c, comma);
    lemma_line_count_concat(a + comma + b + comma + c + comma, d);
    lemma_line_count_concat(a + comma + b + comma + c + comma + d, feed);
}

/// A text export has as many lines as it has records.
pub proof fn lemma_csv_text_line_count(records: Seq<Span>)
    ensures
        line_count(csv_text(records)) == records.len(),
    decreases records.len(),
{
    if records.len() > 0 {
        lemma_csv_text_line_count(records.drop_last());
        lemma_csv_line_is_one_line(records.last());
        lemma_line_count_concat(csv_text(records.drop_last()), csv_line(records.last()));
    }
}

} // verus!
