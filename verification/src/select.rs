//! Choosing, from the records of a binary export, those that a timeline shows.

use crate::record::Span;
use vstd::prelude::*;

verus! {

/// The records asked for: a range of tags and a range of start readings, both
/// with their ends included.
#[derive(Clone, Copy, Debug, PartialEq, Eq, Structural)]
pub struct Ranges {
    pub span_start: u64,
    pub span_stop: u64,
    pub tag_start: u64,
    pub tag_stop: u64,
}

impl Ranges {
    /// The tag of `record` lies in the range of tags.
    pub open spec fn spec_holds_tag(&self, record: Span) -> bool {
        self.tag_start <= record.tag <= self.tag_stop
    }

    /// The tag of `record` lies in the range of tags.
    #[verifier::when_used_as_spec(spec_holds_tag)]
    pub fn holds_tag(&self, record: Span) -> (held: bool)
        ensures
            held == self.spec_holds_tag(record),
    {
        record.tag >= self.tag_start && record.tag <= self.tag_stop
    }

    /// The tag of `record` lies in the range of tags, and it starts no earlier
    /// than the range of start readings does.
    pub open spec fn spec_holds(&self, record: Span) -> bool {
        record.start >= self.span_start && self.spec_holds_tag(record)
    }

    /// The tag of `record` lies in the range of tags, and it starts no earlier
    /// than the range of start readings does.
    #[verifier::when_used_as_spec(spec_holds)]
    pub fn holds(&self, record: Span) -> (held: bool)
        ensures
            held == self.spec_holds(record),
    {
        record.start >= self.span_start && self.holds_tag(record)
    }

    /// `spec_holds` as a predicate on records.
    pub open spec fn held(&self) -> spec_fn(Span) -> bool {
        |record: Span| self.spec_holds(record)
    }
}

/// The index of the first record at or after `from` whose tag lies in the range
/// of tags, or the number of records where there is none.
pub open spec fn first_tagged(records: Seq<Span>, ranges: Ranges, from: nat) -> nat
    decreases records.len() - from,
{
    if from >= records.len() || ranges.spec_holds_tag(records[from as int]) {
        from
    } else {
        first_tagged(records, ranges, from + 1)
    }
}

/// The index of the first record at or after `from` that starts later than the
/// range of start readings ends, or the number of records where there is none.
pub open spec fn first_late(records: Seq<Span>, ranges: Ranges, from: nat) -> nat
    decreases records.len() - from,
{
    if from >= records.len() || records[from as int].start > ranges.span_stop {
        from
    } else {
        first_late(records, ranges, from + 1)
    }
}

/// The records that a timeline shows. Reading begins at the first record whose
/// tag lies in the range of tags and ends before the first record from there on
/// that starts too late; of the records read, those that `ranges` holds are
/// shown, in file order. Without a record whose tag lies in the range there is
/// nothing to begin at.
pub open spec fn selected(records: Seq<Span>, ranges: Ranges) -> Option<Seq<Span>> {
    let first = first_tagged(records, ranges, 0);
    if first >= records.len() {
        None
    } else {
        let end = first_late(records, ranges, first);
        Some(records.subrange(first as int, end as int).filter(ranges.held()))
    }
}

/// `first_tagged` is the end of the run of records outside the range of tags
/// that begins at `from`.
pub proof fn lemma_first_tagged(records: Seq<Span>, ranges: Ranges, from: nat, end: nat)
    requires
        from <= end <= records.len(),
        forall|j: int| from <= j < end ==> !ranges.spec_holds_tag(#[trigger] records[j]),
        end == records.len() || ranges.spec_holds_tag(records[end as int]),
    ensures
        first_tagged(records, ranges, from) == end,
    decreases end - from,
{
    if from < end {
        lemma_first_tagged(records, ranges, from + 1, end);
    }
}

/// `first_late` is the end of the run of records that start in time that begins
/// at `from`.
pub proof fn lemma_first_late(records: Seq<Span>, ranges: Ranges, from: nat, end: nat)
    requires
        from <= end <= records.len(),
        forall|j: int| from <= j < end ==> (#[trigger] records[j]).start <= ranges.span_stop,
        end == records.len() || records[end as int].start > ranges.span_stop,
    ensures
        first_late(records, ranges, from) == end,
    decreases end - from,
{
    if from < end {
        lemma_first_late(records, ranges, from + 1, end);
    }
}

/// The records of `records` that a timeline shows for `ranges`, or `None` where
/// no record has a tag in the range of tags.
pub fn select_spans(records: &Vec<Span>, ranges: &Ranges) -> (chosen: Option<Vec<Span>>)
    ensures
        match chosen {
            Some(spans) => selected(records@, *ranges) == Some(spans@),
            None => selected(records@, *ranges) is None,
        },
{
    let n = records.len();
    let mut first: usize = 0;
    while first < n && !ranges.holds_tag(records[first])
        invariant
            n == records@.len(),
            first <= n,
            forall|j: int| 0 <= j < first ==> !ranges.spec_holds_tag(#[trigger] records@[j]),
        decreases n - first,
    {
        first += 1;
    }
    proof {
        lemma_first_tagged(records@, *ranges, 0, first as nat);
    }
    if first >= n {
        return None;
    }
    let mut spans: Vec<Span> = Vec::new();
    let mut i: usize = first;
    proof {
        reveal(Seq::filter);
    }
    while i < n && records[i].start <= ranges.span_stop
        invariant
            n == records@.len(),
            first <= i <= n,
            forall|j: int| first <= j < i ==> (#[trigger] records@[j]).start <= ranges.span_stop,
            spans@ == records@.subrange(first as int, i as int).filter(ranges.held()),
        decreases n - i,
    {
        let record = records[i];
        if ranges.holds(record) {
            spans.push(record);
        }
        proof {
            reveal(Seq::filter);
            let longer = records@.subrange(first as int, i + 1);
            assert(longer.drop_last() =~= records@.subrange(first as int, i as int));
        }
        i += 1;
    }
    proof {
        lemma_first_late(records@, *ranges, first as nat, i as nat);
    }
    Some(spans)
}

} // verus!
