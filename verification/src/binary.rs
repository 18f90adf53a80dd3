//! The binary form of an export: every slot, written or not, as three 8-byte
//! little-endian words, with nothing before, between or after them.

use crate::record::Span;
use vstd::bytes::{
    lemma_auto_spec_u64_to_from_le_bytes, spec_u64_from_le_bytes, spec_u64_to_le_bytes,
    u64_from_le_bytes, u64_to_le_bytes,
};
use vstd::prelude::*;
use vstd::slice::slice_subrange;

verus! {

/// The number of bytes of one record in binary form.
pub const RECORD_BYTES: usize = 24;

/// The bytes of one record: tag, start and stop, each in little-endian order.
pub open spec fn span_bytes(record: Span) -> Seq<u8> {
    spec_u64_to_le_bytes(record.tag) + spec_u64_to_le_bytes(record.start) + spec_u64_to_le_bytes(
        record.stop,
    )
}

/// The bytes of `slots`, one record after the other.
pub open spec fn binary_image(slots: Seq<Span>) -> Seq<u8>
    decreases slots.len(),
{
    if slots.len() == 0 {
        Seq::empty()
    } else {
        binary_image(slots.drop_last()) + span_bytes(slots.last())
    }
}

/// The record that 24 bytes denote.
pub open spec fn span_from_bytes(bytes: Seq<u8>) -> Span {
    Span {
        tag: spec_u64_from_le_bytes(bytes.subrange(0, 8)),
        start: spec_u64_from_le_bytes(bytes.subrange(8, 16)),
        stop: spec_u64_from_le_bytes(bytes.subrange(16, 24)),
    }
}

/// The records that `bytes` denote: one for every whole 24 bytes, in order. Bytes
/// after the last whole record are left out.
pub open spec fn decoded(bytes: Seq<u8>) -> Seq<Span> {
    Seq::new(bytes.len() / 24, |i: int| span_from_bytes(bytes.subrange(24 * i, 24 * i + 24)))
}

/// The words of `slots` as they lie in storage: three for each slot.
pub open spec fn flat_words(slots: Seq<Span>) -> Seq<u64> {
    Seq::new(
        3 * slots.len(),
        |i: int|
            if i % 3 == 0 {
                slots[i / 3].tag
            } else if i % 3 == 1 {
                slots[i / 3].start
            } else {
                slots[i / 3].stop
            },
    )
}

/// The bytes of `words`, each word in little-endian order.
pub open spec fn words_image(words: Seq<u64>) -> Seq<u8> {
    Seq::new(8 * words.len(), |i: int| spec_u64_to_le_bytes(words[i / 8])[i % 8])
}

/// The bytes of `words`, each word in big-endian order.
pub open spec fn words_image_reversed(words: Seq<u64>) -> Seq<u8> {
    Seq::new(8 * words.len(), |i: int| spec_u64_to_le_bytes(words[i / 8])[7 - i % 8])
}

/// Eight bytes that read the same in both directions.
pub open spec fn reads_the_same_both_ways(bytes: Seq<u8>) -> bool {
    bytes[0] == bytes[7] && bytes[1] == bytes[6] && bytes[2] == bytes[5] && bytes[3] == bytes[4]
}

/// `bytemuck::cast_slice` from `u64` to `u8`, with the bytes copied into a
/// vector. This contract is taken on trust: the cast hands out the memory of
/// `words` as bytes, eight for each word, in the byte order of the machine, which
/// is little-endian or big-endian. From `u64` to `u8` the cast cannot fail, since
/// `u8` has alignment 1 and its size divides that of `u64`.
#[verifier::external_body]
fn cast_words(words: &[u64]) -> (raw: Vec<u8>)
    ensures
        raw@ == words_image(words@) || raw@ == words_image_reversed(words@),
{
    bytemuck::cast_slice::<u64, u8>(words).to_vec()
}

/// One more word adds its eight bytes at the end.
pub proof fn lemma_words_image_push(words: Seq<u64>, word: u64)
    ensures
        words_image(words.push(word)) == words_image(words) + spec_u64_to_le_bytes(word),
{
    lemma_auto_spec_u64_to_from_le_bytes();
    let left = words_image(words.push(word));
    let right = words_image(words) + spec_u64_to_le_bytes(word);
    assert forall|i: int| 0 <= i < left.len() implies left[i] == right[i] by {
        if i < 8 * words.len() {
        } else {
        }
    }
}

/// The binary form of the slots is the little-endian image of their words.
pub proof fn lemma_binary_image_of_words(slots: Seq<Span>)
    ensures
        binary_image(slots) == words_image(flat_words(slots)),
        binary_image(slots).len() == 24 * slots.len(),
    decreases slots.len(),
{
    lemma_auto_spec_u64_to_from_le_bytes();
    if slots.len() == 0 {
    } else {
        let front = slots.drop_last();
        let last = slots.last();
        lemma_binary_image_of_words(front);
        let w0 = flat_words(front);
        let w1 = w0.push(last.tag);
        let w2 = w1.push(last.start);
        let w3 = w2.push(last.stop);
        lemma_words_image_push(w0, last.tag);
        lemma_words_image_push(w1, last.start);
        lemma_words_image_push(w2, last.stop);
    }
}

/// The bytes of record `i` stand at offset `24 * i` of the binary form.
pub proof fn lemma_binary_image_record(slots: Seq<Span>, i: int)
    requires
        0 <= i < slots.len(),
    ensures
        binary_image(slots).len() == 24 * slots.len(),
        binary_image(slots).subrange(24 * i, 24 * i + 24) == span_bytes(slots[i]),
    decreases slots.len(),
{
    lemma_auto_spec_u64_to_from_le_bytes();
    lemma_binary_image_of_words(slots);
    lemma_binary_image_of_words(slots.drop_last());
    if i == slots.len() - 1 {
    } else {
        lemma_binary_image_record(slots.drop_last(), i);
        assert(binary_image(slots).subrange(24 * i, 24 * i + 24) =~= binary_image(
            slots.drop_last(),
        ).subrange(24 * i, 24 * i + 24));
    }
}

/// Decoding the bytes of a record gives the record.
pub proof fn lemma_span_from_bytes(record: Span)
    ensures
        span_bytes(record).len() == 24,
        span_from_bytes(span_bytes(record)) == record,
{
    lemma_auto_spec_u64_to_from_le_bytes();
    let bytes = span_bytes(record);
    assert(bytes.subrange(0, 8) =~= spec_u64_to_le_bytes(record.tag));
    assert(bytes.subrange(8, 16) =~= spec_u64_to_le_bytes(record.start));
    assert(bytes.subrange(16, 24) =~= spec_u64_to_le_bytes(record.stop));
}

/// Decoding a binary export gives back every slot, in storage order.
pub proof fn lemma_decoded_binary_image(slots: Seq<Span>)
    ensures
        decoded(binary_image(slots)) == slots,
{
    lemma_binary_image_of_words(slots);
    let back = decoded(binary_image(slots));
    assert forall|i: int| 0 <= i < slots.len() implies back[i] == slots[i] by {
        lemma_binary_image_record(slots, i);
        lemma_span_from_bytes(slots[i]);
    }
}

/// The little-endian bytes of `words`, built word by word.
fn encode_words(words: &[u64]) -> (bytes: Vec<u8>)
    ensures
        bytes@ == words_image(words@),
{
    let n = words.len();
    let mut bytes: Vec<u8> = Vec::new();
    let mut i: usize = 0;
    while i < n
        invariant
            n == words@.len(),
            i <= n,
            bytes@ == words_image(words@.take(i as int)),
        decreases n - i,
    {
        let mut word = u64_to_le_bytes(words[i]);
        bytes.append(&mut word);
        proof {
            lemma_words_image_push(words@.take(i as int), words@[i as int]);
        }
        i += 1;
    }
    bytes
}

/// Turns the bytes of `words` as they lie in memory into their little-endian
/// image. `raw` is kept where it is that image already, which one word whose two
/// byte orders differ is enough to tell; on a big-endian machine the image is
/// built anew.
pub fn little_endian_image(words: &[u64], raw: Vec<u8>) -> (bytes: Vec<u8>)
    requires
        raw@ == words_image(words@) || raw@ == words_image_reversed(words@),
    ensures
        bytes@ == words_image(words@),
{
    let n = words.len();
    let mut i: usize = 0;
    while i < n
        invariant
            n == words@.len(),
            i <= n,
            raw.len() == 8 * n,
            raw@ == words_image(words@) || raw@ == words_image_reversed(words@),
            forall|j: int|
                0 <= j < i ==> reads_the_same_both_ways(
                    #[trigger] spec_u64_to_le_bytes(words@[j]),
                ),
        decreases n - i,
    {
        let word = u64_to_le_bytes(words[i]);
        if !(word[0] == word[7] && word[1] == word[6] && word[2] == word[5] && word[3] == word[4]) {
            let at: usize = 8 * i;
            let kept = raw[at] == word[0] && raw[at + 1] == word[1] && raw[at + 2] == word[2]
                && raw[at + 3] == word[3] && raw[at + 4] == word[4] && raw[at + 5] == word[5]
                && raw[at + 6] == word[6] && raw[at + 7] == word[7];
            if kept {
                return raw;
            } else {
                return encode_words(words);
            }
        }
        i += 1;
    }
    proof {
        assert forall|k: int| 0 <= k < 8 * n implies words_image(words@)[k] == words_image_reversed(
            words@,
        )[k] by {
        }
    }
    raw
}

/// The bytes of `words` in little-endian order, whatever the byte order of the
/// machine.
pub fn words_to_bytes(words: &[u64]) -> (bytes: Vec<u8>)
    ensures
        bytes@ == words_image(words@),
{
    let raw = cast_words(words);
    little_endian_image(words, raw)
}

/// Decodes one record from its 24 bytes.
pub fn decode_span(bytes: &[u8]) -> (record: Span)
    requires
        bytes@.len() == 24,
    ensures
        record == span_from_bytes(bytes@),
{
    let tag = u64_from_le_bytes(slice_subrange(bytes, 0, 8));
    let start = u64_from_le_bytes(slice_subrange(bytes, 8, 16));
    let stop = u64_from_le_bytes(slice_subrange(bytes, 16, 24));
    Span { tag, start, stop }
}

/// Decodes a binary export: one record for every whole 24 bytes of `bytes`, in
/// order, unwritten slots included.
pub fn decode_traces(bytes: &[u8]) -> (records: Vec<Span>)
    ensures
        records@ == decoded(bytes@),
{
    let count = bytes.len() / RECORD_BYTES;
    let mut records: Vec<Span> = Vec::new();
    let mut i: usize = 0;
    while i < count
        invariant
            count == bytes.len() / 24,
            i <= count,
            records@ == decoded(bytes@).take(i as int),
        decreases count - i,
    {
        let at: usize = RECORD_BYTES * i;
        let record = decode_span(slice_subrange(bytes, at, at + RECORD_BYTES));
        records.push(record);
        i += 1;
    }
    records
}

} // verus!
