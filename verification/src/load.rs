//! From the command line of the viewer and the bytes of a binary export to the
//! spans that the timeline shows.

use crate::binary::{decode_traces, decoded};
use crate::config::ViewerConfig;
use crate::decimal::decimal_value;
use crate::record::Span;
use crate::select::{select_spans, selected, Ranges};
use vstd::prelude::*;
use vstd::string::StringSliceAdditionalSpecFns;
use vstd::utf8::encode_utf8;

verus! {

/// The number of arguments of a full command line: the program, the file, and
/// the four ranges.
pub const FULL_ARGS: usize = 6;

/// The byte that may stand before the digits of a number.
pub const PLUS: u8 = 43;

/// Why a command line cannot be filled up.
#[derive(Clone, Copy, Debug, PartialEq, Eq, Structural)]
pub enum ArgsError {
    /// The command line names no file.
    NotProvided,
    /// The command line is empty or has more than six arguments.
    Unparsable,
}

/// Why the spans cannot be loaded.
#[derive(Clone, Copy, Debug, PartialEq, Eq, Structural)]
pub enum LoadError {
    /// The start of the span range is no number.
    SpanStart,
    /// The stop of the span range is no number.
    SpanStop,
    /// The start of the tag range is no number.
    TagStart,
    /// The stop of the tag range is no number.
    TagStop,
    /// No record of the file has a tag in the tag range.
    NoRecord,
}

/// Every byte is one of `'0'..='9'`.
pub open spec fn all_digits(text: Seq<u8>) -> bool {
    forall|i: int| 0 <= i < text.len() ==> 48 <= #[trigger] text[i] <= 57
}

/// The text without the plus sign that may begin it.
pub open spec fn unsigned_part(text: Seq<u8>) -> Seq<u8> {
    if text.len() > 0 && text[0] == PLUS {
        text.drop_first()
    } else {
        text
    }
}

/// The number that `text` denotes: decimal digits, at least one, after at most
/// one plus sign, with a value that a `u64` holds. `None` for any other text.
pub open spec fn parsed(text: Seq<u8>) -> Option<u64> {
    let digits = unsigned_part(text);
    if digits.len() == 0 || !all_digits(digits) || decimal_value(digits) > u64::MAX {
        None
    } else {
        Some(decimal_value(digits) as u64)
    }
}

/// The value of the first `k` digits is no more than the value of all.
proof fn lemma_value_grows(digits: Seq<u8>, k: int)
    requires
        all_digits(digits),
        0 <= k <= digits.len(),
    ensures
        decimal_value(digits.take(k)) <= decimal_value(digits),
    decreases digits.len(),
{
    if k < digits.len() {
        assert(digits.drop_last().take(k) =~= digits.take(k));
        lemma_value_grows(digits.drop_last(), k);
    } else {
        assert(digits.take(k) =~= digits);
    }
}

/// Reads a number: decimal digits after at most one plus sign.
pub fn parse_u64(text: &str) -> (value: Option<u64>)
    ensures
        value == parsed(text.spec_bytes()),
{
    let bytes = text.as_bytes();
    let n = bytes.len();
    let first: usize = if n > 0 && bytes[0] == PLUS {
        1
    } else {
        0
    };
    if first >= n {
        return None;
    }
    let ghost digits = unsigned_part(bytes@);
    let mut value: u64 = 0;
    let mut i: usize = first;
    while i < n
        invariant
            n == bytes@.len(),
            first <= i <= n,
            bytes@ == text.spec_bytes(),
            digits == unsigned_part(bytes@),
            digits == bytes@.subrange(first as int, n as int),
            all_digits(digits.take(i - first)),
            value == decimal_value(digits.take(i - first)),
        decreases n - i,
    {
        let byte = bytes[i];
        let ghost longer = digits.take(i + 1 - first);
        proof {
            assert(longer.drop_last() =~= digits.take(i - first));
            assert(digits[i - first] == byte);
        }
        if byte < 48 || byte > 57 {
            return None;
        }
        let digit: u64 = (byte - 48) as u64;
        let next = match value.checked_mul(10) {
            None => None,
            Some(tens) => tens.checked_add(digit),
        };
        match next {
            None => {
                proof {
                    if all_digits(digits) {
                        lemma_value_grows(digits, i + 1 - first);
                    }
                }
                return None;
            },
            Some(next) => {
                value = next;
            },
        }
        i += 1;
    }
    assert(digits.take(n - first) =~= digits);
    Some(value)
}

/// The ranges that a full command line asks for: its third to sixth argument,
/// read as numbers in that order. The error names the first that is no number;
/// one that is missing counts as none.
pub open spec fn spec_ranges(args: Seq<String>) -> Result<Ranges, LoadError> {
    match (
        spec_number(args, 2),
        spec_number(args, 3),
        spec_number(args, 4),
        spec_number(args, 5),
    ) {
        (None, _, _, _) => Err(LoadError::SpanStart),
        (Some(_), None, _, _) => Err(LoadError::SpanStop),
        (Some(_), Some(_), None, _) => Err(LoadError::TagStart),
        (Some(_), Some(_), Some(_), None) => Err(LoadError::TagStop),
        (Some(span_start), Some(span_stop), Some(tag_start), Some(tag_stop)) => Ok(
            Ranges { span_start, span_stop, tag_start, tag_stop },
        ),
    }
}

/// The number that argument `at` denotes, if there is such an argument and it
/// denotes one.
pub open spec fn spec_number(args: Seq<String>, at: int) -> Option<u64> {
    if at < args.len() {
        parsed(encode_utf8(args[at]@))
    } else {
        None
    }
}

fn number(args: &Vec<String>, at: usize) -> (value: Option<u64>)
    ensures
        value == spec_number(args@, at as int),
{
    if at < args.len() {
        parse_u64(args[at].as_str())
    } else {
        None
    }
}

/// Reads the four ranges of a full command line.
pub fn parse_ranges(args: &Vec<String>) -> (ranges: Result<Ranges, LoadError>)
    ensures
        ranges == spec_ranges(args@),
{
    let span_start = match number(args, 2) {
        Some(value) => value,
        None => return Err(LoadError::SpanStart),
    };
    let span_stop = match number(args, 3) {
        Some(value) => value,
        None => return Err(LoadError::SpanStop),
    };
    let tag_start = match number(args, 4) {
        Some(value) => value,
        None => return Err(LoadError::TagStart),
    };
    let tag_stop = match number(args, 5) {
        Some(value) => value,
        None => return Err(LoadError::TagStop),
    };
    Ok(Ranges { span_start, span_stop, tag_start, tag_stop })
}

/// Fills a command line up to six arguments: where it ends before the last of
/// the four ranges, the ranges left out are taken from the defaults of `config`.
/// A command line that names no file, and one that is empty or longer than six
/// arguments, is refused.
pub fn complete_args(args: Vec<String>, config: &ViewerConfig) -> (full: Result<
    Vec<String>,
    ArgsError,
>)
    ensures
        match full {
            Ok(full) => {
                &&& 2 <= args@.len() <= 6
                &&& full@.len() == 6
                &&& forall|i: int| 0 <= i < args@.len() ==> full@[i] == args@[i]
                &&& forall|i: int| args@.len() <= i < 6 ==> full@[i] == config.default_args@[i - 2]
            },
            Err(ArgsError::NotProvided) => args@.len() == 1,
            Err(ArgsError::Unparsable) => args@.len() == 0 || args@.len() > 6,
        },
{
    let given = args.len();
    if given == 1 {
        return Err(ArgsError::NotProvided);
    }
    if given == 0 || given > FULL_ARGS {
        return Err(ArgsError::Unparsable);
    }
    let mut full = args;
    while full.len() < FULL_ARGS
        invariant
            2 <= given <= full@.len() <= 6,
            given == args@.len(),
            forall|i: int| 0 <= i < given ==> full@[i] == args@[i],
            forall|i: int| given <= i < full@.len() ==> full@[i] == config.default_args@[i - 2],
        decreases 6 - full@.len(),
    {
        let at = full.len() - 2;
        full.push(config.default_args[at].clone());
    }
    Ok(full)
}

/// The spans that the timeline shows for a full command line and the bytes of
/// the file that it names: the bytes decoded, and of the records those that the
/// ranges of the command line select.
pub open spec fn spec_load(args: Seq<String>, bytes: Seq<u8>) -> Result<Seq<Span>, LoadError> {
    match spec_ranges(args) {
        Err(error) => Err(error),
        Ok(ranges) => match selected(decoded(bytes), ranges) {
            None => Err(LoadError::NoRecord),
            Some(spans) => Ok(spans),
        },
    }
}

/// The spans that the timeline shows for a full command line and the bytes of
/// the file that it names.
pub fn load_args(args: &Vec<String>, bytes: &[u8]) -> (spans: Result<Vec<Span>, LoadError>)
    ensures
        match spans {
            Ok(spans) => spec_load(args@, bytes@) == Ok::<Seq<Span>, LoadError>(spans@),
            Err(error) => spec_load(args@, bytes@) == Err::<Seq<Span>, LoadError>(error),
        },
{
    let ranges = match parse_ranges(args) {
        Ok(ranges) => ranges,
        Err(error) => return Err(error),
    };
    let records = decode_traces(bytes);
    match select_spans(&records, &ranges) {
        Some(spans) => Ok(spans),
        None => Err(LoadError::NoRecord),
    }
}

} // verus!
