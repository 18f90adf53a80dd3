use std::collections::HashMap;
use tsc_trace::config::{config_builder, ConfigFormat, ViewerConfig};
use tsc_trace::load::{complete_args, load_args, parse_ranges, parse_u64, ArgsError, LoadError};
use tsc_trace::select::{select_spans, Ranges};
use tsc_trace::{write_traces_binary, Span, TraceBuffer, _insert_trace};

fn span(tag: u64, start: u64, stop: u64) -> Span {
    Span { tag, start, stop }
}

fn ranges(span_start: u64, span_stop: u64, tag_start: u64, tag_stop: u64) -> Ranges {
    Ranges { span_start, span_stop, tag_start, tag_stop }
}

fn strings(words: &[&str]) -> Vec<String> {
    words.iter().map(|w| w.to_string()).collect()
}

fn settings() -> ViewerConfig {
    ViewerConfig {
        tag_names: None,
        default_args: [
            "0".to_string(),
            "1000".to_string(),
            "2".to_string(),
            "9".to_string(),
        ],
        window_width: 800,
        window_height: 600,
        span_height: 20,
        span_spacing: 5,
    }
}

#[test]
fn settings_come_from_config_js() {
    let source = config_builder();
    assert_eq!(source.name, "config.js");
    assert_eq!(source.format, ConfigFormat::Json5);
}

#[test]
fn settings_hold_names_and_defaults() {
    let mut names = HashMap::new();
    names.insert(3u64, "parse".to_string());
    let config = ViewerConfig { tag_names: Some(names), ..settings() };
    assert_eq!(config.tag_names.unwrap().get(&3).unwrap(), "parse");
    assert_eq!(config.default_args[3], "9");
}

#[test]
fn numbers_are_digits_after_at_most_one_plus() {
    assert_eq!(parse_u64("0"), Some(0));
    assert_eq!(parse_u64("007"), Some(7));
    assert_eq!(parse_u64("+5"), Some(5));
    assert_eq!(parse_u64("1234567890"), Some(1234567890));
    assert_eq!(parse_u64("18446744073709551615"), Some(u64::MAX));
    assert_eq!(parse_u64("18446744073709551616"), None);
    assert_eq!(parse_u64("99999999999999999999999"), None);
    assert_eq!(parse_u64(""), None);
    assert_eq!(parse_u64("+"), None);
    assert_eq!(parse_u64("++1"), None);
    assert_eq!(parse_u64("-1"), None);
    assert_eq!(parse_u64(" 1"), None);
    assert_eq!(parse_u64("1 "), None);
    assert_eq!(parse_u64("1a"), None);
    assert_eq!(parse_u64("12345678901234567890a"), None);
    assert_eq!(parse_u64("0x10"), None);
}

#[test]
fn numbers_are_read_as_std_reads_them() {
    for text in ["0", "+0", "42", "+42", "", "+", "-", "-0", "1_0", "184467440737095516150", "٣"] {
        assert_eq!(parse_u64(text), text.parse::<u64>().ok());
    }
}

#[test]
fn short_command_lines_are_filled_from_the_defaults() {
    let config = settings();
    assert_eq!(
        complete_args(strings(&["viewer", "file"]), &config),
        Ok(strings(&["viewer", "file", "0", "1000", "2", "9"]))
    );
    assert_eq!(
        complete_args(strings(&["viewer", "file", "7"]), &config),
        Ok(strings(&["viewer", "file", "7", "1000", "2", "9"]))
    );
    assert_eq!(
        complete_args(strings(&["viewer", "file", "7", "8"]), &config),
        Ok(strings(&["viewer", "file", "7", "8", "2", "9"]))
    );
    assert_eq!(
        complete_args(strings(&["viewer", "file", "7", "8", "1"]), &config),
        Ok(strings(&["viewer", "file", "7", "8", "1", "9"]))
    );
    assert_eq!(
        complete_args(strings(&["viewer", "file", "7", "8", "1", "3"]), &config),
        Ok(strings(&["viewer", "file", "7", "8", "1", "3"]))
    );
}

#[test]
fn command_lines_without_a_file_or_too_long_are_refused() {
    let config = settings();
    assert_eq!(complete_args(strings(&["viewer"]), &config), Err(ArgsError::NotProvided));
    assert_eq!(complete_args(strings(&[]), &config), Err(ArgsError::Unparsable));
    assert_eq!(
        complete_args(strings(&["viewer", "file", "7", "8", "1", "3", "x"]), &config),
        Err(ArgsError::Unparsable)
    );
}

#[test]
fn ranges_are_read_in_order() {
    assert_eq!(
        parse_ranges(&strings(&["viewer", "file", "7", "8", "1", "3"])),
        Ok(ranges(7, 8, 1, 3))
    );
    assert_eq!(
        parse_ranges(&strings(&["viewer", "file", "x", "y", "1", "3"])),
        Err(LoadError::SpanStart)
    );
    assert_eq!(
        parse_ranges(&strings(&["viewer", "file", "7", "y", "z", "3"])),
        Err(LoadError::SpanStop)
    );
    assert_eq!(
        parse_ranges(&strings(&["viewer", "file", "7", "8", "", "w"])),
        Err(LoadError::TagStart)
    );
    assert_eq!(
        parse_ranges(&strings(&["viewer", "file", "7", "8", "1", "-3"])),
        Err(LoadError::TagStop)
    );
    assert_eq!(parse_ranges(&strings(&["viewer", "file", "7", "8"])), Err(LoadError::TagStart));
    assert_eq!(parse_ranges(&strings(&[])), Err(LoadError::SpanStart));
}

#[test]
fn reading_begins_at_the_first_tag_in_range() {
    let records = vec![
        span(9, 50, 60),
        span(1, 10, 20),
        span(9, 30, 40),
        span(2, 5, 7),
        span(1, 70, 80),
    ];
    // the first record is passed over for its tag, the third and fourth are read
    // and left out, for tag and start
    assert_eq!(
        select_spans(&records, &ranges(10, 100, 1, 2)),
        Some(vec![span(1, 10, 20), span(1, 70, 80)])
    );
}

#[test]
fn reading_ends_at_the_first_late_start() {
    let records = vec![
        span(1, 10, 20),
        span(1, 30, 40),
        span(7, 500, 600),
        span(1, 50, 60),
    ];
    assert_eq!(
        select_spans(&records, &ranges(0, 100, 1, 1)),
        Some(vec![span(1, 10, 20), span(1, 30, 40)])
    );
    // a late start before the first tag in range does not end anything
    assert_eq!(
        select_spans(&records, &ranges(0, 100, 1, 1)),
        select_spans(
            &[vec![span(7, 500, 600)], records.clone()].concat(),
            &ranges(0, 100, 1, 1)
        )
    );
}

#[test]
fn ends_of_both_ranges_are_included() {
    let records = vec![span(1, 10, 11), span(2, 20, 21), span(3, 30, 31), span(4, 31, 32)];
    assert_eq!(
        select_spans(&records, &ranges(10, 30, 1, 3)),
        Some(vec![span(1, 10, 11), span(2, 20, 21), span(3, 30, 31)])
    );
}

#[test]
fn a_first_record_that_starts_late_gives_no_span() {
    let records = vec![span(1, 200, 300), span(1, 10, 20)];
    assert_eq!(select_spans(&records, &ranges(0, 100, 1, 1)), Some(vec![]));
}

#[test]
fn without_a_tag_in_range_there_is_nothing_to_read() {
    let records = vec![span(1, 10, 20), span(2, 30, 40)];
    assert_eq!(select_spans(&records, &ranges(0, 100, 5, 9)), None);
    assert_eq!(select_spans(&vec![], &ranges(0, 100, 0, 9)), None);
    assert_eq!(select_spans(&records, &ranges(0, 100, 2, 1)), None);
}

#[test]
fn unwritten_slots_at_the_end_are_read_like_any_record() {
    let mut buffer = TraceBuffer::new(4);
    _insert_trace(&mut buffer, 1, 10, 20);
    _insert_trace(&mut buffer, 1, 30, 45);
    let bytes = write_traces_binary(&buffer);
    let args = strings(&["viewer", "file", "0", "100", "0", "1"]);
    assert_eq!(
        load_args(&args, &bytes),
        Ok(vec![span(1, 10, 20), span(1, 30, 45), span(0, 0, 0), span(0, 0, 0)])
    );
    let args = strings(&["viewer", "file", "1", "100", "0", "1"]);
    assert_eq!(load_args(&args, &bytes), Ok(vec![span(1, 10, 20), span(1, 30, 45)]));
}

#[test]
fn loading_fails_on_ranges_before_it_reads_records() {
    let mut buffer = TraceBuffer::new(1);
    _insert_trace(&mut buffer, 1, 10, 20);
    let bytes = write_traces_binary(&buffer);
    assert_eq!(
        load_args(&strings(&["viewer", "file", "0", "oops", "0", "1"]), &bytes),
        Err(LoadError::SpanStop)
    );
    assert_eq!(
        load_args(&strings(&["viewer", "file", "0", "100", "5", "6"]), &bytes),
        Err(LoadError::NoRecord)
    );
    assert_eq!(
        load_args(&strings(&["viewer", "file", "0", "100", "0", "9"]), &[]),
        Err(LoadError::NoRecord)
    );
    assert_eq!(
        load_args(&strings(&["viewer", "file", "0", "100", "0", "9"]), &bytes[..23]),
        Err(LoadError::NoRecord)
    );
}
