use tsc_trace::binary::{decode_span, decode_traces, little_endian_image, words_to_bytes};
use tsc_trace::decimal::push_decimal;
use tsc_trace::text::push_csv_line;
use tsc_trace::{Span, TraceBuffer, _insert_trace, write_traces_binary, write_traces_csv};

fn decimal_of(n: u64) -> String {
    let mut out = Vec::new();
    push_decimal(&mut out, n);
    String::from_utf8(out).unwrap()
}

#[test]
fn decimal_digits() {
    assert_eq!(decimal_of(0), "0");
    assert_eq!(decimal_of(9), "9");
    assert_eq!(decimal_of(10), "10");
    assert_eq!(decimal_of(1234567890), "1234567890");
    assert_eq!(decimal_of(u64::MAX), "18446744073709551615");
}

#[test]
fn decimal_is_appended() {
    let mut out = b"x=".to_vec();
    push_decimal(&mut out, 407);
    assert_eq!(out, b"x=407".to_vec());
}

#[test]
fn line_of_one_record() {
    let mut out = b"head\n".to_vec();
    push_csv_line(&mut out, Span { tag: 7, start: 100, stop: 150 });
    assert_eq!(out, b"head\n7,100,150,50\n".to_vec());
}

#[test]
fn words_are_written_low_byte_first() {
    let words = [0x1122334455667788u64, 1, 0];
    let mut expected = vec![0x88u8, 0x77, 0x66, 0x55, 0x44, 0x33, 0x22, 0x11];
    expected.extend_from_slice(&[1, 0, 0, 0, 0, 0, 0, 0]);
    expected.extend_from_slice(&[0; 8]);
    assert_eq!(words_to_bytes(&words), expected);
    assert_eq!(words_to_bytes(&[]), Vec::<u8>::new());
}

#[test]
fn big_endian_memory_is_turned_round() {
    let words = [0u64, 0x0101010101010101, 0x1122334455667788, 5];
    let little: Vec<u8> = words.iter().flat_map(|w| w.to_le_bytes()).collect();
    let big: Vec<u8> = words.iter().flat_map(|w| w.to_be_bytes()).collect();
    assert_eq!(little_endian_image(&words, big), little);
    assert_eq!(little_endian_image(&words, little.clone()), little);
}

#[test]
fn words_that_read_the_same_both_ways_are_kept() {
    let words = [0u64, 0x0102030404030201, u64::MAX];
    let little: Vec<u8> = words.iter().flat_map(|w| w.to_le_bytes()).collect();
    let big: Vec<u8> = words.iter().flat_map(|w| w.to_be_bytes()).collect();
    assert_eq!(little, big);
    assert_eq!(little_endian_image(&words, big), little);
}

#[test]
fn decode_one_record() {
    let mut bytes = Vec::new();
    bytes.extend_from_slice(&7u64.to_le_bytes());
    bytes.extend_from_slice(&0x0102030405060708u64.to_le_bytes());
    bytes.extend_from_slice(&u64::MAX.to_le_bytes());
    assert_eq!(
        decode_span(&bytes),
        Span { tag: 7, start: 0x0102030405060708, stop: u64::MAX }
    );
}

#[test]
fn decode_leaves_out_a_trailing_part() {
    let mut bytes = Vec::new();
    for word in [1u64, 2, 3, 4, 5, 6] {
        bytes.extend_from_slice(&word.to_le_bytes());
    }
    bytes.extend_from_slice(&[9u8; 23]);
    assert_eq!(
        decode_traces(&bytes),
        vec![Span { tag: 1, start: 2, stop: 3 }, Span { tag: 4, start: 5, stop: 6 }]
    );
    assert_eq!(decode_traces(&bytes[..23]), Vec::<Span>::new());
    assert_eq!(decode_traces(&[]), Vec::<Span>::new());
}

#[test]
fn binary_export_decodes_to_the_slots() {
    let mut buffer = TraceBuffer::new(4);
    _insert_trace(&mut buffer, 5, 50, 55);
    _insert_trace(&mut buffer, 6, 60, 66);
    let decoded = decode_traces(&write_traces_binary(&buffer));
    assert_eq!(decoded.len(), 4);
    for (slot, record) in decoded.iter().enumerate() {
        assert_eq!(buffer.slot(slot), Some(*record));
    }
    assert_eq!(decoded[2], Span { tag: 0, start: 0, stop: 0 });
}

#[test]
fn decoded_binary_export_gives_the_text_export() {
    for inserts in [0u64, 1, 3, 4, 9] {
        let mut buffer = TraceBuffer::new(4);
        for i in 0..inserts {
            _insert_trace(&mut buffer, i % 3, 1000 * i, 1000 * i + 17 * (i + 1));
        }
        let decoded = decode_traces(&write_traces_binary(&buffer));
        let mut text = Vec::new();
        for record in &decoded {
            if record.stop == 0 {
                break;
            }
            let mut line = Vec::new();
            push_decimal(&mut line, record.tag);
            line.push(b',');
            push_decimal(&mut line, record.start);
            line.push(b',');
            push_decimal(&mut line, record.stop);
            line.push(b',');
            push_decimal(&mut line, record.stop.wrapping_sub(record.start));
            line.push(b'\n');
            text.extend_from_slice(&line);
        }
        assert_eq!(text, write_traces_csv(&buffer));
    }
}

#[test]
fn decimal_agrees_with_the_standard_rendering() {
    let mut n: u64 = 1;
    for _ in 0..64 {
        for value in [n - 1, n, n + 1, n.wrapping_mul(0x9e3779b97f4a7c15)] {
            assert_eq!(decimal_of(value), value.to_string());
        }
        n = n.wrapping_mul(2);
    }
    for power in 0..20u32 {
        let value = 10u64.pow(power);
        assert_eq!(decimal_of(value), value.to_string());
        assert_eq!(decimal_of(value - 1), (value - 1).to_string());
    }
}

#[test]
fn text_export_agrees_with_formatted_lines() {
    let records = [
        Span { tag: 0, start: 1, stop: 1 },
        Span { tag: 17, start: 123456789, stop: 987654321 },
        Span { tag: u64::MAX, start: u64::MAX, stop: 1 },
    ];
    let mut buffer = TraceBuffer::new(records.len());
    let mut expected = String::new();
    for r in &records {
        _insert_trace(&mut buffer, r.tag, r.start, r.stop);
        expected.push_str(&format!(
            "{},{},{},{}\n",
            r.tag,
            r.start,
            r.stop,
            r.stop.wrapping_sub(r.start)
        ));
    }
    assert_eq!(String::from_utf8(write_traces_csv(&buffer)).unwrap(), expected);
}
