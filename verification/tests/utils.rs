use flare::collections::{get_as_i32, get_as_i64, get_as_i8, lookup, try_get_as_i64};
use flare::errors::ErrorKind;
use flare::file_utils::{read_header_info, write_header_info};
use flare::text::{i64_to_string, parse_i64, parse_u64};
use flare::timeseries::{TSValue, TimeSeries, TimeSeriesFile, TimeSeriesFileReader, TimeSeriesFileWriter};
use flare::tuple_indexed::{encode_tuple, get_value_type, read_indexed_value, TupleValue};
use flare::value_type::{get_unit_len, ValueType};

#[test]
fn it_works() {
    assert_eq!(2 + 2, 4);
}

#[test]
fn value_type_codes_round_trip() {
    for code in 0i8..6 {
        let t = ValueType::from_i8(code).unwrap();
        assert_eq!(t.as_i8(), code);
    }
    assert!(ValueType::from_i8(6).is_none());
    assert!(ValueType::from_i8(-1).is_none());
    assert_eq!(ValueType::from_i8(5), Some(ValueType::INT64));
}

#[test]
fn unit_len_is_two_for_every_type() {
    assert_eq!(get_unit_len(ValueType::INT16), 2);
    assert_eq!(get_unit_len(ValueType::INT64), 2);
    assert_eq!(get_unit_len(ValueType::UNKNOWN), 2);
}

#[test]
fn big_endian_encoding() {
    assert_eq!(encode_tuple(&TupleValue::uint16(0x1234)), vec![0x12, 0x34]);
    assert_eq!(encode_tuple(&TupleValue::int16(-2)), vec![0xff, 0xfe]);
    assert_eq!(encode_tuple(&TupleValue::uint32(0x01020304)), vec![1, 2, 3, 4]);
    assert_eq!(encode_tuple(&TupleValue::int64(0x0102030405060708)), vec![1, 2, 3, 4, 5, 6, 7, 8]);
    let buf = vec![9u8, 0x12, 0x34, 0x56, 0x78, 0x9a, 0xbc, 0xde, 0xf0];
    assert!(matches!(read_indexed_value(&buf, 1, &ValueType::UINT16), Ok((TupleValue::uint16(0x1234), 3))));
    assert!(matches!(read_indexed_value(&buf, 1, &ValueType::UINT32), Ok((TupleValue::uint32(0x12345678), 5))));
    assert!(matches!(read_indexed_value(&buf, 1, &ValueType::INT64), Ok((TupleValue::int64(0x123456789abcdef0), 9))));
    assert!(matches!(read_indexed_value(&buf, 1, &ValueType::INT16), Ok((TupleValue::int16(0x1234), 3))));
}

#[test]
fn decimal_text() {
    assert_eq!(i64_to_string(0), "0");
    assert_eq!(i64_to_string(-42), "-42");
    assert_eq!(i64_to_string(i64::MIN), "-9223372036854775808");
    let cs: Vec<char> = "-9223372036854775808".chars().collect();
    assert_eq!(parse_i64(&cs), Some(i64::MIN));
    let cs: Vec<char> = "+17".chars().collect();
    assert_eq!(parse_i64(&cs), Some(17));
    let cs: Vec<char> = "9223372036854775808".chars().collect();
    assert_eq!(parse_i64(&cs), None);
    let cs: Vec<char> = "12a".chars().collect();
    assert_eq!(parse_i64(&cs), None);
}

fn props(pairs: &[(&str, &str)]) -> Vec<(String, String)> {
    pairs.iter().map(|(k, v)| (k.to_string(), v.to_string())).collect()
}

#[test]
fn header_write_then_read() {
    let entries = props(&[("ver", "indexed_file_v0.1"), ("begin_time", "1000"), ("amount", "3")]);
    let mut file = write_header_info(&entries, "TIHS", "TIDS").unwrap();
    assert_eq!(file.len(), 202);
    assert_eq!(&file[0..4], b"TIHS");
    assert_eq!(&file[4..6], &[0u8, 192u8]);
    assert_eq!(file[6], 3);
    assert_eq!(&file[198..202], b"TIDS");
    file.extend_from_slice(&[1, 2, 3]);
    let (read, offset) = read_header_info(&file, "TIHS", "TIDS").unwrap();
    assert_eq!(read, entries);
    assert_eq!(offset, 202);
}

#[test]
fn header_too_large() {
    let long = "x".repeat(200);
    let entries = props(&[("name", long.as_str())]);
    let e = write_header_info(&entries, "TIHS", "TIDS").unwrap_err();
    assert_eq!(e.kind, ErrorKind::InvalidInput);
}

#[test]
fn header_flag_mismatch() {
    let entries = props(&[("a", "1")]);
    let file = write_header_info(&entries, "TEHS", "TEDS").unwrap();
    let e = read_header_info(&file, "TIHS", "TEDS").unwrap_err();
    assert_eq!(e.kind, ErrorKind::InvalidInput);
    let e = read_header_info(&file, "TEHS", "TIDS").unwrap_err();
    assert_eq!(e.kind, ErrorKind::InvalidInput);
}

#[test]
fn typed_property_lookup() {
    let map = props(&[("amount", "12"), ("unit_len", "6"), ("begin_time", "-5"), ("amount", "13")]);
    assert_eq!(get_as_i64(&map, "begin_time"), -5);
    assert_eq!(get_as_i32(&map, "amount"), 13);
    assert_eq!(get_as_i8(&map, "unit_len"), 6);
    assert_eq!(lookup(&map, "missing"), None);
    assert_eq!(try_get_as_i64(&map, "missing"), None);
    assert_eq!(try_get_as_i64(&map, "amount"), Some(13));
}

#[test]
fn tuple_values() {
    assert_eq!(TupleValue::int16(-3).as_int(), -3);
    assert_eq!(TupleValue::uint32(4000000000).as_int(), 4000000000);
    assert_eq!(get_value_type(&TupleValue::uint16(1)), ValueType::UINT16);
    assert_eq!(get_value_type(&TupleValue::int64(1)), ValueType::INT64);
}

#[test]
fn ts_header_prefix_round_trip() {
    let (writer, header) = TimeSeriesFileWriter::new(ValueType::INT64, 1000, 5000, "cpu.tsf");
    assert_eq!(header.offset, 0);
    assert_eq!(header.bytes.len(), 36);
    assert_eq!(&header.bytes[0..4], b"TSHS");
    assert_eq!(&header.bytes[32..36], b"TSDS");
    assert_eq!(writer.get_begin_time(), 5000);
    let mut reader = TimeSeriesFileReader::new("cpu.tsf");
    assert!(reader.init(&header.bytes).unwrap());
    let info: &TimeSeriesFile = reader.get_header_info();
    assert_eq!(info.value_type, ValueType::INT64);
    assert_eq!(info.unit_time, 1000);
    assert_eq!(info.begin_time, 5000);
    assert_eq!(info.data_offset, 36);
}

#[test]
fn ts_writer_buffers_and_flushes() {
    let (mut writer, _) = TimeSeriesFileWriter::new(ValueType::INT64, 1000, 0, "cpu.tsf");
    assert_eq!(writer.add_value(3000, TSValue::int64(7)).unwrap(), 3);
    assert!(writer.flush_due_at(2000));
    let (writes, result) = writer.flush_at(2000);
    assert!(result.is_ok());
    assert_eq!(writes.len(), 2);
    assert_eq!(writes[0].offset, 36 + 3 * 8);
    assert_eq!(writes[0].bytes, 7i64.to_be_bytes().to_vec());
    assert_eq!(writes[1].offset, 0);
    assert!(!writer.flush_due_at(2500));
}

#[test]
fn ts_reader_refuses_values() {
    let (_, header) = TimeSeriesFileWriter::new(ValueType::INT64, 1000, 0, "cpu.tsf");
    let mut reader = TimeSeriesFileReader::new("cpu.tsf");
    reader.init(&header.bytes).unwrap();
    let e = reader.add_value(1000, TSValue::int64(1)).unwrap_err();
    assert_eq!(e.kind, ErrorKind::PermissionDenied);
}

#[test]
fn unsigned_decimal_text() {
    let p = |t: &str| parse_u64(&t.chars().collect::<Vec<char>>());
    assert_eq!(p("18446744073709551615"), Some(u64::MAX));
    assert_eq!(p("18446744073709551616"), None);
    assert_eq!(p("+7"), Some(7));
    assert_eq!(p("007"), Some(7));
    assert_eq!(p("-0"), None);
    assert_eq!(p("+"), None);
    assert_eq!(p(""), None);
    assert_eq!(p("1 "), None);
}
