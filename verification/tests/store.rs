use flare::errors::ErrorKind;
use flare::tuple_indexed::{TupleIndexedFile, TupleValue};
use flare::value_type::ValueType;

fn apply(file: &mut Vec<u8>, offset: u64, bytes: &[u8]) {
    let off = offset as usize;
    if file.len() < off + bytes.len() {
        file.resize(off + bytes.len(), 0);
    }
    file[off..off + bytes.len()].copy_from_slice(bytes);
}

fn new_store() -> (TupleIndexedFile, Vec<u8>, Vec<u8>) {
    let (f, iw, ew) = TupleIndexedFile::new_writer("stack", ValueType::UINT32, &[], &[]).unwrap();
    let mut idx = vec![];
    let mut extra = vec![];
    let iw = iw.unwrap();
    let ew = ew.unwrap();
    apply(&mut idx, iw.offset, &iw.bytes);
    apply(&mut extra, ew.offset, &ew.bytes);
    (f, idx, extra)
}

#[test]
fn tuple_store_write_then_read() {
    let (mut f, mut idx, mut extra) = new_store();
    assert_eq!(idx.len(), 202);
    assert_eq!(extra.len(), 202);
    assert_eq!(f.indexed_path, "stack.fidx");
    for (step, data) in [(1u32, b"one".to_vec()), (5, b"five!".to_vec()), (9, vec![])] {
        let (ew, iw) = f.add_value(TupleValue::uint32(step), &data, idx.len() as u64, extra.len() as u64).unwrap();
        apply(&mut extra, ew.offset, &ew.bytes);
        apply(&mut idx, iw.offset, &iw.bytes);
    }
    assert_eq!(f.amount, 3);
    assert_eq!(f.get_value(&TupleValue::uint32(5), &extra).unwrap(), b"five!".to_vec());
    assert_eq!(f.get_value(&TupleValue::uint32(9), &extra).unwrap(), Vec::<u8>::new());
    assert_eq!(f.get_value(&TupleValue::uint32(2), &extra).unwrap_err().kind, ErrorKind::NotFound);
    assert_eq!(f.get_data(0, 10), vec![(1, 202), (5, 207), (9, 214)]);
    assert_eq!(f.get_data(1, 2), vec![(5, 207)]);
    let (bulks, r) = f.get_range_value(&TupleValue::uint32(2), &TupleValue::uint32(5), &extra);
    assert!(r.is_ok());
    assert_eq!(bulks, vec![b"five!".to_vec()]);
    let (bulks, r) = f.get_range_value(&TupleValue::uint32(0), &TupleValue::uint32(100), &extra);
    assert!(r.is_ok());
    assert_eq!(bulks.len(), 3);

    let reader = TupleIndexedFile::new_reader("stack", &idx, &extra).ok().unwrap();
    assert_eq!(reader.index_type, ValueType::UINT32);
    assert_eq!(reader.bulk_offset_type, ValueType::UINT32);
    assert_eq!(reader.get_data(0, 10), vec![(1, 202), (5, 207), (9, 214)]);
    assert_eq!(reader.get_value(&TupleValue::uint32(1), &extra).unwrap(), b"one".to_vec());
}

#[test]
fn tuple_store_rejects_wrong_index_type() {
    let (mut f, idx, extra) = new_store();
    let e = f.add_value(TupleValue::int64(1), b"x", idx.len() as u64, extra.len() as u64).unwrap_err();
    assert_eq!(e.kind, ErrorKind::InvalidInput);
    assert_eq!(f.amount, 0);
}

#[test]
fn tuple_store_reopens_existing_writer() {
    let (mut f, mut idx, mut extra) = new_store();
    let (ew, iw) = f.add_value(TupleValue::uint32(3), b"abc", idx.len() as u64, extra.len() as u64).unwrap();
    apply(&mut extra, ew.offset, &ew.bytes);
    apply(&mut idx, iw.offset, &iw.bytes);
    let (g, iw, ew) = TupleIndexedFile::new_writer("stack", ValueType::UINT32, &idx, &extra).ok().unwrap();
    assert!(iw.is_none() && ew.is_none());
    assert_eq!(g.get_value(&TupleValue::uint32(3), &extra).unwrap(), b"abc".to_vec());
}

#[test]
fn tuple_store_truncated_extra_file() {
    let (mut f, idx, mut extra) = new_store();
    let (ew, _) = f.add_value(TupleValue::uint32(3), b"abcdef", idx.len() as u64, extra.len() as u64).unwrap();
    apply(&mut extra, ew.offset, &ew.bytes);
    extra.truncate(extra.len() - 2);
    assert_eq!(f.get_value(&TupleValue::uint32(3), &extra).unwrap_err().kind, ErrorKind::UnexpectedEof);
}

#[test]
fn tuple_store_reader_flag_mismatch() {
    let (_, idx, extra) = new_store();
    let e = TupleIndexedFile::new_reader("stack", &idx, &idx).err().unwrap();
    assert_eq!(e.kind, ErrorKind::InvalidInput);
    let _ = extra;
}
