use oli::memstore::{transfer, MemStorage};
use oli::session::TransferError;
use oli::BUFFER_CAPACITY;

fn pattern(n: usize) -> Vec<u8> {
    (0..n).map(|i| (i % 251) as u8).collect()
}

fn copy_and_check(n: usize) {
    let mut src = MemStorage::new();
    let data = pattern(n);
    src.put("obj", data.clone());
    let mut dst = MemStorage::new();
    transfer(&src, "obj", &mut dst, "copy").unwrap();
    assert_eq!(dst.get("copy"), Some(&data));
}

#[test]
fn round_trip_empty_object() {
    copy_and_check(0);
}

#[test]
fn round_trip_single_byte() {
    copy_and_check(1);
}

#[test]
fn round_trip_just_under_buffer() {
    copy_and_check(BUFFER_CAPACITY - 1);
}

#[test]
fn round_trip_exactly_buffer() {
    copy_and_check(BUFFER_CAPACITY);
}

#[test]
fn round_trip_just_over_buffer() {
    copy_and_check(BUFFER_CAPACITY + 1);
}

#[test]
fn second_copy_fully_replaces_destination() {
    let mut src = MemStorage::new();
    src.put("long", pattern(64));
    src.put("short", vec![9, 9]);
    let mut dst = MemStorage::new();
    transfer(&src, "long", &mut dst, "out").unwrap();
    assert_eq!(dst.get("out"), Some(&pattern(64)));
    transfer(&src, "short", &mut dst, "out").unwrap();
    assert_eq!(dst.get("out"), Some(&vec![9, 9]));
}

#[test]
fn staged_bytes_invisible_until_finalize() {
    let mut store = MemStorage::new();
    store.put("obj", vec![1, 2, 3]);
    let mut w = store.open_writer("obj");
    w.write_chunk(vec![7, 8]);
    assert_eq!(store.get("obj"), Some(&vec![1, 2, 3]));
    w.write_chunk(vec![9]);
    assert_eq!(store.get("obj"), Some(&vec![1, 2, 3]));
    store.finalize(w);
    assert_eq!(store.get("obj"), Some(&vec![7, 8, 9]));
}

#[test]
fn missing_source_fails_without_touching_destination() {
    let src = MemStorage::new();
    let mut dst = MemStorage::new();
    dst.put("out", vec![5]);
    let r = transfer(&src, "absent", &mut dst, "out");
    assert!(matches!(r, Err(TransferError::SourceOpen)));
    assert_eq!(dst.get("out"), Some(&vec![5]));
}

#[test]
fn fault_mid_stream_leaves_destination_unfinalized() {
    let mut src = MemStorage::new();
    src.put("obj", pattern(100));
    src.set_read_fault(Some(40));
    let mut dst = MemStorage::new();
    dst.put("out", vec![5]);
    let r = transfer(&src, "obj", &mut dst, "out");
    assert!(matches!(r, Err(TransferError::Stream)));
    assert_eq!(dst.get("out"), Some(&vec![5]));
    assert_eq!(dst.get("copy"), None);
}

#[test]
fn fault_past_end_of_object_never_fires() {
    let mut src = MemStorage::new();
    src.put("obj", pattern(10));
    src.set_read_fault(Some(10));
    let mut dst = MemStorage::new();
    transfer(&src, "obj", &mut dst, "out").unwrap();
    assert_eq!(dst.get("out"), Some(&pattern(10)));
}

#[test]
fn reader_hands_out_chunks_in_order() {
    let mut store = MemStorage::new();
    store.put("obj", vec![1, 2, 3, 4, 5]);
    let mut rd = store.open_reader("obj").unwrap();
    assert_eq!(rd.read_chunk(2).unwrap(), Some(vec![1, 2]));
    assert_eq!(rd.read_chunk(2).unwrap(), Some(vec![3, 4]));
    assert_eq!(rd.read_chunk(2).unwrap(), Some(vec![5]));
    assert_eq!(rd.read_chunk(2).unwrap(), None);
}

#[test]
fn reader_fails_when_chunk_crosses_fault() {
    let mut store = MemStorage::new();
    store.put("obj", vec![1, 2, 3, 4, 5]);
    store.set_read_fault(Some(3));
    let mut rd = store.open_reader("obj").unwrap();
    assert_eq!(rd.read_chunk(3).unwrap(), Some(vec![1, 2, 3]));
    assert!(matches!(rd.read_chunk(3), Err(TransferError::Stream)));
}
