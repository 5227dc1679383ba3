use fatbox::chunks::ChunkRef;
use fatbox::store::{ChunkStore, Session, StoreError};

fn refs(indices: &[usize]) -> Vec<ChunkRef> {
    indices.iter().map(|i| ChunkRef { index: *i, locator: format!("chunk_{}", i) }).collect()
}

#[test]
fn chunks_are_assembled_by_ascending_index() {
    let mut store = ChunkStore::new();
    store.put("s", 2, b"cc".to_vec());
    store.put("s", 0, b"a".to_vec());
    store.put("s", 1, b"bbb".to_vec());
    assert_eq!(store.assemble("s"), Ok(b"abbbcc".to_vec()));
}

#[test]
fn arrival_order_does_not_show_in_the_assembled_bytes() {
    let chunks: [(usize, &[u8]); 4] = [(0, b"he"), (1, b"ll"), (2, b"o "), (3, b"world")];
    let orders: [[usize; 4]; 5] =
        [[0, 1, 2, 3], [3, 2, 1, 0], [1, 3, 0, 2], [2, 0, 3, 1], [3, 0, 1, 2]];
    for order in orders {
        let mut store = ChunkStore::new();
        for k in order {
            store.put("up", chunks[k].0, chunks[k].1.to_vec());
        }
        assert_eq!(store.assemble("up"), Ok(b"hello world".to_vec()));
    }
}

#[test]
fn a_later_write_to_an_index_replaces_the_earlier() {
    let mut store = ChunkStore::new();
    store.put("s", 0, b"first".to_vec());
    store.put("s", 1, b"-tail".to_vec());
    store.put("s", 0, b"second".to_vec());
    assert_eq!(store.assemble("s"), Ok(b"second-tail".to_vec()));
    assert_eq!(store.list_chunks("s"), Ok(refs(&[0, 1])));
}

#[test]
fn missing_indices_are_skipped() {
    let mut store = ChunkStore::new();
    store.put("s", 7, b"y".to_vec());
    store.put("s", 3, b"x".to_vec());
    store.put("s", 1000, b"z".to_vec());
    assert_eq!(store.assemble("s"), Ok(b"xyz".to_vec()));
    assert_eq!(store.list_chunks("s"), Ok(refs(&[3, 7, 1000])));
}

#[test]
fn the_largest_index_comes_last() {
    let mut store = ChunkStore::new();
    store.put("s", usize::MAX, b"end".to_vec());
    store.put("s", 0, b"start-".to_vec());
    assert_eq!(store.assemble("s"), Ok(b"start-end".to_vec()));
}

#[test]
fn empty_payloads_add_nothing() {
    let mut store = ChunkStore::new();
    store.put("s", 0, Vec::new());
    store.put("s", 1, b"x".to_vec());
    assert_eq!(store.assemble("s"), Ok(b"x".to_vec()));
    assert_eq!(store.list_chunks("s"), Ok(refs(&[0, 1])));
}

#[test]
fn a_session_without_storage_is_not_found() {
    let store = ChunkStore::new();
    assert_eq!(store.list_chunks("nobody"), Err(StoreError::SessionNotFound));
}

#[test]
fn a_session_without_storage_has_no_chunks_to_assemble() {
    let mut store = ChunkStore::new();
    assert_eq!(store.assemble("nobody"), Err(StoreError::NoChunksFound));
    store.put("somebody", 0, b"x".to_vec());
    assert_eq!(store.assemble("nobody"), Err(StoreError::NoChunksFound));
}

#[test]
fn sessions_do_not_mix() {
    let mut store = ChunkStore::new();
    store.put("a", 0, b"A0".to_vec());
    store.put("b", 0, b"B0".to_vec());
    store.put("a", 1, b"A1".to_vec());
    store.put("b", 5, b"B5".to_vec());
    assert_eq!(store.assemble("a"), Ok(b"A0A1".to_vec()));
    assert_eq!(store.assemble("b"), Ok(b"B0B5".to_vec()));
    assert_eq!(store.list_chunks("b"), Ok(refs(&[0, 5])));
}

#[test]
fn removing_a_session_removes_its_chunks_only() {
    let mut store = ChunkStore::new();
    store.put("a", 0, b"A".to_vec());
    store.put("b", 0, b"B".to_vec());
    store.put("c", 0, b"C".to_vec());
    store.remove_session("b");
    assert_eq!(store.list_chunks("b"), Err(StoreError::SessionNotFound));
    assert_eq!(store.assemble("b"), Err(StoreError::NoChunksFound));
    assert_eq!(store.assemble("a"), Ok(b"A".to_vec()));
    assert_eq!(store.assemble("c"), Ok(b"C".to_vec()));
}

#[test]
fn removing_an_absent_session_changes_nothing() {
    let mut store = ChunkStore::new();
    store.put("a", 0, b"A".to_vec());
    store.remove_session("zzz");
    assert_eq!(store.assemble("a"), Ok(b"A".to_vec()));
}

#[test]
fn a_removed_session_starts_anew() {
    let mut store = ChunkStore::new();
    store.put("a", 0, b"old".to_vec());
    store.put("a", 1, b"older".to_vec());
    store.remove_session("a");
    store.put("a", 4, b"new".to_vec());
    assert_eq!(store.assemble("a"), Ok(b"new".to_vec()));
}

#[test]
fn session_identifiers_are_compared_whole() {
    let mut store = ChunkStore::new();
    store.put("ab", 0, b"1".to_vec());
    store.put("a", 0, b"2".to_vec());
    store.put("", 0, b"3".to_vec());
    assert_eq!(store.assemble("ab"), Ok(b"1".to_vec()));
    assert_eq!(store.assemble("a"), Ok(b"2".to_vec()));
    assert_eq!(store.assemble(""), Ok(b"3".to_vec()));
    assert_eq!(store.assemble("abc"), Err(StoreError::NoChunksFound));
}

#[test]
fn a_single_session_assembles_its_chunks() {
    let mut session = Session::new();
    assert!(session.is_empty());
    assert_eq!(session.assemble(), Vec::<u8>::new());
    session.put(9, b"b".to_vec());
    session.put(4, b"a".to_vec());
    session.put(9, b"B".to_vec());
    assert!(!session.is_empty());
    assert_eq!(session.indices(), vec![4, 9]);
    assert_eq!(session.assemble(), b"aB".to_vec());
}

#[test]
fn many_chunks_in_reverse_come_out_in_order() {
    let mut store = ChunkStore::new();
    let mut expected: Vec<u8> = Vec::new();
    for i in (0..200usize).rev() {
        store.put("big", i, vec![(i % 251) as u8, (i % 7) as u8]);
    }
    for i in 0..200usize {
        expected.push((i % 251) as u8);
        expected.push((i % 7) as u8);
    }
    assert_eq!(store.assemble("big"), Ok(expected));
}
