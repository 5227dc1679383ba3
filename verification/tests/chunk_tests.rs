use fatbox::chunks::{
    chunk_file_name, chunk_file_names, list_chunks, locate, parse_chunk_name, ChunkRef,
};
use fatbox::order::{insert_ascending, insertion_point};

fn names(list: &[&str]) -> Vec<String> {
    list.iter().map(|s| s.to_string()).collect()
}

#[test]
fn chunk_file_name_is_prefix_and_decimal_index() {
    assert_eq!(chunk_file_name(0), "chunk_0");
    assert_eq!(chunk_file_name(7), "chunk_7");
    assert_eq!(chunk_file_name(120), "chunk_120");
}

#[test]
fn chunk_file_name_agrees_with_std_formatting() {
    for index in [0usize, 3, 17, 256, 99999, usize::MAX] {
        assert_eq!(chunk_file_name(index), format!("chunk_{}", index));
    }
}

#[test]
fn parse_chunk_name_reads_back_what_was_written() {
    for index in [0usize, 1, 9, 10, 77, 1024, usize::MAX] {
        assert_eq!(parse_chunk_name(&chunk_file_name(index)), Some(index));
    }
}

#[test]
fn parse_chunk_name_refuses_other_names() {
    assert_eq!(parse_chunk_name(""), None);
    assert_eq!(parse_chunk_name("chunk"), None);
    assert_eq!(parse_chunk_name("chunk_"), None);
    assert_eq!(parse_chunk_name("chunk7"), None);
    assert_eq!(parse_chunk_name("Chunk_7"), None);
    assert_eq!(parse_chunk_name("chunk_7.tmp"), None);
    assert_eq!(parse_chunk_name("chunk_1_2"), None);
    assert_eq!(parse_chunk_name("chunk_abc"), None);
    assert_eq!(parse_chunk_name(" chunk_7"), None);
    assert_eq!(parse_chunk_name("chunk_\u{e9}"), None);
    assert_eq!(parse_chunk_name("notes.txt"), None);
}

#[test]
fn parse_chunk_name_refuses_an_index_not_written_plainly() {
    assert_eq!(parse_chunk_name("chunk_07"), None);
    assert_eq!(parse_chunk_name("chunk_+7"), None);
    assert_eq!(parse_chunk_name("chunk_00"), None);
    assert_eq!(parse_chunk_name("chunk_0"), Some(0));
}

#[test]
fn parse_chunk_name_refuses_an_index_too_large() {
    let too_large = format!("chunk_{}0", usize::MAX);
    assert_eq!(parse_chunk_name(&too_large), None);
}

#[test]
fn list_chunks_orders_by_number_not_by_text() {
    let listing = names(&["chunk_10", "chunk_9", "chunk_100", "chunk_1"]);
    assert_eq!(list_chunks(&listing), vec![1, 9, 10, 100]);
}

#[test]
fn list_chunks_passes_over_other_files() {
    let listing = names(&["chunk_2", "notes.txt", "chunk_x", "chunk_0", ".hidden", "chunk_02"]);
    assert_eq!(list_chunks(&listing), vec![0, 2]);
}

#[test]
fn list_chunks_counts_a_repeated_name_once() {
    let listing = names(&["chunk_3", "chunk_1", "chunk_3"]);
    assert_eq!(list_chunks(&listing), vec![1, 3]);
}

#[test]
fn list_chunks_of_nothing_is_empty() {
    assert_eq!(list_chunks(&Vec::new()), Vec::<usize>::new());
    assert_eq!(list_chunks(&names(&["a", "b"])), Vec::<usize>::new());
}

#[test]
fn list_chunks_does_not_depend_on_listing_order() {
    let a = names(&["chunk_5", "chunk_0", "chunk_3", "chunk_12"]);
    let b = names(&["chunk_12", "chunk_3", "chunk_5", "chunk_0"]);
    assert_eq!(list_chunks(&a), list_chunks(&b));
    assert_eq!(list_chunks(&a), vec![0, 3, 5, 12]);
}

#[test]
fn chunk_file_names_keep_the_order() {
    assert_eq!(chunk_file_names(&vec![1, 9, 10]), names(&["chunk_1", "chunk_9", "chunk_10"]));
    assert_eq!(chunk_file_names(&Vec::new()), Vec::<String>::new());
}

#[test]
fn insertion_point_counts_the_smaller_entries() {
    let v = vec![2usize, 4, 8];
    assert_eq!(insertion_point(&v, 0), 0);
    assert_eq!(insertion_point(&v, 2), 0);
    assert_eq!(insertion_point(&v, 3), 1);
    assert_eq!(insertion_point(&v, 8), 2);
    assert_eq!(insertion_point(&v, 9), 3);
    assert_eq!(insertion_point(&Vec::new(), 5), 0);
}

#[test]
fn insert_ascending_keeps_order_and_entries_once() {
    let mut v: Vec<usize> = Vec::new();
    for key in [5usize, 1, 9, 5, 0, 9, 3] {
        insert_ascending(&mut v, key);
    }
    assert_eq!(v, vec![0, 1, 3, 5, 9]);
}

#[test]
fn locate_gives_each_chunk_its_name() {
    assert_eq!(
        locate(&vec![0, 12]),
        vec![
            ChunkRef { index: 0, locator: "chunk_0".to_string() },
            ChunkRef { index: 12, locator: "chunk_12".to_string() },
        ]
    );
    assert_eq!(locate(&Vec::new()), Vec::<ChunkRef>::new());
}
