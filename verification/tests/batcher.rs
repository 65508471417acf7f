use ledger_migration::batcher::{batch, count_chunks, nth_chunk};
use ledger_migration::error::MigrationError;

fn blocks(n: usize) -> Vec<Vec<u8>> {
    (0..n).map(|i| vec![i as u8, (i * 7) as u8]).collect()
}

fn sizes(chunks: &[&[Vec<u8>]]) -> Vec<usize> {
    chunks.iter().map(|c| c.len()).collect()
}

#[test]
fn ten_blocks_in_chunks_of_three() {
    let items = blocks(10);
    let chunks = batch(&items, 3).unwrap();
    assert_eq!(sizes(&chunks), vec![3, 3, 3, 1]);
    assert_eq!(chunks[0], &items[0..3]);
    assert_eq!(chunks[1], &items[3..6]);
    assert_eq!(chunks[2], &items[6..9]);
    assert_eq!(chunks[3], &items[9..10]);
}

#[test]
fn zero_chunk_size_is_invalid_config() {
    let items = blocks(4);
    assert_eq!(batch(&items, 0), Err(MigrationError::InvalidConfig));
    assert_eq!(count_chunks(4, 0), Err(MigrationError::InvalidConfig));
    assert_eq!(nth_chunk(&items, 0, 0), Err(MigrationError::InvalidConfig));
}

#[test]
fn zero_chunk_size_is_invalid_config_even_without_blocks() {
    let items: Vec<Vec<u8>> = Vec::new();
    assert_eq!(batch(&items, 0), Err(MigrationError::InvalidConfig));
    assert_eq!(count_chunks(0, 0), Err(MigrationError::InvalidConfig));
}

#[test]
fn no_blocks_give_no_chunks() {
    let items: Vec<Vec<u8>> = Vec::new();
    let chunks = batch(&items, 5).unwrap();
    assert!(chunks.is_empty());
    assert_eq!(count_chunks(0, 5), Ok(0));
    assert_eq!(nth_chunk(&items, 5, 0), Ok(None));
}

#[test]
fn exact_multiple_has_full_last_chunk() {
    let items = blocks(9);
    let chunks = batch(&items, 3).unwrap();
    assert_eq!(sizes(&chunks), vec![3, 3, 3]);
}

#[test]
fn chunk_size_above_length_gives_one_chunk() {
    let items = blocks(4);
    let chunks = batch(&items, 100).unwrap();
    assert_eq!(sizes(&chunks), vec![4]);
    assert_eq!(chunks[0], &items[..]);
    let all = batch(&items, usize::MAX).unwrap();
    assert_eq!(sizes(&all), vec![4]);
}

#[test]
fn chunk_size_one_gives_one_chunk_per_block() {
    let items = blocks(5);
    let chunks = batch(&items, 1).unwrap();
    assert_eq!(sizes(&chunks), vec![1, 1, 1, 1, 1]);
    for (i, chunk) in chunks.iter().enumerate() {
        assert_eq!(chunk[0], items[i]);
    }
}

#[test]
fn chunks_concatenate_to_the_blocks() {
    for n in 0..20 {
        for size in 1..8 {
            let items = blocks(n);
            let chunks = batch(&items, size).unwrap();
            assert_eq!(chunks.len(), (n + size - 1) / size);
            let mut joined: Vec<Vec<u8>> = Vec::new();
            for chunk in chunks.iter() {
                assert!(!chunk.is_empty());
                assert!(chunk.len() <= size);
                joined.extend_from_slice(chunk);
            }
            assert_eq!(joined, items);
        }
    }
}

#[test]
fn last_chunk_holds_the_remainder() {
    let items = blocks(11);
    let chunks = batch(&items, 4).unwrap();
    assert_eq!(sizes(&chunks), vec![4, 4, 3]);
    assert_eq!(11 % 4, 3);
}

#[test]
fn chunk_counts_are_rounded_up() {
    assert_eq!(count_chunks(10, 3), Ok(4));
    assert_eq!(count_chunks(9, 3), Ok(3));
    assert_eq!(count_chunks(1, 3), Ok(1));
    assert_eq!(count_chunks(3, 1), Ok(3));
    assert_eq!(count_chunks(0, 1), Ok(0));
}

#[test]
fn chunk_counts_at_the_machine_limit() {
    assert_eq!(count_chunks(usize::MAX, 1), Ok(usize::MAX));
    assert_eq!(count_chunks(usize::MAX, usize::MAX), Ok(1));
    assert_eq!(count_chunks(usize::MAX, 2), Ok(usize::MAX / 2 + 1));
    assert_eq!(count_chunks(usize::MAX - 1, usize::MAX), Ok(1));
}

#[test]
fn nth_chunk_counts_from_zero() {
    let items = blocks(10);
    assert_eq!(nth_chunk(&items, 3, 0), Ok(Some(&items[0..3])));
    assert_eq!(nth_chunk(&items, 3, 2), Ok(Some(&items[6..9])));
    assert_eq!(nth_chunk(&items, 3, 3), Ok(Some(&items[9..10])));
    assert_eq!(nth_chunk(&items, 3, 4), Ok(None));
    assert_eq!(nth_chunk(&items, 3, usize::MAX), Ok(None));
}

#[test]
fn batching_works_on_any_item_type() {
    let items = vec!["a", "b", "c", "d", "e"];
    let chunks = batch(&items, 2).unwrap();
    assert_eq!(chunks, vec![&["a", "b"][..], &["c", "d"][..], &["e"][..]]);
}
