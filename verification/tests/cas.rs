use rusty_attachments::cas::{
    expected_chunk_count, generate_chunks, needs_chunking, upload_strategy, ChunkInfo,
    UploadStrategy,
};
use rusty_attachments::constants::CHUNK_SIZE_V2;

#[test]
fn test_needs_chunking() {
    assert!(!needs_chunking(100, CHUNK_SIZE_V2));
    assert!(!needs_chunking(CHUNK_SIZE_V2, CHUNK_SIZE_V2));
    assert!(needs_chunking(CHUNK_SIZE_V2 + 1, CHUNK_SIZE_V2));
    assert!(!needs_chunking(1_000_000_000, 0));
}

#[test]
fn test_generate_chunks_small_file() {
    let chunks = generate_chunks(1000, CHUNK_SIZE_V2);
    assert_eq!(chunks.len(), 1);
    assert_eq!(chunks[0].index, 0);
    assert_eq!(chunks[0].offset, 0);
    assert_eq!(chunks[0].length, 1000);
}

#[test]
fn test_generate_chunks_exact_multiple() {
    let chunk_size = 100u64;
    let chunks = generate_chunks(300, chunk_size);
    assert_eq!(chunks.len(), 3);

    assert_eq!(chunks[0], ChunkInfo { index: 0, offset: 0, length: 100 });
    assert_eq!(chunks[1], ChunkInfo { index: 1, offset: 100, length: 100 });
    assert_eq!(chunks[2], ChunkInfo { index: 2, offset: 200, length: 100 });
}

#[test]
fn test_generate_chunks_with_remainder() {
    let chunk_size = 100u64;
    let chunks = generate_chunks(250, chunk_size);
    assert_eq!(chunks.len(), 3);

    assert_eq!(chunks[0], ChunkInfo { index: 0, offset: 0, length: 100 });
    assert_eq!(chunks[1], ChunkInfo { index: 1, offset: 100, length: 100 });
    assert_eq!(chunks[2], ChunkInfo { index: 2, offset: 200, length: 50 });
}

#[test]
fn test_generate_chunks_large_file() {
    let size = 500 * 1024 * 1024;
    let chunks = generate_chunks(size, CHUNK_SIZE_V2);
    assert_eq!(chunks.len(), 2);

    assert_eq!(chunks[0].offset, 0);
    assert_eq!(chunks[0].length, CHUNK_SIZE_V2);

    assert_eq!(chunks[1].offset, CHUNK_SIZE_V2);
    assert_eq!(chunks[1].length, size - CHUNK_SIZE_V2);
}

#[test]
fn test_generate_chunks_disabled_and_empty() {
    let chunks = generate_chunks(5000, 0);
    assert_eq!(chunks, vec![ChunkInfo { index: 0, offset: 0, length: 5000 }]);
    let chunks = generate_chunks(0, 100);
    assert_eq!(chunks, vec![ChunkInfo { index: 0, offset: 0, length: 0 }]);
}

#[test]
fn test_chunks_tile_file_example() {
    let chunks = generate_chunks(1001, 100);
    assert_eq!(chunks.len(), expected_chunk_count(1001, 100));
    let mut next: u64 = 0;
    for (i, c) in chunks.iter().enumerate() {
        assert_eq!(c.index, i);
        assert_eq!(c.offset, next);
        assert!(c.length > 0 && c.length <= 100);
        next += c.length;
    }
    assert_eq!(next, 1001);
}

#[test]
fn test_expected_chunk_count() {
    assert_eq!(expected_chunk_count(100, CHUNK_SIZE_V2), 1);
    assert_eq!(expected_chunk_count(CHUNK_SIZE_V2, CHUNK_SIZE_V2), 1);
    assert_eq!(expected_chunk_count(CHUNK_SIZE_V2 + 1, CHUNK_SIZE_V2), 2);
    assert_eq!(expected_chunk_count(CHUNK_SIZE_V2 * 2, CHUNK_SIZE_V2), 2);
    assert_eq!(expected_chunk_count(CHUNK_SIZE_V2 * 2 + 1, CHUNK_SIZE_V2), 3);
}

#[test]
fn test_upload_strategy() {
    assert_eq!(upload_strategy(100, CHUNK_SIZE_V2), UploadStrategy::SingleObject);
    assert_eq!(upload_strategy(CHUNK_SIZE_V2, CHUNK_SIZE_V2), UploadStrategy::SingleObject);
    assert_eq!(upload_strategy(CHUNK_SIZE_V2 + 1, CHUNK_SIZE_V2), UploadStrategy::ChunkedCas);
}

#[test]
fn test_chunk_count_at_most_size() {
    assert_eq!(expected_chunk_count(7, 1), 7);
    assert_eq!(generate_chunks(7, 1).len(), 7);
    assert_eq!(expected_chunk_count(u64::MAX, 1) as u64, u64::MAX);
    assert_eq!(expected_chunk_count(u64::MAX, u64::MAX), 1);
}
