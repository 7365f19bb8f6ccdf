use ngram_fetch::chunking::{chunk_byte_size_of, chunk_count, chunk_range, CHUNK_SIZE};

const MIB: u64 = 1024 * 1024;

#[test]
fn test_chunk_count_50_mib() {
    // 50 MiB at 20 MiB per chunk: three chunks.
    assert_eq!(chunk_count(50 * MIB, 20 * MIB), 3);
}

#[test]
fn test_chunk_sizes_50_mib() {
    // Chunks 0 and 1 cover 20 MiB each; chunk 2 covers exactly the
    // remaining 10 MiB.
    assert_eq!(chunk_byte_size_of(50 * MIB, 20 * MIB, 0), 20 * MIB);
    assert_eq!(chunk_byte_size_of(50 * MIB, 20 * MIB, 1), 20 * MIB);
    assert_eq!(chunk_byte_size_of(50 * MIB, 20 * MIB, 2), 10 * MIB);
}

#[test]
fn test_chunk_ranges_are_contiguous() {
    assert_eq!(chunk_range(50 * MIB, 20 * MIB, 0), (0, 20 * MIB - 1));
    assert_eq!(chunk_range(50 * MIB, 20 * MIB, 1), (20 * MIB, 40 * MIB - 1));
    assert_eq!(chunk_range(50 * MIB, 20 * MIB, 2), (40 * MIB, 50 * MIB - 1));
}

#[test]
fn test_exact_multiple_has_no_short_chunk() {
    assert_eq!(chunk_count(40 * MIB, 20 * MIB), 2);
    assert_eq!(chunk_byte_size_of(40 * MIB, 20 * MIB, 1), 20 * MIB);
}

#[test]
fn test_small_object_is_one_short_chunk() {
    assert_eq!(chunk_count(1, CHUNK_SIZE), 1);
    assert_eq!(chunk_byte_size_of(1, CHUNK_SIZE, 0), 1);
    assert_eq!(chunk_range(1, CHUNK_SIZE, 0), (0, 0));
}

#[test]
fn test_empty_object_has_no_chunks() {
    assert_eq!(chunk_count(0, CHUNK_SIZE), 0);
}
