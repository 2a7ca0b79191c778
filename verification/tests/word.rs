use memscan::scan::{find_usize_in_buffer, find_usize_in_memory_region};
use memscan::region::{MemoryRegion, RegionKind};
use memscan::word::{u8_slice_to_usize, word_size, ByteOrder};

const WORD: usize = std::mem::size_of::<usize>();

fn host_order() -> ByteOrder {
    if 1usize.to_ne_bytes()[0] == 1 {
        ByteOrder::LittleEndian
    } else {
        ByteOrder::BigEndian
    }
}

#[test]
fn word_size_is_that_of_an_address() {
    assert_eq!(word_size(), WORD);
}

#[test]
fn word_is_read_in_either_order() {
    let value: usize = 0x0102_0304;
    assert_eq!(u8_slice_to_usize(&value.to_le_bytes(), ByteOrder::LittleEndian), Some(value));
    assert_eq!(u8_slice_to_usize(&value.to_be_bytes(), ByteOrder::BigEndian), Some(value));
    assert_eq!(u8_slice_to_usize(&value.to_ne_bytes(), host_order()), Some(value));
    assert_eq!(
        u8_slice_to_usize(&value.to_le_bytes(), ByteOrder::BigEndian),
        Some(value.swap_bytes())
    );
    assert_eq!(
        u8_slice_to_usize(&usize::MAX.to_le_bytes(), ByteOrder::LittleEndian),
        Some(usize::MAX)
    );
    assert_eq!(u8_slice_to_usize(&[0u8; WORD], ByteOrder::BigEndian), Some(0));
}

#[test]
fn first_byte_counts_least_in_little_endian() {
    let mut bytes = [0u8; WORD];
    bytes[0] = 42;
    assert_eq!(u8_slice_to_usize(&bytes, ByteOrder::LittleEndian), Some(42));
    bytes[1] = 1;
    assert_eq!(u8_slice_to_usize(&bytes, ByteOrder::LittleEndian), Some(256 + 42));
    let mut bytes = [0u8; WORD];
    bytes[WORD - 1] = 42;
    bytes[WORD - 2] = 1;
    assert_eq!(u8_slice_to_usize(&bytes, ByteOrder::BigEndian), Some(256 + 42));
}

#[test]
fn other_lengths_hold_no_word() {
    assert_eq!(u8_slice_to_usize(&[], ByteOrder::LittleEndian), None);
    assert_eq!(u8_slice_to_usize(&[1, 2, 3], ByteOrder::LittleEndian), None);
    assert_eq!(u8_slice_to_usize(&[0u8; WORD + 1], ByteOrder::BigEndian), None);
    assert_eq!(u8_slice_to_usize(&[0u8; WORD - 1], ByteOrder::BigEndian), None);
}

fn buffer_of(words: &[usize]) -> Vec<u8> {
    let mut buffer = Vec::new();
    for word in words {
        buffer.extend_from_slice(&word.to_le_bytes());
    }
    buffer
}

#[test]
fn scan_finds_every_word_that_holds_the_value() {
    let buffer = buffer_of(&[42, 7, 42, 0, 42]);
    assert_eq!(
        find_usize_in_buffer(&buffer, 42, ByteOrder::LittleEndian),
        vec![0, 2 * WORD, 4 * WORD]
    );
    assert_eq!(find_usize_in_buffer(&buffer, 7, ByteOrder::LittleEndian), vec![WORD]);
    assert_eq!(find_usize_in_buffer(&buffer, 9, ByteOrder::LittleEndian), Vec::<usize>::new());
    assert_eq!(find_usize_in_buffer(&[], 0, ByteOrder::LittleEndian), Vec::<usize>::new());
}

#[test]
fn scan_looks_at_aligned_words_only() {
    let mut buffer = vec![0u8; 3 * WORD];
    buffer[1..1 + WORD].copy_from_slice(&42usize.to_le_bytes());
    assert_eq!(find_usize_in_buffer(&buffer, 42, ByteOrder::LittleEndian), Vec::<usize>::new());
}

#[test]
fn bytes_after_the_last_whole_word_belong_to_no_word() {
    let mut buffer = buffer_of(&[0, 5]);
    buffer.extend_from_slice(&[5, 0, 0]);
    assert_eq!(find_usize_in_buffer(&buffer, 5, ByteOrder::LittleEndian), vec![WORD]);
    assert_eq!(find_usize_in_buffer(&buffer, 0, ByteOrder::LittleEndian), vec![0]);
    assert_eq!(
        find_usize_in_buffer(&[0u8; WORD - 1], 0, ByteOrder::LittleEndian),
        Vec::<usize>::new()
    );
}

#[test]
fn scan_honours_the_byte_order() {
    let mut buffer = Vec::new();
    buffer.extend_from_slice(&42usize.to_be_bytes());
    buffer.extend_from_slice(&42usize.to_le_bytes());
    assert_eq!(find_usize_in_buffer(&buffer, 42, ByteOrder::BigEndian), vec![0]);
    assert_eq!(find_usize_in_buffer(&buffer, 42, ByteOrder::LittleEndian), vec![WORD]);
}

#[test]
fn scan_of_a_region_gives_addresses() {
    let region = MemoryRegion::new(RegionKind::Stack, 0x1000, 0x1000 + 4 * WORD).unwrap();
    let buffer = buffer_of(&[1, 2, 1, 1]);
    assert_eq!(
        find_usize_in_memory_region(&buffer, 1, &region, ByteOrder::LittleEndian),
        vec![0x1000, 0x1000 + 2 * WORD, 0x1000 + 3 * WORD]
    );
}

#[test]
fn scan_reaches_the_top_of_the_address_space() {
    let start = usize::MAX - 2 * WORD;
    let region = MemoryRegion::new(RegionKind::Stack, start, usize::MAX).unwrap();
    let buffer = buffer_of(&[3, 3]);
    assert_eq!(
        find_usize_in_memory_region(&buffer, 3, &region, ByteOrder::LittleEndian),
        vec![start, start + WORD]
    );
}

#[test]
fn region_exists_only_if_it_spans_something() {
    assert!(MemoryRegion::new(RegionKind::Heap, 16, 16).is_none());
    assert!(MemoryRegion::new(RegionKind::Heap, 17, 16).is_none());
    let region = MemoryRegion::new(RegionKind::Heap, 16, 17).unwrap();
    assert_eq!(region.size(), 1);
    assert_eq!(region.kind(), RegionKind::Heap);
    assert_eq!((region.start(), region.end()), (16, 17));
}
