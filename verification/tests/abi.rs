use kelvane::abi::pack;

#[test]
fn pack_splits_into_high_ptr_low_len() {
    let packed = pack(0x1234, 0x56);
    assert_eq!((packed >> 32) as u32, 0x1234);
    assert_eq!((packed & 0xFFFF_FFFF) as u32, 0x56);
}

#[test]
fn pack_handles_full_width() {
    let packed = pack(0x7FFF_FFFF, 0x00AB_CDEF);
    assert_eq!((packed >> 32) as u32, 0x7FFF_FFFF);
    assert_eq!((packed & 0xFFFF_FFFF) as u32, 0x00AB_CDEF);
}

use kelvane::abi::{decode_output_region, OutputRegionError, MAX_OUTPUT_BYTES};

#[test]
fn pack_of_negative_words_keeps_their_bits() {
    let packed = pack(-1, -2);
    assert_eq!(packed as u64, 0xFFFF_FFFF_FFFF_FFFE);
}

#[test]
fn decode_recovers_packed_region() {
    assert_eq!(decode_output_region(pack(16, 32), 4096), Ok((16, 32)));
}

#[test]
fn decode_accepts_region_ending_at_memory_end() {
    assert_eq!(decode_output_region(pack(4000, 96), 4096), Ok((4000, 96)));
    assert_eq!(
        decode_output_region(pack(4001, 96), 4096),
        Err(OutputRegionError::OutOfBounds { end: 4097, mem_size: 4096 })
    );
}

#[test]
fn decode_refuses_length_over_cap() {
    let len = (MAX_OUTPUT_BYTES + 1) as i32;
    assert_eq!(
        decode_output_region(pack(0, len), usize::MAX),
        Err(OutputRegionError::TooLong { len: MAX_OUTPUT_BYTES + 1 })
    );
    assert_eq!(decode_output_region(pack(0, MAX_OUTPUT_BYTES as i32), usize::MAX), Ok((0, MAX_OUTPUT_BYTES)));
}

#[test]
fn decode_reads_pointer_as_unsigned() {
    // A pointer word with the top bit set is a large offset, not a negative one.
    assert_eq!(
        decode_output_region(pack(-1, 4), 65536),
        Err(OutputRegionError::OutOfBounds { end: 0xFFFF_FFFF + 4, mem_size: 65536 })
    );
}

#[test]
fn decode_empty_region_is_accepted() {
    assert_eq!(decode_output_region(0, 0), Ok((0, 0)));
}
