use kelvane::guest::{guest_alloc_size, guest_dealloc_size, guest_input_len};
use kelvane::infer::{infer_input_region, infer_reply, infer_unavailable, InferReject, INFER_FAILED};
use kelvane::shape::{check_input_len, shape_len, InputLenMismatch};
use kelvane::tensor::{le_bytes, le_words};

#[test]
fn le_words_reads_little_endian_and_drops_partial_word() {
    let bytes = [0x01, 0x02, 0x03, 0x04, 0xFF, 0xFF, 0xFF, 0xFF, 0xAA];
    assert_eq!(le_words(&bytes), vec![0x0403_0201, 0xFFFF_FFFF]);
    assert_eq!(le_words(&[1, 2, 3]), Vec::<u32>::new());
}

#[test]
fn le_words_matches_f32_bit_patterns() {
    let v = [1.5f32, -0.25, 0.0];
    let mut bytes = Vec::new();
    for x in v {
        bytes.extend_from_slice(&x.to_le_bytes());
    }
    let words = le_words(&bytes);
    let back: Vec<f32> = words.iter().map(|w| f32::from_bits(*w)).collect();
    assert_eq!(back, v.to_vec());
}

#[test]
fn le_bytes_round_trips_through_le_words() {
    let words = vec![0u32, 1, 0xDEAD_BEEF, u32::MAX];
    let bytes = le_bytes(&words);
    assert_eq!(bytes.len(), 16);
    assert_eq!(&bytes[8..12], &[0xEF, 0xBE, 0xAD, 0xDE]);
    assert_eq!(le_words(&bytes), words);
}

#[test]
fn shape_len_is_product() {
    assert_eq!(shape_len(&[1, 4, 11, 11]), Some(484));
    assert_eq!(shape_len(&[]), Some(1));
    assert_eq!(shape_len(&[usize::MAX, 2]), None);
    assert_eq!(shape_len(&[usize::MAX, usize::MAX, 0]), Some(0));
}

#[test]
fn input_len_check() {
    assert_eq!(check_input_len(484, 484), Ok(()));
    assert_eq!(check_input_len(484, 4), Err(InputLenMismatch { expected: 484, got: 4 }));
}

#[test]
fn infer_request_accepted_locates_input() {
    assert_eq!(infer_input_region(Some(484), 0, 484, 64, Some(65536)), Ok((0, 1936)));
}

#[test]
fn infer_request_refusals() {
    assert_eq!(infer_input_region(None, 0, 484, 64, Some(65536)), Err(InferReject::NoModel));
    assert_eq!(infer_input_region(Some(484), 0, 0, 64, Some(65536)), Err(InferReject::NonPositiveLength));
    assert_eq!(infer_input_region(Some(484), 0, 484, 0, Some(65536)), Err(InferReject::NonPositiveLength));
    assert_eq!(infer_input_region(Some(484), 0, 484, 64, None), Err(InferReject::NoMemory));
    assert_eq!(infer_input_region(Some(484), 0x7FFF_0000, 484, 64, Some(65536)), Err(InferReject::InputOutOfBounds));
    assert_eq!(infer_input_region(Some(484), -4, 484, 64, Some(65536)), Err(InferReject::InputOutOfBounds));
    // An absurd length is refused by the bounds check, before any allocation.
    assert_eq!(infer_input_region(Some(484), 0, 2_000_000_000, 64, Some(65536)), Err(InferReject::InputOutOfBounds));
    assert_eq!(
        infer_input_region(Some(484), 0, 4, 64, Some(65536)),
        Err(InferReject::InputLenMismatch { expected: 484, got: 4 })
    );
}

#[test]
fn infer_reply_truncates_to_capacity() {
    let scores = [1u32, 2, 3, 4, 5, 6, 7];
    let w = infer_reply(&scores, 4000, 1, 65536).unwrap();
    assert_eq!(w.count, 1);
    assert_eq!(w.offset, 4000);
    assert_eq!(w.bytes, vec![1, 0, 0, 0]);
    let all = infer_reply(&scores, 4000, 64, 65536).unwrap();
    assert_eq!(all.count, 7);
    assert_eq!(all.bytes.len(), 28);
}

#[test]
fn infer_reply_refuses_out_of_bounds_write() {
    let scores = [1u32, 2, 3];
    assert!(matches!(infer_reply(&scores, 0x7FFF_0000, 64, 65536), Err(InferReject::OutputOutOfBounds)));
    assert!(matches!(infer_reply(&scores, 65530, 64, 65536), Err(InferReject::OutputOutOfBounds)));
    assert!(infer_reply(&scores, 65524, 64, 65536).is_ok());
}

#[test]
fn infer_without_model_fails() {
    assert_eq!(infer_unavailable(0, 484, 4000, 64), INFER_FAILED);
    assert_eq!(INFER_FAILED, -1);
}

#[test]
fn guest_sizes() {
    assert_eq!(guest_input_len(8, 5), 5);
    assert_eq!(guest_input_len(0, 5), 0);
    assert_eq!(guest_input_len(8, -1), 0);
    assert_eq!(guest_alloc_size(0), None);
    assert_eq!(guest_alloc_size(-3), None);
    assert_eq!(guest_alloc_size(12), Some(12));
    assert_eq!(guest_dealloc_size(0, 12), None);
    assert_eq!(guest_dealloc_size(8, 0), None);
    assert_eq!(guest_dealloc_size(8, 12), Some(12));
}
