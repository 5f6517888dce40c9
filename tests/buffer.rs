use arrow_buffer::{Buffer, ScalarBuffer};
use lance_buffer::bits::{is_pwr_two, needs_alignment_copy};
use lance_buffer::{BufferError, LanceBuffer};

#[test]
fn test_eq() {
    let buf = LanceBuffer::Borrowed(Buffer::from_vec(vec![1_u8, 2, 3]));
    let buf2 = LanceBuffer::Owned(vec![1, 2, 3]);
    assert_eq!(buf, buf2);
}

#[test]
fn test_reinterpret_vec() {
    let vec = vec![1_u32, 2, 3];
    let mut buf = LanceBuffer::reinterpret_vec(vec);

    let mut expected = Vec::with_capacity(12);
    expected.extend_from_slice(&1_u32.to_ne_bytes());
    expected.extend_from_slice(&2_u32.to_ne_bytes());
    expected.extend_from_slice(&3_u32.to_ne_bytes());
    let expected = LanceBuffer::Owned(expected);

    assert_eq!(expected, buf);
    let typed = ScalarBuffer::<u32>::from(buf.borrow_to_typed_slice::<u32>());
    assert_eq!(typed.as_ref(), vec![1, 2, 3]);
}

#[test]
fn test_concat() {
    let buf1 = LanceBuffer::Owned(vec![1_u8, 2, 3]);
    let buf2 = LanceBuffer::Owned(vec![4_u8, 5, 6]);
    let buf3 = LanceBuffer::Owned(vec![7_u8, 8, 9]);

    let expected = LanceBuffer::Owned(vec![1, 2, 3, 4, 5, 6, 7, 8, 9]);
    assert_eq!(
        expected,
        LanceBuffer::concat_into_one(vec![buf1, buf2, buf3])
    );

    let empty = LanceBuffer::empty();
    assert_eq!(
        LanceBuffer::empty(),
        LanceBuffer::concat_into_one(vec![empty])
    );

    let expected = LanceBuffer::Owned(vec![1, 2, 3]);
    assert_eq!(
        expected,
        LanceBuffer::concat_into_one(vec![expected.deep_copy(), LanceBuffer::empty()])
    );
}

#[test]
fn test_zip() {
    let buf1 = LanceBuffer::Owned(vec![1_u8, 2, 3]);
    let buf2 = LanceBuffer::reinterpret_vec(vec![1_u16, 2, 3]);
    let buf3 = LanceBuffer::reinterpret_vec(vec![1_u32, 2, 3]);

    let zipped = LanceBuffer::zip_into_one(vec![(buf1, 8), (buf2, 16), (buf3, 32)], 3).unwrap();

    assert_eq!(zipped.len(), 21);

    let mut expected = Vec::with_capacity(21);
    for i in 1..4 {
        expected.push(i as u8);
        expected.extend_from_slice(&(i as u16).to_ne_bytes());
        expected.extend_from_slice(&(i as u32).to_ne_bytes());
    }
    let expected = LanceBuffer::Owned(expected);

    assert_eq!(expected, zipped);
}

#[test]
fn test_hex() {
    let buf = LanceBuffer::Owned(vec![1, 2, 15, 20]);
    assert_eq!("01020F14", buf.as_hex());
}

#[test]
fn test_to_typed_slice() {
    // Aligned: no copy, both views share one region.
    let mut buf = LanceBuffer::Owned(vec![0, 1]);
    let borrow = ScalarBuffer::<u16>::from(buf.borrow_to_typed_slice::<u16>());
    let view_ptr = borrow.as_ref().as_ptr();
    let borrow2 = ScalarBuffer::<u16>::from(buf.borrow_to_typed_slice::<u16>());
    let view_ptr2 = borrow2.as_ref().as_ptr();

    assert_eq!(view_ptr, view_ptr2);

    // Misaligned for u16: each view is a fresh copy.
    let sliced = Buffer::from_vec(vec![0_u8, 1, 2]).slice_with_length(1, 2);
    let mut buf = LanceBuffer::from(sliced);
    let borrow = ScalarBuffer::<u16>::from(buf.borrow_to_typed_slice::<u16>());
    let view_ptr = borrow.as_ref().as_ptr();
    let borrow2 = ScalarBuffer::<u16>::from(buf.borrow_to_typed_slice::<u16>());
    let view_ptr2 = borrow2.as_ref().as_ptr();

    assert_ne!(view_ptr, view_ptr2);
    assert_eq!(borrow.as_ref(), borrow2.as_ref());
    assert_eq!(borrow.as_ref(), &[u16::from_ne_bytes([1, 2])]);
}

#[test]
fn test_bit_slice_le() {
    let mut buf = LanceBuffer::Owned(vec![0x0F, 0x0B]);

    // Keep in mind that validity buffers are *bitwise* little-endian
    assert_eq!(buf.bit_slice_le_with_length(0, 4).as_ref(), &[0x0F]);
    assert_eq!(buf.bit_slice_le_with_length(4, 4).as_ref(), &[0x00]);
    assert_eq!(buf.bit_slice_le_with_length(3, 8).as_ref(), &[0x61]);
    assert_eq!(buf.bit_slice_le_with_length(0, 8).as_ref(), &[0x0F]);
    assert_eq!(buf.bit_slice_le_with_length(4, 8).as_ref(), &[0xB0]);
    assert_eq!(buf.bit_slice_le_with_length(4, 12).as_ref(), &[0xB0, 0x00]);
}

#[test]
fn bit_slice_leaves_receiver_borrowed() {
    let mut buf = LanceBuffer::Owned(vec![0xFF, 0x01, 0x80]);
    let s = buf.bit_slice_le_with_length(7, 10);
    assert!(matches!(s, LanceBuffer::Borrowed(_)));
    assert_eq!(s.as_ref(), &[0x03, 0x00]);
    assert!(matches!(buf, LanceBuffer::Borrowed(_)));
    assert_eq!(buf.as_ref(), &[0xFF, 0x01, 0x80]);
    // a byte-aligned offset keeps whole bytes
    assert_eq!(buf.bit_slice_le_with_length(8, 3).as_ref(), &[0x01]);
}

#[test]
fn equality_ignores_mode() {
    let owned = LanceBuffer::Owned(vec![9, 8, 7]);
    let shared = LanceBuffer::Owned(vec![9, 8, 7]).into_borrowed();
    assert!(matches!(shared, LanceBuffer::Borrowed(_)));
    assert_eq!(owned, shared);
    assert_eq!(shared, owned);
    assert_ne!(owned, LanceBuffer::Owned(vec![9, 8]));
    assert_ne!(owned, LanceBuffer::Owned(vec![9, 8, 6]));
}

#[test]
fn try_clone_fails_on_owned() {
    let buf = LanceBuffer::Owned(vec![1, 2]);
    assert_eq!(buf.try_clone().unwrap_err(), BufferError::CloneOfOwned);
    let shared = buf.into_borrowed();
    let c = shared.try_clone().unwrap();
    assert!(matches!(c, LanceBuffer::Borrowed(_)));
    assert_eq!(c, shared);
}

#[test]
fn borrow_and_clone_switches_mode() {
    let mut buf = LanceBuffer::Owned(vec![4, 5, 6]);
    let c = buf.borrow_and_clone();
    assert!(matches!(buf, LanceBuffer::Borrowed(_)));
    assert!(matches!(c, LanceBuffer::Borrowed(_)));
    assert_eq!(c.as_ref(), &[4, 5, 6]);
    assert_eq!(buf.as_ref(), &[4, 5, 6]);
}

#[test]
fn deep_copy_and_to_owned_are_owned() {
    let shared = LanceBuffer::Owned(vec![1, 2, 3]).into_borrowed();
    let a = shared.deep_copy();
    let b = shared.to_owned();
    assert!(matches!(a, LanceBuffer::Owned(_)));
    assert!(matches!(b, LanceBuffer::Owned(_)));
    assert_eq!(a, shared);
    assert_eq!(b, shared);
    assert_eq!(shared.into_owned(), vec![1, 2, 3]);
}

#[test]
fn fills_and_empty() {
    assert_eq!(LanceBuffer::all_unset(3).as_ref(), &[0, 0, 0]);
    assert_eq!(LanceBuffer::all_set(2).as_ref(), &[0xFF, 0xFF]);
    assert_eq!(LanceBuffer::empty().len(), 0);
    assert_eq!(LanceBuffer::copy_array([3, 4]).as_ref(), &[3, 4]);
    assert_eq!(LanceBuffer::copy_slice(&[5, 6, 7]).as_ref(), &[5, 6, 7]);
}

#[test]
fn slice_keeps_mode() {
    let owned = LanceBuffer::Owned(vec![1, 2, 3, 4, 5]);
    let s = owned.slice_with_length(1, 3);
    assert!(matches!(s, LanceBuffer::Owned(_)));
    assert_eq!(s.as_ref(), &[2, 3, 4]);
    let shared = owned.into_borrowed();
    let s = shared.slice_with_length(3, 2);
    assert!(matches!(s, LanceBuffer::Borrowed(_)));
    assert_eq!(s.as_ref(), &[4, 5]);
    assert_eq!(shared.slice_with_length(5, 0).len(), 0);
}

#[test]
fn concat_of_one_keeps_mode() {
    let shared = LanceBuffer::Owned(vec![1, 2]).into_borrowed();
    let r = LanceBuffer::concat_into_one(vec![shared]);
    assert!(matches!(r, LanceBuffer::Borrowed(_)));
    assert_eq!(r.as_ref(), &[1, 2]);
    let r = LanceBuffer::concat_into_one(vec![]);
    assert_eq!(r.len(), 0);
    let parts = [LanceBuffer::Owned(vec![1]), LanceBuffer::Owned(vec![2, 3]).into_borrowed()];
    let joined = LanceBuffer::concat(&parts);
    assert!(matches!(joined, LanceBuffer::Owned(_)));
    assert_eq!(joined.as_ref(), &[1, 2, 3]);
}

#[test]
fn zip_rejects_partial_byte_width() {
    let a = LanceBuffer::Owned(vec![1, 2, 3]);
    let b = LanceBuffer::Owned(vec![1, 2, 3, 4, 5, 6]);
    let c = LanceBuffer::Owned(vec![0; 9]);
    let err = LanceBuffer::zip_into_one(vec![(a, 8), (b, 12), (c, 20)], 3).unwrap_err();
    assert_eq!(err, BufferError::UnsupportedBitWidth { bits_per_value: 12 });
}

#[test]
fn zip_of_no_rows_is_empty() {
    let a = LanceBuffer::Owned(vec![1, 2, 3]);
    let z = LanceBuffer::zip_into_one(vec![(a, 8)], 0).unwrap();
    assert_eq!(z.len(), 0);
    let a = LanceBuffer::Owned(vec![1, 2, 3, 4]);
    let b = LanceBuffer::Owned(vec![9, 8]);
    let z = LanceBuffer::zip_into_one(vec![(a, 16), (b, 8)], 2).unwrap();
    assert_eq!(z.as_ref(), &[1, 2, 9, 3, 4, 8]);
}

#[test]
fn spaced_hex_groups_words() {
    let buf = LanceBuffer::Owned(vec![0xAB, 0x01, 0x02, 0xFF, 0x10]);
    assert_eq!(buf.as_spaced_hex(2), "AB01 02FF 10");
    assert_eq!(buf.as_spaced_hex(1), "AB 01 02 FF 10");
    assert_eq!(buf.as_spaced_hex(5), "AB0102FF10");
    assert_eq!(LanceBuffer::empty().as_spaced_hex(3), "");
    let even = LanceBuffer::Owned(vec![1, 2, 3, 4]);
    assert_eq!(even.as_spaced_hex(2), "0102 0304");
}

#[test]
fn into_bytes_keeps_content() {
    let owned = LanceBuffer::Owned(vec![1, 2, 3]);
    assert_eq!(owned.into_bytes().as_ref(), &[1, 2, 3]);
    let shared = LanceBuffer::Owned(vec![4, 5]).into_borrowed();
    assert_eq!(shared.into_bytes().as_ref(), &[4, 5]);
    let mut held = LanceBuffer::Owned(vec![6, 7, 8]);
    let other = held.borrow_and_clone();
    assert_eq!(held.slice_with_length(1, 2).into_bytes().as_ref(), &[7, 8]);
    assert_eq!(other.into_bytes().as_ref(), &[6, 7, 8]);
}

#[test]
fn iterator_yields_each_byte() {
    let mut it = LanceBuffer::Owned(vec![3, 1, 4]).into_iter();
    assert_eq!(it.next(), Some(3));
    assert_eq!(it.next(), Some(1));
    assert_eq!(it.next(), Some(4));
    assert_eq!(it.next(), None);
    assert_eq!(it.next(), None);
}

#[test]
fn into_buffer_keeps_bytes() {
    let b = LanceBuffer::Owned(vec![1, 2]).into_buffer();
    assert_eq!(b.as_slice(), &[1, 2]);
}

#[test]
fn alignment_decision() {
    assert!(is_pwr_two(1));
    assert!(is_pwr_two(8));
    assert!(!is_pwr_two(0));
    assert!(!is_pwr_two(12));
    assert!(needs_alignment_copy(4, 1));
    assert!(needs_alignment_copy(4, 4098));
    assert!(!needs_alignment_copy(4, 4096));
    assert!(!needs_alignment_copy(3, 1));
    assert!(!needs_alignment_copy(1, 7));
}

#[test]
fn debug_string_previews_ten_bytes() {
    let small = LanceBuffer::Owned(vec![1, 2, 0xAB]);
    assert_eq!(small.debug_string(), "LanceBuffer::Owned(bytes=0x0102AB #bytes=3)");
    let big = LanceBuffer::Owned((0..12).collect::<Vec<u8>>()).into_borrowed();
    assert_eq!(
        big.debug_string(),
        "LanceBuffer::Borrowed(bytes=0x00010203040506070809... #bytes=12)"
    );
    assert_eq!(LanceBuffer::empty().debug_string(), "LanceBuffer::Owned(bytes=0x #bytes=0)");
}

#[test]
fn typed_round_trip_u64_and_u8() {
    let values = vec![1_u64, u64::MAX, 0x0102030405060708];
    let mut buf = LanceBuffer::reinterpret_vec(values.clone());
    assert_eq!(buf.len(), 24);
    assert_eq!(&buf.as_ref()[16..24], &[8, 7, 6, 5, 4, 3, 2, 1]);
    let typed = ScalarBuffer::<u64>::from(buf.borrow_to_typed_slice::<u64>());
    assert_eq!(typed.as_ref(), values.as_slice());

    let mut bytes = LanceBuffer::reinterpret_vec(vec![7_u8, 9]);
    let typed = ScalarBuffer::<u8>::from(bytes.borrow_to_typed_slice::<u8>());
    assert_eq!(typed.as_ref(), &[7, 9]);
}

#[test]
fn from_conversions_take_over() {
    let owned = LanceBuffer::from(vec![1_u8, 2]);
    assert!(matches!(owned, LanceBuffer::Owned(_)));
    let shared = LanceBuffer::from(Buffer::from_vec(vec![1_u8, 2]));
    assert!(matches!(shared, LanceBuffer::Borrowed(_)));
    assert_eq!(owned, shared);
}
