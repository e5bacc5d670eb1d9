use aligned_buffer::blocks::{Block32, Frame8};
use aligned_buffer::buffer::AlignedBuffer;

#[test]
fn new_is_all_zero() {
    let b = Block32::new();
    assert_eq!(b.as_slice(), &[0u8; 32]);
    let f = Frame8::new();
    assert_eq!(f.as_slice(), &[0u8; 8]);
}

#[test]
fn splat_fills_every_byte() {
    let b = Block32::splat(0xAA);
    assert_eq!(b.as_slice(), &[0xAAu8; 32]);
}

#[test]
fn splat_zero_and_max() {
    let z = Block32::splat(0);
    assert_eq!(z.as_slice(), &[0u8; 32]);
    let m = Block32::splat(255);
    assert_eq!(m.as_slice(), &[255u8; 32]);
    let f = Frame8::splat(255);
    assert_eq!(f.as_slice(), &[255u8; 8]);
}

#[test]
fn from_bytes_round_trip() {
    let mut bytes = [0u8; 32];
    let mut i = 0usize;
    while i < 32 {
        bytes[i] = i as u8;
        i += 1;
    }
    let b = Block32::from_bytes(bytes);
    assert_eq!(b.as_slice(), &bytes);

    let small = [9u8, 8, 7, 6, 5, 4, 3, 2];
    let f = Frame8::from_bytes(small);
    assert_eq!(f.as_slice(), &small);
}

#[test]
fn fill_from_start_overwrites_prefix_only() {
    let mut b = Block32::splat(0xFF);
    let s = [1u8, 2, 3];
    b.fill_from_start(&s);
    let got = b.as_slice();
    assert_eq!(&got[..3], &s);
    assert_eq!(&got[3..], &[0xFFu8; 29]);
}

#[test]
fn fill_from_end_overwrites_suffix_only_in_order() {
    let mut b = Block32::splat(0xFF);
    let s = [1u8, 2, 3];
    b.fill_from_end(&s);
    let got = b.as_slice();
    assert_eq!(&got[..29], &[0xFFu8; 29]);
    assert_eq!(&got[29..], &s);
}

#[test]
fn fill_with_empty_slice_is_noop() {
    let mut a = Block32::splat(0x5A);
    a.fill_from_start(&[]);
    assert_eq!(a.as_slice(), &[0x5Au8; 32]);
    let mut b = Block32::splat(0x5A);
    b.fill_from_end(&[]);
    assert_eq!(b.as_slice(), &[0x5Au8; 32]);
}

#[test]
fn fill_with_full_slice_replaces_everything() {
    let mut bytes = [0u8; 32];
    let mut i = 0usize;
    while i < 32 {
        bytes[i] = 32 - i as u8;
        i += 1;
    }
    let mut a = Block32::splat(0xFF);
    a.fill_from_start(&bytes);
    assert_eq!(a.as_slice(), &bytes);
    let mut b = Block32::splat(0xFF);
    b.fill_from_end(&bytes);
    assert_eq!(b.as_slice(), &bytes);
}

#[test]
fn fill_scenarios_on_zeroed_buffer() {
    let mut a = Block32::new();
    a.fill_from_start(&[0x01, 0x02]);
    let mut want = [0u8; 32];
    want[0] = 0x01;
    want[1] = 0x02;
    assert_eq!(a.as_slice(), &want);

    let mut b = Block32::new();
    b.fill_from_end(&[0x01, 0x02]);
    let mut want = [0u8; 32];
    want[30] = 0x01;
    want[31] = 0x02;
    assert_eq!(b.as_slice(), &want);
}

#[test]
fn writes_through_mutable_view_are_seen() {
    let mut b = Block32::new();
    b.as_mut_slice()[0] = 7;
    b.as_mut_slice()[31] = 9;
    assert_eq!(b.as_slice()[0], 7);
    assert_eq!(b.as_slice()[31], 9);
    assert_eq!(b.as_slice()[1], 0);
}

#[test]
fn fill_both_ends_of_small_frame() {
    let mut f = Frame8::splat(0xEE);
    f.fill_from_start(&[1, 2]);
    f.fill_from_end(&[3, 4]);
    assert_eq!(f.as_slice(), &[1, 2, 0xEE, 0xEE, 0xEE, 0xEE, 3, 4]);
}
