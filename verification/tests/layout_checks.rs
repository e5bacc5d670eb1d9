use aligned_buffer::blocks::{Block32, Frame8};
use aligned_buffer::layout::{assert_layout, power_of_two, LayoutError};

#[test]
fn matching_layouts_are_accepted() {
    assert_eq!(assert_layout::<32, 1, Block32>(), Ok(()));
    assert_eq!(assert_layout::<8, 1, Frame8>(), Ok(()));
    assert_eq!(assert_layout::<4, 4, u32>(), Ok(()));
}

#[test]
fn wrong_size_is_named_first() {
    assert_eq!(assert_layout::<16, 1, Block32>(), Err(LayoutError::WrongSize));
    // A wrong alignment is reported only once the size matches.
    assert_eq!(assert_layout::<16, 16, Block32>(), Err(LayoutError::WrongSize));
}

#[test]
fn wrong_alignment_is_rejected() {
    assert_eq!(assert_layout::<32, 16, Block32>(), Err(LayoutError::WrongAlignment));
    assert_eq!(assert_layout::<32, 2, Block32>(), Err(LayoutError::WrongAlignment));
}

#[test]
fn zero_size_is_rejected() {
    assert_eq!(assert_layout::<0, 1, ()>(), Err(LayoutError::ZeroSize));
}

#[test]
fn layout_error_messages() {
    assert_eq!(LayoutError::WrongSize.message(), "invalid size");
    assert_eq!(LayoutError::WrongAlignment.message(), "invalid alignment");
    assert_eq!(LayoutError::NotMultiple.message(), "size is not a multiple of alignment");
    assert_eq!(LayoutError::NotPowerOfTwo.message(), "alignment is not a power of two");
    assert_eq!(LayoutError::ZeroSize.message(), "size cannot be zero");
}

#[test]
fn powers_of_two_are_recognized() {
    assert!(power_of_two(1));
    assert!(power_of_two(2));
    assert!(power_of_two(4));
    assert!(power_of_two(16));
    assert!(power_of_two(1024));
    assert!(!power_of_two(0));
    assert!(!power_of_two(3));
    assert!(!power_of_two(5));
    assert!(!power_of_two(6));
    assert!(!power_of_two(10));
}

#[test]
fn real_sizes_match_declared_sizes() {
    assert_eq!(core::mem::size_of::<Block32>(), 32);
    assert_eq!(core::mem::align_of::<Block32>(), 1);
    assert_eq!(core::mem::size_of::<Frame8>(), 8);
}
