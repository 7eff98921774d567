use memcore::aligned::Aligned;
use memcore::allocation::{Allocation, AllocationError};
use memcore::array::{Array8, ArrayError, Pop};
use memcore::index::{Count, Count16, Count8, CountError};

#[test]
fn count_contains_exactly_its_offsets() {
    let count = Count::of(5);
    assert_eq!(count.max_offset(), 4);
    for offset in 0..5 {
        assert!(count.contains(offset));
    }
    assert!(!count.contains(-1));
    assert!(!count.contains(5));

    let empty = Count::of(0);
    assert_eq!(empty.max_offset(), -1);
    assert!(!empty.contains(0));
}

#[test]
fn count16_from_usize_accepts_the_full_width() {
    assert_eq!(
        Count16::from_usize(32768).expect("fits"),
        Count16::max_value()
    );
    assert!(matches!(Count16::from_usize(32769), Err(CountError::TooHigh)));
    assert_eq!(Count16::max_usize(), 32768);
}

#[test]
fn count8_past_half_range_doubles_to_max() {
    assert_eq!(Count8::of(100).double_or_max(2), Count8::max_value());
    assert_eq!(Count8::of(64).double_or_max(2), Count8::max_value());
    assert_eq!(Count8::of(63).double_or_max(2), Count8::of(126));
}

#[test]
fn allocation_write_then_read_destructively() {
    let mut allocation = Allocation::<u32>::new();
    assert_eq!(allocation.capacity(), Count::of(0));
    allocation.mut_capacity(Count::of(4)).expect("small alloc");
    assert_eq!(allocation.capacity(), Count::of(4));
    allocation.write_uninitialized(2, 77).expect("in range");
    assert_eq!(allocation.read_destructively(2), Ok(77));
    assert_eq!(
        allocation.write_uninitialized(4, 1),
        Err(AllocationError::InvalidOffset)
    );
    assert_eq!(
        allocation.read_destructively(-1),
        Err(AllocationError::InvalidOffset)
    );
}

#[test]
fn allocation_grow_starts_at_two_and_doubles() {
    let mut allocation = Allocation::<u8>::new();
    allocation.grow().expect("first grow");
    assert_eq!(allocation.capacity(), Count::of(2));
    allocation.grow().expect("second grow");
    assert_eq!(allocation.capacity(), Count::of(4));
}

#[test]
fn array8_at_full_width_cannot_grow() {
    let mut array = Array8::<u8>::new();
    array.mut_count(Count8::max_value()).expect("small alloc");
    assert_eq!(array.count(), Count8::max_value());
    assert_eq!(
        array.push(1),
        Err(ArrayError::Allocation(AllocationError::OutOfMemory))
    );
    assert_eq!(array.pop(Pop::Last), Some(0));
}

#[test]
fn aligned_hands_its_value_back() {
    let aligned = Aligned(41u64);
    assert_eq!(aligned.unalign(), 41);
}
