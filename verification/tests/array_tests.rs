use memcore::array::{Array, Clear, Pop};
use memcore::index::Count;

#[test]
fn push_and_pop() {
    let mut array = Array::<u32>::new();
    array.mut_capacity(Count::of(3)).expect("small alloc");
    array.push(1).expect("already allocked");
    array.push(2).expect("already allocked");
    array.push(3).expect("already allocked");
    assert_eq!(array.count(), Count::of(3));
    assert_eq!(array.pop(Pop::Last), Some(3));
    assert_eq!(array.pop(Pop::Last), Some(2));
    assert_eq!(array.pop(Pop::Last), Some(1));
    assert_eq!(array.count(), Count::of(0));
    assert_eq!(array.capacity(), Count::of(3));
}

#[test]
fn mut_count_supplies_defaults() {
    let mut array = Array::<u32>::new();
    array.mut_count(Count::of(5)).expect("small alloc");
    assert_eq!(array.count(), Count::of(5));
    assert_eq!(array.pop(Pop::Last), Some(0));
    assert_eq!(array.pop(Pop::Last), Some(0));
    assert_eq!(array.pop(Pop::Last), Some(0));
    assert_eq!(array.pop(Pop::Last), Some(0));
    assert_eq!(array.pop(Pop::Last), Some(0));
    assert_eq!(array.count(), Count::of(0));
}

#[test]
fn clear_keep_capacity() {
    let mut array = Array::<u8>::new();
    array.mut_capacity(Count::of(10)).expect("small alloc");
    assert_eq!(array.capacity(), Count::of(10));
}

#[test]
fn clear_keeps_or_drops_capacity() {
    let mut array = Array::<u32>::new();
    array.mut_capacity(Count::of(10)).expect("small alloc");
    array.push(7).expect("already allocked");
    array.push(8).expect("already allocked");
    array.clear(Clear::KeepCapacity);
    assert_eq!(array.count(), Count::of(0));
    assert_eq!(array.capacity(), Count::of(10));
    array.push(9).expect("already allocked");
    array.clear(Clear::DropCapacity);
    assert_eq!(array.count(), Count::of(0));
    assert_eq!(array.capacity(), Count::of(0));
}

#[test]
fn push_grows_capacity_by_doubling() {
    let mut array = Array::<u32>::new();
    array.push(1).expect("first alloc");
    assert_eq!(array.capacity(), Count::of(2));
    array.push(2).expect("fits");
    array.push(3).expect("grows");
    assert_eq!(array.capacity(), Count::of(4));
    assert_eq!(array.as_slice(), vec![1, 2, 3]);
}

#[test]
fn mut_capacity_below_count_deletes_items() {
    let mut array = Array::<u32>::new();
    for value in vec![10, 20, 30, 40] {
        array.push(value).expect("small alloc");
    }
    array.mut_capacity(Count::of(2)).expect("shrinking");
    assert_eq!(array.count(), Count::of(2));
    assert_eq!(array.capacity(), Count::of(2));
    assert_eq!(array.as_slice(), vec![10, 20]);
}

#[test]
fn set_replaces_live_elements() {
    let mut array = Array::<u32>::new();
    for value in vec![1, 2, 3] {
        array.push(value).expect("small alloc");
    }
    array.set(1, 20);
    assert_eq!(array.as_slice(), vec![1, 20, 3]);
    assert_eq!(array.count(), Count::of(3));
}
