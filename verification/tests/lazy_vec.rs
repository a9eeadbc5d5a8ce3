use lazy_vec::LazyVec;
use lazy_vec::LazyVecError;

#[test]
fn test_miss_off_end() {
    let mut a: LazyVec<i8> = LazyVec::new();
    a.write(77, -12i8);
    assert_eq!(a.read(100000), Err(LazyVecError::OutOfRange));
}

#[test]
fn test_miss_uninit() {
    let mut a: LazyVec<i8> = LazyVec::new();
    a.write(77, -12i8);
    assert_eq!(a.read(76), Err(LazyVecError::UninitializedSlot));
}

#[test]
fn test_new_is_empty() {
    let a: LazyVec<u32> = LazyVec::new();
    assert_eq!(a.len(), 0);
    assert_eq!(a.cap(), 0);
    assert_eq!(a.slot_count(), 0);
    assert_eq!(a.read(0), Err(LazyVecError::OutOfRange));
}

#[test]
fn test_write_then_read() {
    let mut a: LazyVec<i8> = LazyVec::new();
    a.write(77, -12i8);
    assert_eq!(a.read(77), Ok(-12i8));
}

#[test]
fn test_read_one_past_written() {
    let mut a: LazyVec<i8> = LazyVec::new();
    a.write(77, -12i8);
    assert_eq!(a.read(78), Err(LazyVecError::OutOfRange));
}

#[test]
fn test_read_skipped_index() {
    let mut a: LazyVec<i8> = LazyVec::new();
    a.write(77, -12i8);
    assert_eq!(a.read(76), Err(LazyVecError::UninitializedSlot));
    assert_eq!(a.read(0), Err(LazyVecError::UninitializedSlot));
}

#[test]
fn test_rewrite_updates_in_place() {
    let mut a: LazyVec<char> = LazyVec::new();
    a.write(5, 'a');
    a.write(5, 'b');
    assert_eq!(a.read(5), Ok('b'));
    assert_eq!(a.slot_count(), 1);
}

#[test]
fn test_with_capacity_implies_no_initialization() {
    let a: LazyVec<u64> = LazyVec::with_capacity(1000);
    assert_eq!(a.len(), 0);
    assert!(a.cap() >= 1000);
    assert_eq!(a.read(0), Err(LazyVecError::OutOfRange));
}

#[test]
fn test_len_is_max_of_old_len_and_index_plus_one() {
    let mut a: LazyVec<u32> = LazyVec::new();
    assert_eq!(a.len(), 0);
    a.write(10, 1);
    assert_eq!(a.len(), 11);
    a.write(3, 2);
    assert_eq!(a.len(), 11);
    a.write(20, 3);
    assert_eq!(a.len(), 21);
    a.write(20, 4);
    assert_eq!(a.len(), 21);
}

#[test]
fn test_cap_monotone_and_bounds_len() {
    let mut a: LazyVec<u32> = LazyVec::new();
    let mut last_cap = a.cap();
    assert!(last_cap >= a.len());
    let writes: [usize; 7] = [0, 9, 2, 100, 50, 100, 3];
    for (k, &i) in writes.iter().enumerate() {
        a.write(i, k as u32);
        assert!(a.cap() >= last_cap);
        assert!(a.cap() >= a.len());
        last_cap = a.cap();
    }
}

#[test]
fn test_last_write_wins_over_a_sequence() {
    let mut a: LazyVec<i64> = LazyVec::new();
    a.write(4, 40);
    a.write(0, 1);
    a.write(9, 90);
    a.write(4, 41);
    a.write(0, 2);
    assert_eq!(a.read(0), Ok(2));
    assert_eq!(a.read(4), Ok(41));
    assert_eq!(a.read(9), Ok(90));
}

#[test]
fn test_slot_count_tracks_distinct_indices() {
    let mut a: LazyVec<u8> = LazyVec::new();
    a.write(8, 0);
    a.write(1, 1);
    a.write(8, 2);
    a.write(1, 3);
    a.write(300, 4);
    assert_eq!(a.slot_count(), 3);
    assert_eq!(a.len(), 301);
}

#[test]
fn test_try_write_reports_capacity_overflow() {
    let mut a: LazyVec<u8> = LazyVec::new();
    assert_eq!(a.try_write(usize::MAX, 1), Err(LazyVecError::CapacityOverflow));
    assert_eq!(a.len(), 0);
    assert_eq!(a.cap(), 0);
    assert_eq!(a.try_write(3, 7), Ok(()));
    assert_eq!(a.read(3), Ok(7));
}

#[test]
fn test_value_ref_borrows_written_value() {
    let mut a: LazyVec<i8> = LazyVec::new();
    a.write(77, -12i8);
    assert_eq!(*a.value_ref(77), -12i8);
    a.write(77, 5i8);
    assert_eq!(*a.value_ref(77), 5i8);
}
