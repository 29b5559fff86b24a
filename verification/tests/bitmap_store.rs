use bloomfilter::bitmap::Bitmap;

#[test]
fn new_bitmap_is_all_zero() {
    let store = Bitmap::new(70);
    assert_eq!(store.len(), 70);
    for index in 0..70usize {
        assert_eq!(store.get_bit(index), false);
    }
}

#[test]
fn set_bit_sets_one_bit() {
    let mut store = Bitmap::new(70);
    store.set_bit(33);
    for index in 0..70usize {
        assert_eq!(store.get_bit(index), index == 33);
    }
    assert_eq!(store.len(), 70);
}

#[test]
fn set_bit_is_idempotent() {
    let mut store = Bitmap::new(9);
    store.set_bit(0);
    store.set_bit(0);
    store.set_bit(8);
    for index in 0..9usize {
        assert_eq!(store.get_bit(index), index == 0 || index == 8);
    }
}

#[test]
fn clear_all_resets_and_keeps_length() {
    let mut store = Bitmap::new(40);
    store.set_bit(3);
    store.set_bit(39);
    store.clear_all();
    assert_eq!(store.len(), 40);
    for index in 0..40usize {
        assert_eq!(store.get_bit(index), false);
    }
}

#[test]
fn bitmap_of_no_bits_is_empty() {
    let mut store = Bitmap::new(0);
    assert_eq!(store.len(), 0);
    store.clear_all();
    assert_eq!(store.len(), 0);
}
