//! The nonce allocator: contiguity and the wrap guard.

use tesseract::nonce::NonceProvider;

#[test]
fn nonces_form_a_contiguous_range_from_the_initial_value() {
    let mut allocator = NonceProvider::new(5);
    let mut values = Vec::new();
    for _ in 0..4 {
        values.push(allocator.get_nonce().unwrap());
    }
    assert_eq!(values, vec![5, 6, 7, 8]);
}

#[test]
fn near_max_initial_value_hits_the_fatal_wrap_guard() {
    let mut allocator = NonceProvider::new(u64::MAX - 2);
    assert_eq!(allocator.get_nonce().unwrap(), u64::MAX - 2);
    assert_eq!(allocator.get_nonce().unwrap(), u64::MAX - 1);
    assert!(allocator.get_nonce().is_err());
    // the failure is sticky: the allocator never wraps
    assert!(allocator.get_nonce().is_err());
}
