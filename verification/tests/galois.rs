use qrforge::galois::{lookup, multiply, reverse_lookup};

#[test]
fn antilog_of_log_is_identity() {
    for a in 1..=255u8 {
        assert_eq!(reverse_lookup(lookup(a)), a);
    }
}

#[test]
fn log_of_antilog_is_identity() {
    for i in 0..255u8 {
        assert_eq!(lookup(reverse_lookup(i)), i);
    }
}

#[test]
fn powers_of_alpha_start_as_powers_of_two() {
    assert_eq!(reverse_lookup(0), 1);
    assert_eq!(reverse_lookup(1), 2);
    assert_eq!(reverse_lookup(7), 128);
    assert_eq!(reverse_lookup(8), 29);
    assert_eq!(reverse_lookup(255), 1);
}

#[test]
fn multiply_by_one_and_zero() {
    for a in 0..=255u8 {
        assert_eq!(multiply(a, 1), a);
        assert_eq!(multiply(1, a), a);
        assert_eq!(multiply(a, 0), 0);
        assert_eq!(multiply(0, a), 0);
    }
}

#[test]
fn multiply_known_products() {
    assert_eq!(multiply(2, 128), 29);
    assert_eq!(multiply(3, 3), 5);
    assert_eq!(multiply(16, 32), 58);
}
