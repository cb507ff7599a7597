use chip8::utils::{
    addition_with_overflow, concat_bytes, get_first_n_nibbles, get_nth_nibble, split_bytes,
    subtract_with_overflow, to_binary_encoded_decimal, vec_compare,
};

#[test]
fn test_to_binary_encoded_decimal() {
    let val = 123;

    let res = to_binary_encoded_decimal(val, 3);
    let expect: Vec<u8> = vec![1, 2, 3];
    assert!(vec_compare(&res, &expect));

    let res = to_binary_encoded_decimal(val, 5);
    let expect: Vec<u8> = vec![0, 0, 1, 2, 3];
    assert!(vec_compare(&res, &expect));

    let res = to_binary_encoded_decimal(val, 2);
    let expect: Vec<u8> = vec![2, 3];
    assert!(vec_compare(&res, &expect));
}

#[test]
fn test_split_bytes() {
    let b: u16 = 0x1A2C;

    let res = split_bytes(b);

    assert_eq!(res.0, 0x1A);
    assert_eq!(res.1, 0x2C);
}

#[test]
fn decimal_expansion_edges() {
    assert_eq!(to_binary_encoded_decimal(0, 3), vec![0, 0, 0]);
    assert_eq!(to_binary_encoded_decimal(255, 3), vec![2, 5, 5]);
    assert_eq!(to_binary_encoded_decimal(7, 1), vec![7]);
    assert_eq!(to_binary_encoded_decimal(42, 0), Vec::<u8>::new());
}

#[test]
fn vec_compare_cases() {
    assert!(vec_compare(&[], &[]));
    assert!(vec_compare(&[1, 2], &[1, 2]));
    assert!(!vec_compare(&[1, 2], &[1, 3]));
    assert!(!vec_compare(&[1, 2], &[1, 2, 3]));
}

#[test]
fn nibbles_of_a_word() {
    assert_eq!(get_nth_nibble(0x1A2C, 0), 0xC);
    assert_eq!(get_nth_nibble(0x1A2C, 1), 0x2);
    assert_eq!(get_nth_nibble(0x1A2C, 2), 0xA);
    assert_eq!(get_nth_nibble(0x1A2C, 3), 0x1);
}

#[test]
fn low_nibbles_of_a_word() {
    assert_eq!(get_first_n_nibbles(0x1A2C, 0), 0);
    assert_eq!(get_first_n_nibbles(0x1A2C, 1), 0xC);
    assert_eq!(get_first_n_nibbles(0x1A2C, 2), 0x2C);
    assert_eq!(get_first_n_nibbles(0x1A2C, 3), 0xA2C);
    assert_eq!(get_first_n_nibbles(0x1A2C, 4), 0x1A2C);
}

#[test]
fn concat_and_split_agree() {
    assert_eq!(concat_bytes(0x1A, 0x2C), 0x1A2C);
    assert_eq!(concat_bytes(0xFF, 0x00), 0xFF00);
    let (hi, lo) = split_bytes(0xBEEF);
    assert_eq!(concat_bytes(hi, lo), 0xBEEF);
}

#[test]
fn addition_wraps_and_flags() {
    let r = addition_with_overflow(200, 100);
    assert_eq!(r.val, 44);
    assert!(r.overflowed);
    let r = addition_with_overflow(200, 55);
    assert_eq!(r.val, 255);
    assert!(!r.overflowed);
    let r = addition_with_overflow(255, 255);
    assert_eq!(r.val, 254);
    assert!(r.overflowed);
    let r = addition_with_overflow(0, 0);
    assert_eq!(r.val, 0);
    assert!(!r.overflowed);
}

#[test]
fn subtraction_wraps_and_flags() {
    let r = subtract_with_overflow(5, 3);
    assert_eq!(r.val, 2);
    assert!(!r.overflowed);
    let r = subtract_with_overflow(3, 5);
    assert_eq!(r.val, 254);
    assert!(r.overflowed);
    let r = subtract_with_overflow(7, 7);
    assert_eq!(r.val, 0);
    assert!(!r.overflowed);
    let r = subtract_with_overflow(0, 255);
    assert_eq!(r.val, 1);
    assert!(r.overflowed);
}
