use kizuna::security::constant_time::{ConstantTime, ConstantTimeEq};

#[test]
fn constant_time_test_constant_time_compare() {
    let a = b"secret key";
    let b = b"secret key";
    let c = b"public key";

    assert!(ConstantTime::compare(a, b));
    assert!(!ConstantTime::compare(a, c));

    // Different lengths
    assert!(!ConstantTime::compare(a, b"short"));
}

#[test]
fn test_compare_32() {
    let a = [42u8; 32];
    let b = [42u8; 32];
    let mut c = [42u8; 32];
    c[31] = 43;

    assert!(ConstantTime::compare_32(&a, &b));
    assert!(!ConstantTime::compare_32(&a, &c));
}

#[test]
fn test_compare_64() {
    let a = [17u8; 64];
    let b = [17u8; 64];
    let mut c = [17u8; 64];
    c[0] = 18;

    assert!(ConstantTime::compare_64(&a, &b));
    assert!(!ConstantTime::compare_64(&a, &c));
}

#[test]
fn test_select_u8() {
    let a = 42u8;
    let b = 17u8;

    assert_eq!(ConstantTime::select_u8(true, a, b), a);
    assert_eq!(ConstantTime::select_u8(false, a, b), b);
}

#[test]
fn test_select_u32() {
    let a = 12345u32;
    let b = 67890u32;

    assert_eq!(ConstantTime::select_u32(true, a, b), a);
    assert_eq!(ConstantTime::select_u32(false, a, b), b);
}

#[test]
fn test_select_u64() {
    let a = 123456789u64;
    let b = 987654321u64;

    assert_eq!(ConstantTime::select_u64(true, a, b), a);
    assert_eq!(ConstantTime::select_u64(false, a, b), b);
}

#[test]
fn test_is_zero() {
    assert!(ConstantTime::is_zero(&[0u8; 32]));
    assert!(!ConstantTime::is_zero(&[0, 0, 0, 1]));
    assert!(!ConstantTime::is_zero(&[1, 0, 0, 0]));
}

#[test]
fn test_constant_time_copy() {
    let src = b"sensitive data";
    let mut dst = [0u8; 14];

    ConstantTime::copy(src, &mut dst);
    assert_eq!(&dst, src);
}

#[test]
fn test_conditional_copy() {
    let src = b"new data";
    let mut dst = *b"old data";

    // Copy when condition is true
    ConstantTime::conditional_copy(true, src, &mut dst);
    assert_eq!(&dst, src);

    // Don't copy when condition is false
    let original = dst;
    ConstantTime::conditional_copy(false, b"ignored!", &mut dst);
    assert_eq!(&dst, &original);
}

#[test]
fn test_less_than_u32() {
    assert!(ConstantTime::less_than_u32(10, 20));
    assert!(!ConstantTime::less_than_u32(20, 10));
    assert!(!ConstantTime::less_than_u32(15, 15));
}

#[test]
fn test_less_than_u64() {
    assert!(ConstantTime::less_than_u64(100, 200));
    assert!(!ConstantTime::less_than_u64(200, 100));
    assert!(!ConstantTime::less_than_u64(150, 150));
}

#[test]
fn test_equal_u32() {
    assert!(ConstantTime::equal_u32(42, 42));
    assert!(!ConstantTime::equal_u32(42, 43));
}

#[test]
fn test_equal_u64() {
    assert!(ConstantTime::equal_u64(12345, 12345));
    assert!(!ConstantTime::equal_u64(12345, 12346));
}

#[test]
fn test_constant_time_eq_trait() {
    let a = [1u8; 32];
    let b = [1u8; 32];
    let c = [2u8; 32];

    assert!(a.ct_eq(&b));
    assert!(!a.ct_eq(&c));
}

#[test]
fn less_than_holds_across_the_full_range() {
    assert!(ConstantTime::less_than_u32(0, u32::MAX));
    assert!(!ConstantTime::less_than_u32(u32::MAX, 0));
    assert!(ConstantTime::less_than_u64(u64::MAX - 1, u64::MAX));
    assert!(!ConstantTime::less_than_u64(u64::MAX, u64::MAX));
}

#[test]
fn compare_of_empty_slices_is_true() {
    let empty: [u8; 0] = [];
    assert!(ConstantTime::compare(&empty, &empty));
    assert!(ConstantTime::is_zero(&empty));
}

#[test]
fn ct_eq_on_vectors_and_slices() {
    let a: Vec<u8> = vec![1, 2, 3];
    let b: Vec<u8> = vec![1, 2, 3];
    let c: Vec<u8> = vec![1, 2];
    assert!(a.ct_eq(&b));
    assert!(!a.ct_eq(&c));
    let s1: &[u8] = &[9, 9];
    let s2: &[u8] = &[9, 8];
    assert!(!s1.ct_eq(&s2));
}
