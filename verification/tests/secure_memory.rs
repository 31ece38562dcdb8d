use kizuna::security::secure_memory::{SecureBuffer, SecureKey, SecureMemory};

#[test]
fn test_secure_buffer_basic() {
    let mut buffer = SecureBuffer::from_slice(b"sensitive data");
    assert_eq!(buffer.len(), 14);
    assert_eq!(buffer.as_slice(), b"sensitive data");

    buffer.clear();
    assert_eq!(buffer.len(), 0);
}

#[test]
fn test_secure_buffer_extend() {
    let mut buffer = SecureBuffer::with_capacity(10);
    buffer.extend_from_slice(b"hello");
    buffer.extend_from_slice(b" world");
    assert_eq!(buffer.as_slice(), b"hello world");
}

#[test]
fn test_secure_key() {
    let key = SecureKey::<32>::new([42u8; 32]);
    assert_eq!(key.as_bytes(), &[42u8; 32]);

    let key_from_slice = SecureKey::<32>::from_slice(&[1u8; 32]).unwrap();
    assert_eq!(key_from_slice.as_bytes(), &[1u8; 32]);

    // Wrong size should return None
    assert!(SecureKey::<32>::from_slice(&[1u8; 16]).is_none());
}

#[test]
fn secure_memory_test_constant_time_compare() {
    let a = b"secret key";
    let b = b"secret key";
    let c = b"public key";

    assert!(SecureMemory::constant_time_compare(a, b));
    assert!(!SecureMemory::constant_time_compare(a, c));
    assert!(!SecureMemory::constant_time_compare(a, b"short"));
}

#[test]
fn test_secure_copy() {
    let src = b"sensitive";
    let mut dst = [0u8; 9];

    SecureMemory::secure_copy(src, &mut dst);
    assert_eq!(&dst, src);
}

#[test]
fn test_random_buffer() {
    let buffer1 = SecureMemory::random_buffer(32);
    let buffer2 = SecureMemory::random_buffer(32);

    assert_eq!(buffer1.len(), 32);
    assert_eq!(buffer2.len(), 32);
    // Random buffers should be different
    assert_ne!(buffer1.as_slice(), buffer2.as_slice());
}

#[test]
fn test_random_key() {
    let key1 = SecureMemory::random_key::<32>();
    let key2 = SecureMemory::random_key::<32>();

    // Random keys should be different
    assert_ne!(key1.as_bytes(), key2.as_bytes());
}

#[test]
fn test_secure_zeroize() {
    let mut data = vec![1u8, 2, 3, 4, 5];
    SecureMemory::secure_zeroize(&mut data);
    assert_eq!(data, vec![0u8, 0, 0, 0, 0]);
}

#[test]
fn buffer_resize_pads_with_zeros_and_truncates() {
    let mut buffer = SecureBuffer::from_vec(vec![7, 8, 9]);
    buffer.resize(5);
    assert_eq!(buffer.as_slice(), &[7, 8, 9, 0, 0]);
    buffer.resize(1);
    assert_eq!(buffer.as_slice(), &[7]);
    assert!(!buffer.is_empty());
    buffer.as_mut_slice()[0] = 1;
    let copy = buffer.clone();
    assert_eq!(copy.into_vec(), vec![1]);
}

#[test]
fn key_can_be_zeroized_and_edited() {
    let mut key = SecureKey::<4>::new([1, 2, 3, 4]);
    key.as_bytes_mut()[0] = 9;
    assert_eq!(key.as_bytes(), &[9, 2, 3, 4]);
    let copy = key.clone();
    key.zeroize_key();
    assert_eq!(key.as_bytes(), &[0, 0, 0, 0]);
    assert_eq!(copy.as_bytes(), &[9, 2, 3, 4]);
}

#[test]
fn zeroize_of_an_empty_slice_is_harmless() {
    let mut empty: Vec<u8> = Vec::new();
    SecureMemory::secure_zeroize(&mut empty);
    assert!(empty.is_empty());
    assert_eq!(SecureMemory::random_buffer(0).len(), 0);
}
