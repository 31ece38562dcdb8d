//! Keys and buffers for secret material: constant-time comparison and
//! zeroization.

use vstd::prelude::*;
use crate::random::fill_random;
use crate::security::constant_time::ConstantTime;

verus! {

/// Overwrites every byte of `data` with zero.
///
/// Trusted: calls `zeroize::Zeroize::zeroize` on the slice. The crate's source
/// writes `u8::default()`, which is zero, to each element with volatile
/// writes, and keeps the length; its assertion that the length fits in
/// `isize` holds of every slice Rust can make.
#[verifier::external_body]
fn zeroize_bytes(data: &mut [u8])
    ensures
        final(data)@ == Seq::new(old(data)@.len(), |i: int| 0u8),
{
    zeroize::Zeroize::zeroize(data)
}

/// A vector held in the zeroizing wrapper of the `zeroize` crate, which
/// overwrites it with zeros when it is dropped.
#[verifier::external_body]
pub struct ZeroizingBytes {
    inner: zeroize::Zeroizing<Vec<u8>>,
}

/// The bytes held by a zeroizing vector.
pub uninterp spec fn zeroizing_bytes(z: ZeroizingBytes) -> Seq<u8>;

/// Wraps a vector so that it is zeroized when dropped.
///
/// Trusted: calls `zeroize::Zeroizing::new`, which the crate's source shows
/// storing the vector as it is.
#[verifier::external_body]
fn zeroizing_new(v: Vec<u8>) -> (z: ZeroizingBytes)
    ensures
        zeroizing_bytes(z) == v@,
{
    ZeroizingBytes { inner: zeroize::Zeroizing::new(v) }
}

/// The vector inside a zeroizing wrapper.
///
/// Trusted: calls `Deref::deref` of `zeroize::Zeroizing`, which the crate's
/// source shows returning a reference to the stored value.
#[verifier::external_body]
fn zeroizing_vec(z: &ZeroizingBytes) -> (r: &Vec<u8>)
    ensures
        r@ == zeroizing_bytes(*z),
{
    std::ops::Deref::deref(&z.inner)
}

/// The vector inside a zeroizing wrapper, for changes.
///
/// Trusted: calls `DerefMut::deref_mut` of `zeroize::Zeroizing`, which the
/// crate's source shows returning a mutable reference to the stored value.
#[verifier::external_body]
fn zeroizing_vec_mut(z: &mut ZeroizingBytes) -> (r: &mut Vec<u8>)
    ensures
        r@ == zeroizing_bytes(*old(z)),
        zeroizing_bytes(*final(z)) == final(r)@,
{
    std::ops::DerefMut::deref_mut(&mut z.inner)
}

/// A buffer of secret bytes that is zeroized when dropped.
pub struct SecureBuffer {
    data: ZeroizingBytes,
}

impl SecureBuffer {
    /// The bytes held.
    pub closed spec fn bytes(&self) -> Seq<u8> {
        zeroizing_bytes(self.data)
    }

    /// An empty buffer with room for `capacity` bytes.
    pub fn with_capacity(capacity: usize) -> (r: Self)
        ensures
            r.bytes() == Seq::<u8>::empty(),
    {
        Self { data: zeroizing_new(Vec::with_capacity(capacity)) }
    }

    /// A buffer holding `data`.
    pub fn from_vec(data: Vec<u8>) -> (r: Self)
        ensures
            r.bytes() == data@,
    {
        Self { data: zeroizing_new(data) }
    }

    /// A buffer holding a copy of `data`.
    pub fn from_slice(data: &[u8]) -> (r: Self)
        ensures
            r.bytes() == data@,
    {
        Self { data: zeroizing_new(vstd::slice::slice_to_vec(data)) }
    }

    /// The number of bytes held.
    pub fn len(&self) -> (r: usize)
        ensures
            r == self.bytes().len(),
    {
        zeroizing_vec(&self.data).len()
    }

    /// Whether the buffer holds no bytes.
    pub fn is_empty(&self) -> (r: bool)
        ensures
            r == (self.bytes().len() == 0),
    {
        zeroizing_vec(&self.data).len() == 0
    }

    /// The bytes held.
    pub fn as_slice(&self) -> (r: &[u8])
        ensures
            r@ == self.bytes(),
    {
        zeroizing_vec(&self.data).as_slice()
    }

    /// The bytes held, for changes in place.
    pub fn as_mut_slice(&mut self) -> (r: &mut [u8])
        ensures
            r@ == old(self).bytes(),
            final(self).bytes() == final(r)@,
    {
        zeroizing_vec_mut(&mut self.data).as_mut_slice()
    }

    /// Append a copy of `data`.
    pub fn extend_from_slice(&mut self, data: &[u8])
        ensures
            final(self).bytes() == old(self).bytes() + data@,
    {
        let v = zeroizing_vec_mut(&mut self.data);
        v.extend_from_slice(data);
        assert(final(v)@ =~= old(self).bytes() + data@);
    }

    /// Remove every byte.
    pub fn clear(&mut self)
        ensures
            final(self).bytes() == Seq::<u8>::empty(),
    {
        zeroizing_vec_mut(&mut self.data).clear();
    }

    /// Shorten the buffer to `new_len` bytes, or lengthen it with zeros.
    pub fn resize(&mut self, new_len: usize)
        ensures
            final(self).bytes().len() == new_len,
            forall|i: int| 0 <= i < new_len ==> #[trigger] final(self).bytes()[i] == if i < old(self).bytes().len() {
                old(self).bytes()[i]
            } else {
                0u8
            },
    {
        let v = zeroizing_vec_mut(&mut self.data);
        v.resize(new_len, 0u8);
    }

    /// A copy of the bytes held.
    pub fn into_vec(self) -> (r: Vec<u8>)
        ensures
            r@ == self.bytes(),
    {
        vstd::slice::slice_to_vec(zeroizing_vec(&self.data).as_slice())
    }
}

impl Clone for SecureBuffer {
    fn clone(&self) -> (r: Self)
        ensures
            r.bytes() == self.bytes(),
    {
        Self::from_slice(self.as_slice())
    }
}

/// A cryptographic key of `N` bytes.
pub struct SecureKey<const N: usize> {
    key: [u8; N],
}

impl<const N: usize> Clone for SecureKey<N> {
    fn clone(&self) -> (r: Self)
        ensures
            r.bytes() == self.bytes(),
    {
        Self { key: self.key }
    }
}

impl<const N: usize> SecureKey<N> {
    /// The key bytes.
    pub closed spec fn bytes(&self) -> Seq<u8> {
        self.key@
    }

    /// A key holding the given bytes.
    pub fn new(key: [u8; N]) -> (r: Self)
        ensures
            r.bytes() == key@,
    {
        Self { key }
    }

    /// A key holding a copy of `slice`, if it has exactly `N` bytes.
    pub fn from_slice(slice: &[u8]) -> (r: Option<Self>)
        ensures
            match r {
                Some(k) => slice@.len() == N && k.bytes() == slice@,
                None => slice@.len() != N,
            },
    {
        if slice.len() != N {
            return None;
        }
        let mut key = [0u8; N];
        let mut i: usize = 0;
        while i < N
            invariant
                slice@.len() == N,
                i <= N,
                key@.len() == N,
                forall|j: int| 0 <= j < i ==> key@[j] == slice@[j],
            decreases N - i,
        {
            key[i] = slice[i];
            i = i + 1;
        }
        assert(key@ =~= slice@);
        Some(Self { key })
    }

    /// The key bytes.
    pub fn as_bytes(&self) -> (r: &[u8; N])
        ensures
            r@ == self.bytes(),
    {
        &self.key
    }

    /// The key bytes, for changes.
    pub fn as_bytes_mut(&mut self) -> (r: &mut [u8; N])
        ensures
            r@ == old(self).bytes(),
            final(self).bytes() == final(r)@,
    {
        &mut self.key
    }

    /// Overwrite the key with zeros.
    pub fn zeroize_key(&mut self)
        ensures
            final(self).bytes() == Seq::new(N as nat, |i: int| 0u8),
    {
        zeroize_bytes(&mut self.key);
    }
}

/// Secure memory utilities for cryptographic operations.
pub struct SecureMemory;

impl SecureMemory {
    /// Whether two byte strings are equal, compared in constant time.
    pub fn constant_time_compare(a: &[u8], b: &[u8]) -> (r: bool)
        ensures
            r == (a@ == b@),
    {
        ConstantTime::compare(a, b)
    }

    /// Copy `src` into `dst`, byte by byte; both must have the same length.
    pub fn secure_copy(src: &[u8], dst: &mut [u8])
        requires
            src@.len() == old(dst)@.len(),
        ensures
            final(dst)@ == src@,
    {
        let mut i: usize = 0;
        while i < src.len()
            invariant
                i <= src@.len(),
                dst@.len() == src@.len(),
                forall|j: int| 0 <= j < i ==> dst@[j] == src@[j],
            decreases src@.len() - i,
        {
            dst[i] = src[i];
            i = i + 1;
        }
        assert(dst@ =~= src@);
    }

    /// Overwrite every byte of `data` with zero.
    pub fn secure_zeroize(data: &mut [u8])
        ensures
            final(data)@ == Seq::new(old(data)@.len(), |i: int| 0u8),
    {
        zeroize_bytes(data);
    }

    /// A buffer of `size` random bytes from the operating system's generator.
    pub fn random_buffer(size: usize) -> (r: SecureBuffer)
        ensures
            r.bytes().len() == size,
    {
        let mut buffer: Vec<u8> = vec![0u8; size];
        fill_random(buffer.as_mut_slice());
        SecureBuffer::from_vec(buffer)
    }

    /// A key of `N` random bytes from the operating system's generator.
    pub fn random_key<const N: usize>() -> (r: SecureKey<N>)
        ensures
            r.bytes().len() == N,
    {
        let mut key = [0u8; N];
        fill_random(&mut key);
        SecureKey::new(key)
    }
}

} // verus!
