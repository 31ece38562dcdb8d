//! Constant-time operations that do not branch on secret data.

use vstd::prelude::*;

verus! {

/// Byte-wise equality of two sequences, which is what every comparison here decides.
pub open spec fn bytes_equal(a: Seq<u8>, b: Seq<u8>) -> bool {
    a == b
}

/// Constant-time operations for cryptographic security.
pub struct ConstantTime;

impl ConstantTime {
    /// Compare two byte slices in constant time.
    ///
    /// Returns true exactly when both slices hold the same bytes; slices of
    /// different lengths are unequal.
    pub fn compare(a: &[u8], b: &[u8]) -> (r: bool)
        ensures
            r == (a@ == b@),
    {
        if a.len() != b.len() {
            // Still perform a full fixed-size comparison so the timing does not
            // reveal where the mismatch was found.
            let x = [0u8; 32];
            let y = [1u8; 32];
            let r = Self::compare_fixed_length(x.as_slice(), y.as_slice());
            proof {
                assert(x@[0] != y@[0]);
            }
            return r;
        }
        Self::compare_fixed_length(a, b)
    }

    /// Compare two byte slices of the same length by folding all byte differences.
    fn compare_fixed_length(a: &[u8], b: &[u8]) -> (r: bool)
        requires
            a@.len() == b@.len(),
        ensures
            r == (a@ == b@),
    {
        let mut acc: u8 = 0;
        let n = a.len();
        let mut i: usize = 0;
        while i < n
            invariant
                n == a@.len(),
                n == b@.len(),
                i <= n,
                acc == 0 <==> (forall|j: int| 0 <= j < i ==> a@[j] == b@[j]),
            decreases n - i,
        {
            let x = a[i];
            let y = b[i];
            let next = acc | (x ^ y);
            assert(next == 0 <==> (acc == 0 && x == y)) by (bit_vector)
                requires
                    next == acc | (x ^ y),
            ;
            acc = next;
            i = i + 1;
        }
        let r = Self::is_zero_u8(acc);
        proof {
            if r {
                assert(a@ =~= b@);
            }
        }
        r
    }

    /// Check if a `u8` is zero without branching on it.
    fn is_zero_u8(value: u8) -> (r: bool)
        ensures
            r == (value == 0),
    {
        let s: u32 = (value as u32) + 0xFF;
        let t: u32 = s >> 8u32;
        assert(t == (if value == 0 { 0u32 } else { 1u32 })) by (bit_vector)
            requires
                s == (value as u32) + 0xFF,
                t == s >> 8u32,
        ;
        t == 0
    }

    /// Select between two `u8` values in constant time: `a` when `condition` holds, else `b`.
    pub fn select_u8(condition: bool, a: u8, b: u8) -> (r: u8)
        ensures
            r == (if condition { a } else { b }),
    {
        let c: u8 = condition as u8;
        let mask: u8 = 0u8.wrapping_sub(c);
        let r = (a & mask) | (b & !mask);
        if condition {
            assert(mask == 0xFFu8);
            assert((a & 0xFFu8) | (b & !0xFFu8) == a) by (bit_vector);
        } else {
            assert(mask == 0u8);
            assert((a & 0u8) | (b & !0u8) == b) by (bit_vector);
        }
        r
    }

    /// Select between two `u32` values in constant time.
    pub fn select_u32(condition: bool, a: u32, b: u32) -> (r: u32)
        ensures
            r == (if condition { a } else { b }),
    {
        let c: u32 = condition as u32;
        let mask: u32 = 0u32.wrapping_sub(c);
        let r = (a & mask) | (b & !mask);
        if condition {
            assert(mask == 0xFFFF_FFFFu32);
            assert((a & 0xFFFF_FFFFu32) | (b & !0xFFFF_FFFFu32) == a) by (bit_vector);
        } else {
            assert(mask == 0u32);
            assert((a & 0u32) | (b & !0u32) == b) by (bit_vector);
        }
        r
    }

    /// Select between two `u64` values in constant time.
    pub fn select_u64(condition: bool, a: u64, b: u64) -> (r: u64)
        ensures
            r == (if condition { a } else { b }),
    {
        let c: u64 = condition as u64;
        let mask: u64 = 0u64.wrapping_sub(c);
        let r = (a & mask) | (b & !mask);
        if condition {
            assert(mask == 0xFFFF_FFFF_FFFF_FFFFu64);
            assert((a & 0xFFFF_FFFF_FFFF_FFFFu64) | (b & !0xFFFF_FFFF_FFFF_FFFFu64) == a)
                by (bit_vector);
        } else {
            assert(mask == 0u64);
            assert((a & 0u64) | (b & !0u64) == b) by (bit_vector);
        }
        r
    }

    /// Copy `src` into `dst`, byte by byte; both must have the same length.
    pub fn copy(src: &[u8], dst: &mut [u8])
        requires
            src@.len() == old(dst)@.len(),
        ensures
            final(dst)@ == src@,
    {
        let n = src.len();
        let mut i: usize = 0;
        while i < n
            invariant
                n == src@.len(),
                n == dst@.len(),
                i <= n,
                forall|j: int| 0 <= j < i ==> dst@[j] == src@[j],
            decreases n - i,
        {
            dst[i] = src[i];
            i = i + 1;
        }
        proof {
            assert(dst@ =~= src@);
        }
    }

    /// Conditionally copy `src` into `dst` in constant time.
    ///
    /// When `condition` holds `dst` ends up equal to `src`, otherwise it is unchanged.
    pub fn conditional_copy(condition: bool, src: &[u8], dst: &mut [u8])
        requires
            src@.len() == old(dst)@.len(),
        ensures
            final(dst)@ == (if condition { src@ } else { old(dst)@ }),
    {
        let n = src.len();
        let mut i: usize = 0;
        while i < n
            invariant
                n == src@.len(),
                n == dst@.len(),
                i <= n,
                forall|j: int| 0 <= j < i ==> dst@[j] == (if condition { src@[j] } else { old(dst)@[j] }),
                forall|j: int| i <= j < n ==> dst@[j] == old(dst)@[j],
            decreases n - i,
        {
            let v = Self::select_u8(condition, src[i], dst[i]);
            dst[i] = v;
            i = i + 1;
        }
        proof {
            if condition {
                assert(dst@ =~= src@);
            } else {
                assert(dst@ =~= old(dst)@);
            }
        }
    }

    /// Check if a byte slice is all zeros in constant time.
    pub fn is_zero(data: &[u8]) -> (r: bool)
        ensures
            r == (forall|j: int| 0 <= j < data@.len() ==> data@[j] == 0),
    {
        let mut acc: u8 = 0;
        let n = data.len();
        let mut i: usize = 0;
        while i < n
            invariant
                n == data@.len(),
                i <= n,
                acc == 0 <==> (forall|j: int| 0 <= j < i ==> data@[j] == 0),
            decreases n - i,
        {
            let x = data[i];
            let next = acc | x;
            assert(next == 0 <==> (acc == 0 && x == 0)) by (bit_vector)
                requires
                    next == acc | x,
            ;
            acc = next;
            i = i + 1;
        }
        Self::is_zero_u8(acc)
    }

    /// Compare two 32-byte arrays in constant time.
    pub fn compare_32(a: &[u8; 32], b: &[u8; 32]) -> (r: bool)
        ensures
            r == (a@ == b@),
    {
        Self::compare_fixed_length(a.as_slice(), b.as_slice())
    }

    /// Compare two 64-byte arrays in constant time.
    pub fn compare_64(a: &[u8; 64], b: &[u8; 64]) -> (r: bool)
        ensures
            r == (a@ == b@),
    {
        Self::compare_fixed_length(a.as_slice(), b.as_slice())
    }

    /// Constant-time less-than comparison for `u32`: true exactly when `a < b`.
    pub fn less_than_u32(a: u32, b: u32) -> (r: bool)
        ensures
            r == (a < b),
    {
        // Subtract in a wider type; the borrow shows up in the top bit.
        let diff: u64 = (a as u64).wrapping_sub(b as u64);
        let sign: u64 = (diff >> 63u64) & 1u64;
        assert(sign == 1 <==> diff >= 0x8000_0000_0000_0000u64) by (bit_vector)
            requires
                sign == (diff >> 63u64) & 1u64,
        ;
        sign == 1
    }

    /// Constant-time less-than comparison for `u64`: true exactly when `a < b`.
    pub fn less_than_u64(a: u64, b: u64) -> (r: bool)
        ensures
            r == (a < b),
    {
        let diff: u128 = (a as u128).wrapping_sub(b as u128);
        let sign: u128 = (diff >> 127u128) & 1u128;
        assert(sign == 1 <==> diff >= 0x8000_0000_0000_0000_0000_0000_0000_0000u128) by (bit_vector)
            requires
                sign == (diff >> 127u128) & 1u128,
        ;
        sign == 1
    }

    /// Constant-time equality check for `u32`.
    pub fn equal_u32(a: u32, b: u32) -> (r: bool)
        ensures
            r == (a == b),
    {
        let diff: u32 = a ^ b;
        let s: u64 = (diff as u64) + 0xFFFF_FFFFu64;
        let t: u64 = s >> 32u64;
        assert(t == (if diff == 0 { 0u64 } else { 1u64 })) by (bit_vector)
            requires
                s == (diff as u64) + 0xFFFF_FFFFu64,
                t == s >> 32u64,
        ;
        assert(diff == 0 <==> a == b) by (bit_vector)
            requires
                diff == a ^ b,
        ;
        t == 0
    }

    /// Constant-time equality check for `u64`.
    pub fn equal_u64(a: u64, b: u64) -> (r: bool)
        ensures
            r == (a == b),
    {
        let diff: u64 = a ^ b;
        let s: u128 = (diff as u128) + 0xFFFF_FFFF_FFFF_FFFFu128;
        let t: u128 = s >> 64u128;
        assert(t == (if diff == 0 { 0u128 } else { 1u128 })) by (bit_vector)
            requires
                s == (diff as u128) + 0xFFFF_FFFF_FFFF_FFFFu128,
                t == s >> 64u128,
        ;
        assert(diff == 0 <==> a == b) by (bit_vector)
            requires
                diff == a ^ b,
        ;
        t == 0
    }
}

/// Types that support constant-time comparison.
pub trait ConstantTimeEq {
    /// The bytes that a constant-time comparison looks at.
    spec fn ct_bytes(&self) -> Seq<u8>;

    /// Compare two values in constant time: true exactly when their bytes agree.
    fn ct_eq(&self, other: &Self) -> (r: bool)
        ensures
            r == (self.ct_bytes() == other.ct_bytes()),
    ;
}

impl ConstantTimeEq for [u8; 32] {
    open spec fn ct_bytes(&self) -> Seq<u8> {
        self@
    }

    fn ct_eq(&self, other: &Self) -> (r: bool) {
        ConstantTime::compare_32(self, other)
    }
}

impl ConstantTimeEq for [u8; 64] {
    open spec fn ct_bytes(&self) -> Seq<u8> {
        self@
    }

    fn ct_eq(&self, other: &Self) -> (r: bool) {
        ConstantTime::compare_64(self, other)
    }
}

impl<'a> ConstantTimeEq for &'a [u8] {
    open spec fn ct_bytes(&self) -> Seq<u8> {
        (*self)@
    }

    fn ct_eq(&self, other: &Self) -> (r: bool) {
        ConstantTime::compare(*self, *other)
    }
}

impl ConstantTimeEq for Vec<u8> {
    open spec fn ct_bytes(&self) -> Seq<u8> {
        self@
    }

    fn ct_eq(&self, other: &Self) -> (r: bool) {
        ConstantTime::compare(self.as_slice(), other.as_slice())
    }
}

} // verus!
