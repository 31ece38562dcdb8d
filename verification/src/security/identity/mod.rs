//! Peer identities derived from 32-byte fingerprints, and the device's own
//! signing identities.

pub mod device;

pub use device::{DeviceIdentity, DisposableIdentity, DisposableIdentityManager};
use device::{decoded_identity, identity_bytes};

use vstd::prelude::*;
use vstd::string::*;
use crate::security::error::{SecurityError, SecurityResult, IdentityError};
use crate::text::{string_push, append_str};

verus! {

/// The name for SHA-256 of a byte sequence.
pub uninterp spec fn sha256_spec(data: Seq<u8>) -> Seq<u8>;

/// SHA-256 digest of `data`.
///
/// Trusted: calls `sha2::Sha256::digest`; the contract only says that the
/// 32-byte digest is the SHA-256 of the input bytes.
#[verifier::external_body]
pub(crate) fn sha256_digest(data: &[u8]) -> (r: [u8; 32])
    ensures
        r@ == sha256_spec(data@),
{
    <sha2::Sha256 as sha2::Digest>::digest(data).into()
}

/// The lowercase hexadecimal digit for a value below sixteen.
pub open spec fn nibble_char(n: int) -> char {
    if n < 10 {
        (n + 48) as char
    } else {
        (n + 87) as char
    }
}

/// The `j`-th character of the hexadecimal encoding of `b`.
pub open spec fn hex_char_at(b: Seq<u8>, j: int) -> char {
    if j % 2 == 0 {
        nibble_char(b[j / 2] as int / 16)
    } else {
        nibble_char(b[j / 2] as int % 16)
    }
}

/// Lowercase hexadecimal encoding: two characters per byte, high nibble first.
pub open spec fn hex_encode(b: Seq<u8>) -> Seq<char> {
    Seq::new(2 * b.len(), |j: int| hex_char_at(b, j))
}

/// The value of a hexadecimal digit (either case), if `c` is one.
pub open spec fn hex_digit_value(c: char) -> Option<int> {
    let v = c as int;
    if 48 <= v <= 57 {
        Some(v - 48)
    } else if 97 <= v <= 102 {
        Some(v - 87)
    } else if 65 <= v <= 70 {
        Some(v - 55)
    } else {
        None
    }
}

/// Whether `s` is the hexadecimal text of exactly 32 bytes.
pub open spec fn is_hex_fingerprint(s: Seq<char>) -> bool {
    &&& s.len() == 64
    &&& forall|j: int| 0 <= j < 64 ==> (#[trigger] hex_digit_value(s[j])) is Some
}

/// The bytes that a string of hexadecimal digits denotes.
pub open spec fn hex_decode(s: Seq<char>) -> Seq<u8> {
    Seq::new(
        s.len() / 2,
        |i: int| (hex_digit_value(s[2 * i])->0 * 16 + hex_digit_value(s[2 * i + 1])->0) as u8,
    )
}

/// The fingerprint that `PeerId::from_string` assigns to a text: the bytes it
/// denotes when it is 64 hexadecimal digits, else the SHA-256 of its UTF-8 bytes.
pub open spec fn text_fingerprint(s: Seq<char>) -> Seq<u8> {
    if is_hex_fingerprint(s) {
        hex_decode(s)
    } else {
        sha256_spec(vstd::utf8::encode_utf8(s))
    }
}

/// Decoding the hexadecimal encoding of a fingerprint gives the fingerprint back.
pub proof fn lemma_hex_roundtrip(b: Seq<u8>)
    requires
        b.len() == 32,
    ensures
        is_hex_fingerprint(hex_encode(b)),
        hex_decode(hex_encode(b)) == b,
{
    let e = hex_encode(b);
    assert forall|j: int| 0 <= j < 64 implies (#[trigger] hex_digit_value(e[j])) is Some by {
        let n: int = if j % 2 == 0 { b[j / 2] as int / 16 } else { b[j / 2] as int % 16 };
        assert(0 <= n < 16);
    }
    assert forall|i: int| 0 <= i < 32 implies #[trigger] hex_decode(e)[i] == b[i] by {
        assert((2 * i) % 2 == 0);
        assert((2 * i) / 2 == i);
        assert((2 * i + 1) % 2 == 1);
        assert((2 * i + 1) / 2 == i);
        let hi: int = b[i] as int / 16;
        let lo: int = b[i] as int % 16;
        assert(hex_digit_value(e[2 * i])->0 == hi);
        assert(hex_digit_value(e[2 * i + 1])->0 == lo);
        assert(hi * 16 + lo == b[i]);
    }
    assert(hex_decode(e) =~= b);
}

/// Peer ID derived from a public key fingerprint.
#[derive(Clone, Copy, Debug, PartialEq, Eq, Hash)]
pub struct PeerId {
    fingerprint: [u8; 32],
}

impl View for PeerId {
    type V = Seq<u8>;

    closed spec fn view(&self) -> Seq<u8> {
        self.fingerprint@
    }
}

/// The lowercase hexadecimal digit for a nibble.
fn nibble_to_char(n: u8) -> (c: char)
    requires
        n < 16,
    ensures
        c == nibble_char(n as int),
{
    if n < 10 {
        (n + 48) as char
    } else {
        (n + 87) as char
    }
}

/// The value of an ASCII hexadecimal digit byte, if it is one.
fn hex_byte_value(b: u8) -> (r: Option<u8>)
    ensures
        match hex_digit_value(b as char) {
            Some(v) => r == Some(v as u8),
            None => r is None,
        },
{
    if 48 <= b && b <= 57 {
        Some(b - 48)
    } else if 97 <= b && b <= 102 {
        Some(b - 87)
    } else if 65 <= b && b <= 70 {
        Some(b - 55)
    } else {
        None
    }
}

/// Hexadecimal text of the first `n` bytes of `bytes`.
fn hex_of(bytes: &[u8; 32], n: usize) -> (s: String)
    requires
        n <= 32,
    ensures
        s@ == hex_encode(bytes@.take(n as int)),
{
    let mut s = String::new();
    let mut i: usize = 0;
    while i < n
        invariant
            n <= 32,
            i <= n,
            s@.len() == 2 * i,
            forall|j: int| 0 <= j < 2 * i ==> s@[j] == hex_char_at(bytes@.take(n as int), j),
        decreases n - i,
    {
        let b = bytes[i];
        let hi = nibble_to_char(b / 16);
        let lo = nibble_to_char(b % 16);
        let ghost prev = s@;
        string_push(&mut s, hi);
        string_push(&mut s, lo);
        proof {
            let t = bytes@.take(n as int);
            assert((2 * i as int) % 2 == 0);
            assert((2 * i as int) / 2 == i);
            assert((2 * i as int + 1) % 2 == 1);
            assert((2 * i as int + 1) / 2 == i);
            assert(t[i as int] == b);
            assert forall|j: int| 0 <= j < 2 * (i + 1) implies s@[j] == hex_char_at(t, j) by {
                if j < 2 * i {
                    assert(s@[j] == prev[j]);
                }
            }
        }
        i = i + 1;
    }
    proof {
        assert(s@ =~= hex_encode(bytes@.take(n as int)));
    }
    s
}

/// Whether `s` is hexadecimal text: an even number of hexadecimal digits.
pub open spec fn is_hex_text(s: Seq<char>) -> bool {
    &&& s.len() % 2 == 0
    &&& forall|j: int| 0 <= j < s.len() ==> (#[trigger] hex_digit_value(s[j])) is Some
}

/// Lowercase hexadecimal text of a byte string.
pub fn hex_encode_bytes(bytes: &[u8]) -> (s: String)
    ensures
        s@ == hex_encode(bytes@),
{
    let mut s = String::new();
    let mut i: usize = 0;
    while i < bytes.len()
        invariant
            i <= bytes@.len(),
            s@.len() == 2 * i,
            forall|j: int| 0 <= j < 2 * i ==> s@[j] == hex_char_at(bytes@, j),
        decreases bytes@.len() - i,
    {
        let b = bytes[i];
        let hi = nibble_to_char(b / 16);
        let lo = nibble_to_char(b % 16);
        let ghost prev = s@;
        string_push(&mut s, hi);
        string_push(&mut s, lo);
        proof {
            assert((2 * i as int) % 2 == 0);
            assert((2 * i as int) / 2 == i);
            assert((2 * i as int + 1) % 2 == 1);
            assert((2 * i as int + 1) / 2 == i);
            assert forall|j: int| 0 <= j < 2 * (i + 1) implies s@[j] == hex_char_at(bytes@, j) by {
                if j < 2 * i {
                    assert(s@[j] == prev[j]);
                }
            }
        }
        i = i + 1;
    }
    proof {
        assert(s@ =~= hex_encode(bytes@));
    }
    s
}

/// The bytes that hexadecimal text denotes, or `None` when the text is not
/// an even number of hexadecimal digits (either case).
pub fn hex_decode_text(text: &str) -> (r: Option<Vec<u8>>)
    ensures
        match r {
            Some(b) => is_hex_text(text@) && b@ == hex_decode(text@),
            None => !is_hex_text(text@),
        },
{
    broadcast use vstd::string::group_string_axioms;
    if !text.is_ascii() {
        proof {
            if is_hex_text(text@) {
                assert forall|j: int| 0 <= j < text@.len() implies '\0' <= #[trigger] text@[j] <= '\u{7f}' by {
                    assert(hex_digit_value(text@[j]) is Some);
                }
                assert(vstd::utf8::is_ascii_chars(text@));
            }
        }
        return None;
    }
    let bytes = text.as_bytes();
    proof {
        vstd::string::is_ascii_spec_bytes(text);
    }
    if bytes.len() % 2 != 0 {
        return None;
    }
    let n = bytes.len() / 2;
    let mut out: Vec<u8> = Vec::new();
    let mut i: usize = 0;
    while i < n
        invariant
            bytes@.len() == text@.len(),
            n == bytes@.len() / 2,
            bytes@.len() % 2 == 0,
            2 * n == bytes@.len(),
            bytes@ == Seq::new(text@.len(), |k: int| text@[k] as u8),
            vstd::utf8::is_ascii_chars(text@),
            i <= n,
            out@.len() == i,
            forall|j: int| 0 <= j < 2 * i ==> (#[trigger] hex_digit_value(text@[j])) is Some,
            forall|k: int| 0 <= k < i ==> out@[k] == hex_decode(text@)[k],
        decreases n - i,
    {
        let c_hi = bytes[2 * i];
        let c_lo = bytes[2 * i + 1];
        proof {
            assert('\0' <= text@[2 * i as int] <= '\u{7f}');
            assert('\0' <= text@[2 * i as int + 1] <= '\u{7f}');
            assert(c_hi as char == text@[2 * i as int]);
            assert(c_lo as char == text@[2 * i as int + 1]);
        }
        let hi = hex_byte_value(c_hi);
        let lo = hex_byte_value(c_lo);
        match (hi, lo) {
            (Some(h), Some(l)) => {
                out.push(h * 16 + l);
                proof {
                    assert forall|j: int| 0 <= j < 2 * (i + 1) implies (#[trigger] hex_digit_value(text@[j])) is Some by {
                        if j == 2 * i {
                        } else if j == 2 * i + 1 {
                        }
                    }
                }
            },
            _ => {
                proof {
                    if hi is None {
                        assert(hex_digit_value(text@[2 * i as int]) is None);
                    } else {
                        assert(hex_digit_value(text@[2 * i as int + 1]) is None);
                    }
                }
                return None;
            },
        }
        i = i + 1;
    }
    proof {
        assert(out@ =~= hex_decode(text@));
    }
    Some(out)
}

/// Decoding the hexadecimal encoding of any byte string gives it back.
pub proof fn lemma_hex_text_roundtrip(b: Seq<u8>)
    ensures
        is_hex_text(hex_encode(b)),
        hex_decode(hex_encode(b)) == b,
{
    let e = hex_encode(b);
    assert forall|j: int| 0 <= j < e.len() implies (#[trigger] hex_digit_value(e[j])) is Some by {
        let n: int = if j % 2 == 0 { b[j / 2] as int / 16 } else { b[j / 2] as int % 16 };
        assert(0 <= n < 16);
    }
    assert forall|i: int| 0 <= i < b.len() implies #[trigger] hex_decode(e)[i] == b[i] by {
        assert((2 * i) % 2 == 0);
        assert((2 * i) / 2 == i);
        assert((2 * i + 1) % 2 == 1);
        assert((2 * i + 1) / 2 == i);
        let hi: int = b[i] as int / 16;
        let lo: int = b[i] as int % 16;
        assert(hex_digit_value(e[2 * i])->0 == hi);
        assert(hex_digit_value(e[2 * i + 1])->0 == lo);
        assert(hi * 16 + lo == b[i]);
    }
    assert(hex_decode(e) =~= b);
}

/// The error returned for text that is not a valid peer ID.
fn invalid_peer_id_error() -> (e: SecurityError)
    ensures
        e matches SecurityError::Identity(IdentityError::InvalidPeerId(_)),
{
    let mut msg = String::new();
    append_str(&mut msg, "Invalid hex: expected 64 hexadecimal digits");
    SecurityError::Identity(IdentityError::InvalidPeerId(msg))
}

impl PeerId {
    /// Create a new PeerId from a fingerprint.
    pub fn from_fingerprint(fingerprint: [u8; 32]) -> (r: Self)
        ensures
            r@ == fingerprint@,
    {
        Self { fingerprint }
    }

    /// The peer ID of an Ed25519 public key: the SHA-256 of its bytes.
    pub fn from_public_key(public_key: &[u8; 32]) -> (r: Self)
        ensures
            r@ == sha256_spec(public_key@),
    {
        Self { fingerprint: sha256_digest(public_key) }
    }

    /// Get the fingerprint bytes.
    pub fn fingerprint(&self) -> (r: &[u8; 32])
        ensures
            r@ == self@,
    {
        &self.fingerprint
    }

    /// Whether two peer IDs have the same fingerprint.
    pub fn same_as(&self, other: &PeerId) -> (r: bool)
        ensures
            r == (self@ == other@),
    {
        let mut i: usize = 0;
        while i < 32
            invariant
                i <= 32,
                forall|j: int| 0 <= j < i ==> self@[j] == other@[j],
            decreases 32 - i,
        {
            if self.fingerprint[i] != other.fingerprint[i] {
                return false;
            }
            i = i + 1;
        }
        proof {
            assert(self@ =~= other@);
        }
        true
    }

    /// Display-friendly representation: the first 8 bytes as hex.
    pub fn display_name(&self) -> (r: String)
        ensures
            r@ == hex_encode(self@.take(8)),
    {
        hex_of(&self.fingerprint, 8)
    }

    /// The full fingerprint as lowercase hex.
    pub fn to_hex(&self) -> (r: String)
        ensures
            r@ == hex_encode(self@),
    {
        let s = hex_of(&self.fingerprint, 32);
        proof {
            assert(self@.take(32) =~= self@);
        }
        s
    }

    /// Create a PeerId from a hex string of 64 hexadecimal digits (either case).
    pub fn from_hex(hex_str: &str) -> (r: SecurityResult<Self>)
        ensures
            match r {
                Ok(p) => is_hex_fingerprint(hex_str@) && p@ == hex_decode(hex_str@),
                Err(e) => !is_hex_fingerprint(hex_str@)
                    && e matches SecurityError::Identity(IdentityError::InvalidPeerId(_)),
            },
    {
        broadcast use vstd::string::group_string_axioms;
        if !hex_str.is_ascii() {
            proof {
                if is_hex_fingerprint(hex_str@) {
                    assert forall|j: int| 0 <= j < hex_str@.len() implies
                        '\0' <= #[trigger] hex_str@[j] <= '\u{7f}' by {
                        assert(hex_digit_value(hex_str@[j]) is Some);
                    }
                    assert(vstd::utf8::is_ascii_chars(hex_str@));
                }
            }
            return Err(invalid_peer_id_error());
        }
        let bytes = hex_str.as_bytes();
        proof {
            vstd::string::is_ascii_spec_bytes(hex_str);
        }
        if bytes.len() != 64 {
            return Err(invalid_peer_id_error());
        }
        let mut fp = [0u8; 32];
        let mut i: usize = 0;
        while i < 32
            invariant
                bytes@.len() == 64,
                bytes@ == Seq::new(hex_str@.len(), |k: int| hex_str@[k] as u8),
                hex_str@.len() == 64,
                vstd::utf8::is_ascii_chars(hex_str@),
                i <= 32,
                forall|j: int| 0 <= j < 2 * i ==> (#[trigger] hex_digit_value(hex_str@[j])) is Some,
                forall|k: int| 0 <= k < i ==> fp@[k] == hex_decode(hex_str@)[k],
            decreases 32 - i,
        {
            let c_hi = bytes[2 * i];
            let c_lo = bytes[2 * i + 1];
            proof {
                assert('\0' <= hex_str@[2 * i as int] <= '\u{7f}');
                assert('\0' <= hex_str@[2 * i as int + 1] <= '\u{7f}');
                assert(c_hi as char == hex_str@[2 * i as int]);
                assert(c_lo as char == hex_str@[2 * i as int + 1]);
            }
            let hi = hex_byte_value(c_hi);
            let lo = hex_byte_value(c_lo);
            match (hi, lo) {
                (Some(h), Some(l)) => {
                    fp[i] = h * 16 + l;
                    proof {
                        assert forall|j: int| 0 <= j < 2 * (i + 1) implies
                            (#[trigger] hex_digit_value(hex_str@[j])) is Some by {
                            if j == 2 * i {
                            } else if j == 2 * i + 1 {
                            }
                        }
                    }
                },
                _ => {
                    proof {
                        if hi is None {
                            assert(hex_digit_value(hex_str@[2 * i as int]) is None);
                        } else {
                            assert(hex_digit_value(hex_str@[2 * i as int + 1]) is None);
                        }
                    }
                    return Err(invalid_peer_id_error());
                },
            }
            i = i + 1;
        }
        proof {
            assert(fp@ =~= hex_decode(hex_str@));
        }
        Ok(Self { fingerprint: fp })
    }

    /// Convert PeerId to string (hex representation).
    pub fn to_string(&self) -> (r: String)
        ensures
            r@ == hex_encode(self@),
    {
        self.to_hex()
    }

    /// Create a PeerId from a string.
    ///
    /// A string of 64 hexadecimal digits denotes its fingerprint directly; any
    /// other text names the peer whose fingerprint is the SHA-256 of its UTF-8
    /// bytes. This never fails.
    pub fn from_string(s: &str) -> (r: SecurityResult<Self>)
        ensures
            r matches Ok(p) && p@ == text_fingerprint(s@),
    {
        match Self::from_hex(s) {
            Ok(p) => Ok(p),
            Err(_) => {
                let fingerprint = sha256_digest(s.as_bytes());
                Ok(Self { fingerprint })
            },
        }
    }
}

/// The peer whose fingerprint is `f`.
pub open spec fn peer_with_fingerprint(f: Seq<u8>) -> PeerId {
    choose|p: PeerId| p@ == f
}

impl From<String> for PeerId {
    /// The peer a text names, as `PeerId::from_string` reads it.
    fn from(s: String) -> (r: Self) {
        let r = match Self::from_string(s.as_str()) {
            Ok(p) => p,
            Err(_) => Self { fingerprint: [0u8; 32] },
        };
        proof {
            let q = peer_with_fingerprint(text_fingerprint(s@));
            assert(r@ == text_fingerprint(s@));
            assert(q@ == text_fingerprint(s@));
            assert(q.fingerprint =~= r.fingerprint);
        }
        r
    }
}

impl vstd::std_specs::convert::FromSpecImpl<String> for PeerId {
    open spec fn obeys_from_spec() -> bool {
        true
    }

    open spec fn from_spec(v: String) -> PeerId {
        peer_with_fingerprint(text_fingerprint(v@))
    }
}

/// Secure keystore location for the device identity.
pub struct IdentityStore {
    pub service_name: String,
    pub username: String,
}

impl IdentityStore {
    /// Create a new identity store.
    pub fn new(service_name: String, username: String) -> (r: Self)
        ensures
            r.service_name@ == service_name@,
            r.username@ == username@,
    {
        Self { service_name, username }
    }

    /// The text under which an identity is kept: the hexadecimal encoding of
    /// its stored form.
    pub fn encode_identity(identity: &DeviceIdentity) -> (r: String)
        ensures
            r@ == hex_encode(
                identity_bytes(identity.secret_view(), identity.public_view(), identity.created_view(), identity.phrase_view()),
            ),
    {
        let bytes = identity.to_bytes();
        hex_encode_bytes(bytes.as_slice())
    }

    /// The identity kept under a text: an error when the text is not
    /// hexadecimal or the bytes are no stored identity.
    pub fn decode_identity(text: &str) -> (r: SecurityResult<DeviceIdentity>)
        requires
            !(is_hex_text(text@) && 72 < text@.len() / 2 < 76),
        ensures
            match r {
                Ok(id) => is_hex_text(text@) && decoded_identity(hex_decode(text@)) == Some(
                    (id.secret_view(), id.public_view(), id.created_view(), id.phrase_view()),
                ),
                Err(e) => (!is_hex_text(text@) || decoded_identity(hex_decode(text@)) is None)
                    && e matches SecurityError::Identity(IdentityError::Corrupted(_)),
            },
    {
        match hex_decode_text(text) {
            Some(bytes) => DeviceIdentity::from_bytes(bytes.as_slice()),
            None => {
                let mut msg = String::new();
                append_str(&mut msg, "Invalid hex data");
                Err(SecurityError::Identity(IdentityError::Corrupted(msg)))
            },
        }
    }
}

} // verus!
