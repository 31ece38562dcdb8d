//! The device's Ed25519 identity, its storage format, and short-lived
//! disposable identities.

use vstd::prelude::*;
use vstd::bytes::{spec_u32_from_le_bytes, spec_u32_to_le_bytes, spec_u64_from_le_bytes, spec_u64_to_le_bytes};
use vstd::utf8::{decode_utf8, encode_utf8, valid_utf8};
use crate::clock::{unix_now_secs, unix_now_secs_checked};
use crate::unique_id::{new_uuid, uuid_text};
use crate::security::error::{IdentityError, SecurityError, SecurityResult};
use crate::text::{append_str, append_string};
use super::{PeerId, sha256_digest, sha256_spec};

verus! {

/// The name for the Ed25519 public key of a secret key.
pub uninterp spec fn ed25519_public(secret: Seq<u8>) -> Seq<u8>;

/// The name for whether 32 bytes are the compressed form of a curve point.
pub uninterp spec fn ed25519_point_ok(public: Seq<u8>) -> bool;

/// The name for the Ed25519 signature of a message under a secret key.
pub uninterp spec fn ed25519_signature(secret: Seq<u8>, message: Seq<u8>) -> Seq<u8>;

/// A fresh random Ed25519 secret key.
///
/// Trusted: calls `ed25519_dalek::SigningKey::generate` with the operating
/// system's generator and returns `to_bytes` of the key; nothing is promised
/// of the bytes, which are random.
#[verifier::external_body]
fn ed25519_generate_secret() -> (r: [u8; 32]) {
    ed25519_dalek::SigningKey::generate(&mut rand::rngs::OsRng).to_bytes()
}

/// The public key of a secret key.
///
/// Trusted: calls `ed25519_dalek::SigningKey::from_bytes`, `verifying_key`
/// and `VerifyingKey::to_bytes`. The result is named; the crate's source keeps
/// the point of every verifying key equal to the decompression of its bytes,
/// so the bytes decompress.
#[verifier::external_body]
fn ed25519_public_key(secret: &[u8; 32]) -> (r: [u8; 32])
    ensures
        r@ == ed25519_public(secret@),
        ed25519_point_ok(r@),
{
    ed25519_dalek::SigningKey::from_bytes(secret).verifying_key().to_bytes()
}

/// The name for the text of the error `ed25519_dalek` gives for 32 bytes
/// that are no curve point.
pub uninterp spec fn ed25519_point_error(public: Seq<u8>) -> Seq<char>;

/// `None` when 32 bytes decompress to a curve point, else the error's text.
///
/// Trusted: calls `ed25519_dalek::VerifyingKey::from_bytes`, which fails
/// exactly when the point does not decompress, and takes `to_string` of its
/// error; the answer and the text are named, as they depend on the bytes
/// alone.
#[verifier::external_body]
fn ed25519_point_check(public: &[u8; 32]) -> (r: Option<String>)
    ensures
        (r is None) == ed25519_point_ok(public@),
        match r {
            Some(t) => t@ == ed25519_point_error(public@),
            None => true,
        },
{
    ed25519_dalek::VerifyingKey::from_bytes(public).err().map(|e| e.to_string())
}

/// The Ed25519 signature of `message` under `secret`.
///
/// Trusted: calls `ed25519_dalek::Signer::sign` on the signing key made from
/// `secret` and returns the signature's 64 bytes; Ed25519 signing is
/// deterministic, and the result is named.
#[verifier::external_body]
fn ed25519_sign(secret: &[u8; 32], message: &[u8]) -> (r: [u8; 64])
    ensures
        r@ == ed25519_signature(secret@, message@),
{
    let key = ed25519_dalek::SigningKey::from_bytes(secret);
    ed25519_dalek::Signer::sign(&key, message).to_bytes()
}

/// The name for the text of the error `String::from_utf8` gives for bytes
/// that are not UTF-8.
pub uninterp spec fn utf8_error_text(bytes: Seq<u8>) -> Seq<char>;

/// The text of bytes that are valid UTF-8, else the error's text.
///
/// Trusted: calls `String::from_utf8`, which std documents as failing exactly
/// when the bytes are not valid UTF-8, and otherwise keeping them as they
/// are; the error's `to_string` is named, as it depends on the bytes alone.
#[verifier::external_body]
pub(crate) fn utf8_string(bytes: Vec<u8>) -> (r: Result<String, String>)
    ensures
        match r {
            Ok(s) => valid_utf8(bytes@) && s@ == decode_utf8(bytes@),
            Err(t) => !valid_utf8(bytes@) && t@ == utf8_error_text(bytes@),
        },
{
    String::from_utf8(bytes).map_err(|e| e.to_string())
}

/// The stored form of an identity: secret key, public key, creation time
/// (little-endian), then the backup phrase's byte length (little-endian, 32
/// bits) and its UTF-8 bytes, or a zero length when there is none.
pub open spec fn identity_bytes(secret: Seq<u8>, public: Seq<u8>, created: u64, phrase: Option<Seq<char>>) -> Seq<u8> {
    secret + public + spec_u64_to_le_bytes(created) + match phrase {
        Some(p) => spec_u32_to_le_bytes(encode_utf8(p).len() as u32) + encode_utf8(p),
        None => spec_u32_to_le_bytes(0),
    }
}

/// The content that stored bytes decode to: secret key, public key, creation
/// time and backup phrase; `None` when the bytes are corrupt (too short, a
/// public key that is no curve point or does not belong to the secret key, a
/// phrase cut short or not UTF-8). A zero phrase length, or no length at all,
/// means no phrase.
pub open spec fn decoded_identity(b: Seq<u8>) -> Option<(Seq<u8>, Seq<u8>, u64, Option<Seq<char>>)> {
    if b.len() < 72 {
        None
    } else {
        let secret = b.subrange(0, 32);
        let public = b.subrange(32, 64);
        let created = spec_u64_from_le_bytes(b.subrange(64, 72));
        if !ed25519_point_ok(public) || public != ed25519_public(secret) {
            None
        } else if b.len() <= 72 {
            Some((secret, public, created, None))
        } else {
            let n = spec_u32_from_le_bytes(b.subrange(72, 76)) as int;
            if n == 0 {
                Some((secret, public, created, None))
            } else if b.len() < 76 + n {
                None
            } else if !valid_utf8(b.subrange(76, 76 + n)) {
                None
            } else {
                Some((secret, public, created, Some(decode_utf8(b.subrange(76, 76 + n)))))
            }
        }
    }
}

/// The message of the corruption error for stored bytes that decode to
/// nothing (see `decoded_identity`), naming the first fault found.
pub open spec fn identity_error_text(b: Seq<u8>) -> Seq<char> {
    let secret = b.subrange(0, 32);
    let public = b.subrange(32, 64);
    if b.len() < 72 {
        "Insufficient data for identity deserialization"@
    } else if !ed25519_point_ok(public) {
        "Invalid public key: "@ + ed25519_point_error(public)
    } else if public != ed25519_public(secret) {
        "Public key does not match private key"@
    } else {
        let n = spec_u32_from_le_bytes(b.subrange(72, 76)) as int;
        if b.len() < 76 + n {
            "Insufficient data for backup phrase"@
        } else {
            "Invalid backup phrase UTF-8: "@ + utf8_error_text(b.subrange(76, 76 + n))
        }
    }
}

/// Whether `e` is the generation error of a clock set before the Unix
/// epoch: "System time error: " followed by the clock's own error text.
pub open spec fn is_clock_error(e: SecurityError) -> bool {
    e matches SecurityError::Identity(IdentityError::GenerationFailed(m))
        && exists|t: Seq<char>| m@ == "System time error: "@ + t
}

/// The error of a clock set before the Unix epoch, `detail` being the
/// clock's own error text.
fn clock_error(detail: String) -> (e: SecurityError)
    ensures
        e matches SecurityError::Identity(IdentityError::GenerationFailed(m)) && m@ == "System time error: "@ + detail@,
        is_clock_error(e),
{
    let mut m = String::new();
    append_str(&mut m, "System time error: ");
    append_string(&mut m, &detail);
    let e = SecurityError::Identity(IdentityError::GenerationFailed(m));
    assert(e matches SecurityError::Identity(IdentityError::GenerationFailed(m)) && m@ == "System time error: "@ + detail@);
    e
}

/// The corruption error with message `msg`.
fn corrupted(msg: &str) -> (e: SecurityError)
    ensures
        e matches SecurityError::Identity(IdentityError::Corrupted(m)) && m@ == msg@,
{
    let mut s = String::new();
    append_str(&mut s, msg);
    SecurityError::Identity(IdentityError::Corrupted(s))
}

/// The corruption error with message `msg` followed by `detail`.
fn corrupted_with(msg: &str, detail: String) -> (e: SecurityError)
    ensures
        e matches SecurityError::Identity(IdentityError::Corrupted(m)) && m@ == msg@ + detail@,
{
    let mut s = String::new();
    append_str(&mut s, msg);
    append_string(&mut s, &detail);
    SecurityError::Identity(IdentityError::Corrupted(s))
}

/// The bytes `b[start..start + N]` as an array.
pub(crate) fn take_array<const N: usize>(b: &[u8], start: usize) -> (r: [u8; N])
    requires
        start + N <= b@.len(),
    ensures
        r@ == b@.subrange(start as int, start + N),
{
    let mut a = [0u8; N];
    let mut i: usize = 0;
    while i < N
        invariant
            start + N <= b@.len(),
            b@.len() == b.len(),
            i <= N,
            a@.len() == N,
            forall|j: int| 0 <= j < i ==> a@[j] == b@[start + j],
        decreases N - i,
    {
        let k: usize = start + i;
        a[i] = b[k];
        i = i + 1;
    }
    assert(a@ =~= b@.subrange(start as int, start + N));
    a
}

/// The bytes `b[start..end]` as a vector.
pub(crate) fn take_vec(b: &[u8], start: usize, end: usize) -> (r: Vec<u8>)
    requires
        start <= end <= b@.len(),
    ensures
        r@ == b@.subrange(start as int, end as int),
{
    let mut v: Vec<u8> = Vec::new();
    let mut i: usize = start;
    while i < end
        invariant
            start <= i <= end <= b@.len(),
            v@ == b@.subrange(start as int, i as int),
        decreases end - i,
    {
        v.push(b[i]);
        i = i + 1;
        assert(v@ =~= b@.subrange(start as int, i as int));
    }
    v
}

/// Appends the bytes of `t` to `v`.
pub(crate) fn append_bytes(v: &mut Vec<u8>, t: &[u8])
    ensures
        final(v)@ == old(v)@ + t@,
{
    let mut i: usize = 0;
    while i < t.len()
        invariant
            i <= t@.len(),
            v@ == old(v)@ + t@.subrange(0, i as int),
        decreases t@.len() - i,
    {
        v.push(t[i]);
        i = i + 1;
        assert(v@ =~= old(v)@ + t@.subrange(0, i as int));
    }
    assert(t@.subrange(0, t@.len() as int) =~= t@);
}

/// Device identity: an Ed25519 key pair, its creation time and an optional
/// backup phrase.
pub struct DeviceIdentity {
    private_key: [u8; 32],
    public_key: [u8; 32],
    created_at: u64,
    backup_phrase: Option<String>,
}

impl DeviceIdentity {
    /// The public key belongs to the secret key and is a curve point.
    #[verifier::type_invariant]
    closed spec fn keys_match(&self) -> bool {
        &&& self.public_key@ == ed25519_public(self.private_key@)
        &&& ed25519_point_ok(self.public_key@)
    }

    /// The secret key bytes.
    pub closed spec fn secret_view(&self) -> Seq<u8> {
        self.private_key@
    }

    /// The public key bytes.
    pub closed spec fn public_view(&self) -> Seq<u8> {
        self.public_key@
    }

    /// When the identity was made (seconds since the epoch).
    pub closed spec fn created_view(&self) -> u64 {
        self.created_at
    }

    /// The backup phrase, if any.
    pub closed spec fn phrase_view(&self) -> Option<Seq<char>> {
        match self.backup_phrase {
            Some(p) => Some(p@),
            None => None,
        }
    }

    /// A new identity with a random key pair, made at `now`.
    pub fn generate_at(now: u64) -> (r: SecurityResult<Self>)
        ensures
            r matches Ok(id) && id.created_view() == now && id.phrase_view() is None,
    {
        let private_key = ed25519_generate_secret();
        let public_key = ed25519_public_key(&private_key);
        Ok(Self { private_key, public_key, created_at: now, backup_phrase: None })
    }

    /// A new identity with a random key pair, made now; a generation error
    /// when the system clock is set before the Unix epoch.
    pub fn generate() -> (r: SecurityResult<Self>)
        ensures
            match r {
                Ok(id) => id.phrase_view() is None,
                Err(e) => is_clock_error(e),
            },
    {
        match unix_now_secs_checked() {
            Ok(now) => Self::generate_at(now),
            Err(detail) => Err(clock_error(detail)),
        }
    }

    /// The public key.
    pub fn public_key(&self) -> (r: &[u8; 32])
        ensures
            r@ == self.public_view(),
    {
        &self.public_key
    }

    /// The secret key (use with caution).
    pub fn private_key(&self) -> (r: &[u8; 32])
        ensures
            r@ == self.secret_view(),
    {
        &self.private_key
    }

    /// When the identity was made.
    pub fn created_at(&self) -> (r: u64)
        ensures
            r == self.created_view(),
    {
        self.created_at
    }

    /// The peer ID of this identity: the SHA-256 of its public key.
    pub fn derive_peer_id(&self) -> (r: PeerId)
        ensures
            r@ == sha256_spec(self.public_view()),
    {
        PeerId::from_public_key(&self.public_key)
    }

    /// The signature of `data` under this identity's secret key.
    pub fn sign(&self, data: &[u8]) -> (r: [u8; 64])
        ensures
            r@ == ed25519_signature(self.secret_view(), data@),
    {
        ed25519_sign(&self.private_key, data)
    }

    /// The stored form of this identity (see `identity_bytes`).
    pub fn to_bytes(&self) -> (r: Vec<u8>)
        ensures
            r@ == identity_bytes(self.secret_view(), self.public_view(), self.created_view(), self.phrase_view()),
            valid_key_pair(self.secret_view(), self.public_view()),
    {
        proof {
            use_type_invariant(self);
        }
        let mut bytes: Vec<u8> = Vec::new();
        append_bytes(&mut bytes, &self.private_key);
        append_bytes(&mut bytes, &self.public_key);
        let created = vstd::bytes::u64_to_le_bytes(self.created_at);
        append_bytes(&mut bytes, created.as_slice());
        match &self.backup_phrase {
            Some(phrase) => {
                let phrase_bytes = phrase.as_str().as_bytes();
                let len = vstd::bytes::u32_to_le_bytes(phrase_bytes.len() as u32);
                append_bytes(&mut bytes, len.as_slice());
                append_bytes(&mut bytes, phrase_bytes);
            },
            None => {
                let len = vstd::bytes::u32_to_le_bytes(0);
                append_bytes(&mut bytes, len.as_slice());
            },
        }
        proof {
            let tail = match self.phrase_view() {
                Some(p) => spec_u32_to_le_bytes(encode_utf8(p).len() as u32) + encode_utf8(p),
                None => spec_u32_to_le_bytes(0),
            };
            assert(bytes@ =~= self.private_key@ + self.public_key@ + spec_u64_to_le_bytes(self.created_at) + tail);
        }
        bytes
    }

    /// The identity stored in `bytes`, or the corruption error (see `decoded_identity`).
    pub fn from_bytes(bytes: &[u8]) -> (r: SecurityResult<Self>)
        requires
            !(72 < bytes@.len() < 76),
        ensures
            match r {
                Ok(id) => decoded_identity(bytes@) == Some(
                    (id.secret_view(), id.public_view(), id.created_view(), id.phrase_view()),
                ),
                Err(e) => decoded_identity(bytes@) is None && (e matches SecurityError::Identity(
                    IdentityError::Corrupted(m),
                ) && m@ == identity_error_text(bytes@)),
            },
    {
        if bytes.len() < 72 {
            return Err(corrupted("Insufficient data for identity deserialization"));
        }
        let private_key: [u8; 32] = take_array(bytes, 0);
        let public_key: [u8; 32] = take_array(bytes, 32);
        match ed25519_point_check(&public_key) {
            Some(detail) => {
                return Err(corrupted_with("Invalid public key: ", detail));
            },
            None => {},
        }
        let derived = ed25519_public_key(&private_key);
        let mut same = true;
        let mut i: usize = 0;
        while i < 32
            invariant
                i <= 32,
                same == (forall|j: int| 0 <= j < i ==> public_key@[j] == derived@[j]),
            decreases 32 - i,
        {
            if public_key[i] != derived[i] {
                same = false;
            }
            i = i + 1;
        }
        if !same {
            proof {
                assert(public_key@ != derived@);
            }
            return Err(corrupted("Public key does not match private key"));
        }
        assert(public_key@ =~= derived@);
        let created_bytes = take_vec(bytes, 64, 72);
        let created_at = vstd::bytes::u64_from_le_bytes(created_bytes.as_slice());
        let backup_phrase = if bytes.len() > 72 {
            let len_bytes = take_vec(bytes, 72, 76);
            let phrase_len = vstd::bytes::u32_from_le_bytes(len_bytes.as_slice()) as usize;
            if phrase_len > 0 {
                if bytes.len() - 76 < phrase_len {
                    return Err(corrupted("Insufficient data for backup phrase"));
                }
                let phrase_bytes = take_vec(bytes, 76, 76 + phrase_len);
                match utf8_string(phrase_bytes) {
                    Ok(p) => Some(p),
                    Err(detail) => {
                        return Err(corrupted_with("Invalid backup phrase UTF-8: ", detail));
                    },
                }
            } else {
                None
            }
        } else {
            None
        };
        Ok(Self { private_key, public_key, created_at, backup_phrase })
    }
}

/// Whether `public` is the public key of `secret`, both 32 bytes, and a curve point.
pub open spec fn valid_key_pair(secret: Seq<u8>, public: Seq<u8>) -> bool {
    &&& secret.len() == 32
    &&& public.len() == 32
    &&& public == ed25519_public(secret)
    &&& ed25519_point_ok(public)
}

/// Decoding the stored form of an identity gives the identity back, when its
/// backup phrase is absent or non-empty and its byte length fits in 32 bits.
pub proof fn lemma_identity_roundtrip(secret: Seq<u8>, public: Seq<u8>, created: u64, phrase: Option<Seq<char>>)
    requires
        valid_key_pair(secret, public),
        phrase matches Some(p) ==> 0 < encode_utf8(p).len() <= u32::MAX,
    ensures
        decoded_identity(identity_bytes(secret, public, created, phrase)) == Some((secret, public, created, phrase)),
{
    vstd::bytes::lemma_auto_spec_u64_to_from_le_bytes();
    vstd::bytes::lemma_auto_spec_u32_to_from_le_bytes();
    let b = identity_bytes(secret, public, created, phrase);
    assert(b.subrange(0, 32) =~= secret);
    assert(b.subrange(32, 64) =~= public);
    assert(b.subrange(64, 72) =~= spec_u64_to_le_bytes(created));
    match phrase {
        Some(p) => {
            let pb = encode_utf8(p);
            vstd::utf8::encode_utf8_decode_utf8(p);
            vstd::utf8::encode_utf8_valid_utf8(p);
            assert(b.subrange(72, 76) =~= spec_u32_to_le_bytes(pb.len() as u32));
            assert(b.subrange(76, 76 + pb.len() as int) =~= pb);
        },
        None => {
            assert(b.subrange(72, 76) =~= spec_u32_to_le_bytes(0));
        },
    }
}

/// A disposable identity for temporary use.
pub struct DisposableIdentity {
    id: String,
    private_key: [u8; 32],
    public_key: [u8; 32],
    created_at: u64,
    expires_at: Option<u64>,
    is_active: bool,
}

impl Clone for DisposableIdentity {
    fn clone(&self) -> (r: Self)
        ensures
            r.id_view() == self.id_view(),
            r.secret_view() == self.secret_view(),
            r.public_view() == self.public_view(),
            r.created_view() == self.created_view(),
            r.expires_view() == self.expires_view(),
            r.active_view() == self.active_view(),
    {
        Self {
            id: self.id.clone(),
            private_key: self.private_key,
            public_key: self.public_key,
            created_at: self.created_at,
            expires_at: self.expires_at,
            is_active: self.is_active,
        }
    }
}

/// Whether a disposable identity expiring at `expires` has expired at `now`.
pub open spec fn disposable_expired(expires: Option<u64>, now: u64) -> bool {
    match expires {
        Some(e) => now >= e,
        None => false,
    }
}

impl DisposableIdentity {
    /// The identifier.
    pub closed spec fn id_view(&self) -> Seq<char> {
        self.id@
    }

    /// The secret key bytes.
    pub closed spec fn secret_view(&self) -> Seq<u8> {
        self.private_key@
    }

    /// The public key bytes.
    pub closed spec fn public_view(&self) -> Seq<u8> {
        self.public_key@
    }

    /// When the identity was made (seconds since the epoch).
    pub closed spec fn created_view(&self) -> u64 {
        self.created_at
    }

    /// When the identity expires, if it does.
    pub closed spec fn expires_view(&self) -> Option<u64> {
        self.expires_at
    }

    /// Whether the identity is the active one.
    pub closed spec fn active_view(&self) -> bool {
        self.is_active
    }

    /// A new inactive identity made at `now`, expiring `lifetime_seconds`
    /// later (capped at the largest time) if a lifetime is given.
    pub fn generate_at(lifetime_seconds: Option<u64>, now: u64) -> (r: SecurityResult<Self>)
        ensures
            r matches Ok(d) && {
                &&& d.created_view() == now
                &&& d.expires_view() == match lifetime_seconds {
                    Some(l) => Some((if now + l > u64::MAX { u64::MAX as int } else { now + l }) as u64),
                    None => None,
                }
                &&& !d.active_view()
                &&& d.id_view().len() == 36
                &&& d.public_view() == ed25519_public(d.secret_view())
            },
    {
        let private_key = ed25519_generate_secret();
        let public_key = ed25519_public_key(&private_key);
        let expires_at = match lifetime_seconds {
            Some(l) => Some(now.saturating_add(l)),
            None => None,
        };
        let id = uuid_text(&new_uuid());
        Ok(Self { id, private_key, public_key, created_at: now, expires_at, is_active: false })
    }

    /// A new inactive identity made now, expiring after `lifetime_seconds` if
    /// given; a generation error when the system clock is set before the Unix
    /// epoch.
    pub fn generate(lifetime_seconds: Option<u64>) -> (r: SecurityResult<Self>)
        ensures
            match r {
                Ok(d) => {
                    &&& d.expires_view() is Some <==> lifetime_seconds is Some
                    &&& !d.active_view()
                    &&& d.id_view().len() == 36
                },
                Err(e) => is_clock_error(e),
            },
    {
        match unix_now_secs_checked() {
            Ok(now) => Self::generate_at(lifetime_seconds, now),
            Err(detail) => Err(clock_error(detail)),
        }
    }

    /// The identifier.
    pub fn id(&self) -> (r: &str)
        ensures
            r@ == self.id_view(),
    {
        self.id.as_str()
    }

    /// The public key.
    pub fn public_key(&self) -> (r: &[u8; 32])
        ensures
            r@ == self.public_view(),
    {
        &self.public_key
    }

    /// The secret key (use with caution).
    pub fn private_key(&self) -> (r: &[u8; 32])
        ensures
            r@ == self.secret_view(),
    {
        &self.private_key
    }

    /// When the identity was made.
    pub fn created_at(&self) -> (r: u64)
        ensures
            r == self.created_view(),
    {
        self.created_at
    }

    /// When the identity expires, if it does.
    pub fn expires_at(&self) -> (r: Option<u64>)
        ensures
            r == self.expires_view(),
    {
        self.expires_at
    }

    /// Whether the identity is the active one.
    pub fn is_active(&self) -> (r: bool)
        ensures
            r == self.active_view(),
    {
        self.is_active
    }

    /// Whether the identity has expired at `now`.
    pub fn is_expired_at(&self, now: u64) -> (r: bool)
        ensures
            r == disposable_expired(self.expires_view(), now),
    {
        match self.expires_at {
            Some(e) => now >= e,
            None => false,
        }
    }

    /// Whether the identity has expired.
    pub fn is_expired(&self) -> (r: bool)
        ensures
            exists|now: u64| r == #[trigger] disposable_expired(self.expires_view(), now),
            self.expires_view() is None ==> !r,
    {
        let now = unix_now_secs();
        self.is_expired_at(now)
    }

    /// Make this the active identity.
    pub fn activate(&mut self)
        ensures
            final(self).active_view(),
            final(self).id_view() == old(self).id_view(),
            final(self).expires_view() == old(self).expires_view(),
            final(self).created_view() == old(self).created_view(),
            final(self).public_view() == old(self).public_view(),
    {
        self.is_active = true;
    }

    /// Make this identity inactive.
    pub fn deactivate(&mut self)
        ensures
            !final(self).active_view(),
            final(self).id_view() == old(self).id_view(),
            final(self).expires_view() == old(self).expires_view(),
            final(self).created_view() == old(self).created_view(),
            final(self).public_view() == old(self).public_view(),
    {
        self.is_active = false;
    }

    /// The peer ID of this identity: the SHA-256 of its public key.
    pub fn derive_peer_id(&self) -> (r: PeerId)
        ensures
            r@ == sha256_spec(self.public_view()),
    {
        PeerId::from_public_key(&self.public_key)
    }

    /// The signature of `data` under this identity's secret key.
    pub fn sign(&self, data: &[u8]) -> (r: [u8; 64])
        ensures
            r@ == ed25519_signature(self.secret_view(), data@),
    {
        ed25519_sign(&self.private_key, data)
    }
}

/// What the manager knows of an identity: its identifier, expiry and activity.
pub ghost struct DisposableView {
    pub id: Seq<char>,
    pub expires: Option<u64>,
    pub active: bool,
}

/// The view of a disposable identity.
pub open spec fn disposable_view(d: DisposableIdentity) -> DisposableView {
    DisposableView { id: d.id_view(), expires: d.expires_view(), active: d.active_view() }
}

/// The views of a sequence of identities.
pub open spec fn views_of(s: Seq<DisposableIdentity>) -> Seq<DisposableView> {
    Seq::new(s.len(), |i: int| disposable_view(s[i]))
}

/// The position of the first identity with identifier `id`, if any.
pub open spec fn first_with_id(s: Seq<DisposableView>, id: Seq<char>) -> Option<int> {
    if exists|i: int| 0 <= i < s.len() && #[trigger] s[i].id == id {
        let i = choose|i: int| 0 <= i < s.len() && s[i].id == id && forall|j: int| 0 <= j < i ==> #[trigger] s[j].id != id;
        Some(i)
    } else {
        None
    }
}

/// Manager for disposable identities.
pub struct DisposableIdentityManager {
    identities: Vec<DisposableIdentity>,
    default_lifetime: u64,
}

impl DisposableIdentityManager {
    /// The identities held, in the order they were made.
    pub closed spec fn identities_view(&self) -> Seq<DisposableView> {
        views_of(self.identities@)
    }

    /// The lifetime given to new identities, in seconds.
    pub closed spec fn lifetime_view(&self) -> u64 {
        self.default_lifetime
    }

    /// A manager with no identities.
    pub fn new(default_lifetime: u64) -> (r: Self)
        ensures
            r.identities_view() == Seq::<DisposableView>::empty(),
            r.lifetime_view() == default_lifetime,
    {
        let r = Self { identities: Vec::new(), default_lifetime };
        assert(r.identities_view() =~= Seq::<DisposableView>::empty());
        r
    }

    /// Make an identity with the default lifetime and keep it.
    pub fn create_identity(&mut self) -> (r: SecurityResult<DisposableIdentity>)
        ensures
            match r {
                Ok(d) => {
                    &&& final(self).identities_view() == old(self).identities_view().push(disposable_view(d))
                    &&& d.expires_view() is Some
                    &&& !d.active_view()
                },
                Err(e) => final(self).identities_view() == old(self).identities_view()
                    && is_clock_error(e),
            },
            final(self).lifetime_view() == old(self).lifetime_view(),
    {
        let lifetime = self.default_lifetime;
        self.create_identity_with_lifetime(Some(lifetime))
    }

    /// Make an identity with the given lifetime and keep it.
    pub fn create_identity_with_lifetime(&mut self, lifetime: Option<u64>) -> (r: SecurityResult<DisposableIdentity>)
        ensures
            match r {
                Ok(d) => {
                    &&& final(self).identities_view() == old(self).identities_view().push(disposable_view(d))
                    &&& d.expires_view() is Some <==> lifetime is Some
                    &&& !d.active_view()
                },
                Err(e) => final(self).identities_view() == old(self).identities_view()
                    && is_clock_error(e),
            },
            final(self).lifetime_view() == old(self).lifetime_view(),
    {
        let identity = match DisposableIdentity::generate(lifetime) {
            Ok(d) => d,
            Err(e) => return Err(e),
        };
        self.identities.push(identity.clone());
        proof {
            assert(views_of(self.identities@) =~= views_of(old(self).identities@).push(disposable_view(identity)));
        }
        Ok(identity)
    }

    /// Mark the identity at position `k` active or not.
    fn set_active(&mut self, k: usize, on: bool)
        requires
            k < old(self).identities_view().len(),
        ensures
            final(self).lifetime_view() == old(self).lifetime_view(),
            final(self).identities@.len() == old(self).identities@.len(),
            final(self).identities_view() == old(self).identities_view().update(
                k as int,
                DisposableView { active: on, ..old(self).identities_view()[k as int] },
            ),
    {
        let mut d = self.identities[k].clone();
        d.is_active = on;
        self.identities.set(k, d);
        proof {
            assert(views_of(self.identities@) =~= views_of(old(self).identities@).update(
                k as int,
                DisposableView { active: on, ..views_of(old(self).identities@)[k as int] },
            ));
        }
    }

    /// Mark every identity inactive.
    fn deactivate_all(&mut self)
        ensures
            final(self).lifetime_view() == old(self).lifetime_view(),
            final(self).identities@.len() == old(self).identities@.len(),
            final(self).identities_view() == Seq::new(
                old(self).identities_view().len(),
                |j: int| DisposableView { active: false, ..old(self).identities_view()[j] },
            ),
    {
        let ghost s0 = self.identities_view();
        let mut k: usize = 0;
        while k < self.identities.len()
            invariant
                self.lifetime_view() == old(self).lifetime_view(),
                s0 == old(self).identities_view(),
                self.identities_view().len() == s0.len(),
                self.identities@.len() == s0.len(),
                k <= s0.len(),
                forall|j: int| 0 <= j < k ==> #[trigger] self.identities_view()[j] == (DisposableView { active: false, ..s0[j] }),
                forall|j: int| k <= j < s0.len() ==> #[trigger] self.identities_view()[j] == s0[j],
            decreases s0.len() - k,
        {
            self.set_active(k, false);
            k = k + 1;
        }
        assert(self.identities_view() =~= Seq::new(s0.len(), |j: int| DisposableView { active: false, ..s0[j] }));
    }

    /// The position of the first identity with identifier `id`.
    fn find(&self, id: &str) -> (r: Option<usize>)
        ensures
            match r {
                Some(i) => i < self.identities_view().len() && first_with_id(self.identities_view(), id@) == Some(i as int),
                None => first_with_id(self.identities_view(), id@) is None,
            },
    {
        let key = String::from_str(id);
        let ghost s = self.identities_view();
        let mut i: usize = 0;
        while i < self.identities.len()
            invariant
                s == self.identities_view(),
                key@ == id@,
                i <= self.identities@.len(),
                forall|j: int| 0 <= j < i ==> #[trigger] s[j].id != id@,
            decreases self.identities@.len() - i,
        {
            if self.identities[i].id == key {
                proof {
                    assert(s[i as int].id == id@);
                    let k = choose|k: int| 0 <= k < s.len() && s[k].id == id@ && forall|j: int| 0 <= j < k ==> #[trigger] s[j].id != id@;
                    if k < i {
                        assert(s[k].id != id@);
                    } else if k > i {
                        assert(s[i as int].id != id@);
                    }
                }
                return Some(i);
            }
            i = i + 1;
        }
        None
    }

    /// Make the identity `id` the active one at `now`.
    ///
    /// Every identity is made inactive first; then the first identity with
    /// that identifier is activated, unless it has expired.
    pub fn activate_identity_at(&mut self, id: &str, now: u64) -> (r: SecurityResult<()>)
        ensures
            final(self).lifetime_view() == old(self).lifetime_view(),
            final(self).identities_view().len() == old(self).identities_view().len(),
            forall|j: int| 0 <= j < old(self).identities_view().len() ==> {
                &&& #[trigger] final(self).identities_view()[j].id == old(self).identities_view()[j].id
                &&& final(self).identities_view()[j].expires == old(self).identities_view()[j].expires
            },
            match first_with_id(old(self).identities_view(), id@) {
                None => (r matches Err(SecurityError::Identity(IdentityError::LoadFailed(_))))
                    && forall|j: int| 0 <= j < final(self).identities_view().len() ==> !(#[trigger] final(self).identities_view()[j]).active,
                Some(i) => if disposable_expired(old(self).identities_view()[i].expires, now) {
                    (r matches Err(SecurityError::Identity(IdentityError::Corrupted(_))))
                        && forall|j: int| 0 <= j < final(self).identities_view().len() ==> !(#[trigger] final(self).identities_view()[j]).active
                } else {
                    r is Ok && forall|j: int| 0 <= j < final(self).identities_view().len() ==> (#[trigger] final(self).identities_view()[j]).active == (j == i)
                },
            },
    {
        let found = self.find(id);
        self.deactivate_all();
        match found {
            Some(i) => {
                proof {
                    assert(self.identities_view()[i as int] == disposable_view(self.identities@[i as int]));
                    assert(self.identities_view()[i as int].expires == old(self).identities_view()[i as int].expires);
                }
                if self.identities[i].is_expired_at(now) {
                    return Err(corrupted_identity("Cannot activate expired identity"));
                }
                self.set_active(i, true);
                Ok(())
            },
            None => Err(identity_not_found()),
        }
    }

    /// Make the identity `id` the active one now (see `activate_identity_at`).
    pub fn activate_identity(&mut self, id: &str) -> (r: SecurityResult<()>)
        ensures
            final(self).lifetime_view() == old(self).lifetime_view(),
            final(self).identities_view().len() == old(self).identities_view().len(),
            first_with_id(old(self).identities_view(), id@) is None
                ==> (r matches Err(SecurityError::Identity(IdentityError::LoadFailed(_)))),
            r is Ok ==> (first_with_id(old(self).identities_view(), id@) matches Some(i)
                && forall|j: int| 0 <= j < final(self).identities_view().len() ==> (#[trigger] final(self).identities_view()[j]).active == (j == i)),
    {
        let now = unix_now_secs();
        self.activate_identity_at(id, now)
    }

    /// Make the identity `id` inactive.
    pub fn deactivate_identity(&mut self, id: &str) -> (r: SecurityResult<()>)
        ensures
            final(self).lifetime_view() == old(self).lifetime_view(),
            match first_with_id(old(self).identities_view(), id@) {
                None => (r matches Err(SecurityError::Identity(IdentityError::LoadFailed(_))))
                    && final(self).identities_view() == old(self).identities_view(),
                Some(i) => r is Ok && final(self).identities_view() == old(self).identities_view().update(
                    i,
                    DisposableView { active: false, ..old(self).identities_view()[i] },
                ),
            },
    {
        match self.find(id) {
            Some(i) => {
                self.set_active(i, false);
                Ok(())
            },
            None => Err(identity_not_found()),
        }
    }

    /// The first active identity, if any.
    pub fn get_active_identity(&self) -> (r: SecurityResult<Option<DisposableIdentity>>)
        ensures
            match r {
                Ok(Some(d)) => exists|i: int| 0 <= i < self.identities_view().len()
                    && #[trigger] self.identities_view()[i] == disposable_view(d)
                    && d.active_view()
                    && forall|j: int| 0 <= j < i ==> !(#[trigger] self.identities_view()[j]).active,
                Ok(None) => forall|j: int| 0 <= j < self.identities_view().len() ==> !(#[trigger] self.identities_view()[j]).active,
                Err(_) => false,
            },
    {
        let mut i: usize = 0;
        while i < self.identities.len()
            invariant
                i <= self.identities@.len(),
                forall|j: int| 0 <= j < i ==> !(#[trigger] self.identities_view()[j]).active,
            decreases self.identities@.len() - i,
        {
            if self.identities[i].is_active() {
                let d = self.identities[i].clone();
                proof {
                    assert(self.identities_view()[i as int] == disposable_view(d));
                }
                return Ok(Some(d));
            }
            proof {
                assert(!self.identities_view()[i as int].active);
            }
            i = i + 1;
        }
        Ok(None)
    }

    /// The first identity with identifier `id`, if any.
    pub fn get_identity(&self, id: &str) -> (r: SecurityResult<Option<DisposableIdentity>>)
        ensures
            match r {
                Ok(Some(d)) => first_with_id(self.identities_view(), id@) matches Some(i)
                    && self.identities_view()[i] == disposable_view(d),
                Ok(None) => first_with_id(self.identities_view(), id@) is None,
                Err(_) => false,
            },
    {
        match self.find(id) {
            Some(i) => Ok(Some(self.identities[i].clone())),
            None => Ok(None),
        }
    }

    /// Copies of all identities, in order.
    pub fn list_identities(&self) -> (r: Vec<DisposableIdentity>)
        ensures
            views_of(r@) == self.identities_view(),
    {
        let mut r: Vec<DisposableIdentity> = Vec::new();
        let mut i: usize = 0;
        while i < self.identities.len()
            invariant
                i <= self.identities@.len(),
                views_of(r@) == views_of(self.identities@).subrange(0, i as int),
            decreases self.identities@.len() - i,
        {
            let d = self.identities[i].clone();
            let ghost before = r@;
            r.push(d);
            proof {
                let all = views_of(self.identities@);
                assert(views_of(r@) =~= views_of(before).push(disposable_view(d)));
                assert(all.subrange(0, i as int + 1) =~= all.subrange(0, i as int).push(all[i as int]));
            }
            i = i + 1;
        }
        proof {
            assert(views_of(self.identities@).subrange(0, i as int) =~= views_of(self.identities@));
        }
        r
    }

    /// Drop the identities that have expired at `now`; the number dropped is returned.
    pub fn cleanup_expired_at(&mut self, now: u64) -> (r: SecurityResult<usize>)
        ensures
            final(self).lifetime_view() == old(self).lifetime_view(),
            final(self).identities_view() == old(self).identities_view().filter(
                |v: DisposableView| !disposable_expired(v.expires, now),
            ),
            r matches Ok(n) && n == old(self).identities_view().len() - final(self).identities_view().len(),
    {
        broadcast use vstd::seq_lib::group_filter_ensures;
        let ghost s0 = self.identities_view();
        let ghost keep = |v: DisposableView| !disposable_expired(v.expires, now);
        let mut kept: Vec<DisposableIdentity> = Vec::new();
        let mut i: usize = 0;
        while i < self.identities.len()
            invariant
                i <= self.identities@.len(),
                s0 == self.identities_view(),
                keep == (|v: DisposableView| !disposable_expired(v.expires, now)),
                views_of(kept@) == s0.subrange(0, i as int).filter(keep),
                kept@.len() <= i,
            decreases self.identities@.len() - i,
        {
            proof {
                assert(s0.subrange(0, i as int + 1) =~= s0.subrange(0, i as int).push(s0[i as int]));
                s0.subrange(0, i as int).lemma_filter_push(s0[i as int], keep);
            }
            if !self.identities[i].is_expired_at(now) {
                kept.push(self.identities[i].clone());
                proof {
                    assert(views_of(kept@) =~= s0.subrange(0, i as int + 1).filter(keep));
                }
            }
            i = i + 1;
        }
        proof {
            assert(s0.subrange(0, i as int) =~= s0);
        }
        let removed = self.identities.len() - kept.len();
        self.identities = kept;
        Ok(removed)
    }

    /// Drop the identities that have expired; the number dropped is returned.
    pub fn cleanup_expired(&mut self) -> (r: SecurityResult<usize>)
        ensures
            final(self).lifetime_view() == old(self).lifetime_view(),
            exists|now: u64| final(self).identities_view() == old(self).identities_view().filter(
                #[trigger] disposable_keep(now),
            ),
    {
        let now = unix_now_secs();
        let r = self.cleanup_expired_at(now);
        assert(disposable_keep(now) == (|v: DisposableView| !disposable_expired(v.expires, now)));
        r
    }

    /// Delete every identity with identifier `id`; an error if there was none.
    pub fn delete_identity(&mut self, id: &str) -> (r: SecurityResult<()>)
        ensures
            final(self).lifetime_view() == old(self).lifetime_view(),
            final(self).identities_view() == old(self).identities_view().filter(|v: DisposableView| v.id != id@),
            first_with_id(old(self).identities_view(), id@) is None <==> (r matches Err(SecurityError::Identity(IdentityError::LoadFailed(_)))),
            r is Ok || (r matches Err(SecurityError::Identity(IdentityError::LoadFailed(_)))),
    {
        broadcast use vstd::seq_lib::group_filter_ensures;
        let key = String::from_str(id);
        let ghost s0 = self.identities_view();
        let ghost keep = |v: DisposableView| v.id != id@;
        let mut kept: Vec<DisposableIdentity> = Vec::new();
        let mut i: usize = 0;
        while i < self.identities.len()
            invariant
                i <= self.identities@.len(),
                key@ == id@,
                s0 == self.identities_view(),
                keep == (|v: DisposableView| v.id != id@),
                views_of(kept@) == s0.subrange(0, i as int).filter(keep),
                kept@.len() <= i,
                kept@.len() == i <==> forall|j: int| 0 <= j < i ==> #[trigger] s0[j].id != id@,
            decreases self.identities@.len() - i,
        {
            proof {
                assert(s0.subrange(0, i as int + 1) =~= s0.subrange(0, i as int).push(s0[i as int]));
                s0.subrange(0, i as int).lemma_filter_push(s0[i as int], keep);
            }
            if self.identities[i].id != key {
                kept.push(self.identities[i].clone());
                proof {
                    assert(views_of(kept@) =~= s0.subrange(0, i as int + 1).filter(keep));
                }
            } else {
                proof {
                    assert(s0[i as int].id == id@);
                }
            }
            i = i + 1;
        }
        proof {
            assert(s0.subrange(0, i as int) =~= s0);
        }
        let removed_any = kept.len() != self.identities.len();
        self.identities = kept;
        if removed_any {
            proof {
                let j = choose|j: int| 0 <= j < s0.len() && !(#[trigger] s0[j].id != id@);
                assert(s0[j].id == id@);
            }
            Ok(())
        } else {
            Err(identity_not_found())
        }
    }

    /// Delete every identity.
    pub fn delete_all(&mut self) -> (r: SecurityResult<()>)
        ensures
            r is Ok,
            final(self).lifetime_view() == old(self).lifetime_view(),
            final(self).identities_view() == Seq::<DisposableView>::empty(),
    {
        self.identities = Vec::new();
        assert(self.identities_view() =~= Seq::<DisposableView>::empty());
        Ok(())
    }
}

impl Default for DisposableIdentityManager {
    /// A manager whose identities live a day.
    fn default() -> (r: Self)
        ensures
            r.identities_view() == Seq::<DisposableView>::empty(),
            r.lifetime_view() == 86400,
    {
        Self::new(86400)
    }
}

/// The test that keeps the identities not expired at `now`.
pub open spec fn disposable_keep(now: u64) -> spec_fn(DisposableView) -> bool {
    |v: DisposableView| !disposable_expired(v.expires, now)
}

/// The error for an unknown disposable identity.
fn identity_not_found() -> (e: SecurityError)
    ensures
        e matches SecurityError::Identity(IdentityError::LoadFailed(_)),
{
    let mut s = String::new();
    append_str(&mut s, "Disposable identity not found");
    SecurityError::Identity(IdentityError::LoadFailed(s))
}

/// The error for a corrupt or unusable identity.
fn corrupted_identity(msg: &str) -> (e: SecurityError)
    ensures
        e matches SecurityError::Identity(IdentityError::Corrupted(_)),
{
    corrupted(msg)
}

} // verus!
