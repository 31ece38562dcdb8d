//! End-to-end encryption: sessions keyed from a shared secret, messages
//! sealed with ChaCha20-Poly1305 under counted nonces, replay refusal and
//! key rotation.

use vstd::prelude::*;
use vstd::bytes::{spec_u64_from_le_bytes, spec_u64_to_le_bytes};
use vstd::utf8::encode_utf8;
use crate::clock::unix_now_secs;
use crate::security::error::{EncryptionError, SecurityError, SecurityResult};
use crate::security::identity::{PeerId, sha256_digest, sha256_spec};
use crate::security::identity::device::{append_bytes, take_array, take_vec};
use crate::security::peer_map::TextMap;
use crate::security::secure_memory::SecureKey;
use crate::text::append_str;
use crate::unique_id::{new_uuid, uuid_hyphenated, uuid_text};

verus! {

/// The error of the AEAD cipher.
#[verifier::external_type_specification]
#[verifier::external_body]
pub struct ExAeadError(chacha20poly1305::Error);

/// The error of a key of unusable length.
#[verifier::external_type_specification]
#[verifier::external_body]
pub struct ExInvalidLength(hmac::digest::InvalidLength);

/// An X25519 secret usable for one key agreement.
#[verifier::external_type_specification]
#[verifier::external_body]
pub struct ExEphemeralSecret(x25519_dalek::EphemeralSecret);

/// An X25519 public key.
#[verifier::external_type_specification]
#[verifier::external_body]
pub struct ExX25519PublicKey(x25519_dalek::PublicKey);

/// The name for HMAC-SHA256 of `message` under `key`.
pub uninterp spec fn hmac_sha256_spec(key: Seq<u8>, message: Seq<u8>) -> Seq<u8>;

/// The name for the ChaCha20-Poly1305 sealing of `plaintext` (ciphertext
/// followed by its tag) under `key` and `nonce`, without associated data.
pub uninterp spec fn chacha20poly1305_seal(key: Seq<u8>, nonce: Seq<u8>, plaintext: Seq<u8>) -> Seq<u8>;

/// The name for the ChaCha20-Poly1305 opening of `ciphertext` under `key`
/// and `nonce`: the plaintext when the tag is authentic.
pub uninterp spec fn chacha20poly1305_open(key: Seq<u8>, nonce: Seq<u8>, ciphertext: Seq<u8>) -> Option<Seq<u8>>;

/// Whether ChaCha20-Poly1305 takes a body of `n` bytes: fewer than
/// `u32::MAX` blocks of 64 bytes.
pub open spec fn aead_len_ok(n: nat) -> bool {
    n / 64 < 0xffff_ffff
}

/// HMAC-SHA256 of `message` under a 32-byte key.
///
/// Trusted: computes the MAC with `hmac::Hmac<sha2::Sha256>` (`new_from_slice`,
/// `update`, `finalize`). The result is named; the contract also says that
/// `new_from_slice` never fails, which the source of `hmac` shows (it accepts
/// keys of any length).
#[verifier::external_body]
fn hmac_sha256(key: &[u8; 32], message: &[u8]) -> (r: Result<[u8; 32], hmac::digest::InvalidLength>)
    ensures
        r is Ok,
        r matches Ok(m) ==> m@ == hmac_sha256_spec(key@, message@),
{
    match <hmac::Hmac<sha2::Sha256> as hmac::Mac>::new_from_slice(key) {
        Ok(mut mac) => {
            hmac::Mac::update(&mut mac, message);
            Ok(hmac::Mac::finalize(mac).into_bytes().into())
        },
        Err(e) => Err(e),
    }
}

/// Seal `plaintext` with ChaCha20-Poly1305 under `key` and `nonce`.
///
/// Trusted: calls `chacha20poly1305::aead::Aead::encrypt`. The result is
/// named; the contract also says when it fails, as the crate's source shows:
/// exactly when the plaintext has `u32::MAX` blocks of 64 bytes or more.
#[verifier::external_body]
fn aead_seal(key: &[u8; 32], nonce: &[u8; 12], plaintext: &[u8]) -> (r: Result<Vec<u8>, chacha20poly1305::Error>)
    ensures
        r is Ok <==> aead_len_ok(plaintext@.len()),
        r matches Ok(c) ==> c@ == chacha20poly1305_seal(key@, nonce@, plaintext@),
{
    let cipher = <chacha20poly1305::ChaCha20Poly1305 as chacha20poly1305::KeyInit>::new(
        chacha20poly1305::Key::from_slice(key),
    );
    chacha20poly1305::aead::Aead::encrypt(&cipher, chacha20poly1305::Nonce::from_slice(nonce), plaintext)
}

/// Open `ciphertext` with ChaCha20-Poly1305 under `key` and `nonce`.
///
/// Trusted: calls `chacha20poly1305::aead::Aead::decrypt`. The result is
/// named; the contract also states the correctness of the cipher that the
/// `aead` crate documents: what `encrypt` sealed under a key and nonce,
/// `decrypt` opens under the same key and nonce to the same plaintext.
#[verifier::external_body]
fn aead_open(key: &[u8; 32], nonce: &[u8; 12], ciphertext: &[u8]) -> (r: Result<Vec<u8>, chacha20poly1305::Error>)
    ensures
        r matches Ok(p) ==> chacha20poly1305_open(key@, nonce@, ciphertext@) == Some(p@),
        r is Err ==> chacha20poly1305_open(key@, nonce@, ciphertext@) is None,
        r is Ok || forall|p: Seq<u8>|
            !(aead_len_ok(p.len()) && ciphertext@ == #[trigger] chacha20poly1305_seal(key@, nonce@, p)),
        r matches Ok(q) ==> forall|p: Seq<u8>|
            aead_len_ok(p.len()) && ciphertext@ == #[trigger] chacha20poly1305_seal(key@, nonce@, p) ==> q@ == p,
{
    let cipher = <chacha20poly1305::ChaCha20Poly1305 as chacha20poly1305::KeyInit>::new(
        chacha20poly1305::Key::from_slice(key),
    );
    chacha20poly1305::aead::Aead::decrypt(&cipher, chacha20poly1305::Nonce::from_slice(nonce), ciphertext)
}

/// The name for the X25519 public key of an ephemeral secret.
pub uninterp spec fn x25519_public_of(secret: x25519_dalek::EphemeralSecret) -> x25519_dalek::PublicKey;

/// The name for the 32-byte X25519 shared secret of our ephemeral secret and
/// their public key.
pub uninterp spec fn x25519_shared(secret: x25519_dalek::EphemeralSecret, their_public: x25519_dalek::PublicKey) -> Seq<u8>;

/// A fresh X25519 ephemeral secret from the operating system's generator.
///
/// Trusted: calls `x25519_dalek::EphemeralSecret::random_from_rng` with
/// `rand::rngs::OsRng`; the secret depends on chance, nothing is stated.
#[verifier::external_body]
fn x25519_ephemeral_secret() -> (r: x25519_dalek::EphemeralSecret) {
    x25519_dalek::EphemeralSecret::random_from_rng(rand::rngs::OsRng)
}

/// The X25519 public key of an ephemeral secret.
///
/// Trusted: calls `x25519_dalek::PublicKey::from`, which multiplies the base
/// point by the secret scalar: the key depends on the secret alone, and is
/// named.
#[verifier::external_body]
fn x25519_public_key(secret: &x25519_dalek::EphemeralSecret) -> (r: x25519_dalek::PublicKey)
    ensures
        r == x25519_public_of(*secret),
{
    x25519_dalek::PublicKey::from(secret)
}

/// The X25519 shared secret of our ephemeral secret and their public key.
///
/// Trusted: calls `x25519_dalek::EphemeralSecret::diffie_hellman` and
/// `SharedSecret::to_bytes`. The 32 bytes depend on the two keys alone and
/// are named; Diffie-Hellman agreement, which x25519-dalek documents, says
/// that the peer whose public key we used derives the same bytes from its
/// own secret and our public key.
#[verifier::external_body]
fn x25519_agree(secret: x25519_dalek::EphemeralSecret, their_public: &x25519_dalek::PublicKey) -> (r: [u8; 32])
    ensures
        r@ == x25519_shared(secret, *their_public),
        forall|theirs: x25519_dalek::EphemeralSecret|
            *their_public == x25519_public_of(theirs) ==> r@ == #[trigger] x25519_shared(theirs, x25519_public_of(secret)),
{
    secret.diffie_hellman(their_public).to_bytes()
}

/// Session ID for encrypted communications: a random UUID and its text.
#[derive(Debug)]
pub struct SessionId {
    id: uuid::Uuid,
    text: String,
}

impl View for SessionId {
    type V = Seq<char>;

    /// The text of the identifier.
    closed spec fn view(&self) -> Seq<char> {
        self.text@
    }
}

impl Clone for SessionId {
    fn clone(&self) -> (r: Self)
        ensures
            r@ == self@,
            r.uuid_view() == self.uuid_view(),
    {
        Self { id: self.id, text: self.text.clone() }
    }
}

impl SessionId {
    /// The UUID.
    pub closed spec fn uuid_view(&self) -> uuid::Uuid {
        self.id
    }

    /// A new random session identifier.
    pub fn new() -> (r: Self)
        ensures
            r@.len() == 36,
    {
        Self::from_uuid(new_uuid())
    }

    /// The session identifier of a UUID.
    pub fn from_uuid(id: uuid::Uuid) -> (r: Self)
        ensures
            r.uuid_view() == id,
            r@ == uuid_hyphenated(id),
            r@.len() == 36,
    {
        let text = uuid_text(&id);
        Self { id, text }
    }

    /// The UUID.
    pub fn as_uuid(&self) -> (r: &uuid::Uuid)
        ensures
            *r == self.uuid_view(),
    {
        &self.id
    }

    /// The text of the identifier (the hyphenated UUID).
    pub fn to_string(&self) -> (r: String)
        ensures
            r@ == self@,
    {
        self.text.clone()
    }
}

impl Default for SessionId {
    fn default() -> (r: Self)
        ensures
            r@.len() == 36,
    {
        Self::new()
    }
}

/// What a session holds: its identifier and peer, the shared secret and the
/// two keys derived from it, the next send counter, the last counter
/// received, and when it was made and last rekeyed.
pub ghost struct SessionView {
    pub id: Seq<char>,
    pub peer: Seq<u8>,
    pub secret: Seq<u8>,
    pub send_key: Seq<u8>,
    pub recv_key: Seq<u8>,
    pub send_counter: u64,
    pub last_recv: Option<u64>,
    pub created: u64,
    pub last_rotation: u64,
}

/// The label of the sending key.
pub open spec fn send_label() -> Seq<u8> {
    encode_utf8("kizuna-send-key-v1"@)
}

/// The label of the receiving key.
pub open spec fn recv_label() -> Seq<u8> {
    encode_utf8("kizuna-recv-key-v1"@)
}

/// A session freshly made from `secret` at `now`: keys are the HMACs of the
/// two labels under the secret, counters start over.
pub open spec fn fresh_session(id: Seq<char>, peer: Seq<u8>, secret: Seq<u8>, now: u64) -> SessionView {
    SessionView {
        id,
        peer,
        secret,
        send_key: hmac_sha256_spec(secret, send_label()),
        recv_key: hmac_sha256_spec(secret, recv_label()),
        send_counter: 0,
        last_recv: None,
        created: now,
        last_rotation: now,
    }
}

/// Whether more than `limit` seconds have passed from `start` to `now` (a
/// clock that went back counts as no time passed).
pub open spec fn elapsed_over(start: u64, now: u64, limit: u64) -> bool {
    now >= start && now - start > limit
}

/// The session after rekeying at `now`: the new secret is the SHA-256 of
/// the old one followed by `now` (little-endian); keys are derived anew and
/// counters start over.
pub open spec fn rotated(s: SessionView, now: u64) -> SessionView {
    let secret = sha256_spec(s.secret + spec_u64_to_le_bytes(now));
    SessionView {
        secret,
        send_key: hmac_sha256_spec(secret, send_label()),
        recv_key: hmac_sha256_spec(secret, recv_label()),
        send_counter: 0,
        last_recv: None,
        last_rotation: now,
        ..s
    }
}

/// The nonce of counter `c`: four zero bytes, then `c` little-endian.
pub open spec fn nonce_bytes(c: u64) -> Seq<u8> {
    seq![0u8, 0u8, 0u8, 0u8] + spec_u64_to_le_bytes(c)
}

/// The counter of a nonce: its last eight bytes, little-endian.
pub open spec fn nonce_counter(n: Seq<u8>) -> u64 {
    spec_u64_from_le_bytes(n.subrange(4, 12))
}

/// The counter after `c`, wrapping at the top.
pub open spec fn next_counter(c: u64) -> u64 {
    if c == u64::MAX {
        0
    } else {
        (c + 1) as u64
    }
}

/// Whether a message with counter `c` is taken after the counter `last` was
/// received: only counters above the last one are.
pub open spec fn accepts(last: Option<u64>, c: u64) -> bool {
    match last {
        None => true,
        Some(l) => c > l,
    }
}

/// The session as it sends at `now`: rekeyed first when the rotation
/// interval has passed.
pub open spec fn prepared_for_send(s: SessionView, interval: u64, now: u64) -> SessionView {
    if elapsed_over(s.last_rotation, now, interval) {
        rotated(s, now)
    } else {
        s
    }
}

/// The message that session `s` sends for `data`: the nonce of its counter,
/// then the sealing of the data under its sending key and that nonce.
pub open spec fn sealed(s: SessionView, data: Seq<u8>) -> Seq<u8> {
    nonce_bytes(s.send_counter) + chacha20poly1305_seal(s.send_key, nonce_bytes(s.send_counter), data)
}

/// The session after sending one message.
pub open spec fn after_send(s: SessionView) -> SessionView {
    SessionView { send_counter: next_counter(s.send_counter), ..s }
}

/// The session after taking a message with counter `c`.
pub open spec fn after_receive(s: SessionView, c: u64) -> SessionView {
    SessionView { last_recv: Some(c), ..s }
}

/// Whether `e` is the error for a message that fails authentication or replays.
pub open spec fn is_auth_error(e: SecurityError) -> bool {
    e matches SecurityError::Encryption(EncryptionError::AuthenticationFailed)
}

/// What taking `data` does to session `s` and answers: too short a message
/// is a decryption error, a counter not above the last one received is
/// refused, otherwise the counter is recorded and the body opened.
pub open spec fn receive_step(s: SessionView, data: Seq<u8>, post: SessionView, r: SecurityResult<Vec<u8>>) -> bool {
    if data.len() < 12 {
        &&& post == s
        &&& r matches Err(SecurityError::Encryption(EncryptionError::DecryptionFailed(_)))
    } else {
        let nonce = data.subrange(0, 12);
        let c = nonce_counter(nonce);
        if !accepts(s.last_recv, c) {
            &&& post == s
            &&& r matches Err(e) && is_auth_error(e)
        } else {
            &&& post == after_receive(s, c)
            &&& match chacha20poly1305_open(s.send_key, nonce, data.subrange(12, data.len() as int)) {
                Some(p) => r matches Ok(v) && v@ == p,
                None => r matches Err(e) && is_auth_error(e),
            }
        }
    }
}

/// Taking a message that a session with the same sending key sealed at a
/// counter this session accepts gives back the data.
pub open spec fn opens_sealed(s: SessionView, data: Seq<u8>, r: SecurityResult<Vec<u8>>) -> bool {
    forall|t: SessionView, p: Seq<u8>|
        #![trigger sealed(t, p)]
        t.send_key == s.send_key && accepts(s.last_recv, t.send_counter) && aead_len_ok(p.len()) && data == sealed(t, p)
            ==> (r matches Ok(v) && v@ == p)
}

/// Security session: the keys of one peer, with message counters.
pub struct SecuritySession {
    session_id: SessionId,
    peer_id: PeerId,
    shared_secret: SecureKey<32>,
    send_key: SecureKey<32>,
    recv_key: SecureKey<32>,
    send_nonce_counter: u64,
    last_recv_nonce: Option<u64>,
    created_at: u64,
    last_rotation: u64,
}

impl View for SecuritySession {
    type V = SessionView;

    closed spec fn view(&self) -> SessionView {
        SessionView {
            id: self.session_id@,
            peer: self.peer_id@,
            secret: self.shared_secret.bytes(),
            send_key: self.send_key.bytes(),
            recv_key: self.recv_key.bytes(),
            send_counter: self.send_nonce_counter,
            last_recv: self.last_recv_nonce,
            created: self.created_at,
            last_rotation: self.last_rotation,
        }
    }
}

impl Clone for SecuritySession {
    fn clone(&self) -> (r: Self)
        ensures
            r@ == self@,
    {
        Self {
            session_id: self.session_id.clone(),
            peer_id: self.peer_id,
            shared_secret: self.shared_secret.clone(),
            send_key: self.send_key.clone(),
            recv_key: self.recv_key.clone(),
            send_nonce_counter: self.send_nonce_counter,
            last_recv_nonce: self.last_recv_nonce,
            created_at: self.created_at,
            last_rotation: self.last_rotation,
        }
    }
}

/// The nonce of counter `c`.
fn nonce_for(c: u64) -> (r: [u8; 12])
    ensures
        r@ == nonce_bytes(c),
{
    let b = vstd::bytes::u64_to_le_bytes(c);
    let mut n = [0u8; 12];
    let mut i: usize = 0;
    while i < 8
        invariant
            i <= 8,
            b@ == spec_u64_to_le_bytes(c),
            b@.len() == 8,
            n@.len() == 12,
            forall|j: int| 0 <= j < 4 ==> n@[j] == 0u8,
            forall|j: int| 0 <= j < i ==> n@[4 + j] == b@[j],
        decreases 8 - i,
    {
        n[4 + i] = b[i];
        i = i + 1;
    }
    assert(n@ =~= nonce_bytes(c));
    n
}

/// The counter written in a nonce.
fn counter_of(nonce: &[u8; 12]) -> (r: u64)
    ensures
        r == nonce_counter(nonce@),
{
    let tail = take_vec(nonce, 4, 12);
    vstd::bytes::u64_from_le_bytes(tail.as_slice())
}

/// The counter of the nonce of `c` is `c`.
pub proof fn lemma_nonce_counter(c: u64)
    ensures
        nonce_bytes(c).len() == 12,
        nonce_counter(nonce_bytes(c)) == c,
{
    vstd::bytes::lemma_auto_spec_u64_to_from_le_bytes();
    assert(nonce_bytes(c).subrange(4, 12) =~= spec_u64_to_le_bytes(c));
}

impl SecuritySession {
    /// A session with `peer_id` from `shared_secret`, made at `now`.
    fn new_at(peer_id: PeerId, shared_secret: [u8; 32], now: u64) -> (r: SecurityResult<Self>)
        ensures
            r matches Ok(s) && s@ == fresh_session(s@.id, peer_id@, shared_secret@, now) && s@.id.len() == 36,
    {
        let (send_key, recv_key) = match Self::derive_session_keys(&shared_secret) {
            Ok(keys) => keys,
            Err(e) => return Err(e),
        };
        Ok(Self {
            session_id: SessionId::new(),
            peer_id,
            shared_secret: SecureKey::new(shared_secret),
            send_key: SecureKey::new(send_key),
            recv_key: SecureKey::new(recv_key),
            send_nonce_counter: 0,
            last_recv_nonce: None,
            created_at: now,
            last_rotation: now,
        })
    }

    /// The sending and receiving keys of a shared secret: the HMAC-SHA256 of
    /// each key's label under the secret.
    fn derive_session_keys(shared_secret: &[u8; 32]) -> (r: SecurityResult<([u8; 32], [u8; 32])>)
        ensures
            r matches Ok((s, v)) && s@ == hmac_sha256_spec(shared_secret@, send_label())
                && v@ == hmac_sha256_spec(shared_secret@, recv_label()),
    {
        let send_label_text = "kizuna-send-key-v1";
        let recv_label_text = "kizuna-recv-key-v1";
        let send = match hmac_sha256(shared_secret, send_label_text.as_bytes()) {
            Ok(k) => k,
            Err(_) => return Err(key_exchange_failed()),
        };
        let recv = match hmac_sha256(shared_secret, recv_label_text.as_bytes()) {
            Ok(k) => k,
            Err(_) => return Err(key_exchange_failed()),
        };
        Ok((send, recv))
    }

    /// The session identifier.
    pub fn session_id(&self) -> (r: &SessionId)
        ensures
            r@ == self@.id,
    {
        &self.session_id
    }

    /// The peer of the session.
    pub fn peer_id(&self) -> (r: &PeerId)
        ensures
            r@ == self@.peer,
    {
        &self.peer_id
    }

    /// The nonce for the next message sent; the counter moves on (wrapping).
    fn next_send_nonce(&mut self) -> (r: [u8; 12])
        ensures
            r@ == nonce_bytes(old(self)@.send_counter),
            final(self)@ == after_send(old(self)@),
    {
        let counter = self.send_nonce_counter;
        self.send_nonce_counter = self.send_nonce_counter.wrapping_add(1);
        nonce_for(counter)
    }

    /// Take the counter of a received nonce if it is above the last one
    /// received; refuse it otherwise (a replay).
    fn validate_recv_nonce(&mut self, nonce: &[u8; 12]) -> (r: SecurityResult<()>)
        ensures
            accepts(old(self)@.last_recv, nonce_counter(nonce@)) ==> r is Ok && final(self)@ == after_receive(
                old(self)@,
                nonce_counter(nonce@),
            ),
            !accepts(old(self)@.last_recv, nonce_counter(nonce@)) ==> (r matches Err(e) && is_auth_error(e))
                && final(self)@ == old(self)@,
    {
        let counter = counter_of(nonce);
        let is_valid = match self.last_recv_nonce {
            None => true,
            Some(last) => !crate::security::constant_time::ConstantTime::less_than_u64(counter, last)
                && counter != last,
        };
        if !is_valid {
            return Err(SecurityError::Encryption(EncryptionError::AuthenticationFailed));
        }
        self.last_recv_nonce = Some(counter);
        Ok(())
    }

    /// Whether the session is more than `timeout_secs` old at `now`.
    pub fn is_expired_at(&self, timeout_secs: u64, now: u64) -> (r: bool)
        ensures
            r == elapsed_over(self@.created, now, timeout_secs),
    {
        now >= self.created_at && now - self.created_at > timeout_secs
    }

    /// Whether the session is more than `timeout_secs` old now.
    pub fn is_expired(&self, timeout_secs: u64) -> (r: bool)
        ensures
            exists|now: u64| r == #[trigger] elapsed_over(self@.created, now, timeout_secs),
    {
        let now = unix_now_secs();
        self.is_expired_at(timeout_secs, now)
    }

    /// Whether more than `interval_secs` have passed since the last rekeying, at `now`.
    pub fn needs_rotation_at(&self, interval_secs: u64, now: u64) -> (r: bool)
        ensures
            r == elapsed_over(self@.last_rotation, now, interval_secs),
    {
        now >= self.last_rotation && now - self.last_rotation > interval_secs
    }

    /// Whether more than `interval_secs` have passed since the last rekeying.
    pub fn needs_rotation(&self, interval_secs: u64) -> (r: bool)
        ensures
            exists|now: u64| r == #[trigger] elapsed_over(self@.last_rotation, now, interval_secs),
    {
        let now = unix_now_secs();
        self.needs_rotation_at(interval_secs, now)
    }

    /// Rekey at `now`: the old keys are wiped, a new secret is hashed from
    /// the old one and the time, new keys are derived, counters start over.
    pub fn rotate_keys_at(&mut self, now: u64) -> (r: SecurityResult<()>)
        ensures
            r is Ok,
            final(self)@ == rotated(old(self)@, now),
    {
        let time_bytes = vstd::bytes::u64_to_le_bytes(now);
        let mut input: Vec<u8> = Vec::new();
        append_bytes(&mut input, self.shared_secret.as_bytes());
        append_bytes(&mut input, time_bytes.as_slice());
        let new_shared_secret = sha256_digest(input.as_slice());
        self.send_key.zeroize_key();
        self.recv_key.zeroize_key();
        self.shared_secret.zeroize_key();
        let (send_key, recv_key) = match Self::derive_session_keys(&new_shared_secret) {
            Ok(keys) => keys,
            Err(e) => return Err(e),
        };
        self.shared_secret = SecureKey::new(new_shared_secret);
        self.send_key = SecureKey::new(send_key);
        self.recv_key = SecureKey::new(recv_key);
        self.last_rotation = now;
        self.send_nonce_counter = 0;
        self.last_recv_nonce = None;
        Ok(())
    }

    /// Rekey now (see `rotate_keys_at`).
    pub fn rotate_keys(&mut self) -> (r: SecurityResult<()>)
        ensures
            r is Ok,
            exists|now: u64| final(self)@ == #[trigger] rotated(old(self)@, now),
    {
        let now = unix_now_secs();
        self.rotate_keys_at(now)
    }

    /// Seal `data` as the next message of this session at `now`, rekeying
    /// first when the rotation interval has passed: the nonce, then the
    /// ciphertext with its tag.
    fn seal_message(&mut self, data: &[u8], rotation_interval: u64, now: u64) -> (r: SecurityResult<Vec<u8>>)
        ensures
            ({
                let t = prepared_for_send(old(self)@, rotation_interval, now);
                if aead_len_ok(data@.len()) {
                    &&& r matches Ok(m) && m@ == sealed(t, data@)
                    &&& final(self)@ == after_send(t)
                } else {
                    &&& r matches Err(SecurityError::Encryption(EncryptionError::EncryptionFailed(_)))
                    &&& final(self)@ == after_send(t)
                }
            }),
    {
        if self.needs_rotation_at(rotation_interval, now) {
            let _ = self.rotate_keys_at(now);
        }
        let key: [u8; 32] = *self.send_key.as_bytes();
        let nonce = self.next_send_nonce();
        let ciphertext = match aead_seal(&key, &nonce, data) {
            Ok(c) => c,
            Err(_) => {
                let mut msg = String::new();
                append_str(&mut msg, "Encryption failed");
                return Err(SecurityError::Encryption(EncryptionError::EncryptionFailed(msg)));
            },
        };
        let mut result: Vec<u8> = Vec::new();
        append_bytes(&mut result, &nonce);
        append_bytes(&mut result, ciphertext.as_slice());
        Ok(result)
    }

    /// Take a message: its nonce must carry a counter above the last one
    /// received, and its body must open under the session's key.
    fn open_message(&mut self, data: &[u8]) -> (r: SecurityResult<Vec<u8>>)
        ensures
            receive_step(old(self)@, data@, final(self)@, r),
            opens_sealed(old(self)@, data@, r),
    {
        if data.len() < 12 {
            proof {
                assert forall|t: SessionView, p: Seq<u8>| #[trigger] sealed(t, p).len() >= 12 by {
                    lemma_nonce_counter(t.send_counter);
                }
            }
            let mut msg = String::new();
            append_str(&mut msg, "Data too short to contain nonce");
            return Err(SecurityError::Encryption(EncryptionError::DecryptionFailed(msg)));
        }
        let nonce: [u8; 12] = take_array(data, 0);
        let body = take_vec(data, 12, data.len());
        let ghost s = self@;
        proof {
            assert forall|t: SessionView, p: Seq<u8>|
                #![trigger sealed(t, p)]
                t.send_key == s.send_key && accepts(s.last_recv, t.send_counter) && aead_len_ok(p.len()) && data@
                    == sealed(t, p) implies nonce@ == nonce_bytes(t.send_counter) && body@ == chacha20poly1305_seal(
                s.send_key,
                nonce@,
                p,
            ) && accepts(s.last_recv, nonce_counter(nonce@)) by {
                lemma_nonce_counter(t.send_counter);
                assert(data@.subrange(0, 12) =~= nonce_bytes(t.send_counter));
                assert(data@.subrange(12, data@.len() as int) =~= chacha20poly1305_seal(
                    t.send_key,
                    nonce_bytes(t.send_counter),
                    p,
                ));
            }
        }
        match self.validate_recv_nonce(&nonce) {
            Ok(()) => {},
            Err(e) => return Err(e),
        }
        let key: [u8; 32] = *self.send_key.as_bytes();
        match aead_open(&key, &nonce, body.as_slice()) {
            Ok(p) => Ok(p),
            Err(_) => Err(SecurityError::Encryption(EncryptionError::AuthenticationFailed)),
        }
    }
}

/// Key exchange handler for X25519 ECDH: an ephemeral secret and its public key.
pub struct KeyExchange {
    secret: x25519_dalek::EphemeralSecret,
    public_key: x25519_dalek::PublicKey,
}

impl KeyExchange {
    /// Our public key.
    pub closed spec fn public_view(&self) -> x25519_dalek::PublicKey {
        self.public_key
    }

    /// Our ephemeral secret.
    pub closed spec fn secret_view(&self) -> x25519_dalek::EphemeralSecret {
        self.secret
    }

    /// The public key is that of the secret.
    #[verifier::type_invariant]
    closed spec fn key_pair(&self) -> bool {
        self.public_key == x25519_public_of(self.secret)
    }

    /// A key exchange with a fresh random ephemeral secret and its public key.
    pub fn new() -> (r: Self)
        ensures
            r.public_view() == x25519_public_of(r.secret_view()),
    {
        let secret = x25519_ephemeral_secret();
        let public_key = x25519_public_key(&secret);
        Self { secret, public_key }
    }

    /// Our public key, to send to the peer.
    pub fn public_key(&self) -> (r: &x25519_dalek::PublicKey)
        ensures
            *r == self.public_view(),
    {
        &self.public_key
    }

    /// The shared secret with the peer's public key; the secret is used up.
    ///
    /// Both sides agree: a peer whose public key we used derives the same
    /// bytes from its own secret and our public key.
    pub fn exchange(self, peer_public_key: &x25519_dalek::PublicKey) -> (r: [u8; 32])
        ensures
            r@ == x25519_shared(self.secret_view(), *peer_public_key),
            forall|theirs: x25519_dalek::EphemeralSecret|
                *peer_public_key == x25519_public_of(theirs) ==> r@ == #[trigger] x25519_shared(theirs, self.public_view()),
    {
        proof {
            use_type_invariant(&self);
        }
        x25519_agree(self.secret, peer_public_key)
    }
}

/// The sessions of `m` that have not expired at `now`.
pub open spec fn live_sessions(m: Map<Seq<char>, SessionView>, timeout_secs: u64, now: u64) -> Map<Seq<char>, SessionView> {
    Map::new(|k: Seq<char>| m.dom().contains(k) && !elapsed_over(m[k].created, now, timeout_secs), |k: Seq<char>| m[k])
}

/// The sessions of `m` with the expired ones among `done` dropped.
spec fn partially_cleaned(
    m: Map<Seq<char>, SessionView>,
    timeout_secs: u64,
    now: u64,
    done: Set<Seq<char>>,
) -> Map<Seq<char>, SessionView> {
    Map::new(
        |k: Seq<char>| m.dom().contains(k) && (!done.contains(k) || !elapsed_over(m[k].created, now, timeout_secs)),
        |k: Seq<char>| m[k],
    )
}

/// What encrypting `data` for session `k` at `now` does: a missing or an
/// expired session is an error and nothing changes; otherwise the session
/// (rekeyed first if due) sends the sealed message.
pub open spec fn encrypt_step(
    m: Map<Seq<char>, SessionView>,
    timeout_secs: u64,
    interval: u64,
    k: Seq<char>,
    data: Seq<u8>,
    now: u64,
    post: Map<Seq<char>, SessionView>,
    r: SecurityResult<Vec<u8>>,
) -> bool {
    if !m.dom().contains(k) {
        &&& post == m
        &&& r matches Err(SecurityError::Encryption(EncryptionError::SessionNotFound(t))) && t@ == k
    } else if elapsed_over(m[k].created, now, timeout_secs) {
        &&& post == m
        &&& r matches Err(SecurityError::Encryption(EncryptionError::SessionExpired(t))) && t@ == k
    } else {
        let t = prepared_for_send(m[k], interval, now);
        &&& post == m.insert(k, after_send(t))
        &&& if aead_len_ok(data.len()) {
            r matches Ok(c) && c@ == sealed(t, data)
        } else {
            r matches Err(SecurityError::Encryption(EncryptionError::EncryptionFailed(_)))
        }
    }
}

/// What decrypting `data` for session `k` at `now` does: a missing or an
/// expired session is an error and nothing changes; otherwise the session
/// takes the message (see `receive_step`).
pub open spec fn decrypt_step(
    m: Map<Seq<char>, SessionView>,
    timeout_secs: u64,
    k: Seq<char>,
    data: Seq<u8>,
    now: u64,
    post: Map<Seq<char>, SessionView>,
    r: SecurityResult<Vec<u8>>,
) -> bool {
    if !m.dom().contains(k) {
        &&& post == m
        &&& r matches Err(SecurityError::Encryption(EncryptionError::SessionNotFound(t))) && t@ == k
    } else if elapsed_over(m[k].created, now, timeout_secs) {
        &&& post == m
        &&& r matches Err(SecurityError::Encryption(EncryptionError::SessionExpired(t))) && t@ == k
    } else {
        &&& post.dom().contains(k)
        &&& post == m.insert(k, post[k])
        &&& receive_step(m[k], data, post[k], r)
        &&& opens_sealed(m[k], data, r)
    }
}

/// What a session sends it takes back: when encrypting `data` for session
/// `k` succeeds and the result is then decrypted for the same session
/// before it expires, the data comes back; the session then accepts its
/// next message too, unless its counter wrapped. This holds of every
/// session that has taken no message at or past its own send counter, such
/// as a fresh or a freshly rekeyed one.
pub proof fn lemma_encrypt_then_decrypt(
    m0: Map<Seq<char>, SessionView>,
    timeout_secs: u64,
    interval: u64,
    k: Seq<char>,
    data: Seq<u8>,
    t_enc: u64,
    m1: Map<Seq<char>, SessionView>,
    c: Vec<u8>,
    t_dec: u64,
    m2: Map<Seq<char>, SessionView>,
    r: SecurityResult<Vec<u8>>,
)
    requires
        m0.dom().contains(k),
        accepts(m0[k].last_recv, m0[k].send_counter),
        encrypt_step(m0, timeout_secs, interval, k, data, t_enc, m1, Ok(c)),
        decrypt_step(m1, timeout_secs, k, c@, t_dec, m2, r),
        !elapsed_over(m1[k].created, t_dec, timeout_secs),
    ensures
        r matches Ok(p) && p@ == data,
        m2[k].send_counter != 0 ==> accepts(m2[k].last_recv, m2[k].send_counter),
{
    let t = prepared_for_send(m0[k], interval, t_enc);
    assert(m1[k] == after_send(t));
    assert(accepts(t.last_recv, t.send_counter));
    assert(c@ == sealed(t, data));
    assert(opens_sealed(m1[k], c@, r));
    assert(t.send_key == m1[k].send_key && accepts(m1[k].last_recv, t.send_counter) && aead_len_ok(data.len()));
    lemma_nonce_counter(t.send_counter);
    assert(c@.subrange(0, 12) =~= nonce_bytes(t.send_counter));
}

/// Encryption engine: the sessions by identifier, their timeout and the
/// interval between rekeyings (both in seconds).
pub struct EncryptionEngineImpl {
    sessions: TextMap<SecuritySession>,
    session_timeout: u64,
    key_rotation_interval: u64,
}

impl EncryptionEngineImpl {
    /// The sessions, by identifier.
    pub closed spec fn sessions_view(&self) -> Map<Seq<char>, SessionView> {
        Map::new(|k: Seq<char>| self.sessions@.dom().contains(k), |k: Seq<char>| self.sessions@[k]@)
    }

    /// Seconds after which a session expires.
    pub closed spec fn timeout_view(&self) -> u64 {
        self.session_timeout
    }

    /// Seconds between rekeyings.
    pub closed spec fn rotation_view(&self) -> u64 {
        self.key_rotation_interval
    }

    /// An engine without sessions.
    pub fn new(session_timeout: u64, key_rotation_interval: u64) -> (r: Self)
        ensures
            r.sessions_view() == Map::<Seq<char>, SessionView>::empty(),
            r.timeout_view() == session_timeout,
            r.rotation_view() == key_rotation_interval,
    {
        let r = Self { sessions: TextMap::new(), session_timeout, key_rotation_interval };
        assert(r.sessions_view() =~= Map::<Seq<char>, SessionView>::empty());
        r
    }

    /// An engine with one-hour sessions rekeyed every fifteen minutes.
    pub fn with_defaults() -> (r: Self)
        ensures
            r.sessions_view() == Map::<Seq<char>, SessionView>::empty(),
            r.timeout_view() == 3600,
            r.rotation_view() == 900,
    {
        Self::new(3600, 900)
    }

    /// Keep `s` under the identifier `k`.
    fn store(&mut self, k: String, s: SecuritySession)
        ensures
            final(self).sessions_view() == old(self).sessions_view().insert(k@, s@),
            final(self).timeout_view() == old(self).timeout_view(),
            final(self).rotation_view() == old(self).rotation_view(),
    {
        let ghost sv = s@;
        self.sessions.insert(k, s);
        assert(self.sessions_view() =~= old(self).sessions_view().insert(k@, sv));
    }

    /// Make a session with `peer_id` from a shared secret at `now` and keep it.
    pub fn establish_session_from_secret_at(&mut self, peer_id: PeerId, shared_secret: [u8; 32], now: u64) -> (r: SecurityResult<SessionId>)
        ensures
            r matches Ok(id) && id@.len() == 36 && final(self).sessions_view() == old(self).sessions_view().insert(
                id@,
                fresh_session(id@, peer_id@, shared_secret@, now),
            ),
            final(self).timeout_view() == old(self).timeout_view(),
            final(self).rotation_view() == old(self).rotation_view(),
    {
        let session = match SecuritySession::new_at(peer_id, shared_secret, now) {
            Ok(s) => s,
            Err(e) => return Err(e),
        };
        let id = session.session_id().clone();
        let key = id.to_string();
        self.store(key, session);
        Ok(id)
    }

    /// Agree on a secret with the peer's public key and make a session from it now.
    pub fn establish_session_with_exchange(
        &mut self,
        peer_id: PeerId,
        our_public_key: &x25519_dalek::PublicKey,
        peer_public_key: &x25519_dalek::PublicKey,
        our_secret: x25519_dalek::EphemeralSecret,
    ) -> (r: SecurityResult<SessionId>)
        ensures
            r matches Ok(id) && exists|now: u64|
                final(self).sessions_view() == #[trigger] old(self).sessions_view().insert(
                    id@,
                    fresh_session(id@, peer_id@, x25519_shared(our_secret, *peer_public_key), now),
                ),
            final(self).timeout_view() == old(self).timeout_view(),
            final(self).rotation_view() == old(self).rotation_view(),
    {
        let shared_secret = x25519_agree(our_secret, peer_public_key);
        let now = unix_now_secs();
        self.establish_session_from_secret_at(peer_id, shared_secret, now)
    }

    /// A copy of the session `k`, if there is one.
    fn session_of(&self, k: &String) -> (r: Option<SecuritySession>)
        ensures
            match r {
                Some(s) => self.sessions_view().dom().contains(k@) && s@ == self.sessions_view()[k@],
                None => !self.sessions_view().dom().contains(k@),
            },
    {
        match self.sessions.get(k) {
            Some(s) => Some(s.clone()),
            None => None,
        }
    }

    /// Encrypt `data` for a session at `now` (see `encrypt_step`).
    pub fn encrypt_message_at(&mut self, session_id: &SessionId, data: &[u8], now: u64) -> (r: SecurityResult<Vec<u8>>)
        ensures
            encrypt_step(
                old(self).sessions_view(),
                old(self).timeout_view(),
                old(self).rotation_view(),
                session_id@,
                data@,
                now,
                final(self).sessions_view(),
                r,
            ),
            final(self).timeout_view() == old(self).timeout_view(),
            final(self).rotation_view() == old(self).rotation_view(),
    {
        let key = session_id.to_string();
        let mut session = match self.session_of(&key) {
            Some(s) => s,
            None => return Err(SecurityError::Encryption(EncryptionError::SessionNotFound(session_id.to_string()))),
        };
        if session.is_expired_at(self.session_timeout, now) {
            return Err(SecurityError::Encryption(EncryptionError::SessionExpired(session_id.to_string())));
        }
        let r = session.seal_message(data, self.key_rotation_interval, now);
        self.store(key, session);
        r
    }

    /// Decrypt `data` for a session at `now` (see `decrypt_step`).
    pub fn decrypt_message_at(&mut self, session_id: &SessionId, data: &[u8], now: u64) -> (r: SecurityResult<Vec<u8>>)
        ensures
            decrypt_step(
                old(self).sessions_view(),
                old(self).timeout_view(),
                session_id@,
                data@,
                now,
                final(self).sessions_view(),
                r,
            ),
            final(self).timeout_view() == old(self).timeout_view(),
            final(self).rotation_view() == old(self).rotation_view(),
    {
        let key = session_id.to_string();
        let mut session = match self.session_of(&key) {
            Some(s) => s,
            None => return Err(SecurityError::Encryption(EncryptionError::SessionNotFound(session_id.to_string()))),
        };
        if session.is_expired_at(self.session_timeout, now) {
            return Err(SecurityError::Encryption(EncryptionError::SessionExpired(session_id.to_string())));
        }
        let r = session.open_message(data);
        self.store(key, session);
        r
    }

    /// Rekey a session at `now`; an error if there is no such session.
    pub fn rotate_session_keys_at(&mut self, session_id: &SessionId, now: u64) -> (r: SecurityResult<()>)
        ensures
            old(self).sessions_view().dom().contains(session_id@) ==> r is Ok && final(self).sessions_view()
                == old(self).sessions_view().insert(session_id@, rotated(old(self).sessions_view()[session_id@], now)),
            !old(self).sessions_view().dom().contains(session_id@) ==> (r matches Err(
                SecurityError::Encryption(EncryptionError::SessionNotFound(t)),
            ) && t@ == session_id@) && final(self).sessions_view() == old(self).sessions_view(),
            final(self).timeout_view() == old(self).timeout_view(),
            final(self).rotation_view() == old(self).rotation_view(),
    {
        let key = session_id.to_string();
        let mut session = match self.session_of(&key) {
            Some(s) => s,
            None => return Err(SecurityError::Encryption(EncryptionError::SessionNotFound(session_id.to_string()))),
        };
        let r = session.rotate_keys_at(now);
        self.store(key, session);
        r
    }

    /// Drop the sessions expired at `now`; the number dropped.
    pub fn cleanup_expired_sessions_at(&mut self, now: u64) -> (r: SecurityResult<usize>)
        ensures
            final(self).sessions_view() == live_sessions(old(self).sessions_view(), old(self).timeout_view(), now),
            r matches Ok(n) && n == old(self).sessions_view().dom().len() - final(self).sessions_view().dom().len(),
            final(self).timeout_view() == old(self).timeout_view(),
            final(self).rotation_view() == old(self).rotation_view(),
    {
        let ghost pre = self.sessions_view();
        let ghost mut done: Set<Seq<char>> = Set::empty();
        let t = self.session_timeout;
        let initial_count = self.sessions.len();
        assert(pre.dom() =~= self.sessions@.dom());
        let keys = self.sessions.text_keys();
        let mut removed: usize = 0;
        let mut i: usize = 0;
        while i < keys.len()
            invariant
                i <= keys@.len(),
                t == self.session_timeout,
                self.session_timeout == old(self).session_timeout,
                self.key_rotation_interval == old(self).key_rotation_interval,
                pre == old(self).sessions_view(),
                pre.dom().finite(),
                initial_count == pre.dom().len(),
                forall|k: Seq<char>| #[trigger] pre.dom().contains(k) ==> exists|j: int| 0 <= j < keys@.len() && keys@[j]@ == k,
                forall|a: int, b: int| 0 <= a < b < keys@.len() ==> #[trigger] keys@[a]@ != #[trigger] keys@[b]@,
                forall|j: int| 0 <= j < i ==> done.contains(#[trigger] keys@[j]@),
                forall|k: Seq<char>| #[trigger] done.contains(k) ==> exists|j: int| 0 <= j < i && keys@[j]@ == k,
                self.sessions_view() == partially_cleaned(pre, t, now, done),
                self.sessions_view().dom().finite(),
                removed + self.sessions_view().dom().len() == initial_count,
            decreases keys@.len() - i,
        {
            let k = &keys[i];
            let expired = match self.sessions.get(k) {
                Some(s) => s.is_expired_at(t, now),
                None => false,
            };
            let ghost before = self.sessions_view();
            let ghost before_raw = self.sessions@;
            assert(expired == (before.dom().contains(k@) && elapsed_over(before[k@].created, now, t)));
            proof {
                if done.contains(k@) {
                    let j = choose|j: int| 0 <= j < i && keys@[j]@ == k@;
                    assert(keys@[j]@ != keys@[i as int]@);
                }
            }
            if expired {
                self.sessions.remove(k);
                proof {
                    assert(self.sessions_view().dom() =~= before.dom().remove(k@));
                }
                removed = removed + 1;
            }
            proof {
                let ghost old_done = done;
                done = done.insert(k@);
                let ghost goal = partially_cleaned(pre, t, now, done);
                assert forall|key: Seq<char>| self.sessions_view().dom().contains(key) <==> #[trigger] goal.dom().contains(key) by {
                    if key == k@ {
                        if before.dom().contains(key) {
                            assert(pre.dom().contains(key));
                            assert(before[key] == pre[key]);
                        }
                    } else {
                        assert(self.sessions@.dom().contains(key) == before_raw.dom().contains(key));
                        assert(done.contains(key) == old_done.contains(key));
                    }
                }
                assert(self.sessions_view().dom() =~= goal.dom());
                assert forall|key: Seq<char>| #[trigger] self.sessions_view().dom().contains(key) implies self.sessions_view()[key]
                    == goal[key] by {
                    assert(self.sessions@[key] == before_raw[key]);
                    assert(before[key] == pre[key]);
                }
                assert(self.sessions_view() =~= goal);
                assert forall|key: Seq<char>| #[trigger] done.contains(key) implies exists|j: int| 0 <= j < i + 1 && keys@[j]@ == key by {
                    if key != k@ {
                        assert(old_done.contains(key));
                        let j = choose|j: int| 0 <= j < i && keys@[j]@ == key;
                        assert(0 <= j < i + 1 && keys@[j]@ == key);
                    } else {
                        assert(keys@[i as int]@ == key);
                    }
                }
            }
            i = i + 1;
        }
        proof {
            assert forall|key: Seq<char>| pre.dom().contains(key) implies done.contains(key) by {
                let j = choose|j: int| 0 <= j < keys@.len() && keys@[j]@ == key;
                assert(done.contains(keys@[j]@));
            }
            assert(self.sessions_view() =~= live_sessions(pre, t, now));
        }
        Ok(removed)
    }

    /// Drop the sessions expired now; the number dropped.
    pub fn cleanup_expired_sessions(&mut self) -> (r: SecurityResult<usize>)
        ensures
            exists|now: u64| final(self).sessions_view() == #[trigger] live_sessions(
                old(self).sessions_view(),
                old(self).timeout_view(),
                now,
            ),
            r matches Ok(n) && n == old(self).sessions_view().dom().len() - final(self).sessions_view().dom().len(),
            final(self).timeout_view() == old(self).timeout_view(),
            final(self).rotation_view() == old(self).rotation_view(),
    {
        let now = unix_now_secs();
        self.cleanup_expired_sessions_at(now)
    }

    /// The number of sessions.
    pub fn session_count(&self) -> (r: usize)
        ensures
            r == self.sessions_view().dom().len(),
    {
        let n = self.sessions.len();
        assert(self.sessions_view().dom() =~= self.sessions@.dom());
        n
    }

    /// Forget a session.
    pub fn remove_session(&mut self, session_id: &SessionId) -> (r: SecurityResult<()>)
        ensures
            r is Ok,
            final(self).sessions_view() == old(self).sessions_view().remove(session_id@),
            final(self).timeout_view() == old(self).timeout_view(),
            final(self).rotation_view() == old(self).rotation_view(),
    {
        let key = session_id.to_string();
        self.sessions.remove(&key);
        assert(self.sessions_view() =~= old(self).sessions_view().remove(session_id@));
        Ok(())
    }
}

/// Thirty-two zero bytes.
pub open spec fn zero_secret() -> Seq<u8> {
    Seq::new(32, |i: int| 0u8)
}

/// Encryption engine for end-to-end encryption.
pub trait EncryptionEngine {
    /// Establish a secure session with a peer.
    fn establish_session(&mut self, peer_id: &PeerId) -> SecurityResult<SessionId>;

    /// Encrypt a message for a session.
    fn encrypt_message(&mut self, session_id: &SessionId, data: &[u8]) -> SecurityResult<Vec<u8>>;

    /// Decrypt a message of a session.
    fn decrypt_message(&mut self, session_id: &SessionId, data: &[u8]) -> SecurityResult<Vec<u8>>;

    /// Rekey a session for forward secrecy.
    fn rotate_session_keys(&mut self, session_id: &SessionId) -> SecurityResult<()>;
}

impl EncryptionEngine for EncryptionEngineImpl {
    /// A session with the peer from a shared secret of zeros: no exchange
    /// with the peer takes place here.
    fn establish_session(&mut self, peer_id: &PeerId) -> (r: SecurityResult<SessionId>)
        ensures
            r matches Ok(id) && id@.len() == 36 && exists|now: u64|
                final(self).sessions_view() == #[trigger] old(self).sessions_view().insert(
                    id@,
                    fresh_session(id@, peer_id@, zero_secret(), now),
                ),
            final(self).timeout_view() == old(self).timeout_view(),
            final(self).rotation_view() == old(self).rotation_view(),
    {
        let _key_exchange = KeyExchange::new();
        let shared_secret = [0u8; 32];
        assert(shared_secret@ =~= zero_secret());
        let now = unix_now_secs();
        self.establish_session_from_secret_at(*peer_id, shared_secret, now)
    }

    fn encrypt_message(&mut self, session_id: &SessionId, data: &[u8]) -> (r: SecurityResult<Vec<u8>>)
        ensures
            exists|now: u64|
                #[trigger] encrypt_step(
                    old(self).sessions_view(),
                    old(self).timeout_view(),
                    old(self).rotation_view(),
                    session_id@,
                    data@,
                    now,
                    final(self).sessions_view(),
                    r,
                ),
            final(self).timeout_view() == old(self).timeout_view(),
            final(self).rotation_view() == old(self).rotation_view(),
    {
        let now = unix_now_secs();
        self.encrypt_message_at(session_id, data, now)
    }

    fn decrypt_message(&mut self, session_id: &SessionId, data: &[u8]) -> (r: SecurityResult<Vec<u8>>)
        ensures
            exists|now: u64|
                #[trigger] decrypt_step(
                    old(self).sessions_view(),
                    old(self).timeout_view(),
                    session_id@,
                    data@,
                    now,
                    final(self).sessions_view(),
                    r,
                ),
            final(self).timeout_view() == old(self).timeout_view(),
            final(self).rotation_view() == old(self).rotation_view(),
    {
        let now = unix_now_secs();
        self.decrypt_message_at(session_id, data, now)
    }

    fn rotate_session_keys(&mut self, session_id: &SessionId) -> (r: SecurityResult<()>)
        ensures
            old(self).sessions_view().dom().contains(session_id@) ==> r is Ok && exists|now: u64|
                final(self).sessions_view() == #[trigger] old(self).sessions_view().insert(
                    session_id@,
                    rotated(old(self).sessions_view()[session_id@], now),
                ),
            !old(self).sessions_view().dom().contains(session_id@) ==> r is Err && final(self).sessions_view()
                == old(self).sessions_view(),
            final(self).timeout_view() == old(self).timeout_view(),
            final(self).rotation_view() == old(self).rotation_view(),
    {
        let now = unix_now_secs();
        self.rotate_session_keys_at(session_id, now)
    }
}

/// The key-exchange error.
fn key_exchange_failed() -> (e: SecurityError)
    ensures
        e matches SecurityError::Encryption(EncryptionError::KeyExchangeFailed(m)) && m@ == "HMAC init failed"@,
{
    let mut msg = String::new();
    append_str(&mut msg, "HMAC init failed");
    SecurityError::Encryption(EncryptionError::KeyExchangeFailed(msg))
}

} // verus!
