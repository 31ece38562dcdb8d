//! Rate limiting of connection attempts, with exponential backoff for repeat offenders.

use vstd::prelude::*;
use crate::clock::unix_now_secs;
use crate::security::error::{SecurityError, SecurityResult, PolicyError};
use crate::security::identity::PeerId;
use crate::security::peer_map::PeerMap;

verus! {

/// `b` raised to the power `e`.
pub open spec fn power(b: int, e: nat) -> int
    decreases e,
{
    if e == 0 {
        1
    } else {
        b * power(b, (e - 1) as nat)
    }
}

/// The smaller of two integers.
pub open spec fn min_int(a: int, b: int) -> int {
    if a <= b {
        a
    } else {
        b
    }
}

/// The start of the time window that ends at `now` (never before the epoch).
pub open spec fn window_start(now: u64, window_secs: u64) -> int {
    if now >= window_secs {
        now - window_secs
    } else {
        0
    }
}

/// The predicate "strictly after `start`" on timestamps.
pub open spec fn after(start: int) -> spec_fn(u64) -> bool {
    |t: u64| t as int > start
}

/// The timestamps of `ts` that fall strictly after `start`, in order.
pub open spec fn recent(ts: Seq<u64>, start: int) -> Seq<u64> {
    ts.filter(after(start))
}

/// How long a peer is blocked after its `violations`-th violation:
/// `window * multiplier^(violations - 1)`, capped at `max_backoff`.
pub open spec fn backoff_secs(window: u64, multiplier: u32, max_backoff: u64, violations: nat) -> int {
    min_int(window * power(multiplier as int, (violations - 1) as nat), max_backoff as int)
}

/// Powers of a base of at least one do not decrease with the exponent.
pub proof fn lemma_power_monotone(b: int, e1: nat, e2: nat)
    requires
        b >= 1,
        e1 <= e2,
    ensures
        power(b, e1) <= power(b, e2),
        power(b, e1) >= 1,
    decreases e2,
{
    if e2 == 0 {
    } else if e1 == e2 {
        lemma_power_positive(b, e2);
    } else {
        lemma_power_monotone(b, e1, (e2 - 1) as nat);
        let p = power(b, (e2 - 1) as nat);
        assert(b * p >= p) by (nonlinear_arith)
            requires
                p >= 1,
                b >= 1,
        ;
    }
}

proof fn lemma_power_positive(b: int, e: nat)
    requires
        b >= 1,
    ensures
        power(b, e) >= 1,
    decreases e,
{
    if e > 0 {
        lemma_power_positive(b, (e - 1) as nat);
        let p = power(b, (e - 1) as nat);
        assert(b * p >= 1) by (nonlinear_arith)
            requires
                p >= 1,
                b >= 1,
        ;
    }
}

/// A repeat violation never shortens the block: backoff does not decrease
/// with the number of violations.
pub proof fn lemma_backoff_monotone(window: u64, multiplier: u32, max_backoff: u64, v: nat)
    requires
        v >= 1,
        multiplier >= 1,
    ensures
        backoff_secs(window, multiplier, max_backoff, v) <= backoff_secs(window, multiplier, max_backoff, v + 1),
        0 <= backoff_secs(window, multiplier, max_backoff, v) <= max_backoff,
{
    lemma_power_monotone(multiplier as int, (v - 1) as nat, v);
    let p1 = power(multiplier as int, (v - 1) as nat);
    let p2 = power(multiplier as int, v);
    let w = window as int;
    assert(w * p1 <= w * p2 && w * p1 >= 0) by (nonlinear_arith)
        requires
            1 <= p1 <= p2,
            w >= 0,
    ;
}

/// Rate limiter configuration.
#[derive(Clone, Copy, Debug)]
pub struct RateLimitConfig {
    /// Maximum connection attempts per time window.
    pub max_attempts: u32,
    /// Time window in seconds.
    pub window_secs: u64,
    /// Backoff multiplier for repeated violations.
    pub backoff_multiplier: u32,
    /// Maximum backoff duration in seconds.
    pub max_backoff_secs: u64,
}

impl Default for RateLimitConfig {
    fn default() -> (r: Self)
        ensures
            r.max_attempts == 5,
            r.window_secs == 60,
            r.backoff_multiplier == 2,
            r.max_backoff_secs == 3600,
    {
        Self { max_attempts: 5, window_secs: 60, backoff_multiplier: 2, max_backoff_secs: 3600 }
    }
}

/// The attempts recorded for `k`, or none.
pub open spec fn attempts_for(m: Map<Seq<u8>, Seq<u64>>, k: Seq<u8>) -> Seq<u64> {
    if m.dom().contains(k) {
        m[k]
    } else {
        Seq::empty()
    }
}

/// The violations recorded for `k`, or zero.
pub open spec fn violations_for(m: Map<Seq<u8>, u32>, k: Seq<u8>) -> nat {
    if m.dom().contains(k) {
        m[k] as nat
    } else {
        0
    }
}

/// Whether `k` is blocked at time `now` according to the unblock times in `m`.
pub open spec fn blocked_at(m: Map<Seq<u8>, u64>, k: Seq<u8>, now: u64) -> bool {
    m.dom().contains(k) && now < m[k]
}

/// The attempt lists after a cleanup at window start `start`: lists are cut
/// to their recent attempts and peers left with none are dropped.
pub open spec fn cleaned_attempts(m: Map<Seq<u8>, Seq<u64>>, start: int) -> Map<Seq<u8>, Seq<u64>> {
    Map::new(
        |k: Seq<u8>| m.dom().contains(k) && recent(m[k], start).len() > 0,
        |k: Seq<u8>| recent(m[k], start),
    )
}

/// Whether `r` lists exactly the peers blocked at `now`.
pub open spec fn lists_blocked_at(m: Map<Seq<u8>, u64>, r: Seq<PeerId>, now: u64) -> bool {
    &&& forall|i: int| 0 <= i < r.len() ==> blocked_at(m, #[trigger] r[i]@, now)
    &&& forall|k: Seq<u8>| blocked_at(m, k, now) ==> exists|i: int| 0 <= i < r.len() && r[i]@ == k
}

/// The unblock times that are still in the future at `now`.
pub open spec fn live_blocks(m: Map<Seq<u8>, u64>, now: u64) -> Map<Seq<u8>, u64> {
    Map::new(|k: Seq<u8>| m.dom().contains(k) && now < m[k], |k: Seq<u8>| m[k])
}

/// Attempt lists with the peers in `done` already cleaned.
spec fn partially_cleaned(m: Map<Seq<u8>, Seq<u64>>, start: int, done: Set<Seq<u8>>) -> Map<Seq<u8>, Seq<u64>> {
    Map::new(
        |k: Seq<u8>| m.dom().contains(k) && (!done.contains(k) || recent(m[k], start).len() > 0),
        |k: Seq<u8>| if done.contains(k) { recent(m[k], start) } else { m[k] },
    )
}

/// Unblock times with the expired ones among `done` dropped.
spec fn partially_unblocked(m: Map<Seq<u8>, u64>, now: u64, done: Set<Seq<u8>>) -> Map<Seq<u8>, u64> {
    Map::new(|k: Seq<u8>| m.dom().contains(k) && (!done.contains(k) || now < m[k]), |k: Seq<u8>| m[k])
}

/// Keeping the recent attempts twice is the same as keeping them once.
pub proof fn lemma_recent_idempotent(ts: Seq<u64>, start: int)
    ensures
        recent(recent(ts, start), start) == recent(ts, start),
    decreases ts.len(),
{
    if ts.len() == 0 {
        reveal_with_fuel(Seq::filter, 1);
        assert(recent(ts, start) =~= ts);
    } else {
        let init = ts.drop_last();
        let x = ts.last();
        assert(ts =~= init.push(x));
        init.lemma_filter_push(x, after(start));
        lemma_recent_idempotent(init, start);
        if after(start)(x) {
            recent(init, start).lemma_filter_push(x, after(start));
        }
    }
}

/// Whether the error is the rate-limit error.
pub open spec fn is_rate_limit_error(e: SecurityError) -> bool {
    e matches SecurityError::Policy(PolicyError::RateLimitExceeded)
}

/// Rate limiter for connection attempts.
pub struct RateLimiter {
    config: RateLimitConfig,
    attempts: PeerMap<Vec<u64>>,
    blocked_peers: PeerMap<u64>,
    violation_counts: PeerMap<u32>,
}

/// The timestamps of `ts` after `start`, in order.
fn keep_recent(ts: &Vec<u64>, start: u64) -> (r: Vec<u64>)
    ensures
        r@ == recent(ts@, start as int),
{
    let mut r: Vec<u64> = Vec::new();
    let mut i: usize = 0;
    while i < ts.len()
        invariant
            i <= ts@.len(),
            r@ == ts@.take(i as int).filter(after(start as int)),
        decreases ts@.len() - i,
    {
        proof {
            assert(ts@.take(i as int + 1) =~= ts@.take(i as int).push(ts@[i as int]));
            ts@.take(i as int).lemma_filter_push(ts@[i as int], after(start as int));
        }
        if ts[i] > start {
            r.push(ts[i]);
        }
        i = i + 1;
    }
    proof {
        assert(ts@.take(ts@.len() as int) =~= ts@);
    }
    r
}

/// The block duration after the `violations`-th violation.
fn compute_backoff(window: u64, multiplier: u32, max_backoff: u64, violations: u32) -> (r: u64)
    requires
        violations >= 1,
    ensures
        r == backoff_secs(window, multiplier, max_backoff, violations as nat),
{
    let e: u32 = violations - 1;
    if window == 0 {
        assert(window * power(multiplier as int, e as nat) == 0);
        return 0;
    }
    let w: u128 = window as u128;
    let m: u128 = max_backoff as u128;
    let cap: u128 = m / w;
    let mut p: u128 = 1;
    let mut i: u32 = 0;
    if multiplier == 0 {
        if e > 0 {
            p = 0;
            proof {
                assert(power(0, e as nat) == 0 * power(0, (e - 1) as nat));
            }
        }
    } else if multiplier == 1 {
        proof {
            lemma_power_one(e as nat);
        }
    } else {
        while i < e && p <= cap
            invariant
                multiplier >= 2,
                i <= e,
                p == power(multiplier as int, i as nat),
                p < 0x1_0000_0000_0000_0000_0000_0000,
                cap == m / w,
                w > 0,
                m < 0x1_0000_0000_0000_0000,
            decreases e - i,
        {
            proof {
                assert(cap <= m) by (nonlinear_arith)
                    requires
                        cap == m / w,
                        w > 0,
                        m >= 0,
                ;
                assert(multiplier as int * p < 0x1_0000_0000_0000_0000_0000_0000) by (nonlinear_arith)
                    requires
                        p <= m,
                        m < 0x1_0000_0000_0000_0000,
                        multiplier < 0x1_0000_0000,
                        multiplier >= 0,
                        p >= 0,
                ;
            }
            p = (multiplier as u128) * p;
            i = i + 1;
        }
        if i < e {
            // The product already exceeds the cap, and later powers are no smaller.
            proof {
                lemma_power_monotone(multiplier as int, i as nat, e as nat);
                let pe = power(multiplier as int, e as nat);
                assert(w * pe > m) by (nonlinear_arith)
                    requires
                        p > cap,
                        cap == m / w,
                        w > 0,
                        pe >= p,
                ;
            }
            return max_backoff;
        }
    }
    if p > cap {
        proof {
            assert(w * p > m) by (nonlinear_arith)
                requires
                    p > cap,
                    cap == m / w,
                    w > 0,
            ;
        }
        max_backoff
    } else {
        proof {
            assert(w * p <= m) by (nonlinear_arith)
                requires
                    p <= cap,
                    cap == m / w,
                    w > 0,
                    p >= 0,
            ;
        }
        (w * p) as u64
    }
}

proof fn lemma_power_one(e: nat)
    ensures
        power(1, e) == 1,
    decreases e,
{
    if e > 0 {
        lemma_power_one((e - 1) as nat);
    }
}

impl RateLimiter {
    /// The current configuration.
    pub closed spec fn config_view(&self) -> RateLimitConfig {
        self.config
    }

    /// Recorded attempt timestamps per peer.
    pub closed spec fn attempts_view(&self) -> Map<Seq<u8>, Seq<u64>> {
        self.attempts@.map_values(|v: Vec<u64>| v@)
    }

    /// Unblock times per blocked peer.
    pub closed spec fn blocked_view(&self) -> Map<Seq<u8>, u64> {
        self.blocked_peers@
    }

    /// Violation counts per peer.
    pub closed spec fn violations_view(&self) -> Map<Seq<u8>, u32> {
        self.violation_counts@
    }

    /// One rate-limit check of peer `k` at time `now`, from state `pre` to
    /// state `post` with result `r`.
    pub open spec fn check_step(pre: &Self, post: &Self, k: Seq<u8>, now: u64, r: SecurityResult<bool>) -> bool {
        let cfg = pre.config_view();
        let start = window_start(now, cfg.window_secs);
        let new_attempts = recent(attempts_for(pre.attempts_view(), k), start).push(now);
        let violations = violations_for(pre.violations_view(), k) + 1;
        let v = if violations > u32::MAX { u32::MAX as nat } else { violations };
        let unblock = now + backoff_secs(cfg.window_secs, cfg.backoff_multiplier, cfg.max_backoff_secs, v);
        &&& post.config_view() == cfg
        &&& if blocked_at(pre.blocked_view(), k, now) {
            &&& r matches Err(e) && is_rate_limit_error(e)
            &&& post.attempts_view() == pre.attempts_view()
            &&& post.blocked_view() == pre.blocked_view()
            &&& post.violations_view() == pre.violations_view()
        } else {
            &&& post.attempts_view() == pre.attempts_view().insert(k, new_attempts)
            &&& if new_attempts.len() > cfg.max_attempts {
                &&& r matches Err(e) && is_rate_limit_error(e)
                &&& post.violations_view() == pre.violations_view().insert(k, v as u32)
                &&& post.blocked_view() == pre.blocked_view().insert(
                    k,
                    (if unblock > u64::MAX { u64::MAX as int } else { unblock }) as u64,
                )
            } else {
                &&& r == Ok::<bool, SecurityError>(true)
                &&& post.violations_view() == pre.violations_view()
                &&& post.blocked_view() == pre.blocked_view()
            }
        }
    }

    /// A rate limiter with the default configuration.
    pub fn new() -> (r: Self)
        ensures
            r.config_view().max_attempts == 5,
            r.config_view().window_secs == 60,
            r.config_view().backoff_multiplier == 2,
            r.config_view().max_backoff_secs == 3600,
            r.attempts_view() == Map::<Seq<u8>, Seq<u64>>::empty(),
            r.blocked_view() == Map::<Seq<u8>, u64>::empty(),
            r.violations_view() == Map::<Seq<u8>, u32>::empty(),
    {
        Self::with_config(RateLimitConfig::default())
    }

    /// A rate limiter with a custom configuration.
    pub fn with_config(config: RateLimitConfig) -> (r: Self)
        ensures
            r.config_view() == config,
            r.attempts_view() == Map::<Seq<u8>, Seq<u64>>::empty(),
            r.blocked_view() == Map::<Seq<u8>, u64>::empty(),
            r.violations_view() == Map::<Seq<u8>, u32>::empty(),
    {
        let r = Self {
            config,
            attempts: PeerMap::new(),
            blocked_peers: PeerMap::new(),
            violation_counts: PeerMap::new(),
        };
        assert(r.attempts_view() =~= Map::<Seq<u8>, Seq<u64>>::empty());
        r
    }

    /// Whether `peer` is blocked at time `now`.
    pub fn is_blocked_at(&self, peer_id: &PeerId, now: u64) -> (r: bool)
        ensures
            r == blocked_at(self.blocked_view(), peer_id@, now),
    {
        match self.blocked_peers.get(peer_id) {
            Some(t) => now < *t,
            None => false,
        }
    }

    /// Whether `peer` is currently blocked.
    pub fn is_blocked(&self, peer_id: &PeerId) -> (r: bool)
        ensures
            exists|now: u64| r == blocked_at(self.blocked_view(), peer_id@, now),
            r ==> self.blocked_view().dom().contains(peer_id@),
    {
        let now = unix_now_secs();
        self.is_blocked_at(peer_id, now)
    }

    /// Record a connection attempt of `peer` at time `now` and decide whether it is allowed.
    ///
    /// A blocked peer is refused outright. Otherwise the attempt is recorded
    /// among the peer's attempts of the current window; when they exceed the
    /// limit the peer is blocked with exponential backoff and the attempt is refused.
    pub fn check_rate_limit_at(&mut self, peer_id: &PeerId, now: u64) -> (r: SecurityResult<bool>)
        ensures
            Self::check_step(old(self), final(self), peer_id@, now, r),
    {
        if self.is_blocked_at(peer_id, now) {
            return Err(SecurityError::Policy(PolicyError::RateLimitExceeded));
        }
        let start = now.saturating_sub(self.config.window_secs);
        let mut kept = match self.attempts.get(peer_id) {
            Some(ts) => keep_recent(ts, start),
            None => {
                proof {
                    assert(recent(Seq::<u64>::empty(), start as int) =~= Seq::<u64>::empty()) by {
                        reveal_with_fuel(Seq::filter, 1);
                    }
                }
                Vec::new()
            },
        };
        kept.push(now);
        let n = kept.len();
        let ghost kept_view = kept@;
        let ghost pre_attempts = self.attempts@;
        self.attempts.insert(*peer_id, kept);
        proof {
            assert(self.attempts_view() =~= old(self).attempts_view().insert(peer_id@, kept_view));
        }
        if n > self.config.max_attempts as usize {
            self.block_peer_at(peer_id, now);
            return Err(SecurityError::Policy(PolicyError::RateLimitExceeded));
        }
        Ok(true)
    }

    /// Record a connection attempt of `peer` now and decide whether it is allowed.
    pub fn check_rate_limit(&mut self, peer_id: &PeerId) -> (r: SecurityResult<bool>)
        ensures
            exists|now: u64| Self::check_step(old(self), final(self), peer_id@, now, r),
    {
        let now = unix_now_secs();
        self.check_rate_limit_at(peer_id, now)
    }

    /// Count a violation of `peer` and block it, with exponential backoff, from `now`.
    fn block_peer_at(&mut self, peer_id: &PeerId, now: u64)
        ensures
            final(self).config_view() == old(self).config_view(),
            final(self).attempts_view() == old(self).attempts_view(),
            ({
                let cfg = old(self).config_view();
                let violations = violations_for(old(self).violations_view(), peer_id@) + 1;
                let v = if violations > u32::MAX { u32::MAX as nat } else { violations };
                let unblock = now + backoff_secs(cfg.window_secs, cfg.backoff_multiplier, cfg.max_backoff_secs, v);
                &&& final(self).violations_view() == old(self).violations_view().insert(peer_id@, v as u32)
                &&& final(self).blocked_view() == old(self).blocked_view().insert(
                    peer_id@,
                    (if unblock > u64::MAX { u64::MAX as int } else { unblock }) as u64,
                )
            }),
    {
        let previous: u32 = match self.violation_counts.get(peer_id) {
            Some(v) => *v,
            None => 0,
        };
        let violations = previous.saturating_add(1);
        self.violation_counts.insert(*peer_id, violations);
        let backoff = compute_backoff(
            self.config.window_secs,
            self.config.backoff_multiplier,
            self.config.max_backoff_secs,
            violations,
        );
        let unblock_time = now.saturating_add(backoff);
        self.blocked_peers.insert(*peer_id, unblock_time);
    }

    /// Manually unblock a peer and forget its violations.
    pub fn unblock_peer(&mut self, peer_id: &PeerId) -> (r: SecurityResult<()>)
        ensures
            r is Ok,
            final(self).config_view() == old(self).config_view(),
            final(self).attempts_view() == old(self).attempts_view(),
            final(self).blocked_view() == old(self).blocked_view().remove(peer_id@),
            final(self).violations_view() == old(self).violations_view().remove(peer_id@),
    {
        self.blocked_peers.remove(peer_id);
        self.violation_counts.remove(peer_id);
        Ok(())
    }

    /// Seconds until `peer` is unblocked, seen at time `now`, if it is blocked then.
    pub fn time_until_unblock_at(&self, peer_id: &PeerId, now: u64) -> (r: Option<u64>)
        ensures
            r == (if blocked_at(self.blocked_view(), peer_id@, now) {
                Some((self.blocked_view()[peer_id@] - now) as u64)
            } else {
                None
            }),
    {
        match self.blocked_peers.get(peer_id) {
            Some(t) => {
                if now < *t {
                    Some(*t - now)
                } else {
                    None
                }
            },
            None => None,
        }
    }

    /// Seconds until `peer` is unblocked, if it is blocked now.
    pub fn time_until_unblock(&self, peer_id: &PeerId) -> (r: Option<u64>)
        ensures
            exists|now: u64|
                r == (if blocked_at(self.blocked_view(), peer_id@, now) {
                    Some((self.blocked_view()[peer_id@] - now) as u64)
                } else {
                    None
                }),
    {
        let now = unix_now_secs();
        self.time_until_unblock_at(peer_id, now)
    }

    /// The number of attempts of `peer` in the window that ends at `now`.
    pub fn get_attempt_count_at(&self, peer_id: &PeerId, now: u64) -> (r: u32)
        ensures
            r == recent(
                attempts_for(self.attempts_view(), peer_id@),
                window_start(now, self.config_view().window_secs),
            ).len() as u32,
    {
        let start = now.saturating_sub(self.config.window_secs);
        match self.attempts.get(peer_id) {
            Some(ts) => {
                let kept = keep_recent(ts, start);
                kept.len() as u32
            },
            None => {
                proof {
                    assert(recent(Seq::<u64>::empty(), start as int) =~= Seq::<u64>::empty()) by {
                        reveal_with_fuel(Seq::filter, 1);
                    }
                }
                0
            },
        }
    }

    /// The number of recent attempts of `peer`.
    pub fn get_attempt_count(&self, peer_id: &PeerId) -> (r: u32)
        ensures
            exists|now: u64|
                r == recent(
                    attempts_for(self.attempts_view(), peer_id@),
                    window_start(now, self.config_view().window_secs),
                ).len() as u32,
    {
        let now = unix_now_secs();
        self.get_attempt_count_at(peer_id, now)
    }

    /// Drop attempts older than the window ending at `now`, peers left without
    /// attempts, and blocks that have expired by `now`.
    pub fn cleanup_at(&mut self, now: u64) -> (r: SecurityResult<()>)
        ensures
            r is Ok,
            final(self).config_view() == old(self).config_view(),
            final(self).attempts_view() == cleaned_attempts(
                old(self).attempts_view(),
                window_start(now, old(self).config_view().window_secs),
            ),
            final(self).blocked_view() == live_blocks(old(self).blocked_view(), now),
            final(self).violations_view() == old(self).violations_view(),
    {
        let start = now.saturating_sub(self.config.window_secs);
        let ghost pre = self.attempts_view();
        let ghost mut done: Set<Seq<u8>> = Set::empty();
        let keys = self.attempts.peer_keys();
        let mut i: usize = 0;
        while i < keys.len()
            invariant
                i <= keys@.len(),
                self.config_view() == old(self).config_view(),
                self.blocked_view() == old(self).blocked_view(),
                self.violations_view() == old(self).violations_view(),
                pre == old(self).attempts_view(),
                start == window_start(now, old(self).config_view().window_secs),
                forall|k: Seq<u8>| #[trigger] pre.dom().contains(k) ==> exists|j: int| 0 <= j < keys@.len() && keys@[j]@ == k,
                forall|j: int| 0 <= j < i ==> done.contains(#[trigger] keys@[j]@),
                self.attempts_view() == partially_cleaned(pre, start as int, done),
            decreases keys@.len() - i,
        {
            let k = &keys[i];
            let ghost before = self.attempts_view();
            let kept = match self.attempts.get(k) {
                Some(ts) => keep_recent(ts, start),
                None => Vec::new(),
            };
            let ghost kept_view = kept@;
            proof {
                if before.dom().contains(k@) {
                    assert(kept_view == recent(before[k@], start as int));
                    if done.contains(k@) {
                        lemma_recent_idempotent(pre[k@], start as int);
                    }
                    assert(kept_view == recent(pre[k@], start as int));
                }
            }
            if kept.len() == 0 {
                self.attempts.remove(k);
                proof {
                    assert(self.attempts_view() =~= before.remove(k@));
                }
            } else {
                self.attempts.insert(*k, kept);
                proof {
                    assert(self.attempts_view() =~= before.insert(k@, kept_view));
                }
            }
            proof {
                done = done.insert(k@);
                assert(self.attempts_view() =~= partially_cleaned(pre, start as int, done));
            }
            i = i + 1;
        }
        proof {
            assert forall|key: Seq<u8>| pre.dom().contains(key) implies done.contains(key) by {
                let j = choose|j: int| 0 <= j < keys@.len() && keys@[j]@ == key;
                assert(done.contains(keys@[j]@));
            }
            assert(self.attempts_view() =~= cleaned_attempts(pre, start as int));
        }
        self.drop_expired_blocks(now);
        Ok(())
    }

    /// Forget blocks that have expired by `now`.
    fn drop_expired_blocks(&mut self, now: u64)
        ensures
            final(self).config_view() == old(self).config_view(),
            final(self).attempts_view() == old(self).attempts_view(),
            final(self).violations_view() == old(self).violations_view(),
            final(self).blocked_view() == live_blocks(old(self).blocked_view(), now),
    {
        let ghost pre = self.blocked_view();
        let ghost mut done: Set<Seq<u8>> = Set::empty();
        let keys = self.blocked_peers.peer_keys();
        let mut i: usize = 0;
        while i < keys.len()
            invariant
                i <= keys@.len(),
                self.config_view() == old(self).config_view(),
                self.attempts_view() == old(self).attempts_view(),
                self.violations_view() == old(self).violations_view(),
                pre == old(self).blocked_view(),
                forall|k: Seq<u8>| #[trigger] pre.dom().contains(k) ==> exists|j: int| 0 <= j < keys@.len() && keys@[j]@ == k,
                forall|j: int| 0 <= j < i ==> done.contains(#[trigger] keys@[j]@),
                self.blocked_view() == partially_unblocked(pre, now, done),
            decreases keys@.len() - i,
        {
            let k = &keys[i];
            let ghost before = self.blocked_view();
            let expired = match self.blocked_peers.get(k) {
                Some(t) => !(now < *t),
                None => false,
            };
            if expired {
                self.blocked_peers.remove(k);
            }
            proof {
                done = done.insert(k@);
                assert(self.blocked_view() =~= partially_unblocked(pre, now, done));
            }
            i = i + 1;
        }
        proof {
            assert forall|key: Seq<u8>| pre.dom().contains(key) implies done.contains(key) by {
                let j = choose|j: int| 0 <= j < keys@.len() && keys@[j]@ == key;
                assert(done.contains(keys@[j]@));
            }
            assert(self.blocked_view() =~= live_blocks(pre, now));
        }
    }

    /// Drop old attempts and expired blocks as of now.
    pub fn cleanup(&mut self) -> (r: SecurityResult<()>)
        ensures
            r is Ok,
            final(self).config_view() == old(self).config_view(),
            exists|now: u64| {
                &&& final(self).attempts_view() == cleaned_attempts(
                    old(self).attempts_view(),
                    window_start(now, old(self).config_view().window_secs),
                )
                &&& final(self).blocked_view() == live_blocks(old(self).blocked_view(), now)
            },
            final(self).violations_view() == old(self).violations_view(),
    {
        let now = unix_now_secs();
        self.cleanup_at(now)
    }

    /// Forget everything recorded about a peer.
    pub fn reset_peer(&mut self, peer_id: &PeerId) -> (r: SecurityResult<()>)
        ensures
            r is Ok,
            final(self).config_view() == old(self).config_view(),
            final(self).attempts_view() == old(self).attempts_view().remove(peer_id@),
            final(self).blocked_view() == old(self).blocked_view().remove(peer_id@),
            final(self).violations_view() == old(self).violations_view().remove(peer_id@),
    {
        let ghost pre = self.attempts@;
        self.attempts.remove(peer_id);
        proof {
            assert(self.attempts_view() =~= old(self).attempts_view().remove(peer_id@));
        }
        self.blocked_peers.remove(peer_id);
        self.violation_counts.remove(peer_id);
        Ok(())
    }

    /// The peers blocked at time `now`.
    pub fn get_blocked_peers_at(&self, now: u64) -> (r: Vec<PeerId>)
        ensures
            lists_blocked_at(self.blocked_view(), r@, now),
            forall|i: int, j: int| 0 <= i < j < r@.len() ==> #[trigger] r@[i]@ != #[trigger] r@[j]@,
    {
        let keys = self.blocked_peers.peer_keys();
        let mut r: Vec<PeerId> = Vec::new();
        let mut i: usize = 0;
        while i < keys.len()
            invariant
                i <= keys@.len(),
                forall|j: int| 0 <= j < keys@.len() ==> self.blocked_view().dom().contains(#[trigger] keys@[j]@),
                forall|k: Seq<u8>| #[trigger] self.blocked_view().dom().contains(k) ==> exists|j: int| 0 <= j < keys@.len() && keys@[j]@ == k,
                forall|a: int, b: int| 0 <= a < b < keys@.len() ==> #[trigger] keys@[a]@ != #[trigger] keys@[b]@,
                forall|j: int| 0 <= j < r@.len() ==> blocked_at(self.blocked_view(), #[trigger] r@[j]@, now),
                forall|j: int| 0 <= j < r@.len() ==> exists|a: int| 0 <= a < i && keys@[a]@ == #[trigger] r@[j]@,
                forall|a: int| 0 <= a < i && blocked_at(self.blocked_view(), #[trigger] keys@[a]@, now) ==> exists|j: int| 0 <= j < r@.len() && r@[j]@ == keys@[a]@,
                forall|a: int, b: int| 0 <= a < b < r@.len() ==> #[trigger] r@[a]@ != #[trigger] r@[b]@,
            decreases keys@.len() - i,
        {
            let k = keys[i];
            if self.is_blocked_at(&k, now) {
                let ghost prev = r@;
                r.push(k);
                proof {
                    assert forall|a: int, b: int| 0 <= a < b < r@.len() implies #[trigger] r@[a]@ != #[trigger] r@[b]@ by {
                        if b == r@.len() - 1 {
                            let c = choose|c: int| 0 <= c < i && keys@[c]@ == #[trigger] prev[a]@;
                            assert(keys@[c]@ != keys@[i as int]@);
                        }
                    }
                    assert forall|j: int| 0 <= j < r@.len() implies exists|a: int| 0 <= a < i + 1 && keys@[a]@ == #[trigger] r@[j]@ by {
                        if j == r@.len() - 1 {
                            assert(keys@[i as int]@ == r@[j]@);
                        } else {
                            let c = choose|c: int| 0 <= c < i && keys@[c]@ == #[trigger] prev[j]@;
                            assert(keys@[c]@ == r@[j]@);
                        }
                    }
                    assert forall|a: int| 0 <= a < i + 1 && blocked_at(self.blocked_view(), #[trigger] keys@[a]@, now) implies
                        exists|j: int| 0 <= j < r@.len() && r@[j]@ == keys@[a]@ by {
                        if a == i {
                            assert(r@[r@.len() - 1]@ == keys@[a]@);
                        } else {
                            let j = choose|j: int| 0 <= j < prev.len() && prev[j]@ == keys@[a]@;
                            assert(r@[j]@ == keys@[a]@);
                        }
                    }
                }
            } else {
                proof {
                    assert forall|j: int| 0 <= j < r@.len() implies exists|a: int| 0 <= a < i + 1 && keys@[a]@ == #[trigger] r@[j]@ by {
                        let c = choose|c: int| 0 <= c < i && keys@[c]@ == #[trigger] r@[j]@;
                        assert(keys@[c]@ == r@[j]@);
                    }
                }
            }
            i = i + 1;
        }
        proof {
            assert forall|k: Seq<u8>| blocked_at(self.blocked_view(), k, now) implies exists|i: int| 0 <= i < r@.len() && r@[i]@ == k by {
                let a = choose|a: int| 0 <= a < keys@.len() && keys@[a]@ == k;
                assert(blocked_at(self.blocked_view(), keys@[a]@, now));
            }
        }
        r
    }

    /// The peers blocked now.
    pub fn get_blocked_peers(&self) -> (r: Vec<PeerId>)
        ensures
            exists|now: u64| #[trigger] lists_blocked_at(self.blocked_view(), r@, now),
            forall|i: int, j: int| 0 <= i < j < r@.len() ==> #[trigger] r@[i]@ != #[trigger] r@[j]@,
    {
        let now = unix_now_secs();
        self.get_blocked_peers_at(now)
    }

    /// Replace the configuration.
    pub fn update_config(&mut self, config: RateLimitConfig) -> (r: SecurityResult<()>)
        ensures
            r is Ok,
            final(self).config_view() == config,
            final(self).attempts_view() == old(self).attempts_view(),
            final(self).blocked_view() == old(self).blocked_view(),
            final(self).violations_view() == old(self).violations_view(),
    {
        self.config = config;
        Ok(())
    }

    /// The current configuration.
    pub fn get_config(&self) -> (r: RateLimitConfig)
        ensures
            r == self.config_view(),
    {
        self.config
    }
}

} // verus!
