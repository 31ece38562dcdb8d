//! Detection of suspicious connection patterns.

use vstd::prelude::*;
use crate::clock::unix_now_secs;
use crate::security::error::SecurityResult;
use crate::security::identity::PeerId;
use crate::security::peer_map::PeerMap;
use crate::security::policy::rate_limiter::{after, recent, window_start, blocked_at, live_blocks};
use crate::text::{u64_to_decimal, append_str, append_string, decimal};

verus! {

/// Pattern of suspicious activity.
#[derive(Clone, Copy, Debug, PartialEq, Eq, Structural)]
pub enum SuspiciousPattern {
    /// Rapid connection attempts.
    RapidConnections,
    /// Multiple failed pairing attempts.
    FailedPairings,
    /// Connection attempts from a blocked peer.
    BlockedPeerAttempt,
    /// Unusual connection timing pattern.
    UnusualTiming,
    /// Multiple connections from the same peer.
    MultipleConnections,
}

/// Activity recorded for a peer.
struct ActivityRecord {
    connection_attempts: Vec<u64>,
    failed_pairings: u32,
    last_blocked_attempt: Option<u64>,
    active_connections: u32,
}

/// The abstract content of a peer's activity record.
pub ghost struct Activity {
    pub connection_attempts: Seq<u64>,
    pub failed_pairings: u32,
    pub last_blocked_attempt: Option<u64>,
    pub active_connections: u32,
}

impl ActivityRecord {
    spec fn view(&self) -> Activity {
        Activity {
            connection_attempts: self.connection_attempts@,
            failed_pairings: self.failed_pairings,
            last_blocked_attempt: self.last_blocked_attempt,
            active_connections: self.active_connections,
        }
    }

    fn new() -> (r: Self)
        ensures
            r.view() == empty_activity(),
    {
        Self { connection_attempts: Vec::new(), failed_pairings: 0, last_blocked_attempt: None, active_connections: 0 }
    }

    fn copy(&self) -> (r: Self)
        ensures
            r.view() == self.view(),
    {
        Self {
            connection_attempts: self.connection_attempts.clone(),
            failed_pairings: self.failed_pairings,
            last_blocked_attempt: self.last_blocked_attempt,
            active_connections: self.active_connections,
        }
    }
}

/// A record with no activity.
pub open spec fn empty_activity() -> Activity {
    Activity { connection_attempts: Seq::empty(), failed_pairings: 0, last_blocked_attempt: None, active_connections: 0 }
}

/// The record for `k`, or an empty one.
pub open spec fn activity_for(m: Map<Seq<u8>, Activity>, k: Seq<u8>) -> Activity {
    if m.dom().contains(k) {
        m[k]
    } else {
        empty_activity()
    }
}

/// Adds one to a counter, staying at the maximum.
pub open spec fn bump(n: u32) -> u32 {
    if n == u32::MAX {
        n
    } else {
        (n + 1) as u32
    }
}

/// The records after an attempt of `k` at `now`.
pub open spec fn with_attempt(m: Map<Seq<u8>, Activity>, k: Seq<u8>, now: u64) -> Map<Seq<u8>, Activity> {
    let a = activity_for(m, k);
    m.insert(k, Activity { connection_attempts: a.connection_attempts.push(now), ..a })
}

/// The unblock times after blocking `k` for `duration` seconds from `now`.
pub open spec fn blocked_until(m: Map<Seq<u8>, u64>, k: Seq<u8>, now: u64, duration: u64) -> Map<Seq<u8>, u64> {
    m.insert(k, (if now + duration > u64::MAX { u64::MAX as int } else { now + duration }) as u64)
}

/// The records after noting a block of `k` at `now` (only a peer with a record is noted).
pub open spec fn with_block_noted(m: Map<Seq<u8>, Activity>, k: Seq<u8>, now: u64) -> Map<Seq<u8>, Activity> {
    if m.dom().contains(k) {
        m.insert(k, Activity { last_blocked_attempt: Some(now), ..m[k] })
    } else {
        m
    }
}

/// Configuration for attack detection.
#[derive(Clone, Copy, Debug)]
pub struct AttackDetectorConfig {
    /// Threshold for rapid connections (attempts per window).
    pub rapid_connection_threshold: u32,
    /// Threshold for failed pairings.
    pub failed_pairing_threshold: u32,
    /// Time window for pattern detection (seconds).
    pub detection_window_secs: u64,
    /// Maximum simultaneous connections per peer.
    pub max_simultaneous_connections: u32,
}

impl Default for AttackDetectorConfig {
    fn default() -> (r: Self)
        ensures
            r.rapid_connection_threshold == 10,
            r.failed_pairing_threshold == 3,
            r.detection_window_secs == 60,
            r.max_simultaneous_connections == 3,
    {
        Self {
            rapid_connection_threshold: 10,
            failed_pairing_threshold: 3,
            detection_window_secs: 60,
            max_simultaneous_connections: 3,
        }
    }
}

/// Sum of a sequence of timestamps or intervals.
pub open spec fn sum(s: Seq<u64>) -> int
    decreases s.len(),
{
    if s.len() == 0 {
        0
    } else {
        sum(s.drop_last()) + s.last()
    }
}

/// The gaps between consecutive timestamps (modulo 2^64 when the clock went back).
pub open spec fn intervals(ts: Seq<u64>) -> Seq<u64> {
    Seq::new(
        (ts.len() - 1) as nat,
        |i: int| (if ts[i + 1] >= ts[i] { ts[i + 1] - ts[i] } else { ts[i + 1] - ts[i] + 0x1_0000_0000_0000_0000 }) as u64,
    )
}

/// Whether `x` lies within two seconds of `avg`.
pub open spec fn near(avg: int) -> spec_fn(u64) -> bool {
    |x: u64| -2 <= x - avg <= 2
}

/// Attempts at suspiciously regular intervals: at least five attempts, and
/// more than three quarters of the gaps within two seconds of the mean gap.
pub open spec fn regular_intervals(ts: Seq<u64>) -> bool {
    let gaps = intervals(ts);
    let avg = sum(gaps) / gaps.len() as int;
    &&& ts.len() >= 5
    &&& 4 * gaps.filter(near(avg)).len() > 3 * gaps.len()
}

/// The patterns detected for a peer, in the order they are reported.
pub open spec fn detected_patterns(
    cfg: AttackDetectorConfig,
    activity: Map<Seq<u8>, Activity>,
    blocked: Map<Seq<u8>, u64>,
    k: Seq<u8>,
    now: u64,
) -> Seq<SuspiciousPattern> {
    let s0: Seq<SuspiciousPattern> = if blocked.dom().contains(k) {
        seq![SuspiciousPattern::BlockedPeerAttempt]
    } else {
        seq![]
    };
    if !activity.dom().contains(k) {
        s0
    } else {
        let rec = activity[k];
        let ws = window_start(now, cfg.detection_window_secs);
        let recent_ts = recent(rec.connection_attempts, ws);
        let s1 = if (recent_ts.len() as u32) > cfg.rapid_connection_threshold {
            s0.push(SuspiciousPattern::RapidConnections)
        } else {
            s0
        };
        let s2 = if rec.failed_pairings >= cfg.failed_pairing_threshold {
            s1.push(SuspiciousPattern::FailedPairings)
        } else {
            s1
        };
        let s3 = if rec.active_connections > cfg.max_simultaneous_connections {
            s2.push(SuspiciousPattern::MultipleConnections)
        } else {
            s2
        };
        if rec.connection_attempts.len() >= 5 && regular_intervals(recent_ts) {
            s3.push(SuspiciousPattern::UnusualTiming)
        } else {
            s3
        }
    }
}

/// Whether a pattern calls for blocking the peer.
pub open spec fn is_critical(p: SuspiciousPattern) -> bool {
    p is RapidConnections || p is FailedPairings || p is BlockedPeerAttempt
}

/// Whether some pattern of `ps` calls for blocking.
pub open spec fn any_critical(ps: Seq<SuspiciousPattern>) -> bool {
    exists|i: int| 0 <= i < ps.len() && is_critical(#[trigger] ps[i])
}

/// The activity records after a cleanup at window start `start`.
pub open spec fn cleaned_activity(m: Map<Seq<u8>, Activity>, start: int) -> Map<Seq<u8>, Activity> {
    Map::new(
        |k: Seq<u8>|
            m.dom().contains(k) && (recent(m[k].connection_attempts, start).len() > 0
                || m[k].failed_pairings > 0 || m[k].active_connections > 0),
        |k: Seq<u8>| Activity { connection_attempts: recent(m[k].connection_attempts, start), ..m[k] },
    )
}

/// Activity records with those in `done` already cleaned.
spec fn partially_cleaned_activity(m: Map<Seq<u8>, Activity>, start: int, done: Set<Seq<u8>>) -> Map<Seq<u8>, Activity> {
    Map::new(
        |k: Seq<u8>|
            m.dom().contains(k) && (!done.contains(k) || recent(m[k].connection_attempts, start).len() > 0
                || m[k].failed_pairings > 0 || m[k].active_connections > 0),
        |k: Seq<u8>|
            if done.contains(k) {
                Activity { connection_attempts: recent(m[k].connection_attempts, start), ..m[k] }
            } else {
                m[k]
            },
    )
}

/// Unblock times with the expired ones among `done` dropped.
spec fn partially_unblocked(m: Map<Seq<u8>, u64>, now: u64, done: Set<Seq<u8>>) -> Map<Seq<u8>, u64> {
    Map::new(|k: Seq<u8>| m.dom().contains(k) && (!done.contains(k) || now < m[k]), |k: Seq<u8>| m[k])
}

/// The text of an activity summary.
pub open spec fn summary_text(recent_attempts: nat, failed: nat, active: nat) -> Seq<char> {
    "Recent attempts: "@ + decimal(recent_attempts) + ", Failed pairings: "@ + decimal(failed)
        + ", Active connections: "@ + decimal(active)
}

/// Attack detector for identifying suspicious patterns.
pub struct AttackDetector {
    config: AttackDetectorConfig,
    activity: PeerMap<ActivityRecord>,
    blocked_peers: PeerMap<u64>,
}

/// The timestamps of `ts` after `start`, in order.
fn keep_after(ts: &Vec<u64>, start: u64) -> (r: Vec<u64>)
    ensures
        r@ == recent(ts@, start as int),
{
    let mut r: Vec<u64> = Vec::new();
    let mut i: usize = 0;
    while i < ts.len()
        invariant
            i <= ts@.len(),
            r@ == ts@.take(i as int).filter(after(start as int)),
        decreases ts@.len() - i,
    {
        proof {
            assert(ts@.take(i as int + 1) =~= ts@.take(i as int).push(ts@[i as int]));
            ts@.take(i as int).lemma_filter_push(ts@[i as int], after(start as int));
        }
        if ts[i] > start {
            r.push(ts[i]);
        }
        i = i + 1;
    }
    proof {
        assert(ts@.take(ts@.len() as int) =~= ts@);
    }
    r
}

/// Whether the timestamps follow a suspiciously regular pattern.
fn has_regular_interval_pattern(timestamps: &Vec<u64>) -> (r: bool)
    ensures
        r == regular_intervals(timestamps@),
{
    let n = timestamps.len();
    if n < 5 {
        return false;
    }
    let ghost ts = timestamps@;
    let ghost gaps_spec = intervals(ts);
    let mut gaps: Vec<u64> = Vec::new();
    let mut total: u128 = 0;
    let mut i: usize = 1;
    while i < n
        invariant
            n == ts.len(),
            ts == timestamps@,
            gaps_spec == intervals(ts),
            n >= 5,
            1 <= i <= n,
            gaps@ == gaps_spec.take(i - 1),
            total == sum(gaps@),
            total <= (i - 1) * 0xFFFF_FFFF_FFFF_FFFFu64,
        decreases n - i,
    {
        let gap = timestamps[i].wrapping_sub(timestamps[i - 1]);
        proof {
            assert(gaps_spec[i - 1] == gap);
            assert(gaps@.push(gap).drop_last() =~= gaps@);
            assert(gaps_spec.take(i as int) =~= gaps_spec.take(i - 1).push(gap));
        }
        gaps.push(gap);
        total = total + gap as u128;
        i = i + 1;
    }
    proof {
        assert(gaps_spec.take(n - 1) =~= gaps_spec);
    }
    let count = gaps.len();
    let avg: u128 = total / (count as u128);
    let mut similar: usize = 0;
    let mut j: usize = 0;
    while j < count
        invariant
            count == gaps@.len(),
            gaps@ == gaps_spec,
            avg == sum(gaps_spec) / gaps_spec.len() as int,
            j <= count,
            similar == gaps@.take(j as int).filter(near(avg as int)).len(),
            similar <= j,
        decreases count - j,
    {
        let g = gaps[j] as u128;
        let diff: u128 = if g > avg { g - avg } else { avg - g };
        proof {
            assert(gaps@.take(j as int + 1) =~= gaps@.take(j as int).push(gaps@[j as int]));
            gaps@.take(j as int).lemma_filter_push(gaps@[j as int], near(avg as int));
        }
        if diff <= 2 {
            similar = similar + 1;
        }
        j = j + 1;
    }
    proof {
        assert(gaps@.take(count as int) =~= gaps@);
    }
    (similar as u128) * 4 > (count as u128) * 3
}

impl AttackDetector {
    /// The current configuration.
    pub closed spec fn config_view(&self) -> AttackDetectorConfig {
        self.config
    }

    /// Activity per peer.
    pub closed spec fn activity_view(&self) -> Map<Seq<u8>, Activity> {
        self.activity@.map_values(|r: ActivityRecord| r.view())
    }

    /// Unblock times per blocked peer.
    pub closed spec fn blocked_view(&self) -> Map<Seq<u8>, u64> {
        self.blocked_peers@
    }

    /// A detector with the default configuration.
    pub fn new() -> (r: Self)
        ensures
            r.config_view().rapid_connection_threshold == 10,
            r.config_view().failed_pairing_threshold == 3,
            r.config_view().detection_window_secs == 60,
            r.config_view().max_simultaneous_connections == 3,
            r.activity_view() == Map::<Seq<u8>, Activity>::empty(),
            r.blocked_view() == Map::<Seq<u8>, u64>::empty(),
    {
        Self::with_config(AttackDetectorConfig::default())
    }

    /// A detector with a custom configuration.
    pub fn with_config(config: AttackDetectorConfig) -> (r: Self)
        ensures
            r.config_view() == config,
            r.activity_view() == Map::<Seq<u8>, Activity>::empty(),
            r.blocked_view() == Map::<Seq<u8>, u64>::empty(),
    {
        let r = Self { config, activity: PeerMap::new(), blocked_peers: PeerMap::new() };
        assert(r.activity_view() =~= Map::<Seq<u8>, Activity>::empty());
        r
    }

    /// The record of `peer`, or a fresh one.
    fn record_of(&self, peer_id: &PeerId) -> (r: ActivityRecord)
        ensures
            r.view() == activity_for(self.activity_view(), peer_id@),
    {
        match self.activity.get(peer_id) {
            Some(rec) => rec.copy(),
            None => ActivityRecord::new(),
        }
    }

    /// Store `rec` as the record of `peer`.
    fn store(&mut self, peer_id: &PeerId, rec: ActivityRecord)
        ensures
            final(self).config_view() == old(self).config_view(),
            final(self).blocked_view() == old(self).blocked_view(),
            final(self).activity_view() == old(self).activity_view().insert(peer_id@, rec.view()),
    {
        let ghost v = rec.view();
        self.activity.insert(*peer_id, rec);
        assert(self.activity_view() =~= old(self).activity_view().insert(peer_id@, v));
    }

    /// Record a connection attempt of `peer` at time `now`.
    pub fn record_connection_attempt_at(&mut self, peer_id: &PeerId, now: u64) -> (r: SecurityResult<()>)
        ensures
            r is Ok,
            final(self).config_view() == old(self).config_view(),
            final(self).blocked_view() == old(self).blocked_view(),
            final(self).activity_view() == with_attempt(old(self).activity_view(), peer_id@, now),
    {
        let mut rec = self.record_of(peer_id);
        rec.connection_attempts.push(now);
        self.store(peer_id, rec);
        Ok(())
    }

    /// Record a connection attempt of `peer` now.
    pub fn record_connection_attempt(&mut self, peer_id: &PeerId) -> (r: SecurityResult<()>)
        ensures
            r is Ok,
            final(self).config_view() == old(self).config_view(),
            final(self).blocked_view() == old(self).blocked_view(),
            exists|now: u64| final(self).activity_view() == #[trigger] with_attempt(old(self).activity_view(), peer_id@, now),
    {
        let now = unix_now_secs();
        self.record_connection_attempt_at(peer_id, now)
    }

    /// Record a failed pairing attempt of `peer`.
    pub fn record_failed_pairing(&mut self, peer_id: &PeerId) -> (r: SecurityResult<()>)
        ensures
            r is Ok,
            final(self).config_view() == old(self).config_view(),
            final(self).blocked_view() == old(self).blocked_view(),
            final(self).activity_view() == old(self).activity_view().insert(
                peer_id@,
                ({
                    let a = activity_for(old(self).activity_view(), peer_id@);
                    Activity { failed_pairings: bump(a.failed_pairings), ..a }
                }),
            ),
    {
        let mut rec = self.record_of(peer_id);
        rec.failed_pairings = rec.failed_pairings.saturating_add(1);
        self.store(peer_id, rec);
        Ok(())
    }

    /// Record an established connection of `peer`.
    pub fn record_connection_established(&mut self, peer_id: &PeerId) -> (r: SecurityResult<()>)
        ensures
            r is Ok,
            final(self).config_view() == old(self).config_view(),
            final(self).blocked_view() == old(self).blocked_view(),
            final(self).activity_view() == old(self).activity_view().insert(
                peer_id@,
                ({
                    let a = activity_for(old(self).activity_view(), peer_id@);
                    Activity { active_connections: bump(a.active_connections), ..a }
                }),
            ),
    {
        let mut rec = self.record_of(peer_id);
        rec.active_connections = rec.active_connections.saturating_add(1);
        self.store(peer_id, rec);
        Ok(())
    }

    /// Record a closed connection of `peer`; the count never drops below zero.
    pub fn record_connection_closed(&mut self, peer_id: &PeerId) -> (r: SecurityResult<()>)
        ensures
            r is Ok,
            final(self).config_view() == old(self).config_view(),
            final(self).blocked_view() == old(self).blocked_view(),
            final(self).activity_view() == (if old(self).activity_view().dom().contains(peer_id@) {
                let a = old(self).activity_view()[peer_id@];
                old(self).activity_view().insert(
                    peer_id@,
                    Activity {
                        active_connections: (if a.active_connections > 0 { a.active_connections - 1 } else { 0 }) as u32,
                        ..a
                    },
                )
            } else {
                old(self).activity_view()
            }),
    {
        if self.activity.contains_key(peer_id) {
            let mut rec = self.record_of(peer_id);
            if rec.active_connections > 0 {
                rec.active_connections = rec.active_connections - 1;
            }
            self.store(peer_id, rec);
        }
        Ok(())
    }

    /// The suspicious patterns of `peer` as seen at time `now`.
    pub fn detect_suspicious_patterns_at(&self, peer_id: &PeerId, now: u64) -> (r: SecurityResult<Vec<SuspiciousPattern>>)
        ensures
            r matches Ok(v) && v@ == detected_patterns(
                self.config_view(),
                self.activity_view(),
                self.blocked_view(),
                peer_id@,
                now,
            ),
    {
        let mut patterns: Vec<SuspiciousPattern> = Vec::new();
        if self.blocked_peers.contains_key(peer_id) {
            patterns.push(SuspiciousPattern::BlockedPeerAttempt);
        }
        proof {
            if !self.blocked_view().dom().contains(peer_id@) {
                assert(patterns@ =~= Seq::<SuspiciousPattern>::empty());
            }
        }
        match self.activity.get(peer_id) {
            Some(rec) => {
                let start = now.saturating_sub(self.config.detection_window_secs);
                let recent_ts = keep_after(&rec.connection_attempts, start);
                if (recent_ts.len() as u32) > self.config.rapid_connection_threshold {
                    patterns.push(SuspiciousPattern::RapidConnections);
                }
                if rec.failed_pairings >= self.config.failed_pairing_threshold {
                    patterns.push(SuspiciousPattern::FailedPairings);
                }
                if rec.active_connections > self.config.max_simultaneous_connections {
                    patterns.push(SuspiciousPattern::MultipleConnections);
                }
                if rec.connection_attempts.len() >= 5 {
                    if has_regular_interval_pattern(&recent_ts) {
                        patterns.push(SuspiciousPattern::UnusualTiming);
                    }
                }
            },
            None => {},
        }
        Ok(patterns)
    }

    /// The suspicious patterns of `peer` as seen now.
    pub fn detect_suspicious_patterns(&self, peer_id: &PeerId) -> (r: SecurityResult<Vec<SuspiciousPattern>>)
        ensures
            exists|now: u64|
                r matches Ok(v) && v@ == #[trigger] detected_patterns(
                    self.config_view(),
                    self.activity_view(),
                    self.blocked_view(),
                    peer_id@,
                    now,
                ),
    {
        let now = unix_now_secs();
        self.detect_suspicious_patterns_at(peer_id, now)
    }

    /// Whether `peer` should be blocked at time `now`: some critical pattern is detected.
    pub fn should_block_at(&self, peer_id: &PeerId, now: u64) -> (r: SecurityResult<bool>)
        ensures
            r matches Ok(b) && b == any_critical(
                detected_patterns(self.config_view(), self.activity_view(), self.blocked_view(), peer_id@, now),
            ),
    {
        let patterns = match self.detect_suspicious_patterns_at(peer_id, now) {
            Ok(p) => p,
            Err(e) => return Err(e),
        };
        let ghost ps = patterns@;
        let mut i: usize = 0;
        while i < patterns.len()
            invariant
                ps == patterns@,
                ps == detected_patterns(self.config_view(), self.activity_view(), self.blocked_view(), peer_id@, now),
                i <= patterns@.len(),
                forall|j: int| 0 <= j < i ==> !is_critical(#[trigger] ps[j]),
            decreases patterns@.len() - i,
        {
            let p = patterns[i];
            if p == SuspiciousPattern::RapidConnections || p == SuspiciousPattern::FailedPairings
                || p == SuspiciousPattern::BlockedPeerAttempt {
                proof {
                    assert(is_critical(ps[i as int]));
                }
                return Ok(true);
            }
            i = i + 1;
        }
        Ok(false)
    }

    /// Whether `peer` should be blocked now.
    pub fn should_block(&self, peer_id: &PeerId) -> (r: SecurityResult<bool>)
        ensures
            exists|now: u64|
                r matches Ok(b) && b == any_critical(
                    #[trigger] detected_patterns(self.config_view(), self.activity_view(), self.blocked_view(), peer_id@, now),
                ),
    {
        let now = unix_now_secs();
        self.should_block_at(peer_id, now)
    }

    /// Block `peer` for `duration_secs` from `now`, noting the time in its record.
    pub fn block_peer_at(&mut self, peer_id: &PeerId, duration_secs: u64, now: u64) -> (r: SecurityResult<()>)
        ensures
            r is Ok,
            final(self).config_view() == old(self).config_view(),
            final(self).blocked_view() == blocked_until(old(self).blocked_view(), peer_id@, now, duration_secs),
            final(self).activity_view() == with_block_noted(old(self).activity_view(), peer_id@, now),
    {
        let unblock_time = now.saturating_add(duration_secs);
        self.blocked_peers.insert(*peer_id, unblock_time);
        if self.activity.contains_key(peer_id) {
            let mut rec = self.record_of(peer_id);
            rec.last_blocked_attempt = Some(now);
            self.store(peer_id, rec);
        }
        Ok(())
    }

    /// Block `peer` for `duration_secs` from now.
    pub fn block_peer(&mut self, peer_id: &PeerId, duration_secs: u64) -> (r: SecurityResult<()>)
        ensures
            r is Ok,
            final(self).config_view() == old(self).config_view(),
            exists|now: u64|
                final(self).blocked_view() == #[trigger] blocked_until(old(self).blocked_view(), peer_id@, now, duration_secs)
                && final(self).activity_view() == with_block_noted(old(self).activity_view(), peer_id@, now),
    {
        let now = unix_now_secs();
        self.block_peer_at(peer_id, duration_secs, now)
    }

    /// Unblock a peer.
    pub fn unblock_peer(&mut self, peer_id: &PeerId) -> (r: SecurityResult<()>)
        ensures
            r is Ok,
            final(self).config_view() == old(self).config_view(),
            final(self).activity_view() == old(self).activity_view(),
            final(self).blocked_view() == old(self).blocked_view().remove(peer_id@),
    {
        self.blocked_peers.remove(peer_id);
        Ok(())
    }

    /// Whether `peer` is blocked at time `now`.
    pub fn is_blocked_at(&self, peer_id: &PeerId, now: u64) -> (r: bool)
        ensures
            r == blocked_at(self.blocked_view(), peer_id@, now),
    {
        match self.blocked_peers.get(peer_id) {
            Some(t) => now < *t,
            None => false,
        }
    }

    /// Whether `peer` is blocked now.
    pub fn is_blocked(&self, peer_id: &PeerId) -> (r: bool)
        ensures
            exists|now: u64| r == #[trigger] blocked_at(self.blocked_view(), peer_id@, now),
            r ==> self.blocked_view().dom().contains(peer_id@),
    {
        let now = unix_now_secs();
        self.is_blocked_at(peer_id, now)
    }

    /// Forget the activity and block of a peer.
    pub fn reset_peer_activity(&mut self, peer_id: &PeerId) -> (r: SecurityResult<()>)
        ensures
            r is Ok,
            final(self).config_view() == old(self).config_view(),
            final(self).activity_view() == old(self).activity_view().remove(peer_id@),
            final(self).blocked_view() == old(self).blocked_view().remove(peer_id@),
    {
        self.activity.remove(peer_id);
        assert(self.activity_view() =~= old(self).activity_view().remove(peer_id@));
        self.blocked_peers.remove(peer_id);
        Ok(())
    }

    /// Drop old attempts, records left without any activity, and expired blocks, as of `now`.
    pub fn cleanup_at(&mut self, now: u64) -> (r: SecurityResult<()>)
        ensures
            r is Ok,
            final(self).config_view() == old(self).config_view(),
            final(self).activity_view() == cleaned_activity(
                old(self).activity_view(),
                window_start(now, old(self).config_view().detection_window_secs),
            ),
            final(self).blocked_view() == live_blocks(old(self).blocked_view(), now),
    {
        let start = now.saturating_sub(self.config.detection_window_secs);
        let ghost pre = self.activity_view();
        let ghost mut done: Set<Seq<u8>> = Set::empty();
        let keys = self.activity.peer_keys();
        let mut i: usize = 0;
        while i < keys.len()
            invariant
                i <= keys@.len(),
                self.config_view() == old(self).config_view(),
                self.blocked_view() == old(self).blocked_view(),
                pre == old(self).activity_view(),
                start == window_start(now, old(self).config_view().detection_window_secs),
                forall|k: Seq<u8>| #[trigger] pre.dom().contains(k) ==> exists|j: int| 0 <= j < keys@.len() && keys@[j]@ == k,
                forall|j: int| 0 <= j < i ==> done.contains(#[trigger] keys@[j]@),
                self.activity_view() == partially_cleaned_activity(pre, start as int, done),
            decreases keys@.len() - i,
        {
            let k = &keys[i];
            let ghost before = self.activity_view();
            if self.activity.contains_key(k) {
                let mut rec = self.record_of(k);
                let kept = keep_after(&rec.connection_attempts, start);
                proof {
                    if done.contains(k@) {
                        crate::security::policy::rate_limiter::lemma_recent_idempotent(
                            pre[k@].connection_attempts,
                            start as int,
                        );
                    }
                }
                rec.connection_attempts = kept;
                if rec.connection_attempts.len() == 0 && rec.failed_pairings == 0 && rec.active_connections == 0 {
                    self.activity.remove(k);
                    proof {
                        assert(self.activity_view() =~= before.remove(k@));
                    }
                } else {
                    self.store(k, rec);
                }
            }
            proof {
                done = done.insert(k@);
                assert(self.activity_view() =~= partially_cleaned_activity(pre, start as int, done));
            }
            i = i + 1;
        }
        proof {
            assert forall|key: Seq<u8>| pre.dom().contains(key) implies done.contains(key) by {
                let j = choose|j: int| 0 <= j < keys@.len() && keys@[j]@ == key;
                assert(done.contains(keys@[j]@));
            }
            assert(self.activity_view() =~= cleaned_activity(pre, start as int));
        }
        let ghost pre_blocked = self.blocked_view();
        let ghost mut done2: Set<Seq<u8>> = Set::empty();
        let bkeys = self.blocked_peers.peer_keys();
        let mut b: usize = 0;
        while b < bkeys.len()
            invariant
                b <= bkeys@.len(),
                self.config_view() == old(self).config_view(),
                self.activity_view() == cleaned_activity(pre, start as int),
                pre_blocked == old(self).blocked_view(),
                forall|k: Seq<u8>| #[trigger] pre_blocked.dom().contains(k) ==> exists|j: int| 0 <= j < bkeys@.len() && bkeys@[j]@ == k,
                forall|j: int| 0 <= j < b ==> done2.contains(#[trigger] bkeys@[j]@),
                self.blocked_view() == partially_unblocked(pre_blocked, now, done2),
            decreases bkeys@.len() - b,
        {
            let k = &bkeys[b];
            let expired = match self.blocked_peers.get(k) {
                Some(t) => !(now < *t),
                None => false,
            };
            if expired {
                self.blocked_peers.remove(k);
            }
            proof {
                done2 = done2.insert(k@);
                assert(self.blocked_view() =~= partially_unblocked(pre_blocked, now, done2));
            }
            b = b + 1;
        }
        proof {
            assert forall|key: Seq<u8>| pre_blocked.dom().contains(key) implies done2.contains(key) by {
                let j = choose|j: int| 0 <= j < bkeys@.len() && bkeys@[j]@ == key;
                assert(done2.contains(bkeys@[j]@));
            }
            assert(self.blocked_view() =~= live_blocks(pre_blocked, now));
        }
        Ok(())
    }

    /// Drop old activity and expired blocks as of now.
    pub fn cleanup(&mut self) -> (r: SecurityResult<()>)
        ensures
            r is Ok,
            final(self).config_view() == old(self).config_view(),
            exists|now: u64|
                final(self).activity_view() == #[trigger] cleaned_activity(
                    old(self).activity_view(),
                    window_start(now, old(self).config_view().detection_window_secs),
                ) && final(self).blocked_view() == live_blocks(old(self).blocked_view(), now),
    {
        let now = unix_now_secs();
        self.cleanup_at(now)
    }

    /// A summary of the activity of `peer` as seen at time `now`, if it has a record.
    pub fn get_activity_summary_at(&self, peer_id: &PeerId, now: u64) -> (r: Option<String>)
        ensures
            match r {
                Some(s) => self.activity_view().dom().contains(peer_id@) && s@ == ({
                    let a = self.activity_view()[peer_id@];
                    summary_text(
                        recent(a.connection_attempts, window_start(now, self.config_view().detection_window_secs)).len(),
                        a.failed_pairings as nat,
                        a.active_connections as nat,
                    )
                }),
                None => !self.activity_view().dom().contains(peer_id@),
            },
    {
        match self.activity.get(peer_id) {
            Some(rec) => {
                let start = now.saturating_sub(self.config.detection_window_secs);
                let recent_ts = keep_after(&rec.connection_attempts, start);
                let mut s = String::new();
                append_str(&mut s, "Recent attempts: ");
                let n = u64_to_decimal(recent_ts.len() as u64);
                append_string(&mut s, &n);
                append_str(&mut s, ", Failed pairings: ");
                let f = u64_to_decimal(rec.failed_pairings as u64);
                append_string(&mut s, &f);
                append_str(&mut s, ", Active connections: ");
                let a = u64_to_decimal(rec.active_connections as u64);
                append_string(&mut s, &a);
                proof {
                    assert(s@ =~= summary_text(recent_ts@.len(), rec.failed_pairings as nat, rec.active_connections as nat));
                }
                Some(s)
            },
            None => None,
        }
    }

    /// A summary of the activity of `peer` as seen now, if it has a record.
    pub fn get_activity_summary(&self, peer_id: &PeerId) -> (r: Option<String>)
        ensures
            r is Some <==> self.activity_view().dom().contains(peer_id@),
            r matches Some(s) ==> exists|now: u64| s@ == #[trigger] summary_text(
                    recent(
                        self.activity_view()[peer_id@].connection_attempts,
                        window_start(now, self.config_view().detection_window_secs),
                    ).len(),
                    self.activity_view()[peer_id@].failed_pairings as nat,
                    self.activity_view()[peer_id@].active_connections as nat,
                ),
    {
        let now = unix_now_secs();
        self.get_activity_summary_at(peer_id, now)
    }

    /// Replace the configuration.
    pub fn update_config(&mut self, config: AttackDetectorConfig) -> (r: SecurityResult<()>)
        ensures
            r is Ok,
            final(self).config_view() == config,
            final(self).activity_view() == old(self).activity_view(),
            final(self).blocked_view() == old(self).blocked_view(),
    {
        self.config = config;
        Ok(())
    }
}

/// The patterns found for a peer: too many simultaneous connections exactly
/// when its open connections exceed the configured limit; repeated failed
/// pairings exactly when its failures reach the threshold; an attempt by a
/// blocked peer exactly when it has a block on record. A peer with no record
/// shows none of these but the block.
pub proof fn lemma_pattern_conditions(
    cfg: AttackDetectorConfig,
    activity: Map<Seq<u8>, Activity>,
    blocked: Map<Seq<u8>, u64>,
    k: Seq<u8>,
    now: u64,
)
    ensures
        detected_patterns(cfg, activity, blocked, k, now).contains(SuspiciousPattern::MultipleConnections)
            <==> activity_for(activity, k).active_connections > cfg.max_simultaneous_connections,
        detected_patterns(cfg, activity, blocked, k, now).contains(SuspiciousPattern::FailedPairings)
            <==> (activity.dom().contains(k) && activity[k].failed_pairings >= cfg.failed_pairing_threshold),
        detected_patterns(cfg, activity, blocked, k, now).contains(SuspiciousPattern::BlockedPeerAttempt)
            <==> blocked.dom().contains(k),
{
    let ps = detected_patterns(cfg, activity, blocked, k, now);
    let s0: Seq<SuspiciousPattern> = if blocked.dom().contains(k) {
        seq![SuspiciousPattern::BlockedPeerAttempt]
    } else {
        seq![]
    };
    if activity.dom().contains(k) {
        let rec = activity[k];
        let ws = window_start(now, cfg.detection_window_secs);
        let recent_ts = recent(rec.connection_attempts, ws);
        let s1 = if (recent_ts.len() as u32) > cfg.rapid_connection_threshold {
            s0.push(SuspiciousPattern::RapidConnections)
        } else {
            s0
        };
        let s2 = if rec.failed_pairings >= cfg.failed_pairing_threshold {
            s1.push(SuspiciousPattern::FailedPairings)
        } else {
            s1
        };
        let s3 = if rec.active_connections > cfg.max_simultaneous_connections {
            s2.push(SuspiciousPattern::MultipleConnections)
        } else {
            s2
        };
        let s4 = if rec.connection_attempts.len() >= 5 && regular_intervals(recent_ts) {
            s3.push(SuspiciousPattern::UnusualTiming)
        } else {
            s3
        };
        assert(ps == s4);
        lemma_push_contains(s0, SuspiciousPattern::RapidConnections);
        lemma_push_contains(s1, SuspiciousPattern::FailedPairings);
        lemma_push_contains(s2, SuspiciousPattern::MultipleConnections);
        lemma_push_contains(s3, SuspiciousPattern::UnusualTiming);
        assert(!s0.contains(SuspiciousPattern::MultipleConnections));
        assert(!s0.contains(SuspiciousPattern::FailedPairings));
        assert(s0.contains(SuspiciousPattern::BlockedPeerAttempt) <==> blocked.dom().contains(k)) by {
            if blocked.dom().contains(k) {
                assert(s0[0] == SuspiciousPattern::BlockedPeerAttempt);
            }
        }
    } else {
        assert(ps == s0);
        assert(s0.contains(SuspiciousPattern::BlockedPeerAttempt) <==> blocked.dom().contains(k)) by {
            if blocked.dom().contains(k) {
                assert(s0[0] == SuspiciousPattern::BlockedPeerAttempt);
            }
        }
    }
}

/// A sequence with `x` pushed holds `y` exactly when `y` is `x` or was held.
proof fn lemma_push_contains(s: Seq<SuspiciousPattern>, x: SuspiciousPattern)
    ensures
        forall|y: SuspiciousPattern| #[trigger] s.push(x).contains(y) <==> (y == x || s.contains(y)),
{
    assert forall|y: SuspiciousPattern| #[trigger] s.push(x).contains(y) <==> (y == x || s.contains(y)) by {
        if s.push(x).contains(y) {
            let i = choose|i: int| 0 <= i < s.push(x).len() && s.push(x)[i] == y;
            if i < s.len() {
                assert(s[i] == y);
            }
        }
        if y == x {
            assert(s.push(x)[s.len() as int] == y);
        }
        if s.contains(y) {
            let i = choose|i: int| 0 <= i < s.len() && s[i] == y;
            assert(s.push(x)[i] == y);
        }
    }
}

} // verus!
