//! The security policy engine: one decision per connection attempt, made from
//! rate limiting, attack detection, the network mode and private mode, with
//! every step recorded in the audit log.

use vstd::prelude::*;
use crate::clock::unix_now_secs;
use crate::security::error::{SecurityError, SecurityResult, PolicyError};
use crate::security::identity::PeerId;
use crate::text::{append_str, append_string};
use super::{SecurityPolicy, ConnectionType, SecurityEvent, SecurityEventType, PolicyEngine};
use super::attack_detector::{
    AttackDetector, SuspiciousPattern, with_attempt, detected_patterns, any_critical, is_critical,
    blocked_until, with_block_noted, activity_for,
};
use super::audit::{SecurityAuditor, EntryView, keep_last, log_all, logged_view, lemma_log_all_push, lemma_log_all_grows, lemma_entry_views_keep_last, entry_view};
use super::network_policy::{NetworkPolicyEnforcer, connection_type_name, mode_allows, is_local_only_error, append_type_name};
use super::private_mode::{PrivateModeController, InviteCode, is_private_mode_error};
use super::rate_limiter::{RateLimiter, is_rate_limit_error, blocked_at, recent, attempts_for, window_start};

verus! {

/// The name of a pattern, as `Debug` prints it.
pub open spec fn pattern_name(p: SuspiciousPattern) -> Seq<char> {
    match p {
        SuspiciousPattern::RapidConnections => "RapidConnections"@,
        SuspiciousPattern::FailedPairings => "FailedPairings"@,
        SuspiciousPattern::BlockedPeerAttempt => "BlockedPeerAttempt"@,
        SuspiciousPattern::UnusualTiming => "UnusualTiming"@,
        SuspiciousPattern::MultipleConnections => "MultipleConnections"@,
    }
}

/// The names of `ps` joined by ", ".
pub open spec fn joined_patterns(ps: Seq<SuspiciousPattern>) -> Seq<char>
    decreases ps.len(),
{
    if ps.len() == 0 {
        Seq::empty()
    } else if ps.len() == 1 {
        pattern_name(ps[0])
    } else {
        joined_patterns(ps.drop_last()) + ", "@ + pattern_name(ps.last())
    }
}

/// Appends the name of a pattern.
fn append_pattern_name(s: &mut String, p: SuspiciousPattern)
    ensures
        final(s)@ == old(s)@ + pattern_name(p),
{
    match p {
        SuspiciousPattern::RapidConnections => append_str(s, "RapidConnections"),
        SuspiciousPattern::FailedPairings => append_str(s, "FailedPairings"),
        SuspiciousPattern::BlockedPeerAttempt => append_str(s, "BlockedPeerAttempt"),
        SuspiciousPattern::UnusualTiming => append_str(s, "UnusualTiming"),
        SuspiciousPattern::MultipleConnections => append_str(s, "MultipleConnections"),
    }
}

/// The names of `ps` joined by ", ".
fn join_patterns(ps: &Vec<SuspiciousPattern>) -> (r: String)
    ensures
        r@ == joined_patterns(ps@),
{
    let mut s = String::new();
    let mut i: usize = 0;
    while i < ps.len()
        invariant
            i <= ps@.len(),
            s@ == joined_patterns(ps@.take(i as int)),
        decreases ps@.len() - i,
    {
        proof {
            assert(ps@.take(i as int + 1).drop_last() =~= ps@.take(i as int));
            if i == 0 {
                assert(ps@.take(0) =~= Seq::<SuspiciousPattern>::empty());
            }
        }
        if i > 0 {
            append_str(&mut s, ", ");
        }
        append_pattern_name(&mut s, ps[i]);
        i = i + 1;
    }
    assert(ps@.take(ps@.len() as int) =~= ps@);
    s
}

/// Whether the rate limiter lets `k` attempt a connection at `now`: it is not
/// blocked, and this attempt keeps it within the limit of the window.
pub open spec fn rate_allows(rl: RateLimiter, k: Seq<u8>, now: u64) -> bool {
    let cfg = rl.config_view();
    let start = window_start(now, cfg.window_secs);
    &&& !blocked_at(rl.blocked_view(), k, now)
    &&& recent(attempts_for(rl.attempts_view(), k), start).len() + 1 <= cfg.max_attempts
}

/// How long a peer showing a critical pattern is blocked, in seconds.
pub open spec fn suspicious_block_secs() -> u64 {
    3600
}

/// How long invite codes made by the engine stay valid, in seconds.
pub open spec fn invite_validity_secs() -> u64 {
    86400
}

/// Implementation of the security policy engine.
pub struct PolicyEngineImpl {
    policy: SecurityPolicy,
    private_mode: PrivateModeController,
    network_policy: NetworkPolicyEnforcer,
    rate_limiter: RateLimiter,
    attack_detector: AttackDetector,
    auditor: SecurityAuditor,
}

impl PolicyEngineImpl {
    /// The policy in force.
    pub closed spec fn policy_view(&self) -> SecurityPolicy {
        self.policy
    }

    /// The private mode controller.
    pub closed spec fn private_view(&self) -> PrivateModeController {
        self.private_mode
    }

    /// The network policy enforcer.
    pub closed spec fn network_view(&self) -> NetworkPolicyEnforcer {
        self.network_policy
    }

    /// The rate limiter.
    pub closed spec fn rate_view(&self) -> RateLimiter {
        self.rate_limiter
    }

    /// The attack detector.
    pub closed spec fn detector_view(&self) -> AttackDetector {
        self.attack_detector
    }

    /// The security auditor.
    pub closed spec fn auditor_view(&self) -> SecurityAuditor {
        self.auditor
    }

    /// The audit entries that a connection attempt of `k` by `ct` at `now`
    /// adds after the first one, in order, and the result; and how the
    /// attack detector changes.
    pub open spec fn admission_step(
        pre: &Self,
        post: &Self,
        peer: PeerId,
        ct: ConnectionType,
        now: u64,
        r: SecurityResult<bool>,
    ) -> bool {
        let k = peer@;
        let p = Some(k);
        let max = pre.auditor_view().config_view().max_memory_entries as nat;
        let a0 = pre.auditor_view().views();
        let attempt = logged_view(
            SecurityEventType::ConnectionAttempt,
            p,
            "Connection attempt via "@ + connection_type_name(ct),
            now,
        );
        let rl = pre.rate_view();
        let det = pre.detector_view();
        &&& post.policy_view() == pre.policy_view()
        &&& post.network_view() == pre.network_view()
        &&& post.private_view() == pre.private_view()
        &&& post.auditor_view().config_view() == pre.auditor_view().config_view()
        &&& post.detector_view().config_view() == det.config_view()
        &&& exists|rr: SecurityResult<bool>| #[trigger] RateLimiter::check_step(&rl, &post.rate_view(), k, now, rr)
        &&& if !rate_allows(rl, k, now) {
            &&& r matches Err(e) && is_rate_limit_error(e)
            &&& post.detector_view() == det
            &&& post.auditor_view().views() == log_all(
                a0,
                max,
                seq![attempt, logged_view(SecurityEventType::RateLimitExceeded, p, "Rate limit exceeded"@, now)],
            )
        } else {
            let act1 = with_attempt(det.activity_view(), k, now);
            let ps = detected_patterns(det.config_view(), act1, det.blocked_view(), k, now);
            let noted: Seq<EntryView> = if ps.len() > 0 {
                seq![
                    attempt,
                    logged_view(
                        SecurityEventType::SuspiciousActivity,
                        p,
                        "Suspicious patterns detected: "@ + joined_patterns(ps),
                        now,
                    ),
                ]
            } else {
                seq![attempt]
            };
            if any_critical(ps) {
                &&& post.detector_view().blocked_view() == blocked_until(det.blocked_view(), k, now, suspicious_block_secs())
                &&& post.detector_view().activity_view() == with_block_noted(act1, k, now)
                &&& r matches Err(SecurityError::Policy(PolicyError::SuspiciousActivity(msg)))
                    && msg@ == "Blocked due to suspicious patterns: "@ + joined_patterns(ps)
                &&& post.auditor_view().views() == log_all(a0, max, noted)
            } else {
                &&& post.detector_view().blocked_view() == det.blocked_view()
                &&& post.detector_view().activity_view() == act1
                &&& if !mode_allows(pre.network_view().mode_view(), ct) {
                    &&& r matches Err(e) && is_local_only_error(e)
                    &&& post.auditor_view().views() == log_all(a0, max, noted)
                } else if pre.private_view().enabled_view() && !pre.private_view().allowed_view().contains(k) {
                    &&& r matches Err(e) && is_private_mode_error(e)
                    &&& post.auditor_view().views() == log_all(
                        a0,
                        max,
                        noted.push(
                            logged_view(SecurityEventType::PolicyViolation, p, "Private mode blocked connection"@, now),
                        ),
                    )
                } else {
                    &&& r == Ok::<bool, SecurityError>(true)
                    &&& post.auditor_view().views() == log_all(
                        a0,
                        max,
                        noted.push(logged_view(SecurityEventType::ConnectionAccepted, p, "Connection allowed"@, now)),
                    )
                }
            }
        }
    }

    /// An engine with the default policy and fresh components.
    pub fn new() -> (r: Self)
        ensures
            r.policy_view() == super::default_security_policy(),
            !r.private_view().enabled_view(),
            r.private_view().codes_view().is_empty(),
            r.private_view().allowed_view().is_empty(),
            r.network_view().mode_view() is Unrestricted,
            !r.network_view().local_only_view(),
            r.rate_view().attempts_view().is_empty(),
            r.rate_view().blocked_view().is_empty(),
            r.rate_view().violations_view().is_empty(),
            r.rate_view().config_view().max_attempts == 5,
            r.rate_view().config_view().window_secs == 60,
            r.detector_view().activity_view().is_empty(),
            r.detector_view().blocked_view().is_empty(),
            r.detector_view().config_view().rapid_connection_threshold == 10,
            r.detector_view().config_view().failed_pairing_threshold == 3,
            r.auditor_view().entries_view().len() == 0,
            r.auditor_view().config_view().max_memory_entries == 1000,
    {
        let r = Self {
            policy: SecurityPolicy::default_policy(),
            private_mode: PrivateModeController::new(),
            network_policy: NetworkPolicyEnforcer::new(),
            rate_limiter: RateLimiter::new(),
            attack_detector: AttackDetector::new(),
            auditor: SecurityAuditor::new(),
        };
        r
    }

    /// An engine with the given policy: private mode and local-only mode are
    /// switched on when the policy asks for them.
    pub fn with_policy(policy: SecurityPolicy) -> (r: Self)
        ensures
            r.policy_view() == policy,
            r.private_view().enabled_view() == policy.private_mode,
            r.private_view().codes_view().is_empty(),
            r.private_view().allowed_view().is_empty(),
            policy.local_only_mode ==> r.network_view().mode_view() is LocalOnly && r.network_view().local_only_view(),
            !policy.local_only_mode ==> r.network_view().mode_view() is Unrestricted && !r.network_view().local_only_view(),
            r.rate_view().attempts_view().is_empty(),
            r.rate_view().blocked_view().is_empty(),
            r.detector_view().activity_view().is_empty(),
            r.detector_view().blocked_view().is_empty(),
            r.auditor_view().entries_view().len() == 0,
    {
        let mut engine = Self::new();
        if policy.private_mode {
            let _ = engine.private_mode.enable();
        }
        if policy.local_only_mode {
            let _ = engine.network_policy.enable_local_only();
        }
        engine.policy = policy;
        engine
    }

    /// Record an event about `peer_id` at `now`.
    fn record(&mut self, event_type: SecurityEventType, details: String, peer_id: &PeerId, now: u64)
        ensures
            final(self).policy_view() == old(self).policy_view(),
            final(self).private_view() == old(self).private_view(),
            final(self).network_view() == old(self).network_view(),
            final(self).rate_view() == old(self).rate_view(),
            final(self).detector_view() == old(self).detector_view(),
            final(self).auditor_view().config_view() == old(self).auditor_view().config_view(),
            final(self).auditor_view().views() == keep_last(
                old(self).auditor_view().views().push(logged_view(event_type, Some(peer_id@), details@, now)),
                old(self).auditor_view().config_view().max_memory_entries as nat,
            ),
    {
        let event = SecurityEvent::new_at(event_type, Some(*peer_id), details, now);
        let ghost e = super::audit::AuditLogEntry { event, severity: super::audit::severity_of(event_type) };
        let ghost pre = self.auditor.entries_view();
        let _ = self.auditor.log_event(event);
        proof {
            lemma_entry_views_keep_last(pre, e, self.auditor.config_view().max_memory_entries as nat);
        }
    }

    /// Decide on a connection attempt of `peer_id` by `connection_type` at `now`.
    ///
    /// The attempt is logged; then, in order: the rate limiter may refuse it
    /// (logged); the attack detector records it, logs any suspicious
    /// patterns, and blocks the peer for an hour when a pattern is critical;
    /// the network mode may refuse the connection type; private mode may
    /// refuse the peer (logged); otherwise the connection is accepted (logged).
    pub fn is_connection_allowed_at(&mut self, peer_id: &PeerId, connection_type: ConnectionType, now: u64) -> (r: SecurityResult<bool>)
        ensures
            Self::admission_step(old(self), final(self), *peer_id, connection_type, now, r),
    {
        let ghost pre = *self;
        let ghost max = self.auditor.config_view().max_memory_entries as nat;
        let ghost a0 = self.auditor.views();
        let mut text = String::new();
        append_str(&mut text, "Connection attempt via ");
        append_type_name(&mut text, connection_type);
        let ghost attempt = logged_view(SecurityEventType::ConnectionAttempt, Some(peer_id@), text@, now);
        self.record(SecurityEventType::ConnectionAttempt, text, peer_id, now);
        proof {
            lemma_log_all_push(a0, max, Seq::empty(), attempt);
            assert(seq![attempt] =~= Seq::<EntryView>::empty().push(attempt));
        }
        let ghost logged: Seq<EntryView> = seq![attempt];
        assert(self.auditor.views() == log_all(a0, max, logged));

        let rate = self.rate_limiter.check_rate_limit_at(peer_id, now);
        let ghost rr = rate;
        assert(RateLimiter::check_step(&pre.rate_limiter, &self.rate_limiter, peer_id@, now, rr));
        match rate {
            Err(e) => {
                let mut t = String::new();
                append_str(&mut t, "Rate limit exceeded");
                let ghost x = logged_view(SecurityEventType::RateLimitExceeded, Some(peer_id@), t@, now);
                self.record(SecurityEventType::RateLimitExceeded, t, peer_id, now);
                proof {
                    lemma_log_all_push(a0, max, logged, x);
                    assert(logged.push(x) =~= seq![attempt, x]);
                }
                return Err(e);
            },
            Ok(_) => {},
        }

        // Attack detection.
        let ghost det0 = self.attack_detector;
        assert(det0 == pre.attack_detector);
        let _ = self.attack_detector.record_connection_attempt_at(peer_id, now);
        let ghost act1 = with_attempt(det0.activity_view(), peer_id@, now);
        assert(self.attack_detector.activity_view() == act1);
        let patterns = match self.attack_detector.detect_suspicious_patterns_at(peer_id, now) {
            Ok(p) => p,
            Err(e) => return Err(e),
        };
        let ghost ps = patterns@;
        let ghost mut noted = logged;
        if patterns.len() > 0 {
            let names = join_patterns(&patterns);
            let mut t = String::new();
            append_str(&mut t, "Suspicious patterns detected: ");
            append_string(&mut t, &names);
            let ghost x = logged_view(SecurityEventType::SuspiciousActivity, Some(peer_id@), t@, now);
            self.record(SecurityEventType::SuspiciousActivity, t, peer_id, now);
            proof {
                lemma_log_all_push(a0, max, logged, x);
                noted = logged.push(x);
                assert(noted =~= seq![attempt, x]);
            }
            let block = match self.attack_detector.should_block_at(peer_id, now) {
                Ok(b) => b,
                Err(e) => return Err(e),
            };
            if block {
                let _ = self.attack_detector.block_peer_at(peer_id, 3600, now);
                let mut m = String::new();
                append_str(&mut m, "Blocked due to suspicious patterns: ");
                append_string(&mut m, &names);
                proof {
                    assert(ps == detected_patterns(det0.config_view(), act1, det0.blocked_view(), peer_id@, now));
                    assert(any_critical(ps));
                    assert(self.attack_detector.blocked_view() == blocked_until(det0.blocked_view(), peer_id@, now, 3600));
                    assert(self.attack_detector.activity_view() == with_block_noted(act1, peer_id@, now));
                    assert(self.auditor.views() == log_all(a0, max, noted));
                    assert(m@ == "Blocked due to suspicious patterns: "@ + joined_patterns(ps));
                    assert(RateLimiter::check_step(&pre.rate_view(), &self.rate_view(), peer_id@, now, rr));
                }
                return Err(SecurityError::Policy(PolicyError::SuspiciousActivity(m)));
            }
        } else {
            proof {
                assert(!any_critical(ps));
            }
        }
        assert(self.auditor.views() == log_all(a0, max, noted));

        proof {
            assert(ps == detected_patterns(det0.config_view(), act1, det0.blocked_view(), peer_id@, now));
            assert(!any_critical(ps));
            assert(self.attack_detector.blocked_view() == det0.blocked_view());
            assert(self.attack_detector.activity_view() == act1);
        }

        // Network mode.
        match self.network_policy.is_connection_type_allowed(&connection_type) {
            Ok(_) => {},
            Err(e) => {
                proof {
                    assert(!mode_allows(pre.network_policy.mode_view(), connection_type));
                    assert(RateLimiter::check_step(&pre.rate_view(), &self.rate_view(), peer_id@, now, rr));
                }
                return Err(e);
            },
        }

        // Private mode.
        match self.private_mode.should_allow_connection(peer_id) {
            Err(e) => {
                let mut t = String::new();
                append_str(&mut t, "Private mode blocked connection");
                let ghost x = logged_view(SecurityEventType::PolicyViolation, Some(peer_id@), t@, now);
                self.record(SecurityEventType::PolicyViolation, t, peer_id, now);
                proof {
                    lemma_log_all_push(a0, max, noted, x);
                    assert(RateLimiter::check_step(&pre.rate_view(), &self.rate_view(), peer_id@, now, rr));
                }
                return Err(e);
            },
            Ok(_) => {},
        }

        let mut t = String::new();
        append_str(&mut t, "Connection allowed");
        let ghost x = logged_view(SecurityEventType::ConnectionAccepted, Some(peer_id@), t@, now);
        self.record(SecurityEventType::ConnectionAccepted, t, peer_id, now);
        proof {
            lemma_log_all_push(a0, max, noted, x);
            assert(RateLimiter::check_step(&pre.rate_view(), &self.rate_view(), peer_id@, now, rr));
        }
        Ok(true)
    }

    /// Periodic cleanup at `now`: old attempts and expired blocks, expired
    /// invite codes and stale activity records are dropped.
    pub fn cleanup_at(&mut self, now: u64) -> (r: SecurityResult<()>)
        ensures
            r is Ok,
            final(self).policy_view() == old(self).policy_view(),
            final(self).network_view() == old(self).network_view(),
            final(self).auditor_view() == old(self).auditor_view(),
            final(self).private_view().enabled_view() == old(self).private_view().enabled_view(),
            final(self).private_view().allowed_view() == old(self).private_view().allowed_view(),
            final(self).private_view().codes_view() == super::private_mode::live_codes(old(self).private_view().codes_view(), now),
            final(self).rate_view().config_view() == old(self).rate_view().config_view(),
            final(self).detector_view().config_view() == old(self).detector_view().config_view(),
    {
        let _ = self.rate_limiter.cleanup_at(now);
        let _ = self.private_mode.cleanup_expired_codes_at(now);
        let _ = self.attack_detector.cleanup_at(now);
        Ok(())
    }

    /// Periodic cleanup now.
    pub fn cleanup(&mut self) -> (r: SecurityResult<()>)
        ensures
            r is Ok,
            final(self).policy_view() == old(self).policy_view(),
            final(self).network_view() == old(self).network_view(),
            final(self).auditor_view() == old(self).auditor_view(),
            final(self).private_view().enabled_view() == old(self).private_view().enabled_view(),
            final(self).private_view().allowed_view() == old(self).private_view().allowed_view(),
    {
        let now = unix_now_secs();
        self.cleanup_at(now)
    }

    /// The private mode controller.
    pub fn private_mode_controller(&self) -> (r: &PrivateModeController)
        ensures
            *r == self.private_view(),
    {
        &self.private_mode
    }

    /// The private mode controller, for changes.
    pub fn private_mode_controller_mut(&mut self) -> (r: &mut PrivateModeController)
        ensures
            *r == old(self).private_view(),
            final(self).private_view() == *final(r),
            final(self).policy_view() == old(self).policy_view(),
            final(self).network_view() == old(self).network_view(),
            final(self).rate_view() == old(self).rate_view(),
            final(self).detector_view() == old(self).detector_view(),
            final(self).auditor_view() == old(self).auditor_view(),
    {
        &mut self.private_mode
    }

    /// The rate limiter.
    pub fn rate_limiter(&self) -> (r: &RateLimiter)
        ensures
            *r == self.rate_view(),
    {
        &self.rate_limiter
    }

    /// The security auditor.
    pub fn auditor(&self) -> (r: &SecurityAuditor)
        ensures
            *r == self.auditor_view(),
    {
        &self.auditor
    }

    /// The network policy enforcer.
    pub fn network_policy_enforcer(&self) -> (r: &NetworkPolicyEnforcer)
        ensures
            *r == self.network_view(),
    {
        &self.network_policy
    }

    /// The attack detector.
    pub fn attack_detector(&self) -> (r: &AttackDetector)
        ensures
            *r == self.detector_view(),
    {
        &self.attack_detector
    }
}

impl PolicyEngine for PolicyEngineImpl {
    /// Decide on a connection attempt now (see `is_connection_allowed_at`).
    fn is_connection_allowed(&mut self, peer_id: &PeerId, connection_type: ConnectionType) -> (r: SecurityResult<bool>)
        ensures
            exists|now: u64| #[trigger] Self::admission_step(old(self), final(self), *peer_id, connection_type, now, r),
    {
        let now = unix_now_secs();
        self.is_connection_allowed_at(peer_id, connection_type, now)
    }

    /// The policy in force.
    fn get_policy(&self) -> (r: SecurityResult<SecurityPolicy>)
        ensures
            r matches Ok(p) && p == self.policy_view(),
    {
        Ok(self.policy)
    }

    /// Replace the policy; private mode is switched when the new policy's
    /// flag differs from the old policy's.
    fn update_policy(&mut self, new_policy: SecurityPolicy) -> (r: SecurityResult<()>)
        ensures
            r is Ok,
            final(self).policy_view() == new_policy,
            final(self).private_view().enabled_view() == if new_policy.private_mode != old(self).policy_view().private_mode {
                new_policy.private_mode
            } else {
                old(self).private_view().enabled_view()
            },
            final(self).private_view().codes_view() == old(self).private_view().codes_view(),
            final(self).private_view().allowed_view() == old(self).private_view().allowed_view(),
            final(self).network_view() == old(self).network_view(),
            final(self).rate_view() == old(self).rate_view(),
            final(self).detector_view() == old(self).detector_view(),
            final(self).auditor_view() == old(self).auditor_view(),
    {
        if new_policy.private_mode != self.policy.private_mode {
            if new_policy.private_mode {
                let _ = self.private_mode.enable();
            } else {
                let _ = self.private_mode.disable();
            }
        }
        self.policy = new_policy;
        Ok(())
    }

    /// Record a security event.
    fn log_event(&mut self, event: SecurityEvent) -> (r: SecurityResult<()>)
        ensures
            r is Ok,
            final(self).auditor_view().config_view() == old(self).auditor_view().config_view(),
            final(self).auditor_view().entries_view() == keep_last(
                old(self).auditor_view().entries_view().push(
                    super::audit::AuditLogEntry { event, severity: super::audit::severity_of(event.event_type) },
                ),
                old(self).auditor_view().config_view().max_memory_entries as nat,
            ),
            final(self).policy_view() == old(self).policy_view(),
            final(self).private_view() == old(self).private_view(),
            final(self).network_view() == old(self).network_view(),
            final(self).rate_view() == old(self).rate_view(),
            final(self).detector_view() == old(self).detector_view(),
    {
        self.auditor.log_event(event)
    }

    /// Record a connection attempt of a peer now and check its rate limit.
    fn check_rate_limit(&mut self, peer_id: &PeerId) -> (r: SecurityResult<bool>)
        ensures
            exists|now: u64| #[trigger] RateLimiter::check_step(&old(self).rate_view(), &final(self).rate_view(), peer_id@, now, r),
            final(self).policy_view() == old(self).policy_view(),
            final(self).private_view() == old(self).private_view(),
            final(self).network_view() == old(self).network_view(),
            final(self).detector_view() == old(self).detector_view(),
            final(self).auditor_view() == old(self).auditor_view(),
    {
        let now = unix_now_secs();
        let r = self.rate_limiter.check_rate_limit_at(peer_id, now);
        assert(RateLimiter::check_step(&old(self).rate_view(), &self.rate_view(), peer_id@, now, r));
        r
    }

    /// Switch private mode on, in the controller and in the policy.
    fn enable_private_mode(&mut self) -> (r: SecurityResult<()>)
        ensures
            r is Ok,
            final(self).private_view().enabled_view(),
            final(self).private_view().codes_view() == old(self).private_view().codes_view(),
            final(self).private_view().allowed_view() == old(self).private_view().allowed_view(),
            final(self).policy_view() == (SecurityPolicy { private_mode: true, ..old(self).policy_view() }),
            final(self).network_view() == old(self).network_view(),
            final(self).rate_view() == old(self).rate_view(),
            final(self).detector_view() == old(self).detector_view(),
            final(self).auditor_view() == old(self).auditor_view(),
    {
        let _ = self.private_mode.enable();
        self.policy.private_mode = true;
        Ok(())
    }

    /// Switch private mode off, in the controller and in the policy.
    fn disable_private_mode(&mut self) -> (r: SecurityResult<()>)
        ensures
            r is Ok,
            !final(self).private_view().enabled_view(),
            final(self).private_view().codes_view() == old(self).private_view().codes_view(),
            final(self).private_view().allowed_view() == old(self).private_view().allowed_view(),
            final(self).policy_view() == (SecurityPolicy { private_mode: false, ..old(self).policy_view() }),
            final(self).network_view() == old(self).network_view(),
            final(self).rate_view() == old(self).rate_view(),
            final(self).detector_view() == old(self).detector_view(),
            final(self).auditor_view() == old(self).auditor_view(),
    {
        let _ = self.private_mode.disable();
        self.policy.private_mode = false;
        Ok(())
    }

    /// Make an invite code for `peer_id`, valid for a day; the peer is allowed in private mode.
    fn generate_invite_code(&mut self, peer_id: PeerId) -> (r: SecurityResult<InviteCode>)
        ensures
            r matches Ok(inv) && {
                &&& super::private_mode::is_invite_code(inv.code_view())
                &&& inv.peer_view() == peer_id
                &&& inv.expires_view() == (if inv.created_view() + invite_validity_secs() > u64::MAX {
                    u64::MAX as int
                } else {
                    inv.created_view() + invite_validity_secs()
                })
                &&& final(self).private_view().codes_view() == old(self).private_view().codes_view().insert(inv.code_view(), inv)
            },
            final(self).private_view().enabled_view() == old(self).private_view().enabled_view(),
            final(self).private_view().allowed_view() == old(self).private_view().allowed_view().insert(peer_id@),
            final(self).policy_view() == old(self).policy_view(),
            final(self).network_view() == old(self).network_view(),
            final(self).rate_view() == old(self).rate_view(),
            final(self).detector_view() == old(self).detector_view(),
            final(self).auditor_view() == old(self).auditor_view(),
    {
        self.private_mode.generate_invite_code(peer_id, 86400)
    }

    /// The peer an invite code belongs to, if it is known and not expired
    /// (see `PrivateModeController::validate_invite_code`).
    fn validate_invite_code(&mut self, code: &str) -> (r: SecurityResult<Option<PeerId>>)
        ensures
            r is Ok,
            !old(self).private_view().codes_view().dom().contains(code@) ==> r == Ok::<Option<PeerId>, SecurityError>(None),
            r matches Ok(Some(p)) ==> old(self).private_view().codes_view().dom().contains(code@)
                && p == old(self).private_view().codes_view()[code@].peer_view()
                && final(self).private_view().codes_view() == old(self).private_view().codes_view(),
            final(self).private_view().enabled_view() == old(self).private_view().enabled_view(),
            final(self).private_view().allowed_view() == old(self).private_view().allowed_view(),
            final(self).policy_view() == old(self).policy_view(),
            final(self).network_view() == old(self).network_view(),
            final(self).rate_view() == old(self).rate_view(),
            final(self).detector_view() == old(self).detector_view(),
            final(self).auditor_view() == old(self).auditor_view(),
    {
        self.private_mode.validate_invite_code(code)
    }

    /// Switch local-only mode on, in the enforcer and in the policy.
    fn enable_local_only_mode(&mut self) -> (r: SecurityResult<()>)
        ensures
            r is Ok,
            final(self).network_view().mode_view() is LocalOnly,
            final(self).network_view().local_only_view(),
            final(self).policy_view() == (SecurityPolicy { local_only_mode: true, ..old(self).policy_view() }),
            final(self).private_view() == old(self).private_view(),
            final(self).rate_view() == old(self).rate_view(),
            final(self).detector_view() == old(self).detector_view(),
            final(self).auditor_view() == old(self).auditor_view(),
    {
        let _ = self.network_policy.enable_local_only();
        self.policy.local_only_mode = true;
        Ok(())
    }

    /// Switch local-only mode off, in the enforcer and in the policy.
    fn disable_local_only_mode(&mut self) -> (r: SecurityResult<()>)
        ensures
            r is Ok,
            final(self).network_view().mode_view() is Unrestricted,
            !final(self).network_view().local_only_view(),
            final(self).policy_view() == (SecurityPolicy { local_only_mode: false, ..old(self).policy_view() }),
            final(self).private_view() == old(self).private_view(),
            final(self).rate_view() == old(self).rate_view(),
            final(self).detector_view() == old(self).detector_view(),
            final(self).auditor_view() == old(self).auditor_view(),
    {
        let _ = self.network_policy.disable_local_only();
        self.policy.local_only_mode = false;
        Ok(())
    }

    /// The events of the most recent audit entries, newest first, at most `limit`.
    fn get_audit_log(&self, limit: usize) -> (r: SecurityResult<Vec<SecurityEvent>>)
        ensures
            r matches Ok(v) && {
                let es = super::audit::newest_matching(
                    self.auditor_view().entries_view(),
                    super::audit::EntryFilter::Any,
                    limit as nat,
                );
                &&& v@.len() == es.len()
                &&& forall|i: int| 0 <= i < v@.len() ==> #[trigger] v@[i] == es[i].event
            },
    {
        let entries = self.auditor.get_recent_entries(limit);
        let mut events: Vec<SecurityEvent> = Vec::new();
        let mut i: usize = 0;
        while i < entries.len()
            invariant
                i <= entries@.len(),
                events@.len() == i,
                forall|j: int| 0 <= j < i ==> #[trigger] events@[j] == entries@[j].event,
            decreases entries@.len() - i,
        {
            events.push(entries[i].event.clone());
            i = i + 1;
        }
        Ok(events)
    }
}


/// A sequence whose elements all pass `pred` is its own filtering.
proof fn lemma_filter_keeps_all(s: Seq<u64>, pred: spec_fn(u64) -> bool)
    requires
        forall|i: int| 0 <= i < s.len() ==> pred(#[trigger] s[i]),
    ensures
        s.filter(pred) == s,
    decreases s.len(),
{
    reveal(Seq::filter);
    if s.len() > 0 {
        lemma_filter_keeps_all(s.drop_last(), pred);
        assert(pred(s.last()));
        assert(s.drop_last().push(s.last()) =~= s);
    }
}

/// The times `ts` all lie within one rate-limit window of each other.
pub open spec fn within_one_window(ts: Seq<u64>, window: u64) -> bool {
    forall|i: int, j: int| 0 <= i < ts.len() && 0 <= j < ts.len() ==> #[trigger] ts[i] as int > window_start(#[trigger] ts[j], window)
}

/// A run of admission decisions for one peer: `states[i + 1]` is the engine
/// after deciding on attempt `i`, made at `times[i]` by `kinds[i]` and
/// answered `results[i]`.
pub open spec fn admission_run(
    states: Seq<PolicyEngineImpl>,
    results: Seq<SecurityResult<bool>>,
    times: Seq<u64>,
    kinds: Seq<ConnectionType>,
    peer: PeerId,
) -> bool {
    &&& results.len() == times.len()
    &&& kinds.len() == times.len()
    &&& states.len() == times.len() + 1
    &&& forall|i: int| #![trigger results[i]]
        0 <= i < times.len() ==> PolicyEngineImpl::admission_step(&states[i], &states[i + 1], peer, kinds[i], times[i], results[i])
}

/// Over the first `i` attempts of a run within one window, before the limit
/// is reached, the rate limiter has noted exactly those attempts and has not
/// blocked the peer.
proof fn lemma_run_prefix(
    states: Seq<PolicyEngineImpl>,
    results: Seq<SecurityResult<bool>>,
    times: Seq<u64>,
    kinds: Seq<ConnectionType>,
    peer: PeerId,
    i: int,
)
    requires
        admission_run(states, results, times, kinds, peer),
        attempts_for(states[0].rate_view().attempts_view(), peer@) == Seq::<u64>::empty(),
        forall|j: int| 0 <= j < times.len() ==> !blocked_at(states[0].rate_view().blocked_view(), peer@, #[trigger] times[j]),
        within_one_window(times, states[0].rate_view().config_view().window_secs),
        0 <= i <= times.len(),
        i <= states[0].rate_view().config_view().max_attempts,
    ensures
        states[i].rate_view().config_view() == states[0].rate_view().config_view(),
        attempts_for(states[i].rate_view().attempts_view(), peer@) == times.take(i),
        forall|j: int| 0 <= j < times.len() ==> !blocked_at(states[i].rate_view().blocked_view(), peer@, #[trigger] times[j]),
    decreases i,
{
    if i > 0 {
        let h = i - 1;
        lemma_run_prefix(states, results, times, kinds, peer, h);
        let pre = states[h];
        let post = states[i];
        let k = peer@;
        let now = times[h];
        let cfg = pre.rate_view().config_view();
        assert(PolicyEngineImpl::admission_step(&states[h], &states[h + 1], peer, kinds[h], times[h], results[h]));
        let rr = choose|rr: SecurityResult<bool>| #[trigger] RateLimiter::check_step(&pre.rate_view(), &post.rate_view(), k, now, rr);
        assert(RateLimiter::check_step(&pre.rate_view(), &post.rate_view(), k, now, rr));
        let start = window_start(now, cfg.window_secs);
        let old_attempts = times.take(h);
        assert forall|m: int| 0 <= m < old_attempts.len() implies (#[trigger] super::rate_limiter::after(start))(old_attempts[m]) by {
            assert(old_attempts[m] == times[m]);
            assert(times[m] as int > window_start(times[h], cfg.window_secs));
        }
        lemma_filter_keeps_all(old_attempts, super::rate_limiter::after(start));
        assert(recent(old_attempts, start) == old_attempts);
        assert(!blocked_at(pre.rate_view().blocked_view(), k, now));
        assert(old_attempts.push(now) =~= times.take(i));
    }
}

/// Rate limiting over a run of connection attempts by one peer within one
/// window, starting with no attempts and no block for that peer: no attempt
/// is ever answered `Ok(false)`; the rate limiter lets the first
/// `max_attempts` attempts through; and the attempt after them is refused
/// with a rate-limit error. Private mode and local-only mode refuse any
/// attempt they do not allow. Every decision adds an audit entry, up to the
/// auditor's capacity.
pub proof fn lemma_rate_limited_run(
    states: Seq<PolicyEngineImpl>,
    results: Seq<SecurityResult<bool>>,
    times: Seq<u64>,
    kinds: Seq<ConnectionType>,
    peer: PeerId,
)
    requires
        admission_run(states, results, times, kinds, peer),
        attempts_for(states[0].rate_view().attempts_view(), peer@) == Seq::<u64>::empty(),
        forall|j: int| 0 <= j < times.len() ==> !blocked_at(states[0].rate_view().blocked_view(), peer@, #[trigger] times[j]),
        within_one_window(times, states[0].rate_view().config_view().window_secs),
    ensures
        forall|i: int| 0 <= i < results.len() ==> #[trigger] results[i] != Ok::<bool, SecurityError>(false),
        forall|i: int|
            0 <= i < results.len() && i < states[0].rate_view().config_view().max_attempts
                ==> rate_allows(#[trigger] states[i].rate_view(), peer@, times[i]),
        results.len() > states[0].rate_view().config_view().max_attempts ==> (
            results[states[0].rate_view().config_view().max_attempts as int] matches Err(e) && is_rate_limit_error(e)),
        forall|i: int|
            0 <= i < results.len() && !mode_allows(states[i].network_view().mode_view(), kinds[i])
                ==> (#[trigger] results[i]) is Err,
        forall|i: int|
            0 <= i < results.len() && states[i].private_view().enabled_view()
                && !states[i].private_view().allowed_view().contains(peer@) ==> (#[trigger] results[i]) is Err,
        forall|i: int| 0 <= i < results.len() ==> #[trigger] audit_grew(states, i),
{
    let max = states[0].rate_view().config_view().max_attempts;
    assert forall|i: int| 0 <= i < results.len() && i < max implies rate_allows(
        #[trigger] states[i].rate_view(),
        peer@,
        times[i],
    ) by {
        lemma_run_prefix(states, results, times, kinds, peer, i);
        let start = window_start(times[i], max_window(states[0]));
        let a = times.take(i);
        assert forall|m: int| 0 <= m < a.len() implies (#[trigger] super::rate_limiter::after(start))(a[m]) by {
            assert(a[m] == times[m]);
        }
        lemma_filter_keeps_all(a, super::rate_limiter::after(start));
    }
    if results.len() > max {
        let i = max as int;
        lemma_run_prefix(states, results, times, kinds, peer, i);
        let start = window_start(times[i], max_window(states[0]));
        let a = times.take(i);
        assert forall|m: int| 0 <= m < a.len() implies (#[trigger] super::rate_limiter::after(start))(a[m]) by {
            assert(a[m] == times[m]);
        }
        lemma_filter_keeps_all(a, super::rate_limiter::after(start));
        assert(!rate_allows(states[i].rate_view(), peer@, times[i]));
        assert(results[i] == results[i]);
    }
    assert forall|i: int| 0 <= i < results.len() implies #[trigger] results[i] != Ok::<bool, SecurityError>(false) by {
        assert(PolicyEngineImpl::admission_step(&states[i], &states[i + 1], peer, kinds[i], times[i], results[i]));
    }
    assert forall|i: int| 0 <= i < results.len() && !mode_allows(states[i].network_view().mode_view(), kinds[i])
        implies (#[trigger] results[i]) is Err by {
        assert(PolicyEngineImpl::admission_step(&states[i], &states[i + 1], peer, kinds[i], times[i], results[i]));
    }
    assert forall|i: int| 0 <= i < results.len() && states[i].private_view().enabled_view()
        && !states[i].private_view().allowed_view().contains(peer@) implies (#[trigger] results[i]) is Err by {
        assert(PolicyEngineImpl::admission_step(&states[i], &states[i + 1], peer, kinds[i], times[i], results[i]));
    }
    lemma_run_audits(states, results, times, kinds, peer);
}

/// Every decision of a run adds an audit entry, up to the auditor's capacity.
proof fn lemma_run_audits(
    states: Seq<PolicyEngineImpl>,
    results: Seq<SecurityResult<bool>>,
    times: Seq<u64>,
    kinds: Seq<ConnectionType>,
    peer: PeerId,
)
    requires
        admission_run(states, results, times, kinds, peer),
    ensures
        forall|i: int| 0 <= i < results.len() ==> #[trigger] audit_grew(states, i),
{
    assert forall|i: int| 0 <= i < results.len() implies #[trigger] audit_grew(states, i) by {
        lemma_log_all_grows(
            states[i].auditor_view().views(),
            states[i].auditor_view().config_view().max_memory_entries as nat,
        );
        assert(PolicyEngineImpl::admission_step(&states[i], &states[i + 1], peer, kinds[i], times[i], results[i]));
    }
}

/// What the attack detector holds of a peer that has only made `n`
/// attempts and has neither failed a pairing nor opened a connection.
pub open spec fn quiet_peer(e: PolicyEngineImpl, k: Seq<u8>, n: nat) -> bool {
    let det = e.detector_view();
    let a = activity_for(det.activity_view(), k);
    &&& a.connection_attempts.len() == n
    &&& a.failed_pairings == 0
    &&& a.active_connections == 0
    &&& !det.blocked_view().dom().contains(k)
}

/// One admitted attempt of a quiet peer, short of the detector's rapid
/// threshold: no critical pattern is found, so the answer is `Ok(true)`
/// unless the network mode or private mode refuses, and the peer stays quiet
/// with one attempt more.
proof fn lemma_quiet_step(
    pre: PolicyEngineImpl,
    post: PolicyEngineImpl,
    peer: PeerId,
    ct: ConnectionType,
    now: u64,
    r: SecurityResult<bool>,
    n: nat,
)
    requires
        PolicyEngineImpl::admission_step(&pre, &post, peer, ct, now, r),
        rate_allows(pre.rate_view(), peer@, now),
        quiet_peer(pre, peer@, n),
        n + 1 <= pre.detector_view().config_view().rapid_connection_threshold,
        pre.detector_view().config_view().failed_pairing_threshold > 0,
    ensures
        quiet_peer(post, peer@, n + 1),
        post.detector_view().config_view() == pre.detector_view().config_view(),
        mode_allows(pre.network_view().mode_view(), ct) && !(pre.private_view().enabled_view()
            && !pre.private_view().allowed_view().contains(peer@)) ==> r == Ok::<bool, SecurityError>(true),
{
    let k = peer@;
    let det = pre.detector_view();
    let cfg = det.config_view();
    let act1 = with_attempt(det.activity_view(), k, now);
    let rec = act1[k];
    assert(act1.dom().contains(k));
    assert(rec.connection_attempts.len() == n + 1);
    let ws = window_start(now, cfg.detection_window_secs);
    rec.connection_attempts.filter_lemma(super::rate_limiter::after(ws));
    let recent_ts = recent(rec.connection_attempts, ws);
    assert(recent_ts.len() <= n + 1);
    assert((recent_ts.len() as u32) == recent_ts.len());
    let ps = detected_patterns(cfg, act1, det.blocked_view(), k, now);
    assert(ps =~= seq![] || ps =~= seq![SuspiciousPattern::UnusualTiming]);
    assert(!any_critical(ps));
    assert(activity_for(act1, k) == rec);
}

/// Over the first `i` attempts of a run by a peer the detector has no record
/// of, the peer stays quiet with exactly those `i` attempts noted.
proof fn lemma_quiet_prefix(
    states: Seq<PolicyEngineImpl>,
    results: Seq<SecurityResult<bool>>,
    times: Seq<u64>,
    kinds: Seq<ConnectionType>,
    peer: PeerId,
    i: int,
)
    requires
        admission_run(states, results, times, kinds, peer),
        attempts_for(states[0].rate_view().attempts_view(), peer@) == Seq::<u64>::empty(),
        forall|j: int| 0 <= j < times.len() ==> !blocked_at(states[0].rate_view().blocked_view(), peer@, #[trigger] times[j]),
        within_one_window(times, states[0].rate_view().config_view().window_secs),
        !states[0].detector_view().activity_view().dom().contains(peer@),
        !states[0].detector_view().blocked_view().dom().contains(peer@),
        states[0].rate_view().config_view().max_attempts <= states[0].detector_view().config_view().rapid_connection_threshold,
        states[0].detector_view().config_view().failed_pairing_threshold > 0,
        0 <= i <= times.len(),
        i <= states[0].rate_view().config_view().max_attempts,
    ensures
        quiet_peer(states[i], peer@, i as nat),
        states[i].detector_view().config_view() == states[0].detector_view().config_view(),
    decreases i,
{
    if i > 0 {
        let h = i - 1;
        lemma_quiet_prefix(states, results, times, kinds, peer, h);
        lemma_rate_limited_run(states, results, times, kinds, peer);
        assert(rate_allows(states[h].rate_view(), peer@, times[h]));
        assert(PolicyEngineImpl::admission_step(&states[h], &states[h + 1], peer, kinds[h], times[h], results[h]));
        lemma_quiet_step(states[h], states[h + 1], peer, kinds[h], times[h], results[h], h as nat);
    }
}

/// A peer the engine has no record of, trying within one rate-limit window
/// (as from a new engine): each of its first `max_attempts` attempts is
/// accepted with `Ok(true)` whenever the network mode and private mode allow
/// it, given that the attack detector calls no fewer than `max_attempts`
/// attempts rapid and counts failed pairings from one on.
pub proof fn lemma_fresh_peer_admitted(
    states: Seq<PolicyEngineImpl>,
    results: Seq<SecurityResult<bool>>,
    times: Seq<u64>,
    kinds: Seq<ConnectionType>,
    peer: PeerId,
)
    requires
        admission_run(states, results, times, kinds, peer),
        attempts_for(states[0].rate_view().attempts_view(), peer@) == Seq::<u64>::empty(),
        forall|j: int| 0 <= j < times.len() ==> !blocked_at(states[0].rate_view().blocked_view(), peer@, #[trigger] times[j]),
        within_one_window(times, states[0].rate_view().config_view().window_secs),
        !states[0].detector_view().activity_view().dom().contains(peer@),
        !states[0].detector_view().blocked_view().dom().contains(peer@),
        states[0].rate_view().config_view().max_attempts <= states[0].detector_view().config_view().rapid_connection_threshold,
        states[0].detector_view().config_view().failed_pairing_threshold > 0,
    ensures
        forall|i: int|
            0 <= i < results.len() && i < states[0].rate_view().config_view().max_attempts
                && mode_allows(states[i].network_view().mode_view(), kinds[i])
                && !(states[i].private_view().enabled_view() && !states[i].private_view().allowed_view().contains(peer@))
                ==> #[trigger] results[i] == Ok::<bool, SecurityError>(true),
{
    lemma_rate_limited_run(states, results, times, kinds, peer);
    assert forall|i: int|
        0 <= i < results.len() && i < states[0].rate_view().config_view().max_attempts
            && mode_allows(states[i].network_view().mode_view(), kinds[i])
            && !(states[i].private_view().enabled_view() && !states[i].private_view().allowed_view().contains(peer@))
        implies #[trigger] results[i] == Ok::<bool, SecurityError>(true) by {
        lemma_quiet_prefix(states, results, times, kinds, peer, i);
        assert(rate_allows(states[i].rate_view(), peer@, times[i]));
        assert(PolicyEngineImpl::admission_step(&states[i], &states[i + 1], peer, kinds[i], times[i], results[i]));
        lemma_quiet_step(states[i], states[i + 1], peer, kinds[i], times[i], results[i], i as nat);
    }
}

/// Decision `i` of a run adds at least one audit entry, up to the auditor's capacity.
pub open spec fn audit_grew(states: Seq<PolicyEngineImpl>, i: int) -> bool {
    let pre = states[i];
    let post = states[i + 1];
    let n = pre.auditor_view().views().len();
    let max = pre.auditor_view().config_view().max_memory_entries as nat;
    post.auditor_view().views().len() >= if n + 1 < max { n + 1 } else { max }
}

/// The rate-limit window of an engine.
pub open spec fn max_window(e: PolicyEngineImpl) -> u64 {
    e.rate_view().config_view().window_secs
}

} // verus!
