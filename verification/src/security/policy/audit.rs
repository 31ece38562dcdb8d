//! Security audit log: a bounded, in-memory record of security events.
//!
//! The log keeps the newest `max_memory_entries` entries; older ones are
//! dropped from the front. Queries return entries newest first.

use vstd::prelude::*;
use std::collections::VecDeque;
use crate::security::error::SecurityResult;
use crate::security::identity::PeerId;
use super::{SecurityEvent, SecurityEventType};

verus! {

/// Severity level for audit events.
#[derive(Clone, Copy, Debug, PartialEq, Eq, Structural)]
pub enum Severity {
    Info,
    Warning,
    Critical,
}

/// The severity that an event of type `t` is logged with.
pub open spec fn severity_of(t: SecurityEventType) -> Severity {
    match t {
        SecurityEventType::ConnectionAttempt => Severity::Info,
        SecurityEventType::ConnectionAccepted => Severity::Info,
        SecurityEventType::ConnectionRejected => Severity::Warning,
        SecurityEventType::PairingAttempt => Severity::Info,
        SecurityEventType::PairingSuccess => Severity::Info,
        SecurityEventType::PairingFailure => Severity::Warning,
        SecurityEventType::RateLimitExceeded => Severity::Critical,
        SecurityEventType::SuspiciousActivity => Severity::Critical,
        SecurityEventType::PolicyViolation => Severity::Warning,
    }
}

/// Audit log entry: an event with its severity.
#[derive(Debug)]
pub struct AuditLogEntry {
    pub event: SecurityEvent,
    pub severity: Severity,
}

impl Clone for AuditLogEntry {
    fn clone(&self) -> (r: Self)
        ensures
            r == *self,
    {
        Self { event: self.event.clone(), severity: self.severity }
    }
}

impl AuditLogEntry {
    /// An entry for `event` with the given severity.
    pub fn new(event: SecurityEvent, severity: Severity) -> (r: Self)
        ensures
            r == (AuditLogEntry { event, severity }),
    {
        Self { event, severity }
    }
}

/// Audit log configuration.
#[derive(Debug)]
pub struct AuditConfig {
    /// Maximum number of entries to keep in memory.
    pub max_memory_entries: usize,
    /// Whether entries are also to be appended to a file.
    pub persist_to_disk: bool,
    /// Path of that file.
    pub log_file_path: Option<String>,
}

impl Clone for AuditConfig {
    fn clone(&self) -> (r: Self)
        ensures
            r == *self,
    {
        let log_file_path = match &self.log_file_path {
            Some(p) => Some(p.clone()),
            None => None,
        };
        Self { max_memory_entries: self.max_memory_entries, persist_to_disk: self.persist_to_disk, log_file_path }
    }
}

impl Default for AuditConfig {
    /// A thousand entries in memory, nothing written to disk.
    fn default() -> (r: Self)
        ensures
            r.max_memory_entries == 1000,
            !r.persist_to_disk,
            r.log_file_path is None,
    {
        Self { max_memory_entries: 1000, persist_to_disk: false, log_file_path: None }
    }
}

/// Which entries a query selects.
#[derive(Clone, Copy, Debug)]
pub enum EntryFilter {
    /// Every entry.
    Any,
    /// Entries whose event names this peer.
    Peer(PeerId),
    /// Entries whose event is of this type.
    EventType(SecurityEventType),
    /// Entries of this severity.
    Level(Severity),
}

/// Whether `f` selects the entry `e`.
pub open spec fn entry_matches(f: EntryFilter, e: AuditLogEntry) -> bool {
    match f {
        EntryFilter::Any => true,
        EntryFilter::Peer(p) => e.event.peer_id matches Some(q) && q@ == p@,
        EntryFilter::EventType(t) => e.event.event_type == t,
        EntryFilter::Level(s) => e.severity == s,
    }
}

impl EntryFilter {
    /// Whether this filter selects `e`.
    pub fn selects(&self, e: &AuditLogEntry) -> (r: bool)
        ensures
            r == entry_matches(*self, *e),
    {
        match self {
            EntryFilter::Any => true,
            EntryFilter::Peer(p) => match &e.event.peer_id {
                Some(q) => q.same_as(p),
                None => false,
            },
            EntryFilter::EventType(t) => e.event.event_type == *t,
            EntryFilter::Level(s) => e.severity == *s,
        }
    }
}

/// The entries of `s` at index `k` or later that `f` selects, newest first.
pub open spec fn newest_from(s: Seq<AuditLogEntry>, k: int, f: EntryFilter) -> Seq<AuditLogEntry>
    decreases s.len() - k,
{
    if k < 0 || k >= s.len() {
        Seq::empty()
    } else {
        let rest = newest_from(s, k + 1, f);
        if entry_matches(f, s[k]) {
            rest.push(s[k])
        } else {
            rest
        }
    }
}

/// The first `n` elements of `s`, or all of them if there are fewer.
pub open spec fn at_most<A>(s: Seq<A>, n: nat) -> Seq<A> {
    if n < s.len() {
        s.take(n as int)
    } else {
        s
    }
}

/// At most `limit` entries of `s` that `f` selects, newest first.
pub open spec fn newest_matching(s: Seq<AuditLogEntry>, f: EntryFilter, limit: nat) -> Seq<AuditLogEntry> {
    at_most(newest_from(s, 0, f), limit)
}

/// The last `n` elements of `s`, or all of them if there are fewer.
pub open spec fn keep_last<A>(s: Seq<A>, n: nat) -> Seq<A> {
    if s.len() > n {
        s.subrange(s.len() - n, s.len() as int)
    } else {
        s
    }
}

/// The selected entries from a later index are a prefix of those from an earlier one.
proof fn lemma_newest_from_prefix(s: Seq<AuditLogEntry>, j: int, k: int, f: EntryFilter)
    requires
        0 <= j <= k,
    ensures
        newest_from(s, k, f).len() <= newest_from(s, j, f).len(),
        forall|i: int| 0 <= i < newest_from(s, k, f).len() ==> #[trigger] newest_from(s, j, f)[i] == newest_from(s, k, f)[i],
    decreases k - j,
{
    if j < k {
        lemma_newest_from_prefix(s, j + 1, k, f);
    }
}

/// The plain content of an audit entry.
pub ghost struct EntryView {
    pub timestamp: u64,
    pub event_type: SecurityEventType,
    pub peer: Option<Seq<u8>>,
    pub details: Seq<char>,
    pub severity: Severity,
}

/// The plain content of `e`.
pub open spec fn entry_view(e: AuditLogEntry) -> EntryView {
    EntryView {
        timestamp: e.event.timestamp,
        event_type: e.event.event_type,
        peer: match e.event.peer_id {
            Some(p) => Some(p@),
            None => None,
        },
        details: e.event.details@,
        severity: e.severity,
    }
}

/// The plain contents of the entries of `s`, in order.
pub open spec fn entry_views(s: Seq<AuditLogEntry>) -> Seq<EntryView> {
    s.map_values(|e: AuditLogEntry| entry_view(e))
}

/// The entry that logging an event of type `t` about `peer` with text
/// `details` at `now` adds.
pub open spec fn logged_view(t: SecurityEventType, peer: Option<Seq<u8>>, details: Seq<char>, now: u64) -> EntryView {
    EntryView { timestamp: now, event_type: t, peer, details, severity: severity_of(t) }
}

/// `s` after logging each of `xs` in turn, keeping at most `max` entries.
pub open spec fn log_all(s: Seq<EntryView>, max: nat, xs: Seq<EntryView>) -> Seq<EntryView>
    decreases xs.len(),
{
    if xs.len() == 0 {
        s
    } else {
        keep_last(log_all(s, max, xs.drop_last()).push(xs.last()), max)
    }
}

/// Logging entries never leaves fewer than `min(|s|, max)` entries, and
/// logging at least one leaves at least `min(|s| + 1, max)`.
proof fn lemma_log_all_len(s: Seq<EntryView>, max: nat, xs: Seq<EntryView>)
    ensures
        log_all(s, max, xs).len() >= (if s.len() < max { s.len() } else { max }),
        xs.len() > 0 ==> log_all(s, max, xs).len() >= (if s.len() + 1 < max { s.len() + 1 } else { max }),
    decreases xs.len(),
{
    if xs.len() > 0 {
        lemma_log_all_len(s, max, xs.drop_last());
    }
}

/// Logging at least one entry into `s` leaves at least `min(|s| + 1, max)` entries.
pub proof fn lemma_log_all_grows(s: Seq<EntryView>, max: nat)
    ensures
        forall|xs: Seq<EntryView>|
            xs.len() > 0 ==> (#[trigger] log_all(s, max, xs)).len() >= (if s.len() + 1 < max {
                s.len() + 1
            } else {
                max
            }),
{
    assert forall|xs: Seq<EntryView>| xs.len() > 0 implies (#[trigger] log_all(s, max, xs)).len() >= (if s.len()
        + 1 < max {
        s.len() + 1
    } else {
        max
    }) by {
        lemma_log_all_len(s, max, xs);
    }
}

/// Logging one more entry extends `log_all` by that entry.
pub proof fn lemma_log_all_push(s: Seq<EntryView>, max: nat, xs: Seq<EntryView>, x: EntryView)
    ensures
        log_all(s, max, xs.push(x)) == keep_last(log_all(s, max, xs).push(x), max),
{
    assert(xs.push(x).drop_last() =~= xs);
}

/// Taking contents commutes with appending and with dropping the oldest entries.
pub proof fn lemma_entry_views_keep_last(s: Seq<AuditLogEntry>, e: AuditLogEntry, max: nat)
    ensures
        entry_views(keep_last(s.push(e), max)) == keep_last(entry_views(s).push(entry_view(e)), max),
{
    assert(entry_views(s.push(e)) =~= entry_views(s).push(entry_view(e)));
    assert(entry_views(keep_last(s.push(e), max)) =~= keep_last(entry_views(s).push(entry_view(e)), max));
}

/// Security auditor for logging and monitoring security events.
pub struct SecurityAuditor {
    config: AuditConfig,
    log_entries: VecDeque<AuditLogEntry>,
}

impl SecurityAuditor {
    /// The configuration in force.
    pub closed spec fn config_view(&self) -> AuditConfig {
        self.config
    }

    /// The entries kept, oldest first.
    pub closed spec fn entries_view(&self) -> Seq<AuditLogEntry> {
        self.log_entries@
    }

    /// The plain contents of the entries kept, oldest first.
    pub open spec fn views(&self) -> Seq<EntryView> {
        entry_views(self.entries_view())
    }

    /// An auditor with the default configuration and no entries.
    pub fn new() -> (r: Self)
        ensures
            r.config_view().max_memory_entries == 1000,
            !r.config_view().persist_to_disk,
            r.config_view().log_file_path is None,
            r.entries_view() == Seq::<AuditLogEntry>::empty(),
    {
        Self::with_config(AuditConfig::default())
    }

    /// An auditor with the given configuration and no entries.
    pub fn with_config(config: AuditConfig) -> (r: Self)
        ensures
            r.config_view() == config,
            r.entries_view() == Seq::<AuditLogEntry>::empty(),
    {
        Self { config, log_entries: VecDeque::new() }
    }

    /// The severity an event type is logged with.
    pub fn determine_severity(event_type: &SecurityEventType) -> (r: Severity)
        ensures
            r == severity_of(*event_type),
    {
        match event_type {
            SecurityEventType::ConnectionAttempt => Severity::Info,
            SecurityEventType::ConnectionAccepted => Severity::Info,
            SecurityEventType::ConnectionRejected => Severity::Warning,
            SecurityEventType::PairingAttempt => Severity::Info,
            SecurityEventType::PairingSuccess => Severity::Info,
            SecurityEventType::PairingFailure => Severity::Warning,
            SecurityEventType::RateLimitExceeded => Severity::Critical,
            SecurityEventType::SuspiciousActivity => Severity::Critical,
            SecurityEventType::PolicyViolation => Severity::Warning,
        }
    }

    /// Record an event, with the severity its type calls for; the oldest
    /// entries are dropped so that at most `max_memory_entries` remain.
    pub fn log_event(&mut self, event: SecurityEvent) -> (r: SecurityResult<()>)
        ensures
            r is Ok,
            final(self).config_view() == old(self).config_view(),
            final(self).entries_view() == keep_last(
                old(self).entries_view().push(AuditLogEntry { event, severity: severity_of(event.event_type) }),
                old(self).config_view().max_memory_entries as nat,
            ),
    {
        let severity = Self::determine_severity(&event.event_type);
        let entry = AuditLogEntry::new(event, severity);
        self.add_entry(entry);
        Ok(())
    }

    /// Append an entry and drop the oldest beyond the limit.
    fn add_entry(&mut self, entry: AuditLogEntry)
        ensures
            final(self).config_view() == old(self).config_view(),
            final(self).entries_view() == keep_last(
                old(self).entries_view().push(entry),
                old(self).config_view().max_memory_entries as nat,
            ),
    {
        let ghost t = self.log_entries@.push(entry);
        let max = self.config.max_memory_entries;
        self.log_entries.push_back(entry);
        while self.log_entries.len() > max
            invariant
                max == self.config.max_memory_entries,
                self.config == old(self).config,
                t == old(self).log_entries@.push(entry),
                self.log_entries@.len() <= t.len(),
                self.log_entries@ == t.subrange(t.len() - self.log_entries@.len(), t.len() as int),
                t.len() > max ==> self.log_entries@.len() >= max,
                t.len() <= max ==> self.log_entries@.len() == t.len(),
            decreases self.log_entries@.len(),
        {
            let ghost before = self.log_entries@;
            self.log_entries.pop_front();
            proof {
                assert(self.log_entries@ =~= t.subrange(t.len() - self.log_entries@.len(), t.len() as int));
            }
        }
        proof {
            if t.len() <= max {
                assert(self.log_entries@ =~= t);
            }
        }
    }

    /// The entries `filter` selects, newest first, at most `limit` of them.
    pub fn newest_entries(&self, filter: &EntryFilter, limit: usize) -> (r: Vec<AuditLogEntry>)
        ensures
            r@ == newest_matching(self.entries_view(), *filter, limit as nat),
    {
        let ghost s = self.log_entries@;
        let mut r: Vec<AuditLogEntry> = Vec::new();
        let mut k = self.log_entries.len();
        while k > 0 && r.len() < limit
            invariant
                s == self.log_entries@,
                k <= s.len(),
                r.len() <= limit,
                r@ == newest_from(s, k as int, *filter),
            decreases k,
        {
            k = k - 1;
            let e = &self.log_entries[k];
            if filter.selects(e) {
                r.push(e.clone());
            }
            proof {
                assert(r@ =~= newest_from(s, k as int, *filter));
            }
        }
        proof {
            lemma_newest_from_prefix(s, 0, k as int, *filter);
            let all = newest_from(s, 0, *filter);
            if k == 0 {
                assert(r@ =~= at_most(all, limit as nat));
            } else {
                assert(r@ =~= at_most(all, limit as nat));
            }
        }
        r
    }

    /// The most recent entries, newest first, at most `limit` of them.
    pub fn get_recent_entries(&self, limit: usize) -> (r: Vec<AuditLogEntry>)
        ensures
            r@ == newest_matching(self.entries_view(), EntryFilter::Any, limit as nat),
    {
        self.newest_entries(&EntryFilter::Any, limit)
    }

    /// All entries, oldest first.
    pub fn get_all_entries(&self) -> (r: Vec<AuditLogEntry>)
        ensures
            r@ == self.entries_view(),
    {
        let mut r: Vec<AuditLogEntry> = Vec::new();
        let mut i: usize = 0;
        while i < self.log_entries.len()
            invariant
                i <= self.log_entries@.len(),
                r@ == self.log_entries@.subrange(0, i as int),
            decreases self.log_entries@.len() - i,
        {
            r.push(self.log_entries[i].clone());
            i = i + 1;
            proof {
                assert(r@ =~= self.log_entries@.subrange(0, i as int));
            }
        }
        proof {
            assert(r@ =~= self.log_entries@);
        }
        r
    }

    /// The most recent entries about `peer_id`, newest first, at most `limit` of them.
    pub fn get_entries_for_peer(&self, peer_id: &PeerId, limit: usize) -> (r: Vec<AuditLogEntry>)
        ensures
            r@ == newest_matching(self.entries_view(), EntryFilter::Peer(*peer_id), limit as nat),
    {
        self.newest_entries(&EntryFilter::Peer(*peer_id), limit)
    }

    /// The most recent entries of an event type, newest first, at most `limit` of them.
    pub fn get_entries_by_type(&self, event_type: SecurityEventType, limit: usize) -> (r: Vec<AuditLogEntry>)
        ensures
            r@ == newest_matching(self.entries_view(), EntryFilter::EventType(event_type), limit as nat),
    {
        self.newest_entries(&EntryFilter::EventType(event_type), limit)
    }

    /// The most recent entries of a severity, newest first, at most `limit` of them.
    pub fn get_entries_by_severity(&self, severity: Severity, limit: usize) -> (r: Vec<AuditLogEntry>)
        ensures
            r@ == newest_matching(self.entries_view(), EntryFilter::Level(severity), limit as nat),
    {
        self.newest_entries(&EntryFilter::Level(severity), limit)
    }

    /// The most recent critical entries, newest first, at most `limit` of them.
    pub fn get_critical_events(&self, limit: usize) -> (r: Vec<AuditLogEntry>)
        ensures
            r@ == newest_matching(self.entries_view(), EntryFilter::Level(Severity::Critical), limit as nat),
    {
        self.get_entries_by_severity(Severity::Critical, limit)
    }

    /// Forget all entries.
    pub fn clear(&mut self) -> (r: SecurityResult<()>)
        ensures
            r is Ok,
            final(self).config_view() == old(self).config_view(),
            final(self).entries_view() == Seq::<AuditLogEntry>::empty(),
    {
        self.log_entries.clear();
        Ok(())
    }

    /// The number of entries kept.
    pub fn entry_count(&self) -> (r: usize)
        ensures
            r == self.entries_view().len(),
    {
        self.log_entries.len()
    }

    /// Replace the configuration; the entries kept are left as they are.
    pub fn update_config(&mut self, config: AuditConfig) -> (r: SecurityResult<()>)
        ensures
            r is Ok,
            final(self).config_view() == config,
            final(self).entries_view() == old(self).entries_view(),
    {
        self.config = config;
        Ok(())
    }

    /// A copy of the configuration.
    pub fn get_config(&self) -> (r: AuditConfig)
        ensures
            r == self.config_view(),
    {
        self.config.clone()
    }
}

impl Default for SecurityAuditor {
    fn default() -> (r: Self)
        ensures
            r.config_view().max_memory_entries == 1000,
            !r.config_view().persist_to_disk,
            r.config_view().log_file_path is None,
            r.entries_view() == Seq::<AuditLogEntry>::empty(),
    {
        Self::new()
    }
}

/// Audit log: an auditor with a shorter interface.
pub struct AuditLog {
    auditor: SecurityAuditor,
}

impl AuditLog {
    /// The auditor this log writes to.
    pub closed spec fn auditor_view(&self) -> SecurityAuditor {
        self.auditor
    }

    /// A log that writes to `auditor`.
    pub fn new(auditor: SecurityAuditor) -> (r: Self)
        ensures
            r.auditor_view() == auditor,
    {
        Self { auditor }
    }

    /// The auditor this log writes to.
    pub fn auditor(&self) -> (r: &SecurityAuditor)
        ensures
            *r == self.auditor_view(),
    {
        &self.auditor
    }

    /// Record an event (see `SecurityAuditor::log_event`).
    pub fn log(&mut self, event: SecurityEvent) -> (r: SecurityResult<()>)
        ensures
            r is Ok,
            final(self).auditor_view().config_view() == old(self).auditor_view().config_view(),
            final(self).auditor_view().entries_view() == keep_last(
                old(self).auditor_view().entries_view().push(AuditLogEntry { event, severity: severity_of(event.event_type) }),
                old(self).auditor_view().config_view().max_memory_entries as nat,
            ),
    {
        self.auditor.log_event(event)
    }

    /// The most recent entries, newest first, at most `limit` of them.
    pub fn get_recent(&self, limit: usize) -> (r: Vec<AuditLogEntry>)
        ensures
            r@ == newest_matching(self.auditor_view().entries_view(), EntryFilter::Any, limit as nat),
    {
        self.auditor.get_recent_entries(limit)
    }

    /// The most recent entries about `peer_id`, newest first, at most `limit` of them.
    pub fn get_for_peer(&self, peer_id: &PeerId, limit: usize) -> (r: Vec<AuditLogEntry>)
        ensures
            r@ == newest_matching(self.auditor_view().entries_view(), EntryFilter::Peer(*peer_id), limit as nat),
    {
        self.auditor.get_entries_for_peer(peer_id, limit)
    }

    /// The most recent critical entries, newest first, at most `limit` of them.
    pub fn get_critical(&self, limit: usize) -> (r: Vec<AuditLogEntry>)
        ensures
            r@ == newest_matching(self.auditor_view().entries_view(), EntryFilter::Level(Severity::Critical), limit as nat),
    {
        self.auditor.get_critical_events(limit)
    }
}


/// The entries that logging each of `events` in turn adds: each event with
/// the severity its type calls for.
pub open spec fn entries_of(events: Seq<SecurityEvent>) -> Seq<AuditLogEntry> {
    Seq::new(events.len(), |i: int| AuditLogEntry { event: events[i], severity: severity_of(events[i].event_type) })
}

/// Keeping the last `max` entries after each append keeps the last `max` of
/// everything appended.
proof fn lemma_keep_last_push<A>(s: Seq<A>, x: A, max: nat)
    ensures
        keep_last(keep_last(s, max).push(x), max) == keep_last(s.push(x), max),
{
    assert(keep_last(keep_last(s, max).push(x), max) =~= keep_last(s.push(x), max));
}

/// Logging a run of events into an empty auditor that keeps at most `max`
/// entries: after the run it holds the last `min(n, max)` of the `n`
/// events, in the order they were logged, each with the severity its type
/// calls for. `states[i]` is the auditor's entries after `i` events, each
/// step being what `log_event` does.
pub proof fn lemma_logging_run(states: Seq<Seq<AuditLogEntry>>, events: Seq<SecurityEvent>, max: nat)
    requires
        states.len() == events.len() + 1,
        states[0] == Seq::<AuditLogEntry>::empty(),
        forall|i: int| #![trigger states[i + 1]]
            0 <= i < events.len() ==> states[i + 1] == keep_last(
                states[i].push(AuditLogEntry { event: events[i], severity: severity_of(events[i].event_type) }),
                max,
            ),
    ensures
        states[events.len() as int] == keep_last(entries_of(events), max),
        states[events.len() as int].len() == if events.len() < max { events.len() } else { max },
    decreases events.len(),
{
    let n = events.len() as int;
    if n == 0 {
        assert(entries_of(events) =~= Seq::<AuditLogEntry>::empty());
    } else {
        let h = n - 1;
        lemma_logging_run(states.take(n), events.take(h), max);
        assert(entries_of(events.take(h)) =~= entries_of(events).take(h));
        let x = AuditLogEntry { event: events[h], severity: severity_of(events[h].event_type) };
        assert(states[h + 1] == keep_last(states[h].push(x), max));
        lemma_keep_last_push(entries_of(events).take(h), x, max);
        assert(entries_of(events).take(h).push(x) =~= entries_of(events));
    }
}

/// Every event is logged with the severity of its kind: rejected
/// connections, failed pairings and policy violations are warnings; rate-limit
/// breaches and suspicious activity are critical; everything else
/// (connection attempts and acceptances, pairing attempts and successes) is
/// informational.
pub proof fn lemma_severity_by_kind(t: SecurityEventType)
    ensures
        severity_of(t) == Severity::Warning <==> (t == SecurityEventType::ConnectionRejected
            || t == SecurityEventType::PairingFailure || t == SecurityEventType::PolicyViolation),
        severity_of(t) == Severity::Critical <==> (t == SecurityEventType::RateLimitExceeded
            || t == SecurityEventType::SuspiciousActivity),
        severity_of(t) == Severity::Info <==> (t == SecurityEventType::ConnectionAttempt
            || t == SecurityEventType::ConnectionAccepted || t == SecurityEventType::PairingAttempt
            || t == SecurityEventType::PairingSuccess),
{
}

} // verus!
