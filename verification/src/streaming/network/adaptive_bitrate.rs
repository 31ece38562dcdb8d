//! Indicators of adaptive bitrate control.

use vstd::prelude::*;
use std::time::SystemTime;
use crate::security::peer_map::KeyMap;

verus! {

/// Congestion level indicator.
#[derive(Clone, Copy, Debug, PartialEq, Eq, Structural)]
pub enum CongestionLevel {
    /// No congestion.
    NoCongestion,
    Low,
    Medium,
    High,
    Severe,
}

/// Why the stream quality changed.
#[derive(Clone, Copy, Debug, PartialEq, Eq, Structural)]
pub enum QualityChangeReason {
    BandwidthIncrease,
    BandwidthDecrease,
    HighLatency,
    PacketLoss,
    Congestion,
    BufferUnderrun,
    BufferOverflow,
    Manual,
}

/// Congestion control state.
#[derive(Clone, Copy, Debug, PartialEq, Eq, Structural)]
pub enum CongestionState {
    SlowStart,
    CongestionAvoidance,
    FastRecovery,
}

/// The congestion window grows by this much per acknowledgement in slow
/// start, and by this squared over the window in congestion avoidance.
pub const SEGMENT_SIZE: u32 = 1000;

/// The abstract state of a congestion controller; round-trip times in
/// nanoseconds.
pub struct CongestionView {
    pub state: CongestionState,
    pub cwnd: u32,
    pub ssthresh: u32,
    pub rtt_min: u64,
    pub rtt_max: u64,
    pub in_recovery: bool,
}

/// The state after a loss: the first loss of a recovery halves the window,
/// makes that the threshold and enters fast recovery; later losses of the
/// same recovery change nothing.
pub open spec fn after_loss(c: CongestionView) -> CongestionView {
    if !c.in_recovery {
        CongestionView {
            ssthresh: (c.cwnd / 2) as u32,
            cwnd: (c.cwnd / 2) as u32,
            state: CongestionState::FastRecovery,
            in_recovery: true,
            ..c
        }
    } else {
        c
    }
}

/// Whether an acknowledgement can be taken without leaving the window's range
/// (and, in congestion avoidance, with a window that is not empty).
pub open spec fn ack_fits(c: CongestionView) -> bool {
    match c.state {
        CongestionState::SlowStart => c.cwnd + SEGMENT_SIZE <= u32::MAX,
        CongestionState::CongestionAvoidance => c.cwnd > 0 && c.cwnd + (SEGMENT_SIZE * SEGMENT_SIZE) / (c.cwnd as int) <= u32::MAX,
        CongestionState::FastRecovery => true,
    }
}

/// The state after an acknowledgement: the recovery ends; slow start grows
/// the window by a segment and leaves for congestion avoidance at the
/// threshold; congestion avoidance grows it by a segment squared over the
/// window; fast recovery turns into congestion avoidance.
pub open spec fn after_ack(c: CongestionView) -> CongestionView {
    match c.state {
        CongestionState::SlowStart => {
            let w = (c.cwnd + SEGMENT_SIZE) as u32;
            CongestionView {
                cwnd: w,
                state: if w >= c.ssthresh { CongestionState::CongestionAvoidance } else { CongestionState::SlowStart },
                in_recovery: false,
                ..c
            }
        },
        CongestionState::CongestionAvoidance => CongestionView {
            cwnd: (c.cwnd + (SEGMENT_SIZE * SEGMENT_SIZE) / (c.cwnd as int)) as u32,
            in_recovery: false,
            ..c
        },
        CongestionState::FastRecovery => CongestionView {
            state: CongestionState::CongestionAvoidance,
            in_recovery: false,
            ..c
        },
    }
}

/// The round-trip bounds widened to take in `rtt`.
pub open spec fn with_rtt(c: CongestionView, rtt: u64) -> CongestionView {
    CongestionView {
        rtt_min: if rtt < c.rtt_min { rtt } else { c.rtt_min },
        rtt_max: if rtt > c.rtt_max { rtt } else { c.rtt_max },
        ..c
    }
}

/// A window-based congestion controller.
pub struct CongestionController {
    state: CongestionState,
    cwnd: u32,
    ssthresh: u32,
    rtt_min: u64,
    rtt_max: u64,
    in_recovery: bool,
}

impl CongestionController {
    /// The abstract state.
    pub closed spec fn view_state(&self) -> CongestionView {
        CongestionView {
            state: self.state,
            cwnd: self.cwnd,
            ssthresh: self.ssthresh,
            rtt_min: self.rtt_min,
            rtt_max: self.rtt_max,
            in_recovery: self.in_recovery,
        }
    }

    /// Slow start with a window of 10000 bytes, a threshold of 65535, and
    /// round-trip bounds of ten milliseconds and one second.
    pub fn new() -> (r: Self)
        ensures
            r.view_state() == (CongestionView {
                state: CongestionState::SlowStart,
                cwnd: 10_000,
                ssthresh: 65535,
                rtt_min: 10_000_000,
                rtt_max: 1_000_000_000,
                in_recovery: false,
            }),
    {
        Self {
            state: CongestionState::SlowStart,
            cwnd: 10_000,
            ssthresh: 65535,
            rtt_min: 10_000_000,
            rtt_max: 1_000_000_000,
            in_recovery: false,
        }
    }

    /// Take a round-trip sample (nanoseconds) and whether a packet was lost.
    pub fn update(&mut self, rtt_nanos: u64, packet_lost: bool)
        requires
            !packet_lost ==> ack_fits(old(self).view_state()),
        ensures
            final(self).view_state() == if packet_lost {
                after_loss(with_rtt(old(self).view_state(), rtt_nanos))
            } else {
                after_ack(with_rtt(old(self).view_state(), rtt_nanos))
            },
    {
        if rtt_nanos < self.rtt_min {
            self.rtt_min = rtt_nanos;
        }
        if rtt_nanos > self.rtt_max {
            self.rtt_max = rtt_nanos;
        }
        if packet_lost {
            self.handle_packet_loss();
        } else {
            self.handle_ack();
        }
    }

    /// React to a lost packet.
    pub fn handle_packet_loss(&mut self)
        ensures
            final(self).view_state() == after_loss(old(self).view_state()),
    {
        if !self.in_recovery {
            self.ssthresh = self.cwnd / 2;
            self.cwnd = self.ssthresh;
            self.state = CongestionState::FastRecovery;
            self.in_recovery = true;
        }
    }

    /// React to an acknowledgement.
    pub fn handle_ack(&mut self)
        requires
            ack_fits(old(self).view_state()),
        ensures
            final(self).view_state() == after_ack(old(self).view_state()),
    {
        self.in_recovery = false;
        match self.state {
            CongestionState::SlowStart => {
                self.cwnd = self.cwnd + SEGMENT_SIZE;
                if self.cwnd >= self.ssthresh {
                    self.state = CongestionState::CongestionAvoidance;
                }
            },
            CongestionState::CongestionAvoidance => {
                self.cwnd = self.cwnd + (SEGMENT_SIZE * SEGMENT_SIZE) / self.cwnd;
            },
            CongestionState::FastRecovery => {
                self.state = CongestionState::CongestionAvoidance;
            },
        }
    }

    /// The congestion window, in bytes.
    pub fn cwnd(&self) -> (r: u32)
        ensures
            r == self.view_state().cwnd,
    {
        self.cwnd
    }

    /// The slow start threshold.
    pub fn ssthresh(&self) -> (r: u32)
        ensures
            r == self.view_state().ssthresh,
    {
        self.ssthresh
    }

    /// The congestion control state.
    pub fn state(&self) -> (r: CongestionState)
        ensures
            r == self.view_state().state,
    {
        self.state
    }
}

/// A loss halves the window once per recovery: a second loss before any
/// acknowledgement changes nothing, and the window never grows on a loss.
pub proof fn lemma_loss_halves_once(c: CongestionView)
    ensures
        after_loss(after_loss(c)) == after_loss(c),
        after_loss(c).cwnd <= c.cwnd,
        !c.in_recovery ==> after_loss(c).cwnd == c.cwnd / 2 && after_loss(c).ssthresh == after_loss(c).cwnd,
{
}

/// An acknowledgement never shrinks the window and always ends a recovery.
pub proof fn lemma_ack_grows_window(c: CongestionView)
    requires
        ack_fits(c),
    ensures
        after_ack(c).cwnd >= c.cwnd,
        !after_ack(c).in_recovery,
        after_ack(c).state != CongestionState::FastRecovery,
{
}

/// A packet reported lost, kept for resending; the time is when it was lost.
#[derive(Debug)]
pub struct LostPacket {
    pub sequence_number: u64,
    pub timestamp: SystemTime,
    pub data: Vec<u8>,
}

impl Clone for LostPacket {
    fn clone(&self) -> (r: Self)
        ensures
            r.sequence_number == self.sequence_number,
            r.timestamp == self.timestamp,
            r.data@ == self.data@,
    {
        Self { sequence_number: self.sequence_number, timestamp: self.timestamp, data: self.data.clone() }
    }
}

/// The most lost packets kept.
pub const MAX_LOST_PACKETS: usize = 100;

/// The most resend attempts per packet.
pub const MAX_RECOVERY_ATTEMPTS: u32 = 3;

/// The lost packets kept and the resend attempts of each.
pub struct PacketLossRecovery {
    lost_packets: Vec<LostPacket>,
    recovery_attempts: KeyMap<u64, u32>,
    max_recovery_attempts: u32,
}

/// The sequence numbers of packets, in order.
pub open spec fn sequence_numbers(v: Seq<LostPacket>) -> Seq<u64> {
    Seq::new(v.len(), |i: int| v[i].sequence_number)
}

/// Which packets are resent, in order, and the attempts afterwards: a packet
/// whose attempts are below the limit is resent and its count goes up.
pub open spec fn recover(seqs: Seq<u64>, attempts: Map<u64, u32>, max: u32) -> (Seq<int>, Map<u64, u32>)
    decreases seqs.len(),
{
    if seqs.len() == 0 {
        (Seq::empty(), attempts)
    } else {
        let s = seqs.last();
        let (picked, counts) = recover(seqs.drop_last(), attempts, max);
        let n = if counts.dom().contains(s) { counts[s] } else { 0u32 };
        if n < max {
            (picked.push(seqs.len() - 1), counts.insert(s, (n + 1) as u32))
        } else {
            (picked, counts)
        }
    }
}

impl PacketLossRecovery {
    /// The lost packets kept, oldest first.
    pub closed spec fn packets_view(&self) -> Seq<LostPacket> {
        self.lost_packets@
    }

    /// The resend attempts, by sequence number.
    pub closed spec fn attempts_view(&self) -> Map<u64, u32> {
        self.recovery_attempts@
    }

    /// The most resend attempts per packet.
    pub closed spec fn max_attempts_view(&self) -> u32 {
        self.max_recovery_attempts
    }

    /// No lost packets, three attempts per packet.
    pub fn new() -> (r: Self)
        ensures
            r.packets_view() == Seq::<LostPacket>::empty(),
            r.attempts_view() == Map::<u64, u32>::empty(),
            r.max_attempts_view() == MAX_RECOVERY_ATTEMPTS,
    {
        Self { lost_packets: Vec::new(), recovery_attempts: KeyMap::new(), max_recovery_attempts: MAX_RECOVERY_ATTEMPTS }
    }

    /// Keep a packet lost at `now` with no attempts yet; past the limit the
    /// oldest packets leave, and their attempt counts with them.
    pub fn add_lost_packet_at(&mut self, sequence_number: u64, data: Vec<u8>, now: SystemTime)
        ensures
            final(self).max_attempts_view() == old(self).max_attempts_view(),
            final(self).packets_view().len() == if old(self).packets_view().len() + 1 > MAX_LOST_PACKETS {
                MAX_LOST_PACKETS as int
            } else {
                old(self).packets_view().len() + 1 as int
            },
            final(self).packets_view().len() > 0,
            final(self).packets_view().last().sequence_number == sequence_number,
            final(self).packets_view().last().timestamp == now,
            final(self).packets_view().last().data@ == data@,
            exists|d: int|
                0 <= d <= old(self).packets_view().len() && final(self).packets_view() == (#[trigger] old(
                    self,
                ).packets_view().skip(d)).push(final(self).packets_view().last()),
    {
        let packet = LostPacket { sequence_number, timestamp: now, data };
        let ghost pk = packet;
        self.lost_packets.push(packet);
        self.recovery_attempts.insert(sequence_number, 0);
        let ghost all = self.lost_packets@;
        let ghost mut dropped: int = 0;
        assert(all.skip(0) =~= all);
        while self.lost_packets.len() > MAX_LOST_PACKETS
            invariant
                0 <= dropped <= old(self).lost_packets@.len(),
                all == old(self).lost_packets@.push(pk),
                self.lost_packets@ == all.skip(dropped),
                dropped > 0 ==> self.lost_packets@.len() >= MAX_LOST_PACKETS,
                self.max_recovery_attempts == old(self).max_recovery_attempts,
            decreases self.lost_packets@.len(),
        {
            let old_packet = self.lost_packets.remove(0);
            self.recovery_attempts.remove(&old_packet.sequence_number);
            proof {
                assert(self.lost_packets@ =~= all.skip(dropped + 1));
                dropped = dropped + 1;
            }
        }
        proof {
            assert(self.lost_packets@ =~= old(self).lost_packets@.skip(dropped).push(pk));
            assert(self.packets_view() == old(self).packets_view().skip(dropped).push(self.packets_view().last()));
        }
    }

    /// Take the packets to resend, oldest first: those below the attempt
    /// limit, each counted as one more attempt.
    pub fn get_recoverable_packets(&mut self) -> (r: Vec<LostPacket>)
        ensures
            final(self).packets_view() == old(self).packets_view(),
            final(self).max_attempts_view() == old(self).max_attempts_view(),
            final(self).attempts_view() == recover(
                sequence_numbers(old(self).packets_view()),
                old(self).attempts_view(),
                old(self).max_attempts_view(),
            ).1,
            copies_of(
                r@,
                old(self).packets_view(),
                recover(sequence_numbers(old(self).packets_view()), old(self).attempts_view(), old(self).max_attempts_view()).0,
            ),
    {
        let ghost seqs = sequence_numbers(self.lost_packets@);
        let ghost start = self.recovery_attempts@;
        let ghost max = self.max_recovery_attempts;
        let mut out: Vec<LostPacket> = Vec::new();
        let mut i: usize = 0;
        while i < self.lost_packets.len()
            invariant
                i <= self.lost_packets@.len(),
                self.lost_packets@ == old(self).lost_packets@,
                self.max_recovery_attempts == max,
                max == old(self).max_recovery_attempts,
                seqs == sequence_numbers(self.lost_packets@),
                start == old(self).recovery_attempts@,
                self.recovery_attempts@ == recover(seqs.take(i as int), start, max).1,
                copies_of(out@, self.lost_packets@, recover(seqs.take(i as int), start, max).0),
                forall|m: int| 0 <= m < recover(seqs.take(i as int), start, max).0.len()
                    ==> #[trigger] recover(seqs.take(i as int), start, max).0[m] < i,
            decreases self.lost_packets@.len() - i,
        {
            let ghost prefix = seqs.take(i as int + 1);
            let ghost picked = recover(seqs.take(i as int), start, max).0;
            assert(prefix.drop_last() =~= seqs.take(i as int));
            assert(prefix.last() == self.lost_packets@[i as int].sequence_number);
            let seq = self.lost_packets[i].sequence_number;
            let attempts = match self.recovery_attempts.get(&seq) {
                Some(a) => *a,
                None => 0,
            };
            proof {
                let counts = recover(seqs.take(i as int), start, max).1;
                let n = if counts.dom().contains(seq) { counts[seq] } else { 0u32 };
                assert(attempts == n);
                assert(recover(prefix, start, max) == if n < max {
                    (picked.push(i as int), counts.insert(seq, (n + 1) as u32))
                } else {
                    recover(seqs.take(i as int), start, max)
                });
            }
            if attempts < self.max_recovery_attempts {
                let ghost before = out@;
                out.push(self.lost_packets[i].clone());
                self.recovery_attempts.insert(seq, attempts + 1);
                proof {
                    assert forall|m: int| 0 <= m < out@.len() implies same_packet(
                        #[trigger] out@[m],
                        self.lost_packets@[picked.push(i as int)[m]],
                    ) by {
                        if m < before.len() {
                            assert(out@[m] == before[m]);
                            assert(picked.push(i as int)[m] == picked[m]);
                        }
                    }
                    assert forall|m: int| 0 <= m < picked.push(i as int).len() implies #[trigger] picked.push(
                        i as int,
                    )[m] < i + 1 by {
                        if m < picked.len() {
                            assert(picked.push(i as int)[m] == picked[m]);
                        }
                    }
                }
            }
            i = i + 1;
        }
        assert(seqs.take(i as int) =~= seqs);
        out
    }
}

/// Two packets with the same number, time and data.
pub open spec fn same_packet(a: LostPacket, b: LostPacket) -> bool {
    a.sequence_number == b.sequence_number && a.timestamp == b.timestamp && a.data@ == b.data@
}

/// `out` holds copies of the packets of `src` at the positions `picked`, in
/// that order.
pub open spec fn copies_of(out: Seq<LostPacket>, src: Seq<LostPacket>, picked: Seq<int>) -> bool {
    &&& out.len() == picked.len()
    &&& forall|m: int| 0 <= m < out.len() ==> same_packet(#[trigger] out[m], src[picked[m]])
}

/// A packet is resent at most as many times as the limit allows: after any
/// number of recoveries its count never passes the limit, unless it started
/// above it.
pub proof fn lemma_recover_respects_limit(seqs: Seq<u64>, attempts: Map<u64, u32>, max: u32)
    requires
        forall|s: u64| #[trigger] attempts.dom().contains(s) ==> attempts[s] <= max,
    ensures
        forall|s: u64| #[trigger] recover(seqs, attempts, max).1.dom().contains(s) ==> recover(seqs, attempts, max).1[s] <= max,
        forall|m: int| 0 <= m < recover(seqs, attempts, max).0.len() ==> 0 <= #[trigger] recover(seqs, attempts, max).0[m] < seqs.len(),
    decreases seqs.len(),
{
    if seqs.len() > 0 {
        lemma_recover_respects_limit(seqs.drop_last(), attempts, max);
        let (picked, counts) = recover(seqs.drop_last(), attempts, max);
        let s = seqs.last();
        let n = if counts.dom().contains(s) { counts[s] } else { 0u32 };
        if n < max {
            assert forall|m: int| 0 <= m < picked.push(seqs.len() - 1).len() implies 0 <= #[trigger] picked.push(
                seqs.len() - 1,
            )[m] < seqs.len() by {
                if m < picked.len() {
                    assert(picked.push(seqs.len() - 1)[m] == picked[m]);
                }
            }
        }
    }
}

/// The default estimate without samples: one megabit per second.
pub const DEFAULT_BANDWIDTH_BPS: u32 = 1_000_000;

/// The default round trip without samples: fifty milliseconds.
pub const DEFAULT_RTT_NANOS: u64 = 50_000_000;

/// The most samples of each kind kept.
pub const MAX_SAMPLES: usize = 10;

/// The sum of a sequence of samples.
pub open spec fn sum_of(s: Seq<u64>) -> nat
    decreases s.len(),
{
    if s.len() == 0 {
        0
    } else {
        sum_of(s.drop_last()) + (s.last() as nat)
    }
}

/// The average of samples, rounded down, or `default` without any.
pub open spec fn average_or(s: Seq<u64>, default: nat) -> nat {
    if s.len() == 0 {
        default
    } else {
        sum_of(s) / s.len()
    }
}

/// The last `MAX_SAMPLES` of a sequence of samples.
pub open spec fn recent(s: Seq<u64>) -> Seq<u64> {
    if s.len() > MAX_SAMPLES {
        s.skip(s.len() - MAX_SAMPLES)
    } else {
        s
    }
}

proof fn lemma_sum_bound(s: Seq<u64>, b: u64)
    requires
        forall|i: int| 0 <= i < s.len() ==> s[i] <= b,
    ensures
        sum_of(s) <= s.len() * b,
    decreases s.len(),
{
    if s.len() > 0 {
        lemma_sum_bound(s.drop_last(), b);
        assert(sum_of(s) == sum_of(s.drop_last()) + s.last());
        assert((s.len() - 1) * b + b == s.len() * b) by (nonlinear_arith);
    }
}

/// The sum of at most ten samples, each below 2^32 (or each below 2^59).
fn sum_samples(v: &Vec<u64>, bound: u64) -> (r: u64)
    requires
        v@.len() <= MAX_SAMPLES,
        bound <= 0x0800_0000_0000_0000,
        forall|i: int| 0 <= i < v@.len() ==> v@[i] <= bound,
    ensures
        r == sum_of(v@),
{
    let mut total: u64 = 0;
    let mut i: usize = 0;
    while i < v.len()
        invariant
            i <= v@.len(),
            v@.len() <= MAX_SAMPLES,
            bound <= 0x0800_0000_0000_0000,
            forall|j: int| 0 <= j < v@.len() ==> v@[j] <= bound,
            total == sum_of(v@.take(i as int)),
            total <= i * bound,
        decreases v@.len() - i,
    {
        assert(v@.take(i as int + 1).drop_last() =~= v@.take(i as int));
        assert(i * bound + bound <= 16 * 0x0800_0000_0000_0000) by (nonlinear_arith)
            requires
                i < 10,
                bound <= 0x0800_0000_0000_0000,
        ;
        assert((i + 1) * bound == i * bound + bound) by (nonlinear_arith);
        total = total + v[i];
        i = i + 1;
    }
    assert(v@.take(i as int) =~= v@);
    total
}

/// Push a sample, keeping only the last ten.
fn push_sample(v: &mut Vec<u64>, x: u64)
    ensures
        final(v)@ == recent(old(v)@.push(x)),
{
    v.push(x);
    let ghost all = v@;
    let ghost mut dropped: int = 0;
    assert(all.skip(0) =~= all);
    while v.len() > MAX_SAMPLES
        invariant
            0 <= dropped <= all.len(),
            v@ == all.skip(dropped),
            dropped > 0 ==> v@.len() >= MAX_SAMPLES,
        decreases v@.len(),
    {
        v.remove(0);
        proof {
            assert(v@ =~= all.skip(dropped + 1));
            dropped = dropped + 1;
        }
    }
    proof {
        if all.len() > MAX_SAMPLES {
            assert(dropped == all.len() - MAX_SAMPLES);
        } else {
            assert(dropped == 0);
        }
    }
}

/// Bandwidth and round-trip samples, the last ten of each; round trips and
/// jitter in nanoseconds.
pub struct NetworkSamples {
    bandwidth: Vec<u64>,
    rtt: Vec<u64>,
    jitter: Vec<u64>,
}

impl NetworkSamples {
    /// The bandwidth samples kept, oldest first.
    pub closed spec fn bandwidth_view(&self) -> Seq<u64> {
        self.bandwidth@
    }

    /// The round-trip samples kept, oldest first.
    pub closed spec fn rtt_view(&self) -> Seq<u64> {
        self.rtt@
    }

    /// The jitter of each round-trip sample kept: its distance from the one
    /// before.
    pub closed spec fn jitter_view(&self) -> Seq<u64> {
        self.jitter@
    }

    /// Samples of each kind stay within the limit, and every bandwidth sample
    /// is a `u32` value, every round trip within 2^59 nanoseconds.
    pub closed spec fn wf(&self) -> bool {
        &&& self.bandwidth@.len() <= MAX_SAMPLES
        &&& self.rtt@.len() <= MAX_SAMPLES
        &&& self.jitter@.len() == self.rtt@.len()
        &&& forall|i: int| 0 <= i < self.bandwidth@.len() ==> self.bandwidth@[i] <= u32::MAX
        &&& forall|i: int| 0 <= i < self.rtt@.len() ==> self.rtt@[i] <= 0x0800_0000_0000_0000
        &&& forall|i: int| 0 <= i < self.jitter@.len() ==> self.jitter@[i] <= 0x0800_0000_0000_0000
    }

    /// No samples.
    pub fn new() -> (r: Self)
        ensures
            r.wf(),
            r.bandwidth_view() == Seq::<u64>::empty(),
            r.rtt_view() == Seq::<u64>::empty(),
            r.jitter_view() == Seq::<u64>::empty(),
    {
        Self { bandwidth: Vec::new(), rtt: Vec::new(), jitter: Vec::new() }
    }

    /// Add a bandwidth sample (bits per second).
    pub fn add_bandwidth_sample(&mut self, bandwidth_bps: u32)
        requires
            old(self).wf(),
        ensures
            final(self).wf(),
            final(self).bandwidth_view() == recent(old(self).bandwidth_view().push(bandwidth_bps as u64)),
            final(self).rtt_view() == old(self).rtt_view(),
            final(self).jitter_view() == old(self).jitter_view(),
    {
        push_sample(&mut self.bandwidth, bandwidth_bps as u64);
        assert(forall|i: int| 0 <= i < self.bandwidth@.len() ==> self.bandwidth@[i] <= u32::MAX);
    }

    /// Add a round-trip sample given in milliseconds; its jitter is its
    /// distance from the last one kept, zero for the first.
    pub fn add_latency_sample(&mut self, latency_ms: u32)
        requires
            old(self).wf(),
        ensures
            final(self).wf(),
            final(self).rtt_view() == recent(old(self).rtt_view().push(((latency_ms as u64) * 1_000_000) as u64)),
            final(self).jitter_view() == recent(old(self).jitter_view().push(
                if old(self).rtt_view().len() == 0 {
                    0
                } else {
                    let last = old(self).rtt_view().last();
                    let rtt = ((latency_ms as u64) * 1_000_000) as u64;
                    (if rtt > last { rtt - last } else { last - rtt }) as u64
                },
            )),
            final(self).bandwidth_view() == old(self).bandwidth_view(),
    {
        let rtt: u64 = (latency_ms as u64) * 1_000_000;
        let jitter: u64 = if self.rtt.len() == 0 {
            0
        } else {
            let last = self.rtt[self.rtt.len() - 1];
            if rtt > last {
                rtt - last
            } else {
                last - rtt
            }
        };
        push_sample(&mut self.rtt, rtt);
        push_sample(&mut self.jitter, jitter);
        assert(forall|i: int| 0 <= i < self.rtt@.len() ==> self.rtt@[i] <= 0x0800_0000_0000_0000);
        assert(forall|i: int| 0 <= i < self.jitter@.len() ==> self.jitter@[i] <= 0x0800_0000_0000_0000);
    }

    /// The bandwidth estimate: the average of the samples kept (rounded
    /// down), one megabit per second without any.
    pub fn estimate_bandwidth(&self) -> (r: u32)
        requires
            self.wf(),
        ensures
            r == average_or(self.bandwidth_view(), DEFAULT_BANDWIDTH_BPS as nat),
    {
        if self.bandwidth.len() == 0 {
            return DEFAULT_BANDWIDTH_BPS;
        }
        let total = sum_samples(&self.bandwidth, 0xffff_ffff);
        proof {
            lemma_sum_bound(self.bandwidth@, 0xffff_ffff);
            assert(sum_of(self.bandwidth@) / self.bandwidth@.len() <= 0xffff_ffff) by (nonlinear_arith)
                requires
                    sum_of(self.bandwidth@) <= self.bandwidth@.len() * 0xffff_ffff,
                    self.bandwidth@.len() >= 1,
            ;
        }
        (total / (self.bandwidth.len() as u64)) as u32
    }

    /// The average round trip in nanoseconds (rounded down), fifty
    /// milliseconds without samples.
    pub fn average_rtt_nanos(&self) -> (r: u64)
        requires
            self.wf(),
        ensures
            r == average_or(self.rtt_view(), DEFAULT_RTT_NANOS as nat),
    {
        if self.rtt.len() == 0 {
            return DEFAULT_RTT_NANOS;
        }
        let total = sum_samples(&self.rtt, 0x0800_0000_0000_0000);
        total / (self.rtt.len() as u64)
    }

    /// The average jitter in nanoseconds (rounded down), zero without
    /// samples.
    pub fn average_jitter_nanos(&self) -> (r: u64)
        requires
            self.wf(),
        ensures
            r == average_or(self.jitter_view(), 0),
    {
        if self.jitter.len() == 0 {
            return 0;
        }
        let total = sum_samples(&self.jitter, 0x0800_0000_0000_0000);
        total / (self.jitter.len() as u64)
    }
}

} // verus!
