//! Indicators of stream buffer management.

use vstd::prelude::*;
use std::time::SystemTime;
use crate::security::peer_map::KeyMap;
use crate::streaming::error::{StreamError, StreamResult};

verus! {

/// Frame priority for buffer management, from lowest to highest.
#[derive(Clone, Copy, Debug, PartialEq, Eq, PartialOrd, Ord, Structural)]
pub enum FramePriority {
    Low,
    Normal,
    High,
    Critical,
}

/// The rank of a priority: 0 for low up to 3 for critical.
pub open spec fn priority_rank(p: FramePriority) -> u8 {
    match p {
        FramePriority::Low => 0,
        FramePriority::Normal => 1,
        FramePriority::High => 2,
        FramePriority::Critical => 3,
    }
}

impl FramePriority {
    /// The rank of this priority: 0 for low up to 3 for critical.
    pub fn rank(&self) -> (r: u8)
        ensures
            r == priority_rank(*self),
    {
        match self {
            FramePriority::Low => 0,
            FramePriority::Normal => 1,
            FramePriority::High => 2,
            FramePriority::Critical => 3,
        }
    }
}

/// Buffer health status.
#[derive(Clone, Copy, Debug, PartialEq, Eq, Structural)]
pub enum BufferHealth {
    Healthy,
    Warning,
    Critical,
}

/// Types of buffer alerts.
#[derive(Clone, Copy, Debug, PartialEq, Eq, Structural)]
pub enum BufferAlertType {
    Underrun,
    Overrun,
    SyncDrift,
    FlowControlStall,
}

/// Buffer alert.
#[derive(Debug)]
pub struct BufferAlert {
    pub timestamp: SystemTime,
    pub alert_type: BufferAlertType,
    pub message: String,
}

impl Clone for BufferAlert {
    fn clone(&self) -> (r: Self)
        ensures
            r == *self,
    {
        Self { timestamp: self.timestamp, alert_type: self.alert_type, message: self.message.clone() }
    }
}

/// One more, unless the counter is at its limit.
pub open spec fn bumped(x: u64) -> u64 {
    if x < u64::MAX {
        (x + 1) as u64
    } else {
        x
    }
}

fn bump(x: u64) -> (r: u64)
    ensures
        r == bumped(x),
{
    if x < u64::MAX {
        x + 1
    } else {
        x
    }
}

/// A buffer of frames in arrival order with a capacity: a frame pushed into
/// a full buffer drops the oldest one, and popping from an empty buffer
/// counts as an underrun.
pub struct FrameQueue<T> {
    frames: Vec<T>,
    capacity: usize,
    underrun_count: u64,
    overrun_count: u64,
}

/// What a push does to the frames: when the buffer is at or over capacity
/// the oldest frame leaves first, then the new one joins at the back.
pub open spec fn pushed<T>(frames: Seq<T>, capacity: nat, item: T) -> Seq<T> {
    if frames.len() >= capacity && frames.len() > 0 {
        frames.drop_first().push(item)
    } else {
        frames.push(item)
    }
}

impl<T> FrameQueue<T> {
    /// The frames, oldest first.
    pub closed spec fn frames_view(&self) -> Seq<T> {
        self.frames@
    }

    /// The capacity.
    pub closed spec fn capacity_view(&self) -> nat {
        self.capacity as nat
    }

    /// How many pops found the buffer empty.
    pub closed spec fn underruns_view(&self) -> u64 {
        self.underrun_count
    }

    /// How many pushes found the buffer full.
    pub closed spec fn overruns_view(&self) -> u64 {
        self.overrun_count
    }

    /// An empty buffer of the given capacity.
    pub fn new(capacity: usize) -> (r: Self)
        ensures
            r.frames_view() == Seq::<T>::empty(),
            r.capacity_view() == capacity,
            r.underruns_view() == 0,
            r.overruns_view() == 0,
    {
        Self { frames: Vec::new(), capacity, underrun_count: 0, overrun_count: 0 }
    }

    /// Add a frame at the back; a full buffer first drops its oldest frame
    /// and counts an overrun.
    pub fn push(&mut self, item: T)
        ensures
            final(self).frames_view() == pushed(old(self).frames_view(), old(self).capacity_view(), item),
            final(self).capacity_view() == old(self).capacity_view(),
            final(self).underruns_view() == old(self).underruns_view(),
            final(self).overruns_view() == if old(self).frames_view().len() >= old(self).capacity_view() {
                bumped(old(self).overruns_view())
            } else {
                old(self).overruns_view()
            },
    {
        if self.frames.len() >= self.capacity {
            self.overrun_count = bump(self.overrun_count);
            if self.frames.len() > 0 {
                let ghost before = self.frames@;
                self.frames.remove(0);
                assert(self.frames@ =~= before.drop_first());
            }
        }
        self.frames.push(item);
    }

    /// Take the oldest frame; an empty buffer counts an underrun.
    pub fn pop(&mut self) -> (r: Option<T>)
        ensures
            final(self).capacity_view() == old(self).capacity_view(),
            final(self).overruns_view() == old(self).overruns_view(),
            old(self).frames_view().len() == 0 ==> {
                &&& r is None
                &&& final(self).frames_view() == old(self).frames_view()
                &&& final(self).underruns_view() == bumped(old(self).underruns_view())
            },
            old(self).frames_view().len() > 0 ==> {
                &&& r == Some(old(self).frames_view()[0])
                &&& final(self).frames_view() == old(self).frames_view().drop_first()
                &&& final(self).underruns_view() == old(self).underruns_view()
            },
    {
        if self.frames.len() > 0 {
            let ghost before = self.frames@;
            let item = self.frames.remove(0);
            assert(self.frames@ =~= before.drop_first());
            Some(item)
        } else {
            self.underrun_count = bump(self.underrun_count);
            None
        }
    }

    /// The oldest frame, if any.
    pub fn front(&self) -> (r: Option<&T>)
        ensures
            self.frames_view().len() == 0 ==> r is None,
            self.frames_view().len() > 0 ==> r == Some(&self.frames_view()[0]),
    {
        if self.frames.len() > 0 {
            Some(&self.frames[0])
        } else {
            None
        }
    }

    /// The number of frames held.
    pub fn len(&self) -> (r: usize)
        ensures
            r == self.frames_view().len(),
    {
        self.frames.len()
    }

    /// The capacity.
    pub fn capacity(&self) -> (r: usize)
        ensures
            r == self.capacity_view(),
    {
        self.capacity
    }

    /// How many pops found the buffer empty.
    pub fn underrun_count(&self) -> (r: u64)
        ensures
            r == self.underruns_view(),
    {
        self.underrun_count
    }

    /// How many pushes found the buffer full.
    pub fn overrun_count(&self) -> (r: u64)
        ensures
            r == self.overruns_view(),
    {
        self.overrun_count
    }

    /// Set a new capacity; the frames held stay.
    pub fn resize(&mut self, new_capacity: usize)
        ensures
            final(self).capacity_view() == new_capacity,
            final(self).frames_view() == old(self).frames_view(),
            final(self).underruns_view() == old(self).underruns_view(),
            final(self).overruns_view() == old(self).overruns_view(),
    {
        self.capacity = new_capacity;
    }

    /// Drop every frame; capacity and counters stay.
    pub fn clear(&mut self)
        ensures
            final(self).frames_view() == Seq::<T>::empty(),
            final(self).capacity_view() == old(self).capacity_view(),
            final(self).underruns_view() == old(self).underruns_view(),
            final(self).overruns_view() == old(self).overruns_view(),
    {
        self.frames.clear();
    }
}

/// A buffer that holds no more frames than its capacity still holds no more
/// after a push, as long as the capacity is not zero.
pub proof fn lemma_push_keeps_within_capacity<T>(frames: Seq<T>, capacity: nat, item: T)
    requires
        frames.len() <= capacity,
        capacity > 0,
    ensures
        pushed(frames, capacity, item).len() <= capacity,
        pushed(frames, capacity, item).last() == item,
{
}

/// Pushing into a buffer with room, then popping from a buffer that held
/// frames, gives back the frame that was oldest: frames leave in the order
/// they came.
pub proof fn lemma_push_then_pop_is_fifo<T>(frames: Seq<T>, capacity: nat, item: T)
    requires
        0 < frames.len() < capacity,
    ensures
        pushed(frames, capacity, item)[0] == frames[0],
        pushed(frames, capacity, item).drop_first() == frames.drop_first().push(item),
{
    assert(pushed(frames, capacity, item).drop_first() =~= frames.drop_first().push(item));
}

/// The health that the underrun and overrun counts show.
pub open spec fn health_of(underruns: u64, overruns: u64) -> BufferHealth {
    if underruns > 10 || overruns > 10 {
        BufferHealth::Critical
    } else if underruns > 3 || overruns > 3 {
        BufferHealth::Warning
    } else {
        BufferHealth::Healthy
    }
}

/// The health that the underrun and overrun counts show: critical past ten
/// of either, warning past three, healthy otherwise.
pub fn health_for(underruns: u64, overruns: u64) -> (r: BufferHealth)
    ensures
        r == health_of(underruns, overruns),
{
    if underruns > 10 || overruns > 10 {
        BufferHealth::Critical
    } else if underruns > 3 || overruns > 3 {
        BufferHealth::Warning
    } else {
        BufferHealth::Healthy
    }
}

/// The most alerts a monitor keeps.
pub const MAX_ALERTS: usize = 50;

/// Buffer event counts.
#[derive(Clone, Copy, Debug, PartialEq, Eq, Structural)]
pub struct BufferCounts {
    pub frames_buffered: u64,
    pub frames_dropped: u64,
    pub underrun_events: u64,
    pub overrun_events: u64,
}

/// Buffer event counts, the health they show, and the latest alerts.
pub struct BufferMonitor {
    counts: BufferCounts,
    health: BufferHealth,
    alerts: Vec<BufferAlert>,
}

/// The alerts kept after adding `a`: the newest ones, at most the limit.
pub open spec fn kept_alerts(alerts: Seq<BufferAlert>, a: BufferAlert) -> Seq<BufferAlert> {
    let all = alerts.push(a);
    if all.len() > MAX_ALERTS {
        all.skip(all.len() - MAX_ALERTS)
    } else {
        all
    }
}

impl BufferMonitor {
    /// The event counts.
    pub closed spec fn counts_view(&self) -> BufferCounts {
        self.counts
    }

    /// The health last computed.
    pub closed spec fn health_view(&self) -> BufferHealth {
        self.health
    }

    /// The alerts kept, oldest first.
    pub closed spec fn alerts_view(&self) -> Seq<BufferAlert> {
        self.alerts@
    }

    /// A monitor with no events and no alerts, healthy.
    pub fn new() -> (r: Self)
        ensures
            r.counts_view() == (BufferCounts { frames_buffered: 0, frames_dropped: 0, underrun_events: 0, overrun_events: 0 }),
            r.health_view() == BufferHealth::Healthy,
            r.alerts_view() == Seq::<BufferAlert>::empty(),
    {
        Self {
            counts: BufferCounts { frames_buffered: 0, frames_dropped: 0, underrun_events: 0, overrun_events: 0 },
            health: BufferHealth::Healthy,
            alerts: Vec::new(),
        }
    }

    /// The event counts.
    pub fn counts(&self) -> (r: BufferCounts)
        ensures
            r == self.counts_view(),
    {
        self.counts
    }

    /// The health last computed.
    pub fn health(&self) -> (r: BufferHealth)
        ensures
            r == self.health_view(),
    {
        self.health
    }

    /// A copy of the alerts kept, oldest first.
    pub fn alerts(&self) -> (r: Vec<BufferAlert>)
        ensures
            r@ == self.alerts_view(),
    {
        let mut out: Vec<BufferAlert> = Vec::new();
        let mut i: usize = 0;
        while i < self.alerts.len()
            invariant
                i <= self.alerts@.len(),
                out@ == self.alerts@.take(i as int),
            decreases self.alerts@.len() - i,
        {
            out.push(self.alerts[i].clone());
            assert(out@ =~= self.alerts@.take(i as int + 1));
            i = i + 1;
        }
        assert(self.alerts@.take(i as int) =~= self.alerts@);
        out
    }

    /// Count a buffered frame and recompute the health.
    pub fn record_frame_buffered(&mut self)
        ensures
            final(self).counts_view() == (BufferCounts {
                frames_buffered: bumped(old(self).counts_view().frames_buffered),
                ..old(self).counts_view()
            }),
            final(self).health_view() == health_of(
                old(self).counts_view().underrun_events,
                old(self).counts_view().overrun_events,
            ),
            final(self).alerts_view() == old(self).alerts_view(),
    {
        self.counts.frames_buffered = bump(self.counts.frames_buffered);
        self.health = health_for(self.counts.underrun_events, self.counts.overrun_events);
    }

    /// Count an underrun at `now`, add its alert and recompute the health.
    pub fn record_underrun_at(&mut self, now: SystemTime)
        ensures
            final(self).counts_view() == (BufferCounts {
                underrun_events: bumped(old(self).counts_view().underrun_events),
                ..old(self).counts_view()
            }),
            final(self).health_view() == health_of(
                final(self).counts_view().underrun_events,
                final(self).counts_view().overrun_events,
            ),
            exists|a: BufferAlert|
                #![trigger kept_alerts(old(self).alerts_view(), a)]
                a.timestamp == now && a.alert_type == BufferAlertType::Underrun
                    && a.message@ == "Buffer underrun detected"@
                    && final(self).alerts_view() == kept_alerts(old(self).alerts_view(), a),
    {
        self.counts.underrun_events = bump(self.counts.underrun_events);
        assert(self.alerts_view() == old(self).alerts_view());
        self.add_alert(now, BufferAlertType::Underrun, "Buffer underrun detected");
        self.health = health_for(self.counts.underrun_events, self.counts.overrun_events);
    }

    /// Count an overrun at `now`, add its alert and recompute the health.
    pub fn record_overrun_at(&mut self, now: SystemTime)
        ensures
            final(self).counts_view() == (BufferCounts {
                overrun_events: bumped(old(self).counts_view().overrun_events),
                ..old(self).counts_view()
            }),
            final(self).health_view() == health_of(
                final(self).counts_view().underrun_events,
                final(self).counts_view().overrun_events,
            ),
            exists|a: BufferAlert|
                #![trigger kept_alerts(old(self).alerts_view(), a)]
                a.timestamp == now && a.alert_type == BufferAlertType::Overrun
                    && a.message@ == "Buffer overrun detected"@
                    && final(self).alerts_view() == kept_alerts(old(self).alerts_view(), a),
    {
        self.counts.overrun_events = bump(self.counts.overrun_events);
        assert(self.alerts_view() == old(self).alerts_view());
        self.add_alert(now, BufferAlertType::Overrun, "Buffer overrun detected");
        self.health = health_for(self.counts.underrun_events, self.counts.overrun_events);
    }

    /// Add an alert at `now`, keeping only the newest ones.
    pub fn add_alert(&mut self, now: SystemTime, alert_type: BufferAlertType, message: &str)
        ensures
            final(self).counts_view() == old(self).counts_view(),
            final(self).health_view() == old(self).health_view(),
            exists|a: BufferAlert|
                #![trigger kept_alerts(old(self).alerts_view(), a)]
                a.timestamp == now && a.alert_type == alert_type && a.message@ == message@
                    && final(self).alerts_view() == kept_alerts(old(self).alerts_view(), a),
    {
        let alert = BufferAlert { timestamp: now, alert_type, message: String::from_str(message) };
        let ghost a = alert;
        let mut alerts: Vec<BufferAlert> = Vec::new();
        std::mem::swap(&mut alerts, &mut self.alerts);
        alerts.push(alert);
        let ghost all = alerts@;
        let ghost mut dropped: int = 0;
        while alerts.len() > MAX_ALERTS
            invariant
                0 <= dropped <= all.len(),
                alerts@ == all.skip(dropped),
                dropped > 0 ==> alerts@.len() >= MAX_ALERTS,
            decreases alerts@.len(),
        {
            alerts.remove(0);
            proof {
                assert(alerts@ =~= all.skip(dropped + 1));
                dropped = dropped + 1;
            }
        }
        proof {
            if all.len() > MAX_ALERTS {
                assert(dropped == all.len() - MAX_ALERTS);
            } else {
                assert(dropped == 0);
                assert(all.skip(0) =~= all);
            }
        }
        self.alerts = alerts;
        assert(self.alerts_view() =~= kept_alerts(old(self).alerts_view(), a));
    }
}

/// The alerts a monitor keeps never outnumber the limit.
pub proof fn lemma_alerts_bounded(alerts: Seq<BufferAlert>, a: BufferAlert)
    requires
        alerts.len() <= MAX_ALERTS,
    ensures
        kept_alerts(alerts, a).len() <= MAX_ALERTS,
        kept_alerts(alerts, a).last() == a,
{
}

/// Flow control: the bytes sent and not yet acknowledged, under a window,
/// and the size of each frame awaiting acknowledgement by sequence number.
pub struct FlowController {
    window_size: usize,
    bytes_in_flight: usize,
    max_bytes_in_flight: usize,
    congestion_window: usize,
    pending: KeyMap<u64, usize>,
}

/// The bytes left in flight after an acknowledgement of `size` bytes.
pub open spec fn less_in_flight(in_flight: nat, size: nat) -> nat {
    if in_flight >= size {
        (in_flight - size) as nat
    } else {
        0
    }
}

impl FlowController {
    /// The bytes sent and not yet acknowledged.
    pub closed spec fn in_flight_view(&self) -> nat {
        self.bytes_in_flight as nat
    }

    /// The most bytes allowed in flight.
    pub closed spec fn window_view(&self) -> nat {
        self.max_bytes_in_flight as nat
    }

    /// The size of each frame awaiting acknowledgement, by sequence number.
    pub closed spec fn pending_view(&self) -> Map<u64, usize> {
        self.pending@
    }

    /// Flow control over a window of the given size, with nothing in flight.
    pub fn new(window_size: usize) -> (r: Self)
        ensures
            r.in_flight_view() == 0,
            r.window_view() == window_size,
            r.pending_view() == Map::<u64, usize>::empty(),
    {
        Self {
            window_size,
            bytes_in_flight: 0,
            max_bytes_in_flight: window_size,
            congestion_window: window_size,
            pending: KeyMap::new(),
        }
    }

    /// Whether `data_size` more bytes fit in the window: a resource error
    /// when they do not.
    pub fn check_capacity(&self, data_size: usize) -> (r: StreamResult<()>)
        ensures
            r is Ok <==> self.in_flight_view() + data_size <= self.window_view(),
            r is Err ==> (r matches Err(StreamError::Resource(m)) && m@ == "Flow control window exceeded"@),
    {
        if self.bytes_in_flight > self.max_bytes_in_flight
            || data_size > self.max_bytes_in_flight - self.bytes_in_flight {
            return Err(StreamError::resource("Flow control window exceeded"));
        }
        Ok(())
    }

    /// Note `data_size` bytes sent as frame `sequence_number`.
    pub fn track_sent(&mut self, sequence_number: u64, data_size: usize)
        requires
            old(self).in_flight_view() + data_size <= usize::MAX,
        ensures
            final(self).in_flight_view() == old(self).in_flight_view() + data_size,
            final(self).window_view() == old(self).window_view(),
            final(self).pending_view() == old(self).pending_view().insert(sequence_number, data_size),
    {
        self.bytes_in_flight = self.bytes_in_flight + data_size;
        self.pending.insert(sequence_number, data_size);
    }

    /// Acknowledge frame `sequence_number`: when it was pending, its bytes
    /// leave the flight (never below zero).
    pub fn acknowledge(&mut self, sequence_number: u64) -> (r: bool)
        ensures
            r == old(self).pending_view().dom().contains(sequence_number),
            final(self).window_view() == old(self).window_view(),
            r ==> {
                &&& final(self).pending_view() == old(self).pending_view().remove(sequence_number)
                &&& final(self).in_flight_view() == less_in_flight(
                    old(self).in_flight_view(),
                    old(self).pending_view()[sequence_number] as nat,
                )
            },
            !r ==> {
                &&& final(self).pending_view() == old(self).pending_view()
                &&& final(self).in_flight_view() == old(self).in_flight_view()
            },
    {
        let size = match self.pending.get(&sequence_number) {
            Some(s) => *s,
            None => {
                return false;
            },
        };
        self.pending.remove(&sequence_number);
        self.bytes_in_flight = if self.bytes_in_flight >= size {
            self.bytes_in_flight - size
        } else {
            0
        };
        true
    }

    /// Set a new window.
    pub fn update_window(&mut self, new_size: usize)
        ensures
            final(self).window_view() == new_size,
            final(self).in_flight_view() == old(self).in_flight_view(),
            final(self).pending_view() == old(self).pending_view(),
    {
        self.congestion_window = new_size;
        self.max_bytes_in_flight = new_size;
    }

    /// The bytes in flight.
    pub fn bytes_in_flight(&self) -> (r: usize)
        ensures
            r == self.in_flight_view(),
    {
        self.bytes_in_flight
    }

    /// The number of frames awaiting acknowledgement.
    pub fn pending_count(&self) -> (r: usize)
        ensures
            r == self.pending_view().dom().len(),
    {
        self.pending.len()
    }
}

/// Acknowledging a frame that was sent, and was not pending before, takes
/// the flight back to where it was before the send.
pub proof fn lemma_acknowledge_undoes_send(
    in_flight: nat,
    pending: Map<u64, usize>,
    sequence_number: u64,
    data_size: usize,
)
    requires
        !pending.dom().contains(sequence_number),
    ensures
        pending.insert(sequence_number, data_size).dom().contains(sequence_number),
        pending.insert(sequence_number, data_size).remove(sequence_number) == pending,
        less_in_flight(in_flight + data_size as nat, pending.insert(sequence_number, data_size)[sequence_number] as nat)
            == in_flight,
{
    assert(pending.insert(sequence_number, data_size).remove(sequence_number) =~= pending);
}

/// The largest drift between audio and video, in nanoseconds, before a
/// correction: a tenth of a second.
pub const MAX_SYNC_DRIFT_NANOS: u64 = 100_000_000;

/// Audio and video synchronisation: the offset last applied and how many
/// corrections were made.
pub struct SyncTracker {
    sync_offset_nanos: u64,
    max_sync_drift_nanos: u64,
    sync_corrections: u64,
}

/// The distance between two instants, in nanoseconds.
pub open spec fn drift_between(a: u64, b: u64) -> u64 {
    if a > b {
        (a - b) as u64
    } else {
        (b - a) as u64
    }
}

impl SyncTracker {
    /// The offset last applied, in nanoseconds.
    pub closed spec fn offset_view(&self) -> u64 {
        self.sync_offset_nanos
    }

    /// The largest drift tolerated, in nanoseconds.
    pub closed spec fn max_drift_view(&self) -> u64 {
        self.max_sync_drift_nanos
    }

    /// The number of corrections made.
    pub closed spec fn corrections_view(&self) -> u64 {
        self.sync_corrections
    }

    /// No offset, no corrections, a tenth of a second of drift tolerated.
    pub fn new() -> (r: Self)
        ensures
            r.offset_view() == 0,
            r.max_drift_view() == MAX_SYNC_DRIFT_NANOS,
            r.corrections_view() == 0,
    {
        Self { sync_offset_nanos: 0, max_sync_drift_nanos: MAX_SYNC_DRIFT_NANOS, sync_corrections: 0 }
    }

    /// Compare the front video and audio timestamps (nanoseconds): a drift
    /// past the tolerance becomes the offset and counts as a correction.
    pub fn update_sync_offset(&mut self, video_nanos: u64, audio_nanos: u64) -> (r: StreamResult<()>)
        ensures
            r is Ok,
            final(self).max_drift_view() == old(self).max_drift_view(),
            drift_between(video_nanos, audio_nanos) > old(self).max_drift_view() ==> {
                &&& final(self).offset_view() == drift_between(video_nanos, audio_nanos)
                &&& final(self).corrections_view() == bumped(old(self).corrections_view())
            },
            drift_between(video_nanos, audio_nanos) <= old(self).max_drift_view() ==> {
                &&& final(self).offset_view() == old(self).offset_view()
                &&& final(self).corrections_view() == old(self).corrections_view()
            },
    {
        let drift = if video_nanos > audio_nanos {
            video_nanos - audio_nanos
        } else {
            audio_nanos - video_nanos
        };
        if drift > self.max_sync_drift_nanos {
            self.sync_offset_nanos = drift;
            self.sync_corrections = bump(self.sync_corrections);
        }
        Ok(())
    }

    /// The offset last applied, in nanoseconds.
    pub fn get_sync_offset(&self) -> (r: u64)
        ensures
            r == self.offset_view(),
    {
        self.sync_offset_nanos
    }

    /// The number of corrections made.
    pub fn corrections(&self) -> (r: u64)
        ensures
            r == self.corrections_view(),
    {
        self.sync_corrections
    }
}

} // verus!
