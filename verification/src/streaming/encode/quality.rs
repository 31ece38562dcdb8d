//! Adaptive quality: moving between quality presets within bounds as
//! network and CPU conditions change.

use vstd::prelude::*;
use crate::clock::unix_now_nanos;
use crate::streaming::error::StreamResult;
use crate::streaming::types::{EncodingQuality, QualityPreset, preset_quality};

verus! {

/// Why the quality preset changed.
#[derive(Clone, Copy, Debug, PartialEq, Eq, Structural)]
pub enum AdjustmentReason {
    NetworkBandwidth,
    NetworkLatency,
    CpuUsage,
    Manual,
}

/// How loaded the CPU is, as measured by the caller.
#[derive(Clone, Copy, Debug, PartialEq, Eq, Structural)]
pub enum CpuLoad {
    /// Above 80%.
    Overloaded,
    /// Above 60%.
    Pressured,
    /// Below 30%.
    Idle,
    /// Anything else.
    Acceptable,
}

/// A recorded change of preset.
#[derive(Clone, Copy, Debug)]
struct QualityAdjustment {
    timestamp: u64,
    from_preset: QualityPreset,
    to_preset: QualityPreset,
    reason: AdjustmentReason,
}

/// The rank of a preset; a custom preset ranks as medium.
pub open spec fn preset_level(p: QualityPreset) -> int {
    match p {
        QualityPreset::Low => 1,
        QualityPreset::Medium => 2,
        QualityPreset::High => 3,
        QualityPreset::Ultra => 4,
        QualityPreset::Custom => 2,
    }
}

/// The next preset down (custom goes to medium).
pub open spec fn step_down(p: QualityPreset) -> QualityPreset {
    match p {
        QualityPreset::Ultra => QualityPreset::High,
        QualityPreset::High => QualityPreset::Medium,
        QualityPreset::Medium => QualityPreset::Low,
        QualityPreset::Low => QualityPreset::Low,
        QualityPreset::Custom => QualityPreset::Medium,
    }
}

/// The next preset up (custom goes to medium).
pub open spec fn step_up(p: QualityPreset) -> QualityPreset {
    match p {
        QualityPreset::Low => QualityPreset::Medium,
        QualityPreset::Medium => QualityPreset::High,
        QualityPreset::High => QualityPreset::Ultra,
        QualityPreset::Ultra => QualityPreset::Ultra,
        QualityPreset::Custom => QualityPreset::Medium,
    }
}

/// One step down from `p`, but not below `min`.
pub open spec fn bounded_down(p: QualityPreset, min: QualityPreset) -> QualityPreset {
    if preset_level(step_down(p)) < preset_level(min) {
        min
    } else {
        step_down(p)
    }
}

/// One step up from `p`, but not above `max`.
pub open spec fn bounded_up(p: QualityPreset, max: QualityPreset) -> QualityPreset {
    if preset_level(step_up(p)) > preset_level(max) {
        max
    } else {
        step_up(p)
    }
}

/// The quality factor (0 to 100) of a preset.
pub open spec fn preset_quality_factor(p: QualityPreset) -> u32 {
    match p {
        QualityPreset::Low => 50,
        QualityPreset::Medium => 65,
        QualityPreset::High => 80,
        QualityPreset::Ultra => 95,
        QualityPreset::Custom => 65,
    }
}

/// Frames between keyframes for a preset.
pub open spec fn preset_keyframe_interval(p: QualityPreset) -> u32 {
    match p {
        QualityPreset::Low => 60,
        QualityPreset::Medium => 90,
        QualityPreset::High => 90,
        QualityPreset::Ultra => 120,
        QualityPreset::Custom => 90,
    }
}

/// The encoding settings of a preset, its bitrate capped at `max_bitrate`.
pub open spec fn preset_encoding(p: QualityPreset, max_bitrate: u32) -> EncodingQuality {
    EncodingQuality {
        bitrate: if preset_quality(p).bitrate < max_bitrate { preset_quality(p).bitrate } else { max_bitrate },
        quality_factor: preset_quality_factor(p),
        keyframe_interval: preset_keyframe_interval(p),
    }
}

/// The preset change network conditions call for: down when the bandwidth is
/// below what the stream needs (with overhead) or latency exceeds 200 ms; up
/// when the bandwidth is more than twice that and latency under 50 ms.
pub open spec fn network_target(
    p: QualityPreset,
    min: QualityPreset,
    max: QualityPreset,
    required_bitrate: u32,
    bandwidth_bps: u32,
    latency_ms: u32,
) -> QualityPreset {
    if bandwidth_bps < required_bitrate || latency_ms > 200 {
        bounded_down(p, min)
    } else if bandwidth_bps > 2 * required_bitrate && latency_ms < 50 {
        bounded_up(p, max)
    } else {
        p
    }
}

/// The preset change CPU load calls for.
pub open spec fn cpu_target(p: QualityPreset, min: QualityPreset, max: QualityPreset, load: CpuLoad) -> QualityPreset {
    match load {
        CpuLoad::Overloaded => bounded_down(p, min),
        CpuLoad::Pressured => bounded_down(p, min),
        CpuLoad::Idle => bounded_up(p, max),
        CpuLoad::Acceptable => p,
    }
}

/// The last `n` elements of `s`, or all of them if there are fewer.
pub open spec fn last_n<A>(s: Seq<A>, n: nat) -> Seq<A> {
    if s.len() > n {
        s.subrange(s.len() - n, s.len() as int)
    } else {
        s
    }
}

/// Quality scaler for adaptive bitrate streaming.
pub struct QualityScaler {
    min_quality: QualityPreset,
    max_quality: QualityPreset,
    current_preset: QualityPreset,
    adjustment_history: Vec<QualityAdjustment>,
}

/// The changes recorded in `s`, as (from, to, why).
spec fn adjustment_views(s: Seq<QualityAdjustment>) -> Seq<(QualityPreset, QualityPreset, AdjustmentReason)> {
    Seq::new(s.len(), |i: int| (s[i].from_preset, s[i].to_preset, s[i].reason))
}

impl QualityScaler {
    /// At most a hundred changes are kept.
    #[verifier::type_invariant]
    closed spec fn history_bounded(&self) -> bool {
        self.adjustment_history@.len() <= 100
    }

    /// The lowest preset allowed.
    pub closed spec fn min_view(&self) -> QualityPreset {
        self.min_quality
    }

    /// The highest preset allowed.
    pub closed spec fn max_view(&self) -> QualityPreset {
        self.max_quality
    }

    /// The preset in force.
    pub closed spec fn preset_view(&self) -> QualityPreset {
        self.current_preset
    }

    /// The recorded changes (from, to, why), oldest first.
    pub closed spec fn history_view(&self) -> Seq<(QualityPreset, QualityPreset, AdjustmentReason)> {
        adjustment_views(self.adjustment_history@)
    }

    /// A scaler between low and ultra, starting at medium.
    pub fn new() -> (r: Self)
        ensures
            r.min_view() == QualityPreset::Low,
            r.max_view() == QualityPreset::Ultra,
            r.preset_view() == QualityPreset::Medium,
            r.history_view().len() == 0,
    {
        Self {
            min_quality: QualityPreset::Low,
            max_quality: QualityPreset::Ultra,
            current_preset: QualityPreset::Medium,
            adjustment_history: Vec::new(),
        }
    }

    /// A scaler between `min` and `max`, starting at `min`.
    pub fn with_bounds(min: QualityPreset, max: QualityPreset) -> (r: Self)
        ensures
            r.min_view() == min,
            r.max_view() == max,
            r.preset_view() == min,
            r.history_view().len() == 0,
    {
        Self { min_quality: min, max_quality: max, current_preset: min, adjustment_history: Vec::new() }
    }

    /// Record a change, keeping the hundred most recent.
    fn record_adjustment(&mut self, from: QualityPreset, to: QualityPreset, reason: AdjustmentReason)
        ensures
            final(self).min_view() == old(self).min_view(),
            final(self).max_view() == old(self).max_view(),
            final(self).preset_view() == old(self).preset_view(),
            final(self).history_view() == last_n(old(self).history_view().push((from, to, reason)), 100),
    {
        proof {
            use_type_invariant(&*self);
        }
        let timestamp = unix_now_nanos();
        let ghost before = self.adjustment_history@;
        let mut history: Vec<QualityAdjustment> = Vec::new();
        std::mem::swap(&mut history, &mut self.adjustment_history);
        let entry = QualityAdjustment { timestamp, from_preset: from, to_preset: to, reason };
        history.push(entry);
        let ghost pushed = history@;
        assert(adjustment_views(pushed) =~= adjustment_views(before).push((from, to, reason)));
        if history.len() > 100 {
            history.remove(0);
            assert(history@ =~= pushed.subrange(1, pushed.len() as int));
            assert(adjustment_views(history@) =~= last_n(adjustment_views(pushed), 100));
        }
        self.adjustment_history = history;
    }

    /// Move one step down within the bounds; a change is recorded.
    fn scale_down_preset(&mut self, reason: AdjustmentReason) -> (r: QualityPreset)
        ensures
            r == bounded_down(old(self).preset_view(), old(self).min_view()),
            final(self).preset_view() == r,
            final(self).min_view() == old(self).min_view(),
            final(self).max_view() == old(self).max_view(),
            final(self).history_view() == if r != old(self).preset_view() {
                last_n(old(self).history_view().push((old(self).preset_view(), r, reason)), 100)
            } else {
                old(self).history_view()
            },
    {
        let old_preset = self.current_preset;
        let stepped = match self.current_preset {
            QualityPreset::Ultra => QualityPreset::High,
            QualityPreset::High => QualityPreset::Medium,
            QualityPreset::Medium => QualityPreset::Low,
            QualityPreset::Low => QualityPreset::Low,
            QualityPreset::Custom => QualityPreset::Medium,
        };
        let new_preset = if Self::preset_level(stepped) < Self::preset_level(self.min_quality) {
            self.min_quality
        } else {
            stepped
        };
        if new_preset != old_preset {
            self.record_adjustment(old_preset, new_preset, reason);
            proof {
                use_type_invariant(&*self);
            }
            self.current_preset = new_preset;
        }
        new_preset
    }

    /// Move one step up within the bounds; a change is recorded.
    fn scale_up_preset(&mut self, reason: AdjustmentReason) -> (r: QualityPreset)
        ensures
            r == bounded_up(old(self).preset_view(), old(self).max_view()),
            final(self).preset_view() == r,
            final(self).min_view() == old(self).min_view(),
            final(self).max_view() == old(self).max_view(),
            final(self).history_view() == if r != old(self).preset_view() {
                last_n(old(self).history_view().push((old(self).preset_view(), r, reason)), 100)
            } else {
                old(self).history_view()
            },
    {
        let old_preset = self.current_preset;
        let stepped = match self.current_preset {
            QualityPreset::Low => QualityPreset::Medium,
            QualityPreset::Medium => QualityPreset::High,
            QualityPreset::High => QualityPreset::Ultra,
            QualityPreset::Ultra => QualityPreset::Ultra,
            QualityPreset::Custom => QualityPreset::Medium,
        };
        let new_preset = if Self::preset_level(stepped) > Self::preset_level(self.max_quality) {
            self.max_quality
        } else {
            stepped
        };
        if new_preset != old_preset {
            self.record_adjustment(old_preset, new_preset, reason);
            proof {
                use_type_invariant(&*self);
            }
            self.current_preset = new_preset;
        }
        new_preset
    }

    /// The rank of a preset.
    fn preset_level(preset: QualityPreset) -> (r: u8)
        ensures
            r == preset_level(preset),
    {
        match preset {
            QualityPreset::Low => 1,
            QualityPreset::Medium => 2,
            QualityPreset::High => 3,
            QualityPreset::Ultra => 4,
            QualityPreset::Custom => 2,
        }
    }

    /// The encoding settings of a preset, its bitrate capped at `max_bitrate`.
    pub fn preset_to_encoding_quality(preset: QualityPreset, max_bitrate: u32) -> (r: StreamResult<EncodingQuality>)
        ensures
            r matches Ok(q) && q == preset_encoding(preset, max_bitrate),
    {
        let stream_quality = preset.to_quality();
        let bitrate = if stream_quality.bitrate < max_bitrate { stream_quality.bitrate } else { max_bitrate };
        let quality_factor = match preset {
            QualityPreset::Low => 50,
            QualityPreset::Medium => 65,
            QualityPreset::High => 80,
            QualityPreset::Ultra => 95,
            QualityPreset::Custom => 65,
        };
        let keyframe_interval = match preset {
            QualityPreset::Low => 60,
            QualityPreset::Medium => 90,
            QualityPreset::High => 90,
            QualityPreset::Ultra => 120,
            QualityPreset::Custom => 90,
        };
        Ok(EncodingQuality { bitrate, quality_factor, keyframe_interval })
    }

    /// Move the preset as network conditions call for, given the bitrate the
    /// stream needs with its overhead, and the encoding settings of the
    /// resulting preset, capped at the bandwidth.
    pub fn adjust_for_network_with(&mut self, required_bitrate: u32, bandwidth_bps: u32, latency_ms: u32) -> (r: StreamResult<EncodingQuality>)
        ensures
            ({
                let target = network_target(
                    old(self).preset_view(),
                    old(self).min_view(),
                    old(self).max_view(),
                    required_bitrate,
                    bandwidth_bps,
                    latency_ms,
                );
                &&& final(self).preset_view() == target
                &&& r matches Ok(q) && q == preset_encoding(target, bandwidth_bps)
            }),
            final(self).min_view() == old(self).min_view(),
            final(self).max_view() == old(self).max_view(),
    {
        let target = if bandwidth_bps < required_bitrate || latency_ms > 200 {
            self.scale_down_preset(AdjustmentReason::NetworkBandwidth)
        } else if (bandwidth_bps as u64) > 2 * (required_bitrate as u64) && latency_ms < 50 {
            self.scale_up_preset(AdjustmentReason::NetworkBandwidth)
        } else {
            self.current_preset
        };
        Self::preset_to_encoding_quality(target, bandwidth_bps)
    }

    /// Move the preset as the CPU load calls for, and the encoding settings
    /// of the resulting preset, capped at `current_bitrate`.
    pub fn adjust_for_cpu_with(&mut self, load: CpuLoad, current_bitrate: u32) -> (r: StreamResult<EncodingQuality>)
        ensures
            ({
                let target = cpu_target(old(self).preset_view(), old(self).min_view(), old(self).max_view(), load);
                &&& final(self).preset_view() == target
                &&& r matches Ok(q) && q == preset_encoding(target, current_bitrate)
            }),
            final(self).min_view() == old(self).min_view(),
            final(self).max_view() == old(self).max_view(),
    {
        let target = match load {
            CpuLoad::Overloaded => self.scale_down_preset(AdjustmentReason::CpuUsage),
            CpuLoad::Pressured => self.scale_down_preset(AdjustmentReason::CpuUsage),
            CpuLoad::Idle => self.scale_up_preset(AdjustmentReason::CpuUsage),
            CpuLoad::Acceptable => self.current_preset,
        };
        Self::preset_to_encoding_quality(target, current_bitrate)
    }

    /// The preset in force.
    pub fn current_preset(&self) -> (r: QualityPreset)
        ensures
            r == self.preset_view(),
    {
        self.current_preset
    }

    /// Set the preset by hand (bounds are not applied); the change is recorded.
    pub fn set_preset(&mut self, preset: QualityPreset)
        ensures
            final(self).preset_view() == preset,
            final(self).min_view() == old(self).min_view(),
            final(self).max_view() == old(self).max_view(),
            final(self).history_view() == last_n(
                old(self).history_view().push((old(self).preset_view(), preset, AdjustmentReason::Manual)),
                100,
            ),
    {
        proof {
            use_type_invariant(&*self);
        }
        let old_preset = self.current_preset;
        self.current_preset = preset;
        self.record_adjustment(old_preset, preset, AdjustmentReason::Manual);
    }
}

impl Default for QualityScaler {
    fn default() -> (r: Self)
        ensures
            r.min_view() == QualityPreset::Low,
            r.max_view() == QualityPreset::Ultra,
            r.preset_view() == QualityPreset::Medium,
            r.history_view().len() == 0,
    {
        Self::new()
    }
}

/// Scaling down or up never leaves the bounds, when the starting preset and
/// the bounds are ordered; scaling down never raises the rank, and up never lowers it.
pub proof fn lemma_scaling_stays_in_bounds(p: QualityPreset, min: QualityPreset, max: QualityPreset)
    requires
        preset_level(min) <= preset_level(p) <= preset_level(max),
    ensures
        preset_level(min) <= preset_level(bounded_down(p, min)) <= preset_level(p),
        preset_level(p) <= preset_level(bounded_up(p, max)) <= preset_level(max),
{
}

/// Scaling moves one rank at a time: below the top, one step up is the preset
/// one rank higher, and above the bottom, one step down the preset one rank
/// lower (Ultra to High to Medium to Low, and back), never a custom preset;
/// the ends stay put. Stepping down and then up returns to where it started.
/// Within the bounds, a bounded step is that one step.
pub proof fn lemma_one_step(p: QualityPreset, min: QualityPreset, max: QualityPreset)
    ensures
        step_down(QualityPreset::Ultra) == QualityPreset::High,
        step_down(QualityPreset::High) == QualityPreset::Medium,
        step_down(QualityPreset::Medium) == QualityPreset::Low,
        step_down(QualityPreset::Low) == QualityPreset::Low,
        step_up(QualityPreset::Low) == QualityPreset::Medium,
        step_up(QualityPreset::Medium) == QualityPreset::High,
        step_up(QualityPreset::High) == QualityPreset::Ultra,
        step_up(QualityPreset::Ultra) == QualityPreset::Ultra,
        p != QualityPreset::Custom && preset_level(p) > 1 ==> preset_level(step_down(p)) == preset_level(p) - 1
            && step_down(p) != QualityPreset::Custom && step_up(step_down(p)) == p,
        p != QualityPreset::Custom && preset_level(p) < 4 ==> preset_level(step_up(p)) == preset_level(p) + 1
            && step_up(p) != QualityPreset::Custom && step_down(step_up(p)) == p,
        p != QualityPreset::Custom && preset_level(p) - 1 >= preset_level(min) && preset_level(p) > 1
            ==> preset_level(bounded_down(p, min)) == preset_level(p) - 1,
        p != QualityPreset::Custom && preset_level(p) + 1 <= preset_level(max) && preset_level(p) < 4
            ==> preset_level(bounded_up(p, max)) == preset_level(p) + 1,
{
}

} // verus!
