//! Screen capture optimization: frame pacing, change detection, capture
//! regions, cursor tracking and resolution changes.

use vstd::prelude::*;
use crate::clock::unix_now_nanos;
use crate::streaming::error::{StreamError, StreamResult};
use crate::streaming::types::{CaptureConfig, PixelFormat, Resolution, ScreenRegion};

verus! {

/// The FNV-1a offset basis.
pub open spec fn fnv_offset() -> u64 {
    0xcbf29ce484222325
}

/// The FNV-1a prime.
pub open spec fn fnv_prime() -> u64 {
    0x100000001b3
}

/// The change-detection hash after the first `n` bytes of `data`: FNV-1a over
/// every thousandth byte (those at indices divisible by 1000).
pub open spec fn sampled_hash(data: Seq<u8>, n: nat) -> u64
    decreases n,
{
    if n == 0 {
        fnv_offset()
    } else {
        let h = sampled_hash(data, (n - 1) as nat);
        if (n - 1) % 1000 == 0 {
            (((h ^ (data[n - 1] as u64)) as nat * fnv_prime() as nat) % 0x1_0000_0000_0000_0000) as u64
        } else {
            h
        }
    }
}

/// The change-detection hash of a frame.
pub open spec fn frame_hash(data: Seq<u8>) -> u64 {
    sampled_hash(data, data.len())
}

/// Nanoseconds between frames at `framerate` frames per second: a second
/// divided by the framerate, rounded to the nearest nanosecond, a tie going
/// to the even neighbour.
pub open spec fn frame_interval(framerate: u32) -> u64 {
    let q = 1_000_000_000int / framerate as int;
    let twice_rem = 2 * (1_000_000_000int % framerate as int);
    (if twice_rem > framerate || (twice_rem == framerate && q % 2 == 1) {
        q + 1
    } else {
        q
    }) as u64
}

/// The frame interval at `framerate` frames per second (see `frame_interval`).
fn interval_nanos(framerate: u32) -> (r: u64)
    requires
        framerate > 0,
    ensures
        r == frame_interval(framerate),
{
    let f = framerate as u64;
    let q = 1_000_000_000u64 / f;
    let twice_rem = 2 * (1_000_000_000u64 % f);
    if twice_rem > f || (twice_rem == f && q % 2 == 1) {
        q + 1
    } else {
        q
    }
}

/// Screen capture optimizer for efficient frame capture.
pub struct ScreenCaptureOptimizer {
    last_capture_time: Option<u64>,
    frame_interval_nanos: u64,
    change_detection_enabled: bool,
    last_frame_hash: Option<u64>,
}

impl ScreenCaptureOptimizer {
    /// When the last frame was captured, in nanoseconds since the epoch.
    pub closed spec fn last_capture_view(&self) -> Option<u64> {
        self.last_capture_time
    }

    /// Nanoseconds between frames.
    pub closed spec fn interval_view(&self) -> u64 {
        self.frame_interval_nanos
    }

    /// Whether change detection is on.
    pub closed spec fn detection_view(&self) -> bool {
        self.change_detection_enabled
    }

    /// The hash of the last frame that counted as changed.
    pub closed spec fn last_hash_view(&self) -> Option<u64> {
        self.last_frame_hash
    }

    /// An optimizer pacing frames at `framerate` per second, with change detection on.
    pub fn new(framerate: u32) -> (r: Self)
        requires
            framerate > 0,
        ensures
            r.last_capture_view() is None,
            r.interval_view() == frame_interval(framerate),
            r.detection_view(),
            r.last_hash_view() is None,
    {
        Self {
            last_capture_time: None,
            frame_interval_nanos: interval_nanos(framerate),
            change_detection_enabled: true,
            last_frame_hash: None,
        }
    }

    /// Whether a frame is due at `now` (nanoseconds): the first frame is, and
    /// then one whenever a frame interval has passed since the last capture
    /// (or the clock went back). A due frame is recorded as captured at `now`.
    pub fn should_capture_frame_at(&mut self, now: u64) -> (r: bool)
        ensures
            r == match old(self).last_capture_view() {
                None => true,
                Some(last) => now < last || now - last >= old(self).interval_view(),
            },
            final(self).last_capture_view() == if r { Some(now) } else { old(self).last_capture_view() },
            final(self).interval_view() == old(self).interval_view(),
            final(self).detection_view() == old(self).detection_view(),
            final(self).last_hash_view() == old(self).last_hash_view(),
    {
        match self.last_capture_time {
            None => {
                self.last_capture_time = Some(now);
                true
            },
            Some(last) => {
                if now >= last {
                    if now - last >= self.frame_interval_nanos {
                        self.last_capture_time = Some(now);
                        true
                    } else {
                        false
                    }
                } else {
                    self.last_capture_time = Some(now);
                    true
                }
            },
        }
    }

    /// Whether a frame is due now (see `should_capture_frame_at`).
    pub fn should_capture_frame(&mut self) -> (r: bool)
        ensures
            old(self).last_capture_view() is None ==> r,
            final(self).interval_view() == old(self).interval_view(),
            final(self).detection_view() == old(self).detection_view(),
            final(self).last_hash_view() == old(self).last_hash_view(),
            r ==> final(self).last_capture_view() is Some,
            !r ==> final(self).last_capture_view() == old(self).last_capture_view(),
    {
        let now = unix_now_nanos();
        self.should_capture_frame_at(now)
    }

    /// Whether a frame differs from the last one: always when detection is
    /// off; otherwise when its hash differs from the last changed frame's
    /// (the first frame counts as changed), which then becomes the last.
    pub fn has_frame_changed(&mut self, frame_data: &[u8]) -> (r: bool)
        ensures
            r == (!old(self).detection_view() || match old(self).last_hash_view() {
                None => true,
                Some(h) => h != frame_hash(frame_data@),
            }),
            final(self).last_hash_view() == if old(self).detection_view() && r {
                Some(frame_hash(frame_data@))
            } else {
                old(self).last_hash_view()
            },
            final(self).last_capture_view() == old(self).last_capture_view(),
            final(self).interval_view() == old(self).interval_view(),
            final(self).detection_view() == old(self).detection_view(),
    {
        if !self.change_detection_enabled {
            return true;
        }
        let current_hash = Self::compute_frame_hash(frame_data);
        match self.last_frame_hash {
            None => {
                self.last_frame_hash = Some(current_hash);
                true
            },
            Some(last_hash) => {
                let changed = current_hash != last_hash;
                if changed {
                    self.last_frame_hash = Some(current_hash);
                }
                changed
            },
        }
    }

    /// The change-detection hash of a frame.
    fn compute_frame_hash(data: &[u8]) -> (r: u64)
        ensures
            r == frame_hash(data@),
    {
        let mut hash: u64 = 0xcbf29ce484222325;
        let mut i: usize = 0;
        while i < data.len()
            invariant
                i <= data@.len(),
                hash == sampled_hash(data@, i as nat),
            decreases data@.len() - i,
        {
            if i % 1000 == 0 {
                hash = hash ^ (data[i] as u64);
                hash = hash.wrapping_mul(0x100000001b3);
            }
            i = i + 1;
        }
        hash
    }

    /// Switch change detection on or off.
    pub fn set_change_detection(&mut self, enabled: bool)
        ensures
            final(self).detection_view() == enabled,
            final(self).last_capture_view() == old(self).last_capture_view(),
            final(self).interval_view() == old(self).interval_view(),
            final(self).last_hash_view() == old(self).last_hash_view(),
    {
        self.change_detection_enabled = enabled;
    }

    /// Pace frames at `framerate` per second from now on.
    pub fn set_framerate(&mut self, framerate: u32)
        requires
            framerate > 0,
        ensures
            final(self).interval_view() == frame_interval(framerate),
            final(self).last_capture_view() == old(self).last_capture_view(),
            final(self).detection_view() == old(self).detection_view(),
            final(self).last_hash_view() == old(self).last_hash_view(),
    {
        self.frame_interval_nanos = interval_nanos(framerate);
    }
}

/// The region `r` clamped to a screen of `w` by `h` pixels, if it starts on
/// the screen: it keeps its corner and shrinks to fit, at least one pixel wide and high.
pub open spec fn clamped_region(r: ScreenRegion, w: u32, h: u32) -> Option<ScreenRegion> {
    if r.x >= w || r.y >= h {
        None
    } else {
        let max_w = w - r.x;
        let max_h = h - r.y;
        let width = if r.width < max_w { r.width as int } else { max_w };
        let height = if r.height < max_h { r.height as int } else { max_h };
        Some(ScreenRegion {
            x: r.x,
            y: r.y,
            width: (if width < 1 { 1 } else { width }) as u32,
            height: (if height < 1 { 1 } else { height }) as u32,
        })
    }
}

/// Region selector for screen capture.
pub struct RegionSelector {
    full_screen: ScreenRegion,
}

impl RegionSelector {
    /// The whole screen.
    pub closed spec fn screen_view(&self) -> ScreenRegion {
        self.full_screen
    }

    /// A selector for a screen of the given size.
    pub fn new(screen_width: u32, screen_height: u32) -> (r: Self)
        ensures
            r.screen_view() == (ScreenRegion { x: 0, y: 0, width: screen_width, height: screen_height }),
    {
        Self { full_screen: ScreenRegion { x: 0, y: 0, width: screen_width, height: screen_height } }
    }

    /// The region clamped to the screen; an error if it starts off the screen.
    pub fn validate_region(&self, region: ScreenRegion) -> (r: StreamResult<ScreenRegion>)
        ensures
            match clamped_region(region, self.screen_view().width, self.screen_view().height) {
                Some(c) => r matches Ok(v) && v == c,
                None => r matches Err(StreamError::Configuration(_)),
            },
    {
        if region.x >= self.full_screen.width || region.y >= self.full_screen.height {
            return Err(StreamError::configuration("Region is outside screen bounds"));
        }
        let x = if region.x < self.full_screen.width - 1 { region.x } else { self.full_screen.width - 1 };
        let y = if region.y < self.full_screen.height - 1 { region.y } else { self.full_screen.height - 1 };
        let max_width = self.full_screen.width - x;
        let max_height = self.full_screen.height - y;
        let w = if region.width < max_width { region.width } else { max_width };
        let h = if region.height < max_height { region.height } else { max_height };
        let width = if w < 1 { 1 } else { w };
        let height = if h < 1 { 1 } else { h };
        Ok(ScreenRegion { x, y, width, height })
    }

    /// A region of the given size centred on the screen; an error if it is
    /// larger than the screen.
    pub fn create_centered_region(&self, width: u32, height: u32) -> (r: StreamResult<ScreenRegion>)
        ensures
            match r {
                Ok(v) => width <= self.screen_view().width && height <= self.screen_view().height && v == (ScreenRegion {
                    x: ((self.screen_view().width - width) / 2) as u32,
                    y: ((self.screen_view().height - height) / 2) as u32,
                    width,
                    height,
                }),
                Err(e) => (width > self.screen_view().width || height > self.screen_view().height)
                    && e matches StreamError::Configuration(_),
            },
    {
        if width > self.full_screen.width || height > self.full_screen.height {
            return Err(StreamError::configuration("Region dimensions exceed screen size"));
        }
        let x = (self.full_screen.width - width) / 2;
        let y = (self.full_screen.height - height) / 2;
        Ok(ScreenRegion { x, y, width, height })
    }

    /// The whole screen.
    pub fn full_screen_region(&self) -> (r: ScreenRegion)
        ensures
            r == self.screen_view(),
    {
        self.full_screen
    }
}

/// Whether the point lies within the region.
pub open spec fn point_in_region(x: u32, y: u32, r: ScreenRegion) -> bool {
    r.x <= x < r.x + r.width && r.y <= y < r.y + r.height
}

/// Cursor capture handler.
pub struct CursorCapture {
    enabled: bool,
    cursor_position: Option<(u32, u32)>,
}

impl CursorCapture {
    /// Whether the cursor is captured.
    pub closed spec fn enabled_view(&self) -> bool {
        self.enabled
    }

    /// The last known cursor position.
    pub closed spec fn position_view(&self) -> Option<(u32, u32)> {
        self.cursor_position
    }

    /// A handler with no known cursor position.
    pub fn new(enabled: bool) -> (r: Self)
        ensures
            r.enabled_view() == enabled,
            r.position_view() is None,
    {
        Self { enabled, cursor_position: None }
    }

    /// Whether the cursor is captured.
    pub fn is_enabled(&self) -> (r: bool)
        ensures
            r == self.enabled_view(),
    {
        self.enabled
    }

    /// Switch cursor capture on or off.
    pub fn set_enabled(&mut self, enabled: bool)
        ensures
            final(self).enabled_view() == enabled,
            final(self).position_view() == old(self).position_view(),
    {
        self.enabled = enabled;
    }

    /// Record the cursor position.
    pub fn update_cursor_position(&mut self, x: u32, y: u32)
        ensures
            final(self).position_view() == Some((x, y)),
            final(self).enabled_view() == old(self).enabled_view(),
    {
        self.cursor_position = Some((x, y));
    }

    /// The last known cursor position.
    pub fn cursor_position(&self) -> (r: Option<(u32, u32)>)
        ensures
            r == self.position_view(),
    {
        self.cursor_position
    }

    /// Whether the cursor is known and within the region.
    pub fn is_cursor_in_region(&self, region: &ScreenRegion) -> (r: bool)
        ensures
            r == (self.position_view() matches Some((x, y)) && point_in_region(x, y, *region)),
    {
        match self.cursor_position {
            Some((x, y)) => {
                (x as u64) >= (region.x as u64) && (x as u64) < (region.x as u64) + (region.width as u64)
                    && (y as u64) >= (region.y as u64) && (y as u64) < (region.y as u64) + (region.height as u64)
            },
            None => false,
        }
    }
}

/// Resolution change detector.
pub struct ResolutionChangeDetector {
    current_resolution: Resolution,
    last_check_time: u64,
    check_interval_ms: u64,
}

impl ResolutionChangeDetector {
    /// The resolution in force.
    pub closed spec fn resolution_view(&self) -> Resolution {
        self.current_resolution
    }

    /// When unchanged checks were last counted, in milliseconds since the epoch.
    pub closed spec fn last_check_view(&self) -> u64 {
        self.last_check_time
    }

    /// Milliseconds between counted checks.
    pub closed spec fn interval_view(&self) -> u64 {
        self.check_interval_ms
    }

    /// A detector for `initial_resolution`, counting checks every second, made at `now` (ms).
    pub fn new_at(initial_resolution: Resolution, now: u64) -> (r: Self)
        ensures
            r.resolution_view() == initial_resolution,
            r.last_check_view() == now,
            r.interval_view() == 1000,
    {
        Self { current_resolution: initial_resolution, last_check_time: now, check_interval_ms: 1000 }
    }

    /// A detector for `initial_resolution`, counting checks every second.
    pub fn new(initial_resolution: Resolution) -> (r: Self)
        ensures
            r.resolution_view() == initial_resolution,
            r.interval_view() == 1000,
    {
        let now = unix_now_nanos() / 1_000_000;
        Self::new_at(initial_resolution, now)
    }

    /// Whether `new_resolution` differs from the one in force, seen at `now`
    /// (ms). A different resolution is reported at once and adopted; an
    /// unchanged one is counted as a check when the interval has passed.
    pub fn check_resolution_change_at(&mut self, new_resolution: Resolution, now: u64) -> (r: bool)
        ensures
            r == (old(self).resolution_view() != new_resolution),
            final(self).resolution_view() == new_resolution,
            final(self).interval_view() == old(self).interval_view(),
            final(self).last_check_view() == if r || (now >= old(self).last_check_view()
                && now - old(self).last_check_view() >= old(self).interval_view()) {
                now
            } else {
                old(self).last_check_view()
            },
    {
        let changed = self.current_resolution.width != new_resolution.width
            || self.current_resolution.height != new_resolution.height;
        if changed {
            self.current_resolution = new_resolution;
            self.last_check_time = now;
            return true;
        }
        if now >= self.last_check_time && now - self.last_check_time >= self.check_interval_ms {
            self.last_check_time = now;
        }
        false
    }

    /// Whether `new_resolution` differs from the one in force (see `check_resolution_change_at`).
    pub fn check_resolution_change(&mut self, new_resolution: Resolution) -> (r: bool)
        ensures
            r == (old(self).resolution_view() != new_resolution),
            final(self).resolution_view() == new_resolution,
            final(self).interval_view() == old(self).interval_view(),
    {
        let now = unix_now_nanos() / 1_000_000;
        self.check_resolution_change_at(new_resolution, now)
    }

    /// The resolution in force.
    pub fn current_resolution(&self) -> (r: Resolution)
        ensures
            r == self.resolution_view(),
    {
        self.current_resolution
    }

    /// Adopt a resolution.
    pub fn update_resolution(&mut self, resolution: Resolution)
        ensures
            final(self).resolution_view() == resolution,
            final(self).last_check_view() == old(self).last_check_view(),
            final(self).interval_view() == old(self).interval_view(),
    {
        self.current_resolution = resolution;
    }

    /// Count unchanged checks every `interval_ms` milliseconds.
    pub fn set_check_interval(&mut self, interval_ms: u64)
        ensures
            final(self).interval_view() == interval_ms,
            final(self).resolution_view() == old(self).resolution_view(),
            final(self).last_check_view() == old(self).last_check_view(),
    {
        self.check_interval_ms = interval_ms;
    }
}

/// Screen capture configuration optimizer.
pub struct CaptureConfigOptimizer;

impl CaptureConfigOptimizer {
    /// The configuration with the region's size as resolution, and the
    /// framerate capped at 30 for regions larger than 1920x1080 pixels.
    pub fn optimize_for_region(config: CaptureConfig, region: &ScreenRegion) -> (r: CaptureConfig)
        ensures
            r == (CaptureConfig {
                resolution: Resolution { width: region.width, height: region.height },
                framerate: if region.width * region.height > 1920 * 1080 && config.framerate > 30 {
                    30
                } else {
                    config.framerate
                },
                ..config
            }),
    {
        let mut optimized = config;
        if optimized.resolution.width != region.width || optimized.resolution.height != region.height {
            optimized.resolution = Resolution { width: region.width, height: region.height };
        }
        let w: u64 = region.width as u64;
        let h: u64 = region.height as u64;
        assert(w * h <= 0xffff_ffff * 0xffff_ffff) by (nonlinear_arith)
            requires
                w <= 0xffff_ffff,
                h <= 0xffff_ffff,
        ;
        let pixel_count: u64 = w * h;
        if pixel_count > 1920 * 1080 && optimized.framerate > 30 {
            optimized.framerate = 30;
        }
        optimized
    }

    /// The configuration tuned for speed: at most two buffers, NV12 pixels.
    pub fn optimize_for_performance(config: CaptureConfig) -> (r: CaptureConfig)
        ensures
            r == (CaptureConfig {
                buffer_count: if config.buffer_count < 2 { config.buffer_count } else { 2 },
                pixel_format: PixelFormat::NV12,
                ..config
            }),
    {
        let mut optimized = config;
        optimized.buffer_count = if optimized.buffer_count < 2 { optimized.buffer_count } else { 2 };
        optimized.pixel_format = PixelFormat::NV12;
        optimized
    }

    /// The configuration tuned for quality: at least four buffers, RGB24 pixels.
    pub fn optimize_for_quality(config: CaptureConfig) -> (r: CaptureConfig)
        ensures
            r == (CaptureConfig {
                buffer_count: if config.buffer_count > 4 { config.buffer_count } else { 4 },
                pixel_format: PixelFormat::RGB24,
                ..config
            }),
    {
        let mut optimized = config;
        optimized.buffer_count = if optimized.buffer_count > 4 { optimized.buffer_count } else { 4 };
        optimized.pixel_format = PixelFormat::RGB24;
        optimized
    }
}

} // verus!
