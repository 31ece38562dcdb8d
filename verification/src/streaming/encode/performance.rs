//! Content-specific encoder tuning.

use vstd::prelude::*;
use crate::streaming::encode::encoder::HardwareAccelerator;
use crate::streaming::error::{StreamError, StreamResult};
use crate::streaming::types::{EncoderCapabilities, EncoderConfig, Resolution, VideoCodecType};

verus! {

/// The accelerator preferred among those available: NVENC, then
/// VideoToolbox, Quick Sync, VCE, and last the software encoder.
pub open spec fn preferred_of(s: Seq<HardwareAccelerator>) -> Option<HardwareAccelerator> {
    if s.contains(HardwareAccelerator::NVENC) {
        Some(HardwareAccelerator::NVENC)
    } else if s.contains(HardwareAccelerator::VideoToolbox) {
        Some(HardwareAccelerator::VideoToolbox)
    } else if s.contains(HardwareAccelerator::QuickSync) {
        Some(HardwareAccelerator::QuickSync)
    } else if s.contains(HardwareAccelerator::VCE) {
        Some(HardwareAccelerator::VCE)
    } else if s.contains(HardwareAccelerator::Software) {
        Some(HardwareAccelerator::Software)
    } else {
        None
    }
}

/// The first hardware (not software) accelerator of `s`, if any.
pub open spec fn first_hardware(s: Seq<HardwareAccelerator>) -> Option<HardwareAccelerator>
    decreases s.len(),
{
    if s.len() == 0 {
        None
    } else if s[0] != HardwareAccelerator::Software {
        Some(s[0])
    } else {
        first_hardware(s.drop_first())
    }
}

/// Whether a configuration calls for hardware encoding: 1920 pixels wide or
/// more, or 60 frames per second or more, with hardware acceleration asked for.
pub open spec fn wants_hardware(c: EncoderConfig) -> bool {
    (c.resolution.width >= 1920 || c.framerate >= 60) && c.hardware_acceleration
}

/// Encoder selector: picks an encoder among the accelerators found on the machine.
pub struct EncoderSelector {
    available_accelerators: Vec<HardwareAccelerator>,
    preferred_accelerator: Option<HardwareAccelerator>,
}

impl EncoderSelector {
    /// The accelerators available, in the order they were found.
    pub closed spec fn available_view(&self) -> Seq<HardwareAccelerator> {
        self.available_accelerators@
    }

    /// The accelerator preferred.
    pub closed spec fn preferred_view(&self) -> Option<HardwareAccelerator> {
        self.preferred_accelerator
    }

    /// A selector over the accelerators found, preferring NVENC, then
    /// VideoToolbox, Quick Sync, VCE and the software encoder.
    pub fn new(available_accelerators: Vec<HardwareAccelerator>) -> (r: StreamResult<Self>)
        ensures
            r matches Ok(sel) && sel.available_view() == available_accelerators@
                && sel.preferred_view() == preferred_of(available_accelerators@),
    {
        let preferred_accelerator = if Self::contains(&available_accelerators, HardwareAccelerator::NVENC) {
            Some(HardwareAccelerator::NVENC)
        } else if Self::contains(&available_accelerators, HardwareAccelerator::VideoToolbox) {
            Some(HardwareAccelerator::VideoToolbox)
        } else if Self::contains(&available_accelerators, HardwareAccelerator::QuickSync) {
            Some(HardwareAccelerator::QuickSync)
        } else if Self::contains(&available_accelerators, HardwareAccelerator::VCE) {
            Some(HardwareAccelerator::VCE)
        } else if Self::contains(&available_accelerators, HardwareAccelerator::Software) {
            Some(HardwareAccelerator::Software)
        } else {
            None
        };
        Ok(Self { available_accelerators, preferred_accelerator })
    }

    /// Whether `a` is among `v`.
    fn contains(v: &Vec<HardwareAccelerator>, a: HardwareAccelerator) -> (r: bool)
        ensures
            r == v@.contains(a),
    {
        let mut i: usize = 0;
        while i < v.len()
            invariant
                i <= v@.len(),
                forall|j: int| 0 <= j < i ==> v@[j] != a,
            decreases v@.len() - i,
        {
            if v[i] == a {
                return true;
            }
            i = i + 1;
        }
        false
    }

    /// The preferred encoder; an error when none is available.
    pub fn select_best_encoder(&self) -> (r: StreamResult<HardwareAccelerator>)
        ensures
            match self.preferred_view() {
                Some(a) => r matches Ok(b) && b == a,
                None => r matches Err(StreamError::Unsupported(_)),
            },
    {
        match self.preferred_accelerator {
            Some(a) => Ok(a),
            None => Err(StreamError::unsupported("No encoder available")),
        }
    }

    /// The encoder for a configuration: the first hardware accelerator found
    /// when the configuration calls for hardware encoding and one is
    /// available, otherwise the preferred one.
    pub fn select_encoder_for_config(&self, config: &EncoderConfig) -> (r: StreamResult<HardwareAccelerator>)
        ensures
            match (if wants_hardware(*config) { first_hardware(self.available_view()) } else { None }) {
                Some(h) => r matches Ok(b) && b == h,
                None => match self.preferred_view() {
                    Some(a) => r matches Ok(b) && b == a,
                    None => r matches Err(StreamError::Unsupported(_)),
                },
            },
    {
        let needs_hardware = config.resolution.width >= 1920 || config.framerate >= 60;
        if needs_hardware && config.hardware_acceleration {
            assert(self.available_view().skip(0) =~= self.available_view());
            let mut i: usize = 0;
            while i < self.available_accelerators.len()
                invariant
                    wants_hardware(*config),
                    i <= self.available_view().len(),
                    first_hardware(self.available_view()) == first_hardware(self.available_view().skip(i as int)),
                decreases self.available_view().len() - i,
            {
                let a = self.available_accelerators[i];
                proof {
                    let rest = self.available_view().skip(i as int);
                    assert(rest[0] == a);
                    assert(rest.drop_first() =~= self.available_view().skip(i as int + 1));
                }
                if a != HardwareAccelerator::Software {
                    proof {
                        assert(first_hardware(self.available_view().skip(i as int)) == Some(a));
                    }
                    return Ok(a);
                }
                i = i + 1;
            }
            proof {
                assert(self.available_view().skip(i as int).len() == 0);
            }
        }
        self.select_best_encoder()
    }

    /// The accelerators available.
    pub fn available_accelerators(&self) -> (r: &[HardwareAccelerator])
        ensures
            r@ == self.available_view(),
    {
        self.available_accelerators.as_slice()
    }

    /// Whether some hardware accelerator is available.
    pub fn has_hardware_acceleration(&self) -> (r: bool)
        ensures
            r == (first_hardware(self.available_view()) is Some),
            r == exists|i: int| 0 <= i < self.available_view().len()
                && #[trigger] self.available_view()[i] != HardwareAccelerator::Software,
    {
        assert(self.available_view().skip(0) =~= self.available_view());
        let mut i: usize = 0;
        while i < self.available_accelerators.len()
            invariant
                i <= self.available_view().len(),
                first_hardware(self.available_view()) == first_hardware(self.available_view().skip(i as int)),
                forall|j: int| 0 <= j < i ==> self.available_view()[j] == HardwareAccelerator::Software,
            decreases self.available_view().len() - i,
        {
            let a = self.available_accelerators[i];
            proof {
                let rest = self.available_view().skip(i as int);
                assert(rest[0] == a);
                assert(rest.drop_first() =~= self.available_view().skip(i as int + 1));
            }
            if a != HardwareAccelerator::Software {
                proof {
                    assert(first_hardware(self.available_view().skip(i as int)) == Some(a));
                    assert(self.available_view()[i as int] != HardwareAccelerator::Software);
                }
                return true;
            }
            i = i + 1;
        }
        proof {
            assert(self.available_view().skip(i as int).len() == 0);
        }
        false
    }

    /// What the encoder offers: H.264, up to 3840x2160 at 60 frames per
    /// second, with hardware acceleration when available.
    pub fn get_capabilities(&self) -> (r: EncoderCapabilities)
        ensures
            r.supported_codecs@ == seq![VideoCodecType::H264],
            r.hardware_acceleration_available == (first_hardware(self.available_view()) is Some),
            r.max_resolution == (Resolution { width: 3840, height: 2160 }),
            r.max_framerate == 60,
    {
        let hw = self.has_hardware_acceleration();
        let mut codecs: Vec<VideoCodecType> = Vec::new();
        codecs.push(VideoCodecType::H264);
        proof {
            assert(codecs@ =~= seq![VideoCodecType::H264]);
        }
        EncoderCapabilities {
            supported_codecs: codecs,
            hardware_acceleration_available: hw,
            max_resolution: Resolution { width: 3840, height: 2160 },
            max_framerate: 60,
        }
    }
}

/// Content type for encoding optimization.
#[derive(Clone, Copy, Debug, PartialEq, Eq, Structural)]
pub enum ContentType {
    /// Camera feed with natural motion.
    Camera,
    /// Screen content with text and UI.
    Screen,
    /// Gaming content with fast motion.
    Gaming,
    /// General purpose.
    General,
}

/// Seconds between keyframes for a content type.
pub open spec fn keyframe_seconds(c: ContentType) -> int {
    match c {
        ContentType::Camera => 3,
        ContentType::Screen => 5,
        ContentType::Gaming => 2,
        ContentType::General => 3,
    }
}

/// Quality factor (0 to 100) for a content type.
pub open spec fn quality_factor_for(c: ContentType) -> u32 {
    match c {
        ContentType::Camera => 70,
        ContentType::Screen => 85,
        ContentType::Gaming => 75,
        ContentType::General => 70,
    }
}

/// Encoder optimizer for content-specific parameter tuning.
pub struct EncoderOptimizer {
    content_type: ContentType,
}

impl EncoderOptimizer {
    /// The content type tuned for.
    pub closed spec fn content_view(&self) -> ContentType {
        self.content_type
    }

    /// An optimizer for the given content.
    pub fn new(content_type: ContentType) -> (r: Self)
        ensures
            r.content_view() == content_type,
    {
        Self { content_type }
    }

    /// Frames between keyframes at `framerate`: every two seconds for games,
    /// three for camera and general content, five for screens.
    pub fn recommended_keyframe_interval(&self, framerate: u32) -> (r: u32)
        requires
            framerate * keyframe_seconds(self.content_view()) <= u32::MAX,
        ensures
            r == framerate * keyframe_seconds(self.content_view()),
    {
        match self.content_type {
            ContentType::Camera => framerate * 3,
            ContentType::Screen => framerate * 5,
            ContentType::Gaming => framerate * 2,
            ContentType::General => framerate * 3,
        }
    }

    /// The quality factor for the content: higher for screens, for the text.
    pub fn recommended_quality_factor(&self) -> (r: u32)
        ensures
            r == quality_factor_for(self.content_view()),
    {
        match self.content_type {
            ContentType::Camera => 70,
            ContentType::Screen => 85,
            ContentType::Gaming => 75,
            ContentType::General => 70,
        }
    }

    /// Tune for another content type.
    pub fn set_content_type(&mut self, content_type: ContentType)
        ensures
            final(self).content_view() == content_type,
    {
        self.content_type = content_type;
    }

    /// The content type tuned for.
    pub fn content_type(&self) -> (r: ContentType)
        ensures
            r == self.content_view(),
    {
        self.content_type
    }
}

impl Default for EncoderOptimizer {
    fn default() -> (r: Self)
        ensures
            r.content_view() == ContentType::General,
    {
        Self::new(ContentType::General)
    }
}

} // verus!
