//! Hardware acceleration kinds for H.264 encoding.

use vstd::prelude::*;

verus! {

/// Hardware acceleration types.
#[derive(Clone, Copy, Debug, PartialEq, Eq, Structural)]
pub enum HardwareAccelerator {
    /// NVIDIA NVENC.
    NVENC,
    /// Intel Quick Sync Video.
    QuickSync,
    /// AMD VCE (Video Coding Engine).
    VCE,
    /// Apple VideoToolbox.
    VideoToolbox,
    /// Software fallback.
    Software,
}

/// The name of the encoder element that drives an accelerator.
pub open spec fn element_name_of(a: HardwareAccelerator) -> Seq<char> {
    match a {
        HardwareAccelerator::NVENC => "nvh264enc"@,
        HardwareAccelerator::QuickSync => "mfh264enc"@,
        HardwareAccelerator::VCE => "vaapih264enc"@,
        HardwareAccelerator::VideoToolbox => "vtenc_h264"@,
        HardwareAccelerator::Software => "x264enc"@,
    }
}

impl HardwareAccelerator {
    /// The name of the encoder element that drives this accelerator.
    pub fn element_name(&self) -> (r: &'static str)
        ensures
            r@ == element_name_of(*self),
    {
        proof {
            reveal_strlit("nvh264enc");
            reveal_strlit("mfh264enc");
            reveal_strlit("vaapih264enc");
            reveal_strlit("vtenc_h264");
            reveal_strlit("x264enc");
        }
        match self {
            HardwareAccelerator::NVENC => "nvh264enc",
            HardwareAccelerator::QuickSync => "mfh264enc",
            HardwareAccelerator::VCE => "vaapih264enc",
            HardwareAccelerator::VideoToolbox => "vtenc_h264",
            HardwareAccelerator::Software => "x264enc",
        }
    }
}

} // verus!
