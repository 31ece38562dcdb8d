//! Architecture-specific tuning for x64 and ARM64.

use vstd::prelude::*;
use crate::platform::PlatformResult;

verus! {

/// Windows architecture.
#[derive(Clone, Copy, Debug, PartialEq, Eq, Structural)]
pub enum WindowsArchitecture {
    X64,
    ARM64,
    X86,
    Unknown,
}

/// CPU features an architecture may offer.
#[derive(Clone, Copy, Debug, PartialEq, Eq, Structural)]
pub enum ArchitectureFeature {
    SIMD,
    AVX,
    NEON,
    HardwareAES,
}

/// The name of an architecture.
pub open spec fn architecture_name(a: WindowsArchitecture) -> Seq<char> {
    match a {
        WindowsArchitecture::X64 => "x64"@,
        WindowsArchitecture::ARM64 => "ARM64"@,
        WindowsArchitecture::X86 => "x86"@,
        WindowsArchitecture::Unknown => "unknown"@,
    }
}

/// Whether an architecture offers a feature: SIMD and hardware AES on x64
/// and ARM64, AVX on x64, NEON on ARM64.
pub open spec fn offers(a: WindowsArchitecture, f: ArchitectureFeature) -> bool {
    match f {
        ArchitectureFeature::SIMD => a is X64 || a is ARM64,
        ArchitectureFeature::AVX => a is X64,
        ArchitectureFeature::NEON => a is ARM64,
        ArchitectureFeature::HardwareAES => a is X64 || a is ARM64,
    }
}

impl WindowsArchitecture {
    /// The name of the architecture.
    pub fn as_str(&self) -> (r: &str)
        ensures
            r@ == architecture_name(*self),
    {
        proof {
            reveal_strlit("x64");
            reveal_strlit("ARM64");
            reveal_strlit("x86");
            reveal_strlit("unknown");
        }
        match self {
            WindowsArchitecture::X64 => "x64",
            WindowsArchitecture::ARM64 => "ARM64",
            WindowsArchitecture::X86 => "x86",
            WindowsArchitecture::Unknown => "unknown",
        }
    }

    /// Whether the architecture offers a feature.
    pub fn supports_feature(&self, feature: ArchitectureFeature) -> (r: bool)
        ensures
            r == offers(*self, feature),
    {
        match feature {
            ArchitectureFeature::SIMD => match self {
                WindowsArchitecture::X64 | WindowsArchitecture::ARM64 => true,
                _ => false,
            },
            ArchitectureFeature::AVX => match self {
                WindowsArchitecture::X64 => true,
                _ => false,
            },
            ArchitectureFeature::NEON => match self {
                WindowsArchitecture::ARM64 => true,
                _ => false,
            },
            ArchitectureFeature::HardwareAES => match self {
                WindowsArchitecture::X64 | WindowsArchitecture::ARM64 => true,
                _ => false,
            },
        }
    }
}

/// Architecture-specific optimization settings.
#[derive(Clone, Copy, Debug, PartialEq, Eq, Structural)]
pub struct OptimizationConfig {
    pub use_simd: bool,
    pub use_avx: bool,
    pub use_neon: bool,
    pub use_hardware_aes: bool,
    pub thread_pool_size: usize,
    pub power_efficient: bool,
}

/// No special instructions, two threads, no power saving.
pub open spec fn default_optimizations() -> OptimizationConfig {
    OptimizationConfig {
        use_simd: false,
        use_avx: false,
        use_neon: false,
        use_hardware_aes: false,
        thread_pool_size: 2,
        power_efficient: false,
    }
}

impl Default for OptimizationConfig {
    fn default() -> (r: Self)
        ensures
            r == default_optimizations(),
    {
        Self {
            use_simd: false,
            use_avx: false,
            use_neon: false,
            use_hardware_aes: false,
            thread_pool_size: 2,
            power_efficient: false,
        }
    }
}

/// Recommended buffer sizes, in bytes.
#[derive(Clone, Copy, Debug, PartialEq, Eq, Structural)]
pub struct BufferSizes {
    pub network_buffer: usize,
    pub file_buffer: usize,
    pub crypto_buffer: usize,
}

/// The settings for an architecture with `cpus` processors.
pub open spec fn optimizations_for(a: WindowsArchitecture, cpus: usize) -> OptimizationConfig {
    match a {
        WindowsArchitecture::X64 => OptimizationConfig {
            use_simd: true,
            use_avx: true,
            use_hardware_aes: true,
            thread_pool_size: cpus,
            ..default_optimizations()
        },
        WindowsArchitecture::ARM64 => OptimizationConfig {
            use_simd: true,
            use_neon: true,
            use_hardware_aes: true,
            thread_pool_size: cpus,
            power_efficient: true,
            ..default_optimizations()
        },
        WindowsArchitecture::X86 => OptimizationConfig {
            use_simd: false,
            thread_pool_size: if cpus < 4 { cpus } else { 4 },
            ..default_optimizations()
        },
        WindowsArchitecture::Unknown => OptimizationConfig { thread_pool_size: 2, ..default_optimizations() },
    }
}

/// The buffer sizes for an architecture.
pub open spec fn buffer_sizes_for(a: WindowsArchitecture) -> BufferSizes {
    match a {
        WindowsArchitecture::X64 => BufferSizes { network_buffer: 65536, file_buffer: 131072, crypto_buffer: 16384 },
        WindowsArchitecture::ARM64 => BufferSizes { network_buffer: 32768, file_buffer: 65536, crypto_buffer: 8192 },
        _ => BufferSizes { network_buffer: 16384, file_buffer: 32768, crypto_buffer: 4096 },
    }
}

/// The feature names of an architecture, in the order SIMD, AVX, NEON, AES-NI.
pub open spec fn feature_names(a: WindowsArchitecture) -> Seq<Seq<char>> {
    let s0: Seq<Seq<char>> = if offers(a, ArchitectureFeature::SIMD) { seq!["SIMD"@] } else { seq![] };
    let s1 = if offers(a, ArchitectureFeature::AVX) { s0.push("AVX"@) } else { s0 };
    let s2 = if offers(a, ArchitectureFeature::NEON) { s1.push("NEON"@) } else { s1 };
    if offers(a, ArchitectureFeature::HardwareAES) { s2.push("AES-NI"@) } else { s2 }
}

/// Architecture-specific optimization manager.
pub struct ArchitectureOptimizer {
    architecture: WindowsArchitecture,
    cpu_count: usize,
}

impl ArchitectureOptimizer {
    /// The architecture tuned for.
    pub closed spec fn architecture_view(&self) -> WindowsArchitecture {
        self.architecture
    }

    /// The number of processors.
    pub closed spec fn cpu_view(&self) -> usize {
        self.cpu_count
    }

    /// An optimizer for a detected architecture with `cpu_count` processors.
    pub fn with_architecture(architecture: WindowsArchitecture, cpu_count: usize) -> (r: Self)
        ensures
            r.architecture_view() == architecture,
            r.cpu_view() == cpu_count,
    {
        Self { architecture, cpu_count }
    }

    /// The architecture tuned for.
    pub fn architecture(&self) -> (r: &WindowsArchitecture)
        ensures
            *r == self.architecture_view(),
    {
        &self.architecture
    }

    /// The settings for the architecture: vector instructions and hardware
    /// AES on x64 and ARM64 (with power saving on ARM64) and one thread per
    /// processor; at most four threads on x86; two threads otherwise.
    pub fn apply_optimizations(&self) -> (r: PlatformResult<OptimizationConfig>)
        ensures
            r matches Ok(c) && c == optimizations_for(self.architecture_view(), self.cpu_view()),
    {
        let mut config = OptimizationConfig::default();
        match self.architecture {
            WindowsArchitecture::X64 => {
                config.use_simd = true;
                config.use_avx = true;
                config.use_hardware_aes = true;
                config.thread_pool_size = self.cpu_count;
            },
            WindowsArchitecture::ARM64 => {
                config.use_simd = true;
                config.use_neon = true;
                config.use_hardware_aes = true;
                config.thread_pool_size = self.cpu_count;
                config.power_efficient = true;
            },
            WindowsArchitecture::X86 => {
                config.use_simd = false;
                config.thread_pool_size = if self.cpu_count < 4 { self.cpu_count } else { 4 };
            },
            WindowsArchitecture::Unknown => {
                config.thread_pool_size = 2;
            },
        }
        Ok(config)
    }

    /// The recommended buffer sizes for the architecture.
    pub fn get_buffer_sizes(&self) -> (r: BufferSizes)
        ensures
            r == buffer_sizes_for(self.architecture_view()),
    {
        match self.architecture {
            WindowsArchitecture::X64 => BufferSizes { network_buffer: 65536, file_buffer: 131072, crypto_buffer: 16384 },
            WindowsArchitecture::ARM64 => BufferSizes { network_buffer: 32768, file_buffer: 65536, crypto_buffer: 8192 },
            _ => BufferSizes { network_buffer: 16384, file_buffer: 32768, crypto_buffer: 4096 },
        }
    }

    /// The names of the CPU features of the architecture.
    pub fn get_cpu_features(&self) -> (r: Vec<String>)
        ensures
            r@.len() == feature_names(self.architecture_view()).len(),
            forall|i: int| 0 <= i < r@.len() ==> #[trigger] r@[i]@ == feature_names(self.architecture_view())[i],
    {
        let mut features: Vec<String> = Vec::new();
        let ghost a = self.architecture;
        let ghost mut names: Seq<Seq<char>> = Seq::empty();
        if self.architecture.supports_feature(ArchitectureFeature::SIMD) {
            features.push(String::from_str("SIMD"));
            proof {
                names = names.push("SIMD"@);
            }
        }
        if self.architecture.supports_feature(ArchitectureFeature::AVX) {
            features.push(String::from_str("AVX"));
            proof {
                names = names.push("AVX"@);
            }
        }
        if self.architecture.supports_feature(ArchitectureFeature::NEON) {
            features.push(String::from_str("NEON"));
            proof {
                names = names.push("NEON"@);
            }
        }
        if self.architecture.supports_feature(ArchitectureFeature::HardwareAES) {
            features.push(String::from_str("AES-NI"));
            proof {
                names = names.push("AES-NI"@);
            }
        }
        proof {
            assert(names =~= feature_names(a));
            assert forall|i: int| 0 <= i < features@.len() implies #[trigger] features@[i]@ == feature_names(a)[i] by {
                assert(features@.len() == names.len());
            }
        }
        features
    }
}

impl Default for ArchitectureOptimizer {
    /// An optimizer for an unknown architecture with four processors, as
    /// used when the architecture cannot be detected.
    fn default() -> (r: Self)
        ensures
            r.architecture_view() == WindowsArchitecture::Unknown,
            r.cpu_view() == 4,
    {
        Self::with_architecture(WindowsArchitecture::Unknown, 4)
    }
}

} // verus!
