//! CPU feature flags, performance counter values, and the frontend's
//! performance interface as the set of entry points it provides.

use crate::flags::{BitFlags, FlagBit};
use crate::raw::{RETRO_SIMD_SSE, RETRO_SIMD_SSE2, RETRO_SIMD_VMX, RETRO_SIMD_VMX128, RETRO_SIMD_AVX, RETRO_SIMD_NEON, RETRO_SIMD_SSE3, RETRO_SIMD_SSSE3, RETRO_SIMD_MMX, RETRO_SIMD_MMXEXT, RETRO_SIMD_SSE4, RETRO_SIMD_SSE42, RETRO_SIMD_AVX2, RETRO_SIMD_VFPU, RETRO_SIMD_PS, RETRO_SIMD_AES, RETRO_SIMD_VFPV3, RETRO_SIMD_VFPV4, RETRO_SIMD_POPCNT, RETRO_SIMD_MOVBE, RETRO_SIMD_CMOV, RETRO_SIMD_ASIMD};
use vstd::prelude::*;

verus! {

/// A SIMD or CPU feature the frontend can report (`RETRO_SIMD_*`).
#[derive(Clone, Copy, Debug, PartialEq, Eq, Hash, Structural)]
pub enum CpuFeature {
    Sse,
    Sse2,
    Vmx,
    Vmx128,
    Avx,
    Neon,
    Sse3,
    Ssse3,
    Mmx,
    MmxExt,
    Sse4,
    Sse42,
    Avx2,
    Vfpu,
    Ps,
    Aes,
    Vfpv3,
    Vfpv4,
    Popcnt,
    Movbe,
    Cmov,
    Asimd,
}

impl FlagBit for CpuFeature {
    open spec fn spec_bit(self) -> u64 {
        match self {
            CpuFeature::Sse => RETRO_SIMD_SSE,
            CpuFeature::Sse2 => RETRO_SIMD_SSE2,
            CpuFeature::Vmx => RETRO_SIMD_VMX,
            CpuFeature::Vmx128 => RETRO_SIMD_VMX128,
            CpuFeature::Avx => RETRO_SIMD_AVX,
            CpuFeature::Neon => RETRO_SIMD_NEON,
            CpuFeature::Sse3 => RETRO_SIMD_SSE3,
            CpuFeature::Ssse3 => RETRO_SIMD_SSSE3,
            CpuFeature::Mmx => RETRO_SIMD_MMX,
            CpuFeature::MmxExt => RETRO_SIMD_MMXEXT,
            CpuFeature::Sse4 => RETRO_SIMD_SSE4,
            CpuFeature::Sse42 => RETRO_SIMD_SSE42,
            CpuFeature::Avx2 => RETRO_SIMD_AVX2,
            CpuFeature::Vfpu => RETRO_SIMD_VFPU,
            CpuFeature::Ps => RETRO_SIMD_PS,
            CpuFeature::Aes => RETRO_SIMD_AES,
            CpuFeature::Vfpv3 => RETRO_SIMD_VFPV3,
            CpuFeature::Vfpv4 => RETRO_SIMD_VFPV4,
            CpuFeature::Popcnt => RETRO_SIMD_POPCNT,
            CpuFeature::Movbe => RETRO_SIMD_MOVBE,
            CpuFeature::Cmov => RETRO_SIMD_CMOV,
            CpuFeature::Asimd => RETRO_SIMD_ASIMD,
        }
    }

    open spec fn spec_all_bits() -> u64 {
        0x3f_ffff
    }

    fn bit(self) -> (b: u64) {
        match self {
            CpuFeature::Sse => RETRO_SIMD_SSE,
            CpuFeature::Sse2 => RETRO_SIMD_SSE2,
            CpuFeature::Vmx => RETRO_SIMD_VMX,
            CpuFeature::Vmx128 => RETRO_SIMD_VMX128,
            CpuFeature::Avx => RETRO_SIMD_AVX,
            CpuFeature::Neon => RETRO_SIMD_NEON,
            CpuFeature::Sse3 => RETRO_SIMD_SSE3,
            CpuFeature::Ssse3 => RETRO_SIMD_SSSE3,
            CpuFeature::Mmx => RETRO_SIMD_MMX,
            CpuFeature::MmxExt => RETRO_SIMD_MMXEXT,
            CpuFeature::Sse4 => RETRO_SIMD_SSE4,
            CpuFeature::Sse42 => RETRO_SIMD_SSE42,
            CpuFeature::Avx2 => RETRO_SIMD_AVX2,
            CpuFeature::Vfpu => RETRO_SIMD_VFPU,
            CpuFeature::Ps => RETRO_SIMD_PS,
            CpuFeature::Aes => RETRO_SIMD_AES,
            CpuFeature::Vfpv3 => RETRO_SIMD_VFPV3,
            CpuFeature::Vfpv4 => RETRO_SIMD_VFPV4,
            CpuFeature::Popcnt => RETRO_SIMD_POPCNT,
            CpuFeature::Movbe => RETRO_SIMD_MOVBE,
            CpuFeature::Cmov => RETRO_SIMD_CMOV,
            CpuFeature::Asimd => RETRO_SIMD_ASIMD,
        }
    }

    fn all_bits() -> (m: u64) {
        0x3f_ffff
    }
}

/// A set of CPU features.
pub type CpuFeatures = BitFlags<CpuFeature>;

/// A reading of the frontend's tick counter.
#[derive(Clone, Copy, Debug, Default, PartialEq, Eq, PartialOrd, Ord, Hash, Structural)]
pub struct PerfTick(u64);

impl View for PerfTick {
    type V = u64;

    closed spec fn view(&self) -> u64 {
        self.0
    }
}

impl PerfTick {
    /// A value is determined by its view: two values are equal exactly
    /// when their views are.
    pub proof fn lemma_view_injective(a: Self, b: Self)
        ensures
            a@ == b@ <==> a == b,
    {
    }
}

impl PerfTick {
    pub fn from_ticks(ticks: u64) -> (tick: Self)
        ensures
            tick@ == ticks,
    {
        PerfTick(ticks)
    }

    pub fn as_ticks(self) -> (ticks: u64)
        ensures
            ticks == self@,
    {
        self.0
    }
}

/// A reading of the frontend's microsecond clock.
#[derive(Clone, Copy, Debug, Default, PartialEq, Eq, PartialOrd, Ord, Hash, Structural)]
pub struct PerfTimeMicros(i64);

impl View for PerfTimeMicros {
    type V = i64;

    closed spec fn view(&self) -> i64 {
        self.0
    }
}

impl PerfTimeMicros {
    /// A value is determined by its view: two values are equal exactly
    /// when their views are.
    pub proof fn lemma_view_injective(a: Self, b: Self)
        ensures
            a@ == b@ <==> a == b,
    {
    }
}

impl PerfTimeMicros {
    pub fn from_micros(micros: i64) -> (time: Self)
        ensures
            time@ == micros,
    {
        PerfTimeMicros(micros)
    }

    pub fn as_micros(self) -> (micros: i64)
        ensures
            micros == self@,
    {
        self.0
    }
}

/// The frontend's performance interface: which of its entry points it
/// provides.
#[derive(Clone, Copy, Debug, Default, PartialEq, Eq, Structural)]
pub struct PerfInterface {
    pub get_time_usec: bool,
    pub get_cpu_features: bool,
    pub get_perf_counter: bool,
    pub perf_register: bool,
    pub perf_start: bool,
    pub perf_stop: bool,
    pub perf_log: bool,
}

} // verus!
