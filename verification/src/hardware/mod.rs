use vstd::prelude::*;

use crate::text::{chars_eq, chars_of};

pub mod gpu;
pub mod ram;

verus! {

/// Handle to the NVML context (NVIDIA Management Library), when it loaded.
pub type NvmlHandle = Option<nvml_wrapper::Nvml>;

/// System architecture.
#[derive(Debug, Clone, Copy, PartialEq, Eq, Structural)]
pub enum Arch {
    X86_64,
    Arm,
    Other,
}

/// NVIDIA GPU information, in MiB.
#[derive(Debug, Clone)]
pub struct GpuInfo {
    pub name: String,
    pub vram_total_mb: u64,
    pub vram_free_mb: u64,
}

/// Snapshot of the system's hardware state, in MiB.
#[derive(Debug, Clone)]
pub struct HardwareInfo {
    pub ram_total_mb: u64,
    pub ram_available_mb: u64,
    pub gpu: Option<GpuInfo>,
    pub arch: Arch,
}


/// The architecture that a target architecture name (such as Rust's
/// `std::env::consts::ARCH`) denotes.
pub open spec fn arch_of(name: Seq<char>) -> Arch {
    if name == "x86_64"@ {
        Arch::X86_64
    } else if name == "aarch64"@ || name == "arm"@ {
        Arch::Arm
    } else {
        Arch::Other
    }
}

pub open spec fn arch_label(a: Arch) -> Seq<char> {
    match a {
        Arch::X86_64 => "x86_64"@,
        Arch::Arm => "ARM"@,
        Arch::Other => "Unknown"@,
    }
}

impl Arch {
    /// The architecture for a target architecture name: "x86_64", or
    /// "aarch64"/"arm", or any other.
    pub fn detect(arch_name: &str) -> (a: Arch)
        ensures
            a == arch_of(arch_name@),
    {
        let name = chars_of(arch_name);
        if chars_eq(&name, &chars_of("x86_64")) {
            Arch::X86_64
        } else if chars_eq(&name, &chars_of("aarch64")) || chars_eq(&name, &chars_of("arm")) {
            Arch::Arm
        } else {
            Arch::Other
        }
    }

    /// The name under which the architecture is shown.
    pub fn label(&self) -> (s: &'static str)
        ensures
            s@ == arch_label(*self),
    {
        match self {
            Arch::X86_64 => "x86_64",
            Arch::Arm => "ARM",
            Arch::Other => "Unknown",
        }
    }
}

/// The system and NVML handles kept between hardware refreshes.
pub struct HardwareProbes {
    sys: sysinfo::System,
    nvml: NvmlHandle,
}

impl HardwareProbes {
    /// The system handle through which RAM figures are refreshed.
    pub closed spec fn system(self) -> sysinfo::System {
        self.sys
    }

    /// The NVML handle through which GPU figures are refreshed.
    pub closed spec fn nvml(self) -> NvmlHandle {
        self.nvml
    }

    /// Keeps the given system and NVML handles for later refreshes.
    pub fn new(sys: sysinfo::System, nvml: NvmlHandle) -> (probes: Self)
        ensures
            probes.system() == sys,
            probes.nvml() == nvml,
    {
        HardwareProbes { sys, nvml }
    }
}

impl HardwareInfo {
    /// Performs the initial hardware detection: RAM through `sys`, the first
    /// NVIDIA GPU if NVML finds one (errors mean no GPU), and the architecture
    /// named `arch_name`.
    pub fn detect(sys: &mut sysinfo::System, arch_name: &str) -> (hw: HardwareInfo)
        ensures
            hw.arch == arch_of(arch_name@),
            hw.ram_total_mb <= u64::MAX / ram::BYTES_PER_MB,
            hw.ram_available_mb <= u64::MAX / ram::BYTES_PER_MB,
    {
        let (ram_total_mb, ram_available_mb) = ram::query(sys);
        let gpu = gpu::query();
        let arch = Arch::detect(arch_name);
        HardwareInfo { ram_total_mb, ram_available_mb, gpu, arch }
    }

    /// Refreshes the RAM figures from `sys`; the GPU and architecture are kept.
    pub fn refresh_ram(&mut self, sys: &mut sysinfo::System)
        ensures
            final(self).gpu == old(self).gpu,
            final(self).arch == old(self).arch,
            final(self).ram_total_mb <= u64::MAX / ram::BYTES_PER_MB,
            final(self).ram_available_mb <= u64::MAX / ram::BYTES_PER_MB,
    {
        let (total, avail) = ram::query(sys);
        self.ram_total_mb = total;
        self.ram_available_mb = avail;
    }

    /// Refreshes the GPU figures through the NVML handle (none without one);
    /// the RAM figures and architecture are kept.
    pub fn refresh_gpu(&mut self, nvml: &NvmlHandle)
        ensures
            final(self).ram_total_mb == old(self).ram_total_mb,
            final(self).ram_available_mb == old(self).ram_available_mb,
            final(self).arch == old(self).arch,
            nvml is None ==> final(self).gpu is None,
    {
        self.gpu = gpu::query_with_handle(nvml);
    }
}

impl HardwareInfo {
    /// Refreshes the RAM and GPU figures through the kept handles; the
    /// architecture is kept.
    pub fn refresh(&mut self, probes: &mut HardwareProbes)
        ensures
            final(self).arch == old(self).arch,
            final(self).ram_total_mb <= u64::MAX / ram::BYTES_PER_MB,
            final(self).ram_available_mb <= u64::MAX / ram::BYTES_PER_MB,
            final(probes).nvml() == old(probes).nvml(),
            old(probes).nvml() is None ==> final(self).gpu is None,
    {
        self.refresh_ram(&mut probes.sys);
        self.refresh_gpu(&probes.nvml);
    }
}

} // verus!
