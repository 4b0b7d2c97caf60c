//! NVIDIA GPU telemetry through NVML (the `nvml-wrapper` crate).
//!
//! What NVML reports depends on the machine, its driver and the moment of the
//! call: the trusted items below promise nothing of their results, and the
//! functions that read them say what holds whatever came back.

use vstd::prelude::*;

use super::GpuInfo;

verus! {

#[verifier::external_type_specification]
#[verifier::external_body]
pub struct ExNvml(nvml_wrapper::Nvml);

#[verifier::external_type_specification]
#[verifier::external_body]
pub struct ExDevice<'nvml>(nvml_wrapper::Device<'nvml>);

#[verifier::external_type_specification]
#[verifier::external_body]
pub struct ExNvmlError(nvml_wrapper::error::NvmlError);

pub const BYTES_PER_MB: u64 = 1_048_576;

/// `nvml_wrapper::Nvml::init`: loads the NVML library and initializes it;
/// an error when there is no driver or library.
#[verifier::external_body]
fn nvml_init() -> Result<nvml_wrapper::Nvml, nvml_wrapper::error::NvmlError> {
    nvml_wrapper::Nvml::init()
}

/// `nvml_wrapper::Nvml::device_by_index`: the handle of the GPU with that index.
#[verifier::external_body]
fn nvml_device_by_index<'nvml>(nvml: &'nvml nvml_wrapper::Nvml, index: u32) -> Result<
    nvml_wrapper::Device<'nvml>,
    nvml_wrapper::error::NvmlError,
> {
    nvml.device_by_index(index)
}

/// `nvml_wrapper::Device::name`: the product name of the GPU.
#[verifier::external_body]
fn nvml_device_name(device: &nvml_wrapper::Device) -> Result<String, nvml_wrapper::error::NvmlError> {
    device.name()
}

/// `nvml_wrapper::Device::memory_info`: the GPU's installed and unallocated
/// memory in bytes, returned as `(total, free)`.
#[verifier::external_body]
fn nvml_device_memory(device: &nvml_wrapper::Device) -> Result<
    (u64, u64),
    nvml_wrapper::error::NvmlError,
> {
    device.memory_info().map(|m| (m.total, m.free))
}

/// The GPU description for a device name and its memory in bytes, the
/// memory converted to whole MiB (rounded down).
pub fn gpu_info_from_memory(name: String, total_bytes: u64, free_bytes: u64) -> (g: GpuInfo)
    ensures
        g.name@ == name@,
        g.vram_total_mb == total_bytes / BYTES_PER_MB,
        g.vram_free_mb == free_bytes / BYTES_PER_MB,
{
    GpuInfo { name, vram_total_mb: total_bytes / BYTES_PER_MB, vram_free_mb: free_bytes / BYTES_PER_MB }
}

/// Initializes NVML and returns a handle, `None` on any error.
/// Called once at startup; the handle is reused for later refreshes.
pub fn init_nvml() -> (handle: Option<nvml_wrapper::Nvml>) {
    match nvml_init() {
        Ok(nvml) => Some(nvml),
        Err(_) => None,
    }
}

/// Queries the first NVIDIA GPU through an existing NVML handle: `None`
/// without a handle or when any query fails; otherwise its name and its
/// memory in whole MiB.
pub fn query_with_handle(nvml: &Option<nvml_wrapper::Nvml>) -> (gpu: Option<GpuInfo>)
    ensures
        nvml is None ==> gpu is None,
        gpu matches Some(g) ==> g.vram_total_mb <= u64::MAX / BYTES_PER_MB && g.vram_free_mb
            <= u64::MAX / BYTES_PER_MB,
{
    let nvml = match nvml {
        Some(n) => n,
        None => return None,
    };
    let device = match nvml_device_by_index(nvml, 0) {
        Ok(d) => d,
        Err(_) => return None,
    };
    let name = match nvml_device_name(&device) {
        Ok(n) => n,
        Err(_) => return None,
    };
    let (total, free) = match nvml_device_memory(&device) {
        Ok(m) => m,
        Err(_) => return None,
    };
    Some(gpu_info_from_memory(name, total, free))
}

/// One-shot GPU query without a persistent handle (used for initial detection).
pub fn query() -> (gpu: Option<GpuInfo>)
    ensures
        gpu matches Some(g) ==> g.vram_total_mb <= u64::MAX / BYTES_PER_MB && g.vram_free_mb
            <= u64::MAX / BYTES_PER_MB,
{
    let nvml = match nvml_init() {
        Ok(n) => n,
        Err(_) => return None,
    };
    query_with_handle(&Some(nvml))
}

} // verus!
