use llama_specs::hardware::gpu::{gpu_info_from_memory, init_nvml, query, query_with_handle};
use llama_specs::hardware::ram::{query as ram_query, ram_from_bytes};
use llama_specs::hardware::{Arch, GpuInfo, HardwareInfo};

#[test]
fn arch_detection() {
    assert_eq!(Arch::detect("x86_64"), Arch::X86_64);
    assert_eq!(Arch::detect("aarch64"), Arch::Arm);
    assert_eq!(Arch::detect("arm"), Arch::Arm);
    assert_eq!(Arch::detect("riscv64"), Arch::Other);
    assert_eq!(Arch::detect("x86"), Arch::Other);
}

#[test]
fn arch_labels() {
    assert_eq!(Arch::X86_64.label(), "x86_64");
    assert_eq!(Arch::Arm.label(), "ARM");
    assert_eq!(Arch::Other.label(), "Unknown");
}

#[test]
fn gpu_memory_in_mib() {
    let g = gpu_info_from_memory("RTX".to_string(), 25_769_803_776, 1_048_575);
    assert_eq!(g.name, "RTX");
    assert_eq!(g.vram_total_mb, 24_576);
    assert_eq!(g.vram_free_mb, 0);
}

#[test]
fn ram_in_mib() {
    assert_eq!(ram_from_bytes(17_179_869_184, 3_145_728), (16_384, 3));
}

#[test]
fn no_gpu_without_handle() {
    assert!(query_with_handle(&None).is_none());
}

#[test]
fn gpu_query_is_bounded() {
    // Whatever this machine has, the figures are whole MiB of a 64-bit count.
    let handle = init_nvml();
    for g in [query(), query_with_handle(&handle)].into_iter().flatten() {
        assert!(g.vram_total_mb <= u64::MAX / 1_048_576);
        assert!(g.vram_free_mb <= u64::MAX / 1_048_576);
    }
}

#[test]
fn ram_query_reads_the_system() {
    let mut sys = sysinfo::System::new();
    let (total, avail) = ram_query(&mut sys);
    assert!(total <= u64::MAX / 1_048_576);
    assert!(avail <= u64::MAX / 1_048_576);
}

#[test]
fn refreshes_keep_what_they_do_not_read() {
    let mut sys = sysinfo::System::new();
    let mut hw = HardwareInfo::detect(&mut sys, "aarch64");
    assert_eq!(hw.arch, Arch::Arm);
    hw.gpu = Some(GpuInfo { name: "G".to_string(), vram_total_mb: 8, vram_free_mb: 4 });
    hw.refresh_ram(&mut sys);
    assert_eq!(hw.arch, Arch::Arm);
    assert_eq!(hw.gpu.as_ref().map(|g| g.vram_free_mb), Some(4));
    let (t, a) = (hw.ram_total_mb, hw.ram_available_mb);
    hw.refresh_gpu(&None);
    assert!(hw.gpu.is_none());
    assert_eq!((hw.ram_total_mb, hw.ram_available_mb), (t, a));
}
