use llama_specs::hardware::{Arch, GpuInfo, HardwareInfo};
use llama_specs::models::compat::{estimate_mb, evaluate, params_known};
use llama_specs::models::{CompatResult, ModelEntry, Verdict};

fn model(param_count: u64) -> ModelEntry {
    ModelEntry {
        name: "m".to_string(),
        param_count,
        family: "M".to_string(),
        description: String::new(),
    }
}

fn hw(ram_available_mb: u64, vram_free_mb: Option<u64>) -> HardwareInfo {
    HardwareInfo {
        ram_total_mb: 65_536,
        ram_available_mb,
        gpu: vram_free_mb.map(|free| GpuInfo {
            name: "GPU".to_string(),
            vram_total_mb: 24_576,
            vram_free_mb: free,
        }),
        arch: Arch::X86_64,
    }
}

const EIGHT_B: u64 = 8_000_000_000;

#[test]
fn estimate_follows_the_formula() {
    // (8e9 × 4 / 8) × 1.25 bytes = 5e9 bytes = 4768.37 MiB.
    assert_eq!(estimate_mb(&model(EIGHT_B)), 4768);
    // 70B: 43.75e9 bytes = 41723.2 MiB.
    assert_eq!(estimate_mb(&model(70_000_000_000)), 41723);
    assert_eq!(estimate_mb(&model(0)), 0);
    // The largest count does not overflow.
    assert_eq!(estimate_mb(&model(u64::MAX)), 10_995_116_277_759);
}

#[test]
fn params_known_iff_positive() {
    assert!(params_known(&model(1)));
    assert!(!params_known(&model(0)));
}

#[test]
fn unknown_size_has_no_verdict() {
    assert_eq!(evaluate(&model(0), &hw(100_000, Some(100_000))), None);
}

#[test]
fn optimal_when_it_fits_in_vram() {
    let r = evaluate(&model(EIGHT_B), &hw(1_000, Some(6_000))).unwrap();
    assert_eq!(
        r,
        CompatResult { verdict: Verdict::Optimal, estimated_mb: 4768, vram_used_mb: 4768, ram_used_mb: 0 }
    );
}

#[test]
fn hybrid_when_it_needs_vram_and_ram() {
    let r = evaluate(&model(EIGHT_B), &hw(4_000, Some(2_000))).unwrap();
    assert_eq!(
        r,
        CompatResult { verdict: Verdict::Hybrid, estimated_mb: 4768, vram_used_mb: 2_000, ram_used_mb: 2_768 }
    );
    // Exactly VRAM + RAM still fits.
    let r = evaluate(&model(EIGHT_B), &hw(2_768, Some(2_000))).unwrap();
    assert_eq!(r.verdict, Verdict::Hybrid);
}

#[test]
fn slow_without_a_gpu() {
    let r = evaluate(&model(EIGHT_B), &hw(8_000, None)).unwrap();
    assert_eq!(
        r,
        CompatResult { verdict: Verdict::Slow, estimated_mb: 4768, vram_used_mb: 0, ram_used_mb: 4768 }
    );
}

#[test]
fn incompatible_when_it_exceeds_everything() {
    let r = evaluate(&model(EIGHT_B), &hw(2_767, Some(2_000))).unwrap();
    assert_eq!(
        r,
        CompatResult { verdict: Verdict::Incompatible, estimated_mb: 4768, vram_used_mb: 0, ram_used_mb: 0 }
    );
    let r = evaluate(&model(EIGHT_B), &hw(4_767, None)).unwrap();
    assert_eq!(r.verdict, Verdict::Incompatible);
}

#[test]
fn gpu_present_prefers_hybrid_over_slow() {
    // With a GPU, a model that fits in RAM alone is still split across VRAM and RAM.
    let r = evaluate(&model(EIGHT_B), &hw(8_000, Some(100))).unwrap();
    assert_eq!(r.verdict, Verdict::Hybrid);
    assert_eq!(r.vram_used_mb + r.ram_used_mb, r.estimated_mb);
}

#[test]
fn tiny_model_is_optimal_even_without_gpu() {
    // Under one MiB of estimated memory fits in the (zero) free VRAM.
    let r = evaluate(&model(1_000_000), &hw(0, None)).unwrap();
    assert_eq!(r.estimated_mb, 0);
    assert_eq!(r.verdict, Verdict::Optimal);
}

#[test]
fn larger_models_never_get_better_verdicts() {
    let h = hw(16_000, Some(8_000));
    let rank = |v: Verdict| match v {
        Verdict::Optimal => 0,
        Verdict::Hybrid => 1,
        Verdict::Slow => 2,
        Verdict::Incompatible => 3,
    };
    let mut last = 0;
    for b in [1u64, 3, 7, 8, 13, 14, 27, 34, 40, 70, 405] {
        let v = evaluate(&model(b * 1_000_000_000), &h).unwrap().verdict;
        assert!(rank(v) >= last);
        last = rank(v);
    }
    assert_eq!(last, 3);
}

#[test]
fn more_memory_never_makes_it_worse() {
    let m = model(EIGHT_B);
    // More RAM, no GPU.
    assert_eq!(evaluate(&m, &hw(1_000, None)).unwrap().verdict, Verdict::Incompatible);
    assert_eq!(evaluate(&m, &hw(5_000, None)).unwrap().verdict, Verdict::Slow);
    // More free VRAM, same RAM.
    assert_eq!(evaluate(&m, &hw(2_000, Some(2_000))).unwrap().verdict, Verdict::Incompatible);
    assert_eq!(evaluate(&m, &hw(2_000, Some(3_000))).unwrap().verdict, Verdict::Hybrid);
    assert_eq!(evaluate(&m, &hw(2_000, Some(5_000))).unwrap().verdict, Verdict::Optimal);
}
