use vstd::prelude::*;

use crate::hardware::HardwareInfo;
use super::{CompatResult, ModelEntry, Verdict};

verus! {

/// Bits per parameter for Q4_K_M quantization.
pub const BITS_PER_PARAM: u64 = 4;

/// Overhead factor for KV cache and activations (25 %), as a fraction.
pub const OVERHEAD_NUM: u64 = 5;
pub const OVERHEAD_DEN: u64 = 4;

pub const BYTES_PER_MB: u64 = 1_048_576;

/// `(params × bits / 8) × 1.25` bytes, expressed in whole MiB (rounded down).
pub open spec fn spec_estimate_mb(param_count: nat) -> nat {
    ((param_count * BITS_PER_PARAM * OVERHEAD_NUM) as int / (8 * OVERHEAD_DEN * BYTES_PER_MB) as int) as nat
}

/// Free VRAM seen by the engine: that of the GPU, or 0 without one.
pub open spec fn spec_vram_free(hw: HardwareInfo) -> nat {
    match hw.gpu {
        Some(g) => g.vram_free_mb as nat,
        None => 0,
    }
}

/// The compatibility rule: where a model of `estimated` MiB goes.
pub open spec fn spec_classify(estimated: nat, gpu_present: bool, vram_free: nat, ram_avail: nat) -> (
    Verdict,
    nat,
    nat,
) {
    if estimated <= vram_free {
        (Verdict::Optimal, estimated, 0)
    } else if gpu_present && estimated <= vram_free + ram_avail {
        (Verdict::Hybrid, vram_free, (estimated - vram_free) as nat)
    } else if estimated <= ram_avail {
        (Verdict::Slow, 0, estimated)
    } else {
        (Verdict::Incompatible, 0, 0)
    }
}

/// What `evaluate` computes for a model whose parameter count is known.
pub open spec fn spec_compat(model: ModelEntry, hw: HardwareInfo) -> CompatResult {
    let est = spec_estimate_mb(model.param_count as nat);
    let c = spec_classify(est, hw.gpu is Some, spec_vram_free(hw), hw.ram_available_mb as nat);
    CompatResult {
        verdict: c.0,
        estimated_mb: est as u64,
        vram_used_mb: c.1 as u64,
        ram_used_mb: c.2 as u64,
    }
}

pub open spec fn spec_evaluate(model: ModelEntry, hw: HardwareInfo) -> Option<CompatResult> {
    if model.param_count > 0 {
        Some(spec_compat(model, hw))
    } else {
        None
    }
}

proof fn lemma_estimate_bounds(p: nat)
    ensures
        spec_estimate_mb(p) <= p,
{
    assert(p * 20 / 33554432 <= p) by (nonlinear_arith);
}

/// Estimates how much memory a model needs in MiB:
/// `(params × bits / 8) × overhead`, converted to MiB and rounded down.
pub fn estimate_mb(model: &ModelEntry) -> (mb: u64)
    ensures
        mb == spec_estimate_mb(model.param_count as nat),
{
    proof {
        lemma_estimate_bounds(model.param_count as nat);
    }
    let p: u128 = model.param_count as u128;
    let num: u128 = p * (BITS_PER_PARAM as u128) * (OVERHEAD_NUM as u128);
    let den: u128 = 8u128 * (OVERHEAD_DEN as u128) * (BYTES_PER_MB as u128);
    (num / den) as u64
}

/// Returns `true` if this model's parameter count is known (non-zero).
pub fn params_known(model: &ModelEntry) -> (known: bool)
    ensures
        known == (model.param_count > 0),
{
    model.param_count > 0
}

/// Evaluates whether a model is compatible with the given hardware.
/// Returns `None` when the parameter count is unknown.
pub fn evaluate(model: &ModelEntry, hw: &HardwareInfo) -> (res: Option<CompatResult>)
    ensures
        res == spec_evaluate(*model, *hw),
{
    if !params_known(model) {
        return None;
    }
    Some(evaluate_inner(model, hw))
}

fn evaluate_inner(model: &ModelEntry, hw: &HardwareInfo) -> (res: CompatResult)
    ensures
        res == spec_compat(*model, *hw),
        res.verdict != Verdict::Incompatible ==> res.vram_used_mb + res.ram_used_mb
            == res.estimated_mb,
        res.vram_used_mb <= spec_vram_free(*hw),
        res.ram_used_mb <= hw.ram_available_mb,
        res.verdict == Verdict::Optimal ==> res.ram_used_mb == 0,
        res.verdict == Verdict::Hybrid ==> res.vram_used_mb == spec_vram_free(*hw),
        res.verdict == Verdict::Slow ==> res.vram_used_mb == 0,
        res.verdict == Verdict::Incompatible ==> res.vram_used_mb == 0 && res.ram_used_mb == 0,
{
    proof {
        lemma_estimate_bounds(model.param_count as nat);
    }
    let estimated_mb = estimate_mb(model);
    let vram_free: u64 = match &hw.gpu {
        Some(g) => g.vram_free_mb,
        None => 0,
    };
    let ram_avail = hw.ram_available_mb;

    if estimated_mb <= vram_free {
        // Entire model fits in free VRAM.
        CompatResult {
            verdict: Verdict::Optimal,
            estimated_mb,
            vram_used_mb: estimated_mb,
            ram_used_mb: 0,
        }
    } else if hw.gpu.is_some() && (estimated_mb as u128) <= (vram_free as u128) + (ram_avail as u128) {
        // Partial GPU offload: as much as possible into VRAM, the rest in RAM.
        let vram_used = vram_free;
        let ram_used = estimated_mb - vram_used;
        CompatResult {
            verdict: Verdict::Hybrid,
            estimated_mb,
            vram_used_mb: vram_used,
            ram_used_mb: ram_used,
        }
    } else if estimated_mb <= ram_avail {
        // No GPU or VRAM too small: CPU-only execution.
        CompatResult {
            verdict: Verdict::Slow,
            estimated_mb,
            vram_used_mb: 0,
            ram_used_mb: estimated_mb,
        }
    } else {
        // Cannot fit in any available memory.
        CompatResult {
            verdict: Verdict::Incompatible,
            estimated_mb,
            vram_used_mb: 0,
            ram_used_mb: 0,
        }
    }
}


/// Where the estimated memory goes: for a model that can run, its VRAM share
/// and its RAM share add up to the estimate, and neither exceeds the free
/// VRAM or the available RAM; an Optimal model sits in VRAM alone, a Hybrid
/// one fills the free VRAM, a Slow one sits in RAM alone, and an Incompatible
/// one is given no memory.
pub proof fn law_memory_breakdown(model: ModelEntry, hw: HardwareInfo)
    requires
        model.param_count > 0,
    ensures
        spec_evaluate(model, hw) matches Some(r) && {
            &&& r.estimated_mb == spec_estimate_mb(model.param_count as nat)
            &&& r.verdict != Verdict::Incompatible ==> r.vram_used_mb + r.ram_used_mb
                == r.estimated_mb
            &&& r.vram_used_mb <= spec_vram_free(hw)
            &&& r.ram_used_mb <= hw.ram_available_mb
            &&& r.verdict == Verdict::Optimal ==> r.ram_used_mb == 0
            &&& r.verdict == Verdict::Hybrid ==> r.vram_used_mb == spec_vram_free(hw)
            &&& r.verdict == Verdict::Slow ==> r.vram_used_mb == 0
            &&& r.verdict == Verdict::Incompatible ==> r.vram_used_mb == 0 && r.ram_used_mb == 0
        },
{
    lemma_estimate_bounds(model.param_count as nat);
}

/// The verdict table: Optimal when the model fits in free VRAM, Hybrid when a
/// GPU is present and it fits in free VRAM plus available RAM, Slow when it
/// fits in available RAM alone, and Incompatible exactly when it exceeds free
/// VRAM plus available RAM together.
pub proof fn law_verdict_table(model: ModelEntry, hw: HardwareInfo)
    requires
        model.param_count > 0,
    ensures
        spec_evaluate(model, hw) matches Some(r) && {
            let est = r.estimated_mb as nat;
            let vram = spec_vram_free(hw);
            let ram = hw.ram_available_mb as nat;
            &&& r.verdict == Verdict::Optimal <==> est <= vram
            &&& r.verdict == Verdict::Hybrid <==> (hw.gpu is Some && vram < est <= vram + ram)
            &&& r.verdict == Verdict::Slow <==> (hw.gpu is None && vram < est <= ram)
            &&& r.verdict == Verdict::Incompatible <==> est > vram + ram
        },
{
    lemma_estimate_bounds(model.param_count as nat);
}

proof fn lemma_estimate_monotone(p: nat, q: nat)
    requires
        p <= q,
    ensures
        spec_estimate_mb(p) <= spec_estimate_mb(q),
{
    assert(p * 20 / 33554432 <= q * 20 / 33554432) by (nonlinear_arith)
        requires
            p <= q,
    ;
}

proof fn lemma_classify_monotone_in_size(e1: nat, e2: nat, gpu: bool, vram: nat, ram: nat)
    requires
        e1 <= e2,
        !gpu ==> vram == 0,
    ensures
        spec_classify(e1, gpu, vram, ram).0.rank() <= spec_classify(e2, gpu, vram, ram).0.rank(),
{
}

/// A model with more parameters never gets a better verdict on the same hardware.
pub proof fn law_verdict_monotone_in_size(small: ModelEntry, large: ModelEntry, hw: HardwareInfo)
    requires
        0 < small.param_count <= large.param_count,
    ensures
        spec_evaluate(small, hw) matches Some(rs) && spec_evaluate(large, hw) matches Some(rl)
            && rs.verdict.rank() <= rl.verdict.rank() && rs.estimated_mb <= rl.estimated_mb,
{
    lemma_estimate_bounds(small.param_count as nat);
    lemma_estimate_bounds(large.param_count as nat);
    lemma_estimate_monotone(small.param_count as nat, large.param_count as nat);
    lemma_classify_monotone_in_size(
        spec_estimate_mb(small.param_count as nat),
        spec_estimate_mb(large.param_count as nat),
        hw.gpu is Some,
        spec_vram_free(hw),
        hw.ram_available_mb as nat,
    );
}

/// A model with a larger memory estimate never gets a better verdict on the
/// same hardware.
pub proof fn law_verdict_monotone_in_estimate(m1: ModelEntry, m2: ModelEntry, hw: HardwareInfo)
    requires
        m1.param_count > 0,
        m2.param_count > 0,
        spec_estimate_mb(m1.param_count as nat) <= spec_estimate_mb(m2.param_count as nat),
    ensures
        spec_evaluate(m1, hw) matches Some(r1) && spec_evaluate(m2, hw) matches Some(r2)
            && r1.verdict.rank() <= r2.verdict.rank(),
{
    lemma_estimate_bounds(m1.param_count as nat);
    lemma_estimate_bounds(m2.param_count as nat);
    lemma_classify_monotone_in_size(
        spec_estimate_mb(m1.param_count as nat),
        spec_estimate_mb(m2.param_count as nat),
        hw.gpu is Some,
        spec_vram_free(hw),
        hw.ram_available_mb as nat,
    );
}

/// More available RAM, with the same GPU, never makes a verdict worse.
pub proof fn law_verdict_monotone_in_ram(model: ModelEntry, less: HardwareInfo, more: HardwareInfo)
    requires
        model.param_count > 0,
        less.gpu == more.gpu,
        less.ram_available_mb <= more.ram_available_mb,
    ensures
        spec_evaluate(model, more) matches Some(rm) && spec_evaluate(model, less) matches Some(rl)
            && rm.verdict.rank() <= rl.verdict.rank(),
{
    lemma_estimate_bounds(model.param_count as nat);
}

/// More free VRAM on the GPU, with the same available RAM, never makes a
/// verdict worse.
pub proof fn law_verdict_monotone_in_vram(
    model: ModelEntry,
    less: HardwareInfo,
    more: HardwareInfo,
)
    requires
        model.param_count > 0,
        less.gpu is Some,
        more.gpu is Some,
        less.gpu->0.vram_free_mb <= more.gpu->0.vram_free_mb,
        less.ram_available_mb == more.ram_available_mb,
    ensures
        spec_evaluate(model, more) matches Some(rm) && spec_evaluate(model, less) matches Some(rl)
            && rm.verdict.rank() <= rl.verdict.rank(),
{
    lemma_estimate_bounds(model.param_count as nat);
}

/// A model of unknown size gets no verdict; a model of known size always gets one.
pub proof fn law_verdict_iff_params_known(model: ModelEntry, hw: HardwareInfo)
    ensures
        spec_evaluate(model, hw) is Some <==> model.param_count > 0,
{
}

} // verus!
