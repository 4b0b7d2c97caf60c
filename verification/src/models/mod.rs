use vstd::prelude::*;

pub mod compat;
pub mod numeral;
pub mod ollama;
pub mod scrape;

verus! {

/// A model entry of the catalogue.
#[derive(Debug, Clone)]
pub struct ModelEntry {
    /// Ollama model name (e.g. "llama3:8b").
    pub name: String,
    /// Number of parameters (e.g. 8_000_000_000 for an 8B model);
    /// 0 means that the count is unknown.
    pub param_count: u64,
    /// Model family (e.g. "Llama 3").
    pub family: String,
    /// Short human-readable description.
    pub description: String,
}

/// The mathematical value of a `ModelEntry`.
pub struct ModelEntryView {
    pub name: Seq<char>,
    pub param_count: u64,
    pub family: Seq<char>,
    pub description: Seq<char>,
}

impl View for ModelEntry {
    type V = ModelEntryView;

    open spec fn view(&self) -> ModelEntryView {
        ModelEntryView {
            name: self.name@,
            param_count: self.param_count,
            family: self.family@,
            description: self.description@,
        }
    }
}

/// The views of a sequence of entries.
pub open spec fn entries_view(v: Seq<ModelEntry>) -> Seq<ModelEntryView> {
    v.map_values(|e: ModelEntry| e@)
}

/// The compatibility verdict for a model given the current hardware.
#[derive(Debug, Clone, Copy, PartialEq, Eq, Structural)]
pub enum Verdict {
    /// Model fits entirely in free VRAM: fast GPU inference.
    Optimal,
    /// Model needs VRAM + RAM: partial GPU offloading, slower.
    Hybrid,
    /// Model only fits in RAM: CPU execution only.
    Slow,
    /// Model exceeds the memory that can hold it: cannot run.
    Incompatible,
}

/// Detailed result of the compatibility calculation.
#[derive(Debug, Clone, Copy, PartialEq, Eq, Structural)]
pub struct CompatResult {
    pub verdict: Verdict,
    /// Total estimated memory the model needs (MiB).
    pub estimated_mb: u64,
    /// How much of that would be loaded onto VRAM (MiB).
    pub vram_used_mb: u64,
    /// How much of that would spill into RAM (MiB).
    pub ram_used_mb: u64,
}

impl Verdict {
    /// Position of the verdict from best (0) to worst (3).
    pub open spec fn rank(self) -> int {
        match self {
            Verdict::Optimal => 0,
            Verdict::Hybrid => 1,
            Verdict::Slow => 2,
            Verdict::Incompatible => 3,
        }
    }
}

} // verus!
