//! Hardware-aware compatibility checks for local language models.
//!
//! The library decides, from the machine's free VRAM and available RAM, whether
//! a model will run fully on the GPU, split between GPU and RAM, on the CPU
//! only, or not at all; it also holds the model catalogue logic (parameter
//! resolution from size tags, parsing of the public library listing) and the
//! state machine that drives the terminal interface.

pub mod hardware;
pub mod models;
pub mod text;
pub mod app;
pub mod ui;
