//! The embedding set-up recommended for a machine: Gemini for quality when
//! a key is configured, else a local provider chosen by the machine's memory.
//!
//! Probing the hardware and loading or saving the configuration is the
//! caller's business.
use vstd::prelude::*;

use crate::text::{lit, views};

verus! {

/// One gibibyte, in bytes.
pub const GIB: u64 = 1073741824;

/// The embedding providers a recommendation picks from.
#[derive(Debug, Clone, Copy, PartialEq, Eq, Structural)]
pub enum EmbeddingChoice {
    Gemini,
    Transformersjs,
    RustHf,
}

/// What was found of the machine.
#[derive(Debug, Clone, Copy)]
pub struct HardwareFacts {
    pub ram_bytes: u64,
    pub has_gpu: bool,
    pub physical_cores: usize,
    /// ONNX Runtime can run on a GPU (CUDA, DirectML or CoreML).
    pub gpu_runtime: bool,
}

/// The changes to make to the embedding configuration, and why.  The
/// configuration is enabled in every case; fields left `None` or `false`
/// keep their configured values.
#[derive(Debug)]
pub struct EmbeddingRecommendation {
    pub provider: EmbeddingChoice,
    pub normalize_l2: bool,
    pub transformersjs_device: Option<String>,
    pub rust_hf_threads: Option<usize>,
    pub notes: Vec<String>,
}

pub open spec fn quality_note() -> Seq<char> {
    "Configured for best quality using Gemini embeddings. Free tier can rate-limit quickly; paid usage is recommended for sustained indexing."@
}

pub open spec fn low_memory_note() -> Seq<char> {
    "Low-memory system detected (<4 GB RAM), using Transformers.js on CPU for stability."@
}

pub open spec fn mid_memory_note() -> Seq<char> {
    "Mid-memory system detected (4-8 GB RAM), using Transformers.js with WebGPU when available."@
}

pub open spec fn high_memory_note() -> Seq<char> {
    "Higher-memory system detected (>=8 GB RAM), using Rust HF for best local throughput."@
}

pub open spec fn gpu_runtime_note() -> Seq<char> {
    "GPU execution providers detected for ONNX Runtime; Rust HF will try GPU acceleration automatically with CPU fallback."@
}

pub open spec fn cpu_runtime_note() -> Seq<char> {
    "No ONNX Runtime GPU execution provider detected; Rust HF will run on CPU."@
}

pub open spec fn fallback_note() -> Seq<char> {
    "Gemini quality mode requested, but no API key is configured. Falling back to optimized local embeddings."@
}

/// The recommendation as a model: provider, whether L2 normalisation is
/// switched on, the Transformers.js device, the Rust HF threads, the notes.
/// Memory is compared in whole gibibytes: under 4, under 8, or more.
pub open spec fn recommend(
    quality: bool,
    has_key: bool,
    hw: HardwareFacts,
) -> (EmbeddingChoice, bool, Option<Seq<char>>, Option<nat>, Seq<Seq<char>>) {
    if quality && has_key {
        (EmbeddingChoice::Gemini, false, None, None, seq![quality_note()])
    } else {
        let tail: Seq<Seq<char>> = if quality {
            seq![fallback_note()]
        } else {
            Seq::empty()
        };
        if hw.ram_bytes < 4 * GIB {
            (EmbeddingChoice::Transformersjs, true, Some("cpu"@), None, seq![low_memory_note()] + tail)
        } else if hw.ram_bytes < 8 * GIB {
            (
                EmbeddingChoice::Transformersjs,
                true,
                Some(
                    if hw.has_gpu {
                        "webgpu"@
                    } else {
                        "cpu"@
                    },
                ),
                None,
                seq![mid_memory_note()] + tail,
            )
        } else {
            (
                EmbeddingChoice::RustHf,
                true,
                None,
                Some(if hw.physical_cores < 1 { 1 } else { hw.physical_cores as nat }),
                seq![
                    high_memory_note(),
                    if hw.gpu_runtime {
                        gpu_runtime_note()
                    } else {
                        cpu_runtime_note()
                    },
                ] + tail,
            )
        }
    }
}

pub open spec fn device_view(o: Option<String>) -> Option<Seq<char>> {
    match o {
        Some(s) => Some(s@),
        None => None,
    }
}

pub open spec fn threads_view(o: Option<usize>) -> Option<nat> {
    match o {
        Some(n) => Some(n as nat),
        None => None,
    }
}

/// Recommends an embedding set-up; `quality` asks for Gemini, which is
/// chosen only when `has_gemini_key` holds.  (The note on the detected
/// hardware, which prints the memory in fractional gigabytes, is the
/// caller's.)
pub fn recommend_embedding_config(quality: bool, has_gemini_key: bool, hw: HardwareFacts) -> (r: EmbeddingRecommendation)
    ensures
        (r.provider, r.normalize_l2, device_view(r.transformersjs_device), threads_view(r.rust_hf_threads), views(r.notes@))
            == recommend(quality, has_gemini_key, hw),
{
    if quality && has_gemini_key {
        let notes = vec![lit("Configured for best quality using Gemini embeddings. Free tier can rate-limit quickly; paid usage is recommended for sustained indexing.")];
        assert(views(notes@) =~= seq![quality_note()]);
        return EmbeddingRecommendation {
            provider: EmbeddingChoice::Gemini,
            normalize_l2: false,
            transformersjs_device: None,
            rust_hf_threads: None,
            notes,
        };
    }
    let mut notes: Vec<String> = Vec::new();
    let provider;
    let mut device: Option<String> = None;
    let mut threads: Option<usize> = None;
    if hw.ram_bytes < 4 * GIB {
        provider = EmbeddingChoice::Transformersjs;
        device = Some(lit("cpu"));
        notes.push(lit("Low-memory system detected (<4 GB RAM), using Transformers.js on CPU for stability."));
    } else if hw.ram_bytes < 8 * GIB {
        provider = EmbeddingChoice::Transformersjs;
        device = Some(if hw.has_gpu { lit("webgpu") } else { lit("cpu") });
        notes.push(lit("Mid-memory system detected (4-8 GB RAM), using Transformers.js with WebGPU when available."));
    } else {
        provider = EmbeddingChoice::RustHf;
        threads = Some(if hw.physical_cores < 1 { 1 } else { hw.physical_cores });
        notes.push(lit("Higher-memory system detected (>=8 GB RAM), using Rust HF for best local throughput."));
        if hw.gpu_runtime {
            notes.push(lit("GPU execution providers detected for ONNX Runtime; Rust HF will try GPU acceleration automatically with CPU fallback."));
        } else {
            notes.push(lit("No ONNX Runtime GPU execution provider detected; Rust HF will run on CPU."));
        }
    }
    let ghost head = views(notes@);
    if quality {
        notes.push(lit("Gemini quality mode requested, but no API key is configured. Falling back to optimized local embeddings."));
        assert(views(notes@) =~= head + seq![fallback_note()]);
    } else {
        assert(views(notes@) =~= head + Seq::<Seq<char>>::empty());
    }
    let r = EmbeddingRecommendation { provider, normalize_l2: true, transformersjs_device: device, rust_hf_threads: threads, notes };
    assert(views(r.notes@) =~= recommend(quality, has_gemini_key, hw).4);
    r
}

} // verus!
