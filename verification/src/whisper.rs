//! Settings of the Whisper recognizer that are decided before whisper.cpp
//! runs: its configuration, the decoding thread count, and the report of a
//! failed GPU load whose CPU fallback failed too.
use vstd::prelude::*;

verus! {

/// How a Whisper model is loaded and run.
#[derive(Clone, Copy, Debug, PartialEq, Eq, Structural)]
pub struct WhisperConfig {
    pub threads: i32,
    pub use_gpu: bool,
    pub flash_attention: bool,
}

impl WhisperConfig {
    /// Four threads, the GPU when the program was built for Metal, and no
    /// flash attention.
    pub fn default_for(metal: bool) -> (c: Self)
        ensures
            c == (WhisperConfig { threads: 4, use_gpu: metal, flash_attention: false }),
    {
        WhisperConfig { threads: 4, use_gpu: metal, flash_attention: false }
    }
}

/// The threads one decode uses: the requested count, at least one and at
/// most the configured count (itself at least one).
pub open spec fn spec_decode_threads(requested: i32, configured: i32) -> i32 {
    let r = if requested < 1 {
        1i32
    } else {
        requested
    };
    let c = if configured < 1 {
        1i32
    } else {
        configured
    };
    if r < c {
        r
    } else {
        c
    }
}

/// The threads one decode uses.
pub fn decode_threads(requested: i32, configured: i32) -> (r: i32)
    ensures
        r == spec_decode_threads(requested, configured),
        1 <= r,
{
    let r = if requested < 1 {
        1
    } else {
        requested
    };
    let c = if configured < 1 {
        1
    } else {
        configured
    };
    if r < c {
        r
    } else {
        c
    }
}

/// The error when neither the GPU nor the CPU could load the model.
pub fn gpu_fallback_message(gpu_error: &str, cpu_error: &str) -> (r: String)
    ensures
        r@ == "GPU load failed ("@ + gpu_error@ + "); CPU fallback failed ("@ + cpu_error@ + ")"@,
{
    crate::model::text5("GPU load failed (", gpu_error, "); CPU fallback failed (", cpu_error, ")")
}

} // verus!
