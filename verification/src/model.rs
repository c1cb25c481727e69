//! The model layer: two weight variants behind one incremental forward
//! contract, and the seeded sampler.
//!
//! Tensors, the BLIP models and the sampler are opaque values of the candle
//! crates, declared here and reached only through trusted wrappers.  Nothing
//! is promised of the numeric results: the decode loop is verified for every
//! logits tensor and every sampled id these calls may return.

use vstd::prelude::*;

use crate::error::CaptionError;

verus! {

/// Declares candle_core::Tensor: an opaque numeric array carried between
/// the trusted model calls.
#[verifier::external_type_specification]
#[verifier::external_body]
pub struct ExTensor(candle_core::Tensor);

/// Declares candle_core::Error, which Tensor's operator impls mention.
#[verifier::external_type_specification]
#[verifier::external_body]
pub struct ExCandleError(candle_core::Error);

/// Declares the full-precision BLIP model of candle_transformers.
#[verifier::external_type_specification]
#[verifier::external_body]
pub struct ExBlip(candle_transformers::models::blip::BlipForConditionalGeneration);

/// Declares the quantized BLIP model of candle_transformers.
#[verifier::external_type_specification]
#[verifier::external_body]
pub struct ExQuantBlip(candle_transformers::models::quantized_blip::BlipForConditionalGeneration);

/// Declares candle_transformers' LogitsProcessor, the sampler.
#[verifier::external_type_specification]
#[verifier::external_body]
pub struct ExLogitsProcessor(candle_transformers::generation::LogitsProcessor);

/// The fixed seed handed to the sampler.
pub const SAMPLER_SEED: u64 = 1337;

/// A model variant behind one forward contract.  Callers are oblivious to
/// which variant backs a handle; the quantized variant is a lower-precision
/// approximation of the same task, not a different one.
pub enum ModelHandle {
    /// Full-precision weights.
    FullPrecision(candle_transformers::models::blip::BlipForConditionalGeneration),
    /// Quantized weights.
    Quantized(candle_transformers::models::quantized_blip::BlipForConditionalGeneration),
}

/// Relies on candle's BLIP vision model via Tensor::unsqueeze and
/// Tensor::apply: the image embedding of one batched image tensor.
#[verifier::external_body]
fn vision_embed_full(
    m: &candle_transformers::models::blip::BlipForConditionalGeneration,
    img: &candle_core::Tensor,
) -> (r: Result<candle_core::Tensor, CaptionError>)
    ensures
        r matches Err(e) ==> e == CaptionError::InferenceError,
{
    img.unsqueeze(0).and_then(|t| t.apply(m.vision_model())).map_err(
        |_| CaptionError::InferenceError,
    )
}

/// Relies on candle's quantized BLIP vision model via Tensor::unsqueeze and
/// Tensor::apply: the image embedding of one batched image tensor.
#[verifier::external_body]
fn vision_embed_quantized(
    m: &candle_transformers::models::quantized_blip::BlipForConditionalGeneration,
    img: &candle_core::Tensor,
) -> (r: Result<candle_core::Tensor, CaptionError>)
    ensures
        r matches Err(e) ==> e == CaptionError::InferenceError,
{
    img.unsqueeze(0).and_then(|t| t.apply(m.vision_model())).map_err(
        |_| CaptionError::InferenceError,
    )
}

/// Relies on the BLIP text decoder's forward pass, which retains its own
/// cross-step state: the per-vocabulary logits for the final position of the
/// context slice `ctx[from..]` given the image embedding.
#[verifier::external_body]
fn forward_last_full(
    m: &mut candle_transformers::models::blip::BlipForConditionalGeneration,
    ctx: &Vec<u32>,
    from: usize,
    img: &candle_core::Tensor,
) -> (r: Result<candle_core::Tensor, CaptionError>)
    requires
        from < ctx@.len(),
    ensures
        r matches Err(e) ==> e == CaptionError::InferenceError,
{
    let device = candle_core::Device::Cpu;
    let input = candle_core::Tensor::new(&ctx[from..], &device)
        .and_then(|t| t.unsqueeze(0))
        .map_err(|_| CaptionError::InferenceError)?;
    let logits = m.text_decoder().forward(&input, img).map_err(|_| CaptionError::InferenceError)?;
    let logits = logits.squeeze(0).map_err(|_| CaptionError::InferenceError)?;
    let n = logits.dim(0).map_err(|_| CaptionError::InferenceError)?;
    logits.get(n.wrapping_sub(1)).map_err(|_| CaptionError::InferenceError)
}

/// Relies on the quantized BLIP text decoder's forward pass, as for the
/// full-precision variant.
#[verifier::external_body]
fn forward_last_quantized(
    m: &mut candle_transformers::models::quantized_blip::BlipForConditionalGeneration,
    ctx: &Vec<u32>,
    from: usize,
    img: &candle_core::Tensor,
) -> (r: Result<candle_core::Tensor, CaptionError>)
    requires
        from < ctx@.len(),
    ensures
        r matches Err(e) ==> e == CaptionError::InferenceError,
{
    let device = candle_core::Device::Cpu;
    let input = candle_core::Tensor::new(&ctx[from..], &device)
        .and_then(|t| t.unsqueeze(0))
        .map_err(|_| CaptionError::InferenceError)?;
    let logits = m.text_decoder().forward(&input, img).map_err(|_| CaptionError::InferenceError)?;
    let logits = logits.squeeze(0).map_err(|_| CaptionError::InferenceError)?;
    let n = logits.dim(0).map_err(|_| CaptionError::InferenceError)?;
    logits.get(n.wrapping_sub(1)).map_err(|_| CaptionError::InferenceError)
}

impl ModelHandle {
    /// The image embedding, computed once per request.
    pub fn image_embedding(&self, img: &candle_core::Tensor) -> (r: Result<
        candle_core::Tensor,
        CaptionError,
    >)
        ensures
            r matches Err(e) ==> e == CaptionError::InferenceError,
    {
        match self {
            ModelHandle::FullPrecision(m) => vision_embed_full(m, img),
            ModelHandle::Quantized(m) => vision_embed_quantized(m, img),
        }
    }

    /// Logits for the final position of the context slice `ctx[from..]`.
    pub fn forward_last(&mut self, ctx: &Vec<u32>, from: usize, img: &candle_core::Tensor) -> (r:
        Result<candle_core::Tensor, CaptionError>)
        requires
            from < ctx@.len(),
        ensures
            r matches Err(e) ==> e == CaptionError::InferenceError,
    {
        match self {
            ModelHandle::FullPrecision(m) => forward_last_full(m, ctx, from, img),
            ModelHandle::Quantized(m) => forward_last_quantized(m, ctx, from, img),
        }
    }
}

/// Relies on LogitsProcessor::new: a fresh sampler with the given seed and
/// no temperature or nucleus override, which candle maps to greedy argmax
/// sampling (the seed is kept but unused on that path).
#[verifier::external_body]
fn new_logits_processor(seed: u64) -> candle_transformers::generation::LogitsProcessor {
    candle_transformers::generation::LogitsProcessor::new(seed, None, None)
}

/// Relies on LogitsProcessor::sample: one token id selected from the
/// logits (argmax under this configuration).  The call may move internal
/// sampler state; nothing is promised of which id comes back, and callers
/// are verified for every possible id.
#[verifier::external_body]
fn sample_from_logits(
    p: &mut candle_transformers::generation::LogitsProcessor,
    logits: &candle_core::Tensor,
) -> (r: Result<u32, CaptionError>)
    ensures
        r matches Err(e) ==> e == CaptionError::InferenceError,
{
    p.sample(logits).map_err(|_| CaptionError::InferenceError)
}

/// The seeded sampler of the decode loop.
pub struct Sampler {
    inner: candle_transformers::generation::LogitsProcessor,
}

impl Sampler {
    /// A sampler seeded with the fixed seed.
    pub fn new() -> Sampler {
        Sampler { inner: new_logits_processor(SAMPLER_SEED) }
    }

    /// Draws one token id from a logits tensor.
    pub fn sample(&mut self, logits: &candle_core::Tensor) -> (r: Result<u32, CaptionError>)
        ensures
            r matches Err(e) ==> e == CaptionError::InferenceError,
    {
        sample_from_logits(&mut self.inner, logits)
    }
}

} // verus!
