//! Request-scoped failure taxonomy of the captioning pipeline.

use vstd::prelude::*;

verus! {

/// One failure class per stage of a captioning request.  Every failure is
/// request-scoped and never retried: it aborts the current request or
/// session activity only.
#[derive(Clone, Copy, Debug, PartialEq, Eq, Structural)]
pub enum CaptionError {
    /// The input bytes are not a recognizable or intact image.
    DecodeError,
    /// Model weights could not be fetched or parsed.
    WeightLoadError,
    /// The vocabulary definition could not be loaded.
    TokenizerLoadError,
    /// A numeric or shape failure from the model mid-generation.
    InferenceError,
    /// A send or receive failure on the connection.
    TransportError,
}

impl CaptionError {
    /// A short stable description, usable where a display form is needed.
    pub fn describe(&self) -> (r: &'static str)
        ensures
            r@.len() > 0,
    {
        proof {
            reveal_strlit("unreadable image bytes");
            reveal_strlit("weights could not be loaded");
            reveal_strlit("vocabulary could not be loaded");
            reveal_strlit("inference failed mid-generation");
            reveal_strlit("connection send or receive failed");
        }
        match self {
            CaptionError::DecodeError => "unreadable image bytes",
            CaptionError::WeightLoadError => "weights could not be loaded",
            CaptionError::TokenizerLoadError => "vocabulary could not be loaded",
            CaptionError::InferenceError => "inference failed mid-generation",
            CaptionError::TransportError => "connection send or receive failed",
        }
    }
}

} // verus!
