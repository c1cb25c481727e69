//! The autoregressive decode loop: token-by-token sampling against the
//! model's forward contract until a stop condition.
//!
//! The stopping policy and the append-only token sequence are verified in
//! `DecodeState`, independently of any model, so they can be driven with any
//! source of sampled ids.  `Generator` couples that state with a model
//! handle and the seeded sampler; `generate_caption` runs the loop to the
//! end and buffers every fragment into one caption.

use vstd::prelude::*;
use vstd::string::StringExecFns;

use crate::detok::{decode_of, fragment_chars, prefix_compositional, Detokenizer};
use crate::error::CaptionError;
use crate::model::{ModelHandle, Sampler};

verus! {

/// The fixed beginning-of-sequence id that seeds every token sequence.
pub const BOS_TOKEN_ID: u32 = 30522;

/// The fixed separator id: sampling it ends generation, and it is never
/// appended to the sequence.
pub const SEP_TOKEN_ID: u32 = 102;

/// Hard upper bound on decode steps; generation ends unconditionally after
/// this many, a non-error truncation.
pub const MAX_STEPS: usize = 1000;

/// No id of the sequence is the separator: it is consumed as a terminal
/// signal, never emitted downstream.
pub open spec fn no_separator(ids: Seq<u32>) -> bool {
    forall|i: int| 0 <= i < ids.len() ==> ids[i] != SEP_TOKEN_ID
}

/// What one decode step produced.
pub enum StepEvent {
    /// A newly stable piece of caption text.
    Fragment(String),
    /// A token was appended but no text is stable yet.
    Pending,
    /// Generation ended: the separator was sampled, the step budget ran
    /// out, or the loop was stopped at a step boundary.
    Finished,
}

/// The model-free heart of the decode loop: the growing token sequence, the
/// incremental detokenizer, the step counter and the stopping flag.
pub struct DecodeState {
    token_ids: Vec<u32>,
    detok: Detokenizer,
    steps: usize,
    finished: bool,
}

impl DecodeState {
    /// The full token sequence, beginning-of-sequence seed included.
    pub closed spec fn token_seq(&self) -> Seq<u32> {
        self.token_ids@
    }

    /// The ids appended by decoding, without the seed.
    pub open spec fn generated(&self) -> Seq<u32> {
        self.token_seq().skip(1)
    }

    /// The concatenation of every fragment emitted so far.
    pub closed spec fn emitted_text(&self) -> Seq<char> {
        self.detok.emitted_text()
    }

    /// The vocabulary the fragments are decoded with.
    pub closed spec fn vocab(&self) -> tokenizers::Tokenizer {
        self.detok.vocab()
    }

    /// The detokenizer's state, for success conditions in contracts.
    pub closed spec fn detok_state(&self) -> Detokenizer {
        self.detok
    }

    /// Decode steps taken so far.
    pub closed spec fn steps_taken(&self) -> int {
        self.steps as int
    }

    /// Whether generation has ended.
    pub closed spec fn is_finished(&self) -> bool {
        self.finished
    }

    /// Structural invariant: the sequence starts at the seed, never holds
    /// the separator past it, grows by at most one id per step, and the
    /// detokenizer has seen exactly the generated ids.
    pub closed spec fn wf(&self) -> bool {
        &&& self.token_ids@.len() >= 1
        &&& self.token_ids@[0] == BOS_TOKEN_ID
        &&& no_separator(self.generated())
        &&& self.detok.wf()
        &&& self.detok.token_seq() == self.generated()
        &&& self.steps <= MAX_STEPS
        &&& self.token_ids@.len() <= 1 + self.steps
    }

    /// A fresh state holding only the seed id.
    pub fn new(tokenizer: tokenizers::Tokenizer) -> (r: DecodeState)
        ensures
            r.wf(),
            !r.is_finished(),
            r.detok_state().drained(),
            r.token_seq() == seq![BOS_TOKEN_ID],
            r.generated() == Seq::<u32>::empty(),
            r.emitted_text() == Seq::<char>::empty(),
            r.vocab() == tokenizer,
            r.steps_taken() == 0,
    {
        let mut token_ids: Vec<u32> = Vec::new();
        token_ids.push(BOS_TOKEN_ID);
        let r = DecodeState { token_ids, detok: Detokenizer::new(tokenizer), steps: 0, finished: false };
        proof {
            assert(r.token_ids@.skip(1) =~= Seq::<u32>::empty());
            assert(r.token_ids@ =~= seq![BOS_TOKEN_ID]);
        }
        r
    }

    /// Whether generation has ended, for callers outside contracts.
    pub fn finished(&self) -> (r: bool)
        ensures
            r == self.is_finished(),
    {
        self.finished
    }

    /// Decode steps taken so far, for callers outside contracts.
    pub fn step_count(&self) -> (r: usize)
        ensures
            r as int == self.steps_taken(),
    {
        self.steps
    }

    /// The start of the context window to feed the model: the whole
    /// sequence on the first step, only the newest id afterwards.
    pub fn context_start(&self) -> (r: usize)
        requires
            self.wf(),
        ensures
            r < self.token_seq().len(),
            self.steps_taken() == 0 ==> r == 0,
            self.steps_taken() > 0 ==> r == self.token_seq().len() - 1,
    {
        if self.steps > 0 {
            self.token_ids.len() - 1
        } else {
            0
        }
    }

    /// The token ids to slice the context from.
    pub fn ids(&self) -> (r: &Vec<u32>)
        ensures
            r@ == self.token_seq(),
    {
        &self.token_ids
    }

    /// Whether another step may run: not finished and budget left.
    pub fn budget_left(&self) -> (r: bool)
        ensures
            r <==> self.steps_taken() < MAX_STEPS,
    {
        self.steps < MAX_STEPS
    }

    /// Ends generation at a step boundary without consuming a token:
    /// budget exhaustion or cancellation.  Nothing else changes.
    pub fn stop(&mut self)
        requires
            old(self).wf(),
        ensures
            final(self).wf(),
            final(self).is_finished(),
            final(self).generated() == old(self).generated(),
            final(self).emitted_text() == old(self).emitted_text(),
            final(self).vocab() == old(self).vocab(),
            final(self).steps_taken() == old(self).steps_taken(),
    {
        self.finished = true;
    }

    /// Consumes one sampled token id.  The separator ends generation
    /// without being appended; any other id is appended and handed to the
    /// detokenizer, whose newly stable text comes back as a fragment.
    pub fn consume(&mut self, token: u32) -> (r: Result<StepEvent, CaptionError>)
        requires
            old(self).wf(),
            !old(self).is_finished(),
            old(self).steps_taken() < MAX_STEPS,
        ensures
            final(self).wf(),
            final(self).vocab() == old(self).vocab(),
            final(self).steps_taken() == old(self).steps_taken() + 1,
            r is Ok <==> token == SEP_TOKEN_ID || old(self).detok_state().push_ok(token),
            token == SEP_TOKEN_ID ==> r == Ok::<StepEvent, CaptionError>(StepEvent::Finished),
            r matches Err(e) ==> e == CaptionError::InferenceError,
            r matches Ok(ev) ==> {
                &&& (ev is Finished <==> token == SEP_TOKEN_ID)
                &&& (ev is Finished <==> final(self).is_finished())
                &&& (ev is Finished ==> final(self).generated() == old(self).generated()
                    && final(self).emitted_text() == old(self).emitted_text() && final(self).detok_state() == old(self).detok_state())
                &&& (!(ev is Finished) ==> final(self).generated() == old(self).generated().push(
                    token,
                ))
                &&& (ev matches StepEvent::Fragment(s) ==> final(self).emitted_text() == old(
                    self,
                ).emitted_text() + s@ && s@.len() > 0)
                &&& (ev is Pending ==> final(self).emitted_text() == old(self).emitted_text())
            },
            r is Err ==> final(self).is_finished() && final(self).emitted_text() == old(
                self,
            ).emitted_text() && final(self).generated() == old(self).generated().push(token),
    {
        self.steps = self.steps + 1;
        if token == SEP_TOKEN_ID {
            self.finished = true;
            return Ok(StepEvent::Finished);
        }
        let ghost old_ids = self.token_ids@;
        self.token_ids.push(token);
        proof {
            assert(self.token_ids@.skip(1) =~= old_ids.skip(1).push(token));
        }
        match self.detok.push(token) {
            Ok(Some(s)) => Ok(StepEvent::Fragment(s)),
            Ok(None) => Ok(StepEvent::Pending),
            Err(e) => {
                self.finished = true;
                Err(e)
            },
        }
    }

    /// Flushes the detokenizer's buffered remainder, exactly once.  Under a
    /// compositional vocabulary the emitted text then equals the canonical
    /// decoding of the generated ids.
    pub fn finish(&mut self) -> (r: Result<Option<String>, CaptionError>)
        requires
            old(self).wf(),
        ensures
            final(self).wf(),
            final(self).vocab() == old(self).vocab(),
            final(self).generated() == old(self).generated(),
            final(self).is_finished() == old(self).is_finished(),
            r is Ok <==> old(self).detok_state().flush_ok(),
            old(self).detok_state().drained() ==> r == Ok::<Option<String>, CaptionError>(None),
            r matches Ok(frag) ==> final(self).emitted_text() == old(self).emitted_text()
                + fragment_chars(frag) && (frag matches Some(s) ==> s@.len() > 0),
            r is Ok && prefix_compositional(old(self).vocab()) ==> final(self).emitted_text()
                == decode_of(old(self).vocab(), old(self).generated()),
            r matches Err(e) ==> e == CaptionError::InferenceError,
            r is Err ==> final(self).emitted_text() == old(self).emitted_text(),
    {
        self.detok.flush()
    }

    /// A copy of the generated ids, seed excluded.
    pub fn generated_ids(&self) -> (r: Vec<u32>)
        requires
            self.wf(),
        ensures
            r@ == self.generated(),
    {
        let mut out: Vec<u32> = Vec::new();
        let mut i: usize = 1;
        while i < self.token_ids.len()
            invariant
                1 <= i <= self.token_ids@.len(),
                out@ == self.token_ids@.subrange(1, i as int),
            decreases self.token_ids@.len() - i,
        {
            out.push(self.token_ids[i]);
            proof {
                assert(self.token_ids@.subrange(1, i + 1) =~= self.token_ids@.subrange(
                    1,
                    i as int,
                ).push(self.token_ids@[i as int]));
            }
            i = i + 1;
        }
        proof {
            assert(self.token_ids@.subrange(1, self.token_ids@.len() as int) =~= self.generated());
        }
        out
    }
}

/// The decode loop coupled to a model: forward, sample, consume.
pub struct Generator {
    model: ModelHandle,
    image_embeds: candle_core::Tensor,
    sampler: Sampler,
    state: DecodeState,
}

impl Generator {
    /// The model-free decode state, for contracts.
    pub closed spec fn state_spec(&self) -> DecodeState {
        self.state
    }

    /// Builds a generator: computes the image embedding once, seeds the
    /// token sequence and the seeded sampler.
    pub fn new(model: ModelHandle, tokenizer: tokenizers::Tokenizer, image: &candle_core::Tensor)
        -> (r: Result<Generator, CaptionError>)
        ensures
            r matches Ok(g) ==> {
                &&& g.state_spec().wf()
                &&& !g.state_spec().is_finished()
                &&& g.state_spec().generated() == Seq::<u32>::empty()
                &&& g.state_spec().emitted_text() == Seq::<char>::empty()
                &&& g.state_spec().vocab() == tokenizer
                &&& g.state_spec().steps_taken() == 0
            },
            r matches Err(e) ==> e == CaptionError::InferenceError,
    {
        let image_embeds = match model.image_embedding(image) {
            Ok(t) => t,
            Err(e) => {
                return Err(e);
            },
        };
        Ok(Generator { model, image_embeds, sampler: Sampler::new(), state: DecodeState::new(tokenizer) })
    }

    /// Runs one decode step: budget check, forward pass on the context
    /// window, one sampled id, stopping decision.  Cancellation between
    /// steps is the caller's choice not to call again; nothing is sampled
    /// after `Finished`.
    pub fn step(&mut self) -> (r: Result<StepEvent, CaptionError>)
        requires
            old(self).state_spec().wf(),
            !old(self).state_spec().is_finished(),
        ensures
            final(self).state_spec().wf(),
            final(self).state_spec().vocab() == old(self).state_spec().vocab(),
            old(self).state_spec().generated().is_prefix_of(final(self).state_spec().generated()),
            r matches Ok(ev) ==> {
                &&& (ev is Finished <==> final(self).state_spec().is_finished())
                &&& (ev is Finished ==> final(self).state_spec().generated() == old(
                    self,
                ).state_spec().generated() && final(self).state_spec().emitted_text() == old(
                    self,
                ).state_spec().emitted_text())
                &&& (!(ev is Finished) ==> final(self).state_spec().generated().len() == old(
                    self,
                ).state_spec().generated().len() + 1 && final(self).state_spec().steps_taken()
                    == old(self).state_spec().steps_taken() + 1 && old(
                    self,
                ).state_spec().steps_taken() < MAX_STEPS)
                &&& (ev matches StepEvent::Fragment(s) ==> final(self).state_spec().emitted_text() == old(
                    self,
                ).state_spec().emitted_text() + s@ && s@.len() > 0)
                &&& (ev is Pending ==> final(self).state_spec().emitted_text() == old(
                    self,
                ).state_spec().emitted_text())
            },
            r is Err ==> final(self).state_spec().is_finished() && final(self).state_spec().emitted_text() == old(self).state_spec().emitted_text(),
            r matches Err(e) ==> e == CaptionError::InferenceError,
            final(self).state_spec().steps_taken() >= old(self).state_spec().steps_taken(),
    {
        let r: Result<StepEvent, CaptionError>;
        if !self.state.budget_left() {
            self.state.stop();
            r = Ok(StepEvent::Finished);
        } else {
            let from = self.state.context_start();
            match self.model.forward_last(self.state.ids(), from, &self.image_embeds) {
                Err(e) => {
                    self.state.stop();
                    r = Err(e);
                },
                Ok(logits) => {
                    match self.sampler.sample(&logits) {
                        Err(e) => {
                            self.state.stop();
                            r = Err(e);
                        },
                        Ok(token) => {
                            r = self.state.consume(token);
                        },
                    }
                },
            }
        }
        proof {
            let a = old(self).state_spec().generated();
            let b = self.state_spec().generated();
            assert(b.subrange(0, a.len() as int) =~= a);
        }
        r
    }

    /// Flushes the trailing remainder after the loop has finished.
    pub fn finish(&mut self) -> (r: Result<Option<String>, CaptionError>)
        requires
            old(self).state_spec().wf(),
        ensures
            final(self).state_spec().wf(),
            final(self).state_spec().vocab() == old(self).state_spec().vocab(),
            final(self).state_spec().generated() == old(self).state_spec().generated(),
            r matches Ok(frag) ==> final(self).state_spec().emitted_text() == old(
                self,
            ).state_spec().emitted_text() + fragment_chars(frag) && (frag matches Some(s)
                ==> s@.len() > 0),
            r is Ok <==> old(self).state_spec().detok_state().flush_ok(),
            r is Ok && prefix_compositional(old(self).state_spec().vocab()) ==> final(self).state_spec().emitted_text() == decode_of(
                old(self).state_spec().vocab(),
                old(self).state_spec().generated(),
            ),
            r matches Err(e) ==> e == CaptionError::InferenceError,
    {
        self.state.finish()
    }

    /// A copy of the generated ids.
    pub fn generated_ids(&self) -> (r: Vec<u32>)
        requires
            self.state_spec().wf(),
        ensures
            r@ == self.state_spec().generated(),
    {
        self.state.generated_ids()
    }
}

/// A finished caption: its text and the ids it decodes.
pub struct Caption {
    /// The caption text: every fragment plus the flushed remainder.
    pub text: String,
    /// The generated token ids, seed and separator excluded.
    pub token_ids: Vec<u32>,
}

/// Runs the whole decode loop against one model and buffers every fragment
/// into a single caption, as the one-shot path does.  The returned ids
/// never include the separator and never exceed the step budget; under a
/// compositional vocabulary the text is exactly their canonical decoding.
pub fn generate_caption(
    model: ModelHandle,
    tokenizer: tokenizers::Tokenizer,
    image: &candle_core::Tensor,
) -> (r: Result<Caption, CaptionError>)
    ensures
        r matches Ok(cap) ==> {
            &&& no_separator(cap.token_ids@)
            &&& cap.token_ids@.len() <= MAX_STEPS
            &&& (prefix_compositional(tokenizer) ==> cap.text@ == decode_of(
                tokenizer,
                cap.token_ids@,
            ))
        },
        r matches Err(e) ==> e == CaptionError::InferenceError,
{
    let mut generator = match Generator::new(model, tokenizer, image) {
        Ok(g) => g,
        Err(e) => {
            return Err(e);
        },
    };
    let mut text = String::new();
    let mut done = false;
    while !done
        invariant
            generator.state_spec().wf(),
            generator.state_spec().vocab() == tokenizer,
            text@ == generator.state_spec().emitted_text(),
            !done ==> !generator.state_spec().is_finished(),
        decreases MAX_STEPS + 1 - generator.state_spec().steps_taken() - (if done { 1int } else { 0 }),
    {
        match generator.step() {
            Ok(StepEvent::Fragment(s)) => {
                text.append(s.as_str());
            },
            Ok(StepEvent::Pending) => {},
            Ok(StepEvent::Finished) => {
                done = true;
            },
            Err(e) => {
                return Err(e);
            },
        }
    }
    let rest = match generator.finish() {
        Ok(f) => f,
        Err(e) => {
            return Err(e);
        },
    };
    if let Some(tail) = rest {
        text.append(tail.as_str());
    }
    let token_ids = generator.generated_ids();
    Ok(Caption { text, token_ids })
}

} // verus!
