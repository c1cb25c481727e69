//! Incremental detokenization: turning a growing token-id sequence into
//! flushable text fragments.
//!
//! The vocabulary may merge several token ids into one printable unit, so a
//! freshly appended id cannot always be rendered at once.  The detokenizer
//! keeps a window of ids whose text is not yet stable and emits a fragment
//! only once the decoded window grows by a printable tail.  Concatenating
//! every emitted fragment and the final flushed remainder reconstructs the
//! canonical decoding of the whole sequence; that law is carried through the
//! contracts here via the ghost `emitted` record, under the hypothesis that
//! the vocabulary's decoding distributes over concatenation at the emission
//! boundaries.

use vstd::prelude::*;
use vstd::string::StringExecFns;

use crate::error::CaptionError;

verus! {

/// Declares tokenizers::Tokenizer: the vocabulary, opaque to the verifier,
/// carried through the detokenizer and reached only via `decode_range`.
#[verifier::external_type_specification]
#[verifier::external_body]
pub struct ExTokenizer(tokenizers::Tokenizer);

/// The canonical text of a token-id sequence under a vocabulary, with
/// special tokens skipped: what tokenizers::Tokenizer::decode returns.  For
/// a fixed vocabulary it is a function of the ids alone.
pub uninterp spec fn decode_of(t: tokenizers::Tokenizer, ids: Seq<u32>) -> Seq<char>;

/// Whether decoding a token-id sequence under a vocabulary succeeds.
/// Decoding is deterministic in the tokenizer value and the ids, so the
/// outcome is a function of the two alone.
pub uninterp spec fn decode_ok_of(t: tokenizers::Tokenizer, ids: Seq<u32>) -> bool;

/// Relies on tokenizers::Tokenizer::decode with special tokens skipped: the
/// outcome and the text depend only on the tokenizer's vocabulary and the
/// given ids, so two calls on the same slice return the same result.
#[verifier::external_body]
fn decode_range(t: &tokenizers::Tokenizer, ids: &Vec<u32>, from: usize, to: usize) -> (r: Result<
    String,
    CaptionError,
>)
    requires
        from <= to <= ids@.len(),
    ensures
        r is Ok <==> decode_ok_of(*t, ids@.subrange(from as int, to as int)),
        r matches Ok(s) ==> s@ == decode_of(*t, ids@.subrange(from as int, to as int)),
        r matches Err(e) ==> e == CaptionError::InferenceError,
{
    match t.decode(&ids[from..to], true) {
        Ok(s) => Ok(s),
        Err(_) => Err(CaptionError::InferenceError),
    }
}

/// Whether a character counts as alphanumeric: what char::is_alphanumeric
/// returns, a classification of the character alone.
pub uninterp spec fn is_alphanumeric_char(c: char) -> bool;

/// Relies on char::is_alphanumeric: a pure classification of the character.
#[verifier::external_body]
fn char_is_alphanumeric(c: char) -> (r: bool)
    ensures
        r == is_alphanumeric_char(c),
{
    c.is_alphanumeric()
}

/// Whether a vocabulary's decoding distributes over concatenation.  The
/// incremental round-trip guarantee holds under this hypothesis; a
/// vocabulary whose decoder inserts joining text between independently
/// decoded parts falls outside it.
pub open spec fn prefix_compositional(t: tokenizers::Tokenizer) -> bool {
    forall|a: Seq<u32>, b: Seq<u32>|
        #[trigger] decode_of(t, a + b) == decode_of(t, a) + decode_of(t, b)
}

/// Under a compositional vocabulary the empty sequence decodes to no text.
pub proof fn lemma_decode_empty(t: tokenizers::Tokenizer)
    requires
        prefix_compositional(t),
    ensures
        decode_of(t, Seq::<u32>::empty()) == Seq::<char>::empty(),
{
    let e = Seq::<u32>::empty();
    assert(e + e =~= e);
    assert(decode_of(t, e + e) == decode_of(t, e) + decode_of(t, e));
    assert(decode_of(t, e).len() == 0);
    assert(decode_of(t, e) =~= Seq::<char>::empty());
}

/// Under a compositional vocabulary a sequence's text splits at any index.
pub proof fn lemma_decode_split(t: tokenizers::Tokenizer, ids: Seq<u32>, mid: int)
    requires
        prefix_compositional(t),
        0 <= mid <= ids.len(),
    ensures
        decode_of(t, ids) == decode_of(t, ids.take(mid)) + decode_of(t, ids.skip(mid)),
{
    assert(ids.take(mid) + ids.skip(mid) =~= ids);
    assert(decode_of(t, ids.take(mid) + ids.skip(mid)) == decode_of(t, ids.take(mid)) + decode_of(
        t,
        ids.skip(mid),
    ));
}

/// The shape of an emitted fragment, as text.
pub open spec fn fragment_chars(frag: Option<String>) -> Seq<char> {
    match frag {
        Some(s) => s@,
        None => Seq::<char>::empty(),
    }
}

/// Incremental detokenizer over one vocabulary.
///
/// `tokens` is the full id sequence seen so far; ids before `window_start`
/// have had their text emitted, ids in `window_start..window_mid` were part
/// of the last emission decision, and the tail is still unstable.  The ghost
/// `emitted` records the concatenation of every fragment handed out.
pub struct Detokenizer {
    tokenizer: tokenizers::Tokenizer,
    tokens: Vec<u32>,
    prev_index: usize,
    current_index: usize,
    emitted: Ghost<Seq<char>>,
}

impl Detokenizer {
    /// The vocabulary this detokenizer decodes with.
    pub closed spec fn vocab(&self) -> tokenizers::Tokenizer {
        self.tokenizer
    }

    /// Every token id pushed so far, in order.
    pub closed spec fn token_seq(&self) -> Seq<u32> {
        self.tokens@
    }

    /// The concatenation of every fragment returned so far.
    pub closed spec fn emitted_text(&self) -> Seq<char> {
        self.emitted@
    }

    /// Start of the decode window: ids before it are fully emitted.
    pub closed spec fn window_start(&self) -> int {
        self.prev_index as int
    }

    /// Boundary of the last emission decision inside the window.
    pub closed spec fn window_mid(&self) -> int {
        self.current_index as int
    }

    /// Whether the buffered remainder has been flushed out.
    pub open spec fn drained(&self) -> bool {
        self.window_start() == self.token_seq().len() && self.window_mid()
            == self.token_seq().len()
    }

    /// Whether appending this token succeeds: both window decodes — the
    /// decided prefix and the grown window — succeed.
    pub open spec fn push_ok(&self, token: u32) -> bool {
        &&& decode_ok_of(
            self.vocab(),
            self.token_seq().subrange(self.window_start(), self.window_mid()),
        )
        &&& decode_ok_of(self.vocab(), self.token_seq().push(token).skip(self.window_start()))
    }

    /// Whether flushing succeeds: nothing is pending, or both window
    /// decodes succeed.
    pub open spec fn flush_ok(&self) -> bool {
        self.drained() || (decode_ok_of(
            self.vocab(),
            self.token_seq().subrange(self.window_start(), self.window_mid()),
        ) && decode_ok_of(self.vocab(), self.token_seq().skip(self.window_start())))
    }

    /// Structural invariant, and the emission ledger: under a compositional
    /// vocabulary, the emitted text is exactly the decoding of the ids up to
    /// the emission boundary.
    pub closed spec fn wf(&self) -> bool {
        &&& self.prev_index <= self.current_index <= self.tokens@.len()
        &&& (prefix_compositional(self.tokenizer) ==> self.emitted@ == decode_of(
            self.tokenizer,
            self.tokens@.take(self.current_index as int),
        ))
    }

    /// A fresh detokenizer with no ids and no emitted text.
    pub fn new(tokenizer: tokenizers::Tokenizer) -> (r: Detokenizer)
        ensures
            r.wf(),
            r.drained(),
            r.vocab() == tokenizer,
            r.token_seq() == Seq::<u32>::empty(),
            r.emitted_text() == Seq::<char>::empty(),
    {
        let r = Detokenizer {
            tokenizer,
            tokens: Vec::new(),
            prev_index: 0,
            current_index: 0,
            emitted: Ghost(Seq::<char>::empty()),
        };
        proof {
            if prefix_compositional(r.tokenizer) {
                lemma_decode_empty(r.tokenizer);
                assert(r.tokens@.take(0) =~= Seq::<u32>::empty());
            }
        }
        r
    }

    /// Appends one token id and returns the newly stable piece of text, if
    /// the decoded window grew by a printable tail.  A fragment comes back
    /// exactly when the window's text got longer and now ends in an
    /// alphanumeric character; it is the text past the previously decided
    /// prefix.  The ghost ledger grows by exactly the returned fragment.
    pub fn push(&mut self, token: u32) -> (r: Result<Option<String>, CaptionError>)
        requires
            old(self).wf(),
        ensures
            final(self).wf(),
            final(self).vocab() == old(self).vocab(),
            r matches Ok(frag) ==> {
                let full = decode_of(
                    old(self).vocab(),
                    old(self).token_seq().push(token).skip(old(self).window_start()),
                );
                let prev = decode_of(
                    old(self).vocab(),
                    old(self).token_seq().subrange(
                        old(self).window_start(),
                        old(self).window_mid(),
                    ),
                );
                &&& final(self).token_seq() == old(self).token_seq().push(token)
                &&& final(self).emitted_text() == old(self).emitted_text() + fragment_chars(frag)
                &&& (frag is Some <==> full.len() > prev.len() && is_alphanumeric_char(
                    full.last(),
                ))
                &&& (frag matches Some(s) ==> s@ == full.skip(prev.len() as int) && s@.len() > 0)
            },
            r is Ok <==> old(self).push_ok(token),
            r matches Err(e) ==> e == CaptionError::InferenceError,
            r is Err ==> final(self).emitted_text() == old(self).emitted_text()
                && final(self).token_seq() == old(self).token_seq().push(token),
    {
        let ghost old_tokens = self.tokens@;
        self.tokens.push(token);
        proof {
            assert(self.tokens@.take(self.current_index as int) =~= old_tokens.take(
                self.current_index as int,
            ));
            assert(self.tokens@.subrange(self.prev_index as int, self.current_index as int)
                =~= old_tokens.subrange(self.prev_index as int, self.current_index as int));
            assert(self.tokens@.subrange(self.prev_index as int, self.tokens@.len() as int)
                =~= self.tokens@.skip(self.prev_index as int));
        }
        let prev_text = match decode_range(
            &self.tokenizer,
            &self.tokens,
            self.prev_index,
            self.current_index,
        ) {
            Ok(s) => s,
            Err(e) => {
                return Err(e);
            },
        };
        let text = match decode_range(
            &self.tokenizer,
            &self.tokens,
            self.prev_index,
            self.tokens.len(),
        ) {
            Ok(s) => s,
            Err(e) => {
                return Err(e);
            },
        };
        proof {
            assert(self.tokens@.subrange(self.prev_index as int, self.tokens@.len() as int)
                =~= self.tokens@.skip(self.prev_index as int));
            assert(self.tokens@.subrange(self.prev_index as int, self.current_index as int)
                =~= old_tokens.subrange(self.prev_index as int, self.current_index as int));
        }
        let prev_len = prev_text.as_str().unicode_len();
        let text_len = text.as_str().unicode_len();
        if text_len > prev_len {
            let last = text.as_str().get_char(text_len - 1);
            if char_is_alphanumeric(last) {
                let frag_str = text.as_str().substring_char(prev_len, text_len);
                let frag = String::from_str(frag_str);
                proof {
                    let t = self.tokenizer;
                    let p = self.prev_index as int;
                    let c = self.current_index as int;
                    let all = self.tokens@;
                    if prefix_compositional(t) {
                        lemma_decode_split(t, all.skip(p), c - p);
                        assert(all.skip(p).take(c - p) =~= all.subrange(p, c));
                        assert(all.skip(p).skip(c - p) =~= all.skip(c));
                        // text = prev + tail, so the fragment is the tail
                        assert(text@ == prev_text@ + decode_of(t, all.skip(c)));
                        assert(frag@ =~= decode_of(t, all.skip(c)));
                        lemma_decode_split(t, all, c);
                        assert(self.emitted@ + frag@ == decode_of(t, all));
                        assert(all.take(all.len() as int) =~= all);
                    }
                    assert(text@.last() == frag@.last());
                }
                self.emitted = Ghost(self.emitted@ + frag@);
                self.prev_index = self.current_index;
                self.current_index = self.tokens.len();
                return Ok(Some(frag));
            }
        }
        Ok(None)
    }

    /// Returns the buffered-but-unemitted trailing text exactly once.  On
    /// success the detokenizer is drained, so a second flush returns nothing
    /// and changes nothing; and under a compositional vocabulary the ghost
    /// ledger then equals the canonical decoding of the whole id sequence:
    /// the emitted fragments plus this remainder reconstruct the caption.
    pub fn flush(&mut self) -> (r: Result<Option<String>, CaptionError>)
        requires
            old(self).wf(),
        ensures
            final(self).wf(),
            final(self).vocab() == old(self).vocab(),
            final(self).token_seq() == old(self).token_seq(),
            r matches Ok(frag) ==> final(self).emitted_text() == old(self).emitted_text()
                + fragment_chars(frag) && (frag matches Some(s) ==> s@.len() > 0),
            r is Ok ==> final(self).drained(),
            r is Ok && prefix_compositional(old(self).vocab()) ==> final(self).emitted_text()
                == decode_of(old(self).vocab(), old(self).token_seq()),
            r is Ok <==> old(self).flush_ok(),
            r matches Err(e) ==> e == CaptionError::InferenceError,
            old(self).drained() ==> r == Ok::<Option<String>, CaptionError>(None) && *final(self)
                == *old(self),
            r is Err ==> final(self).emitted_text() == old(self).emitted_text(),
    {
        proof {
            if prefix_compositional(self.tokenizer) && self.drained() {
                assert(self.tokens@.take(self.tokens@.len() as int) =~= self.tokens@);
            }
        }
        if self.prev_index == self.tokens.len() && self.current_index == self.tokens.len() {
            return Ok(None);
        }
        proof {
            assert(self.tokens@.subrange(self.prev_index as int, self.tokens@.len() as int)
                =~= self.tokens@.skip(self.prev_index as int));
        }
        let prev_text = match decode_range(
            &self.tokenizer,
            &self.tokens,
            self.prev_index,
            self.current_index,
        ) {
            Ok(s) => s,
            Err(e) => {
                return Err(e);
            },
        };
        let text = match decode_range(
            &self.tokenizer,
            &self.tokens,
            self.prev_index,
            self.tokens.len(),
        ) {
            Ok(s) => s,
            Err(e) => {
                return Err(e);
            },
        };
        proof {
            let t = self.tokenizer;
            let p = self.prev_index as int;
            let c = self.current_index as int;
            let all = self.tokens@;
            assert(all.subrange(p, all.len() as int) =~= all.skip(p));
            if prefix_compositional(t) {
                lemma_decode_split(t, all.skip(p), c - p);
                assert(all.skip(p).take(c - p) =~= all.subrange(p, c));
                assert(all.skip(p).skip(c - p) =~= all.skip(c));
                assert(text@ == prev_text@ + decode_of(t, all.skip(c)));
                lemma_decode_split(t, all, c);
                assert(all.take(all.len() as int) =~= all);
            }
        }
        let prev_len = prev_text.as_str().unicode_len();
        let text_len = text.as_str().unicode_len();
        if text_len > prev_len {
            let frag_str = text.as_str().substring_char(prev_len, text_len);
            let frag = String::from_str(frag_str);
            proof {
                let t = self.tokenizer;
                let c = self.current_index as int;
                let all = self.tokens@;
                if prefix_compositional(t) {
                    assert(frag@ =~= decode_of(t, all.skip(c)));
                    assert(self.emitted@ + frag@ == decode_of(t, all));
                }
            }
            self.emitted = Ghost(self.emitted@ + frag@);
            self.prev_index = self.tokens.len();
            self.current_index = self.tokens.len();
            return Ok(Some(frag));
        }
        proof {
            let t = self.tokenizer;
            let c = self.current_index as int;
            let all = self.tokens@;
            if prefix_compositional(t) {
                // the tail decodes to no text, so everything was emitted
                assert(decode_of(t, all.skip(c)).len() == 0);
                assert(decode_of(t, all.skip(c)) =~= Seq::<char>::empty());
                assert(self.emitted@ == decode_of(t, all));
            }
        }
        self.prev_index = self.tokens.len();
        self.current_index = self.tokens.len();
        Ok(None)
    }
}

} // verus!
