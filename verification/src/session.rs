//! The per-connection streaming session: a state machine over inbound
//! frames, and the single-writer framing of one generation's output.
//!
//! The unverified transport shell owns the socket; it feeds every received
//! frame to `Session::on_frame` and performs the command that comes back.
//! The contracts pin every transition: a binary frame starts a caption only
//! from the open state, a close frame or transport failure silences the
//! session for good, and the frames of one completed generation end in
//! exactly one end-of-message sentinel.

use vstd::prelude::*;
use vstd::string::StringExecFns;

use crate::detok::fragment_chars;

verus! {

/// The connection lifecycle.  `Closed` is terminal.
#[derive(Clone, Copy, Debug, PartialEq, Eq, Structural)]
pub enum SessionState {
    /// The protocol upgrade has not completed yet.
    Connecting,
    /// Ready to accept a captioning request.
    Open,
    /// A generation is running for this connection.
    Streaming,
    /// A close frame was received; tear-down is under way.
    Closing,
    /// The session is gone; nothing is sent or received any more.
    Closed,
}

/// One frame received from the client.
pub enum InboundFrame {
    /// Raw image bytes: a captioning request.
    Binary(Vec<u8>),
    /// Ordinary text: observed only.
    Text(String),
    /// A liveness probe: observed only.
    Ping(Vec<u8>),
    /// A liveness acknowledgement: observed only.
    Pong(Vec<u8>),
    /// A termination request, with an optional code and reason.
    Close(Option<(u16, String)>),
}

/// One frame to send to the client.
pub enum OutboundFrame {
    /// A piece of caption text.
    Fragment(String),
    /// The fixed end-of-message marker: no more fragments for this request.
    EndOfMessage,
    /// A liveness probe.
    Ping(Vec<u8>),
    /// A termination frame.
    Close,
}

/// What the transport shell should do after a frame was handled.
pub enum SessionCommand {
    /// Run the captioning pipeline on these image bytes.
    StartCaption(Vec<u8>),
    /// Tear the connection down.
    Disconnect,
    /// Nothing: the frame was observed only.
    Ignore,
}

/// The per-connection state machine.
pub struct Session {
    state: SessionState,
}

impl Session {
    /// The current lifecycle state.
    pub closed spec fn state(&self) -> SessionState {
        self.state
    }

    /// Whether the session may still write to the connection.  After a
    /// close frame or a transport failure this is false for good: the
    /// session ceases producing frames.
    pub open spec fn may_send(&self) -> bool {
        self.state() is Open || self.state() is Streaming
    }

    /// The current lifecycle state, for callers outside contracts.
    pub fn current_state(&self) -> (r: SessionState)
        ensures
            r == self.state(),
    {
        self.state
    }

    /// A session for a freshly accepted connection, before the upgrade.
    pub fn new() -> (r: Session)
        ensures
            r.state() is Connecting,
    {
        Session { state: SessionState::Connecting }
    }

    /// Completes the protocol upgrade: the session opens and immediately
    /// emits the fixed liveness probe, expecting but not requiring a reply.
    pub fn upgrade(&mut self) -> (r: OutboundFrame)
        requires
            old(self).state() is Connecting,
        ensures
            final(self).state() is Open,
            r matches OutboundFrame::Ping(payload) && payload@ == seq![1u8, 2u8, 3u8],
    {
        self.state = SessionState::Open;
        let mut payload: Vec<u8> = Vec::new();
        payload.push(1u8);
        payload.push(2u8);
        payload.push(3u8);
        proof {
            assert(payload@ =~= seq![1u8, 2u8, 3u8]);
        }
        OutboundFrame::Ping(payload)
    }

    /// Handles one inbound frame.  A binary frame starts a caption only
    /// from the open state; while streaming, a second binary frame is left
    /// unserved until the current generation completes.  A close frame
    /// moves towards tear-down from any live state.  Text and liveness
    /// frames are observed only and never alter the state.
    pub fn on_frame(&mut self, frame: InboundFrame) -> (r: SessionCommand)
        ensures
            frame is Close && !(old(self).state() is Closed) ==> final(self).state() is Closing
                && r is Disconnect,
            frame is Close && old(self).state() is Closed ==> final(self).state() is Closed
                && r is Disconnect,
            frame matches InboundFrame::Binary(bytes) ==> {
                &&& (old(self).state() is Open ==> final(self).state() is Streaming && (
                r matches SessionCommand::StartCaption(b) && b@ == bytes@))
                &&& (!(old(self).state() is Open) ==> final(self).state() == old(self).state()
                    && r is Ignore)
            },
            frame is Text || frame is Ping || frame is Pong ==> final(self).state() == old(
                self,
            ).state() && r is Ignore,
            old(self).state() is Closed ==> final(self).state() is Closed,
            !old(self).may_send() ==> !final(self).may_send(),
    {
        match frame {
            InboundFrame::Binary(bytes) => {
                if matches!(self.state, SessionState::Open) {
                    self.state = SessionState::Streaming;
                    SessionCommand::StartCaption(bytes)
                } else {
                    SessionCommand::Ignore
                }
            },
            InboundFrame::Text(_) => SessionCommand::Ignore,
            InboundFrame::Ping(_) => SessionCommand::Ignore,
            InboundFrame::Pong(_) => SessionCommand::Ignore,
            InboundFrame::Close(_) => {
                if !matches!(self.state, SessionState::Closed) {
                    self.state = SessionState::Closing;
                }
                SessionCommand::Disconnect
            },
        }
    }

    /// Marks the current generation complete, after its sentinel went out:
    /// the session returns to accepting further binary frames.
    pub fn complete_generation(&mut self)
        requires
            old(self).state() is Streaming,
        ensures
            final(self).state() is Open,
    {
        self.state = SessionState::Open;
    }

    /// Records a send or receive failure: abrupt tear-down.  No further
    /// frame is attempted; the session never writes again.
    pub fn fail_transport(&mut self)
        ensures
            final(self).state() is Closed,
            !final(self).may_send(),
    {
        self.state = SessionState::Closed;
    }

    /// Finishes a graceful tear-down.
    pub fn finalize_close(&mut self)
        requires
            old(self).state() is Closing,
        ensures
            final(self).state() is Closed,
            !final(self).may_send(),
    {
        self.state = SessionState::Closed;
    }
}

/// The single-writer outbound stream of one generation.  The shell sends
/// each frame this writer hands out, in order: non-empty fragments while
/// the generation runs, then one sealing end-of-message sentinel, after
/// which nothing more can be written.  The ghost log records every frame of
/// the generation's output stream; its invariant pins the sentinel to the
/// last position, present exactly when the stream is sealed.
pub struct GenerationWriter {
    sealed: bool,
    log: Ghost<Seq<OutboundFrame>>,
}

impl GenerationWriter {
    /// Every frame handed out so far, in send order.
    pub closed spec fn frames(&self) -> Seq<OutboundFrame> {
        self.log@
    }

    /// Whether the sentinel went out; no frame may follow it.
    pub closed spec fn is_sealed(&self) -> bool {
        self.sealed
    }

    /// The stream invariant: a frame is the sentinel exactly when it is the
    /// last one of a sealed stream, and every other frame is a non-empty
    /// fragment.
    pub closed spec fn wf(&self) -> bool {
        forall|i: int|
            0 <= i < self.log@.len() ==> ((#[trigger] self.log@[i]) is EndOfMessage <==> (
            self.sealed && i == self.log@.len() - 1)) && (!(self.log@[i] is EndOfMessage)
                ==> self.log@[i] is Fragment && fragment_text(self.log@[i]).len() > 0)
    }

    /// A writer for one generation's output, before any frame went out.
    pub fn new() -> (r: GenerationWriter)
        ensures
            r.wf(),
            !r.is_sealed(),
            r.frames() == Seq::<OutboundFrame>::empty(),
    {
        GenerationWriter { sealed: false, log: Ghost(Seq::<OutboundFrame>::empty()) }
    }

    /// Hands out one caption fragment as its own text frame, immediately
    /// and unbatched, preserving production order.
    pub fn fragment(&mut self, s: String) -> (r: OutboundFrame)
        requires
            old(self).wf(),
            !old(self).is_sealed(),
            s@.len() > 0,
        ensures
            final(self).wf(),
            !final(self).is_sealed(),
            final(self).frames() == old(self).frames().push(OutboundFrame::Fragment(s)),
            r == OutboundFrame::Fragment(s),
    {
        let r = OutboundFrame::Fragment(s);
        proof {
            let ghost pushed = self.log@.push(r);
            assert forall|i: int| 0 <= i < pushed.len() implies ((#[trigger] pushed[i])
                is EndOfMessage <==> (self.sealed && i == pushed.len() - 1)) && (!(pushed[i]
                is EndOfMessage) ==> pushed[i] is Fragment && fragment_text(pushed[i]).len()
                > 0) by {
                if i < pushed.len() - 1 {
                    assert(pushed[i] == self.log@[i]);
                }
            }
        }
        self.log = Ghost(self.log@.push(r));
        r
    }

    /// Seals the stream with the end-of-message sentinel: the guaranteed
    /// last frame of this generation's output, sent exactly once.
    pub fn seal(&mut self) -> (r: OutboundFrame)
        requires
            old(self).wf(),
            !old(self).is_sealed(),
        ensures
            final(self).wf(),
            final(self).is_sealed(),
            final(self).frames() == old(self).frames().push(OutboundFrame::EndOfMessage),
            final(self).frames().last() is EndOfMessage,
            r is EndOfMessage,
    {
        self.sealed = true;
        proof {
            let ghost pushed = self.log@.push(OutboundFrame::EndOfMessage);
            assert forall|i: int| 0 <= i < pushed.len() implies ((#[trigger] pushed[i])
                is EndOfMessage <==> (self.sealed && i == pushed.len() - 1)) && (!(pushed[i]
                is EndOfMessage) ==> pushed[i] is Fragment && fragment_text(pushed[i]).len()
                > 0) by {
                if i < pushed.len() - 1 {
                    assert(pushed[i] == self.log@[i]);
                }
            }
        }
        self.log = Ghost(self.log@.push(OutboundFrame::EndOfMessage));
        OutboundFrame::EndOfMessage
    }
}

/// The caption text carried by a frame; empty for every non-fragment frame.
pub open spec fn fragment_text(f: OutboundFrame) -> Seq<char> {
    match f {
        OutboundFrame::Fragment(s) => s@,
        _ => Seq::<char>::empty(),
    }
}

/// The caption text carried by a frame sequence, in order.
pub open spec fn frames_text(frames: Seq<OutboundFrame>) -> Seq<char>
    decreases frames.len(),
{
    if frames.len() == 0 {
        Seq::<char>::empty()
    } else {
        fragment_text(frames.first()) + frames_text(frames.drop_first())
    }
}

/// The concatenation of a sequence of texts.
pub open spec fn concat_texts(l: Seq<Seq<char>>) -> Seq<char>
    decreases l.len(),
{
    if l.len() == 0 {
        Seq::<char>::empty()
    } else {
        l.first() + concat_texts(l.drop_first())
    }
}

/// The text of each frame, in order; the sentinel and control frames carry
/// none.
pub open spec fn frame_texts(frames: Seq<OutboundFrame>) -> Seq<Seq<char>> {
    frames.map_values(|f: OutboundFrame| fragment_text(f))
}

/// The flush remainder as a sequence of zero or one texts.
pub open spec fn rest_texts(rest: Option<String>) -> Seq<Seq<char>> {
    match rest {
        Some(s) => seq![s@],
        None => Seq::<Seq<char>>::empty(),
    }
}

/// The non-empty texts of a sequence, in order.
pub open spec fn non_empty_texts(l: Seq<Seq<char>>) -> Seq<Seq<char>>
    decreases l.len(),
{
    if l.len() == 0 {
        Seq::<Seq<char>>::empty()
    } else if l.first().len() > 0 {
        seq![l.first()] + non_empty_texts(l.drop_first())
    } else {
        non_empty_texts(l.drop_first())
    }
}

proof fn lemma_non_empty_texts_push(l: Seq<Seq<char>>, x: Seq<char>)
    ensures
        x.len() > 0 ==> non_empty_texts(l.push(x)) == non_empty_texts(l).push(x),
        x.len() == 0 ==> non_empty_texts(l.push(x)) == non_empty_texts(l),
    decreases l.len(),
{
    if l.len() == 0 {
        assert(l.push(x).drop_first() =~= l);
        assert(l.push(x).first() == x);
        if x.len() > 0 {
            assert(seq![x] + non_empty_texts(l) =~= non_empty_texts(l).push(x));
        }
    } else {
        assert(l.push(x).first() == l.first());
        assert(l.push(x).drop_first() =~= l.drop_first().push(x));
        lemma_non_empty_texts_push(l.drop_first(), x);
        if x.len() > 0 && l.first().len() > 0 {
            assert(seq![l.first()] + non_empty_texts(l.drop_first()).push(x) =~= (seq![l.first()]
                + non_empty_texts(l.drop_first())).push(x));
        }
    }
}

proof fn lemma_non_empty_texts_len(l: Seq<Seq<char>>)
    ensures
        non_empty_texts(l).len() <= l.len(),
    decreases l.len(),
{
    if l.len() > 0 {
        lemma_non_empty_texts_len(l.drop_first());
    }
}

proof fn lemma_concat_texts_push(l: Seq<Seq<char>>, x: Seq<char>)
    ensures
        concat_texts(l.push(x)) == concat_texts(l) + x,
    decreases l.len(),
{
    if l.len() == 0 {
        assert(l.push(x).drop_first() =~= l);
        assert(concat_texts(l.push(x)) == x + concat_texts(l));
        assert(x + Seq::<char>::empty() =~= x);
        assert(concat_texts(l) + x =~= x);
    } else {
        assert(l.push(x).first() == l.first());
        assert(l.push(x).drop_first() =~= l.drop_first().push(x));
        lemma_concat_texts_push(l.drop_first(), x);
        assert((l.first() + concat_texts(l.drop_first())) + x =~= l.first() + (concat_texts(
            l.drop_first(),
        ) + x));
    }
}

proof fn lemma_frames_text_push(frames: Seq<OutboundFrame>, f: OutboundFrame)
    ensures
        frames_text(frames.push(f)) == frames_text(frames) + fragment_text(f),
    decreases frames.len(),
{
    if frames.len() == 0 {
        assert(frames.push(f).drop_first() =~= frames);
        assert(frames_text(frames.push(f)) == fragment_text(f) + frames_text(frames));
        assert(fragment_text(f) + Seq::<char>::empty() =~= fragment_text(f));
        assert(frames_text(frames) + fragment_text(f) =~= fragment_text(f));
    } else {
        assert(frames.push(f).first() == frames.first());
        assert(frames.push(f).drop_first() =~= frames.drop_first().push(f));
        lemma_frames_text_push(frames.drop_first(), f);
        assert((fragment_text(frames.first()) + frames_text(frames.drop_first())) + fragment_text(
            f,
        ) =~= fragment_text(frames.first()) + (frames_text(frames.drop_first()) + fragment_text(
            f,
        )));
    }
}

proof fn lemma_frame_texts_push(frames: Seq<OutboundFrame>, f: OutboundFrame)
    ensures
        frame_texts(frames.push(f)) == frame_texts(frames).push(fragment_text(f)),
{
    assert(frame_texts(frames.push(f)) =~= frame_texts(frames).push(fragment_text(f)));
}

/// The outbound frames of one completed generation: every non-empty
/// fragment as its own text frame, in order and unbatched, then exactly one
/// end-of-message sentinel as the last frame, so the client can detect
/// completion without relying on connection closure.  The frames carry the
/// full caption: every fragment plus the flushed remainder.
pub fn generation_frames(fragments: &Vec<String>, rest: &Option<String>) -> (r: Vec<OutboundFrame>)
    ensures
        r@.len() >= 1,
        r@.len() <= fragments@.len() + 2,
        r@.last() is EndOfMessage,
        forall|i: int|
            0 <= i < r@.len() - 1 ==> (#[trigger] r@[i]) is Fragment && fragment_text(r@[i]).len()
                > 0,
        frame_texts(r@) == non_empty_texts(
            fragments@.map_values(|s: String| s@) + rest_texts(*rest),
        ).push(Seq::<char>::empty()),
        frames_text(r@) == concat_texts(fragments@.map_values(|s: String| s@)) + fragment_chars(
            *rest,
        ),
{
    let ghost texts = fragments@.map_values(|s: String| s@);
    let ghost all_texts = texts + rest_texts(*rest);
    let mut frames: Vec<OutboundFrame> = Vec::new();
    let mut i: usize = 0;
    proof {
        assert(texts.take(0) =~= Seq::<Seq<char>>::empty());
        assert(frame_texts(frames@) =~= Seq::<Seq<char>>::empty());
    }
    while i < fragments.len()
        invariant
            i <= fragments@.len(),
            texts == fragments@.map_values(|s: String| s@),
            frames@.len() <= i,
            frames_text(frames@) == concat_texts(texts.take(i as int)),
            frame_texts(frames@) == non_empty_texts(texts.take(i as int)),
            forall|j: int|
                0 <= j < frames@.len() ==> (#[trigger] frames@[j]) is Fragment && fragment_text(
                    frames@[j],
                ).len() > 0,
        decreases fragments@.len() - i,
    {
        let ghost prev_frames = frames@;
        if fragments[i].as_str().unicode_len() > 0 {
            let frag = String::from_str(fragments[i].as_str());
            frames.push(OutboundFrame::Fragment(frag));
        }
        proof {
            assert(texts.take(i + 1) =~= texts.take(i as int).push(texts[i as int]));
            lemma_concat_texts_push(texts.take(i as int), texts[i as int]);
            lemma_non_empty_texts_push(texts.take(i as int), texts[i as int]);
            if fragments@[i as int]@.len() > 0 {
                assert(frames@ == prev_frames.push(frames@.last()));
                lemma_frames_text_push(prev_frames, frames@.last());
                lemma_frame_texts_push(prev_frames, frames@.last());
                assert(fragment_text(frames@.last()) == texts[i as int]);
            } else {
                assert(texts[i as int] =~= Seq::<char>::empty());
                assert(concat_texts(texts.take(i as int)) + texts[i as int] =~= concat_texts(
                    texts.take(i as int),
                ));
            }
        }
        i = i + 1;
    }
    proof {
        assert(texts.take(texts.len() as int) =~= texts);
    }
    let ghost before_rest = frames@;
    match rest {
        Some(s) => {
            proof {
                assert(all_texts =~= texts.push(s@));
                lemma_non_empty_texts_push(texts, s@);
            }
            if s.as_str().unicode_len() > 0 {
                let frag = String::from_str(s.as_str());
                frames.push(OutboundFrame::Fragment(frag));
                proof {
                    assert(frames@ == before_rest.push(frames@.last()));
                    lemma_frames_text_push(before_rest, frames@.last());
                    lemma_frame_texts_push(before_rest, frames@.last());
                    assert(fragment_text(frames@.last()) == s@);
                }
            } else {
                proof {
                    assert(s@ =~= Seq::<char>::empty());
                    assert(frames_text(frames@) + fragment_chars(*rest) =~= frames_text(frames@));
                }
            }
        },
        None => {
            proof {
                assert(all_texts =~= texts);
                assert(frames_text(frames@) + fragment_chars(*rest) =~= frames_text(frames@));
            }
        },
    }
    let ghost before_sentinel = frames@;
    frames.push(OutboundFrame::EndOfMessage);
    proof {
        lemma_frames_text_push(before_sentinel, OutboundFrame::EndOfMessage);
        lemma_frame_texts_push(before_sentinel, OutboundFrame::EndOfMessage);
        assert(frames@ =~= before_sentinel.push(OutboundFrame::EndOfMessage));
        assert(frames_text(frames@) =~= frames_text(before_sentinel));
        assert(fragment_text(OutboundFrame::EndOfMessage) =~= Seq::<char>::empty());
        lemma_non_empty_texts_len(all_texts);
        assert(frames@.len() == frame_texts(frames@).len());
    }
    frames
}

} // verus!
