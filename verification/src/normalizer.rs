//! The streaming write filter that puts outbound bytes into canonical form.
//!
//! The filter is fed chunk by chunk. Under the boundary-safe policy it holds
//! back a trailing carriage return until the next byte shows whether it is
//! already paired with a line feed, so that the bytes it has released, taken
//! together, never depend on where the chunks were cut.

use vstd::prelude::*;
use crate::line_endings::{
    canonical, canonical_after, canonical_byte, ends_in_cr, is_canonical, lemma_canonical_concat,
    lemma_canonical_form_is_canonical, lemma_canonical_keeps_every_byte, lemma_canonical_push,
    lemma_sentinel_concat, lemma_sentinel_keeps_every_byte, lemma_sentinel_rewrite_is_canonical,
    sentinel_byte, sentinel_rewrite, without_cr, without_cr_and_nul, CR, LF, NUL,
};

verus! {

/// How line endings are rewritten.
#[derive(Clone, Copy, Debug, PartialEq, Eq, Structural)]
pub enum Policy {
    /// Memoryless: every carriage return is followed by the sentinel byte
    /// and every line feed is preceded by a carriage return, whatever stands
    /// next to it, so that a pair that is already there comes out as four
    /// bytes.
    Simple,
    /// Exact across chunk boundaries: only bare line feeds are rewritten, and
    /// a trailing carriage return is deferred to the next write.
    BoundarySafe,
}

/// The carriage return that is being held back, if one is.
pub open spec fn held(pending_cr: bool) -> Seq<u8> {
    if pending_cr {
        seq![CR]
    } else {
        Seq::empty()
    }
}

/// The bytes that one boundary-safe write releases: what was held back
/// followed by the canonical form of the chunk, short of a trailing carriage
/// return, which is held back in turn.
pub open spec fn released(pending_cr: bool, chunk: Seq<u8>) -> Seq<u8> {
    let full = held(pending_cr) + canonical_after(pending_cr, chunk);
    if ends_in_cr(pending_cr, chunk) {
        full.drop_last()
    } else {
        full
    }
}

/// Rewrites one chunk under the simple policy.
pub fn rewrite_simple(chunk: &[u8]) -> (out: Vec<u8>)
    ensures
        out@ == sentinel_rewrite(chunk@),
{
    let mut out: Vec<u8> = Vec::new();
    let mut i: usize = 0;
    while i < chunk.len()
        invariant
            i <= chunk.len(),
            out@ == sentinel_rewrite(chunk@.take(i as int)),
        decreases chunk.len() - i,
    {
        let b: u8 = chunk[i];
        if b == CR {
            out.push(CR);
            out.push(NUL);
        } else if b == LF {
            out.push(CR);
            out.push(LF);
        } else {
            out.push(b);
        }
        proof {
            chunk@.lemma_flat_map_take_append(|b: u8| sentinel_byte(b), i as int);
        }
        i += 1;
    }
    assert(chunk@.take(i as int) =~= chunk@);
    out
}

/// Rewrites one chunk under the boundary-safe policy. `pending_cr` says
/// whether a carriage return from the previous chunk is still held back; the
/// second component of the result says the same for the next chunk.
pub fn rewrite_boundary_safe(pending_cr: bool, chunk: &[u8]) -> (res: (Vec<u8>, bool))
    ensures
        res.0@ == released(pending_cr, chunk@),
        res.1 == ends_in_cr(pending_cr, chunk@),
{
    let mut out: Vec<u8> = Vec::new();
    let mut pending: bool = pending_cr;
    let mut i: usize = 0;
    while i < chunk.len()
        invariant
            i <= chunk.len(),
            pending == ends_in_cr(pending_cr, chunk@.take(i as int)),
            out@ + held(pending) == held(pending_cr) + canonical_after(
                pending_cr,
                chunk@.take(i as int),
            ),
        decreases chunk.len() - i,
    {
        let b: u8 = chunk[i];
        let ghost before = out@ + held(pending);
        let ghost was_pending = pending;
        proof {
            assert(chunk@.take(i + 1) =~= chunk@.take(i as int).push(b));
            lemma_canonical_push(pending_cr, chunk@.take(i as int), b);
        }
        if b == LF {
            // Either the held carriage return pairs with this line feed, or
            // the line feed is bare and gets one.
            out.push(CR);
            out.push(LF);
            pending = false;
        } else {
            if pending {
                out.push(CR);
            }
            if b == CR {
                pending = true;
            } else {
                out.push(b);
                pending = false;
            }
        }
        assert(out@ + held(pending) =~= before + canonical_byte(was_pending, b));
        i += 1;
    }
    assert(chunk@.take(i as int) =~= chunk@);
    (out, pending)
}

/// What a normalizer remembers between writes.
pub struct NormalizerState {
    /// The policy it was made with.
    pub policy: Policy,
    /// Whether the last byte it accepted was a carriage return that it has
    /// not released yet.
    pub pending_cr: bool,
}

impl NormalizerState {
    /// The state before any byte has been written.
    pub open spec fn fresh(policy: Policy) -> NormalizerState {
        NormalizerState { policy, pending_cr: false }
    }

    /// The bytes that are still held back.
    pub open spec fn residue(self) -> Seq<u8> {
        match self.policy {
            Policy::Simple => Seq::empty(),
            Policy::BoundarySafe => held(self.pending_cr),
        }
    }

    /// The bytes that writing `chunk` releases to the inner stream.
    pub open spec fn output(self, chunk: Seq<u8>) -> Seq<u8> {
        match self.policy {
            Policy::Simple => sentinel_rewrite(chunk),
            Policy::BoundarySafe => released(self.pending_cr, chunk),
        }
    }

    /// The state after writing `chunk`.
    pub open spec fn next(self, chunk: Seq<u8>) -> NormalizerState {
        match self.policy {
            Policy::Simple => self,
            Policy::BoundarySafe => NormalizerState {
                policy: self.policy,
                pending_cr: ends_in_cr(self.pending_cr, chunk),
            },
        }
    }

    /// The state after the stream has been finished: nothing is held back.
    pub open spec fn settled(self) -> NormalizerState {
        NormalizerState { policy: self.policy, pending_cr: false }
    }

    /// The state after writing `chunks` one after the other.
    pub open spec fn next_all(self, chunks: Seq<Seq<u8>>) -> NormalizerState
        decreases chunks.len(),
    {
        if chunks.len() == 0 {
            self
        } else {
            self.next_all(chunks.drop_last()).next(chunks.last())
        }
    }

    /// Everything that writing `chunks` one after the other releases.
    pub open spec fn output_all(self, chunks: Seq<Seq<u8>>) -> Seq<u8>
        decreases chunks.len(),
    {
        if chunks.len() == 0 {
            Seq::empty()
        } else {
            self.output_all(chunks.drop_last()) + self.next_all(chunks.drop_last()).output(
                chunks.last(),
            )
        }
    }

    /// Everything the inner stream has received once `chunks` have been
    /// written and the stream has been finished.
    pub open spec fn transcript(self, chunks: Seq<Seq<u8>>) -> Seq<u8> {
        self.output_all(chunks) + self.next_all(chunks).residue()
    }
}

/// One boundary-safe write releases, together with what it holds back
/// afterwards, exactly what was held back before followed by the canonical
/// form of the chunk.
pub proof fn lemma_write_accounts_for_every_byte(pending_cr: bool, chunk: Seq<u8>)
    ensures
        released(pending_cr, chunk) + held(ends_in_cr(pending_cr, chunk)) == held(pending_cr)
            + canonical_after(pending_cr, chunk),
{
    if chunk.len() > 0 && chunk.last() == CR {
        // The canonical form of a chunk that ends in a carriage return ends
        // in that carriage return, which is the byte that is held back.
        assert(chunk =~= chunk.drop_last().push(chunk.last()));
        lemma_canonical_push(pending_cr, chunk.drop_last(), chunk.last());
    }
}

/// What a stream of writes releases, together with what is held back at the
/// end, depends on the bytes written and not on how they were cut into
/// chunks: under the boundary-safe policy it is what was held back at the
/// start followed by the canonical form of all the bytes, under the simple
/// policy it is their memoryless rewrite.
pub proof fn lemma_transcript(state: NormalizerState, chunks: Seq<Seq<u8>>)
    ensures
        state.next_all(chunks).policy == state.policy,
        state.policy == Policy::BoundarySafe ==> {
            &&& state.next_all(chunks).pending_cr == ends_in_cr(
                state.pending_cr,
                chunks.flatten(),
            )
            &&& state.transcript(chunks) == held(state.pending_cr) + canonical_after(
                state.pending_cr,
                chunks.flatten(),
            )
        },
        state.policy == Policy::Simple ==> {
            &&& state.next_all(chunks) == state
            &&& state.transcript(chunks) == sentinel_rewrite(chunks.flatten())
        },
    decreases chunks.len(),
{
    if chunks.len() > 0 {
        let front = chunks.drop_last();
        let chunk = chunks.last();
        let mid = state.next_all(front);
        assert(chunks =~= front.push(chunk));
        front.lemma_flatten_push(chunk);
        lemma_transcript(state, front);
        match state.policy {
            Policy::BoundarySafe => {
                lemma_write_accounts_for_every_byte(mid.pending_cr, chunk);
                lemma_canonical_concat(state.pending_cr, front.flatten(), chunk);
                assert(state.transcript(chunks) =~= state.output_all(front) + (released(
                    mid.pending_cr,
                    chunk,
                ) + held(ends_in_cr(mid.pending_cr, chunk))));
                assert(state.transcript(chunks) =~= state.transcript(front) + canonical_after(
                    mid.pending_cr,
                    chunk,
                ));
            },
            Policy::Simple => {
                lemma_sentinel_concat(front.flatten(), chunk);
            },
        }
    }
}

/// Fed to a fresh boundary-safe normalizer in any number of chunks cut at any
/// points, a byte stream comes out in canonical form once it is finished.
pub proof fn lemma_chunked_stream_is_canonical(chunks: Seq<Seq<u8>>)
    ensures
        NormalizerState::fresh(Policy::BoundarySafe).transcript(chunks) == canonical(
            chunks.flatten(),
        ),
{
    lemma_transcript(NormalizerState::fresh(Policy::BoundarySafe), chunks);
}

/// What either policy has sent once a stream is finished has no bare line
/// feed in it, however the stream was cut into chunks.
pub proof fn lemma_stream_has_no_bare_line_feed(policy: Policy, chunks: Seq<Seq<u8>>)
    ensures
        is_canonical(NormalizerState::fresh(policy).transcript(chunks)),
{
    lemma_transcript(NormalizerState::fresh(policy), chunks);
    match policy {
        Policy::BoundarySafe => {
            lemma_canonical_form_is_canonical(false, chunks.flatten());
        },
        Policy::Simple => {
            lemma_sentinel_rewrite_is_canonical(chunks.flatten());
        },
    }
}

/// Writing a stream in chunks gives what writing it as one single chunk
/// gives, from any state and under either policy.
pub proof fn lemma_chunking_is_invisible(state: NormalizerState, chunks: Seq<Seq<u8>>)
    ensures
        state.transcript(chunks) == state.transcript(seq![chunks.flatten()]),
        state.transcript(chunks) == state.output(chunks.flatten()) + state.next(
            chunks.flatten(),
        ).residue(),
{
    let whole = seq![chunks.flatten()];
    lemma_transcript(state, chunks);
    lemma_transcript(state, whole);
    whole.lemma_flatten_singleton();
}

/// Two ways of cutting the same bytes into chunks give the same stream.
pub proof fn lemma_rechunking(state: NormalizerState, first: Seq<Seq<u8>>, second: Seq<Seq<u8>>)
    requires
        first.flatten() == second.flatten(),
    ensures
        state.transcript(first) == state.transcript(second),
{
    lemma_chunking_is_invisible(state, first);
    lemma_chunking_is_invisible(state, second);
}

/// A finished stream is never shorter than what was written, and of the
/// bytes written none but carriage returns and sentinels can be missing from
/// their place in it: under the boundary-safe policy nothing but carriage
/// returns is added, under the simple policy nothing but carriage returns and
/// sentinels.
pub proof fn lemma_no_byte_is_lost(policy: Policy, chunks: Seq<Seq<u8>>)
    ensures
        NormalizerState::fresh(policy).transcript(chunks).len() >= chunks.flatten().len(),
        policy == Policy::BoundarySafe ==> without_cr(
            NormalizerState::fresh(policy).transcript(chunks),
        ) == without_cr(chunks.flatten()),
        policy == Policy::Simple ==> without_cr_and_nul(
            NormalizerState::fresh(policy).transcript(chunks),
        ) == without_cr_and_nul(chunks.flatten()),
{
    lemma_transcript(NormalizerState::fresh(policy), chunks);
    match policy {
        Policy::BoundarySafe => {
            lemma_canonical_keeps_every_byte(false, chunks.flatten());
        },
        Policy::Simple => {
            lemma_sentinel_keeps_every_byte(chunks.flatten());
        },
    }
}

/// A stateful write filter in front of an outbound byte stream.
pub struct LineEndingNormalizer {
    policy: Policy,
    pending_cr: bool,
}

impl View for LineEndingNormalizer {
    type V = NormalizerState;

    closed spec fn view(&self) -> NormalizerState {
        NormalizerState { policy: self.policy, pending_cr: self.pending_cr }
    }
}

impl LineEndingNormalizer {
    /// A normalizer that has seen no byte yet.
    pub fn new(policy: Policy) -> (normalizer: LineEndingNormalizer)
        ensures
            normalizer@ == NormalizerState::fresh(policy),
    {
        LineEndingNormalizer { policy, pending_cr: false }
    }

    /// Accepts all of `chunk` and returns the bytes to hand to the inner
    /// stream, in order.
    pub fn write(&mut self, chunk: &[u8]) -> (out: Vec<u8>)
        ensures
            out@ == old(self)@.output(chunk@),
            final(self)@ == old(self)@.next(chunk@),
    {
        match self.policy {
            Policy::Simple => rewrite_simple(chunk),
            Policy::BoundarySafe => {
                let (out, pending) = rewrite_boundary_safe(self.pending_cr, chunk);
                self.pending_cr = pending;
                out
            },
        }
    }

    /// Ends the stream: returns what is still held back, to be handed to the
    /// inner stream before it is shut down.
    pub fn finish(&mut self) -> (out: Vec<u8>)
        ensures
            out@ == old(self)@.residue(),
            final(self)@ == old(self)@.settled(),
    {
        let mut out: Vec<u8> = Vec::new();
        match self.policy {
            Policy::Simple => {},
            Policy::BoundarySafe => {
                if self.pending_cr {
                    out.push(CR);
                }
            },
        }
        self.pending_cr = false;
        out
    }
}

} // verus!
