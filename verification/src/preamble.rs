//! The preamble: bytes that are sent when a session starts, ahead of any
//! interactive input.
//!
//! The preamble is optional. If it could not be loaded, because there is no
//! such file or because it cannot be read, the session goes on as if it were
//! empty. It passes through the same normalizer as the interactive input that
//! follows it, so the two form one outbound stream.

use vstd::prelude::*;
use crate::line_endings::{
    canonical, ends_in_cr, lemma_canonical_concat, lemma_canonical_start, lemma_sentinel_concat,
    sentinel_rewrite, LF,
};
use crate::normalizer::{
    lemma_chunking_is_invisible, lemma_transcript, LineEndingNormalizer, NormalizerState, Policy,
};

verus! {

/// The bytes of the preamble: what was loaded, or nothing where nothing
/// could be loaded.
pub open spec fn preamble_or_empty(loaded: Option<Vec<u8>>) -> Seq<u8> {
    match loaded {
        Some(bytes) => bytes@,
        None => Seq::empty(),
    }
}

/// Turns the result of trying to load the preamble into the bytes to send.
/// `None` stands for a preamble that is missing or unreadable and is no
/// error: it gives no bytes.
pub fn preamble_bytes(loaded: Option<Vec<u8>>) -> (bytes: Vec<u8>)
    ensures
        bytes@ == preamble_or_empty(loaded),
{
    match loaded {
        Some(bytes) => bytes,
        None => Vec::new(),
    }
}

/// Writes the preamble through `normalizer` and returns the bytes to hand to
/// the remote stream, to be flushed before any interactive input is read.
pub fn send_preamble(normalizer: &mut LineEndingNormalizer, loaded: Option<Vec<u8>>) -> (out: Vec<
    u8,
>)
    ensures
        out@ == old(normalizer)@.output(preamble_or_empty(loaded)),
        final(normalizer)@ == old(normalizer)@.next(preamble_or_empty(loaded)),
        preamble_or_empty(loaded).len() == 0 ==> out@.len() == 0 && final(normalizer)@ == old(
            normalizer,
        )@,
{
    let bytes = preamble_bytes(loaded);
    normalizer.write(bytes.as_slice())
}

/// Writing no bytes releases none and leaves the normalizer as it was.
pub proof fn lemma_empty_write(state: NormalizerState)
    ensures
        state.output(Seq::empty()) == Seq::<u8>::empty(),
        state.next(Seq::empty()) == state,
{
}

/// A preamble that is missing and one that is empty give the same outbound
/// stream: the one that the interactive input alone gives.
pub proof fn lemma_missing_preamble_is_empty_preamble(
    state: NormalizerState,
    empty: Vec<u8>,
    input: Seq<Seq<u8>>,
)
    requires
        empty@.len() == 0,
    ensures
        state.transcript(seq![preamble_or_empty(None)] + input) == state.transcript(input),
        state.transcript(seq![preamble_or_empty(Some(empty))] + input) == state.transcript(input),
{
    let none = Seq::<u8>::empty();
    assert(empty@ =~= none);
    let chunks = seq![none] + input;
    vstd::seq_lib::lemma_flatten_concat(seq![none], input);
    seq![none].lemma_flatten_singleton();
    lemma_chunking_is_invisible(state, chunks);
    lemma_chunking_is_invisible(state, input);
}

/// The preamble comes first on the wire. What a fresh normalizer has sent
/// once the preamble and then the interactive input have been written and the
/// stream has been finished is the rewrite of the preamble's bytes followed
/// by the input's bytes. Under the simple policy, and under the boundary-safe
/// policy unless the preamble ends in a carriage return that the first byte
/// of the input, a line feed, completes, this is the rewritten preamble
/// followed by the rewritten input.
pub proof fn lemma_preamble_precedes_input(
    policy: Policy,
    preamble: Seq<u8>,
    input: Seq<Seq<u8>>,
)
    ensures
        policy == Policy::BoundarySafe ==> NormalizerState::fresh(policy).transcript(
            seq![preamble] + input,
        ) == canonical(preamble + input.flatten()),
        policy == Policy::BoundarySafe && !(ends_in_cr(false, preamble) && input.flatten().len() > 0
            && input.flatten()[0] == LF) ==> NormalizerState::fresh(policy).transcript(
            seq![preamble] + input,
        ) == canonical(preamble) + canonical(input.flatten()),
        policy == Policy::Simple ==> NormalizerState::fresh(policy).transcript(
            seq![preamble] + input,
        ) == sentinel_rewrite(preamble) + sentinel_rewrite(input.flatten()),
{
    let chunks = seq![preamble] + input;
    let rest = input.flatten();
    vstd::seq_lib::lemma_flatten_concat(seq![preamble], input);
    seq![preamble].lemma_flatten_singleton();
    lemma_transcript(NormalizerState::fresh(policy), chunks);
    match policy {
        Policy::BoundarySafe => {
            lemma_canonical_concat(false, preamble, rest);
            if rest.len() == 0 || rest[0] != LF {
                lemma_canonical_start(ends_in_cr(false, preamble), rest);
            }
        },
        Policy::Simple => {
            lemma_sentinel_concat(preamble, rest);
        },
    }
}

} // verus!
