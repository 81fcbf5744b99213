//! The mathematical model of line-ending normalization.
//!
//! A byte stream is canonical when every line feed is preceded by a carriage
//! return. `canonical` describes the transform that makes it so by putting a
//! carriage return in front of every bare line feed and leaving every other
//! byte alone. `sentinel_rewrite` describes the simpler, memoryless rewrite.

use vstd::prelude::*;

verus! {

/// Carriage return.
pub const CR: u8 = 0x0D;

/// Line feed.
pub const LF: u8 = 0x0A;

/// The byte that the memoryless rewrite puts behind every carriage return.
pub const NUL: u8 = 0x00;

/// Whether the byte at position `i` of `s` directly follows a carriage
/// return. `after_cr` answers the question for position 0: it says whether
/// the stream that `s` continues ended in a carriage return.
pub open spec fn preceded_by_cr(after_cr: bool, s: Seq<u8>, i: int) -> bool {
    if i == 0 {
        after_cr
    } else {
        s[i - 1] == CR
    }
}

/// Whether a stream ends in a carriage return once `s` has been appended to
/// it, given that it did (`after_cr`) or did not end in one before.
pub open spec fn ends_in_cr(after_cr: bool, s: Seq<u8>) -> bool {
    preceded_by_cr(after_cr, s, s.len() as int)
}

/// What one byte becomes: a bare line feed becomes the canonical terminator,
/// any other byte stays as it is.
pub open spec fn canonical_byte(after_cr: bool, b: u8) -> Seq<u8> {
    if b == LF && !after_cr {
        seq![CR, LF]
    } else {
        seq![b]
    }
}

/// The canonical form of `s` as the continuation of a stream that ended in a
/// carriage return iff `after_cr`: each byte replaced by `canonical_byte`,
/// judged by the byte before it.
pub open spec fn canonical_after(after_cr: bool, s: Seq<u8>) -> Seq<u8> {
    Seq::new(s.len(), |i: int| canonical_byte(preceded_by_cr(after_cr, s, i), s[i])).flatten()
}

/// The canonical form of a whole stream.
pub open spec fn canonical(s: Seq<u8>) -> Seq<u8> {
    canonical_after(false, s)
}

/// Whether `s` is in canonical form as the continuation of a stream that
/// ended in a carriage return iff `after_cr`: every line feed in it directly
/// follows a carriage return.
pub open spec fn is_canonical_after(after_cr: bool, s: Seq<u8>) -> bool {
    forall|i: int| 0 <= i < s.len() && #[trigger] s[i] == LF ==> preceded_by_cr(after_cr, s, i)
}

/// Whether a whole stream is in canonical form.
pub open spec fn is_canonical(s: Seq<u8>) -> bool {
    is_canonical_after(false, s)
}

/// What one byte becomes under the memoryless rewrite: a carriage return is
/// followed by the sentinel, a line feed is preceded by a carriage return.
pub open spec fn sentinel_byte(b: u8) -> Seq<u8> {
    if b == CR {
        seq![CR, NUL]
    } else if b == LF {
        seq![CR, LF]
    } else {
        seq![b]
    }
}

/// The memoryless rewrite of `s`: each byte replaced by `sentinel_byte`.
pub open spec fn sentinel_rewrite(s: Seq<u8>) -> Seq<u8> {
    s.flat_map(|b: u8| sentinel_byte(b))
}

/// Appending one byte appends its replacement.
pub proof fn lemma_canonical_push(after_cr: bool, s: Seq<u8>, b: u8)
    ensures
        canonical_after(after_cr, s.push(b)) == canonical_after(after_cr, s) + canonical_byte(
            ends_in_cr(after_cr, s),
            b,
        ),
        ends_in_cr(after_cr, s.push(b)) == (b == CR),
{
    let t = s.push(b);
    let parts_s = Seq::new(s.len(), |i: int| canonical_byte(preceded_by_cr(after_cr, s, i), s[i]));
    let parts_t = Seq::new(t.len(), |i: int| canonical_byte(preceded_by_cr(after_cr, t, i), t[i]));
    assert(parts_t =~= parts_s.push(canonical_byte(ends_in_cr(after_cr, s), b)));
    parts_s.lemma_flatten_push(canonical_byte(ends_in_cr(after_cr, s), b));
}

/// The canonical form of a concatenation is the canonical form of the first
/// part followed by that of the second, the second judged by how the first
/// ended.
pub proof fn lemma_canonical_concat(after_cr: bool, a: Seq<u8>, b: Seq<u8>)
    ensures
        canonical_after(after_cr, a + b) == canonical_after(after_cr, a) + canonical_after(
            ends_in_cr(after_cr, a),
            b,
        ),
        ends_in_cr(after_cr, a + b) == ends_in_cr(ends_in_cr(after_cr, a), b),
    decreases b.len(),
{
    if b.len() > 0 {
        let b0 = b.drop_last();
        let x = b.last();
        assert(b =~= b0.push(x));
        lemma_canonical_concat(after_cr, a, b0);
        lemma_canonical_push(after_cr, a + b0, x);
        lemma_canonical_push(ends_in_cr(after_cr, a), b0, x);
    }
}

/// The canonical form is canonical: it has no bare line feed, and it ends in
/// a carriage return exactly when the input does.
pub proof fn lemma_canonical_form_is_canonical(after_cr: bool, s: Seq<u8>)
    ensures
        is_canonical_after(after_cr, canonical_after(after_cr, s)),
        ends_in_cr(after_cr, canonical_after(after_cr, s)) == ends_in_cr(after_cr, s),
    decreases s.len(),
{
    if s.len() > 0 {
        let s0 = s.drop_last();
        let x = s.last();
        assert(s =~= s0.push(x));
        lemma_canonical_form_is_canonical(after_cr, s0);
        lemma_canonical_push(after_cr, s0, x);
    }
}

/// A stream that is in canonical form already is left as it is.
pub proof fn lemma_canonical_is_fixed_point(after_cr: bool, s: Seq<u8>)
    requires
        is_canonical_after(after_cr, s),
    ensures
        canonical_after(after_cr, s) == s,
    decreases s.len(),
{
    if s.len() > 0 {
        let s0 = s.drop_last();
        let x = s.last();
        assert(s =~= s0.push(x));
        lemma_canonical_is_fixed_point(after_cr, s0);
        lemma_canonical_push(after_cr, s0, x);
    }
}

/// Normalizing what is normalized already changes nothing.
pub proof fn lemma_canonical_is_idempotent(s: Seq<u8>)
    ensures
        canonical(canonical(s)) == canonical(s),
{
    lemma_canonical_form_is_canonical(false, s);
    lemma_canonical_is_fixed_point(false, canonical(s));
}

/// Whether the stream ended in a carriage return matters only to a line feed
/// that comes first: the canonical form of anything else is the same either
/// way.
pub proof fn lemma_canonical_start(after_cr: bool, s: Seq<u8>)
    requires
        s.len() == 0 || s[0] != LF,
    ensures
        canonical_after(after_cr, s) == canonical(s),
    decreases s.len(),
{
    if s.len() > 0 {
        let s0 = s.drop_last();
        let x = s.last();
        assert(s =~= s0.push(x));
        lemma_canonical_start(after_cr, s0);
        lemma_canonical_push(after_cr, s0, x);
        lemma_canonical_push(false, s0, x);
    }
}

/// The bytes of `s` other than carriage returns, in order.
pub open spec fn without_cr(s: Seq<u8>) -> Seq<u8> {
    s.filter(|b: u8| b != CR)
}

/// The bytes of `s` that are neither a carriage return nor the sentinel, in
/// order.
pub open spec fn without_cr_and_nul(s: Seq<u8>) -> Seq<u8> {
    s.filter(|b: u8| b != CR && b != NUL)
}

/// No byte is lost in canonical form: the result is at least as long as the
/// input and at most twice as long, and nothing but carriage returns is
/// added, so every other byte of the input is still there, in its place among
/// the others.
pub proof fn lemma_canonical_keeps_every_byte(after_cr: bool, s: Seq<u8>)
    ensures
        s.len() <= canonical_after(after_cr, s).len() <= 2 * s.len(),
        without_cr(canonical_after(after_cr, s)) == without_cr(s),
    decreases s.len(),
{
    let pred = |b: u8| b != CR;
    if s.len() > 0 {
        let s0 = s.drop_last();
        let x = s.last();
        let piece = canonical_byte(ends_in_cr(after_cr, s0), x);
        assert(s =~= s0.push(x));
        lemma_canonical_keeps_every_byte(after_cr, s0);
        lemma_canonical_push(after_cr, s0, x);
        s0.lemma_filter_push(x, pred);
        assert(piece.filter(pred) =~= if x != CR {
            seq![x]
        } else {
            Seq::empty()
        }) by {
            reveal_with_fuel(Seq::filter, 3);
            if x == LF && !ends_in_cr(after_cr, s0) {
                assert(piece.drop_last() =~= seq![CR]);
                assert(seq![CR].drop_last() =~= Seq::<u8>::empty());
            } else {
                assert(piece.drop_last() =~= Seq::<u8>::empty());
            }
        }
    }
}

/// The memoryless rewrite treats every byte alike, so it does not matter
/// where a stream is cut.
pub proof fn lemma_sentinel_concat(a: Seq<u8>, b: Seq<u8>)
    ensures
        sentinel_rewrite(a + b) == sentinel_rewrite(a) + sentinel_rewrite(b),
    decreases b.len(),
{
    let f = |b: u8| sentinel_byte(b);
    if b.len() > 0 {
        let b0 = b.drop_last();
        let x = b.last();
        assert(b =~= b0.push(x));
        lemma_sentinel_concat(a, b0);
        (a + b0).lemma_flat_map_push(f, x);
        b0.lemma_flat_map_push(f, x);
    }
}

/// The memoryless rewrite leaves no bare line feed either.
pub proof fn lemma_sentinel_rewrite_is_canonical(s: Seq<u8>)
    ensures
        is_canonical(sentinel_rewrite(s)),
    decreases s.len(),
{
    if s.len() > 0 {
        let s0 = s.drop_last();
        let x = s.last();
        assert(s =~= s0.push(x));
        lemma_sentinel_rewrite_is_canonical(s0);
        s0.lemma_flat_map_push(|b: u8| sentinel_byte(b), x);
    }
}

/// No byte is lost by the memoryless rewrite: the result is at least as long
/// as the input and at most twice as long, and nothing but carriage returns
/// and sentinels is added.
pub proof fn lemma_sentinel_keeps_every_byte(s: Seq<u8>)
    ensures
        s.len() <= sentinel_rewrite(s).len() <= 2 * s.len(),
        without_cr_and_nul(sentinel_rewrite(s)) == without_cr_and_nul(s),
    decreases s.len(),
{
    let pred = |b: u8| b != CR && b != NUL;
    let f = |b: u8| sentinel_byte(b);
    if s.len() > 0 {
        let s0 = s.drop_last();
        let x = s.last();
        let piece = sentinel_byte(x);
        assert(s =~= s0.push(x));
        lemma_sentinel_keeps_every_byte(s0);
        s0.lemma_flat_map_push(f, x);
        s0.lemma_filter_push(x, pred);
        assert(piece.filter(pred) =~= if x != CR && x != NUL {
            seq![x]
        } else {
            Seq::empty()
        }) by {
            reveal_with_fuel(Seq::filter, 3);
            if x == CR {
                assert(piece.drop_last() =~= seq![CR]);
                assert(seq![CR].drop_last() =~= Seq::<u8>::empty());
            } else if x == LF {
                assert(piece.drop_last() =~= seq![CR]);
                assert(seq![CR].drop_last() =~= Seq::<u8>::empty());
            } else {
                assert(piece.drop_last() =~= Seq::<u8>::empty());
            }
        }
    }
}

} // verus!
