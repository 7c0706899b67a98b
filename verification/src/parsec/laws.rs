//! The library's laws: properties of the combinators that hold for every
//! parser and every input, each proved from the specification relations
//! alone.

use vstd::prelude::*;

use crate::parsec::{ErrView, Parsec};
use crate::parsec::atom::{EndOfInput, Equals, Fail, NoneOf, NotEquals, One, OneOf, Pack};
use crate::parsec::combinator::{Either, Many, Many1, Over, Then, Try, chain, lemma_chain_head, stalled};

verus! {

/// A failure of an attempt-wrapped parser consumes nothing: every run of
/// `attempt(p)` that ends in failure leaves the cursor where the run
/// started.
pub proof fn lemma_attempt_zero_consumption<T, P: Parsec<T>>(
    t: Try<P>,
    s: Seq<T>,
    from: int,
    to: int,
    o: Result<P::Out, ErrView>,
)
    requires
        t.parses(s, from, to, o),
        o is Err,
    ensures
        to == from,
{
}

/// Ordered choice is left-biased: a choice of two always-succeeding parsers
/// always yields the first one's value — a clone of `x`, never `y` — and
/// consumes nothing, whatever the cursor state.
pub proof fn lemma_alternative_left_bias<T: Copy, R: Clone>(
    e: Either<Pack<R>, Pack<R>>,
    x: R,
    y: R,
    s: Seq<T>,
    from: int,
    to: int,
    o: Result<R, ErrView>,
)
    requires
        e.x == (Pack { value: x }),
        e.y == (Pack { value: y }),
        Parsec::<T>::parses(&e, s, from, to, o),
    ensures
        to == from,
        o matches Ok(v) && cloned(x, v),
{
}

/// Left bias at `char` values, where a clone is the value itself: the
/// choice always yields exactly `x`.
pub proof fn lemma_alternative_left_bias_char<T: Copy>(
    e: Either<Pack<char>, Pack<char>>,
    x: char,
    y: char,
    s: Seq<T>,
    from: int,
    to: int,
    o: Result<char, ErrView>,
)
    requires
        e.x == (Pack { value: x }),
        e.y == (Pack { value: y }),
        Parsec::<T>::parses(&e, s, from, to, o),
    ensures
        to == from,
        o == Ok::<char, ErrView>(x),
{
    lemma_alternative_left_bias(e, x, y, s, from, to, o);
}

/// Zero-or-more repetition is total: no run of `many(p)` ends in failure,
/// for any parser `p` and any cursor state.
pub proof fn lemma_repeat0_total<T, P: Parsec<T>>(
    m: Many<P>,
    s: Seq<T>,
    from: int,
    to: int,
    o: Result<Vec<P::Out>, ErrView>,
)
    requires
        m.parses(s, from, to, o),
    ensures
        o is Ok,
{
}

/// A mismatch of `eq` consumes nothing: every failing run of the
/// one-fixed-token parser leaves the cursor where it started and points the
/// error at that position.
pub proof fn lemma_literal_mismatch_zero_consumption<T: crate::parsec::Token>(
    p: Equals<T>,
    s: Seq<T>,
    from: int,
    to: int,
    o: Result<T, ErrView>,
)
    requires
        p.parses(s, from, to, o),
        o is Err,
    ensures
        to == from,
        o matches Err(e) && e.pos == from,
{
}

/// `eof` succeeds exactly at the end of the input: a run succeeds iff the
/// cursor stands at the stream's length, never consumes anything, and a
/// failure points at the offending position.
pub proof fn lemma_end_of_input<T: Copy>(
    p: EndOfInput,
    s: Seq<T>,
    from: int,
    to: int,
    o: Result<(), ErrView>,
)
    requires
        Parsec::<T>::parses(&p, s, from, to, o),
    ensures
        o is Ok <==> from == s.len(),
        to == from,
        o matches Err(e) ==> e.pos == from,
{
}

/// Determinism of a parser: from one stream and position, all its runs end
/// at one position with one outcome.
pub open spec fn deterministic<T, P: Parsec<T>>(p: P) -> bool {
    forall|s: Seq<T>, from: int, to1: int, to2: int, o1: Result<P::Out, ErrView>, o2: Result<
        P::Out,
        ErrView,
    >|
        #![trigger p.parses(s, from, to1, o1), p.parses(s, from, to2, o2)]
        p.parses(s, from, to1, o1) && p.parses(s, from, to2, o2) ==> to1 == to2 && o1 == o2
}

/// Failure is idempotent for a deterministic parser: two failing runs from
/// the same saved position produce one error — same position, same message —
/// and leave the cursor at one place.
pub proof fn lemma_failure_idempotent<T, P: Parsec<T>>(
    p: P,
    s: Seq<T>,
    from: int,
    to1: int,
    to2: int,
    e1: ErrView,
    e2: ErrView,
)
    requires
        deterministic(p),
        p.parses(s, from, to1, Err::<P::Out, ErrView>(e1)),
        p.parses(s, from, to2, Err::<P::Out, ErrView>(e2)),
    ensures
        e1 == e2,
        to1 == to2,
{
}

/// The one-fixed-token parser is deterministic.
pub proof fn lemma_eq_deterministic<T: crate::parsec::Token>(p: Equals<T>)
    ensures
        deterministic(p),
{
}

/// The any-one-token parser is deterministic.
pub proof fn lemma_one_deterministic<T: Copy>(p: One)
    ensures
        deterministic::<T, One>(p),
{
}

/// The any-token-but-one parser is deterministic.
pub proof fn lemma_ne_deterministic<T: crate::parsec::Token>(p: NotEquals<T>)
    ensures
        deterministic(p),
{
}

/// The token-set parsers are deterministic.
pub proof fn lemma_one_of_deterministic<T: crate::parsec::Token>(p: OneOf<T>)
    ensures
        deterministic(p),
{
}

/// The excluded-token-set parser is deterministic.
pub proof fn lemma_none_of_deterministic<T: crate::parsec::Token>(p: NoneOf<T>)
    ensures
        deterministic(p),
{
}

/// The always-failing parser is deterministic.
pub proof fn lemma_fail_deterministic<T: Copy, R>(p: Fail<R>)
    ensures
        deterministic::<T, Fail<R>>(p),
{
}

/// The end-of-input parser is deterministic.
pub proof fn lemma_eof_deterministic<T: Copy>(p: EndOfInput)
    ensures
        deterministic::<T, EndOfInput>(p),
{
}

/// An attempt of a deterministic parser is deterministic.
pub proof fn lemma_attempt_deterministic<T, P: Parsec<T>>(t: Try<P>)
    requires
        deterministic(t.parsec),
    ensures
        deterministic(t),
{
}

/// An ordered choice of deterministic parsers is deterministic.
pub proof fn lemma_either_deterministic<T, X: Parsec<T>, Y: Parsec<T, Out = X::Out>>(
    e: Either<X, Y>,
)
    requires
        deterministic(e.x),
        deterministic(e.y),
    ensures
        deterministic(e),
{
}

/// A sequencing of deterministic parsers is deterministic.
pub proof fn lemma_then_deterministic<T, P: Parsec<T>, Q: Parsec<T>>(t: Then<P, Q>)
    requires
        deterministic(t.first),
        deterministic(t.second),
    ensures
        deterministic(t),
{
}

/// A sequencing of deterministic parsers is deterministic.
pub proof fn lemma_over_deterministic<T, P: Parsec<T>, Q: Parsec<T>>(t: Over<P, Q>)
    requires
        deterministic(t.first),
        deterministic(t.second),
    ensures
        deterministic(t),
{
}

/// A maximal repetition of a deterministic parser is itself determined: two
/// stalled traces from one position end at one place with one value
/// sequence.
proof fn lemma_repeat_chain_unique<T, P: Parsec<T>>(
    p: P,
    s: Seq<T>,
    from: int,
    to1: int,
    to2: int,
    v1: Seq<P::Out>,
    v2: Seq<P::Out>,
)
    requires
        deterministic(p),
        chain(p, s, from, to1, v1),
        stalled(p, s, to1),
        chain(p, s, from, to2, v2),
        stalled(p, s, to2),
    ensures
        to1 == to2,
        v1 == v2,
    decreases v1.len(),
{
    if v1.len() == 0 && v2.len() == 0 {
        assert(v1 =~= v2);
    } else if v1.len() == 0 {
        let mid = lemma_chain_head(p, s, from, to2, v2);
        if exists|m: int, e: ErrView| #![auto] p.parses(s, from, m, Err::<P::Out, ErrView>(e)) {
            let (m, e) = choose|m: int, e: ErrView| #![auto]
                p.parses(s, from, m, Err::<P::Out, ErrView>(e));
            assert(false);
        } else {
            let (m, v) = choose|m: int, v: P::Out| #![auto]
                p.parses(s, from, m, Ok(v)) && m <= from;
            assert(false);
        }
    } else if v2.len() == 0 {
        let mid = lemma_chain_head(p, s, from, to1, v1);
        if exists|m: int, e: ErrView| #![auto] p.parses(s, from, m, Err::<P::Out, ErrView>(e)) {
            let (m, e) = choose|m: int, e: ErrView| #![auto]
                p.parses(s, from, m, Err::<P::Out, ErrView>(e));
            assert(false);
        } else {
            let (m, v) = choose|m: int, v: P::Out| #![auto]
                p.parses(s, from, m, Ok(v)) && m <= from;
            assert(false);
        }
    } else {
        let mid1 = lemma_chain_head(p, s, from, to1, v1);
        let mid2 = lemma_chain_head(p, s, from, to2, v2);
        assert(mid1 == mid2 && v1[0] == v2[0]);
        lemma_repeat_chain_unique(p, s, mid1, to1, to2, v1.drop_first(), v2.drop_first());
        assert forall|i: int| 0 <= i < v1.len() implies v1[i] == v2[i] by {
            if i > 0 {
                assert(v1.drop_first()[i - 1] == v2.drop_first()[i - 1]);
            }
        }
        assert(v1 =~= v2);
    }
}

/// Zero-or-more repetition of a deterministic parser is determined: two
/// runs of `many(p)` from one position end at one place and collect one
/// sequence of values.
pub proof fn lemma_repeat0_deterministic<T, P: Parsec<T>>(
    m: Many<P>,
    s: Seq<T>,
    from: int,
    to1: int,
    to2: int,
    v1: Vec<P::Out>,
    v2: Vec<P::Out>,
)
    requires
        deterministic(m.parsec),
        m.parses(s, from, to1, Ok(v1)),
        m.parses(s, from, to2, Ok(v2)),
    ensures
        to1 == to2,
        v1@ == v2@,
{
    lemma_repeat_chain_unique(m.parsec, s, from, to1, to2, v1@, v2@);
}

/// The failing runs of a one-or-more repetition of a deterministic parser
/// all carry one error: the item parser's own first failure.
pub proof fn lemma_many1_failure_idempotent<T, P: Parsec<T>>(
    m: Many1<P>,
    s: Seq<T>,
    from: int,
    to1: int,
    to2: int,
    e1: ErrView,
    e2: ErrView,
)
    requires
        deterministic(m.parsec),
        m.parses(s, from, to1, Err::<Vec<P::Out>, ErrView>(e1)),
        m.parses(s, from, to2, Err::<Vec<P::Out>, ErrView>(e2)),
    ensures
        e1 == e2,
        to1 == to2,
{
}

} // verus!
