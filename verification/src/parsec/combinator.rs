//! Combinators: parsers built from other parsers.
//!
//! The backtracking discipline is the one the cursor model suggests: a
//! failing parser may leave the cursor where the failure happened, and only
//! [`Try`] rewinds it.  [`Either`] runs its second branch only after a
//! zero-consumption failure of the first.  The looping combinators
//! ([`Many`], [`Skip`], [`SepBy1`] and their relatives) wrap each round in
//! an internal attempt, and stop as soon as a round fails or succeeds
//! without consuming input.

use core::marker::PhantomData;

use vstd::prelude::*;

use crate::parsec::{ErrView, Parsec, State, Status};
use crate::parsec::atom::{Fail, fail};

verus! {

/// Runs a parser and rewinds the cursor to where it started when the parser
/// fails, so that a failure of the wrapped parser never consumes input.
pub struct Try<P> {
    pub parsec: P,
}

impl<P> Try<P> {
    /// Wraps a parser in a backtracking attempt.
    pub fn new(p: P) -> (r: Try<P>)
        ensures
            r == (Try { parsec: p }),
    {
        Try { parsec: p }
    }
}

impl<T, P: Parsec<T>> Parsec<T> for Try<P> {
    type Out = P::Out;

    open spec fn valid(&self) -> bool {
        self.parsec.valid()
    }

    open spec fn parses(&self, s: Seq<T>, from: int, to: int, o: Result<P::Out, ErrView>) -> bool {
        ||| (o is Ok && self.parsec.parses(s, from, to, o))
        ||| (o is Err && to == from && exists|mid: int| self.parsec.parses(s, from, mid, o))
    }

    fn parse<S: State<T>>(&self, state: &mut S) -> (r: Status<P::Out>) {
        let p0 = state.pos();
        let r = self.parsec.parse(state);
        if r.is_err() {
            let _ = state.seek_to(p0);
        }
        r
    }
}

/// Wraps a parser in a backtracking attempt.
pub fn attempt<P>(p: P) -> (r: Try<P>)
    ensures
        r == (Try { parsec: p }),
{
    Try::new(p)
}

/// Ordered choice: runs the first parser; after a failure that consumed
/// nothing it runs the second instead, and after a failure that consumed
/// input it propagates that failure unchanged.
pub struct Either<X, Y> {
    pub x: X,
    pub y: Y,
}

impl<X, Y> Either<X, Y> {
    /// Builds the ordered choice of two parsers.
    pub fn new(x: X, y: Y) -> (r: Either<X, Y>)
        ensures
            r == (Either { x, y }),
    {
        Either { x, y }
    }

    /// Extends the choice by one more alternative, tried last.
    pub fn or<Z>(self, z: Z) -> (r: Either<Either<X, Y>, Z>)
        ensures
            r == (Either { x: self, y: z }),
    {
        Either { x: self, y: z }
    }
}

impl<T, X: Parsec<T>, Y: Parsec<T, Out = X::Out>> Parsec<T> for Either<X, Y> {
    type Out = X::Out;

    open spec fn valid(&self) -> bool {
        self.x.valid() && self.y.valid()
    }

    open spec fn parses(&self, s: Seq<T>, from: int, to: int, o: Result<X::Out, ErrView>) -> bool {
        ||| (o is Ok && self.x.parses(s, from, to, o))
        ||| (exists|e: ErrView|
            self.x.parses(s, from, from, Err::<X::Out, ErrView>(e)) && self.y.parses(
                s,
                from,
                to,
                o,
            ))
        ||| (o is Err && to != from && self.x.parses(s, from, to, o))
    }

    fn parse<S: State<T>>(&self, state: &mut S) -> (r: Status<X::Out>) {
        let p0 = state.pos();
        let r = self.x.parse(state);
        match r {
            Ok(v) => Ok(v),
            Err(e) => {
                if state.pos() == p0 {
                    self.y.parse(state)
                } else {
                    Err(e)
                }
            },
        }
    }
}

/// Builds the ordered choice of two parsers.
pub fn either<X, Y>(x: X, y: Y) -> (r: Either<X, Y>)
    ensures
        r == (Either { x, y }),
{
    Either::new(x, y)
}

/// Sequencing that keeps the second result: runs the first parser, then the
/// second, yielding the second's value; the first failure propagates
/// unchanged.
pub struct Then<P, Q> {
    pub first: P,
    pub second: Q,
}

impl<T, P: Parsec<T>, Q: Parsec<T>> Parsec<T> for Then<P, Q> {
    type Out = Q::Out;

    open spec fn valid(&self) -> bool {
        self.first.valid() && self.second.valid()
    }

    open spec fn parses(&self, s: Seq<T>, from: int, to: int, o: Result<Q::Out, ErrView>) -> bool {
        ||| (exists|v: P::Out, mid: int| #![auto]
            self.first.parses(s, from, mid, Ok(v)) && self.second.parses(s, mid, to, o))
        ||| (o matches Err(e) && self.first.parses(s, from, to, Err::<P::Out, ErrView>(e)))
    }

    fn parse<S: State<T>>(&self, state: &mut S) -> (r: Status<Q::Out>) {
        match self.first.parse(state) {
            Ok(_) => self.second.parse(state),
            Err(e) => Err(e),
        }
    }
}

/// Sequencing that keeps the first result: runs the first parser, then the
/// second, yielding the first's value; the first failure propagates
/// unchanged.
pub struct Over<P, Q> {
    pub first: P,
    pub second: Q,
}

impl<T, P: Parsec<T>, Q: Parsec<T>> Parsec<T> for Over<P, Q> {
    type Out = P::Out;

    open spec fn valid(&self) -> bool {
        self.first.valid() && self.second.valid()
    }

    open spec fn parses(&self, s: Seq<T>, from: int, to: int, o: Result<P::Out, ErrView>) -> bool {
        ||| (o matches Err(e) && self.first.parses(s, from, to, Err::<P::Out, ErrView>(e)))
        ||| (exists|v: P::Out, mid: int| #![auto]
            self.first.parses(s, from, mid, Ok(v)) && {
                ||| (o == Ok::<P::Out, ErrView>(v) && exists|w: Q::Out|
                    self.second.parses(s, mid, to, Ok(w)))
                ||| (o matches Err(e) && o == Err::<P::Out, ErrView>(e) && self.second.parses(
                    s,
                    mid,
                    to,
                    Err::<Q::Out, ErrView>(e),
                ))
            })
    }

    fn parse<S: State<T>>(&self, state: &mut S) -> (r: Status<P::Out>) {
        match self.first.parse(state) {
            Ok(v) => {
                match self.second.parse(state) {
                    Ok(_) => Ok(v),
                    Err(e) => Err(e),
                }
            },
            Err(e) => Err(e),
        }
    }
}

/// Monadic sequencing: runs a parser and, on success, asks a continuation
/// for the parser to run next, against the same cursor.
pub struct Bind<P, F, Q> {
    pub parsec: P,
    pub binder: F,
    pub marker: PhantomData<Q>,
}

impl<T, P: Parsec<T>, Q: Parsec<T>, F: Fn(P::Out) -> Q> Parsec<T> for Bind<P, F, Q> {
    type Out = Q::Out;

    open spec fn valid(&self) -> bool {
        &&& self.parsec.valid()
        &&& forall|v: P::Out| call_requires(self.binder, (v,))
        &&& forall|v: P::Out, q: Q| call_ensures(self.binder, (v,), q) ==> q.valid()
    }

    open spec fn parses(&self, s: Seq<T>, from: int, to: int, o: Result<Q::Out, ErrView>) -> bool {
        ||| (o matches Err(e) && self.parsec.parses(s, from, to, Err::<P::Out, ErrView>(e)))
        ||| (exists|v: P::Out, mid: int, q: Q| #![auto]
            {
                &&& self.parsec.parses(s, from, mid, Ok(v))
                &&& call_ensures(self.binder, (v,), q)
                &&& q.parses(s, mid, to, o)
            })
    }

    fn parse<S: State<T>>(&self, state: &mut S) -> (r: Status<Q::Out>) {
        match self.parsec.parse(state) {
            Ok(v) => {
                let q = (self.binder)(v);
                q.parse(state)
            },
            Err(e) => Err(e),
        }
    }
}

/// The sequencing operators every parser carries: monadic `bind`, and the
/// value-selecting sequencings `then` and `over`.
pub trait Monad<T>: Parsec<T> + Sized {
    /// Runs `self`, hands its value to `binder`, and runs the parser the
    /// continuation returns.
    fn bind<Q: Parsec<T>, F: Fn(Self::Out) -> Q>(self, binder: F) -> (r: Bind<Self, F, Q>)
        ensures
            r.parsec == self,
            r.binder == binder,
    {
        Bind { parsec: self, binder, marker: PhantomData }
    }

    /// Runs `self`, then `q`, yielding `q`'s value and discarding `self`'s.
    fn skip_then<Q: Parsec<T>>(self, q: Q) -> (r: Then<Self, Q>)
        ensures
            r == (Then { first: self, second: q }),
    {
        Then { first: self, second: q }
    }

    /// Runs `self`, then `q`, yielding `self`'s value.
    fn over<Q: Parsec<T>>(self, q: Q) -> (r: Over<Self, Q>)
        ensures
            r == (Over { first: self, second: q }),
    {
        Over { first: self, second: q }
    }
}

impl<T, P: Parsec<T>> Monad<T> for P {

}

/// The witness of a repetition: `ps` lists the cursor positions between
/// rounds, and round `i` of `p` parsed `vals[i]` between `ps[i]` and
/// `ps[i + 1]`, consuming at least one token.
pub open spec fn chain_trace<T, P: Parsec<T>>(
    p: P,
    s: Seq<T>,
    ps: Seq<int>,
    vals: Seq<P::Out>,
) -> bool {
    &&& ps.len() == vals.len() + 1
    &&& forall|i: int| #![trigger vals[i]]
        0 <= i < vals.len() ==> p.parses(s, ps[i], ps[i + 1], Ok(vals[i])) && ps[i + 1] > ps[i]
}

/// A repetition trace: starting at `from`, round after round of `p`
/// succeeded with the values `vals`, each round consuming at least one
/// token, ending at `to`.
pub open spec fn chain<T, P: Parsec<T>>(
    p: P,
    s: Seq<T>,
    from: int,
    to: int,
    vals: Seq<P::Out>,
) -> bool {
    exists|ps: Seq<int>| #[trigger] chain_trace(p, s, ps, vals) && ps[0] == from && ps.last() == to
}

/// No repetition round can make progress at `at`: the parser has a failing
/// run there, or a successful run that consumes nothing.
pub open spec fn stalled<T, P: Parsec<T>>(p: P, s: Seq<T>, at: int) -> bool {
    ||| exists|mid: int, e: ErrView| #![auto] p.parses(s, at, mid, Err::<P::Out, ErrView>(e))
    ||| exists|mid: int, v: P::Out| #![auto] p.parses(s, at, mid, Ok(v)) && mid <= at
}

/// The empty repetition trace.
pub proof fn lemma_chain_empty<T, P: Parsec<T>>(p: P, s: Seq<T>, at: int)
    ensures
        chain(p, s, at, at, Seq::<P::Out>::empty()),
{
    let ps = seq![at];
    assert(chain_trace(p, s, ps, Seq::<P::Out>::empty()));
    assert(ps[0] == at && ps.last() == at);
}

/// Extending a repetition trace by one more consuming round keeps it a
/// trace.
pub proof fn lemma_chain_snoc<T, P: Parsec<T>>(
    p: P,
    s: Seq<T>,
    from: int,
    mid: int,
    to: int,
    vals: Seq<P::Out>,
    v: P::Out,
)
    requires
        chain(p, s, from, mid, vals),
        p.parses(s, mid, to, Ok(v)),
        to > mid,
    ensures
        chain(p, s, from, to, vals.push(v)),
{
    let ps = choose|ps: Seq<int>|
        #[trigger] chain_trace(p, s, ps, vals) && ps[0] == from && ps.last() == mid;
    let qs = ps.push(to);
    let snoc = vals.push(v);
    assert forall|i: int| #![trigger snoc[i]] 0 <= i < snoc.len() implies p.parses(
        s,
        qs[i],
        qs[i + 1],
        Ok(snoc[i]),
    ) && qs[i + 1] > qs[i] by {
        if i < vals.len() {
            assert(vals[i] == snoc[i]);
            assert(qs[i] == ps[i] && qs[i + 1] == ps[i + 1]);
        } else {
            assert(snoc[i] == v);
            assert(qs[i] == ps.last() && qs[i + 1] == to);
        }
    }
    assert(chain_trace(p, s, qs, snoc));
    assert(qs[0] == from && qs.last() == to);
}

/// Every prefix of a repetition trace only moves the cursor forward.
proof fn lemma_trace_mono<T, P: Parsec<T>>(p: P, s: Seq<T>, ps: Seq<int>, vals: Seq<P::Out>, j: int)
    requires
        chain_trace(p, s, ps, vals),
        0 <= j < ps.len(),
    ensures
        ps[0] <= ps[j],
    decreases j,
{
    if j > 0 {
        lemma_trace_mono(p, s, ps, vals, j - 1);
        let v = vals[j - 1];
        assert(p.parses(s, ps[j - 1], ps[j], Ok(v)) && ps[j] > ps[j - 1]);
    }
}

/// Splits a non-empty repetition trace into its first round and a trace
/// for the rest, returning the position between them.
pub proof fn lemma_chain_head<T, P: Parsec<T>>(
    p: P,
    s: Seq<T>,
    from: int,
    to: int,
    vals: Seq<P::Out>,
) -> (mid: int)
    requires
        chain(p, s, from, to, vals),
        vals.len() > 0,
    ensures
        p.parses(s, from, mid, Ok(vals[0])),
        mid > from,
        chain(p, s, mid, to, vals.drop_first()),
{
    let ps = choose|ps: Seq<int>|
        #[trigger] chain_trace(p, s, ps, vals) && ps[0] == from && ps.last() == to;
    let head = vals[0];
    assert(p.parses(s, ps[0], ps[1], Ok(vals[0])) && ps[1] > ps[0]);
    let qs = ps.drop_first();
    let rest = vals.drop_first();
    assert forall|i: int| #![trigger rest[i]] 0 <= i < rest.len() implies p.parses(
        s,
        qs[i],
        qs[i + 1],
        Ok(rest[i]),
    ) && qs[i + 1] > qs[i] by {
        let v = vals[i + 1];
        assert(p.parses(s, ps[i + 1], ps[i + 2], Ok(vals[i + 1])) && ps[i + 2] > ps[i + 1]);
        assert(qs[i] == ps[i + 1] && qs[i + 1] == ps[i + 2] && rest[i] == vals[i + 1]);
    }
    assert(chain_trace(p, s, qs, rest));
    assert(qs[0] == ps[1] && qs.last() == ps.last());
    ps[1]
}

/// A repetition trace only moves the cursor forward.
pub proof fn lemma_chain_advances<T, P: Parsec<T>>(
    p: P,
    s: Seq<T>,
    from: int,
    to: int,
    vals: Seq<P::Out>,
)
    requires
        chain(p, s, from, to, vals),
    ensures
        from <= to,
{
    let ps = choose|ps: Seq<int>|
        #[trigger] chain_trace(p, s, ps, vals) && ps[0] == from && ps.last() == to;
    lemma_trace_mono(p, s, ps, vals, ps.len() - 1);
}

/// Runs rounds of `p`, each wrapped in an internal attempt, for as long as
/// the rounds succeed and consume input; collects the values in match
/// order.
fn repeat_rounds<T, P: Parsec<T>, S: State<T>>(p: &P, state: &mut S) -> (r: Vec<P::Out>)
    requires
        p.valid(),
        0 <= old(state).cursor() <= old(state).stream().len(),
    ensures
        final(state).stream() == old(state).stream(),
        old(state).cursor() <= final(state).cursor() <= final(state).stream().len(),
        chain(*p, old(state).stream(), old(state).cursor(), final(state).cursor(), r@),
        stalled(*p, old(state).stream(), final(state).cursor()),
{
    let ghost s = old(state).stream();
    let ghost from = old(state).cursor();
    let mut res: Vec<P::Out> = Vec::new();
    proof {
        lemma_chain_empty(*p, s, from);
        assert(res@ =~= Seq::<P::Out>::empty());
    }
    let mut done = false;
    while !done
        invariant
            p.valid(),
            state.stream() == s,
            0 <= from <= state.cursor() <= s.len(),
            chain(*p, s, from, state.cursor(), res@),
            done ==> stalled(*p, s, state.cursor()),
        decreases s.len() - state.cursor() + if done {
            0int
        } else {
            1int
        },
    {
        let p0 = state.pos();
        let ghost at = state.cursor();
        match p.parse(state) {
            Ok(v) => {
                if state.pos() > p0 {
                    proof {
                        lemma_chain_snoc(*p, s, from, at, state.cursor(), res@, v);
                    }
                    res.push(v);
                } else {
                    done = true;
                }
            },
            Err(_) => {
                let _ = state.seek_to(p0);
                done = true;
            },
        }
    }
    res
}

/// Zero or more matches of a parser: applies an attempt of the parser
/// until a round fails or stops consuming, collecting the matched values in
/// match order; never fails.
pub struct Many<P> {
    pub parsec: P,
}

impl<T, P: Parsec<T>> Parsec<T> for Many<P> {
    type Out = Vec<P::Out>;

    open spec fn valid(&self) -> bool {
        self.parsec.valid()
    }

    open spec fn parses(
        &self,
        s: Seq<T>,
        from: int,
        to: int,
        o: Result<Vec<P::Out>, ErrView>,
    ) -> bool {
        &&& o matches Ok(v)
        &&& chain(self.parsec, s, from, to, v@)
        &&& stalled(self.parsec, s, to)
    }

    fn parse<S: State<T>>(&self, state: &mut S) -> (r: Status<Vec<P::Out>>) {
        Ok(repeat_rounds(&self.parsec, state))
    }
}

/// Builds the parser for zero or more matches of `p`.
pub fn many<P>(p: P) -> (r: Many<P>)
    ensures
        r == (Many { parsec: p }),
{
    Many { parsec: p }
}

/// One or more matches of a parser: runs the parser once, propagating its
/// failure verbatim, then behaves as [`Many`]; yields the matched values in
/// match order.
pub struct Many1<P> {
    pub parsec: P,
}

impl<T, P: Parsec<T>> Parsec<T> for Many1<P> {
    type Out = Vec<P::Out>;

    open spec fn valid(&self) -> bool {
        self.parsec.valid()
    }

    open spec fn parses(
        &self,
        s: Seq<T>,
        from: int,
        to: int,
        o: Result<Vec<P::Out>, ErrView>,
    ) -> bool {
        ||| (o matches Err(e) && self.parsec.parses(s, from, to, Err::<P::Out, ErrView>(e)))
        ||| (exists|v0: P::Out, mid: int| #![auto]
            {
                &&& self.parsec.parses(s, from, mid, Ok(v0))
                &&& o matches Ok(v)
                &&& v@.len() >= 1
                &&& v@[0] == v0
                &&& chain(self.parsec, s, mid, to, v@.drop_first())
                &&& stalled(self.parsec, s, to)
            })
    }

    fn parse<S: State<T>>(&self, state: &mut S) -> (r: Status<Vec<P::Out>>) {
        match self.parsec.parse(state) {
            Err(e) => Err(e),
            Ok(v0) => {
                let mut rest = repeat_rounds(&self.parsec, state);
                let ghost tail = rest@;
                let mut res: Vec<P::Out> = Vec::new();
                res.push(v0);
                res.append(&mut rest);
                proof {
                    assert(res@.drop_first() =~= tail);
                }
                Ok(res)
            },
        }
    }
}

/// Builds the parser for one or more matches of `p`.
pub fn many1<P>(p: P) -> (r: Many1<P>)
    ensures
        r == (Many1 { parsec: p }),
{
    Many1 { parsec: p }
}

/// Runs rounds of `p` exactly as [`repeat_rounds`] does, but keeps the
/// matched values only as a ghost trace, accumulating nothing at run time.
fn skip_rounds<T, P: Parsec<T>, S: State<T>>(p: &P, state: &mut S)
    requires
        p.valid(),
        0 <= old(state).cursor() <= old(state).stream().len(),
    ensures
        final(state).stream() == old(state).stream(),
        old(state).cursor() <= final(state).cursor() <= final(state).stream().len(),
        exists|vals: Seq<P::Out>| #[trigger] chain(
            *p,
            old(state).stream(),
            old(state).cursor(),
            final(state).cursor(),
            vals,
        ),
        stalled(*p, old(state).stream(), final(state).cursor()),
{
    let ghost s = old(state).stream();
    let ghost from = old(state).cursor();
    let ghost mut vals: Seq<P::Out> = Seq::empty();
    proof {
        lemma_chain_empty(*p, s, from);
    }
    let mut done = false;
    while !done
        invariant
            p.valid(),
            state.stream() == s,
            0 <= from <= state.cursor() <= s.len(),
            chain(*p, s, from, state.cursor(), vals),
            done ==> stalled(*p, s, state.cursor()),
        decreases s.len() - state.cursor() + if done {
            0int
        } else {
            1int
        },
    {
        let p0 = state.pos();
        let ghost at = state.cursor();
        match p.parse(state) {
            Ok(v) => {
                if state.pos() > p0 {
                    proof {
                        lemma_chain_snoc(*p, s, from, at, state.cursor(), vals, v);
                        vals = vals.push(v);
                    }
                } else {
                    done = true;
                }
            },
            Err(_) => {
                let _ = state.seek_to(p0);
                done = true;
            },
        }
    }
}

/// Zero or more matches of a parser, discarding the matched values: the
/// looping rule of [`Many`], but the result is always an empty sequence;
/// never fails.
pub struct Skip<P> {
    pub parsec: P,
}

impl<P> Skip<P> {
    /// Builds the parser that skips matches of `p`.
    pub fn new(p: P) -> (r: Skip<P>)
        ensures
            r == (Skip { parsec: p }),
    {
        Skip { parsec: p }
    }
}

impl<T, P: Parsec<T>> Parsec<T> for Skip<P> {
    type Out = Vec<P::Out>;

    open spec fn valid(&self) -> bool {
        self.parsec.valid()
    }

    open spec fn parses(
        &self,
        s: Seq<T>,
        from: int,
        to: int,
        o: Result<Vec<P::Out>, ErrView>,
    ) -> bool {
        &&& o matches Ok(v)
        &&& v@ == Seq::<P::Out>::empty()
        &&& exists|vals: Seq<P::Out>| #[trigger] chain(self.parsec, s, from, to, vals)
        &&& stalled(self.parsec, s, to)
    }

    fn parse<S: State<T>>(&self, state: &mut S) -> (r: Status<Vec<P::Out>>) {
        skip_rounds(&self.parsec, state);
        let empty: Vec<P::Out> = Vec::new();
        proof {
            assert(empty@ =~= Seq::<P::Out>::empty());
        }
        Ok(empty)
    }
}

/// Builds the parser that skips zero or more matches of `p`.
pub fn skip_many<P>(p: P) -> (r: Skip<P>)
    ensures
        r == (Skip { parsec: p }),
{
    Skip::new(p)
}

/// One or more matches of a parser, discarding the matched values: runs the
/// parser once, propagating its failure verbatim, then behaves as [`Skip`].
pub struct Skip1<P> {
    pub parsec: P,
}

impl<P> Skip1<P> {
    /// Builds the parser that skips at least one match of `p`.
    pub fn new(p: P) -> (r: Skip1<P>)
        ensures
            r == (Skip1 { parsec: p }),
    {
        Skip1 { parsec: p }
    }
}

impl<T, P: Parsec<T>> Parsec<T> for Skip1<P> {
    type Out = Vec<P::Out>;

    open spec fn valid(&self) -> bool {
        self.parsec.valid()
    }

    open spec fn parses(
        &self,
        s: Seq<T>,
        from: int,
        to: int,
        o: Result<Vec<P::Out>, ErrView>,
    ) -> bool {
        ||| (o matches Err(e) && self.parsec.parses(s, from, to, Err::<P::Out, ErrView>(e)))
        ||| (exists|v0: P::Out, mid: int| #![auto]
            {
                &&& self.parsec.parses(s, from, mid, Ok(v0))
                &&& o matches Ok(v)
                &&& v@ == Seq::<P::Out>::empty()
                &&& exists|vals: Seq<P::Out>| #[trigger] chain(self.parsec, s, mid, to, vals)
                &&& stalled(self.parsec, s, to)
            })
    }

    fn parse<S: State<T>>(&self, state: &mut S) -> (r: Status<Vec<P::Out>>) {
        match self.parsec.parse(state) {
            Err(e) => Err(e),
            Ok(_) => {
                skip_rounds(&self.parsec, state);
                let empty: Vec<P::Out> = Vec::new();
                proof {
                    assert(empty@ =~= Seq::<P::Out>::empty());
                }
                Ok(empty)
            },
        }
    }
}

/// Builds the parser that skips one or more matches of `p`.
pub fn skip_many1<P>(p: P) -> (r: Skip1<P>)
    ensures
        r == (Skip1 { parsec: p }),
{
    Skip1::new(p)
}

/// The witness of a separated repetition: `ps` lists the cursor positions
/// between rounds, and round `i` parsed one match of the separator and then
/// `vals[i]`, between `ps[i]` and `ps[i + 1]`, consuming at least one token.
pub open spec fn sep_chain_trace<T, Sp: Parsec<T>, P: Parsec<T>>(
    sep: Sp,
    p: P,
    s: Seq<T>,
    ps: Seq<int>,
    vals: Seq<P::Out>,
) -> bool {
    &&& ps.len() == vals.len() + 1
    &&& forall|i: int| #![trigger vals[i]]
        0 <= i < vals.len() ==> sep_round(sep, p, s, ps[i], ps[i + 1], vals[i]) && ps[i + 1]
            > ps[i]
}

/// One separated round: a match of the separator from `from`, then a match
/// of the item yielding `v`, ending at `to`.
pub open spec fn sep_round<T, Sp: Parsec<T>, P: Parsec<T>>(
    sep: Sp,
    p: P,
    s: Seq<T>,
    from: int,
    to: int,
    v: P::Out,
) -> bool {
    exists|m1: int, sv: Sp::Out| #![auto]
        sep.parses(s, from, m1, Ok(sv)) && p.parses(s, m1, to, Ok(v))
}

/// A separated repetition trace: starting at `from`, round after round of
/// separator-then-item succeeded with the item values `vals`, each round
/// consuming at least one token, ending at `to`.
pub open spec fn sep_chain<T, Sp: Parsec<T>, P: Parsec<T>>(
    sep: Sp,
    p: P,
    s: Seq<T>,
    from: int,
    to: int,
    vals: Seq<P::Out>,
) -> bool {
    exists|ps: Seq<int>|
        #[trigger] sep_chain_trace(sep, p, s, ps, vals) && ps[0] == from && ps.last() == to
}

/// No separator-then-item round can make progress at `at`: the separator
/// has a failing run there, or the item fails after the separator, or the
/// pair succeeds without consuming.
pub open spec fn sep_stalled<T, Sp: Parsec<T>, P: Parsec<T>>(
    sep: Sp,
    p: P,
    s: Seq<T>,
    at: int,
) -> bool {
    ||| exists|mid: int, e: ErrView| #![auto] sep.parses(s, at, mid, Err::<Sp::Out, ErrView>(e))
    ||| exists|m1: int, sv: Sp::Out, mid: int, e: ErrView| #![auto]
        sep.parses(s, at, m1, Ok(sv)) && p.parses(s, m1, mid, Err::<P::Out, ErrView>(e))
    ||| exists|m1: int, sv: Sp::Out, mid: int, v: P::Out| #![auto]
        sep.parses(s, at, m1, Ok(sv)) && p.parses(s, m1, mid, Ok(v)) && mid <= at
}

/// The empty separated repetition trace.
proof fn lemma_sep_chain_empty<T, Sp: Parsec<T>, P: Parsec<T>>(sep: Sp, p: P, s: Seq<T>, at: int)
    ensures
        sep_chain(sep, p, s, at, at, Seq::<P::Out>::empty()),
{
    let ps = seq![at];
    assert(sep_chain_trace(sep, p, s, ps, Seq::<P::Out>::empty()));
    assert(ps[0] == at && ps.last() == at);
}

/// Extending a separated repetition trace by one more consuming round keeps
/// it a trace.
proof fn lemma_sep_chain_snoc<T, Sp: Parsec<T>, P: Parsec<T>>(
    sep: Sp,
    p: P,
    s: Seq<T>,
    from: int,
    mid: int,
    m1: int,
    sv: Sp::Out,
    to: int,
    vals: Seq<P::Out>,
    v: P::Out,
)
    requires
        sep_chain(sep, p, s, from, mid, vals),
        sep.parses(s, mid, m1, Ok(sv)),
        p.parses(s, m1, to, Ok(v)),
        to > mid,
    ensures
        sep_chain(sep, p, s, from, to, vals.push(v)),
{
    let ps = choose|ps: Seq<int>|
        #[trigger] sep_chain_trace(sep, p, s, ps, vals) && ps[0] == from && ps.last() == mid;
    let qs = ps.push(to);
    let snoc = vals.push(v);
    assert forall|i: int| #![trigger snoc[i]] 0 <= i < snoc.len() implies sep_round(
        sep,
        p,
        s,
        qs[i],
        qs[i + 1],
        snoc[i],
    ) && qs[i + 1] > qs[i] by {
        if i < vals.len() {
            assert(vals[i] == snoc[i]);
            assert(qs[i] == ps[i] && qs[i + 1] == ps[i + 1]);
        } else {
            assert(snoc[i] == v);
            assert(qs[i] == ps.last() && qs[i + 1] == to);
            assert(sep.parses(s, qs[i], m1, Ok(sv)) && p.parses(s, m1, qs[i + 1], Ok(snoc[i])));
        }
    }
    assert(sep_chain_trace(sep, p, s, qs, snoc));
    assert(qs[0] == from && qs.last() == to);
}

/// Every prefix of a separated repetition trace only moves the cursor
/// forward.
proof fn lemma_sep_trace_mono<T, Sp: Parsec<T>, P: Parsec<T>>(
    sep: Sp,
    p: P,
    s: Seq<T>,
    ps: Seq<int>,
    vals: Seq<P::Out>,
    j: int,
)
    requires
        sep_chain_trace(sep, p, s, ps, vals),
        0 <= j < ps.len(),
    ensures
        ps[0] <= ps[j],
    decreases j,
{
    if j > 0 {
        lemma_sep_trace_mono(sep, p, s, ps, vals, j - 1);
        let v = vals[j - 1];
        assert(ps[j] > ps[j - 1]);
    }
}

/// A separated repetition trace only moves the cursor forward.
pub proof fn lemma_sep_chain_advances<T, Sp: Parsec<T>, P: Parsec<T>>(
    sep: Sp,
    p: P,
    s: Seq<T>,
    from: int,
    to: int,
    vals: Seq<P::Out>,
)
    requires
        sep_chain(sep, p, s, from, to, vals),
    ensures
        from <= to,
{
    let ps = choose|ps: Seq<int>|
        #[trigger] sep_chain_trace(sep, p, s, ps, vals) && ps[0] == from && ps.last() == to;
    lemma_sep_trace_mono(sep, p, s, ps, vals, ps.len() - 1);
}

/// Runs rounds of separator-then-item, each round wrapped in an internal
/// attempt, for as long as the rounds succeed and consume input; collects
/// the item values in match order.
fn sep_rounds<T, Sp: Parsec<T>, P: Parsec<T>, S: State<T>>(
    sep: &Sp,
    p: &P,
    state: &mut S,
) -> (r: Vec<P::Out>)
    requires
        sep.valid(),
        p.valid(),
        0 <= old(state).cursor() <= old(state).stream().len(),
    ensures
        final(state).stream() == old(state).stream(),
        old(state).cursor() <= final(state).cursor() <= final(state).stream().len(),
        sep_chain(*sep, *p, old(state).stream(), old(state).cursor(), final(state).cursor(), r@),
        sep_stalled(*sep, *p, old(state).stream(), final(state).cursor()),
{
    let ghost s = old(state).stream();
    let ghost from = old(state).cursor();
    let mut res: Vec<P::Out> = Vec::new();
    proof {
        lemma_sep_chain_empty(*sep, *p, s, from);
        assert(res@ =~= Seq::<P::Out>::empty());
    }
    let mut done = false;
    while !done
        invariant
            sep.valid(),
            p.valid(),
            state.stream() == s,
            0 <= from <= state.cursor() <= s.len(),
            sep_chain(*sep, *p, s, from, state.cursor(), res@),
            done ==> sep_stalled(*sep, *p, s, state.cursor()),
        decreases s.len() - state.cursor() + if done {
            0int
        } else {
            1int
        },
    {
        let p0 = state.pos();
        let ghost at = state.cursor();
        match sep.parse(state) {
            Err(_) => {
                let _ = state.seek_to(p0);
                done = true;
            },
            Ok(sv) => {
                let ghost m1 = state.cursor();
                let ghost svg = sv;
                match p.parse(state) {
                    Err(_) => {
                        let _ = state.seek_to(p0);
                        done = true;
                    },
                    Ok(v) => {
                        if state.pos() > p0 {
                            proof {
                                lemma_sep_chain_snoc(
                                    *sep,
                                    *p,
                                    s,
                                    from,
                                    at,
                                    m1,
                                    svg,
                                    state.cursor(),
                                    res@,
                                    v,
                                );
                            }
                            res.push(v);
                        } else {
                            done = true;
                        }
                    },
                }
            },
        }
    }
    res
}

/// One or more matches of an item parser separated by a separator parser:
/// parses one item, propagating its failure verbatim, then repeatedly
/// attempts separator-then-item rounds, stopping at the first round that
/// fails or stops consuming; yields the item values in match order.
pub struct SepBy1<Sp, P> {
    pub sep: Sp,
    pub parsec: P,
}

impl<T, Sp: Parsec<T>, P: Parsec<T>> Parsec<T> for SepBy1<Sp, P> {
    type Out = Vec<P::Out>;

    open spec fn valid(&self) -> bool {
        self.sep.valid() && self.parsec.valid()
    }

    open spec fn parses(
        &self,
        s: Seq<T>,
        from: int,
        to: int,
        o: Result<Vec<P::Out>, ErrView>,
    ) -> bool {
        ||| (o matches Err(e) && self.parsec.parses(s, from, to, Err::<P::Out, ErrView>(e)))
        ||| (exists|v0: P::Out, mid: int| #![auto]
            {
                &&& self.parsec.parses(s, from, mid, Ok(v0))
                &&& o matches Ok(v)
                &&& v@.len() >= 1
                &&& v@[0] == v0
                &&& sep_chain(self.sep, self.parsec, s, mid, to, v@.drop_first())
                &&& sep_stalled(self.sep, self.parsec, s, to)
            })
    }

    fn parse<S: State<T>>(&self, state: &mut S) -> (r: Status<Vec<P::Out>>) {
        match self.parsec.parse(state) {
            Err(e) => Err(e),
            Ok(v0) => {
                let mut rest = sep_rounds(&self.sep, &self.parsec, state);
                let ghost tail = rest@;
                let mut res: Vec<P::Out> = Vec::new();
                res.push(v0);
                res.append(&mut rest);
                proof {
                    assert(res@.drop_first() =~= tail);
                }
                Ok(res)
            },
        }
    }
}

/// Builds the parser for one or more `parsec` matches separated by `sep`.
pub fn sep_by1<Sp, P>(sep: Sp, parsec: P) -> (r: SepBy1<Sp, P>)
    ensures
        r == (SepBy1 { sep, parsec }),
{
    SepBy1 { sep, parsec }
}

/// Zero or more matches of an item parser separated by a separator parser:
/// as [`SepBy1`], but a failure of the first item consumes nothing and
/// yields the empty sequence instead.
pub struct SepBy<Sp, P> {
    pub sep: Sp,
    pub parsec: P,
}

impl<T, Sp: Parsec<T>, P: Parsec<T>> Parsec<T> for SepBy<Sp, P> {
    type Out = Vec<P::Out>;

    open spec fn valid(&self) -> bool {
        self.sep.valid() && self.parsec.valid()
    }

    open spec fn parses(
        &self,
        s: Seq<T>,
        from: int,
        to: int,
        o: Result<Vec<P::Out>, ErrView>,
    ) -> bool {
        ||| (exists|mid: int, e: ErrView| #![auto]
            {
                &&& self.parsec.parses(s, from, mid, Err::<P::Out, ErrView>(e))
                &&& to == from
                &&& o matches Ok(v)
                &&& v@ == Seq::<P::Out>::empty()
            })
        ||| (exists|v0: P::Out, mid: int| #![auto]
            {
                &&& self.parsec.parses(s, from, mid, Ok(v0))
                &&& o matches Ok(v)
                &&& v@.len() >= 1
                &&& v@[0] == v0
                &&& sep_chain(self.sep, self.parsec, s, mid, to, v@.drop_first())
                &&& sep_stalled(self.sep, self.parsec, s, to)
            })
    }

    fn parse<S: State<T>>(&self, state: &mut S) -> (r: Status<Vec<P::Out>>) {
        let p0 = state.pos();
        match self.parsec.parse(state) {
            Err(_) => {
                let _ = state.seek_to(p0);
                let empty: Vec<P::Out> = Vec::new();
                proof {
                    assert(empty@ =~= Seq::<P::Out>::empty());
                }
                Ok(empty)
            },
            Ok(v0) => {
                let mut rest = sep_rounds(&self.sep, &self.parsec, state);
                let ghost tail = rest@;
                let mut res: Vec<P::Out> = Vec::new();
                res.push(v0);
                res.append(&mut rest);
                proof {
                    assert(res@.drop_first() =~= tail);
                }
                Ok(res)
            },
        }
    }
}

/// Builds the parser for zero or more `parsec` matches separated by `sep`.
pub fn sep_by<Sp, P>(sep: Sp, parsec: P) -> (r: SepBy<Sp, P>)
    ensures
        r == (SepBy { sep, parsec }),
{
    SepBy { sep, parsec }
}

/// Builds the parser that runs `begin`, then `parsec`, then `end`,
/// discarding the bracketing results and yielding `parsec`'s value; the
/// first failure propagates unchanged.
pub fn between<B, E, P>(begin: B, end: E, parsec: P) -> (r: Over<Then<B, P>, E>)
    ensures
        r == (Over { first: Then { first: begin, second: parsec }, second: end }),
{
    Over { first: Then { first: begin, second: parsec }, second: end }
}

/// Builds the parser that behaves as `p` but replaces a zero-consumption
/// failure of `p` with a failure carrying the given message.
pub fn otherwise<P, R>(p: P, message: String) -> (r: Either<P, Fail<R>>)
    ensures
        r.x == p,
        r.y.message@ == message@,
{
    Either { x: p, y: fail(message) }
}

/// Builds the parser for zero or more matches of `p` anchored by one match
/// of `tail`, whose result is discarded.
pub fn many_tail<P, Tail>(p: P, tail: Tail) -> (r: Over<Many<P>, Tail>)
    ensures
        r == (Over { first: Many { parsec: p }, second: tail }),
{
    Over { first: Many { parsec: p }, second: tail }
}

/// Builds the parser for one or more matches of `p` anchored by one match
/// of `tail`, whose result is discarded.
pub fn many1_tail<P, Tail>(p: P, tail: Tail) -> (r: Over<Many1<P>, Tail>)
    ensures
        r == (Over { first: Many1 { parsec: p }, second: tail }),
{
    Over { first: Many1 { parsec: p }, second: tail }
}

} // verus!
