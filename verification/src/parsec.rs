//! The cursor abstraction, the outcome model, and the parser contract.
//!
//! A parse runs over a [`State`]: an immutable token buffer with a mutable
//! read position.  A parser is any value implementing [`Parsec`]; its
//! behaviour is pinned down by the specification relation
//! [`Parsec::parses`], which every implementation's `parse` method is
//! verified against.

pub mod atom;
pub mod combinator;
pub mod laws;
pub mod text;

use vstd::prelude::*;

verus! {

/// Tokens a cursor can hand out.  A token is a small copyable value with a
/// decidable equality test whose result agrees with logical equality.
pub trait Token: Copy {
    /// Decides equality of two tokens.
    fn same(&self, other: &Self) -> (r: bool)
        ensures
            r <==> *self == *other,
    ;
}

impl Token for char {
    fn same(&self, other: &char) -> (r: bool)
        ensures
            r <==> *self == *other,
    {
        *self == *other
    }
}

impl Token for u8 {
    fn same(&self, other: &u8) -> (r: bool)
        ensures
            r <==> *self == *other,
    {
        *self == *other
    }
}

impl Token for i32 {
    fn same(&self, other: &i32) -> (r: bool)
        ensures
            r <==> *self == *other,
    {
        *self == *other
    }
}

/// The specification-level value of a [`ParsecError`]: the position the
/// error points at and the characters of its message.
pub struct ErrView {
    pub pos: int,
    pub msg: Seq<char>,
}

/// A positioned parse failure: where the parse failed and a short message
/// saying why.
#[derive(Debug, Clone)]
pub struct ParsecError {
    position: usize,
    message: String,
}

impl View for ParsecError {
    type V = ErrView;

    closed spec fn view(&self) -> ErrView {
        ErrView { pos: self.position as int, msg: self.message@ }
    }
}

impl ParsecError {
    /// Builds an error at `pos` with the given message.
    pub fn new(pos: usize, description: String) -> (e: ParsecError)
        ensures
            e@.pos == pos as int,
            e@.msg == description@,
    {
        ParsecError { position: pos, message: description }
    }

    /// The position the error points at.
    pub fn pos(&self) -> (n: usize)
        ensures
            n as int == self@.pos,
    {
        self.position
    }

    /// The error's message.
    pub fn description(&self) -> (m: String)
        ensures
            m@ == self@.msg,
    {
        self.message.clone()
    }
}

/// Positioned failures.  Implemented by every error a parse can produce.
pub trait Error {
    /// The position the error points at, at the specification level.
    spec fn position(&self) -> int;

    /// The position the error points at.
    fn pos(&self) -> (n: usize)
        ensures
            n as int == self.position(),
    ;
}

impl Error for ParsecError {
    open spec fn position(&self) -> int {
        self@.pos
    }

    fn pos(&self) -> (n: usize)
        ensures
            n as int == self.position(),
    {
        self.position
    }
}

/// The outcome of a parse: a value, or a positioned failure.
pub type Status<T> = Result<T, ParsecError>;

/// The outcome of a parse as the specification sees it: the error replaced
/// by its view.
pub open spec fn out<R>(r: Status<R>) -> Result<R, ErrView> {
    match r {
        Ok(v) => Ok(v),
        Err(e) => Err(e@),
    }
}

/// The message of a failure at end of input.
pub open spec fn msg_eof() -> Seq<char> {
    "eof"@
}

/// The message of a failed predicate test.
pub open spec fn msg_pred() -> Seq<char> {
    "predicate failed"@
}

/// A cursor over a token buffer: an immutable stream of tokens and a
/// mutable read position between `0` and the stream's length.
pub trait State<T>: Sized {
    /// The tokens the cursor reads, fixed at construction.
    spec fn stream(&self) -> Seq<T>;

    /// The current read position.
    spec fn cursor(&self) -> int;

    /// The current read position.
    fn pos(&self) -> (n: usize)
        requires
            0 <= self.cursor() <= self.stream().len(),
        ensures
            n as int == self.cursor(),
    ;

    /// Moves the read position to `to` if `to` is at most the stream's
    /// length, and reports whether it did; an out-of-range seek leaves the
    /// position unchanged.
    fn seek_to(&mut self, to: usize) -> (ok: bool)
        requires
            0 <= old(self).cursor() <= old(self).stream().len(),
        ensures
            final(self).stream() == old(self).stream(),
            ok <==> to as int <= old(self).stream().len(),
            final(self).cursor() == if ok {
                to as int
            } else {
                old(self).cursor()
            },
    ;

    /// Returns the token at the read position and advances past it, or
    /// `None` at end of input, leaving the position unchanged.
    fn next(&mut self) -> (r: Option<T>)
        requires
            0 <= old(self).cursor() <= old(self).stream().len(),
        ensures
            final(self).stream() == old(self).stream(),
            old(self).cursor() <= final(self).cursor() <= final(self).stream().len(),
            if old(self).cursor() < old(self).stream().len() {
                &&& final(self).cursor() == old(self).cursor() + 1
                &&& r == Some(old(self).stream()[old(self).cursor()])
            } else {
                &&& final(self).cursor() == old(self).cursor()
                &&& r is None
            },
    ;

    /// Returns the token at the read position and advances past it iff the
    /// predicate accepts it; otherwise fails at the current position without
    /// advancing, with message `predicate failed`, or with `eof` at end of
    /// input.
    fn next_by<F: Fn(T) -> bool>(&mut self, pred: &F) -> (r: Status<T>) where T: Copy
        requires
            0 <= old(self).cursor() <= old(self).stream().len(),
            forall|t: T| call_requires(*pred, (t,)),
        ensures
            final(self).stream() == old(self).stream(),
            old(self).cursor() <= final(self).cursor() <= final(self).stream().len(),
            ({
                let s = old(self).stream();
                let from = old(self).cursor();
                if from < s.len() {
                    exists|b: bool|
                        {
                            &&& #[trigger] call_ensures(*pred, (s[from],), b)
                            &&& if b {
                                final(self).cursor() == from + 1 && out(r) == Ok::<T, ErrView>(
                                    s[from],
                                )
                            } else {
                                final(self).cursor() == from && out(r) == Err::<T, ErrView>(
                                    ErrView { pos: from, msg: msg_pred() },
                                )
                            }
                        }
                } else {
                    final(self).cursor() == from && out(r) == Err::<T, ErrView>(
                        ErrView { pos: from, msg: msg_eof() },
                    )
                }
            }),
    ;
}

/// A cursor over an owned vector of tokens.
pub struct VecState<T> {
    index: usize,
    buffer: Vec<T>,
}

impl<T: Copy> VecState<T> {
    /// Builds a cursor at position `0` over the given tokens.
    pub fn new(buffer: Vec<T>) -> (s: VecState<T>)
        ensures
            s.stream() == buffer@,
            s.cursor() == 0,
    {
        VecState { index: 0, buffer }
    }
}

impl<T: Copy> State<T> for VecState<T> {
    closed spec fn stream(&self) -> Seq<T> {
        self.buffer@
    }

    closed spec fn cursor(&self) -> int {
        self.index as int
    }

    fn pos(&self) -> (n: usize)
        ensures
            n as int == self.cursor(),
    {
        self.index
    }

    fn seek_to(&mut self, to: usize) -> (ok: bool)
        ensures
            final(self).stream() == old(self).stream(),
            ok <==> to as int <= old(self).stream().len(),
            final(self).cursor() == if ok {
                to as int
            } else {
                old(self).cursor()
            },
    {
        if to <= self.buffer.len() {
            self.index = to;
            true
        } else {
            false
        }
    }

    fn next(&mut self) -> (r: Option<T>)
        ensures
            final(self).stream() == old(self).stream(),
            old(self).cursor() <= final(self).cursor() <= final(self).stream().len(),
            if old(self).cursor() < old(self).stream().len() {
                &&& final(self).cursor() == old(self).cursor() + 1
                &&& r == Some(old(self).stream()[old(self).cursor()])
            } else {
                &&& final(self).cursor() == old(self).cursor()
                &&& r is None
            },
    {
        if self.index < self.buffer.len() {
            let item = self.buffer[self.index];
            self.index = self.index + 1;
            Some(item)
        } else {
            None
        }
    }

    fn next_by<F: Fn(T) -> bool>(&mut self, pred: &F) -> (r: Status<T>)
        ensures
            final(self).stream() == old(self).stream(),
            old(self).cursor() <= final(self).cursor() <= final(self).stream().len(),
            ({
                let s = old(self).stream();
                let from = old(self).cursor();
                if from < s.len() {
                    exists|b: bool|
                        {
                            &&& #[trigger] call_ensures(*pred, (s[from],), b)
                            &&& if b {
                                final(self).cursor() == from + 1 && out(r) == Ok::<T, ErrView>(
                                    s[from],
                                )
                            } else {
                                final(self).cursor() == from && out(r) == Err::<T, ErrView>(
                                    ErrView { pos: from, msg: msg_pred() },
                                )
                            }
                        }
                } else {
                    final(self).cursor() == from && out(r) == Err::<T, ErrView>(
                        ErrView { pos: from, msg: msg_eof() },
                    )
                }
            }),
    {
        if self.index < self.buffer.len() {
            let item = self.buffer[self.index];
            if pred(item) {
                self.index = self.index + 1;
                Ok(item)
            } else {
                Err(ParsecError::new(self.index, "predicate failed".to_owned()))
            }
        } else {
            Err(ParsecError::new(self.index, "eof".to_owned()))
        }
    }
}

/// The parser contract: given a cursor, produce an outcome.
///
/// A parser over tokens `T` yields results of its associated type
/// [`Parsec::Out`].  Each implementation describes itself twice:
/// [`Parsec::parses`] is the specification relation saying which runs are
/// possible — over the stream, the position before, the position after, and
/// the outcome — and `parse` is the executable parser, verified to realize
/// only runs the relation admits.  A parser never touches the stream itself
/// and never moves the cursor before where it started.
pub trait Parsec<T> {
    /// The type of the value a successful parse yields.
    type Out;

    /// Well-formedness of the parser value itself; composite parsers
    /// require it of their sub-parsers.
    spec fn valid(&self) -> bool;

    /// The specification of `parse`: running this parser on `s` from
    /// position `from` may end at position `to` with outcome `o`.
    spec fn parses(&self, s: Seq<T>, from: int, to: int, o: Result<Self::Out, ErrView>) -> bool;

    /// Runs the parser on the cursor.
    fn parse<S: State<T>>(&self, state: &mut S) -> (r: Status<Self::Out>)
        requires
            self.valid(),
            0 <= old(state).cursor() <= old(state).stream().len(),
        ensures
            final(state).stream() == old(state).stream(),
            old(state).cursor() <= final(state).cursor() <= final(state).stream().len(),
            self.parses(old(state).stream(), old(state).cursor(), final(state).cursor(), out(r)),
    ;
}

} // verus!
