//! Primitive parsers: the atoms every grammar is built from.
//!
//! Every atom either consumes exactly one token or consumes nothing; no atom
//! consumes input on failure.

use vstd::prelude::*;

use crate::parsec::{ErrView, ParsecError, Parsec, State, Status, Token, msg_eof, out};

verus! {

/// The message of an `eq` mismatch.
pub open spec fn msg_eq() -> Seq<char> {
    "expected another token"@
}

/// Consumes and returns the next token; fails with `eof` at end of input.
pub struct One;

impl<T: Copy> Parsec<T> for One {
    type Out = T;

    open spec fn valid(&self) -> bool {
        true
    }

    open spec fn parses(&self, s: Seq<T>, from: int, to: int, o: Result<T, ErrView>) -> bool {
        if from < s.len() {
            to == from + 1 && o == Ok::<T, ErrView>(s[from])
        } else {
            to == from && o == Err::<T, ErrView>(ErrView { pos: from, msg: msg_eof() })
        }
    }

    fn parse<S: State<T>>(&self, state: &mut S) -> (r: Status<T>) {
        match state.next() {
            Some(t) => Ok(t),
            None => {
                let p = state.pos();
                Err(ParsecError::new(p, "eof".to_owned()))
            },
        }
    }
}

/// Builds the parser that consumes any one token.
pub fn one() -> One {
    One
}

/// Consumes the next token iff it equals a fixed token; consumes nothing on
/// mismatch or at end of input.
pub struct Equals<T> {
    pub val: T,
}

impl<T: Token> Parsec<T> for Equals<T> {
    type Out = T;

    open spec fn valid(&self) -> bool {
        true
    }

    open spec fn parses(&self, s: Seq<T>, from: int, to: int, o: Result<T, ErrView>) -> bool {
        if from < s.len() {
            if s[from] == self.val {
                to == from + 1 && o == Ok::<T, ErrView>(s[from])
            } else {
                to == from && o == Err::<T, ErrView>(ErrView { pos: from, msg: msg_eq() })
            }
        } else {
            to == from && o == Err::<T, ErrView>(ErrView { pos: from, msg: msg_eof() })
        }
    }

    fn parse<S: State<T>>(&self, state: &mut S) -> (r: Status<T>) {
        let p0 = state.pos();
        match state.next() {
            Some(t) => {
                if t.same(&self.val) {
                    Ok(t)
                } else {
                    let _ = state.seek_to(p0);
                    Err(ParsecError::new(p0, "expected another token".to_owned()))
                }
            },
            None => Err(ParsecError::new(p0, "eof".to_owned())),
        }
    }
}

/// Builds the parser for one fixed token.
pub fn eq<T: Token>(val: T) -> (p: Equals<T>)
    ensures
        p == (Equals { val }),
{
    Equals { val }
}

/// The message of a `ne` mismatch.
pub open spec fn msg_ne() -> Seq<char> {
    "expected a different token"@
}

/// Consumes the next token iff it differs from a fixed token; consumes
/// nothing when the token equals it or at end of input.
pub struct NotEquals<T> {
    pub val: T,
}

impl<T: Token> Parsec<T> for NotEquals<T> {
    type Out = T;

    open spec fn valid(&self) -> bool {
        true
    }

    open spec fn parses(&self, s: Seq<T>, from: int, to: int, o: Result<T, ErrView>) -> bool {
        if from < s.len() {
            if s[from] != self.val {
                to == from + 1 && o == Ok::<T, ErrView>(s[from])
            } else {
                to == from && o == Err::<T, ErrView>(ErrView { pos: from, msg: msg_ne() })
            }
        } else {
            to == from && o == Err::<T, ErrView>(ErrView { pos: from, msg: msg_eof() })
        }
    }

    fn parse<S: State<T>>(&self, state: &mut S) -> (r: Status<T>) {
        let p0 = state.pos();
        match state.next() {
            Some(t) => {
                if t.same(&self.val) {
                    let _ = state.seek_to(p0);
                    Err(ParsecError::new(p0, "expected a different token".to_owned()))
                } else {
                    Ok(t)
                }
            },
            None => Err(ParsecError::new(p0, "eof".to_owned())),
        }
    }
}

/// Builds the parser for any token but the given one.
pub fn ne<T: Token>(val: T) -> (p: NotEquals<T>)
    ensures
        p == (NotEquals { val }),
{
    NotEquals { val }
}

/// The message of an `eof` parser that met a token.
pub open spec fn msg_expected_eof() -> Seq<char> {
    "expected end of input"@
}

/// Succeeds with no value iff the cursor is at end of input; otherwise
/// fails at the current position without consuming.
pub struct EndOfInput;

impl<T: Copy> Parsec<T> for EndOfInput {
    type Out = ();

    open spec fn valid(&self) -> bool {
        true
    }

    open spec fn parses(&self, s: Seq<T>, from: int, to: int, o: Result<(), ErrView>) -> bool {
        &&& to == from
        &&& if from == s.len() {
            o == Ok::<(), ErrView>(())
        } else {
            o == Err::<(), ErrView>(ErrView { pos: from, msg: msg_expected_eof() })
        }
    }

    fn parse<S: State<T>>(&self, state: &mut S) -> (r: Status<()>) {
        let p0 = state.pos();
        match state.next() {
            None => Ok(()),
            Some(_) => {
                let _ = state.seek_to(p0);
                Err(ParsecError::new(p0, "expected end of input".to_owned()))
            },
        }
    }
}

/// Builds the parser that accepts only the end of the input.
pub fn eof() -> EndOfInput {
    EndOfInput
}

/// The message of a `one_of` mismatch.
pub open spec fn msg_one_of() -> Seq<char> {
    "expected one of the allowed tokens"@
}

/// The message of a `none_of` mismatch.
pub open spec fn msg_none_of() -> Seq<char> {
    "expected none of the excluded tokens"@
}

/// Copies a vector of tokens.
fn copy_tokens<T: Copy>(v: &Vec<T>) -> (r: Vec<T>)
    ensures
        r@ == v@,
{
    let mut r: Vec<T> = Vec::new();
    let mut i: usize = 0;
    while i < v.len()
        invariant
            0 <= i <= v.len(),
            r@ == v@.subrange(0, i as int),
        decreases v.len() - i,
    {
        r.push(v[i]);
        i = i + 1;
        proof {
            assert(r@ =~= v@.subrange(0, i as int));
        }
    }
    proof {
        assert(r@ =~= v@);
    }
    r
}

/// Decides membership of a token in a vector of tokens.
fn contains_token<T: Token>(els: &Vec<T>, t: &T) -> (r: bool)
    ensures
        r <==> els@.contains(*t),
{
    let mut i: usize = 0;
    while i < els.len()
        invariant
            0 <= i <= els.len(),
            forall|j: int| 0 <= j < i ==> els@[j] != *t,
        decreases els.len() - i,
    {
        if els[i].same(t) {
            return true;
        }
        i = i + 1;
    }
    false
}

/// Consumes the next token iff it is a member of a fixed set of tokens;
/// consumes nothing on mismatch or at end of input.
pub struct OneOf<T> {
    pub elements: Vec<T>,
}

impl<T: Token> Parsec<T> for OneOf<T> {
    type Out = T;

    open spec fn valid(&self) -> bool {
        true
    }

    open spec fn parses(&self, s: Seq<T>, from: int, to: int, o: Result<T, ErrView>) -> bool {
        if from < s.len() {
            if self.elements@.contains(s[from]) {
                to == from + 1 && o == Ok::<T, ErrView>(s[from])
            } else {
                to == from && o == Err::<T, ErrView>(ErrView { pos: from, msg: msg_one_of() })
            }
        } else {
            to == from && o == Err::<T, ErrView>(ErrView { pos: from, msg: msg_eof() })
        }
    }

    fn parse<S: State<T>>(&self, state: &mut S) -> (r: Status<T>) {
        let p0 = state.pos();
        match state.next() {
            Some(t) => {
                if contains_token(&self.elements, &t) {
                    Ok(t)
                } else {
                    let _ = state.seek_to(p0);
                    Err(ParsecError::new(p0, "expected one of the allowed tokens".to_owned()))
                }
            },
            None => Err(ParsecError::new(p0, "eof".to_owned())),
        }
    }
}

/// Builds the parser for any member of the given set of tokens.
pub fn one_of<T: Token>(elements: &Vec<T>) -> (p: OneOf<T>)
    ensures
        p.elements@ == elements@,
{
    OneOf { elements: copy_tokens(elements) }
}

/// Consumes the next token iff it is not a member of a fixed set of tokens;
/// consumes nothing on mismatch or at end of input.
pub struct NoneOf<T> {
    pub elements: Vec<T>,
}

impl<T: Token> Parsec<T> for NoneOf<T> {
    type Out = T;

    open spec fn valid(&self) -> bool {
        true
    }

    open spec fn parses(&self, s: Seq<T>, from: int, to: int, o: Result<T, ErrView>) -> bool {
        if from < s.len() {
            if !self.elements@.contains(s[from]) {
                to == from + 1 && o == Ok::<T, ErrView>(s[from])
            } else {
                to == from && o == Err::<T, ErrView>(ErrView { pos: from, msg: msg_none_of() })
            }
        } else {
            to == from && o == Err::<T, ErrView>(ErrView { pos: from, msg: msg_eof() })
        }
    }

    fn parse<S: State<T>>(&self, state: &mut S) -> (r: Status<T>) {
        let p0 = state.pos();
        match state.next() {
            Some(t) => {
                if contains_token(&self.elements, &t) {
                    let _ = state.seek_to(p0);
                    Err(ParsecError::new(p0, "expected none of the excluded tokens".to_owned()))
                } else {
                    Ok(t)
                }
            },
            None => Err(ParsecError::new(p0, "eof".to_owned())),
        }
    }
}

/// Builds the parser for any token outside the given set of tokens.
pub fn none_of<T: Token>(elements: &Vec<T>) -> (p: NoneOf<T>)
    ensures
        p.elements@ == elements@,
{
    NoneOf { elements: copy_tokens(elements) }
}

/// Always succeeds with a clone of a fixed value; consumes nothing.
pub struct Pack<R> {
    pub value: R,
}

impl<T: Copy, R: Clone> Parsec<T> for Pack<R> {
    type Out = R;

    open spec fn valid(&self) -> bool {
        true
    }

    open spec fn parses(&self, s: Seq<T>, from: int, to: int, o: Result<R, ErrView>) -> bool {
        &&& to == from
        &&& o matches Ok(v) && cloned(self.value, v)
    }

    fn parse<S: State<T>>(&self, state: &mut S) -> (r: Status<R>) {
        Ok(self.value.clone())
    }
}

/// Builds the parser that consumes nothing and yields the given value.
pub fn pack<R: Clone>(value: R) -> (p: Pack<R>)
    ensures
        p == (Pack { value }),
{
    Pack { value }
}

/// Always fails at the current position with a fixed message; consumes
/// nothing.  The type parameter names the result the parser would have
/// yielded had it been able to succeed.
pub struct Fail<R> {
    pub message: String,
    pub marker: core::marker::PhantomData<R>,
}

impl<T: Copy, R> Parsec<T> for Fail<R> {
    type Out = R;

    open spec fn valid(&self) -> bool {
        true
    }

    open spec fn parses(&self, s: Seq<T>, from: int, to: int, o: Result<R, ErrView>) -> bool {
        &&& to == from
        &&& o == Err::<R, ErrView>(ErrView { pos: from, msg: self.message@ })
    }

    fn parse<S: State<T>>(&self, state: &mut S) -> (r: Status<R>) {
        let p = state.pos();
        Err(ParsecError::new(p, self.message.clone()))
    }
}

/// Builds the parser that always fails with the given message.
pub fn fail<R>(description: String) -> (p: Fail<R>)
    ensures
        p.message@ == description@,
{
    Fail { message: description, marker: core::marker::PhantomData }
}

} // verus!
