//! Parsers over character streams: a cursor backed by a string, single
//! character classes, and small numeric-literal parsers built on them.
//!
//! The character classes cover the ASCII range.

use vstd::prelude::*;
use vstd::string::StrSliceExecFns;
use vstd::string::StringExecFns;

use crate::parsec::atom::{OneOf, msg_eq, one_of};
use crate::parsec::{ErrView, ParsecError, Parsec, State, Status, msg_eof, msg_pred, out};

verus! {

/// Relies on `String::push`: appends the given character to the end of the
/// string.
pub assume_specification[ String::push ](s: &mut String, ch: char)
    ensures
        final(s)@ == old(s)@.push(ch),
;

/// A cursor over the characters of an owned string.
pub struct StringState {
    index: usize,
    buffer: Vec<char>,
}

impl StringState {
    /// Builds a cursor at position `0` over the characters of `data`.
    pub fn new(data: String) -> (s: StringState)
        ensures
            s.stream() == data@,
            s.cursor() == 0,
    {
        let slice = data.as_str();
        let n = slice.unicode_len();
        let mut buffer: Vec<char> = Vec::new();
        let mut i: usize = 0;
        while i < n
            invariant
                n == slice@.len(),
                0 <= i <= n,
                buffer@ == slice@.subrange(0, i as int),
            decreases n - i,
        {
            buffer.push(slice.get_char(i));
            i = i + 1;
            proof {
                assert(buffer@ =~= slice@.subrange(0, i as int));
            }
        }
        proof {
            assert(buffer@ =~= slice@);
        }
        StringState { index: 0, buffer }
    }
}

impl State<char> for StringState {
    closed spec fn stream(&self) -> Seq<char> {
        self.buffer@
    }

    closed spec fn cursor(&self) -> int {
        self.index as int
    }

    fn pos(&self) -> (n: usize)
        ensures
            n as int == self.cursor(),
    {
        self.index
    }

    fn seek_to(&mut self, to: usize) -> (ok: bool)
        ensures
            final(self).stream() == old(self).stream(),
            ok <==> to as int <= old(self).stream().len(),
            final(self).cursor() == if ok {
                to as int
            } else {
                old(self).cursor()
            },
    {
        if to <= self.buffer.len() {
            self.index = to;
            true
        } else {
            false
        }
    }

    fn next(&mut self) -> (r: Option<char>)
        ensures
            final(self).stream() == old(self).stream(),
            old(self).cursor() <= final(self).cursor() <= final(self).stream().len(),
            if old(self).cursor() < old(self).stream().len() {
                &&& final(self).cursor() == old(self).cursor() + 1
                &&& r == Some(old(self).stream()[old(self).cursor()])
            } else {
                &&& final(self).cursor() == old(self).cursor()
                &&& r is None
            },
    {
        if self.index < self.buffer.len() {
            let item = self.buffer[self.index];
            self.index = self.index + 1;
            Some(item)
        } else {
            None
        }
    }

    fn next_by<F: Fn(char) -> bool>(&mut self, pred: &F) -> (r: Status<char>)
        ensures
            final(self).stream() == old(self).stream(),
            old(self).cursor() <= final(self).cursor() <= final(self).stream().len(),
            ({
                let s = old(self).stream();
                let from = old(self).cursor();
                if from < s.len() {
                    exists|b: bool|
                        {
                            &&& #[trigger] call_ensures(*pred, (s[from],), b)
                            &&& if b {
                                final(self).cursor() == from + 1 && out(r) == Ok::<char, ErrView>(
                                    s[from],
                                )
                            } else {
                                final(self).cursor() == from && out(r) == Err::<char, ErrView>(
                                    ErrView { pos: from, msg: msg_pred() },
                                )
                            }
                        }
                } else {
                    final(self).cursor() == from && out(r) == Err::<char, ErrView>(
                        ErrView { pos: from, msg: msg_eof() },
                    )
                }
            }),
    {
        if self.index < self.buffer.len() {
            let item = self.buffer[self.index];
            if pred(item) {
                self.index = self.index + 1;
                Ok(item)
            } else {
                Err(ParsecError::new(self.index, "predicate failed".to_owned()))
            }
        } else {
            Err(ParsecError::new(self.index, "eof".to_owned()))
        }
    }
}

/// ASCII whitespace: space, tab, newline or carriage return.
pub open spec fn is_blank_char(c: char) -> bool {
    c == ' ' || c == '\t' || c == '\n' || c == '\r'
}

/// A decimal digit.
pub open spec fn is_digit_char(c: char) -> bool {
    48 <= c as u32 <= 57
}

/// An ASCII letter.
pub open spec fn is_alpha_char(c: char) -> bool {
    (65 <= c as u32 <= 90) || (97 <= c as u32 <= 122)
}

/// An ASCII letter or a decimal digit.
pub open spec fn is_alphanumeric_char(c: char) -> bool {
    is_alpha_char(c) || is_digit_char(c)
}

/// An ASCII control character.
pub open spec fn is_control_char(c: char) -> bool {
    (c as u32) < 32 || c as u32 == 127
}

/// What a single-character-class parser does: it consumes the next
/// character iff the class accepts it, fails with `predicate failed` at the
/// current position without consuming otherwise, and fails with `eof` at
/// end of input.
pub open spec fn class_parses(
    accepts: spec_fn(char) -> bool,
    s: Seq<char>,
    from: int,
    to: int,
    o: Result<char, ErrView>,
) -> bool {
    if from < s.len() {
        if accepts(s[from]) {
            to == from + 1 && o == Ok::<char, ErrView>(s[from])
        } else {
            to == from && o == Err::<char, ErrView>(ErrView { pos: from, msg: msg_pred() })
        }
    } else {
        to == from && o == Err::<char, ErrView>(ErrView { pos: from, msg: msg_eof() })
    }
}

/// Builds the parser for one space or horizontal tab.
pub fn space() -> (r: OneOf<char>)
    ensures
        r.elements@ =~= seq![' ', '\t'],
{
    let mut elements: Vec<char> = Vec::new();
    elements.push(' ');
    elements.push('\t');
    one_of(&elements)
}

/// Consumes one ASCII whitespace character.
pub struct WhiteSpace;

impl Parsec<char> for WhiteSpace {
    type Out = char;

    open spec fn valid(&self) -> bool {
        true
    }

    open spec fn parses(&self, s: Seq<char>, from: int, to: int, o: Result<char, ErrView>) -> bool {
        class_parses(|c: char| is_blank_char(c), s, from, to, o)
    }

    fn parse<S: State<char>>(&self, state: &mut S) -> (r: Status<char>) {
        let p0 = state.pos();
        match state.next() {
            Some(c) => {
                if c == ' ' || c == '\t' || c == '\n' || c == '\r' {
                    Ok(c)
                } else {
                    let _ = state.seek_to(p0);
                    Err(ParsecError::new(p0, "predicate failed".to_owned()))
                }
            },
            None => Err(ParsecError::new(p0, "eof".to_owned())),
        }
    }
}

/// Builds the parser for one ASCII whitespace character.
pub fn white_space() -> WhiteSpace {
    WhiteSpace
}

/// Consumes one decimal digit.
pub struct Digit;

impl Parsec<char> for Digit {
    type Out = char;

    open spec fn valid(&self) -> bool {
        true
    }

    open spec fn parses(&self, s: Seq<char>, from: int, to: int, o: Result<char, ErrView>) -> bool {
        class_parses(|c: char| is_digit_char(c), s, from, to, o)
    }

    fn parse<S: State<char>>(&self, state: &mut S) -> (r: Status<char>) {
        let p0 = state.pos();
        match state.next() {
            Some(c) => {
                let u = c as u32;
                if 48 <= u && u <= 57 {
                    Ok(c)
                } else {
                    let _ = state.seek_to(p0);
                    Err(ParsecError::new(p0, "predicate failed".to_owned()))
                }
            },
            None => Err(ParsecError::new(p0, "eof".to_owned())),
        }
    }
}

/// Builds the parser for one decimal digit.
pub fn digit() -> Digit {
    Digit
}

/// Consumes one ASCII letter.
pub struct Alpha;

impl Parsec<char> for Alpha {
    type Out = char;

    open spec fn valid(&self) -> bool {
        true
    }

    open spec fn parses(&self, s: Seq<char>, from: int, to: int, o: Result<char, ErrView>) -> bool {
        class_parses(|c: char| is_alpha_char(c), s, from, to, o)
    }

    fn parse<S: State<char>>(&self, state: &mut S) -> (r: Status<char>) {
        let p0 = state.pos();
        match state.next() {
            Some(c) => {
                let u = c as u32;
                if (65 <= u && u <= 90) || (97 <= u && u <= 122) {
                    Ok(c)
                } else {
                    let _ = state.seek_to(p0);
                    Err(ParsecError::new(p0, "predicate failed".to_owned()))
                }
            },
            None => Err(ParsecError::new(p0, "eof".to_owned())),
        }
    }
}

/// Builds the parser for one ASCII letter.
pub fn alpha() -> Alpha {
    Alpha
}

/// Consumes one ASCII letter or decimal digit.
pub struct AlphaNumeric;

impl Parsec<char> for AlphaNumeric {
    type Out = char;

    open spec fn valid(&self) -> bool {
        true
    }

    open spec fn parses(&self, s: Seq<char>, from: int, to: int, o: Result<char, ErrView>) -> bool {
        class_parses(|c: char| is_alphanumeric_char(c), s, from, to, o)
    }

    fn parse<S: State<char>>(&self, state: &mut S) -> (r: Status<char>) {
        let p0 = state.pos();
        match state.next() {
            Some(c) => {
                let u = c as u32;
                if (65 <= u && u <= 90) || (97 <= u && u <= 122) || (48 <= u && u <= 57) {
                    Ok(c)
                } else {
                    let _ = state.seek_to(p0);
                    Err(ParsecError::new(p0, "predicate failed".to_owned()))
                }
            },
            None => Err(ParsecError::new(p0, "eof".to_owned())),
        }
    }
}

/// Builds the parser for one ASCII letter or decimal digit.
pub fn alphanumeric() -> AlphaNumeric {
    AlphaNumeric
}

/// Consumes one ASCII control character.
pub struct Control;

impl Parsec<char> for Control {
    type Out = char;

    open spec fn valid(&self) -> bool {
        true
    }

    open spec fn parses(&self, s: Seq<char>, from: int, to: int, o: Result<char, ErrView>) -> bool {
        class_parses(|c: char| is_control_char(c), s, from, to, o)
    }

    fn parse<S: State<char>>(&self, state: &mut S) -> (r: Status<char>) {
        let p0 = state.pos();
        match state.next() {
            Some(c) => {
                let u = c as u32;
                if u < 32 || u == 127 {
                    Ok(c)
                } else {
                    let _ = state.seek_to(p0);
                    Err(ParsecError::new(p0, "predicate failed".to_owned()))
                }
            },
            None => Err(ParsecError::new(p0, "eof".to_owned())),
        }
    }
}

/// Builds the parser for one ASCII control character.
pub fn control() -> Control {
    Control
}

/// Consumes one line break and yields it: `\r\n`, a lone `\r`, or a lone
/// `\n`.
pub struct Newline;

impl Parsec<char> for Newline {
    type Out = String;

    open spec fn valid(&self) -> bool {
        true
    }

    open spec fn parses(
        &self,
        s: Seq<char>,
        from: int,
        to: int,
        o: Result<String, ErrView>,
    ) -> bool {
        if from < s.len() && s[from] == '\r' {
            if from + 1 < s.len() && s[from + 1] == '\n' {
                to == from + 2 && (o matches Ok(v) && v@ == seq!['\r', '\n'])
            } else {
                to == from + 1 && (o matches Ok(v) && v@ == seq!['\r'])
            }
        } else if from < s.len() && s[from] == '\n' {
            to == from + 1 && (o matches Ok(v) && v@ == seq!['\n'])
        } else if from < s.len() {
            to == from && o == Err::<String, ErrView>(ErrView { pos: from, msg: msg_eq() })
        } else {
            to == from && o == Err::<String, ErrView>(ErrView { pos: from, msg: msg_eof() })
        }
    }

    fn parse<S: State<char>>(&self, state: &mut S) -> (r: Status<String>) {
        let p0 = state.pos();
        match state.next() {
            Some(c) => {
                if c == '\r' {
                    let mut v = String::new();
                    v.push('\r');
                    let p1 = state.pos();
                    match state.next() {
                        Some(d) => {
                            if d == '\n' {
                                v.push('\n');
                                proof {
                                    assert(v@ =~= seq!['\r', '\n']);
                                }
                                Ok(v)
                            } else {
                                let _ = state.seek_to(p1);
                                proof {
                                    assert(v@ =~= seq!['\r']);
                                }
                                Ok(v)
                            }
                        },
                        None => {
                            proof {
                                assert(v@ =~= seq!['\r']);
                            }
                            Ok(v)
                        },
                    }
                } else if c == '\n' {
                    let mut v = String::new();
                    v.push('\n');
                    proof {
                        assert(v@ =~= seq!['\n']);
                    }
                    Ok(v)
                } else {
                    let _ = state.seek_to(p0);
                    Err(ParsecError::new(p0, "expected another token".to_owned()))
                }
            },
            None => Err(ParsecError::new(p0, "eof".to_owned())),
        }
    }
}

/// Builds the parser for one line break.
pub fn newline() -> Newline {
    Newline
}

/// The length of the run of decimal digits starting at `i`.
pub open spec fn digit_run(s: Seq<char>, i: int) -> int
    decreases s.len() - i
        when 0 <= i <= s.len()
{
    if i < s.len() && is_digit_char(s[i]) {
        1 + digit_run(s, i + 1)
    } else {
        0
    }
}

/// A digit run is never negative and stays within the stream.
pub proof fn lemma_digit_run_bounds(s: Seq<char>, i: int)
    requires
        0 <= i <= s.len(),
    ensures
        0 <= digit_run(s, i) <= s.len() - i,
    decreases s.len() - i,
{
    if i < s.len() && is_digit_char(s[i]) {
        lemma_digit_run_bounds(s, i + 1);
    }
}

/// A stretch of digits ending at a non-digit or at the end of the input is
/// the digit run.
proof fn lemma_digit_run_exact(s: Seq<char>, from: int, to: int)
    requires
        0 <= from <= to <= s.len(),
        forall|j: int| from <= j < to ==> is_digit_char(#[trigger] s[j]),
        to == s.len() || !is_digit_char(s[to]),
    ensures
        digit_run(s, from) == to - from,
    decreases to - from,
{
    if from < to {
        assert(is_digit_char(s[from]));
        lemma_digit_run_exact(s, from + 1, to);
    }
}

/// Consumes the run of decimal digits at the cursor, appending them to
/// `buf`, and returns its length.
fn read_digit_run<S: State<char>>(state: &mut S, buf: &mut String) -> (n: usize)
    requires
        0 <= old(state).cursor() <= old(state).stream().len(),
    ensures
        final(state).stream() == old(state).stream(),
        old(state).cursor() <= final(state).cursor() <= final(state).stream().len(),
        n as int == digit_run(old(state).stream(), old(state).cursor()),
        final(state).cursor() == old(state).cursor() + n,
        final(buf)@ == old(buf)@ + old(state).stream().subrange(
            old(state).cursor(),
            old(state).cursor() + n,
        ),
{
    let ghost s = old(state).stream();
    let ghost from = old(state).cursor();
    let ghost buf0 = old(buf)@;
    let start = state.pos();
    let mut done = false;
    while !done
        invariant
            state.stream() == s,
            0 <= from <= state.cursor() <= s.len(),
            start as int == from,
            forall|j: int| from <= j < state.cursor() ==> is_digit_char(#[trigger] s[j]),
            buf@ == buf0 + s.subrange(from, state.cursor()),
            done ==> (state.cursor() == s.len() || !is_digit_char(s[state.cursor()])),
        decreases s.len() - state.cursor() + if done {
            0int
        } else {
            1int
        },
    {
        let p0 = state.pos();
        match state.next() {
            Some(c) => {
                let u = c as u32;
                if 48 <= u && u <= 57 {
                    buf.push(c);
                    proof {
                        assert(buf@ =~= buf0 + s.subrange(from, state.cursor()));
                    }
                } else {
                    let _ = state.seek_to(p0);
                    done = true;
                }
            },
            None => {
                done = true;
            },
        }
    }
    let end = state.pos();
    proof {
        lemma_digit_run_exact(s, from, state.cursor());
    }
    end - start
}

/// What `uinteger` does: it consumes the non-empty run of decimal digits at
/// the cursor and yields it as a string, or fails at the cursor without
/// consuming when no digit is there.
pub open spec fn uinteger_parses(s: Seq<char>, from: int, to: int, o: Result<String, ErrView>) -> bool {
    let n = digit_run(s, from);
    if n > 0 {
        to == from + n && (o matches Ok(v) && v@ == s.subrange(from, from + n))
    } else if from < s.len() {
        to == from && o == Err::<String, ErrView>(ErrView { pos: from, msg: msg_pred() })
    } else {
        to == from && o == Err::<String, ErrView>(ErrView { pos: from, msg: msg_eof() })
    }
}

/// Consumes a non-empty run of decimal digits and yields it as a string.
pub struct UInteger;

/// Runs the unsigned-integer grammar at the cursor.
fn uinteger_exec<S: State<char>>(state: &mut S) -> (r: Status<String>)
    requires
        0 <= old(state).cursor() <= old(state).stream().len(),
    ensures
        final(state).stream() == old(state).stream(),
        old(state).cursor() <= final(state).cursor() <= final(state).stream().len(),
        uinteger_parses(old(state).stream(), old(state).cursor(), final(state).cursor(), out(r)),
{
    let ghost s = old(state).stream();
    let ghost from = old(state).cursor();
    let start = state.pos();
    let mut v = String::new();
    let n = read_digit_run(state, &mut v);
    if n > 0 {
        proof {
            assert(v@ =~= s.subrange(from, from + n as int));
        }
        Ok(v)
    } else {
        match state.next() {
            None => Err(ParsecError::new(start, "eof".to_owned())),
            Some(_) => {
                let _ = state.seek_to(start);
                Err(ParsecError::new(start, "predicate failed".to_owned()))
            },
        }
    }
}

impl Parsec<char> for UInteger {
    type Out = String;

    open spec fn valid(&self) -> bool {
        true
    }

    open spec fn parses(
        &self,
        s: Seq<char>,
        from: int,
        to: int,
        o: Result<String, ErrView>,
    ) -> bool {
        uinteger_parses(s, from, to, o)
    }

    fn parse<S: State<char>>(&self, state: &mut S) -> (r: Status<String>) {
        uinteger_exec(state)
    }
}

/// Builds the parser for an unsigned decimal integer literal.
pub fn uinteger() -> UInteger {
    UInteger
}

/// What `integer` does: as `uinteger`, but a leading minus sign is kept; a
/// minus sign not followed by a digit is an error past the sign.
pub open spec fn integer_parses(s: Seq<char>, from: int, to: int, o: Result<String, ErrView>) -> bool {
    if from < s.len() && s[from] == '-' {
        let n = digit_run(s, from + 1);
        if n > 0 {
            to == from + 1 + n && (o matches Ok(v) && v@ == seq!['-'] + s.subrange(
                from + 1,
                from + 1 + n,
            ))
        } else if from + 1 < s.len() {
            to == from + 1 && o == Err::<String, ErrView>(
                ErrView { pos: from + 1, msg: msg_pred() },
            )
        } else {
            to == from + 1 && o == Err::<String, ErrView>(ErrView { pos: from + 1, msg: msg_eof() })
        }
    } else {
        uinteger_parses(s, from, to, o)
    }
}

/// Consumes a decimal integer literal with an optional leading minus sign.
pub struct Integer;

impl Parsec<char> for Integer {
    type Out = String;

    open spec fn valid(&self) -> bool {
        true
    }

    open spec fn parses(
        &self,
        s: Seq<char>,
        from: int,
        to: int,
        o: Result<String, ErrView>,
    ) -> bool {
        integer_parses(s, from, to, o)
    }

    fn parse<S: State<char>>(&self, state: &mut S) -> (r: Status<String>) {
        let ghost s = old(state).stream();
        let ghost from = old(state).cursor();
        let p0 = state.pos();
        match state.next() {
            Some(c) => {
                if c == '-' {
                    let mut v = String::new();
                    v.push('-');
                    let start = state.pos();
                    let n = read_digit_run(state, &mut v);
                    if n > 0 {
                        proof {
                            assert(v@ =~= seq!['-'] + s.subrange(from + 1, from + 1 + n as int));
                        }
                        Ok(v)
                    } else {
                        match state.next() {
                            None => Err(ParsecError::new(start, "eof".to_owned())),
                            Some(_) => {
                                let _ = state.seek_to(start);
                                Err(ParsecError::new(start, "predicate failed".to_owned()))
                            },
                        }
                    }
                } else {
                    let _ = state.seek_to(p0);
                    uinteger_exec(state)
                }
            },
            None => uinteger_exec(state),
        }
    }
}

/// Builds the parser for a decimal integer literal.
pub fn integer() -> Integer {
    Integer
}

/// The position of the expected decimal point: just past the run of integer
/// digits at the cursor.
pub open spec fn ufloat_dot(s: Seq<char>, from: int) -> int {
    from + digit_run(s, from)
}

/// Whether the unsigned-decimal grammar succeeds at the cursor: a possibly
/// empty run of digits, a decimal point, and a non-empty run of digits.
pub open spec fn ufloat_ok(s: Seq<char>, from: int) -> bool {
    let dot = ufloat_dot(s, from);
    dot < s.len() && s[dot] == '.' && digit_run(s, dot + 1) > 0
}

/// Where a successful unsigned-decimal parse ends.
pub open spec fn ufloat_end(s: Seq<char>, from: int) -> int {
    let dot = ufloat_dot(s, from);
    dot + 1 + digit_run(s, dot + 1)
}

/// The text a successful unsigned-decimal parse yields: the integer digits
/// (or `0` when there are none), the point, and the fraction digits.
pub open spec fn ufloat_text(s: Seq<char>, from: int) -> Seq<char> {
    let a = digit_run(s, from);
    let dot = from + a;
    let b = digit_run(s, dot + 1);
    (if a == 0 {
        seq!['0']
    } else {
        s.subrange(from, from + a)
    }) + seq!['.'] + s.subrange(dot + 1, dot + 1 + b)
}

/// Where a failing unsigned-decimal parse leaves the cursor: past the point
/// when the point was found, else past the integer digits.
pub open spec fn ufloat_err_at(s: Seq<char>, from: int) -> int {
    let dot = ufloat_dot(s, from);
    if dot < s.len() && s[dot] == '.' {
        dot + 1
    } else {
        dot
    }
}

/// The error of a failing unsigned-decimal parse.
pub open spec fn ufloat_err(s: Seq<char>, from: int) -> ErrView {
    let dot = ufloat_dot(s, from);
    if dot < s.len() && s[dot] == '.' {
        if dot + 1 < s.len() {
            ErrView { pos: dot + 1, msg: msg_pred() }
        } else {
            ErrView { pos: dot + 1, msg: msg_eof() }
        }
    } else if dot < s.len() {
        ErrView { pos: dot, msg: msg_eq() }
    } else {
        ErrView { pos: dot, msg: msg_eof() }
    }
}

/// What `ufloat` does.
pub open spec fn ufloat_parses(s: Seq<char>, from: int, to: int, o: Result<String, ErrView>) -> bool {
    if ufloat_ok(s, from) {
        to == ufloat_end(s, from) && (o matches Ok(v) && v@ == ufloat_text(s, from))
    } else {
        to == ufloat_err_at(s, from) && o == Err::<String, ErrView>(ufloat_err(s, from))
    }
}

/// Runs the unsigned-decimal grammar at the cursor.
fn ufloat_exec<S: State<char>>(state: &mut S) -> (r: Status<String>)
    requires
        0 <= old(state).cursor() <= old(state).stream().len(),
    ensures
        final(state).stream() == old(state).stream(),
        old(state).cursor() <= final(state).cursor() <= final(state).stream().len(),
        ufloat_parses(old(state).stream(), old(state).cursor(), final(state).cursor(), out(r)),
{
    let ghost s = old(state).stream();
    let ghost from = old(state).cursor();
    let mut v = String::new();
    let a = read_digit_run(state, &mut v);
    if a == 0 {
        v.push('0');
    }
    let pdot = state.pos();
    match state.next() {
        Some(c) => {
            if c == '.' {
                v.push('.');
                let fstart = state.pos();
                let b = read_digit_run(state, &mut v);
                if b > 0 {
                    proof {
                        assert(v@ =~= ufloat_text(s, from));
                    }
                    Ok(v)
                } else {
                    match state.next() {
                        None => Err(ParsecError::new(fstart, "eof".to_owned())),
                        Some(_) => {
                            let _ = state.seek_to(fstart);
                            Err(ParsecError::new(fstart, "predicate failed".to_owned()))
                        },
                    }
                }
            } else {
                let _ = state.seek_to(pdot);
                Err(ParsecError::new(pdot, "expected another token".to_owned()))
            }
        },
        None => Err(ParsecError::new(pdot, "eof".to_owned())),
    }
}

/// Consumes an unsigned decimal literal with a fractional part, such as
/// `12.5` or `.5` (read as `0.5`).
pub struct UFloat;

impl Parsec<char> for UFloat {
    type Out = String;

    open spec fn valid(&self) -> bool {
        true
    }

    open spec fn parses(
        &self,
        s: Seq<char>,
        from: int,
        to: int,
        o: Result<String, ErrView>,
    ) -> bool {
        ufloat_parses(s, from, to, o)
    }

    fn parse<S: State<char>>(&self, state: &mut S) -> (r: Status<String>) {
        ufloat_exec(state)
    }
}

/// Builds the parser for an unsigned decimal literal with a fractional
/// part.
pub fn ufloat() -> UFloat {
    UFloat
}

/// What `float` does: as `ufloat`, but a leading minus sign is kept.
pub open spec fn float_parses(s: Seq<char>, from: int, to: int, o: Result<String, ErrView>) -> bool {
    if from < s.len() && s[from] == '-' {
        if ufloat_ok(s, from + 1) {
            to == ufloat_end(s, from + 1) && (o matches Ok(v) && v@ == seq!['-'] + ufloat_text(
                s,
                from + 1,
            ))
        } else {
            to == ufloat_err_at(s, from + 1) && o == Err::<String, ErrView>(ufloat_err(s, from + 1))
        }
    } else {
        ufloat_parses(s, from, to, o)
    }
}

/// Consumes a decimal literal with a fractional part and an optional
/// leading minus sign.
pub struct Float;

impl Parsec<char> for Float {
    type Out = String;

    open spec fn valid(&self) -> bool {
        true
    }

    open spec fn parses(
        &self,
        s: Seq<char>,
        from: int,
        to: int,
        o: Result<String, ErrView>,
    ) -> bool {
        float_parses(s, from, to, o)
    }

    fn parse<S: State<char>>(&self, state: &mut S) -> (r: Status<String>) {
        let ghost s = old(state).stream();
        let ghost from = old(state).cursor();
        let p0 = state.pos();
        match state.next() {
            Some(c) => {
                if c == '-' {
                    match ufloat_exec(state) {
                        Ok(d) => {
                            let mut v = String::new();
                            v.push('-');
                            v.append(d.as_str());
                            proof {
                                assert(v@ =~= seq!['-'] + d@);
                            }
                            Ok(v)
                        },
                        Err(e) => Err(e),
                    }
                } else {
                    let _ = state.seek_to(p0);
                    ufloat_exec(state)
                }
            },
            None => ufloat_exec(state),
        }
    }
}

/// Builds the parser for a decimal literal with a fractional part.
pub fn float() -> Float {
    Float
}

} // verus!
