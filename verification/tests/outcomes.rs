use ruskell::parsec::atom::{eof, eq, fail, ne, none_of, one, one_of, pack};
use ruskell::parsec::combinator::{
    Monad, attempt, between, either, many, otherwise, sep_by, sep_by1, skip_many, skip_many1,
};
use ruskell::parsec::{Error, Parsec, State, VecState};

#[test]
fn bracket_round_trip_ends_past_the_close() {
    let mut state = VecState::new(vec!['"', 'x', 'x', 'x', '"']);
    let re = between(eq('"'), eq('"'), many(eq('x'))).parse(&mut state);
    assert_eq!(re.unwrap(), vec!['x', 'x', 'x']);
    assert_eq!(state.pos(), 5);
}

#[test]
fn literal_mismatch_consumes_nothing() {
    let mut state = VecState::new("bcd".chars().collect());
    let re = eq('a').parse(&mut state);
    assert!(re.is_err());
    assert_eq!(state.pos(), 0);
    assert_eq!(re.unwrap_err().pos(), 0);
}

#[test]
fn sep_by1_reads_a_comma_separated_list() {
    let mut state = VecState::new("a,b,c".chars().collect());
    let letters = "abc".chars().collect::<Vec<char>>();
    let re = sep_by1(eq(','), one_of(&letters)).parse(&mut state);
    assert_eq!(re.unwrap(), vec!['a', 'b', 'c']);
    assert_eq!(state.pos(), 5);
}

#[test]
fn sep_by_allows_zero_matches() {
    let mut state = VecState::new(";".chars().collect());
    let re = sep_by(eq(','), eq('a')).parse(&mut state);
    assert_eq!(re.unwrap(), Vec::<char>::new());
    assert_eq!(state.pos(), 0);
}

#[test]
fn sep_by1_stops_before_a_trailing_separator() {
    let mut state = VecState::new("a,b,".chars().collect());
    let re = sep_by1(eq(','), ne(',')).parse(&mut state);
    assert_eq!(re.unwrap(), vec!['a', 'b']);
    assert_eq!(state.pos(), 3);
}

#[test]
fn end_of_input_succeeds_only_at_the_end() {
    let mut state = VecState::new(Vec::<char>::new());
    assert!(eof().parse(&mut state).is_ok());
    let mut state = VecState::new(vec!['x']);
    let re = eof().parse(&mut state);
    assert!(re.is_err());
    assert_eq!(re.unwrap_err().pos(), 0);
    assert_eq!(state.pos(), 0);
}

#[test]
fn failing_twice_from_one_position_gives_one_error() {
    let mut state = VecState::new("bcd".chars().collect());
    let p = eq('z');
    let first = p.parse(&mut state).unwrap_err();
    let second = p.parse(&mut state).unwrap_err();
    assert_eq!(first.pos(), second.pos());
    assert_eq!(first.description(), second.description());
    assert_eq!(state.pos(), 0);
}

#[test]
fn attempt_rewinds_a_consuming_failure() {
    let mut state = VecState::new("ax".chars().collect());
    let two = eq('a').skip_then(eq('b'));
    let re = attempt(two).parse(&mut state);
    assert!(re.is_err());
    assert_eq!(state.pos(), 0);
    let mut state2 = VecState::new("ax".chars().collect());
    let two2 = eq('a').skip_then(eq('b'));
    let re2 = two2.parse(&mut state2);
    assert!(re2.is_err());
    assert_eq!(state2.pos(), 1);
}

#[test]
fn one_takes_any_token_and_fails_at_the_end() {
    let mut state = VecState::new(vec![5u8]);
    assert_eq!(one().parse(&mut state).unwrap(), 5u8);
    let re = one().parse(&mut state);
    assert!(re.is_err());
    assert_eq!(re.unwrap_err().description(), "eof".to_string());
}

#[test]
fn pack_yields_its_value_without_consuming() {
    let mut state = VecState::new("abc".chars().collect());
    let re: Result<u8, _> = pack(9u8).parse(&mut state);
    assert_eq!(re.unwrap(), 9u8);
    assert_eq!(state.pos(), 0);
}

#[test]
fn fail_always_fails_with_its_message() {
    let mut state = VecState::new("abc".chars().collect());
    let re: Result<char, _> = fail("nothing here".to_string()).parse(&mut state);
    let e = re.unwrap_err();
    assert_eq!(e.description(), "nothing here".to_string());
    assert_eq!(e.pos(), 0);
    assert_eq!(state.pos(), 0);
}

#[test]
fn otherwise_relabels_a_zero_consumption_failure() {
    let mut state = VecState::new("b".chars().collect());
    let re = otherwise(eq('a'), "wanted a letter a".to_string()).parse(&mut state);
    let e = re.unwrap_err();
    assert_eq!(e.description(), "wanted a letter a".to_string());
    assert_eq!(state.pos(), 0);
}

#[test]
fn skip_many_discards_and_never_fails() {
    let mut state = VecState::new("aaab".chars().collect());
    let re = skip_many(eq('a')).parse(&mut state);
    assert_eq!(re.unwrap(), Vec::<char>::new());
    assert_eq!(state.pos(), 3);
    let re = skip_many(eq('a')).parse(&mut state);
    assert_eq!(re.unwrap(), Vec::<char>::new());
    assert_eq!(state.pos(), 3);
}

#[test]
fn skip_many1_needs_one_match() {
    let mut state = VecState::new("baa".chars().collect());
    assert!(skip_many1(eq('a')).parse(&mut state).is_err());
    assert_eq!(state.pos(), 0);
    assert!(skip_many1(eq('b')).parse(&mut state).is_ok());
    assert_eq!(state.pos(), 1);
}

#[test]
fn none_of_rejects_members_without_consuming() {
    let excluded = vec!['x', 'y'];
    let mut state = VecState::new(vec!['x']);
    let re = none_of(&excluded).parse(&mut state);
    assert!(re.is_err());
    assert_eq!(state.pos(), 0);
}

#[test]
fn alternative_is_left_biased() {
    let mut state = VecState::new("abc".chars().collect());
    let re = either(pack('l'), pack('r')).parse(&mut state);
    assert_eq!(re.unwrap(), 'l');
    assert_eq!(state.pos(), 0);
}

#[test]
fn alternative_propagates_a_consuming_failure() {
    let mut state = VecState::new("ax".chars().collect());
    let left = eq('a').skip_then(eq('b'));
    let re = either(left, pack('z')).parse(&mut state);
    let e = re.unwrap_err();
    assert_eq!(e.pos(), 1);
    assert_eq!(state.pos(), 1);
}

#[test]
fn error_reports_its_position_through_the_trait() {
    let e = ruskell::parsec::ParsecError::new(7, "misplaced".to_string());
    assert_eq!(Error::pos(&e), 7);
    assert_eq!(e.description(), "misplaced".to_string());
}
