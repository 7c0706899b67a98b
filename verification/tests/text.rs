use ruskell::parsec::text::{
    StringState, alpha, alphanumeric, control, digit, float, integer, newline, space, ufloat,
    uinteger, white_space,
};
use ruskell::parsec::{Parsec, State, VecState};

#[test]
fn string_state_walks_the_characters() {
    let mut state = StringState::new("ab".to_string());
    assert_eq!(state.pos(), 0);
    assert_eq!(state.next(), Some('a'));
    assert_eq!(state.next(), Some('b'));
    assert_eq!(state.next(), None);
    assert_eq!(state.pos(), 2);
    assert!(state.seek_to(0));
    assert_eq!(state.next(), Some('a'));
    assert!(!state.seek_to(9));
}

#[test]
fn space_accepts_blank_and_tab() {
    let mut state = VecState::new(vec![' ', 'x']);
    assert_eq!(space().parse(&mut state).unwrap(), ' ');
    assert!(space().parse(&mut state).is_err());
    let mut state = VecState::new(vec!['\t']);
    assert_eq!(space().parse(&mut state).unwrap(), '\t');
}

#[test]
fn white_space_accepts_line_breaks_too() {
    let mut state = StringState::new(" \t\n\rx".to_string());
    for _ in 0..4 {
        assert!(white_space().parse(&mut state).is_ok());
    }
    let re = white_space().parse(&mut state);
    assert!(re.is_err());
    assert_eq!(state.pos(), 4);
}

#[test]
fn digit_accepts_exactly_the_digits() {
    let mut state = StringState::new("7a".to_string());
    assert_eq!(digit().parse(&mut state).unwrap(), '7');
    assert!(digit().parse(&mut state).is_err());
    assert_eq!(state.pos(), 1);
}

#[test]
fn alpha_and_alphanumeric_and_control() {
    let mut state = StringState::new("aZ3\u{1}-".to_string());
    assert_eq!(alpha().parse(&mut state).unwrap(), 'a');
    assert_eq!(alpha().parse(&mut state).unwrap(), 'Z');
    assert!(alpha().parse(&mut state).is_err());
    assert_eq!(alphanumeric().parse(&mut state).unwrap(), '3');
    assert!(alphanumeric().parse(&mut state).is_err());
    assert_eq!(control().parse(&mut state).unwrap(), '\u{1}');
    assert!(control().parse(&mut state).is_err());
}

#[test]
fn newline_reads_each_line_break_form() {
    let mut state = StringState::new("\r\nrest".to_string());
    assert_eq!(newline().parse(&mut state).unwrap(), "\r\n".to_string());
    assert_eq!(state.pos(), 2);
    let mut state = StringState::new("\nx".to_string());
    assert_eq!(newline().parse(&mut state).unwrap(), "\n".to_string());
    let mut state = StringState::new("\rx".to_string());
    assert_eq!(newline().parse(&mut state).unwrap(), "\r".to_string());
    let mut state = StringState::new("x".to_string());
    assert!(newline().parse(&mut state).is_err());
    assert_eq!(state.pos(), 0);
}

#[test]
fn uinteger_reads_the_digit_run() {
    let mut state = StringState::new("123abc".to_string());
    assert_eq!(uinteger().parse(&mut state).unwrap(), "123".to_string());
    assert_eq!(state.pos(), 3);
    let re = uinteger().parse(&mut state);
    assert!(re.is_err());
    assert_eq!(re.unwrap_err().pos(), 3);
    assert_eq!(state.pos(), 3);
}

#[test]
fn integer_keeps_a_leading_minus() {
    let mut state = StringState::new("-42;".to_string());
    assert_eq!(integer().parse(&mut state).unwrap(), "-42".to_string());
    assert_eq!(state.pos(), 3);
    let mut state = StringState::new("17".to_string());
    assert_eq!(integer().parse(&mut state).unwrap(), "17".to_string());
    let mut state = StringState::new("-a".to_string());
    let re = integer().parse(&mut state);
    assert!(re.is_err());
    assert_eq!(re.unwrap_err().pos(), 1);
    assert_eq!(state.pos(), 1);
}

#[test]
fn ufloat_reads_both_parts() {
    let mut state = StringState::new("12.5x".to_string());
    assert_eq!(ufloat().parse(&mut state).unwrap(), "12.5".to_string());
    assert_eq!(state.pos(), 4);
    let mut state = StringState::new(".5".to_string());
    assert_eq!(ufloat().parse(&mut state).unwrap(), "0.5".to_string());
    let mut state = StringState::new("12".to_string());
    let re = ufloat().parse(&mut state);
    assert!(re.is_err());
    assert_eq!(re.unwrap_err().pos(), 2);
    let mut state = StringState::new("12.a".to_string());
    let re = ufloat().parse(&mut state);
    assert!(re.is_err());
    assert_eq!(re.unwrap_err().pos(), 3);
}

#[test]
fn float_keeps_a_leading_minus() {
    let mut state = StringState::new("-0.25".to_string());
    assert_eq!(float().parse(&mut state).unwrap(), "-0.25".to_string());
    assert_eq!(state.pos(), 5);
    let mut state = StringState::new("3.14tail".to_string());
    assert_eq!(float().parse(&mut state).unwrap(), "3.14".to_string());
    let mut state = StringState::new("-x".to_string());
    assert!(float().parse(&mut state).is_err());
}
