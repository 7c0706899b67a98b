use ruskell::parsec::atom::{eof, eq, none_of, one_of, pack};
use ruskell::parsec::combinator::{Monad, between, either, many, many1};
use ruskell::parsec::{Parsec, State, VecState};

#[test]
fn lib_state_works() {
    let mut state: VecState<char> = VecState::new("abc".chars().collect());
    assert_eq!(state.next(), Some('a'));
    assert_eq!(state.pos(), 1);
    assert_eq!(state.next(), Some('b'));
    assert_eq!(state.pos(), 2);
    assert_eq!(state.next(), Some('c'));
    assert_eq!(state.pos(), 3);
    assert_eq!(state.next(), None);
    assert_eq!(state.pos(), 3);
}

#[test]
fn lib_eq_test_0() {
    let mut state = VecState::new("abc".chars().collect());
    let a = eq('a');
    let re = a.parse(&mut state);
    assert!(re.is_ok());
    let data = re.unwrap();
    assert_eq!(data, 'a');
    let a = eq('b');
    let re = a.parse(&mut state);
    assert!(re.is_ok());
    let data = re.unwrap();
    assert_eq!(data, 'b');
    let a = eq('c');
    let re = a.parse(&mut state);
    assert!(re.is_ok());
    let data = re.unwrap();
    assert_eq!(data, 'c');
}

#[test]
fn lib_eq_eof_test_0() {
    let mut state = VecState::new("abc".chars().collect());
    let a = eq('a');
    let re = a.parse(&mut state);
    assert!(re.is_ok());
    let data = re.unwrap();
    assert_eq!(data, 'a');
    let a = eq('b');
    let re = a.parse(&mut state);
    assert!(re.is_ok());
    let data = re.unwrap();
    assert_eq!(data, 'b');
    let a = eq('c');
    let re = a.parse(&mut state);
    assert!(re.is_ok());
    let data = re.unwrap();
    assert_eq!(data, 'c');
    let re = eof().parse(&mut state);
    assert!(re.is_ok());
}

#[test]
fn lib_eq_of_test_0() {
    let es = "abc".chars().collect::<Vec<char>>();
    let mut state = VecState::new("abc".chars().collect());
    let p = one_of(&es);
    let re = p.parse(&mut state);
    assert!(re.is_ok());
    let data = re.unwrap();
    assert_eq!(data, 'a');
}

#[test]
fn lib_neq_of_test_0() {
    let es = "abc".chars().collect::<Vec<char>>();
    let mut state = VecState::new("abc".chars().collect());
    let p = none_of(&es);
    let re = p.parse(&mut state);
    assert!(re.is_err());
}

#[test]
fn lib_neq_of_test_1() {
    let es = "bcdef".chars().collect::<Vec<char>>();
    let mut state = VecState::new("abc".chars().collect());
    let p = none_of(&es);
    let re = p.parse(&mut state);
    assert!(re.is_ok());
    let data = re.unwrap();
    assert_eq!(data, 'a');
}

#[test]
fn lib_either_test_0() {
    let mut state = VecState::new("abc".chars().collect());
    let a = eq('a');
    let b = eq('b');
    let e = either(b, a);
    let re = e.parse(&mut state);
    assert!(re.is_ok());
    let data = re.unwrap();
    assert_eq!(data, 'a');
}

#[test]
fn lib_either_test_1() {
    let mut state = VecState::new("abc".chars().collect());
    let a = eq('a');
    let b = eq('b');
    let e = either(a, b);
    let re = e.parse(&mut state);
    assert!(re.is_ok());
    let data = re.unwrap();
    assert_eq!(data, 'a');
}

#[test]
fn lib_either_test_2() {
    let mut state = VecState::new("abc".chars().collect());
    let a = eq('a');
    let b = eq('b');
    let c = eq('c');
    let e = either(b, c).or(a);
    let re = e.parse(&mut state);
    assert!(re.is_ok());
    let data = re.unwrap();
    assert_eq!(data, 'a');
}

#[test]
fn lib_monad_test_0() {
    let mut state = VecState::new("abc".chars().collect());
    let a = eq('a');
    let exp = a.bind(|x: char| {
        eq('b').bind(move |y: char| {
            let mut res: Vec<char> = Vec::new();
            res.push(x);
            res.push(y);
            pack(res)
        })
    }).bind(|v: Vec<char>| {
        eq('c').bind(move |x: char| {
            let mut res = v.clone();
            res.push(x);
            pack(res)
        })
    });
    let re = exp.parse(&mut state);
    assert!(re.is_ok());
    let data = re.unwrap();
    let ver = vec!['a', 'b', 'c'];
    assert_eq!(data, ver);
}

#[test]
fn lib_then_test_0() {
    let mut state = VecState::new("abc".chars().collect());
    let a = eq('a');
    let b = eq('b');
    let c = eq('c');
    let exp = a.over(b).skip_then(c);
    let re = exp.parse(&mut state);
    assert!(re.is_ok());
    let data = re.unwrap();
    assert_eq!(data, 'c');
}

#[test]
fn lib_bind_then_over_test_0() {
    let mut state = VecState::new("abc".chars().collect());
    let a = eq('a');
    let exp = a.skip_then(eq('b')).over(eq('c')).over(eof());
    let re = exp.parse(&mut state);
    assert!(re.is_ok());
    let data = re.unwrap();
    assert_eq!(data, 'b');
}

#[test]
fn lib_m_test_0() {
    let mut state = VecState::new("abc".chars().collect());
    let a = eq('a');
    let b = eq('b');
    let c = eq('c');
    let exp = a.over(b).skip_then(c);
    let re = exp.parse(&mut state);
    assert!(re.is_ok());
    let data = re.unwrap();
    assert_eq!(data, 'c');
}

#[test]
fn lib_m_test_1() {
    let mut state = VecState::new("abc".chars().collect());
    let a = eq('a');
    let exp = a.skip_then(eq('b')).over(eq('c')).over(eof());
    let re = exp.parse(&mut state);
    assert!(re.is_ok());
    let data = re.unwrap();
    assert_eq!(data, 'b');
}

#[test]
fn lib_many_test_0() {
    let mut state = VecState::new("abc".chars().collect());
    let a = eq('a');
    let re = many(a).parse(&mut state);
    assert!(re.is_ok());
    let data = re.unwrap();
    let ver = vec!['a'];
    assert_eq!(data, ver);
}

#[test]
fn lib_many_test_1() {
    let mut state = VecState::new("abc".chars().collect());
    let a = eq('b');
    let re = many(a).parse(&mut state);
    assert!(re.is_ok());
    let data = re.unwrap();
    let ver: Vec<char> = vec![];
    assert_eq!(data, ver);
}

#[test]
fn lib_many_test_2() {
    let mut state = VecState::new("abc".chars().collect());
    let a = eq('a');
    let b = eq('b');
    let c = eq('c');
    let re = many(either(a, b).or(c)).parse(&mut state);
    assert!(re.is_ok());
    let data = re.unwrap();
    let ver = vec!['a', 'b', 'c'];
    assert_eq!(data, ver);
}

#[test]
fn lib_many1_test_0() {
    let mut state = VecState::new("abc".chars().collect());
    let a = eq('a');
    let b = eq('b');
    let c = eq('c');
    let re = many1(either(a, b).or(c)).parse(&mut state);
    assert!(re.is_ok());
    let data = re.unwrap();
    let ver = vec!['a', 'b', 'c'];
    assert_eq!(data, ver);
}

#[test]
fn lib_many1_test_1() {
    let mut state = VecState::new("abc".chars().collect());
    let a = eq('b');
    let b = eq('b');
    let c = eq('c');
    let re = many1(either(a, b).or(c)).parse(&mut state);
    assert!(re.is_err());
}

#[test]
fn lib_many1_test_2() {
    let mut state = VecState::new("abc".chars().collect());
    let a = eq('a');
    let b = eq('b');
    let re = many1(either(a, b)).parse(&mut state);
    assert!(re.is_ok());
    let data = re.unwrap();
    let ver = vec!['a', 'b'];
    assert_eq!(data, ver);
}

#[test]
fn lib_between_test_0() {
    let mut state = VecState::new("\"xxxxxxxx\".".chars().collect());
    let quote = eq('\"');
    let quote2 = eq('\"');
    let content = many(eq('x'));
    let re = between(quote, quote2, content).parse(&mut state);
    if re.is_err() {
        panic!("{}", re.unwrap_err().description());
    }
    let data = re.unwrap();
    let ver = "xxxxxxxx".chars().collect::<Vec<char>>();
    assert_eq!(data, ver);
}
