use ruskell::functional::applicative::Sequential;
use ruskell::functional::functor::Functor;

#[test]
fn vec_functor_test0() {
    let source = vec![0, 1, 2, 3, 4];
    let f = |x: &i32| x * 2;
    let data = source.fmap(&f);
    assert_eq!(data, vec![0, 2, 4, 6, 8]);
}

#[test]
fn vec_functor_test1() {
    let source = vec![0, 1, 2, 3, 4];
    let f: Box<dyn Fn(i32) -> i32> = Box::new(|x: i32| x * 2);
    let data = source.into_iter().map(|x: i32| f(x)).collect::<Vec<_>>();
    assert_eq!(data, vec![0, 2, 4, 6, 8]);
}

#[test]
fn result_functor_test_ok() {
    let source: Result<i32, i32> = Ok(25);
    let data = source.fmap(&|x| x / 5);
    let check: Result<i32, i32> = Ok(5);
    assert_eq!(data, check);
}

#[test]
fn result_functor_test_error() {
    let nothing = "Nothing".to_string();
    let source: Result<i32, &str> = Err(&nothing);
    let data = source.fmap(&|x| x / 5);
    let check: Result<i32, &str> = Err(&nothing);
    assert_eq!(data, check);
}

#[test]
fn option_functor_test_ok() {
    let source: Option<i32> = Some(25);
    let data = source.fmap(&|x| x / 5);
    let check: Option<i32> = Some(5);
    assert_eq!(data, check);
}

#[test]
fn result_functor_test_none() {
    let source: Option<i32> = None;
    let data = source.fmap(&|x| x / 5);
    assert_eq!(data, source);
}

#[test]
fn vec_seq_applies_each_function() {
    let left = vec![Box::new(|x: &i32| *x * 2)];
    let right: Vec<i32> = vec![0, 1, 2, 3, 4];
    let data: Vec<Vec<i32>> =
        Sequential::<_, _, fn(&Box<_>) -> Vec<i32>, _, _, _>::seq(&left, &right);
    assert_eq!(data, vec![vec![0, 2, 4, 6, 8]]);
}
