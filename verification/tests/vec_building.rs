use atomics::vecbuild::avec_empty;
use atomics::vecbuild::avec_extended;
use atomics::vecbuild::avec_repeat;

#[test]
fn it_works() {
    assert_eq!(2 + 2, 4);
}

#[test]
fn empty_vec() {
    let x: Vec<u32> = avec_empty();
    assert!(x.is_empty());
}

#[test]
fn double() {
    let x: Vec<u32> = avec_extended(avec_extended(avec_empty(), 42), 43);
    assert!(!x.is_empty());
    assert_eq!(x[0], 42);
    assert_eq!(x[1], 43);
}

#[test]
fn clone_macro() {
    let mut y = Some(42);
    let x: Vec<u32> = avec_repeat(y.take().unwrap(), 2);
    assert!(!x.is_empty());
    assert_eq!(x[0], 42);
    assert_eq!(x[1], 42);
}

#[test]
fn repeat_none() {
    let x: Vec<u8> = avec_repeat(7, 0);
    assert!(x.is_empty());
}
