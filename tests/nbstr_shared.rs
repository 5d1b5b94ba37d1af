use nbstr::{take_box, Nbstr, MAX_STACK};
use std::ops::Deref;

const STR: &'static str = "abcdefghijklmnopqrstuvwxyzABCDEFGHIJKLMNOPQRSTUVWXYZ";

#[test]
fn literal() {
    let mut z = Nbstr::from(STR);
    assert_eq!(z.deref().len(), STR.len());
    assert_eq!(z.deref().as_ptr(), STR.as_ptr());
    assert_eq!(z.deref(), STR);
    assert_eq!(take_box(&mut z), None);
}

#[test]
fn stack() {
    let s = "abc";
    let mut z = Nbstr::from_str(s);
    assert_eq!(z.deref().len(), s.len());
    assert_eq!(z.deref().as_ptr() as usize, z.data().unwrap().as_ptr() as usize);
    assert_eq!(z.deref(), s);
    assert_eq!(take_box(&mut z), None);
}

#[test]
fn boxed() {
    let b: Box<str> = STR.to_string().into_boxed_str();
    let len = b.len();
    let ptr = b.as_ptr();
    let b2 = b.clone();
    let mut z = Nbstr::from(b);
    assert_eq!(z.deref().len(), len);
    assert_eq!(z.deref().as_ptr(), ptr);
    assert_eq!(z.deref(), STR);
    assert_eq!(take_box(&mut z), Some(b2.clone()));
    assert_eq!(take_box(&mut Nbstr::from_str(STR)), Some(b2.clone()));
}

#[test]
fn nuls() {
    let zeros_bytes = [0; MAX_STACK as usize];
    let zeros_str = std::str::from_utf8(&zeros_bytes).unwrap();
    let zeros = Nbstr::from_str(zeros_str);
    assert_eq!(zeros.deref(), zeros_str);
    assert!(Some(zeros).is_some());
}

#[test]
fn too_long() {
    // No length exceeds `max_length()`, which is `usize::MAX`: one more wraps
    // to zero.
    let s = "x".repeat(Nbstr::max_length().wrapping_add(1));
    std::mem::forget(Nbstr::from(s));
}
