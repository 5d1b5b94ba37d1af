use nbstr::Nbstr;
use std::borrow::Cow;
use std::hash::{Hash, SipHasher};
use std::ops::Deref;

const A_FEW: &'static str = "\0eéaå𝛼 ∆θ≈π";

#[test]
fn from_char() {
    for c in A_FEW.chars() {
        let mut s = String::new();
        s.push(c);
        assert_eq!(Nbstr::from(c).deref(), s);
    }
}

#[test]
fn from_a_few() {
    assert_eq!(Nbstr::from(A_FEW).deref(), A_FEW);
    assert_eq!(Nbstr::from_str(A_FEW).deref(), A_FEW);
    assert_eq!(Nbstr::from(A_FEW.to_string()).deref(), A_FEW);
}

#[test]
fn into() {
    let l1: &str = &Box::<str>::from(Nbstr::from("str".to_string().into_boxed_str()));
    assert_eq!(l1, "str");
    let l2: &str = &String::from(Nbstr::from("str".to_string()));
    assert_eq!(l2, "str");
    assert!(Box::<str>::from(Nbstr::from("str".to_string())) == Box::from(Nbstr::from("str")));
}

#[test]
fn from_str() {
    let mut s = String::new();
    for _ in 0..20 {
        assert_eq!(Nbstr::from_str(&s).deref(), &s);
        s.push('|');
    }
}

#[test]
fn empty() {
    let none: Option<Nbstr> = None;
    assert!(none.is_none());
    assert!(Some(Nbstr::default()).is_some());
    let empty = Nbstr::from_str("");
    assert_eq!(empty.deref(), "");
    assert!(Some(empty).is_some());
    let s1 = String::with_capacity(0);
    assert!(Some(Nbstr::from_str(&s1)).is_some());
    assert!(Some(Nbstr::from(s1)).is_some());
    let s2 = String::with_capacity(1);
    assert!(Some(Nbstr::from(s2)).is_some());
    let b = String::with_capacity(1).into_boxed_str();
    assert!(Some(Nbstr::from(b)).is_some());
}

#[test]
fn clone_from() {
    let mut s = A_FEW.to_string();
    let orig_owned = Nbstr::from(s.clone());
    let orig_literal = Nbstr::from(A_FEW);
    s = s.replace("a", "*");
    let mut a = Nbstr::from(s.clone());
    assert_eq!(a.len(), orig_owned.len());
    assert!(a != orig_owned);
    a.clone_from(&orig_owned);
    assert!(a == orig_owned);
    a.clone_from(&orig_literal);
    assert!(a == orig_literal);
    s.push_str("--------------------------------------------------------");
    let b = Nbstr::from(s.clone());
    a.clone_from(&b);
    assert!(a == b);
}

#[test]
#[allow(deprecated)]
fn simple_derefs() {
    assert_eq!(Nbstr::from("abc").hash(&mut SipHasher::new_with_keys(0, 1)),
               "abc".hash(&mut SipHasher::new_with_keys(0, 1)));
    assert_eq!(format!("a{}", Nbstr::from("bc").as_str()), format!("a{}", "bc"));
    assert_eq!(Nbstr::from("abc") == Nbstr::from_str("abc"), "abc" == "abc");
    assert_eq!(Nbstr::from("abc") == Nbstr::from_str("aBc"), "abc" == "aBc");
    assert_eq!(Nbstr::from("abc").cmp(&Nbstr::from_str("abc")), "abc".cmp("abc"));
    assert_eq!(Nbstr::from("abc").cmp(&Nbstr::from_str("aBc")), "abc".cmp("aBc"));
}

#[test]
fn cow_round_trip() {
    let c: Cow<'static, str> = Cow::from(Nbstr::from("lit"));
    assert!(matches!(c, Cow::Borrowed("lit")));
    let c2: Cow<'static, str> = Cow::from(Nbstr::from("abcdefghijklmnopqrstuvwxyz".to_string()));
    assert!(matches!(c2, Cow::Owned(_)));
    assert_eq!(c2, "abcdefghijklmnopqrstuvwxyz");
    let z = Nbstr::from(Cow::Borrowed("x"));
    assert_eq!(z.variant(), nbstr::LITERAL);
}
