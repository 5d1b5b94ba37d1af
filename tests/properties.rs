use nbstr::layout::{decode, store_inline, Decoded, Protected};
use nbstr::layout_48bit::Packed48Layout;
use nbstr::layout_default::DefaultLayout;
use nbstr::layout_shifted::ShiftedLayout;
use nbstr::{take_box, Nbstr, Utf8Char, BOX, LITERAL, MAX_STACK};
use std::collections::hash_map::DefaultHasher;
use std::hash::{Hash, Hasher};
use std::ops::Deref;

fn inline_round_trip<L: Protected>(bytes: &[u8]) {
    let z: L = store_inline(bytes);
    assert_eq!(z.variant() as usize, bytes.len());
    match decode(&z) {
        Decoded::Inline(v) => assert_eq!(v, bytes.to_vec()),
        Decoded::Pointer(_, _) => panic!("inline payload decoded as a pointer"),
    }
}

fn pointer_round_trip<L: Protected>(tag: u8, address: u64, length: u64) {
    let z = L::with_pointer(tag, address, length);
    assert_eq!(z.variant(), tag);
    match decode(&z) {
        Decoded::Pointer(a, l) => {
            assert_eq!(a, address);
            assert_eq!(l, length);
        }
        Decoded::Inline(_) => panic!("pointer payload decoded as inline"),
    }
}

#[test]
fn layouts_round_trip() {
    inline_round_trip::<DefaultLayout>(b"abc");
    inline_round_trip::<DefaultLayout>(&[7u8; 16]);
    inline_round_trip::<ShiftedLayout>(b"x");
    inline_round_trip::<ShiftedLayout>(b"0123456789abcde");
    inline_round_trip::<Packed48Layout>(b"hello");
    inline_round_trip::<Packed48Layout>(b"0123456789ab");
    pointer_round_trip::<DefaultLayout>(17, 0x1234_5678_9abc_def0, u64::MAX);
    pointer_round_trip::<ShiftedLayout>(17, 0xdead_beef, 0x07ff_ffff_ffff_ffff);
    pointer_round_trip::<ShiftedLayout>(16, 8, 0);
    pointer_round_trip::<Packed48Layout>(13, 0x0000_7fff_ffff_fff0, 0x0000_ffff_ffff_ffff);
    pointer_round_trip::<Packed48Layout>(14, 0xffff_8000_0000_1234, 53);
}

#[test]
fn constructors_round_trip() {
    for s in ["", "a", "é", "0123456789abcdef", "0123456789abcdefg", "\0eéaå𝛼 ∆θ≈π"] {
        assert_eq!(Nbstr::from_str(s).as_bytes(), s.as_bytes());
        assert_eq!(Nbstr::from(s.to_string()).as_str(), s);
        assert_eq!(Nbstr::from(s.to_string().into_boxed_str()).deref(), s);
        assert_eq!(String::from(Nbstr::from_str(s)), s);
    }
}

#[test]
fn boundary_lengths() {
    let empty = Nbstr::from_str("");
    assert_eq!(empty.variant(), LITERAL);
    assert_eq!(empty.len(), 0);
    let full = "x".repeat(MAX_STACK as usize);
    assert_eq!(Nbstr::from_str(&full).variant(), MAX_STACK);
    let over = "x".repeat(MAX_STACK as usize + 1);
    assert_eq!(Nbstr::from_str(&over).variant(), BOX);
    assert!(Nbstr::try_stack(&over).is_none());
}

#[test]
fn drain_keeps_allocation() {
    let b: Box<str> = "a string long enough to be boxed".to_string().into_boxed_str();
    let ptr = b.as_ptr();
    let mut z = Nbstr::from(b);
    let taken = take_box(&mut z).unwrap();
    assert_eq!(taken.as_ptr(), ptr);
    assert_eq!(z.variant(), LITERAL);
    assert_eq!(z.len(), 0);
}

#[test]
fn clones_own_their_allocations() {
    let source = Nbstr::from("a string long enough to be boxed".to_string());
    assert_eq!(source.variant(), BOX);
    let clones: Vec<Nbstr> = (0..5).map(|_| source.clone()).collect();
    for c in &clones {
        assert!(*c == source);
        assert_eq!(c.variant(), BOX);
        assert_ne!(c.as_ptr(), source.as_ptr());
    }
    drop(clones);
    assert_eq!(source.deref(), "a string long enough to be boxed");
}

#[test]
fn clone_from_reuses_same_length_box() {
    let mut dst = Nbstr::from("hello".to_string().into_boxed_str());
    assert_eq!(dst.variant(), BOX);
    let ptr = dst.as_ptr();
    let src = Nbstr::from("world".to_string().into_boxed_str());
    dst.clone_from(&src);
    assert_eq!(dst.deref(), "world");
    assert_eq!(dst.as_ptr(), ptr);
    assert_eq!(dst.variant(), BOX);
    let longer = Nbstr::from("nine char".to_string().into_boxed_str());
    dst.clone_from(&longer);
    assert_eq!(dst.deref(), "nine char");
    assert_eq!(dst.variant(), 9);
}

#[test]
fn equal_across_representations() {
    let literal = Nbstr::from("abc");
    let inline = Nbstr::from_str("abc");
    let boxed = Nbstr::from("abc".to_string().into_boxed_str());
    assert_eq!(literal.variant(), LITERAL);
    assert_eq!(inline.variant(), 3);
    assert_eq!(boxed.variant(), BOX);
    assert!(literal == inline && inline == boxed);
    assert_eq!(literal.cmp(&boxed), std::cmp::Ordering::Equal);
    assert_eq!(literal.partial_cmp(&Nbstr::from("abd")), Some(std::cmp::Ordering::Less));
    assert_eq!(Nbstr::from("b").cmp(&Nbstr::from("abc")), std::cmp::Ordering::Greater);
    let hash = |z: &Nbstr| {
        let mut h = DefaultHasher::new();
        z.hash(&mut h);
        h.finish()
    };
    assert_eq!(hash(&literal), hash(&inline));
    assert_eq!(hash(&inline), hash(&boxed));
}

#[test]
fn empty_input() {
    let d = Nbstr::default();
    let s = Nbstr::from(String::new());
    assert_eq!(d.variant(), LITERAL);
    assert_eq!(s.variant(), LITERAL);
    assert_eq!(d.deref(), "");
    assert_eq!(s.deref(), "");
}

#[test]
fn short_input_is_inline() {
    let z = Nbstr::from_str("abc");
    assert_eq!(z.variant(), 3);
    assert_eq!(z.as_ptr(), z.data().unwrap().as_ptr());
    assert!(Nbstr::from("abc").data().is_none());
}

#[test]
fn long_input_is_boxed() {
    let s = "abcdefghijklmnopqrstuvwxyzABCDEFGHIJKLMNOPQRSTUVWXYZ0";
    assert_eq!(s.len(), 53);
    let z = Nbstr::from_str(s);
    assert_eq!(z.variant(), BOX);
    let ptr = z.as_ptr();
    let b = Box::<str>::from(z);
    assert_eq!(b.len(), 53);
    assert_eq!(b.as_ptr(), ptr);
    assert_eq!(&*b, s);
}

#[test]
fn char_is_inline() {
    let z = Nbstr::from('é');
    assert_eq!(z.variant(), 2);
    assert_eq!(z.deref(), "é");
    assert_eq!(Nbstr::from('𝛼').variant(), 4);
    assert_eq!(Nbstr::from('a').variant(), 1);
}

#[test]
fn utf8_char_encodes() {
    for (c, n) in [('\0', 1), ('é', 2), ('∆', 3), ('𝛼', 4)] {
        let u = Utf8Char::from(c);
        assert_eq!(u.len(), n);
        let mut buf = [0u8; 4];
        assert_eq!(u.deref(), c.encode_utf8(&mut buf));
    }
}

#[test]
fn string_without_spare_capacity_goes_inline() {
    let exact = "abc".to_string().into_boxed_str().into_string();
    assert_eq!(exact.capacity(), exact.len());
    assert_eq!(Nbstr::from(exact).variant(), 3);
    let mut spare = String::with_capacity(32);
    spare.push_str("abc");
    assert_eq!(Nbstr::from(spare).variant(), BOX);
}

#[test]
fn capacity_decides_representation() {
    assert_eq!(Nbstr::from_string_with_capacity("abc".to_string(), 3).variant(), 3);
    assert_eq!(Nbstr::from_string_with_capacity("abc".to_string(), 8).variant(), BOX);
    let long = "x".repeat(MAX_STACK as usize + 1);
    assert_eq!(Nbstr::from_string_with_capacity(long.clone(), long.len()).variant(), BOX);
    let empty = Nbstr::from_string_with_capacity(String::new(), 0);
    assert_eq!(empty.variant(), LITERAL);
    assert_eq!(empty.len(), 0);
}

#[test]
fn try_stack_refuses_empty_and_long() {
    assert!(Nbstr::try_stack("").is_none());
    assert!(Nbstr::try_stack(&"x".repeat(MAX_STACK as usize + 1)).is_none());
    assert_eq!(Nbstr::try_stack("é").unwrap().variant(), 2);
}

#[test]
fn utf8_char_pads_with_zeros() {
    let mut buf = [0xffu8; 4];
    let u = Utf8Char::from('A');
    for i in 0..4 {
        buf[i] = u.byte(i);
    }
    assert_eq!(buf, [0x41, 0, 0, 0]);
    let e = Utf8Char::from('é');
    assert_eq!([e.byte(0), e.byte(1), e.byte(2), e.byte(3)], [0xC3, 0xA9, 0, 0]);
    let d = Utf8Char::from('∆');
    assert_eq!([d.byte(0), d.byte(1), d.byte(2), d.byte(3)], [0xE2, 0x88, 0x86, 0]);
    let a = Utf8Char::from('𝛼');
    assert_eq!([a.byte(0), a.byte(1), a.byte(2), a.byte(3)], [0xF0, 0x9D, 0x9B, 0xBC]);
}

#[test]
fn debug_names_representation() {
    assert_eq!(Nbstr::from_str("abc").debug_string(), "stack: abc");
    assert_eq!(Nbstr::from("abc").debug_string(), "literal: abc");
    assert_eq!(Nbstr::from("abc".to_string().into_boxed_str()).debug_string(), "boxed: abc");
}

#[test]
fn into_string_keeps_allocation() {
    let b: Box<str> = "owned text that is not short".to_string().into_boxed_str();
    let ptr = b.as_ptr();
    let s = String::from(Nbstr::from(b));
    assert_eq!(s.as_ptr(), ptr);
    assert_eq!(s, "owned text that is not short");
    assert_eq!(String::from(Nbstr::from_str("abc")), "abc");
}
