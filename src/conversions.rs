//! `From` conversions into and out of `Nbstr`. What each produces is stated
//! by the `Nbstr` function it calls.
use vstd::prelude::*;
use std::borrow::Cow;
use vstd::string::StringSliceAdditionalSpecFns;
use vstd::utf8::{encode_scalar, encode_utf8};
use crate::layout_default::{BOX, LITERAL, MAX_STACK};
use crate::nbstr::Nbstr;
use crate::utf8_char::Utf8Char;

verus! {

/// The UTF-8 bytes of `s`.
pub open spec fn str_bytes(s: &str) -> Seq<u8> {
    s.spec_bytes()
}

/// The bytes of `s`.
pub open spec fn slice_bytes(s: &[u8]) -> Seq<u8> {
    s@
}

impl From<&'static str> for Nbstr {
    fn from(s: &'static str) -> (r: Nbstr)
        ensures
            r.tag() == LITERAL,
            r@ == s.spec_bytes(),
    {
        Nbstr::from_static(s)
    }
}

impl vstd::std_specs::convert::FromSpecImpl<&'static str> for Nbstr {
    open spec fn obeys_from_spec() -> bool {
        false
    }

    open spec fn from_spec(s: &'static str) -> Nbstr {
        arbitrary()
    }
}

impl From<Box<str>> for Nbstr {
    fn from(b: Box<str>) -> (r: Nbstr)
        ensures
            r@ == b.spec_bytes(),
            b.spec_bytes().len() == 0 ==> r.is_empty_literal(),
            b.spec_bytes().len() > 0 ==> r.tag() == BOX,
    {
        Nbstr::from_boxed(b)
    }
}

impl vstd::std_specs::convert::FromSpecImpl<Box<str>> for Nbstr {
    open spec fn obeys_from_spec() -> bool {
        false
    }

    open spec fn from_spec(b: Box<str>) -> Nbstr {
        arbitrary()
    }
}

impl From<String> for Nbstr {
    fn from(s: String) -> (r: Nbstr)
        ensures
            r@ == encode_utf8(s@),
            s@.len() == 0 ==> r.is_empty_literal(),
            1 <= encode_utf8(s@).len() <= MAX_STACK ==> r.tag() == encode_utf8(s@).len() || r.tag()
                == BOX,
            encode_utf8(s@).len() > MAX_STACK ==> r.tag() == BOX,
    {
        Nbstr::from_string(s)
    }
}

impl vstd::std_specs::convert::FromSpecImpl<String> for Nbstr {
    open spec fn obeys_from_spec() -> bool {
        false
    }

    open spec fn from_spec(s: String) -> Nbstr {
        arbitrary()
    }
}

impl From<Cow<'static, str>> for Nbstr {
    fn from(cow: Cow<'static, str>) -> (r: Nbstr)
        ensures
            r@ == encode_utf8(cow@),
            cow is Borrowed ==> r.tag() == LITERAL,
    {
        Nbstr::from_cow(cow)
    }
}

impl vstd::std_specs::convert::FromSpecImpl<Cow<'static, str>> for Nbstr {
    open spec fn obeys_from_spec() -> bool {
        false
    }

    open spec fn from_spec(cow: Cow<'static, str>) -> Nbstr {
        arbitrary()
    }
}

impl From<char> for Nbstr {
    fn from(c: char) -> (r: Nbstr)
        ensures
            r@ == encode_scalar(c as u32),
            r.tag() == encode_scalar(c as u32).len(),
    {
        Nbstr::from_char(c)
    }
}

impl vstd::std_specs::convert::FromSpecImpl<char> for Nbstr {
    open spec fn obeys_from_spec() -> bool {
        false
    }

    open spec fn from_spec(c: char) -> Nbstr {
        arbitrary()
    }
}

impl From<char> for Utf8Char {
    fn from(c: char) -> (r: Utf8Char)
        ensures
            r@ == encode_scalar(c as u32),
            r.raw_bytes().len() == 4,
            r.raw_bytes().subrange(0, r@.len() as int) == r@,
            forall|i: int| r@.len() <= i < 4 ==> #[trigger] r.raw_bytes()[i] == 0,
    {
        Utf8Char::from_char(c)
    }
}

impl vstd::std_specs::convert::FromSpecImpl<char> for Utf8Char {
    open spec fn obeys_from_spec() -> bool {
        false
    }

    open spec fn from_spec(c: char) -> Utf8Char {
        arbitrary()
    }
}

impl From<Nbstr> for Box<str> {
    fn from(z: Nbstr) -> (r: Box<str>)
        ensures
            r.spec_bytes() == z@,
    {
        z.into_boxed_str()
    }
}

impl vstd::std_specs::convert::FromSpecImpl<Nbstr> for Box<str> {
    open spec fn obeys_from_spec() -> bool {
        false
    }

    open spec fn from_spec(z: Nbstr) -> Box<str> {
        arbitrary()
    }
}

impl From<Nbstr> for String {
    fn from(z: Nbstr) -> (r: String)
        ensures
            encode_utf8(r@) == z@,
    {
        z.into_string()
    }
}

impl vstd::std_specs::convert::FromSpecImpl<Nbstr> for String {
    open spec fn obeys_from_spec() -> bool {
        false
    }

    open spec fn from_spec(z: Nbstr) -> String {
        arbitrary()
    }
}

impl From<Nbstr> for Cow<'static, str> {
    fn from(z: Nbstr) -> (r: Cow<'static, str>)
        ensures
            encode_utf8(r@) == z@,
            z.tag() == LITERAL <==> r is Borrowed,
    {
        z.into_cow()
    }
}

impl vstd::std_specs::convert::FromSpecImpl<Nbstr> for Cow<'static, str> {
    open spec fn obeys_from_spec() -> bool {
        false
    }

    open spec fn from_spec(z: Nbstr) -> Cow<'static, str> {
        arbitrary()
    }
}

impl std::ops::Deref for Nbstr {
    type Target = str;

    fn deref(&self) -> (r: &str)
        ensures
            r.spec_bytes() == self@,
    {
        self.as_str()
    }
}

impl AsRef<str> for Nbstr {
    fn as_ref(&self) -> (r: &str)
        ensures
            str_bytes(r) == self@,
    {
        self.as_str()
    }
}

impl AsRef<[u8]> for Nbstr {
    fn as_ref(&self) -> (r: &[u8])
        ensures
            slice_bytes(r) == self@,
    {
        self.as_bytes()
    }
}

impl std::borrow::Borrow<str> for Nbstr {
    fn borrow(&self) -> (r: &str)
        ensures
            str_bytes(r) == self@,
    {
        self.as_str()
    }
}

impl std::borrow::Borrow<[u8]> for Nbstr {
    fn borrow(&self) -> (r: &[u8])
        ensures
            slice_bytes(r) == self@,
    {
        self.as_bytes()
    }
}

} // verus!
