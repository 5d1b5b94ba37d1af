//! The string value: inline bytes, a `&'static str`, or an owned
//! `Box<str>`, chosen when it is built and read through one byte view.
use vstd::prelude::*;
use vstd::string::{StringExecFns, StringSliceAdditionalSpecFns};
use vstd::utf8::{encode_scalar, encode_utf8, encode_utf8_decode_utf8, encode_utf8_valid_utf8, valid_utf8};
use std::borrow::Cow;
use std::cmp::Ordering;
use crate::layout::{store_inline, Protected};
use crate::layout_default::{DefaultLayout, BOX, LITERAL, MAX_STACK};
use crate::utf8_char::{lemma_scalar_encoding_valid, str_from_utf8, Utf8Char};

verus! {

broadcast use encode_utf8_valid_utf8, encode_utf8_decode_utf8;

/// How the bytes of a value are held.
enum Repr {
    /// Up to `MAX_STACK` bytes inside the value; the tag is their count.
    Stack(DefaultLayout),
    /// A string that outlives every copy; never released here.
    Literal(&'static str),
    /// A non-empty heap allocation that this value alone owns.
    Boxed(Box<str>),
}

/// A read-only string that is stored inline when short, refers to a
/// `&'static str` without copying, or owns a `Box<str>`.
///
/// The three representations are held as an enum, since a reference and a
/// box cannot share one packed pair of words without `unsafe` code; a value
/// is therefore three words wide, not two (the packing itself is what the
/// `layout*` modules model and verify).
pub struct Nbstr {
    repr: Repr,
}

/// The UTF-8 encoding of `chars` is empty exactly when `chars` is.
pub proof fn lemma_encode_utf8_empty(chars: Seq<char>)
    ensures
        encode_utf8(chars).len() == 0 <==> chars.len() == 0,
{
    if chars.len() > 0 {
        lemma_scalar_encoding_valid(chars[0]);
    }
}

impl View for Nbstr {
    type V = Seq<u8>;

    /// The bytes of the string.
    closed spec fn view(&self) -> Seq<u8> {
        match self.repr {
            Repr::Stack(l) => l.stack().subrange(0, l.tag() as int),
            Repr::Literal(s) => s.spec_bytes(),
            Repr::Boxed(b) => b.spec_bytes(),
        }
    }
}

impl Nbstr {
    #[verifier::type_invariant]
    closed spec fn inv(self) -> bool {
        match self.repr {
            Repr::Stack(l) => {
                &&& 1 <= l.tag() <= MAX_STACK
                &&& l.stack().len() == MAX_STACK
                &&& valid_utf8(l.stack().subrange(0, l.tag() as int))
            },
            Repr::Literal(_) => true,
            Repr::Boxed(b) => b.spec_bytes().len() > 0,
        }
    }

    /// The tag: the byte count for an inline value, `LITERAL` or `BOX`
    /// otherwise.
    pub closed spec fn tag(&self) -> u8 {
        match self.repr {
            Repr::Stack(l) => l.tag(),
            Repr::Literal(_) => LITERAL,
            Repr::Boxed(_) => BOX,
        }
    }

    /// The canonical empty value: a literal of length zero.
    pub open spec fn is_empty_literal(&self) -> bool {
        self.tag() == LITERAL && self@.len() == 0
    }

    /// The largest length a value can hold.
    pub fn max_length() -> (r: usize)
        ensures
            r == usize::MAX,
    {
        usize::MAX
    }

    /// The canonical empty value.
    pub fn empty() -> (r: Nbstr)
        ensures
            r.is_empty_literal(),
    {
        let s: &'static str = "";
        proof {
            reveal_strlit("");
            assert(s@ =~= Seq::<char>::empty());
            lemma_encode_utf8_empty(s@);
        }
        Nbstr { repr: Repr::Literal(s) }
    }

    /// Refers to `s` without copying it.
    pub fn from_static(s: &'static str) -> (r: Nbstr)
        ensures
            r.tag() == LITERAL,
            r@ == s.spec_bytes(),
    {
        Nbstr { repr: Repr::Literal(s) }
    }

    /// An inline value for a string of 1 to `MAX_STACK` bytes; nothing for
    /// an empty string (which is never inline) or a longer one.
    pub fn try_stack(s: &str) -> (r: Option<Nbstr>)
        ensures
            r is Some <==> 1 <= s.spec_bytes().len() <= MAX_STACK,
            r matches Some(z) ==> z@ == s.spec_bytes(),
            r matches Some(z) ==> z.tag() == s.spec_bytes().len(),
    {
        let bytes = s.as_bytes();
        let n = bytes.len();
        if 1 <= n && n <= MAX_STACK as usize {
            let l: DefaultLayout = store_inline(bytes);
            Some(Nbstr { repr: Repr::Stack(l) })
        } else {
            None
        }
    }

    /// Takes ownership of `b`; an empty box is released at once and the
    /// canonical empty value returned.
    pub fn from_boxed(b: Box<str>) -> (r: Nbstr)
        ensures
            r@ == b.spec_bytes(),
            b.spec_bytes().len() == 0 ==> r.is_empty_literal(),
            b.spec_bytes().len() > 0 ==> r.tag() == BOX,
    {
        if b.as_bytes().len() == 0 {
            Self::empty()
        } else {
            Nbstr { repr: Repr::Boxed(b) }
        }
    }

    /// Copies `s`: inline when short enough, else into a new allocation.
    pub fn from_str(s: &str) -> (r: Nbstr)
        ensures
            r@ == s.spec_bytes(),
            s.spec_bytes().len() == 0 ==> r.is_empty_literal(),
            1 <= s.spec_bytes().len() <= MAX_STACK ==> r.tag() == s.spec_bytes().len(),
            s.spec_bytes().len() > MAX_STACK ==> r.tag() == BOX,
    {
        match Self::try_stack(s) {
            Some(z) => z,
            None => Self::from_boxed(boxed_str(s.to_owned())),
        }
    }

    /// The character `c`, stored inline as its UTF-8 bytes.
    pub fn from_char(c: char) -> (r: Nbstr)
        ensures
            r@ == encode_scalar(c as u32),
            r.tag() == encode_scalar(c as u32).len(),
    {
        Self::from_utf8_char(Utf8Char::from_char(c))
    }

    /// The encoded character `u`, stored inline; the tag is its byte count.
    pub fn from_utf8_char(u: Utf8Char) -> (r: Nbstr)
        ensures
            r@ == u@,
            r.tag() == u@.len(),
    {
        proof {
            use_type_invariant(&u);
        }
        let n = u.len();
        let mut l = DefaultLayout::new(n as u8);
        let mut i: usize = 0;
        while i < n
            invariant
                n == u@.len(),
                valid_utf8(u@),
                1 <= n <= 4,
                i <= n,
                l.tag() == n,
                l.stack().len() == MAX_STACK,
                forall|j: int| 0 <= j < i ==> #[trigger] l.stack()[j] == u@[j],
            decreases n - i,
        {
            l.set_stack(i, u.byte(i));
            i = i + 1;
        }
        assert(l.stack().subrange(0, n as int) =~= u@);
        Nbstr { repr: Repr::Stack(l) }
    }

    /// The tag of the representation.
    pub fn variant(&self) -> (r: u8)
        ensures
            r == self.tag(),
            1 <= r <= MAX_STACK || r == LITERAL || r == BOX,
            1 <= r <= MAX_STACK ==> self@.len() == r,
            r == BOX ==> self@.len() > 0,
    {
        proof {
            use_type_invariant(self);
        }
        match &self.repr {
            Repr::Stack(l) => l.variant(),
            Repr::Literal(_) => LITERAL,
            Repr::Boxed(_) => BOX,
        }
    }

    /// The bytes of the string.
    pub fn as_bytes(&self) -> (r: &[u8])
        ensures
            r@ == self@,
            valid_utf8(self@),
    {
        proof {
            use_type_invariant(self);
        }
        match &self.repr {
            Repr::Stack(l) => l.inline_bytes(),
            Repr::Literal(s) => s.as_bytes(),
            Repr::Boxed(b) => b.as_bytes(),
        }
    }

    /// The inline window of an inline value, whose first `tag` bytes are the
    /// string; nothing for the other representations.
    pub fn data(&self) -> (r: Option<&[u8]>)
        ensures
            r is Some <==> 1 <= self.tag() <= MAX_STACK,
            r matches Some(w) ==> w@.len() == MAX_STACK && w@.subrange(0, self.tag() as int) == self@,
    {
        proof {
            use_type_invariant(self);
        }
        match &self.repr {
            Repr::Stack(l) => Some(l.window()),
            _ => None,
        }
    }

    /// The name of the representation: "stack", "literal" or "boxed".
    pub fn representation_name(&self) -> (r: &'static str)
        ensures
            1 <= self.tag() <= MAX_STACK ==> r@ == "stack"@,
            self.tag() == LITERAL ==> r@ == "literal"@,
            self.tag() == BOX ==> r@ == "boxed"@,
    {
        proof {
            use_type_invariant(self);
        }
        match &self.repr {
            Repr::Stack(_) => "stack",
            Repr::Literal(_) => "literal",
            Repr::Boxed(_) => "boxed",
        }
    }

    /// The text prefixed by the name of its representation, as in
    /// `stack: abc`.
    pub fn debug_string(&self) -> (r: String)
        ensures
            1 <= self.tag() <= MAX_STACK ==> r@ == "stack"@ + seq![':', ' '] + self.as_str_spec(),
            self.tag() == LITERAL ==> r@ == "literal"@ + seq![':', ' '] + self.as_str_spec(),
            self.tag() == BOX ==> r@ == "boxed"@ + seq![':', ' '] + self.as_str_spec(),
    {
        labeled(self.representation_name(), self.as_str())
    }

    /// Length in bytes.
    pub fn len(&self) -> (r: usize)
        ensures
            r == self@.len(),
    {
        self.as_bytes().len()
    }
}


impl Nbstr {
    /// The characters of the string.
    pub closed spec fn as_str_spec(&self) -> Seq<char> {
        vstd::utf8::decode_utf8(self@)
    }

    /// The string itself.
    pub fn as_str(&self) -> (r: &str)
        ensures
            r.spec_bytes() == self@,
            r@ == self.as_str_spec(),
    {
        proof {
            use_type_invariant(self);
        }
        match &self.repr {
            Repr::Stack(l) => match str_from_utf8(l.inline_bytes()) {
                Some(s) => s,
                None => {
                    proof {
                        assert(false);
                    }
                    ""
                },
            },
            Repr::Literal(s) => s,
            Repr::Boxed(b) => &**b,
        }
    }

    /// Takes the characters of `s`, whose buffer has room for `capacity`
    /// bytes. A buffer without spare capacity, which boxing would not shrink,
    /// is copied inline when it holds 1 to `MAX_STACK` bytes; any other
    /// non-empty buffer is boxed, and an empty one gives the canonical empty
    /// value.
    pub fn from_string_with_capacity(s: String, capacity: usize) -> (r: Nbstr)
        ensures
            r@ == encode_utf8(s@),
            s@.len() == 0 ==> r.is_empty_literal(),
            1 <= encode_utf8(s@).len() <= MAX_STACK && capacity == encode_utf8(s@).len() ==> r.tag()
                == encode_utf8(s@).len(),
            encode_utf8(s@).len() > 0 && !(encode_utf8(s@).len() <= MAX_STACK && capacity
                == encode_utf8(s@).len()) ==> r.tag() == BOX,
    {
        proof {
            lemma_encode_utf8_empty(s@);
        }
        if capacity == s.as_str().len() {
            if let Some(z) = Self::try_stack(s.as_str()) {
                return z;
            }
        }
        Self::from_boxed(boxed_str(s))
    }

    /// Takes the characters of `s`, deciding between inline and boxed by its
    /// capacity as `from_string_with_capacity` does.
    pub fn from_string(s: String) -> (r: Nbstr)
        ensures
            r@ == encode_utf8(s@),
            s@.len() == 0 ==> r.is_empty_literal(),
            1 <= encode_utf8(s@).len() <= MAX_STACK ==> r.tag() == encode_utf8(s@).len() || r.tag()
                == BOX,
            encode_utf8(s@).len() > MAX_STACK ==> r.tag() == BOX,
    {
        let capacity = string_capacity(&s);
        Self::from_string_with_capacity(s, capacity)
    }

    /// A value built from a copy-on-write string: a borrowed one is referred
    /// to, an owned one is taken as by `from_string`.
    pub fn from_cow(cow: Cow<'static, str>) -> (r: Nbstr)
        ensures
            r@ == encode_utf8(cow@),
            cow is Borrowed ==> r.tag() == LITERAL,
    {
        match cow {
            Cow::Owned(owned) => Self::from_string(owned),
            Cow::Borrowed(borrowed) => Self::from_static(borrowed),
        }
    }

    /// Copies `from` into `self`. An owned allocation of `self` whose length
    /// equals that of `from` is overwritten in place; otherwise `self` is
    /// replaced by a clone of `from`, releasing what it owned.
    pub fn clone_from_ref(&mut self, from: &Self)
        ensures
            final(self)@ == from@,
            old(self).tag() == BOX && old(self)@.len() == from@.len() ==> final(self).tag() == BOX,
            !(old(self).tag() == BOX && old(self)@.len() == from@.len()) ==> final(self).tag()
                == from.clone_tag(),
    {
        let same_box = self.variant() == BOX && self.len() == from.len();
        if same_box {
            let mut old_value = Self::empty();
            std::mem::swap(self, &mut old_value);
            proof {
                use_type_invariant(&old_value);
            }
            let src = from.as_bytes();
            match old_value.repr {
                Repr::Boxed(b) => {
                    let nb = overwrite(b, src);
                    *self = Nbstr { repr: Repr::Boxed(nb) };
                },
                _ => {
                    proof {
                        assert(false);
                    }
                },
            }
        } else {
            *self = from.duplicate();
        }
    }

    /// The tag that a clone of `self` has: a boxed value is copied inline
    /// when short enough.
    pub open spec fn clone_tag(&self) -> u8 {
        if self.tag() == BOX && self@.len() <= MAX_STACK {
            self@.len() as u8
        } else {
            self.tag()
        }
    }

    /// An independent value with the same content. A boxed value is copied
    /// (inline when short enough), never shared; the others are copied as
    /// they are.
    pub fn duplicate(&self) -> (r: Nbstr)
        ensures
            r@ == self@,
            r.tag() == self.clone_tag(),
    {
        proof {
            use_type_invariant(self);
        }
        match &self.repr {
            Repr::Stack(l) => Nbstr { repr: Repr::Stack(*l) },
            Repr::Literal(s) => Nbstr { repr: Repr::Literal(s) },
            Repr::Boxed(b) => Self::from_str(&**b),
        }
    }
}

/// Removes the allocation that `z` owns, if it owns one, and leaves the
/// canonical empty value in its place, so that it can never be released
/// twice.
pub fn take_box(z: &mut Nbstr) -> (r: Option<Box<str>>)
    ensures
        old(z).tag() == BOX ==> (r matches Some(b) && b.spec_bytes() == old(z)@),
        old(z).tag() == BOX ==> final(z).is_empty_literal(),
        old(z).tag() != BOX ==> r is None && final(z)@ == old(z)@ && final(z).tag() == old(z).tag(),
{
    if z.variant() == BOX {
        let mut taken = Nbstr::empty();
        std::mem::swap(z, &mut taken);
        proof {
            use_type_invariant(&taken);
        }
        match taken.repr {
            Repr::Boxed(b) => Some(b),
            _ => None,
        }
    } else {
        None
    }
}

impl Nbstr {
    /// The content as a `Box<str>`: an owned allocation is handed over
    /// without copying; otherwise the bytes are copied.
    pub fn into_boxed_str(self) -> (r: Box<str>)
        ensures
            r.spec_bytes() == self@,
    {
        let mut z = self;
        match take_box(&mut z) {
            Some(b) => b,
            None => boxed_str(z.as_str().to_owned()),
        }
    }

    /// The content as a `String`: an owned allocation is handed over without
    /// copying; otherwise the bytes are copied.
    pub fn into_string(self) -> (r: String)
        ensures
            encode_utf8(r@) == self@,
    {
        let mut z = self;
        match take_box(&mut z) {
            Some(b) => box_into_string(b),
            None => z.as_str().to_owned(),
        }
    }

    /// The content as a copy-on-write string: borrowed for a literal, owned
    /// otherwise (an owned allocation is handed over without copying).
    pub fn into_cow(self) -> (r: Cow<'static, str>)
        ensures
            encode_utf8(r@) == self@,
            self.tag() == LITERAL <==> r is Borrowed,
    {
        proof {
            use_type_invariant(&self);
        }
        let mut z = self;
        let taken = take_box(&mut z);
        proof {
            use_type_invariant(&z);
        }
        match taken {
            Some(b) => Cow::Owned(box_into_string(b)),
            None => match z.repr {
                Repr::Stack(_) => Cow::Owned(z.as_str().to_owned()),
                Repr::Literal(s) => Cow::Borrowed(s),
                Repr::Boxed(_) => Cow::Owned(z.as_str().to_owned()),
            },
        }
    }
}

/// Writes `src` over the bytes of `b`, in the same allocation.
fn overwrite(b: Box<str>, src: &[u8]) -> (r: Box<str>)
    requires
        b.spec_bytes().len() == src@.len(),
        valid_utf8(src@),
    ensures
        r.spec_bytes() == src@,
{
    let mut v = string_into_bytes(box_into_string(b));
    let n = src.len();
    let mut i: usize = 0;
    while i < n
        invariant
            n == src@.len(),
            v@.len() == n,
            i <= n,
            forall|j: int| 0 <= j < i ==> #[trigger] v@[j] == src@[j],
        decreases n - i,
    {
        v.set(i, src[i]);
        i = i + 1;
    }
    assert(v@ =~= src@);
    match string_from_utf8(v) {
        Some(s) => boxed_str(s),
        None => {
            proof {
                assert(false);
            }
            boxed_str(String::new())
        },
    }
}

/// `label`, a colon and a space, then `text`.
fn labeled(label: &str, text: &str) -> (r: String)
    ensures
        r@ == label@ + seq![':', ' '] + text@,
{
    let mut r = label.to_owned();
    let sep: &str = ": ";
    proof {
        reveal_strlit(": ");
        assert(sep@ =~= seq![':', ' ']);
    }
    r.append(sep);
    r.append(text);
    r
}

/// Relies on `String::capacity`, which is never below the length.
#[verifier::external_body]
fn string_capacity(s: &String) -> (r: usize)
    ensures
        r >= encode_utf8(s@).len(),
{
    s.capacity()
}

/// Relies on `<Box<str>>::into_string`: the same characters, in the same
/// allocation.
#[verifier::external_body]
fn box_into_string(b: Box<str>) -> (r: String)
    ensures
        r@ == b@,
{
    b.into_string()
}

/// Relies on `String::into_bytes`: the UTF-8 bytes of the string.
#[verifier::external_body]
fn string_into_bytes(s: String) -> (r: Vec<u8>)
    ensures
        r@ == encode_utf8(s@),
{
    s.into_bytes()
}

/// Relies on `String::from_utf8`: it succeeds exactly on valid UTF-8, and
/// the string holds those bytes.
#[verifier::external_body]
fn string_from_utf8(v: Vec<u8>) -> (r: Option<String>)
    ensures
        r is Some <==> valid_utf8(v@),
        r matches Some(s) ==> encode_utf8(s@) == v@,
{
    String::from_utf8(v).ok()
}

/// Relies on `String::into_boxed_str`: the same characters, in a `Box<str>`.
#[verifier::external_body]
fn boxed_str(s: String) -> (r: Box<str>)
    ensures
        r@ == s@,
{
    s.into_boxed_str()
}

} // verus!
