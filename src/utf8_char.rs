//! One `char` held as its UTF-8 bytes, so that it can be read as a `str`
//! without allocating.
use vstd::prelude::*;
use vstd::utf8::*;
use vstd::string::StringSliceAdditionalSpecFns;

verus! {

/// Number of bytes in a UTF-8 sequence, read from its leading byte.
pub open spec fn width_of_lead(b: u8) -> nat {
    if b < 0x80 {
        1
    } else if b < 0xE0 {
        2
    } else if b < 0xF0 {
        3
    } else {
        4
    }
}

/// A `char` stored as UTF-8; unused trailing bytes are zero.
#[derive(Clone, Copy)]
pub struct Utf8Char {
    bytes: [u8; 4],
}

impl View for Utf8Char {
    type V = Seq<u8>;

    /// The encoded bytes of the character.
    closed spec fn view(&self) -> Seq<u8> {
        self.bytes@.subrange(0, width_of_lead(self.bytes[0]) as int)
    }
}

impl Utf8Char {
    /// All four stored bytes, the encoding followed by zeros.
    pub closed spec fn raw_bytes(&self) -> Seq<u8> {
        self.bytes@
    }

    #[verifier::type_invariant]
    pub open spec fn inv(self) -> bool {
        &&& valid_utf8(self@)
        &&& exists|c: char| self@ == encode_scalar(#[trigger] (c as u32))
    }

    /// Encodes `c` as UTF-8.
    pub fn from_char(c: char) -> (r: Utf8Char)
        ensures
            r@ == encode_scalar(c as u32),
            r.raw_bytes().len() == 4,
            r.raw_bytes().subrange(0, r@.len() as int) == r@,
            forall|i: int| r@.len() <= i < 4 ==> #[trigger] r.raw_bytes()[i] == 0,
    {
        let v = c as u32;
        proof {
            char_is_scalar(c);
        }
        let bytes: [u8; 4] = if v <= 0x7F {
            [(v & 0x7F) as u8, 0, 0, 0]
        } else if v <= 0x7FF {
            [0xC0 | ((v >> 6) & 0x1F) as u8, 0x80 | (v & 0x3F) as u8, 0, 0]
        } else if v <= 0xFFFF {
            [
                0xE0 | ((v >> 12) & 0x0F) as u8,
                0x80 | ((v >> 6) & 0x3F) as u8,
                0x80 | (v & 0x3F) as u8,
                0,
            ]
        } else {
            [
                0xF0 | ((v >> 18) & 0x07) as u8,
                0x80 | ((v >> 12) & 0x3F) as u8,
                0x80 | ((v >> 6) & 0x3F) as u8,
                0x80 | (v & 0x3F) as u8,
            ]
        };
        proof {
            let b0 = bytes[0];
            if v <= 0x7F {
                assert(b0 < 0x80) by (bit_vector)
                    requires
                        b0 == (v & 0x7F) as u8,
                ;
            } else if v <= 0x7FF {
                assert(0xC0 <= b0 < 0xE0) by (bit_vector)
                    requires
                        b0 == 0xC0 | ((v >> 6) & 0x1F) as u8,
                ;
            } else if v <= 0xFFFF {
                assert(0xE0 <= b0 < 0xF0) by (bit_vector)
                    requires
                        b0 == 0xE0 | ((v >> 12) & 0x0F) as u8,
                ;
            } else {
                assert(0xF0 <= b0) by (bit_vector)
                    requires
                        b0 == 0xF0 | ((v >> 18) & 0x07) as u8,
                ;
            }
            let r = Utf8Char { bytes };
            assert(r@ =~= encode_scalar(v));
            lemma_scalar_encoding_valid(c);
        }
        Utf8Char { bytes }
    }

    /// Number of bytes of the encoded character, from one to four.
    pub fn len(self) -> (r: usize)
        ensures
            r == self@.len(),
            1 <= r <= 4,
    {
        let b = self.bytes[0];
        if b < 0x80 {
            1
        } else if b < 0xE0 {
            2
        } else if b < 0xF0 {
            3
        } else {
            4
        }
    }

    /// The character as a `str`.
    pub fn as_str(&self) -> (r: &str)
        ensures
            r.spec_bytes() == self@,
    {
        proof {
            use_type_invariant(self);
        }
        let n = self.len();
        match str_from_utf8(vstd::slice::slice_subrange(self.bytes.as_slice(), 0, n)) {
            Some(s) => s,
            None => {
                proof {
                    assert(false);
                }
                ""
            },
        }
    }

    /// The byte at index `i`, zero past the encoded character.
    pub fn byte(&self, i: usize) -> (r: u8)
        requires
            i < 4,
        ensures
            r == self.raw_bytes()[i as int],
            i < self@.len() ==> r == self@[i as int],
    {
        self.bytes[i]
    }
}

/// The encoding of one scalar is a valid UTF-8 sequence.
pub proof fn lemma_scalar_encoding_valid(c: char)
    ensures
        valid_utf8(encode_scalar(c as u32)),
        1 <= encode_scalar(c as u32).len() <= 4,
{
    let s = seq![c];
    encode_utf8_valid_utf8(s);
    assert(s.drop_first() =~= Seq::<char>::empty());
    assert(encode_utf8(s.drop_first()) =~= Seq::<u8>::empty());
    assert(s[0] == c);
    assert(encode_utf8(s) =~= encode_scalar(c as u32));
}

/// Relies on `std::str::from_utf8`: it succeeds exactly on valid UTF-8, and
/// the `str` it returns is those bytes.
#[verifier::external_body]
pub(crate) fn str_from_utf8(b: &[u8]) -> (r: Option<&str>)
    ensures
        r is Some <==> valid_utf8(b@),
        r matches Some(s) ==> s.spec_bytes() == b@,
{
    std::str::from_utf8(b).ok()
}

impl std::ops::Deref for Utf8Char {
    type Target = str;

    fn deref(&self) -> (r: &str)
        ensures
            r.spec_bytes() == self@,
    {
        self.as_str()
    }
}

} // verus!
