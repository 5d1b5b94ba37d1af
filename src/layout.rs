//! The contract that every packed layout meets: a tag together with either
//! inline bytes or an (address, length) pair, in a fixed-size payload.
use vstd::prelude::*;

verus! {

/// Byte `k` (little-endian) of the word `w`.
pub open spec fn word_byte(w: u64, k: u64) -> u8 {
    (w >> (8 * k)) as u8
}

/// The word whose little-endian bytes are `b0` to `b7`.
pub open spec fn le_word(b0: u8, b1: u8, b2: u8, b3: u8, b4: u8, b5: u8, b6: u8, b7: u8) -> u64 {
    (b0 as u64) | ((b1 as u64) << 8u64) | ((b2 as u64) << 16u64) | ((b3 as u64) << 24u64) | ((
    b4 as u64) << 32u64) | ((b5 as u64) << 40u64) | ((b6 as u64) << 48u64) | ((b7 as u64)
        << 56u64)
}

/// Assembles the word whose little-endian bytes are `b0` to `b7`.
pub fn read_le_word(b0: u8, b1: u8, b2: u8, b3: u8, b4: u8, b5: u8, b6: u8, b7: u8) -> (r: u64)
    ensures
        r == le_word(b0, b1, b2, b3, b4, b5, b6, b7),
{
    (b0 as u64) | ((b1 as u64) << 8u64) | ((b2 as u64) << 16u64) | ((b3 as u64) << 24u64) | ((
    b4 as u64) << 32u64) | ((b5 as u64) << 40u64) | ((b6 as u64) << 48u64) | ((b7 as u64)
        << 56u64)
}

/// Reading back the little-endian bytes of a word gives the word.
pub proof fn lemma_le_word_round_trip(w: u64)
    ensures
        le_word(
            word_byte(w, 0),
            word_byte(w, 1),
            word_byte(w, 2),
            word_byte(w, 3),
            word_byte(w, 4),
            word_byte(w, 5),
            word_byte(w, 6),
            word_byte(w, 7),
        ) == w,
{
    assert(((w >> 0u64) as u8 as u64) | (((w >> 8u64) as u8 as u64) << 8u64) | (((w >> 16u64) as u8
        as u64) << 16u64) | (((w >> 24u64) as u8 as u64) << 24u64) | (((w >> 32u64) as u8 as u64)
        << 32u64) | (((w >> 40u64) as u8 as u64) << 40u64) | (((w >> 48u64) as u8 as u64)
        << 48u64) | (((w >> 56u64) as u8 as u64) << 56u64) == w) by (bit_vector);
}

/// A packed layout: a tag (never zero) and a payload that holds either up to
/// `spec_max_stack()` inline bytes, or an address and a length.
pub trait Protected: Sized {
    /// Largest number of bytes stored inline.
    spec fn spec_max_stack() -> u8;

    /// Largest length that an (address, length) pair can record.
    spec fn spec_max_length() -> u64;

    /// Addresses that the layout can record.
    spec fn spec_valid_address(address: u64) -> bool;

    /// The tag: `1..=max_stack` inline, `max_stack + 1` literal,
    /// `max_stack + 2` boxed.
    spec fn tag(&self) -> u8;

    /// The inline window, `spec_max_stack()` bytes long.
    spec fn stack(&self) -> Seq<u8>;

    /// The recorded address, for a tag above `max_stack`.
    spec fn address(&self) -> u64;

    /// The recorded length, for a tag above `max_stack`.
    spec fn length(&self) -> u64;

    /// Largest number of bytes stored inline.
    fn max_stack() -> (r: u8)
        ensures
            r == Self::spec_max_stack(),
            0 < r < 253,
    ;

    /// An inline payload of `variant` bytes whose content is still to be
    /// written.
    fn new(variant: u8) -> (r: Self)
        requires
            1 <= variant <= Self::spec_max_stack(),
        ensures
            r.tag() == variant,
            r.stack().len() == Self::spec_max_stack(),
    ;

    /// A payload that records `address` and `length` under the literal or
    /// boxed tag.
    fn with_pointer(variant: u8, address: u64, length: u64) -> (r: Self)
        requires
            Self::spec_max_stack() < variant <= Self::spec_max_stack() + 2,
            length <= Self::spec_max_length(),
            Self::spec_valid_address(address),
        ensures
            r.tag() == variant,
            r.stack().len() == Self::spec_max_stack(),
            r.address() == address,
            r.length() == length,
    ;

    /// The tag.
    fn variant(&self) -> (r: u8)
        ensures
            r == self.tag(),
    ;

    /// Writes byte `i` of the inline window.
    fn set_stack(&mut self, i: usize, b: u8)
        requires
            1 <= old(self).tag() <= Self::spec_max_stack(),
            i < Self::spec_max_stack(),
            old(self).stack().len() == Self::spec_max_stack(),
        ensures
            final(self).tag() == old(self).tag(),
            final(self).stack() == old(self).stack().update(i as int, b),
    ;

    /// Reads byte `i` of the inline window.
    fn stack_byte(&self, i: usize) -> (r: u8)
        requires
            1 <= self.tag() <= Self::spec_max_stack(),
            i < Self::spec_max_stack(),
            self.stack().len() == Self::spec_max_stack(),
        ensures
            r == self.stack()[i as int],
    ;

    /// The recorded (address, length) pair.
    fn pointer(&self) -> (r: (u64, u64))
        requires
            self.tag() > Self::spec_max_stack(),
        ensures
            r == (self.address(), self.length()),
    ;
}

/// Builds an inline payload that holds `bytes`, one byte at a time.
pub fn store_inline<L: Protected>(bytes: &[u8]) -> (r: L)
    requires
        1 <= bytes@.len() <= L::spec_max_stack(),
    ensures
        r.tag() == bytes@.len(),
        r.stack().len() == L::spec_max_stack(),
        r.stack().subrange(0, bytes@.len() as int) == bytes@,
{
    let n = bytes.len();
    let mut z = L::new(n as u8);
    let mut i: usize = 0;
    while i < n
        invariant
            n == bytes@.len(),
            1 <= n <= L::spec_max_stack(),
            i <= n,
            z.tag() == n,
            z.stack().len() == L::spec_max_stack(),
            forall|j: int| 0 <= j < i ==> #[trigger] z.stack()[j] == bytes@[j],
        decreases n - i,
    {
        z.set_stack(i, bytes[i]);
        i = i + 1;
    }
    assert(z.stack().subrange(0, n as int) =~= bytes@);
    z
}

/// What a payload decodes to.
pub enum Decoded {
    /// The inline bytes.
    Inline(Vec<u8>),
    /// A recorded address and length.
    Pointer(u64, u64),
}

/// Decodes a payload: its inline bytes when the tag is at most `max_stack`,
/// else the recorded address and length.
pub fn decode<L: Protected>(z: &L) -> (r: Decoded)
    requires
        1 <= z.tag(),
        z.stack().len() == L::spec_max_stack(),
    ensures
        z.tag() <= L::spec_max_stack() ==> r is Inline && r->Inline_0@ == z.stack().subrange(
            0,
            z.tag() as int,
        ),
        z.tag() > L::spec_max_stack() ==> r == Decoded::Pointer(z.address(), z.length()),
{
    let tag = z.variant();
    if tag > L::max_stack() {
        let (address, length) = z.pointer();
        Decoded::Pointer(address, length)
    } else {
        let mut v: Vec<u8> = Vec::new();
        let mut i: usize = 0;
        while i < tag as usize
            invariant
                tag == z.tag(),
                1 <= tag <= L::spec_max_stack(),
                z.stack().len() == L::spec_max_stack(),
                i <= tag,
                v@ == z.stack().subrange(0, i as int),
            decreases tag - i,
        {
            v.push(z.stack_byte(i));
            i = i + 1;
            assert(v@ =~= z.stack().subrange(0, i as int));
        }
        Decoded::Inline(v)
    }
}

} // verus!
