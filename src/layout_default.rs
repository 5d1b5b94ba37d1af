//! The default layout: a tag byte beside two plain little-endian words, the
//! address in the first and the length in the second. All sixteen bytes serve
//! as the inline window.
use vstd::prelude::*;
use crate::layout::{le_word, lemma_le_word_round_trip, read_le_word, word_byte, Protected};
use crate::nonzero::NonZero;

verus! {

/// Bytes of payload: two 64-bit words.
pub const DATA_SIZE: usize = 16;

/// Tag `1..=MAX_STACK`: that many bytes stored inline.
pub const MAX_STACK: u8 = 16;

/// Tag of a string that the value does not own.
pub const LITERAL: u8 = 17;

/// Tag of an owned heap allocation.
pub const BOX: u8 = 18;

/// Largest recordable length.
pub const MAX_LENGTH: u64 = 0xffff_ffff_ffff_ffff;

/// Payload of the default layout.
#[derive(Clone, Copy)]
pub struct DefaultLayout {
    variant: NonZero<u8>,
    data: [u8; 16],
}

/// The word stored little-endian at `data[at..at + 8]`.
pub open spec fn word_at(data: Seq<u8>, at: int) -> u64 {
    le_word(
        data[at],
        data[at + 1],
        data[at + 2],
        data[at + 3],
        data[at + 4],
        data[at + 5],
        data[at + 6],
        data[at + 7],
    )
}

/// Writes `w` little-endian at `data[at..at + 8]`.
fn put_word(data: &mut [u8; 16], at: usize, w: u64)
    requires
        at == 0 || at == 8,
    ensures
        word_at(final(data)@, at as int) == w,
        forall|i: int|
            0 <= i < 16 && !(at <= i < at + 8) ==> #[trigger] final(data)@[i] == old(data)@[i],
{
    data[at] = w as u8;
    data[at + 1] = (w >> 8u64) as u8;
    data[at + 2] = (w >> 16u64) as u8;
    data[at + 3] = (w >> 24u64) as u8;
    data[at + 4] = (w >> 32u64) as u8;
    data[at + 5] = (w >> 40u64) as u8;
    data[at + 6] = (w >> 48u64) as u8;
    data[at + 7] = (w >> 56u64) as u8;
    proof {
        lemma_le_word_round_trip(w);
        assert(word_byte(w, 0) == w as u8) by (bit_vector);
    }
}

/// Reads the little-endian word at `data[at..at + 8]`.
fn get_word(data: &[u8; 16], at: usize) -> (r: u64)
    requires
        at == 0 || at == 8,
    ensures
        r == word_at(data@, at as int),
{
    read_le_word(
        data[at],
        data[at + 1],
        data[at + 2],
        data[at + 3],
        data[at + 4],
        data[at + 5],
        data[at + 6],
        data[at + 7],
    )
}

impl DefaultLayout {
    /// The whole inline window.
    pub fn window(&self) -> (r: &[u8])
        ensures
            r@ == self.stack(),
    {
        self.data.as_slice()
    }

    /// The inline bytes: the first `tag` bytes of the window.
    pub fn inline_bytes(&self) -> (r: &[u8])
        requires
            1 <= self.tag() <= MAX_STACK,
        ensures
            r@ == self.stack().subrange(0, self.tag() as int),
    {
        vstd::slice::slice_subrange(self.data.as_slice(), 0, *self.variant.get() as usize)
    }
}

impl Protected for DefaultLayout {
    open spec fn spec_max_stack() -> u8 {
        MAX_STACK
    }

    open spec fn spec_max_length() -> u64 {
        MAX_LENGTH
    }

    open spec fn spec_valid_address(address: u64) -> bool {
        true
    }

    closed spec fn tag(&self) -> u8 {
        self.variant.value()
    }

    closed spec fn stack(&self) -> Seq<u8> {
        self.data@
    }

    closed spec fn address(&self) -> u64 {
        word_at(self.data@, 0)
    }

    closed spec fn length(&self) -> u64 {
        word_at(self.data@, 8)
    }

    fn max_stack() -> (r: u8) {
        MAX_STACK
    }

    fn new(variant: u8) -> (r: Self) {
        DefaultLayout { variant: NonZero::new(variant), data: [0u8; 16] }
    }

    fn with_pointer(variant: u8, address: u64, length: u64) -> (r: Self) {
        let mut data = [0u8; 16];
        put_word(&mut data, 0, address);
        let ghost mid = data@;
        put_word(&mut data, 8, length);
        assert(word_at(data@, 0) == word_at(mid, 0));
        DefaultLayout { variant: NonZero::new(variant), data }
    }

    fn variant(&self) -> (r: u8) {
        *self.variant.get()
    }

    fn set_stack(&mut self, i: usize, b: u8) {
        self.data[i] = b;
    }

    fn stack_byte(&self, i: usize) -> (r: u8) {
        self.data[i]
    }

    fn pointer(&self) -> (r: (u64, u64)) {
        (get_word(&self.data, 0), get_word(&self.data, 8))
    }
}

} // verus!
