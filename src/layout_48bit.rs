//! The 48-bit-address layout: addresses in use on x86-64 fit in 48 bits
//! (sign-extended), so a 48-bit length and a 48-bit address share twelve
//! bytes, and those twelve bytes are the inline window.
use vstd::prelude::*;
use crate::layout::{le_word, read_le_word, word_byte, Protected};
use crate::nonzero::NonZero;

verus! {

/// Tag `1..=MAX_STACK`: that many bytes stored inline.
pub const MAX_STACK: u8 = 12;

/// Tag of a string that the value does not own.
pub const LITERAL: u8 = 13;

/// Tag of an owned heap allocation.
pub const BOX: u8 = 14;

/// Largest recordable length: 48 bits.
pub const MAX_LENGTH: u64 = 0x0000_ffff_ffff_ffff;

/// An address whose upper 17 bits are all equal, so that its low 48 bits
/// determine it.
pub open spec fn canonical(address: u64) -> bool {
    address <= 0x0000_7fff_ffff_ffff || address >= 0xffff_8000_0000_0000
}

/// The 48-bit little-endian value at `data[at..at + 6]`.
pub open spec fn le48_at(data: Seq<u8>, at: int) -> u64 {
    le_word(data[at], data[at + 1], data[at + 2], data[at + 3], data[at + 4], data[at + 5], 0, 0)
}

/// `raw` with bit 47 copied into the upper 16 bits.
pub open spec fn sign_extend_48(raw: u64) -> u64 {
    if raw & 0x0000_8000_0000_0000 != 0 {
        raw | 0xffff_0000_0000_0000
    } else {
        raw
    }
}

/// Payload of the 48-bit layout: length in bytes `0..6`, address in bytes
/// `6..12`.
pub struct Packed48Layout {
    variant: NonZero<u8>,
    data: [u8; 12],
}

proof fn lemma_le48_round_trip(w: u64)
    requires
        w <= 0x0000_ffff_ffff_ffff,
    ensures
        le_word(
            word_byte(w, 0),
            word_byte(w, 1),
            word_byte(w, 2),
            word_byte(w, 3),
            word_byte(w, 4),
            word_byte(w, 5),
            0,
            0,
        ) == w,
{
    assert(((w >> 0u64) as u8 as u64) | (((w >> 8u64) as u8 as u64) << 8u64) | (((w >> 16u64) as u8
        as u64) << 16u64) | (((w >> 24u64) as u8 as u64) << 24u64) | (((w >> 32u64) as u8 as u64)
        << 32u64) | (((w >> 40u64) as u8 as u64) << 40u64) | ((0u8 as u64) << 48u64) | ((0u8 as u64)
        << 56u64) == w) by (bit_vector)
        requires
            w <= 0x0000_ffff_ffff_ffff,
    ;
}

proof fn lemma_canonical_round_trip(a: u64)
    requires
        canonical(a),
    ensures
        sign_extend_48(
            le_word(
                word_byte(a, 0),
                word_byte(a, 1),
                word_byte(a, 2),
                word_byte(a, 3),
                word_byte(a, 4),
                word_byte(a, 5),
                0,
                0,
            ),
        ) == a,
{
    let raw = le_word(
        word_byte(a, 0),
        word_byte(a, 1),
        word_byte(a, 2),
        word_byte(a, 3),
        word_byte(a, 4),
        word_byte(a, 5),
        0,
        0,
    );
    assert(raw == a & 0x0000_ffff_ffff_ffff) by (bit_vector)
        requires
            raw == ((a >> 0u64) as u8 as u64) | (((a >> 8u64) as u8 as u64) << 8u64) | (((a
                >> 16u64) as u8 as u64) << 16u64) | (((a >> 24u64) as u8 as u64) << 24u64) | (((a
                >> 32u64) as u8 as u64) << 32u64) | (((a >> 40u64) as u8 as u64) << 40u64) | ((
            0u8 as u64) << 48u64) | ((0u8 as u64) << 56u64),
    ;
    assert(sign_extend_48(a & 0x0000_ffff_ffff_ffff) == a) by (bit_vector)
        requires
            a <= 0x0000_7fff_ffff_ffff || a >= 0xffff_8000_0000_0000,
    ;
}

/// Records `ptr` in bytes `6..12`.
fn set_ptr(z: &mut Packed48Layout, ptr: u64)
    requires
        canonical(ptr),
    ensures
        final(z).variant == old(z).variant,
        sign_extend_48(le48_at(final(z).data@, 6)) == ptr,
        forall|i: int| 0 <= i < 6 ==> #[trigger] final(z).data@[i] == old(z).data@[i],
{
    z.data[6] = ptr as u8;
    z.data[7] = (ptr >> 8u64) as u8;
    z.data[8] = (ptr >> 16u64) as u8;
    z.data[9] = (ptr >> 24u64) as u8;
    z.data[10] = (ptr >> 32u64) as u8;
    z.data[11] = (ptr >> 40u64) as u8;
    proof {
        lemma_canonical_round_trip(ptr);
        assert(word_byte(ptr, 0) == ptr as u8) by (bit_vector);
    }
}

/// The recorded address, sign-extended from 48 bits.
fn get_ptr(z: &Packed48Layout) -> (r: u64)
    ensures
        r == sign_extend_48(le48_at(z.data@, 6)),
{
    let d = &z.data;
    let raw = read_le_word(d[6], d[7], d[8], d[9], d[10], d[11], 0, 0);
    if raw & 0x0000_8000_0000_0000 != 0 {
        raw | 0xffff_0000_0000_0000
    } else {
        raw
    }
}

/// Records `len` in bytes `0..6`.
fn set_len(z: &mut Packed48Layout, len: u64)
    requires
        len <= MAX_LENGTH,
    ensures
        final(z).variant == old(z).variant,
        le48_at(final(z).data@, 0) == len,
        forall|i: int| 6 <= i < 12 ==> #[trigger] final(z).data@[i] == old(z).data@[i],
{
    z.data[0] = len as u8;
    z.data[1] = (len >> 8u64) as u8;
    z.data[2] = (len >> 16u64) as u8;
    z.data[3] = (len >> 24u64) as u8;
    z.data[4] = (len >> 32u64) as u8;
    z.data[5] = (len >> 40u64) as u8;
    proof {
        lemma_le48_round_trip(len);
        assert(word_byte(len, 0) == len as u8) by (bit_vector);
    }
}

/// The recorded length of a literal or boxed payload; the tag itself for an
/// inline one.
fn get_len(z: &Packed48Layout) -> (r: u64)
    ensures
        z.variant.value() > MAX_STACK ==> r == le48_at(z.data@, 0),
        z.variant.value() <= MAX_STACK ==> r == z.variant.value() as u64,
{
    let v = *z.variant.get();
    if v > MAX_STACK {
        let d = &z.data;
        let r = read_le_word(d[0], d[1], d[2], d[3], d[4], d[5], 0, 0);
        r
    } else {
        v as u64
    }
}

impl Protected for Packed48Layout {
    open spec fn spec_max_stack() -> u8 {
        MAX_STACK
    }

    open spec fn spec_max_length() -> u64 {
        MAX_LENGTH
    }

    open spec fn spec_valid_address(address: u64) -> bool {
        canonical(address)
    }

    closed spec fn tag(&self) -> u8 {
        self.variant.value()
    }

    closed spec fn stack(&self) -> Seq<u8> {
        self.data@
    }

    closed spec fn address(&self) -> u64 {
        sign_extend_48(le48_at(self.data@, 6))
    }

    closed spec fn length(&self) -> u64 {
        le48_at(self.data@, 0)
    }

    fn max_stack() -> (r: u8) {
        MAX_STACK
    }

    fn new(variant: u8) -> (r: Self) {
        Packed48Layout { variant: NonZero::new(variant), data: [0u8; 12] }
    }

    fn with_pointer(variant: u8, address: u64, length: u64) -> (r: Self) {
        let mut z = Packed48Layout { variant: NonZero::new(variant), data: [0u8; 12] };
        set_ptr(&mut z, address);
        let ghost mid = z.data@;
        set_len(&mut z, length);
        assert(le48_at(z.data@, 6) == le48_at(mid, 6));
        z
    }

    fn variant(&self) -> (r: u8) {
        *self.variant.get()
    }

    fn set_stack(&mut self, i: usize, b: u8) {
        self.data[i] = b;
    }

    fn stack_byte(&self, i: usize) -> (r: u8) {
        self.data[i]
    }

    fn pointer(&self) -> (r: (u64, u64)) {
        (get_ptr(self), get_len(self))
    }
}

} // verus!
