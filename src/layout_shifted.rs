//! The shifted layout: the tag sits in the top five bits of the length word
//! (`tag << SHIFT_BITS | length`), which caps lengths below 2^59 and leaves
//! fifteen bytes for the inline window.
use vstd::prelude::*;
use crate::layout::{word_byte, Protected};
use crate::nonzero::NonZero;

verus! {

/// Bits of the length word below the tag.
pub const SHIFT_BITS: u64 = 59;

/// Largest recordable length: `2^SHIFT_BITS - 1`.
pub const MAX_LENGTH: u64 = 0x07ff_ffff_ffff_ffff;

/// Tag `1..=MAX_STACK`: that many bytes stored inline.
pub const MAX_STACK: u8 = 15;

/// Tag of a string that the value does not own.
pub const LITERAL: u8 = 16;

/// Tag of an owned heap allocation.
pub const BOX: u8 = 17;

/// `w` with its byte `k` replaced by `b`.
pub open spec fn with_byte(w: u64, k: u64, b: u8) -> u64 {
    (w & !(0xffu64 << (8 * k))) | ((b as u64) << (8 * k))
}

/// Payload of the shifted layout, in little-endian order: the address word,
/// then the length word whose top byte holds the tag.
pub struct ShiftedLayout {
    pointer: u64,
    length: NonZero<u64>,
}

proof fn lemma_with_byte(w: u64, k: u64, b: u8, j: u64)
    requires
        k < 8,
        j < 8,
    ensures
        word_byte(with_byte(w, k, b), j) == if j == k {
            b
        } else {
            word_byte(w, j)
        },
        k < 7 ==> with_byte(w, k, b) >> SHIFT_BITS == w >> SHIFT_BITS,
{
    assert(((((w & !(0xffu64 << (8 * k))) | ((b as u64) << (8 * k))) >> (8 * j)) as u8) == if j
        == k {
        b
    } else {
        (w >> (8 * j)) as u8
    }) by (bit_vector)
        requires
            k < 8,
            j < 8,
    ;
    assert(k < 7 ==> ((w & !(0xffu64 << (8 * k))) | ((b as u64) << (8 * k))) >> 59u64 == w
        >> 59u64) by (bit_vector)
        requires
            k < 8,
    ;
}

/// Replaces byte `k` of `w` by `b`.
fn put_byte(w: u64, k: u64, b: u8) -> (r: u64)
    requires
        k < 8,
    ensures
        r == with_byte(w, k, b),
{
    (w & !(0xffu64 << (8 * k))) | ((b as u64) << (8 * k))
}

impl ShiftedLayout {
    /// The inline window as bytes, address word first.
    closed spec fn window(&self) -> Seq<u8> {
        Seq::new(
            15,
            |i: int|
                if i < 8 {
                    word_byte(self.pointer, i as u64)
                } else {
                    word_byte(self.length.value(), (i - 8) as u64)
                },
        )
    }
}

impl Protected for ShiftedLayout {
    open spec fn spec_max_stack() -> u8 {
        MAX_STACK
    }

    open spec fn spec_max_length() -> u64 {
        MAX_LENGTH
    }

    open spec fn spec_valid_address(address: u64) -> bool {
        true
    }

    closed spec fn tag(&self) -> u8 {
        (self.length.value() >> SHIFT_BITS) as u8
    }

    closed spec fn stack(&self) -> Seq<u8> {
        self.window()
    }

    closed spec fn address(&self) -> u64 {
        self.pointer
    }

    closed spec fn length(&self) -> u64 {
        self.length.value() & MAX_LENGTH
    }

    fn max_stack() -> (r: u8) {
        MAX_STACK
    }

    fn new(variant: u8) -> (r: Self) {
        let v = variant as u64;
        assert((((v << 59u64) >> 59u64) as u8) == v) by (bit_vector)
            requires
                v <= 15,
        ;
        ShiftedLayout { pointer: 0, length: NonZero::new(v << SHIFT_BITS) }
    }

    fn with_pointer(variant: u8, address: u64, length: u64) -> (r: Self) {
        let v = variant as u64;
        let word = (v << SHIFT_BITS) | length;
        assert(((((v << 59u64) | length) >> 59u64) as u8) == v && ((v << 59u64) | length)
            & 0x07ff_ffff_ffff_ffff == length) by (bit_vector)
            requires
                v <= 17,
                length <= 0x07ff_ffff_ffff_ffff,
        ;
        ShiftedLayout { pointer: address, length: NonZero::new(word) }
    }

    fn variant(&self) -> (r: u8) {
        (*self.length.get() >> SHIFT_BITS) as u8
    }

    fn set_stack(&mut self, i: usize, b: u8) {
        let ghost before = self.window();
        let ghost old_length = self.length.value();
        if i < 8 {
            let k = i as u64;
            let p = self.pointer;
            self.pointer = put_byte(p, k, b);
            assert forall|j: int| 0 <= j < 8 implies #[trigger] word_byte(self.pointer, j as u64) == (
            if j == i {
                b
            } else {
                word_byte(p, j as u64)
            }) by {
                lemma_with_byte(p, k, b, j as u64);
            }
        } else {
            let k = (i - 8) as u64;
            let w = *self.length.get();
            self.length = NonZero::new(put_byte(w, k, b));
            proof {
                lemma_with_byte(w, k, b, 0);
            }
            assert forall|j: int| 0 <= j < 8 implies #[trigger] word_byte(self.length.value(), j as u64) == (
            if j == k {
                b
            } else {
                word_byte(w, j as u64)
            }) by {
                lemma_with_byte(w, k, b, j as u64);
            }
        }
        assert(self.window() =~= before.update(i as int, b));
    }

    fn stack_byte(&self, i: usize) -> (r: u8) {
        if i < 8 {
            (self.pointer >> (8 * i as u64)) as u8
        } else {
            (*self.length.get() >> (8 * (i - 8) as u64)) as u8
        }
    }

    fn pointer(&self) -> (r: (u64, u64)) {
        (self.pointer, *self.length.get() & MAX_LENGTH)
    }
}

} // verus!
