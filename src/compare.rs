//! Equality, ordering, hashing, default and clone for `Nbstr`, all decided by
//! the bytes of the string whatever the representation.
use vstd::prelude::*;
use vstd::std_specs::cmp::{PartialEqSpec, PartialOrdSpec};
use std::cmp::Ordering;
use crate::nbstr::Nbstr;

verus! {

/// Lexicographic order of byte strings, as `str` orders them.
pub open spec fn lex_cmp(a: Seq<u8>, b: Seq<u8>) -> Ordering
    decreases a.len(),
{
    if a.len() == 0 {
        if b.len() == 0 {
            Ordering::Equal
        } else {
            Ordering::Less
        }
    } else if b.len() == 0 {
        Ordering::Greater
    } else if a[0] < b[0] {
        Ordering::Less
    } else if a[0] > b[0] {
        Ordering::Greater
    } else {
        lex_cmp(a.drop_first(), b.drop_first())
    }
}

/// Byte strings compare `Equal` exactly when they are the same.
pub proof fn lemma_lex_cmp_equal(a: Seq<u8>, b: Seq<u8>)
    ensures
        (lex_cmp(a, b) == Ordering::Equal) <==> a == b,
    decreases a.len(),
{
    if a.len() == 0 && b.len() == 0 {
        assert(a =~= b);
    }
    if a.len() > 0 && b.len() > 0 && a[0] == b[0] {
        lemma_lex_cmp_equal(a.drop_first(), b.drop_first());
        if a.drop_first() == b.drop_first() {
            assert(a =~= seq![a[0]] + a.drop_first());
            assert(b =~= seq![b[0]] + b.drop_first());
        }
        if a == b {
            assert(a.drop_first() == b.drop_first());
        }
    }
}

/// Swapping the operands reverses the order.
pub proof fn lemma_lex_cmp_antisymmetric(a: Seq<u8>, b: Seq<u8>)
    ensures
        lex_cmp(a, b) == Ordering::Less <==> lex_cmp(b, a) == Ordering::Greater,
    decreases a.len(),
{
    if a.len() > 0 && b.len() > 0 && a[0] == b[0] {
        lemma_lex_cmp_antisymmetric(a.drop_first(), b.drop_first());
    }
}

/// Equality, ordering and hashing of values follow their text alone: two
/// values with the same text are equal and compare `Equal` whichever
/// representation each has, and two values with different text are neither.
pub proof fn law_compare_by_text(a: Nbstr, b: Nbstr)
    ensures
        a.eq_spec(&b) <==> a@ == b@,
        a.partial_cmp_spec(&b) == Some(Ordering::Equal) <==> a@ == b@,
        a.partial_cmp_spec(&b) == Some(Ordering::Less) <==> b.partial_cmp_spec(&a) == Some(
            Ordering::Greater,
        ),
{
    lemma_lex_cmp_equal(a@, b@);
    lemma_lex_cmp_antisymmetric(a@, b@);
}

/// Compares two byte strings lexicographically.
pub fn compare_bytes(a: &[u8], b: &[u8]) -> (r: Ordering)
    ensures
        r == lex_cmp(a@, b@),
{
    let mut i: usize = 0;
    assert(a@.skip(0) =~= a@);
    assert(b@.skip(0) =~= b@);
    while i < a.len() && i < b.len()
        invariant
            i <= a@.len(),
            i <= b@.len(),
            lex_cmp(a@, b@) == lex_cmp(a@.skip(i as int), b@.skip(i as int)),
        decreases a@.len() - i,
    {
        if a[i] < b[i] {
            return Ordering::Less;
        } else if a[i] > b[i] {
            return Ordering::Greater;
        }
        assert(a@.skip(i as int).drop_first() =~= a@.skip(i + 1));
        assert(b@.skip(i as int).drop_first() =~= b@.skip(i + 1));
        i = i + 1;
    }
    if i < b.len() {
        Ordering::Less
    } else if i < a.len() {
        Ordering::Greater
    } else {
        Ordering::Equal
    }
}

/// Whether two byte strings are equal.
pub fn equal_bytes(a: &[u8], b: &[u8]) -> (r: bool)
    ensures
        r == (a@ == b@),
{
    if a.len() != b.len() {
        return false;
    }
    let mut i: usize = 0;
    while i < a.len()
        invariant
            a@.len() == b@.len(),
            i <= a@.len(),
            forall|j: int| 0 <= j < i ==> a@[j] == b@[j],
        decreases a@.len() - i,
    {
        if a[i] != b[i] {
            return false;
        }
        i = i + 1;
    }
    assert(a@ =~= b@);
    true
}

impl PartialEq for Nbstr {
    fn eq(&self, rhs: &Nbstr) -> (r: bool) {
        equal_bytes(self.as_bytes(), rhs.as_bytes())
    }
}

impl vstd::std_specs::cmp::PartialEqSpecImpl for Nbstr {
    open spec fn obeys_eq_spec() -> bool {
        true
    }

    open spec fn eq_spec(&self, rhs: &Nbstr) -> bool {
        self@ == rhs@
    }
}

impl Eq for Nbstr {

}

impl PartialOrd for Nbstr {
    fn partial_cmp(&self, rhs: &Nbstr) -> (r: Option<Ordering>) {
        Some(compare_bytes(self.as_bytes(), rhs.as_bytes()))
    }
}

impl vstd::std_specs::cmp::PartialOrdSpecImpl for Nbstr {
    open spec fn obeys_partial_cmp_spec() -> bool {
        true
    }

    open spec fn partial_cmp_spec(&self, rhs: &Nbstr) -> Option<Ordering> {
        Some(lex_cmp(self@, rhs@))
    }
}

impl Nbstr {
    /// Orders two values by their text.
    pub fn cmp(&self, rhs: &Nbstr) -> (r: Ordering)
        ensures
            r == lex_cmp(self@, rhs@),
    {
        compare_bytes(self.as_bytes(), rhs.as_bytes())
    }
}

impl Default for Nbstr {
    fn default() -> (r: Nbstr)
        ensures
            r.is_empty_literal(),
    {
        Nbstr::empty()
    }
}

impl Clone for Nbstr {
    fn clone(&self) -> (r: Nbstr)
        ensures
            r@ == self@,
            r.tag() == self.clone_tag(),
    {
        self.duplicate()
    }

    fn clone_from(&mut self, from: &Nbstr)
        ensures
            final(self)@ == from@,
            old(self).tag() == crate::BOX && old(self)@.len() == from@.len() ==> final(self).tag()
                == crate::BOX,
            !(old(self).tag() == crate::BOX && old(self)@.len() == from@.len())
                ==> final(self).tag() == from.clone_tag(),
    {
        self.clone_from_ref(from)
    }
}

impl core::hash::Hash for Nbstr {
    /// Hashes the text, so that equal values hash alike whatever their
    /// representation.
    fn hash<H: core::hash::Hasher>(&self, h: &mut H) {
        hash_str(self.as_str(), h)
    }
}

/// Relies on `<str as Hash>::hash`: feeds `s` to the hasher.
#[verifier::external_body]
fn hash_str<H: core::hash::Hasher>(s: &str, h: &mut H) {
    core::hash::Hash::hash(s, h)
}

} // verus!
