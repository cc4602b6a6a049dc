//! Equality, ordering and hashing of the identifier types.
use crate::base32::lemma_symbol_strictly_increasing;
use crate::id::Id;
use crate::code_laws::{
    lemma_code_bits_of_encode, lemma_digit_bound, lemma_encode_code_bits, lemma_suffix_compare,
    lemma_suffix_ends, suffix_bits,
};
use crate::public_id::{code_bits, digit, encode, is_canonical, PublicId, CODE_MASK};
use core::cmp::Ordering;
use vstd::prelude::*;
use vstd::std_specs::cmp::{PartialEqSpecImpl, PartialOrdSpecImpl};

verus! {

/// Lexicographic order of byte sequences, as `Ord` for byte arrays orders them:
/// the first differing byte decides, and a proper prefix comes first.
pub open spec fn lex_order(a: Seq<u8>, b: Seq<u8>) -> Ordering
    decreases a.len(),
{
    if a.len() == 0 {
        if b.len() == 0 {
            Ordering::Equal
        } else {
            Ordering::Less
        }
    } else if b.len() == 0 {
        Ordering::Greater
    } else if a[0] < b[0] {
        Ordering::Less
    } else if a[0] > b[0] {
        Ordering::Greater
    } else {
        lex_order(a.drop_first(), b.drop_first())
    }
}

/// The bytes of `s` from position `i` on.
pub open spec fn tail(s: Seq<u8>, i: usize) -> Seq<u8> {
    s.skip(i as int)
}

/// Dropping the first byte of the tail from `i` leaves the tail from `i + 1`.
proof fn lemma_tail_step(s: Seq<u8>, i: usize)
    requires
        i < s.len(),
        i < 11,
    ensures
        tail(s, i).drop_first() == tail(s, (i + 1) as usize),
{
    assert(tail(s, i).drop_first() =~= tail(s, (i + 1) as usize));
}

impl<T> PublicId<T> {
    /// Codes compared byte by byte, first byte first.
    pub fn compare_codes(&self, other: &Self) -> (r: Ordering)
        ensures
            r == lex_order(self@, other@),
    {
        let a = self.code_bytes();
        let b = other.code_bytes();
        let mut i: usize = 0;
        assert(tail(a@, 0) =~= a@);
        assert(tail(b@, 0) =~= b@);
        while i < 11
            invariant
                a@ == self@,
                b@ == other@,
                a@.len() == 11,
                b@.len() == 11,
                i <= 11,
                lex_order(self@, other@) == lex_order(tail(a@, i), tail(b@, i)),
            decreases 11 - i,
        {
            proof {
                lemma_tail_step(a@, i);
                lemma_tail_step(b@, i);
            }
            if a[i] < b[i] {
                return Ordering::Less;
            }
            if a[i] > b[i] {
                return Ordering::Greater;
            }
            i = i + 1;
        }
        Ordering::Equal
    }
}

impl<T> PartialEq for PublicId<T> {
    fn eq(&self, other: &Self) -> (r: bool) {
        let a = self.code_bytes();
        let b = other.code_bytes();
        let mut i: usize = 0;
        while i < 11
            invariant
                a@ == self@,
                b@ == other@,
                a@.len() == 11,
                b@.len() == 11,
                i <= 11,
                forall|j: int| 0 <= j < i ==> a@[j] == b@[j],
            decreases 11 - i,
        {
            if a[i] != b[i] {
                return false;
            }
            i = i + 1;
        }
        assert(a@ =~= b@);
        true
    }
}

impl<T> PartialEqSpecImpl for PublicId<T> {
    open spec fn obeys_eq_spec() -> bool {
        true
    }

    /// Two ids are equal when their codes are.
    open spec fn eq_spec(&self, other: &Self) -> bool {
        self@ == other@
    }
}

impl<T> Eq for PublicId<T> {

}

impl<T> PartialOrd for PublicId<T> {
    fn partial_cmp(&self, other: &Self) -> (r: Option<Ordering>) {
        Some(self.compare_codes(other))
    }
}

impl<T> PartialOrdSpecImpl for PublicId<T> {
    open spec fn obeys_partial_cmp_spec() -> bool {
        true
    }

    /// Ids are ordered as their codes are, byte by byte.
    open spec fn partial_cmp_spec(&self, other: &Self) -> Option<Ordering> {
        Some(lex_order(self@, other@))
    }
}

impl<T> Ord for PublicId<T> {
    /// `Ord::cmp` of std for the code's byte array, which std documents as
    /// lexicographic: the order that `partial_cmp` gives.
    #[verifier::external_body]
    fn cmp(&self, other: &Self) -> (r: Ordering)
        ensures
            r == lex_order(self@, other@),
    {
        self.code.cmp(&other.code)
    }
}

impl<T> core::hash::Hash for PublicId<T> {
    /// `Hash::hash` of std for the code's byte array; nothing is stated of it.
    #[verifier::external_body]
    fn hash<H: core::hash::Hasher>(&self, state: &mut H) {
        self.code.hash(state)
    }
}


/// How two numbers compare.
pub open spec fn value_order(x: u64, y: u64) -> Ordering {
    if x < y {
        Ordering::Less
    } else if x == y {
        Ordering::Equal
    } else {
        Ordering::Greater
    }
}

/// The codes from position `k` on compare as the bits they carry.
proof fn lemma_lex_suffix(a: u64, b: u64, k: int)
    requires
        0 <= k <= 11,
    ensures
        lex_order(encode(a).skip(k), encode(b).skip(k)) == value_order(
            suffix_bits(a, k),
            suffix_bits(b, k),
        ),
    decreases 11 - k,
{
    let ea = encode(a).skip(k);
    let eb = encode(b).skip(k);
    if k == 11 {
        lemma_suffix_ends(a);
        lemma_suffix_ends(b);
        assert(ea.len() == 0 && eb.len() == 0);
    } else {
        lemma_lex_suffix(a, b, k + 1);
        lemma_suffix_compare(a, b, k);
        lemma_suffix_compare(b, a, k);
        lemma_digit_bound(a, k);
        lemma_digit_bound(b, k);
        assert(ea[0] == encode(a)[k]);
        assert(eb[0] == encode(b)[k]);
        assert(ea.drop_first() =~= encode(a).skip(k + 1));
        assert(eb.drop_first() =~= encode(b).skip(k + 1));
        if digit(a, k) < digit(b, k) {
            lemma_symbol_strictly_increasing(digit(a, k), digit(b, k));
        } else if digit(b, k) < digit(a, k) {
            lemma_symbol_strictly_increasing(digit(b, k), digit(a, k));
        }
    }
}

/// Law: codes sort as the 55-bit values they carry. Comparing two minted codes
/// byte by byte (as `PublicId`'s `partial_cmp` does) orders them exactly as the
/// lowest 55 bits of the values they were minted from.
pub proof fn law_code_order_is_value_order(a: u64, b: u64)
    ensures
        lex_order(encode(a), encode(b)) == value_order(a & CODE_MASK, b & CODE_MASK),
{
    lemma_lex_suffix(a, b, 0);
    lemma_suffix_ends(a);
    lemma_suffix_ends(b);
    assert(encode(a).skip(0) =~= encode(a));
    assert(encode(b).skip(0) =~= encode(b));
}


/// How two 128-bit numbers compare.
pub open spec fn uuid_order(x: u128, y: u128) -> Ordering {
    if x < y {
        Ordering::Less
    } else if x == y {
        Ordering::Equal
    } else {
        Ordering::Greater
    }
}

impl<T> PartialEq for Id<T> {
    fn eq(&self, other: &Self) -> (r: bool) {
        self.as_uuid() == other.as_uuid()
    }
}

impl<T> PartialEqSpecImpl for Id<T> {
    open spec fn obeys_eq_spec() -> bool {
        true
    }

    /// Two ids are equal when their UUIDs are.
    open spec fn eq_spec(&self, other: &Self) -> bool {
        self@ == other@
    }
}

impl<T> Eq for Id<T> {

}

impl<T> PartialOrd for Id<T> {
    fn partial_cmp(&self, other: &Self) -> (r: Option<Ordering>) {
        let a = self.as_uuid();
        let b = other.as_uuid();
        if a < b {
            Some(Ordering::Less)
        } else if a == b {
            Some(Ordering::Equal)
        } else {
            Some(Ordering::Greater)
        }
    }
}

impl<T> PartialOrdSpecImpl for Id<T> {
    open spec fn obeys_partial_cmp_spec() -> bool {
        true
    }

    /// Ids are ordered as their UUIDs' 128 bits, which is the order of the
    /// UUIDs' bytes, most significant first.
    open spec fn partial_cmp_spec(&self, other: &Self) -> Option<Ordering> {
        Some(uuid_order(self@, other@))
    }
}

impl<T> Ord for Id<T> {
    /// `Ord::cmp` of std for `u128`, on the UUIDs' bits: numeric order, the
    /// order that `partial_cmp` gives.
    #[verifier::external_body]
    fn cmp(&self, other: &Self) -> (r: Ordering)
        ensures
            r == uuid_order(self@, other@),
    {
        self.raw.cmp(&other.raw)
    }
}

impl<T> core::hash::Hash for Id<T> {
    /// `Hash::hash` of std for `u128`, on the UUID's bits; nothing is stated of it.
    #[verifier::external_body]
    fn hash<H: core::hash::Hasher>(&self, state: &mut H) {
        self.raw.hash(state)
    }
}


/// Law: public ids sort as the values they carry. For any two canonical codes
/// (every `PublicId`'s code is one), the byte-by-byte order that `partial_cmp`
/// uses is the order of the 55-bit values the codes spell.
pub proof fn law_id_order_is_value_order(a: Seq<u8>, b: Seq<u8>)
    requires
        is_canonical(a),
        is_canonical(b),
    ensures
        lex_order(a, b) == value_order(code_bits(a), code_bits(b)),
{
    lemma_encode_code_bits(a);
    lemma_encode_code_bits(b);
    lemma_code_bits_of_encode(code_bits(a));
    lemma_code_bits_of_encode(code_bits(b));
    law_code_order_is_value_order(code_bits(a), code_bits(b));
}

} // verus!
