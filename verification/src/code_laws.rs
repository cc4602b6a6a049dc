//! Proofs about public-id codes: how a code encodes its 55 bits, how parsing
//! reads them back, which spellings parse alike, and how codes order.
use crate::base32::{
    ascii_upper, is_folded_letter, is_symbol, law_symbol_value_meaning, lemma_symbol_value_of_symbol,
    symbol, symbol_value,
};
use crate::public_id::{
    all_decodable, code_bits, code_text, digit, encode, first_invalid, is_canonical, parse_spec,
    ParseError, CODE_MASK,
};
use vstd::prelude::*;
use vstd::utf8::{encode_utf8, is_ascii_chars, is_ascii_chars_encode_utf8};

verus! {

/// Every byte of a canonical code is an ASCII alphabet symbol.
pub(crate) proof fn lemma_code_is_ascii(code: Seq<u8>)
    requires
        is_canonical(code),
    ensures
        is_ascii_chars(code_text(code)),
        forall|j: int| 0 <= j < 11 ==> #[trigger] code[j] < 128,
{
    assert forall|j: int| 0 <= j < 11 implies #[trigger] code[j] < 128 by {
        assert(is_symbol(code[j]));
    }
}

/// A digit is a 5-bit value.
pub proof fn lemma_digit_bound(bits: u64, j: int)
    requires
        0 <= j < 11,
    ensures
        0 <= digit(bits, j) < 32,
{
    let s = (5 * (10 - j)) as u64;
    assert((bits >> s) & 0x1f < 32) by (bit_vector);
}

/// `i` is the position of the first byte that decodes to nothing.
pub(crate) proof fn lemma_first_invalid(code: Seq<u8>, i: int)
    requires
        0 <= i < code.len(),
        all_decodable(code.take(i)),
        symbol_value(code[i]) is None,
    ensures
        first_invalid(code) == i,
{
    assert forall|j: int| 0 <= j < i implies (#[trigger] symbol_value(code[j])) is Some by {
        assert(code[j] == code.take(i)[j]);
    }
    let f = first_invalid(code);
    assert(0 <= f < code.len() && symbol_value(code[f]) is None);
    if f < i {
        assert(symbol_value(code[f]) is Some);
    }
}

/// Shifting by `s` and then by 5 is shifting by `s + 5`, and the low 5 bits
/// of `bits >> s` are below 32.
pub(crate) proof fn lemma_shift_step(bits: u64, s: u64)
    requires
        s <= 50,
    ensures
        (bits >> s) >> 5u64 == bits >> ((s + 5) as u64),
        (bits >> s) & 0x1f < 32,
        ((bits >> s) & 0x1f) as u8 as u64 == (bits >> s) & 0x1f,
{
    assert((bits >> s) >> 5u64 == bits >> ((s + 5) as u64)) by (bit_vector)
        requires
            s <= 50,
    ;
    assert((bits >> s) & 0x1f < 32) by (bit_vector);
}

/// The bits of the code prefix of length `k` (`k` symbols of 5 bits each):
/// the 55-bit value shifted right past the last `11 - k` symbols.
pub open spec fn prefix_bits(bits: u64, k: int) -> u64 {
    (bits >> ((55 - 5 * k) as u64)) & low_mask((5 * k) as u64)
}

/// The `n` lowest bits set.
pub open spec fn low_mask(n: u64) -> u64 {
    ((1u64 << n) - 1) as u64
}

/// Appending the symbol at position `k` to the prefix of length `k` gives the
/// prefix of length `k + 1`.
proof fn lemma_prefix_step(bits: u64, k: int)
    requires
        0 <= k < 11,
    ensures
        prefix_bits(bits, k + 1) == (prefix_bits(bits, k) << 5u64) | (digit(bits, k) as u64),
        digit(bits, k) == (bits >> ((50 - 5 * k) as u64)) & 0x1f,
{
    let t = (50 - 5 * k) as u64;
    let u = (t + 5) as u64;
    let m = (50 - t) as u64;
    let n = (55 - t) as u64;
    assert(u == (55 - 5 * k) as u64);
    assert(m == (5 * k) as u64);
    assert(n == (5 * (k + 1)) as u64);
    assert((((bits >> u) & low_mask(m)) << 5u64) | ((bits >> t) & 0x1f) == (bits >> t) & low_mask(
        n,
    )) by (bit_vector)
        requires
            t <= 50,
            u == t + 5,
            m == 50 - t,
            n == 55 - t,
    ;
    assert(digit(bits, k) as u64 == (bits >> t) & 0x1f) by {
        lemma_digit_bound(bits, k);
    }
}

/// The first `k` symbols of a canonical code decode, and spell the prefix bits.
proof fn lemma_code_prefix(bits: u64, k: int)
    requires
        0 <= k <= 11,
    ensures
        all_decodable(encode(bits).take(k)),
        code_bits(encode(bits).take(k)) == prefix_bits(bits, k),
    decreases k,
{
    let code = encode(bits);
    if k == 0 {
        assert((bits >> 55u64) & low_mask(0) == 0) by (bit_vector);
        assert(code.take(0) =~= Seq::<u8>::empty());
    } else {
        lemma_code_prefix(bits, k - 1);
        lemma_prefix_step(bits, k - 1);
        lemma_digit_bound(bits, k - 1);
        lemma_symbol_value_of_symbol(digit(bits, k - 1));
        let next = code.take(k);
        assert(next.drop_last() =~= code.take(k - 1));
        assert forall|i: int| 0 <= i < next.len() implies (#[trigger] symbol_value(next[i])) is Some by {
            if i < k - 1 {
                assert(next[i] == code.take(k - 1)[i]);
            }
        }
    }
}

/// A canonical code decodes everywhere, and the bits it spells are the lowest
/// 55 bits of the value it encodes.
pub proof fn lemma_code_bits_of_encode(bits: u64)
    ensures
        all_decodable(encode(bits)),
        code_bits(encode(bits)) == bits & CODE_MASK,
{
    let code = encode(bits);
    lemma_code_prefix(bits, 11);
    assert(code.take(11) =~= code);
    assert((bits >> 0u64) & low_mask(55) == bits & 0x7f_ffff_ffff_ffffu64) by (bit_vector);
}

/// A code depends only on the lowest 55 bits of the value it encodes.
pub proof fn lemma_encode_low_bits(bits: u64)
    ensures
        encode(bits & CODE_MASK) == encode(bits),
{
    assert forall|j: int| 0 <= j < 11 implies digit(bits & CODE_MASK, j) == digit(bits, j) by {
        let t = (5 * (10 - j)) as u64;
        assert(((bits & 0x7f_ffff_ffff_ffffu64) >> t) & 0x1f == (bits >> t) & 0x1f) by (bit_vector)
            requires
                t <= 50,
        ;
    }
    assert(encode(bits & CODE_MASK) =~= encode(bits));
}

/// Every encoding is canonical.
pub proof fn lemma_encode_is_canonical(bits: u64)
    ensures
        is_canonical(encode(bits)),
{
    assert forall|i: int| 0 <= i < 11 implies #[trigger] is_symbol(encode(bits)[i]) by {
        lemma_digit_bound(bits, i);
        assert(symbol(digit(bits, i)) == encode(bits)[i]);
    }
}

/// The value of a symbol byte.
pub open spec fn value_of(c: u8) -> int {
    symbol_value(c).unwrap() as int
}

/// Appending a 5-bit value below the bits of a prefix of `u` bits gives a
/// value of `u + 5` bits whose lowest group is the appended value.
proof fn lemma_append_low(v: u64, d: u64, u: u64)
    requires
        u <= 50,
        v <= low_mask(u),
        d < 32,
    ensures
        (v << 5u64) | d <= low_mask((u + 5) as u64),
        ((v << 5u64) | d) & 0x1f == d,
{
    let w = (u + 5) as u64;
    assert((v << 5u64) | d <= low_mask(w) && ((v << 5u64) | d) & 0x1f == d) by (bit_vector)
        requires
            u <= 50,
            v <= low_mask(u),
            d < 32,
            w == u + 5,
    ;
}

/// Appending a 5-bit value below the bits of a prefix keeps the earlier
/// 5-bit groups, one group higher.
proof fn lemma_append_group(v: u64, d: u64, u: u64, t: u64)
    requires
        u <= 50,
        v <= low_mask(u),
        d < 32,
        t + 5 <= u,
    ensures
        (((v << 5u64) | d) >> ((t + 5) as u64)) & 0x1f == (v >> t) & 0x1f,
{
    let s = (t + 5) as u64;
    assert((((v << 5u64) | d) >> s) & 0x1f == (v >> t) & 0x1f) by (bit_vector)
        requires
            u <= 50,
            v <= low_mask(u),
            d < 32,
            t + 5 <= u,
            s == t + 5,
    ;
}

/// The bits spelled by the first `k` bytes of a canonical code hold each of
/// those bytes' values in its 5-bit group.
proof fn lemma_canonical_prefix(code: Seq<u8>, k: int)
    requires
        is_canonical(code),
        0 <= k <= 11,
    ensures
        code_bits(code.take(k)) <= low_mask((5 * k) as u64),
        forall|j: int|
            0 <= j < k ==> #[trigger] ((code_bits(code.take(k)) >> ((5 * (k - 1 - j)) as u64))
                & 0x1f) == value_of(code[j]),
    decreases k,
{
    if k == 0 {
        assert(code.take(0) =~= Seq::<u8>::empty());
        assert(0u64 <= low_mask(0));
    } else {
        lemma_canonical_prefix(code, k - 1);
        let prev = code.take(k - 1);
        let next = code.take(k);
        assert(next.drop_last() =~= prev);
        assert(next.last() == code[k - 1]);
        assert(is_symbol(code[k - 1]));
        let e = choose|e: int| 0 <= e < 32 && #[trigger] symbol(e) == code[k - 1];
        lemma_symbol_value_of_symbol(e);
        let v = code_bits(prev);
        let d = symbol_value(code[k - 1]).unwrap() as u64;
        let u = (5 * (k - 1)) as u64;
        assert(code_bits(next) == (v << 5u64) | d);
        lemma_append_low(v, d, u);
        assert((v << 5u64) | d <= low_mask((5 * k) as u64));
        assert forall|j: int| 0 <= j < k implies #[trigger] ((code_bits(next) >> ((5 * (k - 1 - j))
            as u64)) & 0x1f) == value_of(code[j]) by {
            if j < k - 1 {
                let t = (5 * (k - 2 - j)) as u64;
                lemma_append_group(v, d, u, t);
                assert(((5 * (k - 1 - j)) as u64) == ((t + 5) as u64));
                assert((v >> t) & 0x1f == value_of(code[j]));
            } else {
                assert(((5 * (k - 1 - j)) as u64) == 0u64);
                let w = (v << 5u64) | d;
                assert(w >> 0u64 == w) by (bit_vector);
            }
        }
    }
}

/// A canonical code is the encoding of the bits it spells.
pub proof fn lemma_encode_code_bits(code: Seq<u8>)
    requires
        is_canonical(code),
    ensures
        all_decodable(code),
        encode(code_bits(code)) == code,
{
    lemma_canonical_prefix(code, 11);
    assert(code.take(11) =~= code);
    let v = code_bits(code);
    assert forall|j: int| 0 <= j < 11 implies encode(v)[j] == code[j] by {
        assert(((v >> ((5 * (11 - 1 - j)) as u64)) & 0x1f) == value_of(code[j]));
        assert(is_symbol(code[j]));
        let e = choose|e: int| 0 <= e < 32 && #[trigger] symbol(e) == code[j];
        lemma_symbol_value_of_symbol(e);
    }
    assert(encode(v) =~= code);
    assert forall|i: int| 0 <= i < code.len() implies (#[trigger] symbol_value(code[i])) is Some by {
        assert(is_symbol(code[i]));
        let e = choose|e: int| 0 <= e < 32 && #[trigger] symbol(e) == code[i];
        lemma_symbol_value_of_symbol(e);
    }
}

/// Lower-casing of one ASCII byte.
pub open spec fn ascii_lower(c: u8) -> u8 {
    if 65 <= c <= 90 {
        (c + 32) as u8
    } else {
        c
    }
}

/// The bits spelled by a sequence depend only on the values its bytes decode to.
proof fn lemma_code_bits_by_values(a: Seq<u8>, b: Seq<u8>)
    requires
        a.len() == b.len(),
        forall|i: int| 0 <= i < a.len() ==> symbol_value(#[trigger] a[i]) == symbol_value(b[i]),
    ensures
        code_bits(a) == code_bits(b),
    decreases a.len(),
{
    if a.len() > 0 {
        lemma_code_bits_by_values(a.drop_last(), b.drop_last());
        assert(symbol_value(a[a.len() - 1]) == symbol_value(b[b.len() - 1]));
    }
}

/// Law: parsing the canonical text of a code gives back that code. As
/// `as_str` gives the canonical text and `parse` reads the text's UTF-8 bytes,
/// `PublicId::parse(id.as_str())` is `Ok` of an id equal to `id`.
pub proof fn law_parse_inverts_as_str(code: Seq<u8>)
    requires
        is_canonical(code),
    ensures
        encode_utf8(code_text(code)) == code,
        parse_spec(encode_utf8(code_text(code))) == Ok::<Seq<u8>, ParseError>(code),
{
    lemma_code_is_ascii(code);
    is_ascii_chars_encode_utf8(code_text(code));
    assert(encode_utf8(code_text(code)) =~= code);
    lemma_encode_code_bits(code);
}

/// Law: any spelling of a code resolves to the same canonical value. Two
/// inputs whose bytes decode to the same values, position by position, parse
/// alike; so do upper and lower case, `O` and `0`, and `I`, `L` and `1`.
pub proof fn law_parse_any_spelling(a: Seq<u8>, b: Seq<u8>)
    requires
        a.len() == b.len(),
        forall|i: int| 0 <= i < a.len() ==> symbol_value(#[trigger] a[i]) == symbol_value(b[i]),
        parse_spec(a) is Ok,
    ensures
        parse_spec(b) == parse_spec(a),
{
    assert forall|i: int| 0 <= i < b.len() implies (#[trigger] symbol_value(b[i])) is Some by {
        assert(symbol_value(a[i]) is Some);
    }
    lemma_code_bits_by_values(a, b);
}

/// Law: case does not matter to a symbol, and the confusables fold:
/// `O`/`o` read as `0`, and `I`/`i`/`L`/`l` read as `1`.
pub proof fn law_symbol_spellings(c: u8)
    ensures
        symbol_value(ascii_upper(c)) == symbol_value(c),
        symbol_value(ascii_lower(c)) == symbol_value(c),
        symbol_value(79) == symbol_value(48) && symbol_value(111) == symbol_value(48),
        symbol_value(73) == symbol_value(49) && symbol_value(105) == symbol_value(49),
        symbol_value(76) == symbol_value(49) && symbol_value(108) == symbol_value(49),
{
    assert(ascii_upper(ascii_upper(c)) == ascii_upper(c));
    assert(ascii_upper(ascii_lower(c)) == ascii_upper(c));
}

/// Law: whatever a parse accepts is canonical, and it is the code of the bits
/// that the input spells.
pub proof fn law_parse_result_canonical(input: Seq<u8>)
    ensures
        parse_spec(input) matches Ok(code) ==> is_canonical(code) && code_bits(code) == code_bits(
            input,
        ) & CODE_MASK,
{
    if parse_spec(input) is Ok {
        lemma_encode_is_canonical(code_bits(input));
        lemma_code_bits_of_encode(code_bits(input));
    }
}

/// Law: a code carries exactly the lowest 55 bits of the value it is minted
/// from: decoding it gives them back, and two values get the same code exactly
/// when those bits agree.
pub proof fn law_encode_injective(a: u64, b: u64)
    ensures
        code_bits(encode(a)) == a & CODE_MASK,
        encode(a) == encode(b) <==> a & CODE_MASK == b & CODE_MASK,
{
    lemma_code_bits_of_encode(a);
    lemma_code_bits_of_encode(b);
    if a & CODE_MASK == b & CODE_MASK {
        lemma_encode_low_bits(a);
        lemma_encode_low_bits(b);
    }
}

/// The bits of a value's code from position `k` on: its lowest `55 - 5k` bits.
pub open spec fn suffix_bits(bits: u64, k: int) -> u64 {
    bits & low_mask((55 - 5 * k) as u64)
}

/// The symbol at position `k` decides how the bits from `k` on compare, unless
/// it is the same on both sides; then the bits from `k + 1` on decide.
pub proof fn lemma_suffix_compare(a: u64, b: u64, k: int)
    requires
        0 <= k < 11,
    ensures
        digit(a, k) < digit(b, k) ==> suffix_bits(a, k) < suffix_bits(b, k),
        digit(a, k) == digit(b, k) ==> (suffix_bits(a, k) < suffix_bits(b, k) <==> suffix_bits(
            a,
            k + 1,
        ) < suffix_bits(b, k + 1)),
        digit(a, k) == digit(b, k) ==> (suffix_bits(a, k) == suffix_bits(b, k) <==> suffix_bits(
            a,
            k + 1,
        ) == suffix_bits(b, k + 1)),
{
    let t = (50 - 5 * k) as u64;
    let n = (55 - 5 * k) as u64;
    assert(((55 - 5 * (k + 1)) as u64) == t);
    assert(((a >> t) & 0x1f) < ((b >> t) & 0x1f) ==> (a & low_mask(n)) < (b & low_mask(n)))
        by (bit_vector)
        requires
            t <= 50,
            n == t + 5,
    ;
    assert(((a >> t) & 0x1f) == ((b >> t) & 0x1f) ==> (((a & low_mask(n)) < (b & low_mask(n)))
        == ((a & low_mask(t)) < (b & low_mask(t))) && ((a & low_mask(n)) == (b & low_mask(n))) == ((
    a & low_mask(t)) == (b & low_mask(t))))) by (bit_vector)
        requires
            t <= 50,
            n == t + 5,
    ;
    lemma_digit_bound(a, k);
    lemma_digit_bound(b, k);
}

/// The bits from position 11 on are none; those from position 0 on are all 55.
pub proof fn lemma_suffix_ends(bits: u64)
    ensures
        suffix_bits(bits, 11) == 0,
        suffix_bits(bits, 0) == bits & CODE_MASK,
{
    assert(bits & low_mask(0) == 0) by (bit_vector);
    assert(bits & low_mask(55) == bits & 0x7f_ffff_ffff_ffffu64) by (bit_vector);
}


/// Law: an input of the right length that holds a byte which is neither an
/// alphabet symbol (in either case) nor a confusable letter is refused, and the
/// error names the first such byte.
pub proof fn law_parse_rejects_non_symbols(input: Seq<u8>, i: int)
    requires
        input.len() == 11,
        0 <= i < 11,
        !is_symbol(ascii_upper(input[i])),
        !is_folded_letter(input[i]),
        forall|j: int|
            0 <= j < i ==> is_symbol(ascii_upper(#[trigger] input[j])) || is_folded_letter(input[j]),
    ensures
        parse_spec(input) == Err::<Seq<u8>, ParseError>(ParseError::Char(input[i] as char)),
{
    law_symbol_value_meaning(input[i]);
    assert(!all_decodable(input));
    assert forall|j: int| 0 <= j < i implies (#[trigger] symbol_value(input[j])) is Some by {
        law_symbol_value_meaning(input[j]);
    }
    assert(input.take(i).len() == i);
    assert forall|j: int| 0 <= j < input.take(i).len() implies (#[trigger] symbol_value(
        input.take(i)[j],
    )) is Some by {
        assert(input.take(i)[j] == input[j]);
        law_symbol_value_meaning(input[j]);
    }
    lemma_first_invalid(input, i);
}

} // verus!
