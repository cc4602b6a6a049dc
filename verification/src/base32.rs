//! The Crockford Base32 alphabet and the reading of one input byte as a symbol.
use vstd::prelude::*;

verus! {

/// The Crockford Base32 alphabet `0123456789ABCDEFGHJKMNPQRSTVWXYZ`:
/// the digits and `A`–`Z` without the confusable `I`, `L`, `O` and `U`.
/// `symbol(d)` is the ASCII byte at position `d` of that alphabet.
pub open spec fn symbol(d: int) -> u8
    recommends
        0 <= d < 32,
{
    if d < 10 {
        (d + 48) as u8  // '0'..='9'
    } else if d < 18 {
        (d - 10 + 65) as u8  // 'A'..='H'
    } else if d < 20 {
        (d - 18 + 74) as u8  // 'J', 'K'
    } else if d < 22 {
        (d - 20 + 77) as u8  // 'M', 'N'
    } else if d < 27 {
        (d - 22 + 80) as u8  // 'P'..='T'
    } else {
        (d - 27 + 86) as u8  // 'V'..='Z'
    }
}

/// `c` is one of the 32 symbols of the alphabet.
pub open spec fn is_symbol(c: u8) -> bool {
    exists|d: int| 0 <= d < 32 && #[trigger] symbol(d) == c
}

/// ASCII upper-casing of one byte, as `u8::to_ascii_uppercase` does it.
pub open spec fn ascii_upper(c: u8) -> u8 {
    if 97 <= c <= 122 {
        (c - 32) as u8
    } else {
        c
    }
}

/// The 5-bit value that an input byte stands for: digits as themselves,
/// `O`/`o` as 0, `I`/`i`/`L`/`l` as 1, and otherwise the position of the
/// upper-cased byte in the alphabet; `None` for any other byte (`U` among them).
pub open spec fn symbol_value(c: u8) -> Option<u8> {
    if 48 <= c <= 57 {
        Some((c - 48) as u8)
    } else if c == 79 || c == 111 {
        Some(0)
    } else if c == 73 || c == 105 || c == 76 || c == 108 {
        Some(1)
    } else if exists|d: int| 0 <= d < 32 && #[trigger] symbol(d) == ascii_upper(c) {
        Some((choose|d: int| 0 <= d < 32 && #[trigger] symbol(d) == ascii_upper(c)) as u8)
    } else {
        None
    }
}

/// Distinct positions hold distinct symbols, in increasing byte order.
pub proof fn lemma_symbol_strictly_increasing(d: int, e: int)
    requires
        0 <= d < e < 32,
    ensures
        symbol(d) < symbol(e),
{
}

/// The symbol at position `d` has value `d`.
pub proof fn lemma_symbol_value_of_symbol(d: int)
    requires
        0 <= d < 32,
    ensures
        symbol_value(symbol(d)) == Some(d as u8),
{
    let c = symbol(d);
    assert(ascii_upper(c) == c);
    if !(48 <= c <= 57) {
        assert(symbol(d) == ascii_upper(c));
        let e = choose|e: int| 0 <= e < 32 && #[trigger] symbol(e) == ascii_upper(c);
        if e < d {
            lemma_symbol_strictly_increasing(e, d);
        } else if d < e {
            lemma_symbol_strictly_increasing(d, e);
        }
    }
}

/// The symbol at position `d`.
pub(crate) fn symbol_at(d: u8) -> (c: u8)
    requires
        d < 32,
    ensures
        c == symbol(d as int),
{
    if d < 10 {
        d + 48
    } else if d < 18 {
        d - 10 + 65
    } else if d < 20 {
        d - 18 + 74
    } else if d < 22 {
        d - 20 + 77
    } else if d < 27 {
        d - 22 + 80
    } else {
        d - 27 + 86
    }
}

/// Position in the alphabet of an upper-case symbol, `None` for a byte outside it.
fn alphabet_position(up: u8) -> (r: Option<u8>)
    ensures
        match r {
            Some(d) => d < 32 && symbol(d as int) == up,
            None => !is_symbol(up),
        },
{
    if 48 <= up && up <= 57 {
        Some(up - 48)
    } else if 65 <= up && up <= 72 {
        Some(up - 65 + 10)
    } else if up == 74 || up == 75 {
        Some(up - 74 + 18)
    } else if up == 77 || up == 78 {
        Some(up - 77 + 20)
    } else if 80 <= up && up <= 84 {
        Some(up - 80 + 22)
    } else if 86 <= up && up <= 90 {
        Some(up - 86 + 27)
    } else {
        assert forall|d: int| 0 <= d < 32 implies #[trigger] symbol(d) != up by {}
        None
    }
}

/// Map one input byte to its 5-bit value, folding Crockford's confusables
/// (`I`/`L` to 1, `O` to 0) and accepting either case. `U` is not in the
/// alphabet and is rejected.
pub fn decode_symbol(c: u8) -> (r: Option<u8>)
    ensures
        r == symbol_value(c),
        r matches Some(v) ==> v < 32,
{
    if 48 <= c && c <= 57 {
        Some(c - 48)
    } else if c == 79 || c == 111 {
        Some(0)
    } else if c == 73 || c == 105 || c == 76 || c == 108 {
        Some(1)
    } else {
        let up = if 97 <= c && c <= 122 { c - 32 } else { c };
        let r = alphabet_position(up);
        proof {
            if let Some(d) = r {
                let e = choose|e: int| 0 <= e < 32 && #[trigger] symbol(e) == ascii_upper(c);
                if e < d {
                    lemma_symbol_strictly_increasing(e, d as int);
                } else if d < e {
                    lemma_symbol_strictly_increasing(d as int, e);
                }
            }
        }
        r
    }
}


/// `c` is one of the confusable letters that fold: `O`/`o` to 0, `I`/`i`/`L`/`l` to 1.
pub open spec fn is_folded_letter(c: u8) -> bool {
    c == 79 || c == 111 || c == 73 || c == 105 || c == 76 || c == 108
}

/// Law: a byte decodes exactly when it is an alphabet symbol in either case or
/// one of the confusable letters, and then to the alphabet position of its
/// upper case, or to 0 for `O`/`o` and 1 for `I`/`i`/`L`/`l`. Every other
/// byte (`U`, punctuation, `:` after `9`, non-ASCII) decodes to nothing.
pub proof fn law_symbol_value_meaning(c: u8)
    ensures
        symbol_value(c) is Some <==> (is_symbol(ascii_upper(c)) || is_folded_letter(c)),
        symbol_value(c) matches Some(v) ==> v < 32 && (if c == 79 || c == 111 {
            v == 0
        } else if c == 73 || c == 105 || c == 76 || c == 108 {
            v == 1
        } else {
            symbol(v as int) == ascii_upper(c)
        }),
{
    if 48 <= c <= 57 {
        let d = (c - 48) as int;
        assert(symbol(d) == ascii_upper(c));
    } else if is_folded_letter(c) {
    } else if is_symbol(ascii_upper(c)) {
        let d = choose|d: int| 0 <= d < 32 && #[trigger] symbol(d) == ascii_upper(c);
        assert(0 <= d < 32 && symbol(d) == ascii_upper(c));
    }
}

} // verus!
