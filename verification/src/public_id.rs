//! Public short ids: opaque, URL-facing aliases for entities.
//!
//! `PublicId<T>` is an 11-symbol Crockford Base32 code (55 bits) tagged with the
//! entity it names, minted at creation and stored beside the internal `Id<T>`.
//! It is the only identifier that crosses the public boundary. It is a handle,
//! not a secret: knowing a code grants nothing. Its runtime representation is
//! 11 ASCII bytes.
use crate::base32::{decode_symbol, is_symbol, symbol, symbol_at, symbol_value};
use crate::code_laws::{
    lemma_code_is_ascii, lemma_encode_is_canonical, lemma_encode_low_bits, lemma_first_invalid,
    lemma_shift_step,
};
use crate::text::{char_debug, char_debug_text, decimal, usize_text};
use core::marker::PhantomData;
use vstd::prelude::*;
use vstd::string::StringExecFns;
use vstd::string::StringSliceAdditionalSpecFns;
use vstd::utf8::{
    encode_utf8, encode_utf8_decode_utf8, encode_utf8_valid_utf8, is_ascii_chars_encode_utf8,
    valid_utf8,
};

verus! {

/// Number of symbols in a code.
pub const LEN: usize = 11;

/// Mask of the 55 bits that a code carries.
pub const CODE_MASK: u64 = 0x7f_ffff_ffff_ffff;

/// The 5-bit group of `bits` written at position `j` (0 is the most significant
/// of the 11 positions); bits above the lowest 55 are never written.
pub open spec fn digit(bits: u64, j: int) -> int {
    ((bits >> ((5 * (10 - j)) as u64)) & 0x1f) as int
}

/// The canonical code of the lowest 55 bits of `bits`: most significant symbol first.
pub open spec fn encode(bits: u64) -> Seq<u8> {
    Seq::new(11, |j: int| symbol(digit(bits, j)))
}

/// `code` is canonical: 11 symbols of the alphabet.
pub open spec fn is_canonical(code: Seq<u8>) -> bool {
    code.len() == 11 && forall|i: int| 0 <= i < 11 ==> #[trigger] is_symbol(code[i])
}

/// The characters of a code, one per byte.
pub open spec fn code_text(code: Seq<u8>) -> Seq<char> {
    Seq::new(code.len(), |i: int| code[i] as char)
}

/// Every byte of `code` decodes to a symbol value.
pub open spec fn all_decodable(code: Seq<u8>) -> bool {
    forall|i: int| 0 <= i < code.len() ==> (#[trigger] symbol_value(code[i])) is Some
}

/// The bits that a sequence of decodable bytes spells: each byte's 5-bit value
/// appended below the bits before it.
pub open spec fn code_bits(code: Seq<u8>) -> u64
    decreases code.len(),
{
    if code.len() == 0 {
        0
    } else {
        (code_bits(code.drop_last()) << 5u64) | (symbol_value(code.last()).unwrap() as u64)
    }
}

/// Position of the first byte of `code` that decodes to nothing.
pub open spec fn first_invalid(code: Seq<u8>) -> int {
    choose|i: int|
        0 <= i < code.len() && symbol_value(code[i]) is None && (forall|j: int|
            0 <= j < i ==> (#[trigger] symbol_value(code[j])) is Some)
}

/// What parsing the UTF-8 bytes `input` yields: the canonical code, or the error.
pub open spec fn parse_spec(input: Seq<u8>) -> Result<Seq<u8>, ParseError> {
    if input.len() != 11 {
        Err(ParseError::Length(input.len() as usize))
    } else if all_decodable(input) {
        Ok(encode(code_bits(input)))
    } else {
        Err(ParseError::Char(input[first_invalid(input)] as char))
    }
}

/// Why a string is not a public id.
#[derive(Debug, Clone, PartialEq, Eq, Structural)]
pub enum ParseError {
    /// The input is not 11 bytes long; holds its length in bytes.
    Length(usize),
    /// The first byte that is not a symbol, read as a `char`.
    Char(char),
}

/// The message that `Display` shows for a parse error; a character is written
/// as std's `Debug` writes it.
pub open spec fn parse_error_text(e: ParseError) -> Seq<char> {
    match e {
        ParseError::Length(n) => "public id must be 11 chars, got "@ + decimal(n as nat),
        ParseError::Char(c) => "invalid public-id character "@ + char_debug(c),
    }
}

impl ParseError {
    /// The message that `Display` shows for this error.
    pub fn message(&self) -> (text: String)
        ensures
            text@ == parse_error_text(*self),
            *self matches ParseError::Char(c) ==> ((' ' <= c <= '~' && c != '\'' && c != '\\') ==> text@
                == "invalid public-id character "@ + seq!['\'', c, '\'']),
    {
        match self {
            ParseError::Length(n) => {
                let mut text = String::from_str("public id must be 11 chars, got ");
                let number = usize_text(*n);
                text.append(number.as_str());
                text
            },
            ParseError::Char(c) => {
                let mut text = String::from_str("invalid public-id character ");
                let debug = char_debug_text(*c);
                text.append(debug.as_str());
                text
            },
        }
    }
}

/// An 11-symbol Crockford Base32 code that names an entity of type `T`.
#[derive(Debug)]
pub struct PublicId<T> {
    pub(crate) code: [u8; 11],
    _marker: PhantomData<T>,
}

impl<T> View for PublicId<T> {
    type V = Seq<u8>;

    /// The 11 ASCII bytes of the canonical code.
    closed spec fn view(&self) -> Seq<u8> {
        self.code@
    }
}

impl<T> PublicId<T> {
    /// Every code is canonical: 11 symbols of the alphabet.
    #[verifier::type_invariant]
    closed spec fn well_formed(self) -> bool {
        is_canonical(self.code@)
    }

    /// The code whose symbols spell the lowest 55 bits of `bits`, most
    /// significant symbol first.
    pub fn from_bits(bits: u64) -> (id: Self)
        ensures
            id@ == encode(bits),
            is_canonical(id@),
    {
        let mut code: [u8; 11] = [0u8; 11];
        let mut rest: u64 = bits;
        let mut k: usize = 11;
        assert(bits >> 0u64 == bits) by (bit_vector);
        while k > 0
            invariant
                k <= 11,
                code@.len() == 11,
                rest == bits >> ((5 * (11 - k)) as u64),
                forall|j: int| k <= j < 11 ==> code@[j] == symbol(digit(bits, j)),
            decreases k,
        {
            k = k - 1;
            let d: u8 = (rest & 0x1f) as u8;
            proof {
                lemma_shift_step(bits, (5 * (10 - k)) as u64);
            }
            code[k] = symbol_at(d);
            rest = rest >> 5u64;
        }
        assert(code@ =~= encode(bits));
        proof {
            lemma_encode_is_canonical(bits);
        }
        PublicId { code, _marker: PhantomData }
    }

    /// The canonical 11-character string.
    pub fn as_str(&self) -> (s: &str)
        ensures
            s@ == code_text(self@),
            is_canonical(self@),
    {
        proof {
            use_type_invariant(self);
            lemma_code_is_ascii(self.code@);
            let chars = code_text(self.code@);
            is_ascii_chars_encode_utf8(chars);
            assert(encode_utf8(chars) =~= self.code@);
            encode_utf8_valid_utf8(chars);
        }
        match str_from_utf8(self.code.as_slice()) {
            Ok(s) => {
                proof {
                    let chars = code_text(self.code@);
                    encode_utf8_decode_utf8(chars);
                    encode_utf8_decode_utf8(s@);
                }
                s
            },
            Err(_) => "",
        }
    }

    /// Normalizes (upper-casing and confusable folding) and validates, so any
    /// spelling of a code resolves to the same canonical value.
    pub fn parse(s: &str) -> (r: Result<Self, ParseError>)
        ensures
            parse_outcome(r) == parse_spec(s.spec_bytes()),
    {
        let bytes = s.as_bytes();
        if bytes.len() != LEN {
            return Err(ParseError::Length(bytes.len()));
        }
        let mut bits: u64 = 0;
        let mut i: usize = 0;
        while i < 11
            invariant
                bytes@ == s.spec_bytes(),
                bytes@.len() == 11,
                i <= 11,
                all_decodable(bytes@.take(i as int)),
                bits == code_bits(bytes@.take(i as int)),
            decreases 11 - i,
        {
            let c = bytes[i];
            match decode_symbol(c) {
                None => {
                    proof {
                        lemma_first_invalid(bytes@, i as int);
                    }
                    return Err(ParseError::Char(c as char));
                },
                Some(v) => {
                    proof {
                        let next = bytes@.take(i + 1);
                        assert(next.drop_last() =~= bytes@.take(i as int));
                        assert forall|k: int| 0 <= k < next.len() implies (#[trigger] symbol_value(
                            next[k],
                        )) is Some by {
                            if k < i {
                                assert(next[k] == bytes@.take(i as int)[k]);
                            }
                        }
                    }
                    bits = (bits << 5u64) | (v as u64);
                    i = i + 1;
                },
            }
        }
        assert(bytes@.take(11) =~= bytes@);
        Ok(Self::from_bits(bits))
    }

    /// The text that `Debug` shows: `PublicId(` and the canonical code and `)`.
    pub fn debug_text(&self) -> (text: String)
        ensures
            text@ == "PublicId("@ + code_text(self@) + ")"@,
    {
        let mut text = String::from_str("PublicId(");
        text.append(self.as_str());
        text.append(")");
        text
    }

    /// The code's bytes.
    pub fn code_bytes(&self) -> (bytes: &[u8])
        ensures
            bytes@ == self@,
            is_canonical(self@),
    {
        proof {
            use_type_invariant(self);
        }
        self.code.as_slice()
    }

    /// Mint a fresh code from 55 random bits: the lowest 55 bits of a random
    /// `u64`, which are all that `from_bits` writes. The caller inserts it
    /// against a `UNIQUE` index and regenerates on conflict.
    pub fn new() -> (id: Self)
        ensures
            exists|bits: u64| bits <= CODE_MASK && id@ == encode(bits),
    {
        let drawn = random_u64();
        let id = Self::from_bits(drawn);
        proof {
            lemma_encode_low_bits(drawn);
            let bits = drawn & CODE_MASK;
            assert(bits <= CODE_MASK) by (bit_vector)
                requires
                    bits == drawn & CODE_MASK,
                    CODE_MASK == 0x7f_ffff_ffff_ffffu64,
            ;
        }
        id
    }
}

/// The outcome of a parse, with the id taken by its code.
pub open spec fn parse_outcome<T>(r: Result<PublicId<T>, ParseError>) -> Result<Seq<u8>, ParseError> {
    match r {
        Ok(id) => Ok(id@),
        Err(e) => Err(e),
    }
}

impl<T> Default for PublicId<T> {
    /// A freshly minted code, as [`PublicId::new`] gives.
    fn default() -> (id: Self)
        ensures
            exists|bits: u64| bits <= CODE_MASK && id@ == encode(bits),
    {
        Self::new()
    }
}

impl<T> Clone for PublicId<T> {
    fn clone(&self) -> (id: Self)
        ensures
            id@ == self@,
    {
        proof {
            use_type_invariant(self);
        }
        PublicId { code: self.code, _marker: PhantomData }
    }
}

impl<T> Copy for PublicId<T> {

}

impl<T> core::str::FromStr for PublicId<T> {
    type Err = ParseError;

    /// The same as [`PublicId::parse`].
    fn from_str(s: &str) -> (r: Result<Self, ParseError>)
        ensures
            parse_outcome(r) == parse_spec(s.spec_bytes()),
    {
        Self::parse(s)
    }
}

/// `rand::random::<u64>()`: a value drawn from the thread-local generator.
/// Any `u64` may come back, so nothing is stated of it.
#[verifier::external_body]
fn random_u64() -> u64 {
    rand::random::<u64>()
}

/// `std::str::from_utf8`: `Ok` exactly when the bytes are valid UTF-8, and then
/// a string whose UTF-8 encoding is those bytes.
#[verifier::external_body]
fn str_from_utf8(bytes: &[u8]) -> (r: Result<&str, core::str::Utf8Error>)
    ensures
        r is Ok <==> valid_utf8(bytes@),
        r matches Ok(s) ==> s.spec_bytes() == bytes@,
{
    core::str::from_utf8(bytes)
}

/// The error of `std::str::from_utf8`.
#[verifier::external_type_specification]
#[verifier::external_body]
pub struct ExUtf8Error(core::str::Utf8Error);

} // verus!
