//! Text of numbers and characters, as std's formatting writes them.
use vstd::prelude::*;

verus! {

/// The decimal digit character of `d`.
pub open spec fn digit_char(d: nat) -> char
    recommends
        d < 10,
{
    (d + 48) as char
}

/// The decimal text of `n`, without leading zeros.
pub open spec fn decimal(n: nat) -> Seq<char>
    decreases n,
{
    if n < 10 {
        seq![digit_char(n)]
    } else {
        decimal(n / 10).push(digit_char(n % 10))
    }
}

/// `ToString::to_string` of a `usize`, through its `Display`: the decimal digits
/// of the number.
#[verifier::external_body]
pub(crate) fn usize_text(n: usize) -> (text: String)
    ensures
        text@ == decimal(n as nat),
{
    n.to_string()
}

/// The text that std's `Debug` writes for a character: the character between
/// single quotes, escaped where it is a quote, a backslash or not printable.
pub uninterp spec fn char_debug(c: char) -> Seq<char>;

/// `format!("{:?}", c)`, std's `Debug` of a `char`, whose text is named by
/// `char_debug`: the character between single quotes when it is printable ASCII
/// other than a quote or a backslash. The escapes std writes for other
/// characters are left to the name.
#[verifier::external_body]
pub(crate) fn char_debug_text(c: char) -> (text: String)
    ensures
        text@ == char_debug(c),
        (' ' <= c <= '~' && c != '\'' && c != '\\') ==> text@ == seq!['\'', c, '\''],
{
    format!("{:?}", c)
}

} // verus!
