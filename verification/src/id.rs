//! Typed, sortable entity identifiers.
//!
//! `Id<T>` is a UUIDv7 tagged with the entity it identifies, so an `Id<Order>`
//! cannot be passed where an `Id<Item>` is expected. UUIDv7 is time-ordered, so
//! sorting by id approximates creation order. An id is held as the UUID's 128
//! bits, most significant byte first, as `uuid::Uuid::as_u128` packs them.
use core::marker::PhantomData;
use uuid::Error as UuidError;
use vstd::prelude::*;
use vstd::string::StringExecFns;

verus! {

/// The lower-case hexadecimal digit of a value below 16.
pub open spec fn hex_char(n: int) -> char {
    if n < 10 {
        (n + 48) as char
    } else {
        (n + 87) as char
    }
}

/// The `k`-th hexadecimal digit of `bits`, counting from the most significant (0)
/// to the least significant (31).
pub open spec fn nibble(bits: u128, k: int) -> int {
    ((bits >> ((4 * (31 - k)) as u32)) & 0xf) as int
}

/// How many hyphens stand before position `i` of the hyphenated form.
pub open spec fn hyphens_before(i: int) -> int {
    if i < 8 {
        0
    } else if i < 13 {
        1
    } else if i < 18 {
        2
    } else if i < 23 {
        3
    } else {
        4
    }
}

/// The hyphenated lower-case form of a UUID, such as
/// `67e55044-10b1-426f-9247-bb680e5fe0c8`: 32 hexadecimal digits, most
/// significant first, in groups of 8, 4, 4, 4 and 12 joined by hyphens.
pub open spec fn uuid_text(bits: u128) -> Seq<char> {
    Seq::new(
        36,
        |i: int|
            if i == 8 || i == 13 || i == 18 || i == 23 {
                '-'
            } else {
                hex_char(nibble(bits, i - hyphens_before(i)))
            },
    )
}

/// `text` is the hyphenated lower-case form of some UUID.
pub open spec fn is_uuid_text(text: Seq<char>) -> bool {
    exists|bits: u128| text == uuid_text(bits)
}

/// The version field of a UUID (the high nibble of byte 6).
pub open spec fn uuid_version(bits: u128) -> u128 {
    (bits >> 76u32) & 0xf
}

/// The two variant bits of a UUID (the top bits of byte 8); `0b10` is RFC 9562's.
pub open spec fn uuid_variant(bits: u128) -> u128 {
    (bits >> 62u32) & 0x3
}

/// The 128 bits of the UUID that `uuid::Uuid::parse_str` reads from a text, or
/// `None` where it refuses the text. It takes the simple, hyphenated, braced and
/// URN forms, in either case.
pub uninterp spec fn uuid_parse(text: Seq<char>) -> Option<u128>;

/// An entity identifier: a UUID tagged with the entity type `T`.
#[derive(Debug)]
pub struct Id<T> {
    pub(crate) raw: u128,
    _marker: PhantomData<T>,
}

impl<T> View for Id<T> {
    type V = u128;

    /// The UUID's 128 bits.
    closed spec fn view(&self) -> u128 {
        self.raw
    }
}

/// Why a text is not an id: the error of `uuid::Uuid::parse_str`.
#[derive(Debug)]
pub struct IdParseError(pub UuidError);

impl<T> Id<T> {
    /// Mint a fresh, time-ordered identifier: a version 7 UUID of the RFC 9562
    /// variant.
    pub fn new() -> (id: Self)
        ensures
            uuid_version(id@) == 7,
            uuid_variant(id@) == 2,
    {
        Self::from_uuid(uuid_now_v7())
    }

    /// The id of the UUID with these 128 bits.
    pub fn from_uuid(raw: u128) -> (id: Self)
        ensures
            id@ == raw,
    {
        Id { raw, _marker: PhantomData }
    }

    /// The 128 bits of the id's UUID.
    pub fn as_uuid(&self) -> (raw: u128)
        ensures
            raw == self@,
    {
        self.raw
    }

    /// The text that `Display` shows: the hyphenated lower-case UUID.
    pub fn to_text(&self) -> (text: String)
        ensures
            text@ == uuid_text(self@),
    {
        uuid_to_text(self.raw)
    }

    /// The text that `Debug` shows: `Id(` and the hyphenated lower-case UUID and `)`.
    pub fn debug_text(&self) -> (text: String)
        ensures
            text@ == "Id("@ + uuid_text(self@) + ")"@,
    {
        let mut text = String::from_str("Id(");
        let uuid = self.to_text();
        text.append(uuid.as_str());
        text.append(")");
        text
    }

    /// Reads an id from a UUID text in any form that `uuid` accepts. Reading the
    /// text that `to_text` writes gives back the same id.
    pub fn parse(s: &str) -> (r: Result<Self, IdParseError>)
        ensures
            match r {
                Ok(id) => uuid_parse(s@) == Some(id@),
                Err(_) => uuid_parse(s@) is None,
            },
            forall|bits: u128| s@ == uuid_text(bits) ==> (r matches Ok(id) && id@ == bits),
    {
        let parsed = uuid_from_text(s);
        proof {
            if is_uuid_text(s@) {
                if let Ok(v) = parsed {
                    assert forall|bits: u128| s@ == uuid_text(bits) implies v == bits by {
                        lemma_uuid_text_injective(v, bits);
                    }
                }
            }
        }
        match parsed {
            Ok(bits) => Ok(Self::from_uuid(bits)),
            Err(e) => Err(IdParseError(e)),
        }
    }
}

impl<T> Default for Id<T> {
    /// A freshly minted id, as [`Id::new`] gives.
    fn default() -> (id: Self)
        ensures
            uuid_version(id@) == 7,
            uuid_variant(id@) == 2,
    {
        Self::new()
    }
}

impl<T> Clone for Id<T> {
    fn clone(&self) -> (id: Self)
        ensures
            id@ == self@,
    {
        Id { raw: self.raw, _marker: PhantomData }
    }
}

impl<T> Copy for Id<T> {

}

impl<T> core::str::FromStr for Id<T> {
    type Err = IdParseError;

    /// The same as [`Id::parse`].
    fn from_str(s: &str) -> (r: Result<Self, IdParseError>)
        ensures
            match r {
                Ok(id) => uuid_parse(s@) == Some(id@),
                Err(_) => uuid_parse(s@) is None,
            },
            forall|bits: u128| s@ == uuid_text(bits) ==> (r matches Ok(id) && id@ == bits),
    {
        Self::parse(s)
    }
}

/// `uuid::Uuid::now_v7()`, taken as its 128 bits with `as_u128`. The uuid
/// source sets the version nibble to 7 and the variant bits to `0b10`; the
/// timestamp and random bits depend on the clock and the generator and are not
/// stated.
#[verifier::external_body]
fn uuid_now_v7() -> (bits: u128)
    ensures
        uuid_version(bits) == 7,
        uuid_variant(bits) == 2,
{
    uuid::Uuid::now_v7().as_u128()
}

/// `ToString::to_string` of `uuid::Uuid::from_u128(bits)`: its `Display`,
/// which writes the hyphenated lower-case form.
#[verifier::external_body]
fn uuid_to_text(bits: u128) -> (text: String)
    ensures
        text@ == uuid_text(bits),
{
    uuid::Uuid::from_u128(bits).to_string()
}

/// `uuid::Uuid::parse_str(s)`, taken as the UUID's 128 bits with `as_u128`.
/// Its result is named by `uuid_parse`; the source shows that it reads the
/// hyphenated lower-case form of any UUID back to that UUID.
#[verifier::external_body]
fn uuid_from_text(s: &str) -> (parsed: Result<u128, UuidError>)
    ensures
        parsed is Ok <==> uuid_parse(s@) is Some,
        parsed matches Ok(bits) ==> uuid_parse(s@) == Some(bits),
        parsed is Err ==> !is_uuid_text(s@),
        parsed matches Ok(bits) ==> (is_uuid_text(s@) ==> s@ == uuid_text(bits)),
{
    match uuid::Uuid::parse_str(s) {
        Ok(u) => Ok(u.as_u128()),
        Err(e) => Err(e),
    }
}

/// The error type of `uuid`'s parsers.
#[verifier::external_type_specification]
#[verifier::external_body]
pub struct ExUuidError(UuidError);


/// Two UUIDs with the same hexadecimal digits from the `j`-th lowest up agree
/// on their bits from `4 * j` up.
proof fn lemma_high_bits_equal(a: u128, b: u128, j: int)
    requires
        0 <= j <= 31,
        forall|k: int| 0 <= k < 32 ==> #[trigger] nibble(a, k) == nibble(b, k),
    ensures
        a >> ((4 * j) as u32) == b >> ((4 * j) as u32),
    decreases 31 - j,
{
    let s = (4 * j) as u32;
    assert(nibble(a, 31 - j) == nibble(b, 31 - j));
    assert(((4 * (31 - (31 - j))) as u32) == s);
    if j == 31 {
        assert((a >> 124u32) & 0xf == a >> 124u32) by (bit_vector);
        assert((b >> 124u32) & 0xf == b >> 124u32) by (bit_vector);
    } else {
        lemma_high_bits_equal(a, b, j + 1);
        let t = (4 * (j + 1)) as u32;
        assert(a >> s == b >> s) by (bit_vector)
            requires
                s <= 120,
                t == s + 4,
                a >> t == b >> t,
                (a >> s) & 0xf == (b >> s) & 0xf,
        ;
    }
}

/// Different UUIDs have different hyphenated forms.
pub proof fn lemma_uuid_text_injective(a: u128, b: u128)
    requires
        uuid_text(a) == uuid_text(b),
    ensures
        a == b,
{
    assert forall|k: int| 0 <= k < 32 implies #[trigger] nibble(a, k) == nibble(b, k) by {
        let i = if k < 8 {
            k
        } else if k < 12 {
            k + 1
        } else if k < 16 {
            k + 2
        } else if k < 20 {
            k + 3
        } else {
            k + 4
        };
        assert(i - hyphens_before(i) == k);
        assert(0 <= i < 36 && i != 8 && i != 13 && i != 18 && i != 23);
        assert(uuid_text(a)[i] == hex_char(nibble(a, k)));
        assert(uuid_text(b)[i] == hex_char(nibble(b, k)));
        let s = (4 * (31 - k)) as u32;
        assert((a >> s) & 0xf < 16) by (bit_vector);
        assert((b >> s) & 0xf < 16) by (bit_vector);
        lemma_hex_char_injective(nibble(a, k), nibble(b, k));
    }
    lemma_high_bits_equal(a, b, 0);
    assert(a >> 0u32 == a) by (bit_vector);
    assert(b >> 0u32 == b) by (bit_vector);
}


/// Different hexadecimal digit values have different characters.
proof fn lemma_hex_char_injective(x: int, y: int)
    requires
        0 <= x < 16,
        0 <= y < 16,
        hex_char(x) == hex_char(y),
    ensures
        x == y,
{
    assert(hex_char(x) as int == if x < 10 { x + 48 } else { x + 87 });
    assert(hex_char(y) as int == if y < 10 { y + 48 } else { y + 87 });
}

} // verus!
