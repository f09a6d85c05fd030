//! Universally unique identifiers.

use vstd::prelude::*;

verus! {

/// A 128-bit identifier.
#[derive(Clone, Copy, PartialEq, Eq, PartialOrd, Ord, Hash, Debug, Structural)]
pub struct Uuid {
    pub bits: u128,
}

/// Hexadecimal digit `k` of a 128-bit number, counted from the most significant.
pub open spec fn nibble(bits: u128, k: int) -> int {
    (bits as int / vstd::arithmetic::power::pow(16, (31 - k) as nat)) % 16
}

/// The text form: 32 lower-case hexadecimal digits in groups of 8, 4, 4, 4 and 12.
pub open spec fn uuid_text(bits: u128) -> Seq<char> {
    Seq::new(
        36,
        |i: int|
            if i < 8 {
                crate::encoding::hex_digit(nibble(bits, i))
            } else if i == 8 || i == 13 || i == 18 || i == 23 {
                '-'
            } else if i < 13 {
                crate::encoding::hex_digit(nibble(bits, i - 1))
            } else if i < 18 {
                crate::encoding::hex_digit(nibble(bits, i - 2))
            } else if i < 23 {
                crate::encoding::hex_digit(nibble(bits, i - 3))
            } else {
                crate::encoding::hex_digit(nibble(bits, i - 4))
            },
    )
}

/// The identifier that a text in any of the accepted forms stands for.
pub uninterp spec fn parsed_uuid(input: Seq<char>) -> Option<u128>;

/// `uuid::Uuid` with its `Display`: the hyphenated lower-case text form.
#[verifier::external_body]
fn hyphenated(bits: u128) -> (shown: String)
    ensures
        shown@ == uuid_text(bits),
{
    uuid::Uuid::from_u128(bits).to_string()
}

/// `uuid::Uuid::parse_str`: a function of the text alone, which accepts the hyphenated form of
/// every identifier and gives that identifier back.
#[verifier::external_body]
fn parse_hyphenated(input: &str) -> (bits: Option<u128>)
    ensures
        bits == parsed_uuid(input@),
        forall|source: u128| input@ == #[trigger] uuid_text(source) ==> bits == Some(source),
{
    uuid::Uuid::parse_str(input).ok().map(|found| found.as_u128())
}

/// Whether an identifier is marked as a random one: version 4, in the variant of RFC 9562.
pub open spec fn is_version_4(bits: u128) -> bool {
    nibble(bits, 12) == 4 && nibble(bits, 16) / 4 == 2
}

/// `uuid::Uuid::new_v4`: an identifier of version 4, any of which may come out.
#[verifier::external_body]
fn random_bits() -> (bits: u128)
    ensures
        is_version_4(bits),
{
    uuid::Uuid::new_v4().as_u128()
}

impl Uuid {
    /// The identifier whose bits are all zero.
    pub fn nil() -> (id: Self)
        ensures
            id.bits == 0,
    {
        Uuid { bits: 0 }
    }

    /// The identifier with the given bits.
    pub fn from_u128(bits: u128) -> (id: Self)
        ensures
            id.bits == bits,
    {
        Uuid { bits }
    }

    /// A random identifier, which is never the one whose bits are all zero.
    pub fn new_v4() -> (id: Self)
        ensures
            is_version_4(id.bits),
            id.bits != 0,
    {
        let bits: u128 = random_bits();
        proof {
            if bits == 0 {
                assert(nibble(bits, 12) == 0) by {
                    vstd::arithmetic::power::lemma_pow_positive(16, 19);
                    vstd::arithmetic::div_mod::lemma_div_basics_1(
                        vstd::arithmetic::power::pow(16, 19),
                    );
                }
            }
        }
        Uuid { bits }
    }

    /// Reads an identifier; the hyphenated form of every identifier is accepted.
    pub fn parse_str(input: &str) -> (id: Option<Self>)
        ensures
            id == parse_outcome(parsed_uuid(input@)),
            forall|source: Uuid|
                input@ == #[trigger] source.spec_text() ==> id == Some(source),
    {
        let bits = parse_hyphenated(input);
        proof {
            assert forall|source: Uuid| input@ == #[trigger] source.spec_text() implies
                parse_outcome(bits) == Some(source) by {
                assert(input@ == uuid_text(source.bits));
            }
        }
        match bits {
            Some(value) => Some(Uuid { bits: value }),
            None => None,
        }
    }

    /// The hyphenated lower-case text form.
    pub open spec fn spec_text(self) -> Seq<char> {
        uuid_text(self.bits)
    }

    /// Writes the hyphenated lower-case text form.
    pub fn to_text(&self) -> (shown: String)
        ensures
            shown@ == self.spec_text(),
    {
        hyphenated(self.bits)
    }
}

/// The identifier for bits that were read.
pub open spec fn parse_outcome(bits: Option<u128>) -> Option<Uuid> {
    match bits {
        Some(value) => Some(Uuid { bits: value }),
        None => None,
    }
}

/// The text of an identifier is 36 lower-case hexadecimal digits and hyphens, in groups of eight,
/// four, four, four and twelve.
pub proof fn law_identifier_form(id: Uuid)
    ensures
        id.spec_text().len() == 36,
        forall|i: int|
            0 <= i < 36 ==> if i == 8 || i == 13 || i == 18 || i == 23 {
                #[trigger] id.spec_text()[i] == '-'
            } else {
                '0' <= id.spec_text()[i] <= '9' || 'a' <= id.spec_text()[i] <= 'f'
            },
{
    assert forall|k: int| 0 <= #[trigger] nibble(id.bits, k) < 16 by {
        let whole = id.bits as int / vstd::arithmetic::power::pow(16, (31 - k) as nat);
        assert(0 <= whole % 16 < 16);
    }
}

proof fn lemma_nibble_of_text(id: Uuid, k: int)
    requires
        0 <= k < 32,
    ensures
        ({
            let i = if k < 8 {
                k
            } else if k < 12 {
                k + 1
            } else if k < 16 {
                k + 2
            } else if k < 20 {
                k + 3
            } else {
                k + 4
            };
            id.spec_text()[i] == crate::encoding::hex_digit(nibble(id.bits, k))
        }),
{
}

proof fn lemma_same_nibbles(one: u128, other: u128, j: nat)
    requires
        j <= 32,
        forall|k: int| 0 <= k < 32 ==> #[trigger] nibble(one, k) == nibble(other, k),
    ensures
        one as int / vstd::arithmetic::power::pow(16, j) == other as int
            / vstd::arithmetic::power::pow(16, j),
    decreases 32 - j,
{
    let a = one as int;
    let b = other as int;
    let p = vstd::arithmetic::power::pow(16, j);
    vstd::arithmetic::power::lemma_pow_positive(16, j);
    if j == 32 {
        assert(vstd::arithmetic::power::pow(16, 32) == 0x1_0000_0000_0000_0000_0000_0000_0000_0000)
            by {
            reveal_with_fuel(vstd::arithmetic::power::pow, 33);
        }
        vstd::arithmetic::div_mod::lemma_basic_div(a, p);
        vstd::arithmetic::div_mod::lemma_basic_div(b, p);
    } else {
        lemma_same_nibbles(one, other, j + 1);
        let q = vstd::arithmetic::power::pow(16, j + 1);
        assert(q == 16 * p) by {
            reveal(vstd::arithmetic::power::pow);
        }
        vstd::arithmetic::div_mod::lemma_div_denominator(a, p, 16);
        vstd::arithmetic::div_mod::lemma_div_denominator(b, p, 16);
        assert(p * 16 == q) by (nonlinear_arith)
            requires
                q == 16 * p,
        ;
        assert(nibble(one, 31 - j) == (a / p) % 16);
        assert(nibble(other, 31 - j) == (b / p) % 16);
        assert(nibble(one, 31 - j) == nibble(other, 31 - j));
    }
}

/// Different identifiers have different texts.
pub proof fn law_identifiers_tell_apart(one: Uuid, other: Uuid)
    requires
        one.spec_text() == other.spec_text(),
    ensures
        one == other,
{
    assert forall|k: int| 0 <= k < 32 implies #[trigger] nibble(one.bits, k) == nibble(
        other.bits,
        k,
    ) by {
        lemma_nibble_of_text(one, k);
        lemma_nibble_of_text(other, k);
        let a = nibble(one.bits, k);
        let b = nibble(other.bits, k);
        let whole = one.bits as int / vstd::arithmetic::power::pow(16, (31 - k) as nat);
        let other_whole = other.bits as int / vstd::arithmetic::power::pow(16, (31 - k) as nat);
        assert(0 <= whole % 16 < 16);
        assert(0 <= other_whole % 16 < 16);
        assert(crate::encoding::hex_digit(a) == crate::encoding::hex_digit(b));
    }
    lemma_same_nibbles(one.bits, other.bits, 0);
    assert(vstd::arithmetic::power::pow(16, 0) == 1) by {
        reveal(vstd::arithmetic::power::pow);
    }
}

} // verus!
