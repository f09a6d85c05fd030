//! Textual and cryptographic encodings.
//!
//! The encoders, the digest, the signature scheme and the source of randomness come from
//! outside crates. Each is reached through one small function whose contract is stated over
//! byte and character sequences; everything else here is proved.

use crate::text::{chars_of, CharClass};
use base64::engine::general_purpose::URL_SAFE_NO_PAD;
use base64::Engine;
use data_encoding::BASE32_NOPAD;
use ed25519_dalek::{Signer, Verifier};
use rand::RngCore;
use sha2::Digest;
use vstd::prelude::*;

verus! {

/// Bit `k` of a byte string, counted from the most significant bit of the first byte; the
/// string is followed by zeros without end.
pub open spec fn bit_at(bytes: Seq<u8>, k: int) -> int {
    if 0 <= k < 8 * bytes.len() {
        (bytes[k / 8] as int / vstd::arithmetic::power::pow(2, (7 - k % 8) as nat)) % 2
    } else {
        0
    }
}

/// The number that `width` bits of a byte string spell from bit `start` on.
pub open spec fn bits_value(bytes: Seq<u8>, start: int, width: nat) -> int
    decreases width,
{
    if width == 0 {
        0
    } else {
        2 * bits_value(bytes, start, (width - 1) as nat) + bit_at(bytes, start + width - 1)
    }
}

/// The symbol of the URL-safe base64 alphabet for a value below 64.
pub open spec fn base64url_symbol(value: int) -> char {
    if value < 26 {
        ('A' as int + value) as char
    } else if value < 52 {
        ('a' as int + value - 26) as char
    } else if value < 62 {
        ('0' as int + value - 52) as char
    } else if value == 62 {
        '-'
    } else {
        '_'
    }
}

/// Unpadded URL-safe base64: one symbol for every six bits, the last group filled with zeros.
pub open spec fn base64url(bytes: Seq<u8>) -> Seq<char> {
    Seq::new(
        ((8 * bytes.len() + 5) / 6) as nat,
        |j: int| base64url_symbol(bits_value(bytes, 6 * j, 6)),
    )
}

/// The symbol of the base32 alphabet for a value below 32.
pub open spec fn base32_symbol(value: int) -> char {
    if value < 26 {
        ('A' as int + value) as char
    } else {
        ('2' as int + value - 26) as char
    }
}

/// Unpadded base32: one symbol for every five bits, the last group filled with zeros.
pub open spec fn base32(bytes: Seq<u8>) -> Seq<char> {
    Seq::new(
        ((8 * bytes.len() + 4) / 5) as nat,
        |j: int| base32_symbol(bits_value(bytes, 5 * j, 5)),
    )
}

/// The lower-case hexadecimal digit for a value below 16.
pub open spec fn hex_digit(value: int) -> char {
    if value < 10 {
        ('0' as int + value) as char
    } else {
        ('a' as int + value - 10) as char
    }
}

/// Lower-case hexadecimal text, two digits for every byte.
pub open spec fn hex_text(bytes: Seq<u8>) -> Seq<char> {
    Seq::new(
        2 * bytes.len(),
        |j: int| hex_digit(if j % 2 == 0 { bytes[j / 2] as int / 16 } else { bytes[j / 2] as int % 16 }),
    )
}

/// The value of a hexadecimal digit of either case.
pub open spec fn hex_value(c: char) -> Option<int> {
    if '0' <= c <= '9' {
        Some(c as int - '0' as int)
    } else if 'a' <= c <= 'f' {
        Some(c as int - 'a' as int + 10)
    } else if 'A' <= c <= 'F' {
        Some(c as int - 'A' as int + 10)
    } else {
        None
    }
}

/// The bytes that a hexadecimal text of either case spells.
pub open spec fn hex_bytes(text: Seq<char>) -> Option<Seq<u8>> {
    if text.len() % 2 == 0 && forall|i: int|
        0 <= i < text.len() ==> hex_value(#[trigger] text[i]) is Some {
        Some(
            Seq::new(
                (text.len() / 2) as nat,
                |i: int| (16 * hex_value(text[2 * i])->0 + hex_value(text[2 * i + 1])->0) as u8,
            ),
        )
    } else {
        None
    }
}

/// The SHA-256 digest of a byte string.
pub uninterp spec fn sha256(bytes: Seq<u8>) -> Seq<u8>;

/// Whether 32 bytes encode a point of the Ed25519 curve.
pub uninterp spec fn ed25519_point(key: Seq<u8>) -> bool;

/// Whether an Ed25519 public key accepts a 64-byte signature of a message.
pub uninterp spec fn ed25519_accepts(key: Seq<u8>, message: Seq<u8>, signature: Seq<u8>) -> bool;

/// The Ed25519 public key that belongs to a 32-byte secret seed.
pub uninterp spec fn ed25519_public(seed: Seq<u8>) -> Seq<u8>;

/// The Ed25519 signature of a message under a 32-byte secret seed.
pub uninterp spec fn ed25519_signature(seed: Seq<u8>, message: Seq<u8>) -> Seq<u8>;

/// `base64::Engine::encode` of `URL_SAFE_NO_PAD`: one symbol of the URL-safe alphabet for
/// every six bits, no padding.
#[verifier::external_body]
pub(crate) fn base64url_encode(bytes: &[u8]) -> (text: String)
    ensures
        text@ == base64url(bytes@),
{
    URL_SAFE_NO_PAD.encode(bytes)
}

/// `base64::Engine::decode` of `URL_SAFE_NO_PAD`: accepts exactly the texts that the encoder
/// gives, since padding, foreign symbols and stray trailing bits are all refused, and gives
/// back the bytes that were encoded.
#[verifier::external_body]
fn base64url_decode(text: &str) -> (bytes: Option<Vec<u8>>)
    ensures
        bytes matches Some(found) ==> base64url(found@) == text@,
        bytes is None ==> forall|source: Seq<u8>| #[trigger] base64url(source) != text@,
{
    URL_SAFE_NO_PAD.decode(text).ok()
}

/// `data_encoding::Encoding::encode` of `BASE32_NOPAD`: one symbol for every five bits, no
/// padding.
#[verifier::external_body]
fn base32_encode(bytes: &[u8]) -> (text: String)
    ensures
        text@ == base32(bytes@),
{
    BASE32_NOPAD.encode(bytes)
}

/// `hex::decode`: the bytes spelled by an even number of hexadecimal digits of either case,
/// and an error for every other text.
#[verifier::external_body]
pub(crate) fn hex_decode(text: &str) -> (bytes: Option<Vec<u8>>)
    ensures
        bytes is Some == hex_bytes(text@) is Some,
        bytes matches Some(found) ==> hex_bytes(text@) == Some(found@),
{
    hex::decode(text).ok()
}

/// `sha2::Sha256::digest`: the 32-byte digest, a function of the bytes alone.
#[verifier::external_body]
pub(crate) fn sha256_digest(bytes: &[u8]) -> (digest: [u8; 32])
    ensures
        digest@ == sha256(bytes@),
{
    sha2::Sha256::digest(bytes).into()
}

/// `ed25519_dalek::VerifyingKey::from_bytes`: succeeds exactly on the encodings of curve
/// points.
#[verifier::external_body]
pub(crate) fn ed25519_key_valid(key: &[u8; 32]) -> (valid: bool)
    ensures
        valid == ed25519_point(key@),
{
    ed25519_dalek::VerifyingKey::from_bytes(key).is_ok()
}

/// `ed25519_dalek::Verifier::verify`: whether the key accepts the signature of the message, a
/// function of the three byte strings alone.
#[verifier::external_body]
pub(crate) fn ed25519_verify(key: &[u8; 32], message: &[u8], signature: &[u8; 64]) -> (accepted:
    bool)
    requires
        ed25519_point(key@),
    ensures
        accepted == ed25519_accepts(key@, message@, signature@),
{
    match ed25519_dalek::VerifyingKey::from_bytes(key) {
        Ok(point) => point.verify(message, &ed25519_dalek::Signature::from_bytes(signature)).is_ok(),
        Err(_) => false,
    }
}

/// `ed25519_dalek::SigningKey::verifying_key`: the public key of a seed, which is a curve
/// point.
#[verifier::external_body]
pub(crate) fn ed25519_public_key(seed: &[u8; 32]) -> (key: [u8; 32])
    ensures
        key@ == ed25519_public(seed@),
        ed25519_point(key@),
{
    ed25519_dalek::SigningKey::from_bytes(seed).verifying_key().to_bytes()
}

/// `ed25519_dalek::Signer::sign`: the deterministic signature of a message, which the public
/// key of the seed accepts.
#[verifier::external_body]
pub(crate) fn ed25519_sign(seed: &[u8; 32], message: &[u8]) -> (signature: [u8; 64])
    ensures
        signature@ == ed25519_signature(seed@, message@),
        ed25519_accepts(ed25519_public(seed@), message@, signature@),
{
    ed25519_dalek::SigningKey::from_bytes(seed).sign(message).to_bytes()
}

/// `rand::rngs::OsRng::fill_bytes`: `count` bytes from the operating system, any of which may
/// come out.
#[verifier::external_body]
pub(crate) fn random_bytes(count: usize) -> (bytes: Vec<u8>)
    ensures
        bytes@.len() == count,
{
    let mut bytes = vec![0u8; count];
    rand::rngs::OsRng.fill_bytes(&mut bytes);
    bytes
}

/// A lower-case copy of an upper-case letter; any other character as it is.
pub open spec fn lower_case(c: char) -> char {
    if 'A' <= c <= 'Z' {
        (c as int + 32) as char
    } else {
        c
    }
}

/// The base32 text of a byte string in lower case.
pub open spec fn label_text(bytes: Seq<u8>) -> Seq<char> {
    base32(bytes).map_values(|c: char| lower_case(c))
}

/// Bits are zero or one, so a group of `width` bits stays below two to that power.
proof fn lemma_bits_value_bound(bytes: Seq<u8>, start: int, width: nat)
    ensures
        0 <= bits_value(bytes, start, width) < vstd::arithmetic::power::pow(2, width),
    decreases width,
{
    reveal(vstd::arithmetic::power::pow);
    if width > 0 {
        lemma_bits_value_bound(bytes, start, (width - 1) as nat);
    }
}

/// A label holds only lower-case letters and digits, and a 128-bit label has 26 of them.
pub proof fn lemma_label_text(bytes: Seq<u8>)
    ensures
        crate::text::all_in(label_text(bytes), CharClass::LowerAlphanumeric),
        bytes.len() == 16 ==> label_text(bytes).len() == 26,
{
    assert forall|j: int| 0 <= j < label_text(bytes).len() implies
        CharClass::LowerAlphanumeric.holds(#[trigger] label_text(bytes)[j]) by {
        lemma_bits_value_bound(bytes, 5 * j, 5);
        lemma_powers_of_two();
        let value = bits_value(bytes, 5 * j, 5);
        assert(0 <= value < 32);
        assert(base32(bytes)[j] == base32_symbol(value));
    }
}

/// Writes a value below 16 as a lower-case hexadecimal digit.
fn hex_digit_of(value: u8) -> (digit: char)
    requires
        value < 16,
    ensures
        digit == hex_digit(value as int),
{
    if value < 10 {
        (48 + value) as char
    } else {
        (97 + (value - 10)) as char
    }
}

/// Bytes that are written in hexadecimal are read back as they were.
pub proof fn law_hex_round_trip(bytes: Seq<u8>)
    ensures
        hex_bytes(hex_text(bytes)) == Some(bytes),
{
    let text = hex_text(bytes);
    assert forall|j: int| 0 <= j < text.len() implies hex_value(#[trigger] text[j]) == Some(
        if j % 2 == 0 {
            bytes[j / 2] as int / 16
        } else {
            bytes[j / 2] as int % 16
        },
    ) by {
        let value = if j % 2 == 0 {
            bytes[j / 2] as int / 16
        } else {
            bytes[j / 2] as int % 16
        };
        assert(0 <= value < 16);
    }
    assert(text.len() % 2 == 0);
    assert forall|i: int| 0 <= i < bytes.len() implies (16 * hex_value(text[2 * i])->0 + hex_value(
        text[2 * i + 1],
    )->0) as u8 == #[trigger] bytes[i] by {
        assert((2 * i) / 2 == i && (2 * i) % 2 == 0);
        assert((2 * i + 1) / 2 == i && (2 * i + 1) % 2 == 1);
        assert(hex_value(text[2 * i]) == Some(bytes[i] as int / 16));
        assert(hex_value(text[2 * i + 1]) == Some(bytes[i] as int % 16));
    }
    assert(hex_bytes(text)->0 =~= bytes);
}

/// Writes bytes as lower-case hexadecimal text.
pub fn hex_lower(bytes: &[u8]) -> (digits: String)
    ensures
        digits@ == hex_text(bytes@),
{
    let mut digits: String = String::new();
    let mut i: usize = 0;
    while i < bytes.len()
        invariant
            i <= bytes@.len(),
            digits@ == hex_text(bytes@).take(2 * i),
        decreases bytes@.len() - i,
    {
        let byte: u8 = bytes[i];
        digits.push(hex_digit_of(byte / 16));
        digits.push(hex_digit_of(byte % 16));
        proof {
            let whole = hex_text(bytes@);
            assert((2 * i) / 2 == i && (2 * i) % 2 == 0);
            assert((2 * i + 1) / 2 == i && (2 * i + 1) % 2 == 1);
            assert(whole[2 * i] == hex_digit(byte as int / 16));
            assert(whole[2 * i + 1] == hex_digit(byte as int % 16));
            assert(digits@ =~= whole.take(2 * (i + 1)));
        }
        i += 1;
    }
    proof {
        assert(hex_text(bytes@).take(2 * bytes@.len() as int) =~= hex_text(bytes@));
    }
    digits
}

/// The lower-case hexadecimal SHA-256 digest of a byte string.
pub fn sha256_hex(bytes: &[u8]) -> (digits: String)
    ensures
        digits@ == hex_text(sha256(bytes@)),
{
    let digest: [u8; 32] = sha256_digest(bytes);
    hex_lower(digest.as_slice())
}

/// Writes bytes as a DNS label: base32 without padding, in lower case.
pub fn label_of(bytes: &[u8]) -> (label: String)
    ensures
        label@ == label_text(bytes@),
{
    let upper: Vec<char> = chars_of(base32_encode(bytes).as_str());
    let mut label: String = String::new();
    let mut i: usize = 0;
    while i < upper.len()
        invariant
            i <= upper@.len(),
            upper@ == base32(bytes@),
            label@ == label_text(bytes@).take(i as int),
        decreases upper@.len() - i,
    {
        let c: char = upper[i];
        let lower: char = if 'A' <= c && c <= 'Z' {
            (c as u8 + 32) as char
        } else {
            c
        };
        label.push(lower);
        i += 1;
        proof {
            assert(label@ =~= label_text(bytes@).take(i as int));
        }
    }
    proof {
        assert(label_text(bytes@).take(upper@.len() as int) =~= label_text(bytes@));
    }
    label
}

/// Distinct values below 64 have distinct symbols.
proof fn lemma_symbol_injective(a: int, b: int)
    requires
        0 <= a < 64,
        0 <= b < 64,
        base64url_symbol(a) == base64url_symbol(b),
    ensures
        a == b,
{
}

/// A bit is zero or one.
proof fn lemma_bit_range(bytes: Seq<u8>, k: int)
    ensures
        0 <= bit_at(bytes, k) < 2,
{
}

/// Two groups with the same value have the same bits.
proof fn lemma_bits_value_injective(a: Seq<u8>, b: Seq<u8>, start: int, width: nat, k: int)
    requires
        bits_value(a, start, width) == bits_value(b, start, width),
        0 <= k < width,
    ensures
        bit_at(a, start + k) == bit_at(b, start + k),
    decreases width,
{
    lemma_bit_range(a, start + width - 1);
    lemma_bit_range(b, start + width - 1);
    assert(bits_value(a, start, (width - 1) as nat) == bits_value(b, start, (width - 1) as nat));
    if k < width - 1 {
        lemma_bits_value_injective(a, b, start, (width - 1) as nat, k);
    }
}

/// The first powers of two.
proof fn lemma_powers_of_two()
    ensures
        vstd::arithmetic::power::pow(2, 0) == 1,
        vstd::arithmetic::power::pow(2, 1) == 2,
        vstd::arithmetic::power::pow(2, 2) == 4,
        vstd::arithmetic::power::pow(2, 3) == 8,
        vstd::arithmetic::power::pow(2, 4) == 16,
        vstd::arithmetic::power::pow(2, 5) == 32,
        vstd::arithmetic::power::pow(2, 6) == 64,
        vstd::arithmetic::power::pow(2, 7) == 128,
{
    reveal_with_fuel(vstd::arithmetic::power::pow, 8);
}

/// A byte is the number that its eight bits spell.
proof fn lemma_byte_from_bits(bytes: Seq<u8>, i: int)
    requires
        0 <= i < bytes.len(),
    ensures
        bytes[i] as int == 128 * bit_at(bytes, 8 * i) + 64 * bit_at(bytes, 8 * i + 1) + 32 * bit_at(
            bytes,
            8 * i + 2,
        ) + 16 * bit_at(bytes, 8 * i + 3) + 8 * bit_at(bytes, 8 * i + 4) + 4 * bit_at(
            bytes,
            8 * i + 5,
        ) + 2 * bit_at(bytes, 8 * i + 6) + bit_at(bytes, 8 * i + 7),
{
    lemma_powers_of_two();
    let byte = bytes[i];
    assert(byte == 128 * ((byte / 128) % 2) + 64 * ((byte / 64) % 2) + 32 * ((byte / 32) % 2) + 16
        * ((byte / 16) % 2) + 8 * ((byte / 8) % 2) + 4 * ((byte / 4) % 2) + 2 * ((byte / 2) % 2) + (
    byte % 2)) by (bit_vector);
    assert(bit_at(bytes, 8 * i) == (byte / 128) % 2);
    assert(bit_at(bytes, 8 * i + 1) == (byte / 64) % 2);
    assert(bit_at(bytes, 8 * i + 2) == (byte / 32) % 2);
    assert(bit_at(bytes, 8 * i + 3) == (byte / 16) % 2);
    assert(bit_at(bytes, 8 * i + 4) == (byte / 8) % 2);
    assert(bit_at(bytes, 8 * i + 5) == (byte / 4) % 2);
    assert(bit_at(bytes, 8 * i + 6) == (byte / 2) % 2);
    assert(bit_at(bytes, 8 * i + 7) == byte % 2);
}

/// Distinct byte strings have distinct base64 texts, so a text decodes to one byte string.
pub proof fn law_base64url_injective(a: Seq<u8>, b: Seq<u8>)
    requires
        base64url(a) == base64url(b),
    ensures
        a == b,
{
    let n = a.len() as int;
    let m = b.len() as int;
    assert(base64url(a).len() == (8 * n + 5) / 6);
    assert(base64url(b).len() == (8 * m + 5) / 6);
    assert(n == m);
    assert forall|k: int| 0 <= k < 8 * a.len() implies bit_at(a, k) == bit_at(b, k) by {
        let j = k / 6;
        assert(0 <= j < base64url(a).len());
        lemma_bits_value_bound(a, 6 * j, 6);
        lemma_bits_value_bound(b, 6 * j, 6);
        lemma_powers_of_two();
        assert(base64url(a)[j] == base64url_symbol(bits_value(a, 6 * j, 6)));
        assert(base64url(b)[j] == base64url_symbol(bits_value(b, 6 * j, 6)));
        lemma_symbol_injective(bits_value(a, 6 * j, 6), bits_value(b, 6 * j, 6));
        lemma_bits_value_injective(a, b, 6 * j, 6, k % 6);
        assert(6 * j + k % 6 == k);
    }
    assert forall|i: int| 0 <= i < a.len() implies a[i] == b[i] by {
        lemma_byte_from_bits(a, i);
        lemma_byte_from_bits(b, i);
    }
    assert(a =~= b);
}

/// The bytes that a base64 text stands for.
pub open spec fn base64url_bytes(text: Seq<char>) -> Option<Seq<u8>> {
    if exists|source: Seq<u8>| #[trigger] base64url(source) == text {
        Some(choose|source: Seq<u8>| #[trigger] base64url(source) == text)
    } else {
        None
    }
}

/// Decoding an encoded byte string gives the byte string back.
pub proof fn law_base64url_round_trip(bytes: Seq<u8>)
    ensures
        base64url_bytes(base64url(bytes)) == Some(bytes),
{
    let chosen = choose|source: Seq<u8>| #[trigger] base64url(source) == base64url(bytes);
    assert(base64url(bytes) == base64url(bytes));
    law_base64url_injective(chosen, bytes);
}

/// Reads unpadded URL-safe base64.
pub fn base64url_read(text: &str) -> (bytes: Option<Vec<u8>>)
    ensures
        bytes is Some == base64url_bytes(text@) is Some,
        bytes matches Some(found) ==> base64url_bytes(text@) == Some(found@),
{
    let bytes = base64url_decode(text);
    proof {
        if bytes is Some {
            law_base64url_round_trip(bytes->0@);
        }
    }
    bytes
}

/// Hexadecimal text has two digits for each byte, all of lower case, and different bytes have
/// different texts.
pub proof fn law_hex_is_lower_case(bytes: Seq<u8>, other: Seq<u8>)
    ensures
        hex_text(bytes).len() == 2 * bytes.len(),
        forall|i: int|
            0 <= i < hex_text(bytes).len() ==> ('0' <= #[trigger] hex_text(bytes)[i] <= '9' || 'a'
                <= hex_text(bytes)[i] <= 'f'),
        hex_text(bytes) == hex_text(other) ==> bytes == other,
{
    law_hex_round_trip(bytes);
    law_hex_round_trip(other);
}

} // verus!
