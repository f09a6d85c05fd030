//! Bearer secrets that are wiped from memory when they are dropped.

use crate::admin_client::EnrollmentError;
use crate::encoding::{base64url_encode, base64url_read, random_bytes};
use vstd::prelude::*;
use zeroize::Zeroizing;

verus! {

/// A `zeroize::Zeroizing<String>`: a text that is wiped when it is dropped.
#[verifier::external_body]
pub struct WipedText {
    inner: Zeroizing<String>,
}

/// The text that is held until it is wiped.
pub uninterp spec fn held_text(secret: WipedText) -> Seq<char>;

/// `zeroize::Zeroizing::new`: holds the text it is given.
#[verifier::external_body]
fn hold(text: String) -> (secret: WipedText)
    ensures
        held_text(secret) == text@,
{
    WipedText { inner: Zeroizing::new(text) }
}

/// `zeroize::Zeroizing` dereferenced: shows the text it holds.
#[verifier::external_body]
fn show(secret: &WipedText) -> (text: &str)
    ensures
        text@ == held_text(*secret),
{
    secret.inner.as_str()
}

/// The base64 text of a 256-bit secret.
pub open spec fn encodes_256_bits(text: Seq<char>) -> bool {
    crate::encoding::base64url_bytes(text) matches Some(bytes) && bytes.len() == 32
}

/// A 256-bit bearer secret in base64.
pub struct SecretToken {
    secret: WipedText,
}

impl View for SecretToken {
    type V = Seq<char>;

    closed spec fn view(&self) -> Seq<char> {
        held_text(self.secret)
    }
}

impl SecretToken {
    /// The secret for 32 bytes.
    pub fn from_bytes(bytes: &Vec<u8>) -> (token: Self)
        ensures
            token@ == crate::encoding::base64url(bytes@),
            bytes@.len() == 32 ==> encodes_256_bits(token@),
    {
        proof {
            crate::encoding::law_base64url_round_trip(bytes@);
        }
        SecretToken { secret: hold(base64url_encode(bytes.as_slice())) }
    }

    /// A random secret.
    pub fn generate() -> (token: Self)
        ensures
            encodes_256_bits(token@),
    {
        SecretToken::from_bytes(&random_bytes(32))
    }

    /// The text of the secret.
    pub fn expose(&self) -> (text: &str)
        ensures
            text@ == self@,
    {
        show(&self.secret)
    }

    /// Takes a text for a secret where it is the base64 of 32 bytes.
    pub fn from_encoded(value: String) -> (outcome: Result<Self, EnrollmentError>)
        ensures
            match outcome {
                Ok(token) => encodes_256_bits(value@) && token@ == value@,
                Err(error) => !encodes_256_bits(value@) && error == EnrollmentError::InvalidTrust,
            },
    {
        match base64url_read(value.as_str()) {
            Some(bytes) => {
                if bytes.len() != 32 {
                    return Err(EnrollmentError::InvalidTrust);
                }
                Ok(SecretToken { secret: hold(value) })
            },
            None => Err(EnrollmentError::InvalidTrust),
        }
    }
}

} // verus!
