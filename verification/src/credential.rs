//! Scoped bearer credentials: their form, the file they are kept in, and how long a receipt
//! may promise.

use crate::protocol::TRUSTED_RESPONSE_CLOCK_SKEW_MS;
use crate::text::{chars_of, range_in, text_of, CharClass};
use vstd::prelude::*;

verus! {

/// The longest validity of a scoped credential, in milliseconds.
pub const CREDENTIAL_LIFETIME_MS: u64 = 86_400_000;

/// The largest credential file.
pub const MAX_CREDENTIAL_FILE: u64 = 256;

/// A bearer secret: 43 to 128 characters of the URL-safe alphabet.
pub open spec fn valid_token(token: Seq<char>) -> bool {
    43 <= token.len() <= 128 && crate::text::all_in(token, CharClass::UrlSafe)
}

/// Whether a text has the form of a bearer secret.
pub fn token_is_valid(token: &str) -> (valid: bool)
    ensures
        valid == valid_token(token@),
{
    let chars: Vec<char> = chars_of(token);
    proof {
        assert(chars@.subrange(0, chars@.len() as int) =~= token@);
    }
    chars.len() >= 43 && chars.len() <= 128 && range_in(&chars, 0, chars.len(), CharClass::UrlSafe)
}

/// A text without the line ends that it may close with.
pub open spec fn without_line_ends(text: Seq<char>) -> Seq<char>
    decreases text.len(),
{
    if text.len() > 0 && (text.last() == '\n' || text.last() == '\r') {
        without_line_ends(text.drop_last())
    } else {
        text
    }
}

/// Takes the line ends away that a text closes with.
pub fn trim_line_ends(text: &str) -> (trimmed: String)
    ensures
        trimmed@ == without_line_ends(text@),
{
    let chars: Vec<char> = chars_of(text);
    let mut end: usize = chars.len();
    proof {
        assert(chars@.take(end as int) =~= text@);
    }
    while end > 0 && (chars[end - 1] == '\n' || chars[end - 1] == '\r')
        invariant
            end <= chars@.len(),
            without_line_ends(chars@.take(end as int)) == without_line_ends(text@),
        decreases end,
    {
        proof {
            assert(chars@.take(end as int).drop_last() =~= chars@.take(end - 1));
        }
        end -= 1;
    }
    proof {
        assert(chars@.take(end as int) =~= chars@.subrange(0, end as int));
    }
    text_of(&chars, 0, end)
}

/// Whether a credential file may be read: a regular file of at most 256 bytes that only its
/// owner has access to.
pub fn credential_file_is_private(is_file: bool, size: u64, mode: u32) -> (private: bool)
    ensures
        private == (is_file && size <= MAX_CREDENTIAL_FILE && mode & 0o077u32 == 0),
{
    is_file && size <= MAX_CREDENTIAL_FILE && mode & 0o077u32 == 0
}

/// The bearer secret that a credential file holds.
pub fn credential_of(content: &str) -> (token: Option<String>)
    ensures
        token is Some == valid_token(without_line_ends(content@)),
        token matches Some(found) ==> found@ == without_line_ends(content@),
{
    let trimmed: String = trim_line_ends(content);
    if token_is_valid(trimmed.as_str()) {
        Some(trimmed)
    } else {
        None
    }
}

/// Whether an expiry in a trusted response is believable: still ahead, and not further than the
/// lifetime and the tolerated clock offset.
pub fn trusted_response_expiry(expires_at_ms: u64, now_ms: u64, lifetime_ms: u64) -> (trusted: bool)
    ensures
        trusted == (now_ms < expires_at_ms <= now_ms + lifetime_ms
            + TRUSTED_RESPONSE_CLOCK_SKEW_MS),
{
    expires_at_ms > now_ms && expires_at_ms <= now_ms.saturating_add(lifetime_ms).saturating_add(
        TRUSTED_RESPONSE_CLOCK_SKEW_MS,
    )
}

/// A token is 43 to 128 letters, digits, hyphens and underscores.
pub proof fn law_token_form(token: Seq<char>)
    ensures
        valid_token(token) <==> {
            &&& 43 <= token.len() <= 128
            &&& forall|i: int|
                0 <= i < token.len() ==> ('0' <= #[trigger] token[i] <= '9' || 'a' <= token[i]
                    <= 'z' || 'A' <= token[i] <= 'Z' || token[i] == '-' || token[i] == '_')
        },
{
    if valid_token(token) {
        assert forall|i: int| 0 <= i < token.len() implies ('0' <= #[trigger] token[i] <= '9'
            || 'a' <= token[i] <= 'z' || 'A' <= token[i] <= 'Z' || token[i] == '-' || token[i]
            == '_') by {
            assert(CharClass::UrlSafe.holds(token[i]));
        }
    }
}

/// What is left of a text without its line ends is its beginning up to the last character that is
/// none.
pub proof fn law_only_line_ends_are_cut(text: Seq<char>)
    ensures
        without_line_ends(text).len() <= text.len(),
        without_line_ends(text) == text.take(without_line_ends(text).len() as int),
        forall|i: int|
            without_line_ends(text).len() <= i < text.len() ==> #[trigger] text[i] == '\n'
                || text[i] == '\r',
        without_line_ends(text).len() > 0 ==> without_line_ends(text).last() != '\n'
            && without_line_ends(text).last() != '\r',
    decreases text.len(),
{
    if text.len() > 0 && (text.last() == '\n' || text.last() == '\r') {
        law_only_line_ends_are_cut(text.drop_last());
        let rest = without_line_ends(text.drop_last());
        assert(text.take(rest.len() as int) =~= text.drop_last().take(rest.len() as int));
        assert forall|i: int| rest.len() <= i < text.len() implies #[trigger] text[i] == '\n'
            || text[i] == '\r' by {
            if i < text.len() - 1 {
                assert(text.drop_last()[i] == text[i]);
            }
        }
    } else {
        assert(text.take(text.len() as int) =~= text);
    }
}

} // verus!
