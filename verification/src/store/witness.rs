//! A high-water mark kept outside the database, so that a database that was restored to an
//! earlier state is noticed.

use crate::ids::Uuid;
use crate::numbers::{parse_u64, to_decimal};
use crate::store::model::Store;
use crate::text::{chars_of, text_of};
use vstd::prelude::*;

verus! {

/// The longest text that a witness may hold.
pub const MAX_WITNESS_LEN: usize = 24;

/// Why the witness is not satisfied.
#[derive(Clone, Copy, Debug, PartialEq, Eq, Structural)]
pub enum WitnessError {
    /// An established database has lost its witness.
    Missing,
    /// The database is behind its witness.
    StaleDatabase,
    /// The witness cannot be read or may not be trusted.
    Storage(WitnessFault),
}

/// What is wrong with the file of a witness.
#[derive(Clone, Copy, Debug, PartialEq, Eq, Structural)]
pub enum WitnessFault {
    NotAFile,
    Permissions,
    TooLarge,
    NotANumber,
    Path,
}

impl WitnessError {
    /// The description of an error.
    pub open spec fn spec_message(self) -> Seq<char> {
        match self {
            WitnessError::Missing => "restore witness missing for established database"@,
            WitnessError::StaleDatabase => "database revision below external restore witness"@,
            WitnessError::Storage(_) => "restore witness storage unavailable"@,
        }
    }

    /// Describes an error in words.
    pub fn message(self) -> (words: &'static str)
        ensures
            words@ == self.spec_message(),
    {
        match self {
            WitnessError::Missing => "restore witness missing for established database",
            WitnessError::StaleDatabase => "database revision below external restore witness",
            WitnessError::Storage(_) => "restore witness storage unavailable",
        }
    }
}

/// What the witness demands for a revision: nothing, a new mark, or refusal. Without a mark
/// only a pristine database at its first revision is accepted.
pub open spec fn witness_verdict(prior: Option<u64>, revision: u64, pristine: bool) -> Result<
    Option<u64>,
    WitnessError,
> {
    match prior {
        None => if revision == 1 && pristine {
            Ok(Some(revision))
        } else {
            Err(WitnessError::Missing)
        },
        Some(mark) => if mark > revision {
            Err(WitnessError::StaleDatabase)
        } else if mark == revision {
            Ok(None)
        } else {
            Ok(Some(revision))
        },
    }
}

/// Compares the database with the witness: the mark to write, if any, or the refusal.
pub fn verify_and_advance(prior: Option<u64>, revision: u64, pristine: bool) -> (verdict: Result<
    Option<u64>,
    WitnessError,
>)
    ensures
        verdict == witness_verdict(prior, revision, pristine),
{
    match prior {
        None => {
            if revision != 1 || !pristine {
                return Err(WitnessError::Missing);
            }
            Ok(Some(revision))
        },
        Some(mark) => {
            if mark > revision {
                return Err(WitnessError::StaleDatabase);
            }
            if mark == revision {
                Ok(None)
            } else {
                Ok(Some(revision))
            }
        },
    }
}

/// The mark that a witness holds after a verdict.
pub open spec fn mark_after(prior: Option<u64>, revision: u64, pristine: bool) -> Option<u64> {
    match witness_verdict(prior, revision, pristine) {
        Ok(Some(mark)) => Some(mark),
        _ => prior,
    }
}

/// The mark never falls, and an accepted database leaves it at exactly its revision.
pub proof fn law_witness_never_falls(prior: Option<u64>, revision: u64, pristine: bool)
    ensures
        prior matches Some(mark) ==> (mark_after(prior, revision, pristine) matches Some(next)
            && next >= mark),
        witness_verdict(prior, revision, pristine) is Ok ==> mark_after(prior, revision, pristine)
            == Some(revision),
{
}

/// Once a database was accepted, every earlier revision is refused from then on.
pub proof fn law_restored_database_is_refused(
    prior: Option<u64>,
    revision: u64,
    pristine: bool,
    restored: u64,
    restored_pristine: bool,
)
    requires
        witness_verdict(prior, revision, pristine) is Ok,
        restored < revision,
    ensures
        witness_verdict(mark_after(prior, revision, pristine), restored, restored_pristine) == Err::<
            Option<u64>,
            WitnessError,
        >(WitnessError::StaleDatabase),
{
}

/// A text without the newlines that it closes with.
pub open spec fn without_newlines(text: Seq<char>) -> Seq<char>
    decreases text.len(),
{
    if text.len() > 0 && text.last() == '\n' {
        without_newlines(text.drop_last())
    } else {
        text
    }
}

/// ASCII bytes as characters.
pub open spec fn ascii_text(bytes: Seq<u8>) -> Seq<char> {
    bytes.map_values(|byte: u8| byte as char)
}

/// The mark that the file of a witness holds: a regular file that only its owner has access to,
/// of at most 24 bytes, with a decimal number.
pub open spec fn witness_mark(is_file: bool, mode: u32, bytes: Seq<u8>) -> Result<
    nat,
    WitnessFault,
> {
    if !is_file {
        Err(WitnessFault::NotAFile)
    } else if mode & 0o077u32 != 0 {
        Err(WitnessFault::Permissions)
    } else if bytes.len() > MAX_WITNESS_LEN {
        Err(WitnessFault::TooLarge)
    } else if exists|i: int| 0 <= i < bytes.len() && #[trigger] bytes[i] >= 128 {
        Err(WitnessFault::NotANumber)
    } else {
        match crate::numbers::decimal(without_newlines(ascii_text(bytes)), u64::MAX as nat) {
            Some(mark) => Ok(mark),
            None => Err(WitnessFault::NotANumber),
        }
    }
}

/// Takes the newlines away that a text closes with.
fn trim_newlines(text: &str) -> (trimmed: String)
    ensures
        trimmed@ == without_newlines(text@),
{
    let chars: Vec<char> = chars_of(text);
    let mut end: usize = chars.len();
    proof {
        assert(chars@.take(end as int) =~= text@);
    }
    while end > 0 && chars[end - 1] == '\n'
        invariant
            end <= chars@.len(),
            without_newlines(chars@.take(end as int)) == without_newlines(text@),
        decreases end,
    {
        proof {
            assert(chars@.take(end as int).drop_last() =~= chars@.take(end - 1));
        }
        end -= 1;
    }
    proof {
        assert(chars@.take(end as int) =~= chars@.subrange(0, end as int));
    }
    text_of(&chars, 0, end)
}

/// Reads the mark out of the file of a witness.
pub fn read_revision(is_file: bool, mode: u32, bytes: &Vec<u8>) -> (outcome: Result<
    u64,
    WitnessFault,
>)
    ensures
        match outcome {
            Ok(mark) => witness_mark(is_file, mode, bytes@) == Ok::<nat, WitnessFault>(mark as nat),
            Err(fault) => witness_mark(is_file, mode, bytes@) == Err::<nat, WitnessFault>(fault),
        },
{
    if !is_file {
        return Err(WitnessFault::NotAFile);
    }
    if mode & 0o077u32 != 0 {
        return Err(WitnessFault::Permissions);
    }
    if bytes.len() > MAX_WITNESS_LEN {
        return Err(WitnessFault::TooLarge);
    }
    let mut text: String = String::new();
    let mut i: usize = 0;
    while i < bytes.len()
        invariant
            i <= bytes@.len(),
            is_file,
            mode & 0o077u32 == 0,
            bytes@.len() <= MAX_WITNESS_LEN,
            text@ == ascii_text(bytes@).take(i as int),
            forall|j: int| 0 <= j < i ==> #[trigger] bytes@[j] < 128,
        decreases bytes@.len() - i,
    {
        let byte: u8 = bytes[i];
        if byte >= 128 {
            return Err(WitnessFault::NotANumber);
        }
        text.push(byte as char);
        i += 1;
        proof {
            assert(text@ =~= ascii_text(bytes@).take(i as int));
        }
    }
    proof {
        assert(ascii_text(bytes@).take(bytes@.len() as int) =~= ascii_text(bytes@));
    }
    let trimmed: String = trim_newlines(text.as_str());
    match parse_u64(trimmed.as_str()) {
        Some(mark) => Ok(mark),
        None => Err(WitnessFault::NotANumber),
    }
}

/// Writes the text of a witness: the mark and a newline.
pub fn witness_text(mark: u64) -> (text: String)
    ensures
        text@ == crate::numbers::decimal_text(mark as nat).push('\n'),
{
    let mut text: String = to_decimal(mark);
    text.push('\n');
    text
}

/// The name of the file that a new mark is written to before it replaces the old one.
pub fn temporary_name(token: Uuid) -> (name: String)
    ensures
        name@ == ".bloom-relay-witness-"@ + token.spec_text(),
{
    crate::text::joined(".bloom-relay-witness-", token.to_text().as_str())
}

/// A path without what it closes with and names nothing: slashes, and components that stand for
/// the directory itself.
pub open spec fn path_core(path: Seq<char>) -> Seq<char>
    decreases path.len(),
{
    if path.len() > 0 && path.last() == '/' {
        path_core(path.drop_last())
    } else if path.len() > 1 && path.last() == '.' && path[path.len() - 2] == '/' {
        path_core(path.drop_last())
    } else {
        path
    }
}

/// A path that a witness can be kept at: absolute, and closing with the name of a file.
pub open spec fn valid_witness_path(path: Seq<char>) -> bool {
    let core = path_core(path);
    &&& path.len() > 0
    &&& path[0] == '/'
    &&& core.len() > 0
    &&& !(core.len() >= 3 && core[core.len() - 1] == '.' && core[core.len() - 2] == '.'
        && core[core.len() - 3] == '/')
}

/// Where the witness of a database is kept.
#[derive(Debug, PartialEq, Eq)]
pub struct RestoreWitness {
    pub path: String,
}

impl RestoreWitness {
    /// A witness at an absolute path that names a file.
    pub fn new(path: String) -> (outcome: Result<Self, WitnessFault>)
        ensures
            match outcome {
                Ok(witness) => valid_witness_path(path@) && witness.path == path,
                Err(fault) => !valid_witness_path(path@) && fault == WitnessFault::Path,
            },
    {
        let chars: Vec<char> = chars_of(path.as_str());
        if chars.len() == 0 || chars[0] != '/' {
            return Err(WitnessFault::Path);
        }
        let mut end: usize = chars.len();
        proof {
            assert(chars@.take(end as int) =~= path@);
        }
        while end > 0 && (chars[end - 1] == '/' || (end > 1 && chars[end - 1] == '.' && chars[end
            - 2] == '/'))
            invariant
                end <= chars@.len(),
                path_core(chars@.take(end as int)) == path_core(path@),
            decreases end,
        {
            proof {
                assert(chars@.take(end as int).drop_last() =~= chars@.take(end - 1));
            }
            end -= 1;
        }
        proof {
            assert(path_core(path@) == chars@.take(end as int));
        }
        if end == 0 || (end >= 3 && chars[end - 1] == '.' && chars[end - 2] == '.' && chars[end - 3]
            == '/') {
            return Err(WitnessFault::Path);
        }
        Ok(RestoreWitness { path })
    }
}

impl Store {
    /// The revision of the database.
    pub fn restore_revision(&self) -> (revision: u64)
        ensures
            revision == self@.revision,
    {
        self.revision
    }

    /// Whether the database has never held an installation nor followed a feed.
    pub fn restore_pristine(&self) -> (pristine: bool)
        requires
            self.well_formed(),
        ensures
            pristine == (self@.installations == Map::<
                Uuid,
                crate::store::model::InstallationView,
            >::empty() && self@.ct.checkpoints == Map::<
                Seq<char>,
                crate::store::model::Checkpoint,
            >::empty()),
    {
        let empty: bool = self.installations.is_empty();
        proof {
            if empty {
                assert(self@.installations =~= Map::empty());
            } else {
                if self@.installations == Map::<
                    Uuid,
                    crate::store::model::InstallationView,
                >::empty() {
                    assert forall|id: Uuid| !self.installations@.dom().contains(id) by {
                        assert(!self@.installations.dom().contains(id));
                    }
                    assert(self.installations@ =~= Map::empty());
                }
            }
        }
        empty && self.ct.checkpoints.is_empty()
    }
}

/// Ten to a power.
spec fn power_of_ten(exponent: nat) -> nat
    decreases exponent,
{
    if exponent == 0 {
        1
    } else {
        10 * power_of_ten((exponent - 1) as nat)
    }
}

/// A number below a power of ten has no more digits than the power.
proof fn lemma_decimal_len(value: nat, digits: nat)
    requires
        digits >= 1,
        value < power_of_ten(digits),
    ensures
        crate::numbers::decimal_text(value).len() <= digits,
    decreases digits,
{
    reveal_with_fuel(power_of_ten, 2);
    if value >= 10 {
        lemma_decimal_len(value / 10, (digits - 1) as nat);
    }
}

/// Reading a witness that was written gives the mark back.
pub proof fn law_witness_round_trip(mark: u64, mode: u32, bytes: Seq<u8>)
    requires
        mode & 0o077u32 == 0,
        forall|i: int| 0 <= i < bytes.len() ==> #[trigger] bytes[i] < 128,
        ascii_text(bytes) == crate::numbers::decimal_text(mark as nat).push('\n'),
    ensures
        witness_mark(true, mode, bytes) == Ok::<nat, WitnessFault>(mark as nat),
{
    let digits = crate::numbers::decimal_text(mark as nat);
    assert(power_of_ten(20) > u64::MAX) by {
        reveal_with_fuel(power_of_ten, 21);
    }
    lemma_decimal_len(mark as nat, 20);
    assert(ascii_text(bytes).drop_last() =~= digits);
    crate::numbers::law_decimal_round_trip(mark as nat);
    crate::numbers::lemma_decimal_digits(mark as nat);
    assert(crate::text::CharClass::Digit.holds(digits[digits.len() - 1]));
    assert(digits.last() != '\n');
    reveal_with_fuel(without_newlines, 2);
    assert(without_newlines(ascii_text(bytes)) == digits);
}

/// A text without its closing newlines is its beginning up to the last other character.
pub proof fn law_only_newlines_are_cut(text: Seq<char>)
    ensures
        without_newlines(text).len() <= text.len(),
        without_newlines(text) == text.take(without_newlines(text).len() as int),
        forall|i: int| without_newlines(text).len() <= i < text.len() ==> #[trigger] text[i] == '\n',
        without_newlines(text).len() > 0 ==> without_newlines(text).last() != '\n',
    decreases text.len(),
{
    if text.len() > 0 && text.last() == '\n' {
        law_only_newlines_are_cut(text.drop_last());
        let rest = without_newlines(text.drop_last());
        assert(text.take(rest.len() as int) =~= text.drop_last().take(rest.len() as int));
        assert forall|i: int| rest.len() <= i < text.len() implies #[trigger] text[i] == '\n' by {
            if i < text.len() - 1 {
                assert(text.drop_last()[i] == text[i]);
            }
        }
    } else {
        assert(text.take(text.len() as int) =~= text);
    }
}

/// A mark is read exactly out of a regular file that none but its owner has access to, of at most
/// 24 bytes, all ASCII, that hold a number before their closing newlines.
pub proof fn law_mark_is_read_of_a_private_file(is_file: bool, mode: u32, bytes: Seq<u8>)
    ensures
        ({
            let outcome = witness_mark(is_file, mode, bytes);
            let text = bytes.map_values(|byte: u8| byte as char);
            let ascii = forall|i: int| 0 <= i < bytes.len() ==> #[trigger] bytes[i] < 128;
            let number = crate::numbers::decimal(without_newlines(text), u64::MAX as nat);
            &&& outcome is Ok <==> is_file && mode & 0o077u32 == 0 && bytes.len() <= 24 && ascii
                && number is Some
            &&& outcome is Ok ==> Some(outcome->Ok_0) == number
            &&& !is_file ==> outcome->Err_0 is NotAFile
            &&& is_file && mode & 0o077u32 != 0 ==> outcome->Err_0 is Permissions
            &&& is_file && mode & 0o077u32 == 0 && bytes.len() > 24 ==> outcome->Err_0 is TooLarge
        }),
{
    if exists|i: int| 0 <= i < bytes.len() && #[trigger] bytes[i] >= 128 {
        let i = choose|i: int| 0 <= i < bytes.len() && #[trigger] bytes[i] >= 128;
        assert(!(bytes[i] < 128));
    }
}

/// A witness is kept at an absolute path that closes with the name of a file. Slashes behind it,
/// and components that name nothing, make no difference; a root and a parent are no files.
pub proof fn law_witness_path_names_a_file(path: Seq<char>)
    ensures
        path.len() == 0 || path[0] != '/' ==> !valid_witness_path(path),
        path.len() > 0 && path[0] == '/' && path.last() != '/' && path.last() != '.'
            ==> valid_witness_path(path),
        path.len() > 0 ==> valid_witness_path(path.push('/')) == valid_witness_path(path),
        path.len() > 0 && path.last() == '/' ==> valid_witness_path(path.push('.'))
            == valid_witness_path(path),
        path.len() > 0 && path.last() == '/' ==> !valid_witness_path(path.push('.').push('.')),
        path.len() == 1 && path[0] == '/' ==> !valid_witness_path(path),
{
    reveal_with_fuel(path_core, 3);
    assert(path.push('/').drop_last() =~= path);
    assert(path.push('.').drop_last() =~= path);
    if path.len() == 1 && path[0] == '/' {
        assert(path.drop_last() =~= Seq::<char>::empty());
    }
}

/// Every refusal of a witness is described in its own words.
pub proof fn law_refusals_are_described(fault: WitnessFault)
    ensures
        WitnessError::Missing.spec_message() == "restore witness missing for established database"@,
        WitnessError::StaleDatabase.spec_message()
            == "database revision below external restore witness"@,
        WitnessError::Storage(fault).spec_message() == "restore witness storage unavailable"@,
{
}

} // verus!
