use vstd::prelude::*;
use crate::canonical::{canonical_bytes, canonical_json};
use crate::decimal::{decimal_from_str, parse_decimal};
use crate::digest::{digest_view, digests_equal, sha256_digest, sha256_of};
use crate::json::{distinct_keys, lemma_member_order_is_immaterial, members_view, Json, JsonObject};
use crate::text::str_eq;

verus! {

/// Why a record was turned down.
#[derive(Clone, Copy, Debug, PartialEq, Eq, Structural)]
pub enum ValidationError {
    /// The version marker is missing, not a string, or not the supported one.
    UnsupportedVersion,
    /// The recomputed commitment differs from the expected one.
    CommitmentMismatch,
}

impl ValidationError {
    /// What went wrong, in words.
    pub fn message(&self) -> (text: &'static str)
        ensures
            text@ == match self {
                ValidationError::UnsupportedVersion => "version number missing or unsupported"@,
                ValidationError::CommitmentMismatch =>
                    "commitment does not match expected commitment"@,
            },
    {
        match self {
            ValidationError::UnsupportedVersion => "version number missing or unsupported",
            ValidationError::CommitmentMismatch => "commitment does not match expected commitment",
        }
    }
}

/// A record resolved through a name's network address: a JSON object.
#[derive(Debug, PartialEq)]
pub struct WebRecord(pub JsonObject);

/// Whether a record with this content declares the one supported version:
/// its `version` member is the string `0.0.1`.
pub open spec fn version_supported(content: Map<Seq<char>, Json>) -> bool {
    content.contains_key("version"@) && content["version"@] == Json::String("0.0.1"@)
}

/// The commitment of a record with this content: the SHA-256 digest of its
/// canonical serialization. `None` where the record has no canonical
/// serialization, or SHA-256 is not defined for a message of that length.
pub open spec fn commitment_of(content: Map<Seq<char>, Json>) -> Option<Seq<u8>> {
    match canonical_json(content) {
        Some(canonical) => sha256_of(canonical),
        None => None,
    }
}

/// Whether a record with this content has a commitment and it is `expected`.
pub open spec fn commitment_matches(content: Map<Seq<char>, Json>, expected: Seq<u8>) -> bool {
    commitment_of(content) == Some(expected)
}

/// What validation makes of a record with this content: the version is
/// looked at first, the commitment only where one is expected.
pub open spec fn validation_of(content: Map<Seq<char>, Json>, expected: Option<Seq<u8>>) -> Result<
    (),
    ValidationError,
> {
    if !version_supported(content) {
        Err(ValidationError::UnsupportedVersion)
    } else if expected is Some && !commitment_matches(content, expected->0) {
        Err(ValidationError::CommitmentMismatch)
    } else {
        Ok(())
    }
}

/// The string at the `telegram` member of a record with this content.
pub open spec fn telegram_of(content: Map<Seq<char>, Json>) -> Option<Seq<char>> {
    if content.contains_key("telegram"@) && content["telegram"@] is String {
        Some(content["telegram"@]->String_0)
    } else {
        None
    }
}

/// The object at the `introductions` member of a record with this content.
pub open spec fn introductions_of(content: Map<Seq<char>, Json>) -> Option<Map<Seq<char>, Json>> {
    if content.contains_key("introductions"@) && content["introductions"@] is Object {
        Some(content["introductions"@]->Object_0)
    } else {
        None
    }
}

/// The member of an introductions object that states the fee for `handle`:
/// the one with that key where there is one, else the one with the key `fee`.
pub open spec fn fee_entry(introductions: Map<Seq<char>, Json>, handle: Seq<char>) -> Option<
    Json,
> {
    if introductions.contains_key(handle) {
        Some(introductions[handle])
    } else if introductions.contains_key("fee"@) {
        Some(introductions["fee"@])
    } else {
        None
    }
}

/// The fee that a record with this content states for `handle`: the entry
/// chosen by `fee_entry`, where it is a string that reads as a decimal number.
pub open spec fn introduction_fee_of(content: Map<Seq<char>, Json>, handle: Seq<char>) -> Option<
    rust_decimal::Decimal,
> {
    match introductions_of(content) {
        Some(introductions) => match fee_entry(introductions, handle) {
            Some(Json::String(text)) => decimal_from_str(text),
            _ => None,
        },
        None => None,
    }
}

/// The outcome of comparing a record's commitment with the expected one.
pub fn check_commitment(actual: &Option<[u8; 32]>, expected: &[u8; 32]) -> (outcome: Result<
    (),
    ValidationError,
>)
    ensures
        outcome == if digest_view(*actual) == Some(expected@) {
            Ok::<(), ValidationError>(())
        } else {
            Err(ValidationError::CommitmentMismatch)
        },
{
    match actual {
        Some(digest) => if digests_equal(digest, expected) {
            Ok(())
        } else {
            Err(ValidationError::CommitmentMismatch)
        },
        None => Err(ValidationError::CommitmentMismatch),
    }
}

impl WebRecord {
    /// The content of the record, as a map from keys to contents.
    pub open spec fn view(&self) -> Map<Seq<char>, Json> {
        self.0@
    }

    /// Whether the record declares the supported version.
    pub fn version_ok(&self) -> (ok: bool)
        ensures
            ok == version_supported(self@),
    {
        match self.0.get("version") {
            Some(value) => match value.as_str() {
                Some(text) => str_eq(text, "0.0.1"),
                None => false,
            },
            None => false,
        }
    }

    /// The record's commitment: the SHA-256 digest of its canonical
    /// serialization. `None` where the record cannot be serialized, or the
    /// serialization is too long for SHA-256 to be defined.
    pub fn commitment(&self) -> (digest: Option<[u8; 32]>)
        ensures
            digest_view(digest) == commitment_of(self@),
    {
        match canonical_bytes(&self.0) {
            Some(canonical) => sha256_digest(canonical.as_slice()),
            None => None,
        }
    }

    /// Whether the record's commitment is `expected`.
    pub fn commitment_ok(&self, expected: &[u8; 32]) -> (ok: bool)
        ensures
            ok == commitment_matches(self@, expected@),
    {
        match self.commitment() {
            Some(digest) => digests_equal(&digest, expected),
            None => false,
        }
    }

    /// Validates the record: its version must be the supported one, and
    /// where a commitment is expected the record's own must equal it.
    pub fn validate(&self, expected_commitment: Option<&[u8; 32]>) -> (outcome: Result<
        (),
        ValidationError,
    >)
        ensures
            outcome == validation_of(
                self@,
                match expected_commitment {
                    Some(expected) => Some(expected@),
                    None => None,
                },
            ),
    {
        if !self.version_ok() {
            return Err(ValidationError::UnsupportedVersion);
        }
        match expected_commitment {
            Some(expected) => check_commitment(&self.commitment(), expected),
            None => Ok(()),
        }
    }

    /// The record's telegram handle: the `telegram` member, where it is a
    /// string.
    pub fn telegram(&self) -> (handle: Option<&str>)
        ensures
            match handle {
                Some(text) => telegram_of(self@) == Some(text@),
                None => telegram_of(self@) is None,
            },
    {
        match self.0.get("telegram") {
            Some(value) => value.as_str(),
            None => None,
        }
    }

    /// The record's introductions: the `introductions` member, where it is
    /// an object.
    pub fn introductions(&self) -> (found: Option<&JsonObject>)
        ensures
            match found {
                Some(object) => introductions_of(self@) == Some(object@),
                None => introductions_of(self@) is None,
            },
    {
        match self.0.get("introductions") {
            Some(value) => value.as_object(),
            None => None,
        }
    }

    /// The fee for an introduction through `handle`: the member of the
    /// introductions with that key, or else the member `fee`, read as a
    /// decimal number. `None` where there are no introductions, neither
    /// member exists, or the one found is not a string that reads as a
    /// decimal number.
    pub fn introduction_fee(&self, handle: &str) -> (fee: Option<rust_decimal::Decimal>)
        ensures
            fee == introduction_fee_of(self@, handle@),
    {
        let introductions = match self.introductions() {
            Some(object) => object,
            None => {
                return None;
            },
        };
        let entry = match introductions.get(handle) {
            Some(value) => Some(value),
            None => introductions.get("fee"),
        };
        match entry {
            Some(value) => match value.as_str() {
                Some(text) => parse_decimal(text),
                None => None,
            },
            None => None,
        }
    }

    /// The fee for an introduction by telegram: the `telegram` member of the
    /// introductions, or else their `fee` member.
    pub fn introductions_telegram_fee(&self) -> (fee: Option<rust_decimal::Decimal>)
        ensures
            fee == introduction_fee_of(self@, "telegram"@),
    {
        self.introduction_fee("telegram")
    }
}

/// Records with the same content have the same commitment, however their
/// members are ordered in memory.
pub proof fn lemma_commitment_is_of_content(first: WebRecord, second: WebRecord)
    requires
        first@ == second@,
    ensures
        commitment_of(first@) == commitment_of(second@),
        forall|expected: Seq<u8>|
            commitment_matches(first@, expected) == commitment_matches(second@, expected),
        forall|expected: Option<Seq<u8>>|
            validation_of(first@, expected) == validation_of(second@, expected),
{
}

/// The commitment of a record does not depend on the order of its members:
/// where no key occurs twice, a record that holds the same members in any
/// other order has the same commitment.
pub proof fn lemma_commitment_ignores_member_order(record: WebRecord, reordered: WebRecord)
    requires
        distinct_keys(members_view(record.0.members@)),
        members_view(record.0.members@).to_multiset() == members_view(
            reordered.0.members@,
        ).to_multiset(),
    ensures
        record@ == reordered@,
        commitment_of(record@) == commitment_of(reordered@),
{
    lemma_member_order_is_immaterial(
        members_view(record.0.members@),
        members_view(reordered.0.members@),
    );
}

/// A record's own commitment, where it has one, is the one digest that
/// matches the record.
pub proof fn lemma_own_commitment_matches(record: WebRecord, digest: Seq<u8>)
    requires
        commitment_of(record@) == Some(digest),
    ensures
        commitment_matches(record@, digest),
        forall|other: Seq<u8>| other != digest ==> !commitment_matches(record@, other),
        validation_of(record@, Some(digest)) is Ok <==> version_supported(record@),
{
}

/// Without an expected commitment, a record is valid exactly when it
/// declares the supported version, whatever else it holds.
pub proof fn lemma_validation_without_commitment(record: WebRecord)
    ensures
        validation_of(record@, None) is Ok <==> version_supported(record@),
        !version_supported(record@) ==> validation_of(record@, None) == Err::<
            (),
            ValidationError,
        >(ValidationError::UnsupportedVersion),
{
}

/// A record that declares the supported version is turned down for its
/// commitment exactly when its own is not the expected one.
pub proof fn lemma_mismatch_is_reported(record: WebRecord, expected: Seq<u8>)
    requires
        version_supported(record@),
        commitment_of(record@) != Some(expected),
    ensures
        validation_of(record@, Some(expected)) == Err::<(), ValidationError>(
            ValidationError::CommitmentMismatch,
        ),
{
}

/// A record that does not declare the supported version is turned down for
/// that, whatever commitment is expected.
pub proof fn lemma_version_is_checked_first(record: WebRecord, expected: Option<Seq<u8>>)
    requires
        !version_supported(record@),
    ensures
        validation_of(record@, expected) == Err::<(), ValidationError>(
            ValidationError::UnsupportedVersion,
        ),
{
}

} // verus!
