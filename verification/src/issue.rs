//! Records of what a validation found wrong.

use crate::cabin::Entity;
use std::collections::BTreeSet;
use uuid::Uuid;
use vstd::prelude::*;

verus! {

/// `uuid::Uuid`, a universally unique identifier of 128 bits. Nothing is
/// known of a value of it but what `uuid_bits` says.
#[verifier::external_type_specification]
#[verifier::external_body]
pub struct ExUuid(uuid::Uuid);

/// The 128 bits of a UUID, as `Uuid::as_u128` gives them: its sixteen bytes
/// read as one number, the first byte the most significant.
pub uninterp spec fn uuid_bits(id: Uuid) -> u128;

/// `Uuid::from_u128` makes the UUID whose sixteen bytes are those of `bits`,
/// the most significant first, so that `as_u128` gives `bits` back.
#[verifier::external_body]
pub(crate) fn uuid_from_u128(bits: u128) -> (id: Uuid)
    ensures
        uuid_bits(id) == bits,
{
    Uuid::from_u128(bits)
}

/// `Uuid::as_u128` reads the sixteen bytes of the UUID as one number, the
/// first byte the most significant.
#[verifier::external_body]
pub(crate) fn uuid_as_u128(id: &Uuid) -> (bits: u128)
    ensures
        bits == uuid_bits(*id),
{
    id.as_u128()
}

/// The bits of the UUID that marks an issue as one of lifts that share a
/// name.
pub const DUPLICATED_LIFT_NAME_ISSUE_BITS: u128 = 0x307e81822d8d4b62b20f2503955f1032u128;

/// What tells one issue from another: the kind of issue, and the entities
/// that it is about.
#[derive(Debug, PartialEq, Eq)]
pub struct IssueKey {
    pub entities: BTreeSet<Entity>,
    pub kind: Uuid,
}

/// Something that a validation found wrong.
#[derive(Debug, PartialEq, Eq)]
pub struct Issue {
    pub key: IssueKey,
    /// What is wrong, in a line.
    pub brief: String,
    /// What to do about it.
    pub hint: String,
}

/// What an issue is, with its entities as a set and its kind as a number.
pub struct IssueView {
    pub entities: Set<Entity>,
    pub kind: u128,
    pub brief: Seq<char>,
    pub hint: Seq<char>,
}

impl View for Issue {
    type V = IssueView;

    open spec fn view(&self) -> IssueView {
        IssueView {
            entities: self.key.entities@,
            kind: uuid_bits(self.key.kind),
            brief: self.brief@,
            hint: self.hint@,
        }
    }
}

/// The UUID that marks an issue as one of lifts that share a name.
pub fn duplicated_lift_name_issue_uuid() -> (id: Uuid)
    ensures
        uuid_bits(id) == DUPLICATED_LIFT_NAME_ISSUE_BITS,
{
    uuid_from_u128(DUPLICATED_LIFT_NAME_ISSUE_BITS)
}

impl Issue {
    /// The kind of the issue, as a number.
    pub fn kind_bits(&self) -> (bits: u128)
        ensures
            bits == self@.kind,
    {
        uuid_as_u128(&self.key.kind)
    }
}

} // verus!
