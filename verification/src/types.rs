//! Identifiers, backend tags and errors.

use vstd::prelude::*;

use crate::outside::is_random_uuid;
use crate::outside::new_uuid;
use crate::outside::uuid_text;
use crate::outside::uuid_to_string;

verus! {

/// Identifies a query.
#[derive(Debug, Clone, Copy, PartialEq, Eq, Hash, Structural)]
pub struct QueryId(pub u128);

/// Identifies a committed snapshot of a dataset.
#[derive(Debug, Clone, Copy, PartialEq, Eq, Hash, Structural)]
pub struct SnapshotId(pub u128);

/// Identifies a dataset.
#[derive(Debug, Clone, Copy, PartialEq, Eq, Hash, Structural)]
pub struct DatasetId(pub u128);

/// Identifies a proof.
#[derive(Debug, Clone, Copy, PartialEq, Eq, Hash, Structural)]
pub struct ProofId(pub u128);

impl QueryId {
    /// A random identifier.
    pub fn new() -> (r: QueryId)
        ensures
            is_random_uuid(r.0),
    {
        QueryId(new_uuid())
    }

    /// The identifier as text.
    pub fn to_string(&self) -> (r: String)
        ensures
            r@ == uuid_text(self.0),
    {
        uuid_to_string(self.0)
    }
}

impl SnapshotId {
    /// A random identifier.
    pub fn new() -> (r: SnapshotId)
        ensures
            is_random_uuid(r.0),
    {
        SnapshotId(new_uuid())
    }

    /// The identifier as text.
    pub fn to_string(&self) -> (r: String)
        ensures
            r@ == uuid_text(self.0),
    {
        uuid_to_string(self.0)
    }
}

impl DatasetId {
    /// A random identifier.
    pub fn new() -> (r: DatasetId)
        ensures
            is_random_uuid(r.0),
    {
        DatasetId(new_uuid())
    }
}

impl ProofId {
    /// A random identifier.
    pub fn new() -> (r: ProofId)
        ensures
            is_random_uuid(r.0),
    {
        ProofId(new_uuid())
    }

    /// The identifier as text.
    pub fn to_string(&self) -> (r: String)
        ensures
            r@ == uuid_text(self.0),
    {
        uuid_to_string(self.0)
    }
}

/// The backend that made a proof.
#[derive(Debug, Clone, Copy, PartialEq, Eq, Structural)]
pub enum BackendTag {
    Mock,
    ConstraintChecked,
    Plonky2,
}

impl BackendTag {
    /// The name under which the backend is reported.
    pub open spec fn label(self) -> Seq<char> {
        match self {
            BackendTag::Mock => "mock"@,
            BackendTag::ConstraintChecked => "constraint_checked"@,
            BackendTag::Plonky2 => "plonky2"@,
        }
    }

    /// The name of the variant.
    pub open spec fn variant(self) -> &'static str {
        match self {
            BackendTag::Mock => "Mock",
            BackendTag::ConstraintChecked => "ConstraintChecked",
            BackendTag::Plonky2 => "Plonky2",
        }
    }

    /// The name under which the backend is reported.
    pub fn to_string(&self) -> (r: String)
        ensures
            r@ == self.label(),
    {
        let s: &str = match self {
            BackendTag::Mock => "mock",
            BackendTag::ConstraintChecked => "constraint_checked",
            BackendTag::Plonky2 => "plonky2",
        };
        s.to_owned()
    }

    /// The name of the variant.
    pub fn variant_name(&self) -> (r: &'static str)
        ensures
            r == self.variant(),
    {
        match self {
            BackendTag::Mock => "Mock",
            BackendTag::ConstraintChecked => "ConstraintChecked",
            BackendTag::Plonky2 => "Plonky2",
        }
    }
}

/// What can go wrong.
#[derive(Debug)]
pub enum ZkDbError {
    /// A plan could not be made.
    QueryPlan(String),
    /// A proof could not be made.
    Proving(String),
    /// Anything else.
    Internal(String),
}

impl ZkDbError {
    /// What the error says.
    pub open spec fn text(self) -> Seq<char> {
        match self {
            ZkDbError::QueryPlan(m) => m@,
            ZkDbError::Proving(m) => m@,
            ZkDbError::Internal(m) => m@,
        }
    }

    /// What the error says.
    pub fn message(&self) -> (r: &str)
        ensures
            r@ == self.text(),
    {
        match self {
            ZkDbError::QueryPlan(m) => m.as_str(),
            ZkDbError::Proving(m) => m.as_str(),
            ZkDbError::Internal(m) => m.as_str(),
        }
    }
}

/// A result, or what went wrong.
pub type ZkResult<T> = Result<T, ZkDbError>;

} // verus!
