//! Failures of the store, and the four kinds of failure that a caller of a
//! service tells apart.

use vstd::prelude::*;

verus! {

/// Why the store refused a statement or could not carry it out.
#[derive(Clone, Copy, Debug, PartialEq, Eq, Structural, Hash)]
pub enum DbErr {
    /// A row with the same key, or the same value in a unique column, is
    /// already there.
    UniqueViolation,
    /// The row refers to a row that is not there.
    ForeignKeyViolation,
    /// The store could not be reached, or a transaction could not be
    /// completed.
    Unavailable,
    /// A stored value could not be read back as what it should be.
    Decode,
}

/// What a failure means to the caller of a service. The first three are
/// outcomes to branch on; the last is an outage.
#[derive(Clone, Copy, Debug, PartialEq, Eq, Structural, Hash)]
pub enum ErrorKind {
    /// A row that the operation refers to is absent.
    NotFound,
    /// The caller is neither an admin of the group nor the author of the post,
    /// as the operation requires.
    Unauthorized,
    /// The operation would store a second row where only one may be.
    Conflict,
    /// The store failed.
    Infra,
}

impl DbErr {
    /// A unique violation is a conflict; every other failure of the store is
    /// a failure of infrastructure, a broken reference included: the
    /// services look a referenced row up before they write, so a missing
    /// one means that it vanished in between.
    pub open spec fn spec_kind(self) -> ErrorKind {
        match self {
            DbErr::UniqueViolation => ErrorKind::Conflict,
            _ => ErrorKind::Infra,
        }
    }

    #[verifier::when_used_as_spec(spec_kind)]
    pub fn kind(self) -> (r: ErrorKind)
        ensures
            r == self.spec_kind(),
    {
        match self {
            DbErr::UniqueViolation => ErrorKind::Conflict,
            DbErr::ForeignKeyViolation => ErrorKind::Infra,
            DbErr::Unavailable => ErrorKind::Infra,
            DbErr::Decode => ErrorKind::Infra,
        }
    }
}

} // verus!
