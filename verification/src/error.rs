//! The ways in which a synchronisation run can fail.

use vstd::prelude::*;

verus! {

/// Why a run stopped before its end.
#[derive(Clone, Copy, Debug, PartialEq, Eq, Structural)]
pub enum SyncError {
    /// The remote host could not be reached at all.
    RemoteUnavailable,
    /// The remote host refused the request because too many were made.
    /// A caller may wait and try again rather than give up.
    RateLimited,
    /// The remote host answered, but not with what was asked for.
    RemoteProtocolError,
    /// The snapshot has no leading directory to strip.
    ArchiveFormatError,
    /// Reading, writing or removing a local file failed.
    LocalIoError,
}

impl SyncError {
    /// True of the one failure after which trying again later is advised.
    pub open spec fn spec_is_transient(&self) -> bool {
        *self == SyncError::RateLimited
    }

    /// Whether the caller may defer the run rather than abort it for good.
    #[verifier::when_used_as_spec(spec_is_transient)]
    pub fn is_transient(&self) -> (transient: bool)
        ensures
            transient == self.spec_is_transient(),
    {
        match self {
            SyncError::RateLimited => true,
            _ => false,
        }
    }

    /// The text shown to a person for each failure.
    pub open spec fn spec_message(&self) -> Seq<char> {
        match self {
            SyncError::RemoteUnavailable => "Could not reach GitHub."@,
            SyncError::RateLimited => "GitHub API Rate Limit Exceeded. Please try again later."@,
            SyncError::RemoteProtocolError => "GitHub sent an unexpected answer."@,
            SyncError::ArchiveFormatError => "The downloaded archive has no top-level folder."@,
            SyncError::LocalIoError => "A file in the mod folder could not be read or changed."@,
        }
    }

    /// A sentence that describes the failure.
    pub fn message(&self) -> (text: String)
        ensures
            text@ == self.spec_message(),
    {
        match self {
            SyncError::RemoteUnavailable => "Could not reach GitHub.".to_owned(),
            SyncError::RateLimited => "GitHub API Rate Limit Exceeded. Please try again later.".to_owned(),
            SyncError::RemoteProtocolError => "GitHub sent an unexpected answer.".to_owned(),
            SyncError::ArchiveFormatError => "The downloaded archive has no top-level folder.".to_owned(),
            SyncError::LocalIoError => "A file in the mod folder could not be read or changed.".to_owned(),
        }
    }
}

} // verus!
