use vstd::prelude::*;

verus! {

/// Why creating a collaboration group was refused.
#[derive(Debug, Clone)]
pub enum CreateGroupFailedReason {
    /// The stored metadata records another workspace than the caller's.
    CollabWorkspaceIdNotMatch { expect: String, actual: String, detail: String },
    CannotGetCollabData,
}

/// Errors of the realtime collaboration core. Causes raised by outside
/// collaborators (codec, storage, stream transport) are carried as their
/// message, so that callers match on the category alone.
#[derive(Debug, Clone)]
pub enum RealtimeError {
    YSync(String),
    YAwareness(String),
    YrsDecodingError(String),
    SerdeError(String),
    TokioTask(String),
    IO(String),
    UnexpectedData(String),
    ExpectInitSync(String),
    CollabError(String),
    NotEnoughPermissionToWrite(i64),
    NotEnoughPermissionToRead(i64),
    UserNotFound(String),
    GroupNotFound(String),
    CreateGroupFailed(CreateGroupFailedReason),
    NoRequiredCollabData(String),
    TooManyMessage(String),
    LockTimeout,
    Internal(String),
    StreamError(String),
    CannotCreateGroup(String),
    BincodeEncode(String),
    CreateSnapshotFailed(String),
    GetLatestSnapshotFailed(String),
    CollabSchemaError(String),
    Lease(String),
    SendWSMessageFailed(String),
    Uuid(String),
}

impl CreateGroupFailedReason {
    /// The human-readable description of the reason.
    pub fn message(&self) -> (r: String)
        ensures
            match self {
                CreateGroupFailedReason::CollabWorkspaceIdNotMatch { expect, actual, detail } => r@
                    == "Collab workspace id not match: expect "@ + expect@ + ", actual: "@ + actual@
                    + ", detail: "@ + detail@,
                CreateGroupFailedReason::CannotGetCollabData => r@ == "Cannot get collab data"@,
            },
    {
        match self {
            CreateGroupFailedReason::CollabWorkspaceIdNotMatch { expect, actual, detail } => {
                let mut s = String::new();
                s.append("Collab workspace id not match: expect ");
                s.append(expect.as_str());
                s.append(", actual: ");
                s.append(actual.as_str());
                s.append(", detail: ");
                s.append(detail.as_str());
                s
            },
            CreateGroupFailedReason::CannotGetCollabData => String::from_str("Cannot get collab data"),
        }
    }
}

impl RealtimeError {
    /// A client sent more messages than it is allowed to.
    pub fn is_too_many_message(&self) -> (r: bool)
        ensures
            r == (self is TooManyMessage),
    {
        matches!(self, RealtimeError::TooManyMessage(_))
    }

    /// A lock could not be acquired in time.
    pub fn is_lock_timeout(&self) -> (r: bool)
        ensures
            r == (self is LockTimeout),
    {
        matches!(self, RealtimeError::LockTimeout)
    }

    /// Group creation was refused.
    pub fn is_create_group_failed(&self) -> (r: bool)
        ensures
            r == (self is CreateGroupFailed),
    {
        matches!(self, RealtimeError::CreateGroupFailed(_))
    }
}

} // verus!
