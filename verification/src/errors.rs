use vstd::prelude::*;

verus! {

/// A request-scoped failure of the resolver or the auth gate. Never fatal
/// to the service: each maps to one client-visible status.
#[derive(Debug)]
pub enum RequestError {
    /// The requested path does not name an artifact: it lacks the
    /// `.tar.xz` suffix.
    InvalidFile { file_name: String },
    /// The requested channel is not in the current snapshot.
    NoSuchChannel { channel_name: String },
    /// The presigning configuration could not be built.
    PresignConfigFailure,
    /// The store refused to presign a request for this object.
    PresignFailure { object_key: String },
    /// The inbound credential was missing or failed verification. The
    /// reason is for the log only and is never sent to the caller.
    InvalidToken { reason: String },
    /// Any other internal failure.
    Unknown,
}

impl RequestError {
    /// The HTTP-level status this failure presents as: missing channels
    /// and invalid paths are not-found, signing failures are internal,
    /// credential failures are unauthorized.
    pub fn status_code(&self) -> (r: u16)
        ensures
            r == match self {
                RequestError::InvalidFile { .. } => 404u16,
                RequestError::NoSuchChannel { .. } => 404u16,
                RequestError::PresignConfigFailure => 500u16,
                RequestError::PresignFailure { .. } => 500u16,
                RequestError::InvalidToken { .. } => 401u16,
                RequestError::Unknown => 500u16,
            },
    {
        match self {
            RequestError::InvalidFile { .. } => 404,
            RequestError::NoSuchChannel { .. } => 404,
            RequestError::PresignConfigFailure => 500,
            RequestError::PresignFailure { .. } => 500,
            RequestError::InvalidToken { .. } => 401,
            RequestError::Unknown => 500,
        }
    }
}

/// A failure of the update protocol, surfaced to the invoking caller.
#[derive(Debug)]
pub enum UpdateError {
    /// The supplied file does not end in the artifact suffix. Rejected
    /// before any store mutation.
    InvalidFileName { file_name: String },
    /// The target channel does not exist in the freshly loaded
    /// configuration. Rejected before any store mutation.
    NoSuchChannel { channel_name: String },
    /// Uploading the artifact failed; the channel was left untouched.
    UploadFailed { object_key: String },
    /// The artifact was uploaded but writing the advanced descriptor
    /// failed: the tarball is leaked in the store and must be removed
    /// manually if that is an issue.
    LeakedArtifact { channel_name: String, object_key: String },
}

} // verus!
