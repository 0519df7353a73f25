use vstd::prelude::*;

verus! {

/// Why a client operation failed.
///
/// The taxonomy separates caller mistakes (`Config`), rejected credentials
/// (`Auth`), transport-level failures such as a non-success status
/// (`Transport`), malformed response bodies (`Protocol`), and operations that
/// name a room the local index has never seen (`NotFound`).
#[derive(Debug)]
pub enum ClientError {
    /// Malformed caller input, e.g. a homeserver address that is not an
    /// absolute URL. Fatal; never retried.
    Config,
    /// The homeserver rejected the credentials: the login status code and the
    /// raw response body, kept for diagnostics.
    Auth { status: u16, message: String },
    /// A non-success status outside of authentication. Retryable in the sync
    /// loop, fatal elsewhere.
    Transport { status: u16, message: String },
    /// A success response whose body is missing a required field or cannot be
    /// decoded. Always fatal: it indicates a client/server mismatch.
    Protocol,
    /// The target room is absent from the local room index.
    NotFound,
}

impl ClientError {
    /// Whether the sync loop may retry after this failure: only a transport
    /// failure is transient. A protocol fault, a rejected authentication, a
    /// bad configuration and an unknown room are all fatal, never retried.
    pub fn is_retryable(&self) -> (r: bool)
        ensures
            r == (self is Transport),
    {
        match self {
            ClientError::Transport { .. } => true,
            _ => false,
        }
    }

    /// A short stable tag for each variant, for display by a driver.
    pub fn tag(&self) -> (r: &'static str)
        ensures
            self is Config ==> r@ == "config"@,
            self is Auth ==> r@ == "auth"@,
            self is Transport ==> r@ == "transport"@,
            self is Protocol ==> r@ == "protocol"@,
            self is NotFound ==> r@ == "not-found"@,
    {
        match self {
            ClientError::Config => "config",
            ClientError::Auth { .. } => "auth",
            ClientError::Transport { .. } => "transport",
            ClientError::Protocol => "protocol",
            ClientError::NotFound => "not-found",
        }
    }
}

} // verus!
