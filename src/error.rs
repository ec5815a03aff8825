use vstd::prelude::*;

verus! {

/// Why one attempt of a sync task failed.
#[derive(Debug)]
pub enum Error {
    /// The destination store refused a write.
    Database(String),
    /// The queue refused a command.
    Redis(String),
    /// No queue connection could be had from the pool.
    RedisPool(String),
    /// The HTTP exchange with the platform failed.
    Http(String),
    /// A response did not have the expected JSON shape.
    Json(String),
    /// The platform answered with a non-zero code.
    Api { code: i32, message: String },
    /// No credential is available for the account.
    Credential,
    /// Any other failure, described in words.
    Custom(String),
}

impl Error {
    /// Whether another attempt may succeed where this one failed. A missing
    /// credential is a configuration problem and is never retried.
    pub open spec fn retryable_spec(&self) -> bool {
        !(self is Credential)
    }

    pub fn is_retryable(&self) -> (r: bool)
        ensures
            r == self.retryable_spec(),
    {
        match self {
            Error::Credential => false,
            _ => true,
        }
    }

    /// The platform code carried by an `Api` error; it selects the backoff
    /// that runs before the next attempt.
    pub fn api_code(&self) -> (r: Option<i32>)
        ensures
            r == match self {
                Error::Api { code, .. } => Some(*code),
                _ => None,
            },
    {
        match self {
            Error::Api { code, .. } => Some(*code),
            _ => None,
        }
    }
}

} // verus!
