//! Why a host did not do what it was asked.

use vstd::prelude::*;

use crate::text::{decimal, digits};

verus! {

/// Why a request to a host failed.
#[derive(Debug, Clone)]
pub enum ProviderError {
    Network(String),
    /// An answer that fits none of the others.
    Api { status: u16, body: String },
    Parse(String),
    NotImplemented(&'static str),
    /// Too many requests. The time to wait is in seconds.
    RateLimited { retry_after: Option<u64> },
    /// The token is missing, or no longer good.
    Unauthorized,
    /// There is no such repository, or the token does not show it.
    NotFound,
}

/// What a request to a host comes to.
pub type ProviderResult<T> = Result<T, ProviderError>;

/// An error in words.
pub open spec fn error_text(e: ProviderError) -> Seq<char> {
    match e {
        ProviderError::Network(cause) => "network error: "@ + cause@,
        ProviderError::Api { status, body } => "api error (status "@ + digits(status as nat) + "): "@
            + body@,
        ProviderError::Parse(cause) => "failed to parse provider response: "@ + cause@,
        ProviderError::NotImplemented(what) => "not implemented for this provider yet: "@ + what@,
        ProviderError::RateLimited { retry_after } => match retry_after {
            None => "rate limited (retry after None)"@,
            Some(seconds) => "rate limited (retry after Some("@ + digits(seconds as nat) + "s))"@,
        },
        ProviderError::Unauthorized => "unauthorized — token missing or expired"@,
        ProviderError::NotFound => "not found — check the repo path or token scope"@,
    }
}

fn with(start: &str, rest: &str) -> (out: String)
    ensures
        out@ == start@ + rest@,
{
    let mut out: String = start.to_string();
    out.append(rest);
    out
}

impl ProviderError {
    /// The error in words.
    pub fn message(&self) -> (out: String)
        ensures
            out@ == error_text(*self),
    {
        match self {
            ProviderError::Network(cause) => with("network error: ", cause.as_str()),
            ProviderError::Api { status, body } => {
                let mut out = with("api error (status ", decimal(*status as u64).as_str());
                out.append("): ");
                out.append(body.as_str());
                out
            },
            ProviderError::Parse(cause) => with(
                "failed to parse provider response: ",
                cause.as_str(),
            ),
            ProviderError::NotImplemented(what) => with(
                "not implemented for this provider yet: ",
                what,
            ),
            ProviderError::RateLimited { retry_after } => match retry_after {
                None => "rate limited (retry after None)".to_string(),
                Some(seconds) => {
                    let mut out = with("rate limited (retry after Some(", decimal(*seconds).as_str());
                    out.append("s))");
                    out
                },
            },
            ProviderError::Unauthorized => "unauthorized — token missing or expired".to_string(),
            ProviderError::NotFound => "not found — check the repo path or token scope".to_string(),
        }
    }
}

/// Whether an error is what a status without a meaning of its own stands for:
/// too many requests, or the status with the body of the answer.
pub open spec fn is_other(e: ProviderError, status: u16, body: Seq<char>) -> bool {
    if status == 429 {
        e == (ProviderError::RateLimited { retry_after: None })
    } else {
        e matches ProviderError::Api { status: s, body: b } && s == status && b@ == body
    }
}

/// The error of a status without a meaning of its own.
pub fn other_status(status: u16, body: &str) -> (e: ProviderError)
    ensures
        is_other(e, status, body@),
{
    if status == 429 {
        ProviderError::RateLimited { retry_after: None }
    } else {
        ProviderError::Api { status, body: body.to_string() }
    }
}

} // verus!
