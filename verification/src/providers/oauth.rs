//! Signing in with a code that is entered in a browser.

use vstd::prelude::*;

use crate::providers::address::{trim_slashes, without_slashes};
use crate::providers::error::{is_other, other_status, ProviderError};
use crate::providers::types::OAuthDeviceConfig;
use crate::text::{opt_view, same};

verus! {

/// The answer that starts a sign-in.
#[derive(Debug, Clone)]
pub struct DeviceCodeResponse {
    pub device_code: String,
    pub user_code: String,
    pub verification_uri: String,
    pub verification_uri_complete: Option<String>,
    pub expires_in: u64,
    /// The seconds between two questions.
    pub interval: u64,
}

/// The seconds between two questions where the host names none.
pub fn default_interval() -> (n: u64)
    ensures
        n == 5,
{
    5
}

/// What a sign-in ends in.
#[derive(Clone)]
pub struct TokenResponse {
    pub access_token: String,
    pub token_type: String,
    pub scope: Option<String>,
    pub refresh_token: Option<String>,
    pub expires_in: Option<u64>,
}

/// Whether a status is that of a success.
pub open spec fn is_success(status: u16) -> bool {
    200 <= status < 300
}

/// What the status of the answer that starts a sign-in means.
pub fn start_reply(status: u16, body: &str) -> (r: Result<(), ProviderError>)
    ensures
        is_success(status) ==> r is Ok,
        !is_success(status) ==> (r matches Err(e) && is_other(e, status, body@)),
{
    if 200 <= status && status < 300 {
        Ok(())
    } else {
        Err(other_status(status, body))
    }
}

/// A span of time, in seconds and nanoseconds.
#[derive(Debug, Clone, Copy, PartialEq, Eq, Structural)]
pub struct Span {
    pub secs: u64,
    pub nanos: u32,
}

/// How many seconds a sign-in is waited for.
pub const MAX_WAIT_SECS: u64 = 900;

/// What is done after an answer.
pub enum PollStep {
    /// Ask again after the interval.
    Wait,
    Done(TokenResponse),
    Failed(ProviderError),
}

/// A sign-in that waits for its user, with the time between two questions.
#[derive(Debug, Clone, Copy)]
pub struct DevicePoll {
    pub interval: Span,
}

/// Whether a step is what an error of the host comes to.
pub open spec fn error_step(error: Seq<char>, status: u16, step: PollStep) -> bool {
    if error == "authorization_pending"@ || error == "slow_down"@ {
        step == PollStep::Wait
    } else if error == "access_denied"@ {
        step == PollStep::Failed(ProviderError::Unauthorized)
    } else if error == "expired_token"@ {
        step matches PollStep::Failed(ProviderError::Api { status: s, body }) && s == status && body@
            == "device code expired; restart the flow"@
    } else {
        step matches PollStep::Failed(e) && is_other(e, status, "oauth error: "@ + error)
    }
}

/// Whether a step is what an answer comes to: a success with a token ends the
/// sign-in, else the error of the answer decides, and an answer with neither
/// is itself the error, by its status.
pub open spec fn reply_step(
    status: u16,
    token: Option<TokenResponse>,
    error: Option<Seq<char>>,
    body: Seq<char>,
    step: PollStep,
) -> bool {
    if is_success(status) && token is Some {
        step == PollStep::Done(token->0)
    } else {
        match error {
            Some(e) => error_step(e, status, step),
            None => step matches PollStep::Failed(e) && is_other(e, status, body),
        }
    }
}

/// The interval after an answer: a host that asks for patience gets five
/// seconds more.
pub open spec fn next_interval(
    interval: Span,
    status: u16,
    token: Option<TokenResponse>,
    error: Option<Seq<char>>,
) -> Span {
    if !(is_success(status) && token is Some) && error == Some("slow_down"@) {
        Span { secs: (interval.secs + 5) as u64, nanos: interval.nanos }
    } else {
        interval
    }
}

impl DevicePoll {
    /// A sign-in with the interval that the host named.
    pub fn new(interval: Span) -> (p: DevicePoll)
        ensures
            p.interval == interval,
    {
        DevicePoll { interval }
    }

    /// Whether to ask once more after so much time, or why not. The next
    /// question comes after the interval.
    pub fn check_time(&self, elapsed: Span) -> (r: Result<Span, ProviderError>)
        ensures
            elapsed.secs > 900 || (elapsed.secs == 900 && elapsed.nanos > 0) ==> (r matches Err(
                ProviderError::Api { status, body },
            ) && status == 408 && body@ == "device flow polling exceeded local timeout"@),
            elapsed.secs < 900 || (elapsed.secs == 900 && elapsed.nanos == 0) ==> r == Ok::<
                Span,
                ProviderError,
            >(self.interval),
    {
        if elapsed.secs > MAX_WAIT_SECS || (elapsed.secs == MAX_WAIT_SECS && elapsed.nanos > 0) {
            return Err(
                ProviderError::Api {
                    status: 408,
                    body: "device flow polling exceeded local timeout".to_string(),
                },
            );
        }
        Ok(self.interval)
    }

    /// What is done after an answer, in whose body a token and an error were
    /// looked for. A host that asks for patience gets five seconds more
    /// between any two questions from now on.
    pub fn on_reply(
        &mut self,
        status: u16,
        token: Option<TokenResponse>,
        error: Option<String>,
        body: String,
    ) -> (step: PollStep)
        requires
            old(self).interval.secs <= u64::MAX - 5,
        ensures
            reply_step(status, token, opt_view(error), body@, step),
            final(self).interval == next_interval(
                old(self).interval,
                status,
                token,
                opt_view(error),
            ),
    {
        proof {
            reveal_strlit("authorization_pending");
            reveal_strlit("slow_down");
            reveal_strlit("access_denied");
            reveal_strlit("expired_token");
            assert("authorization_pending"@.len() != "slow_down"@.len());
        }
        let succeeded = 200 <= status && status < 300;
        if succeeded {
            if let Some(t) = token {
                return PollStep::Done(t);
            }
        }
        match error {
            None => PollStep::Failed(other_status(status, body.as_str())),
            Some(text) => {
                let e: &str = text.as_str();
                if same(e, "authorization_pending") {
                    PollStep::Wait
                } else if same(e, "slow_down") {
                    self.interval = Span {
                        secs: self.interval.secs + 5,
                        nanos: self.interval.nanos,
                    };
                    PollStep::Wait
                } else if same(e, "access_denied") {
                    PollStep::Failed(ProviderError::Unauthorized)
                } else if same(e, "expired_token") {
                    PollStep::Failed(
                        ProviderError::Api {
                            status,
                            body: "device code expired; restart the flow".to_string(),
                        },
                    )
                } else {
                    let mut message: String = "oauth error: ".to_string();
                    message.append(e);
                    PollStep::Failed(other_status(status, message.as_str()))
                }
            },
        }
    }
}

/// Where and as what GitHub is asked.
pub fn github_device_config() -> (c: OAuthDeviceConfig)
    ensures
        c.device_auth_url@ == "https://github.com/login/device/code"@,
        c.token_url@ == "https://github.com/login/oauth/access_token"@,
        c.client_id@ == "178c6fc778ccc68e1d6a"@,
        c.scope@ == "repo read:org read:user"@,
{
    OAuthDeviceConfig {
        device_auth_url: "https://github.com/login/device/code".to_string(),
        token_url: "https://github.com/login/oauth/access_token".to_string(),
        client_id: "178c6fc778ccc68e1d6a".to_string(),
        scope: "repo read:org read:user".to_string(),
    }
}

/// Where a Gitea is asked, as a client that its users name.
pub fn gitea_device_config(instance_base: &str, client_id: String) -> (c: OAuthDeviceConfig)
    ensures
        c.device_auth_url@ == without_slashes(instance_base@) + "/login/oauth/device/authorize"@,
        c.token_url@ == without_slashes(instance_base@) + "/login/oauth/access_token"@,
        c.client_id == client_id,
        c.scope@ == "write:repository"@,
{
    let base = trim_slashes(instance_base);
    let mut device_auth_url: String = base.clone();
    device_auth_url.append("/login/oauth/device/authorize");
    let mut token_url: String = base;
    token_url.append("/login/oauth/access_token");
    OAuthDeviceConfig {
        device_auth_url,
        token_url,
        client_id,
        scope: "write:repository".to_string(),
    }
}

/// The time between two questions never gets shorter, and gets longer only
/// where the host asks again for patience.
pub proof fn law_interval_grows(
    interval: Span,
    status: u16,
    token: Option<TokenResponse>,
    error: Option<Seq<char>>,
    body: Seq<char>,
    step: PollStep,
)
    requires
        interval.secs <= u64::MAX - 5,
        reply_step(status, token, error, body, step),
    ensures
        next_interval(interval, status, token, error).secs >= interval.secs,
        next_interval(interval, status, token, error) != interval ==> step == PollStep::Wait,
{
}

/// An answer to a question about a sign-in, by its contents.
pub struct Reply {
    pub status: u16,
    pub token: Option<TokenResponse>,
    pub error: Option<Seq<char>>,
}

/// Whether an answer asks for patience.
pub open spec fn asks_for_patience(reply: Reply) -> bool {
    !(is_success(reply.status) && reply.token is Some) && reply.error == Some("slow_down"@)
}

/// How many of the answers ask for patience.
pub open spec fn patience_count(replies: Seq<Reply>) -> nat
    decreases replies.len(),
{
    if replies.len() == 0 {
        0
    } else {
        patience_count(replies.drop_last()) + (if asks_for_patience(replies.last()) {
            1nat
        } else {
            0
        })
    }
}

/// The interval after some answers, one after the other.
pub open spec fn interval_after(interval: Span, replies: Seq<Reply>) -> Span
    decreases replies.len(),
{
    if replies.len() == 0 {
        interval
    } else {
        let last = replies.last();
        next_interval(
            interval_after(interval, replies.drop_last()),
            last.status,
            last.token,
            last.error,
        )
    }
}

/// Over a whole sign-in, the time between two questions is the first one and
/// five seconds for each answer so far that asked for patience.
pub proof fn law_interval_counts_patience(interval: Span, replies: Seq<Reply>)
    requires
        interval.secs + 5 * patience_count(replies) <= u64::MAX,
    ensures
        interval_after(interval, replies).secs == interval.secs + 5 * patience_count(replies),
        interval_after(interval, replies).nanos == interval.nanos,
    decreases replies.len(),
{
    if replies.len() > 0 {
        law_interval_counts_patience(interval, replies.drop_last());
    }
}

} // verus!
