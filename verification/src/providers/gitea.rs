//! Gitea, on a host of one's own or as Codeberg.

use vstd::prelude::*;

use crate::providers::address::{lemma_without_slashes, trim_slashes, without_slashes};
use crate::providers::error::{is_other, other_status, ProviderError};
use crate::providers::types::{ProviderKind, ProviderProfile, RepoMeta};

verus! {

/// A Gitea.
#[derive(Debug, Clone)]
pub struct GiteaProvider {
    /// The address of the instance, without a slash at its end.
    pub instance: String,
    /// Whether it goes by the name of Codeberg.
    pub as_codeberg: bool,
}

/// A user in an answer.
#[derive(Debug, Clone)]
pub struct UserResp {
    pub login: String,
    pub full_name: Option<String>,
    pub avatar_url: Option<String>,
}

impl GiteaProvider {
    /// Whether the address ends in no slash.
    pub open spec fn wf(self) -> bool {
        self.instance@.len() > 0 ==> self.instance@.last() != '/'
    }

    /// A Gitea at an address.
    pub fn new(instance: &str) -> (p: GiteaProvider)
        ensures
            p.wf(),
            p.instance@ == without_slashes(instance@),
            !p.as_codeberg,
    {
        proof {
            lemma_without_slashes(instance@);
        }
        GiteaProvider { instance: trim_slashes(instance), as_codeberg: false }
    }

    /// Codeberg.
    pub fn codeberg() -> (p: GiteaProvider)
        ensures
            p.wf(),
            p.instance@ == "https://codeberg.org"@,
            p.as_codeberg,
    {
        proof {
            reveal_strlit("https://codeberg.org");
        }
        GiteaProvider { instance: "https://codeberg.org".to_string(), as_codeberg: true }
    }

    pub fn kind(&self) -> (k: ProviderKind)
        ensures
            self.as_codeberg ==> k is Codeberg,
            !self.as_codeberg ==> (k matches ProviderKind::Gitea { instance } && instance@
                == self.instance@),
    {
        if self.as_codeberg {
            ProviderKind::Codeberg
        } else {
            ProviderKind::Gitea { instance: self.instance.clone() }
        }
    }

    pub fn display_name(&self) -> (r: &'static str)
        ensures
            r@ == (if self.as_codeberg {
                "Codeberg"@
            } else {
                "Gitea"@
            }),
    {
        if self.as_codeberg {
            "Codeberg"
        } else {
            "Gitea"
        }
    }

    /// The host to reach over SSH. That of one's own instance is not known.
    pub fn default_ssh_host(&self) -> (r: &'static str)
        ensures
            r@ == (if self.as_codeberg {
                "codeberg.org"@
            } else {
                ""@
            }),
    {
        if self.as_codeberg {
            "codeberg.org"
        } else {
            ""
        }
    }

    pub fn api_base(&self) -> (out: String)
        ensures
            out@ == self.instance@ + "/api/v1"@,
    {
        let mut out: String = self.instance.clone();
        out.append("/api/v1");
        out
    }

    /// The request for the user behind a token.
    pub fn user_url(&self) -> (out: String)
        ensures
            out@ == self.instance@ + "/api/v1"@ + "/user"@,
    {
        let mut out = self.api_base();
        out.append("/user");
        out
    }

    /// Repositories cannot be looked up here yet.
    pub fn discover_repo(&self) -> (r: Result<RepoMeta, ProviderError>)
        ensures
            r matches Err(ProviderError::NotImplemented(why)) && why@
                == "Gitea discover_repo stub — needs per-instance TLS testing before enabling."@,
    {
        Err(
            ProviderError::NotImplemented(
                "Gitea discover_repo stub — needs per-instance TLS testing before enabling.",
            ),
        )
    }
}

/// What the status of an answer means.
pub fn map_status(status: u16, body: &str) -> (r: Result<(), ProviderError>)
    ensures
        status == 200 ==> r is Ok,
        status == 401 || status == 403 ==> r == Err::<(), ProviderError>(
            ProviderError::Unauthorized,
        ),
        status == 404 ==> r == Err::<(), ProviderError>(ProviderError::NotFound),
        status != 200 && status != 401 && status != 403 && status != 404 ==> (r matches Err(e)
            && is_other(e, status, body@)),
{
    match status {
        200 => Ok(()),
        401 | 403 => Err(ProviderError::Unauthorized),
        404 => Err(ProviderError::NotFound),
        _ => Err(other_status(status, body)),
    }
}

/// The user behind a token.
pub fn profile(user: UserResp) -> (p: ProviderProfile)
    ensures
        p.username@ == user.login@,
        p.display_name@ == (match user.full_name {
            Some(n) => n@,
            None => user.login@,
        }),
        p.avatar_url == user.avatar_url,
{
    let username = user.login.clone();
    let display_name = match user.full_name {
        Some(n) => n,
        None => user.login,
    };
    ProviderProfile { username, display_name, avatar_url: user.avatar_url }
}

} // verus!
