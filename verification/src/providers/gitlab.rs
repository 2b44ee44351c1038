//! GitLab: its requests, and what its answers mean.

use vstd::prelude::*;

use crate::providers::address::{clone_https, clone_ssh, https_address, ssh_address};
use crate::providers::error::{is_other, other_status, ProviderError};
use crate::providers::types::{ProviderKind, RepoMeta};
use crate::text::same;

verus! {

/// GitLab.
#[derive(Debug, Clone, Copy)]
pub struct GitLabProvider;

impl GitLabProvider {
    pub fn new() -> (p: GitLabProvider)
        ensures
            p == GitLabProvider,
    {
        GitLabProvider
    }

    pub fn kind(&self) -> (k: ProviderKind)
        ensures
            k is GitLab,
    {
        ProviderKind::GitLab
    }

    pub fn display_name(&self) -> (r: &'static str)
        ensures
            r@ == "GitLab"@,
    {
        "GitLab"
    }

    pub fn default_ssh_host(&self) -> (r: &'static str)
        ensures
            r@ == "gitlab.com"@,
    {
        "gitlab.com"
    }

    pub fn api_base(&self) -> (out: String)
        ensures
            out@ == "https://gitlab.com/api/v4"@,
    {
        "https://gitlab.com/api/v4".to_string()
    }

    /// The request for a project. Its path is one segment, so the slash in it
    /// is escaped.
    pub fn discover_url(&self, owner: &str, repo: &str) -> (out: String)
        ensures
            out@ == "https://gitlab.com/api/v4"@ + "/projects/"@ + owner@ + "%2F"@ + repo@,
    {
        let mut out = self.api_base();
        out.append("/projects/");
        out.append(owner);
        out.append("%2F");
        out.append(repo);
        out
    }
}

impl Default for GitLabProvider {
    fn default() -> (p: GitLabProvider)
        ensures
            p == GitLabProvider,
    {
        GitLabProvider::new()
    }
}

/// A project in an answer.
#[derive(Debug, Clone)]
pub struct ProjectResp {
    pub path: String,
    /// The full path of what the project belongs to.
    pub namespace: String,
    pub default_branch: Option<String>,
    pub description: Option<String>,
    pub visibility: String,
    pub ssh_url_to_repo: Option<String>,
    pub http_url_to_repo: Option<String>,
}

/// What the status of an answer means.
pub fn map_status(status: u16, body: &str) -> (r: Result<(), ProviderError>)
    ensures
        status == 200 ==> r is Ok,
        status == 401 ==> r == Err::<(), ProviderError>(ProviderError::Unauthorized),
        status == 404 ==> r == Err::<(), ProviderError>(ProviderError::NotFound),
        status != 200 && status != 401 && status != 404 ==> (r matches Err(e) && is_other(
            e,
            status,
            body@,
        )),
{
    match status {
        200 => Ok(()),
        401 => Err(ProviderError::Unauthorized),
        404 => Err(ProviderError::NotFound),
        _ => Err(other_status(status, body)),
    }
}

/// A project as a repository. The addresses are those that the host gives;
/// where it gives none, they follow from the project's name. What is not
/// public is private.
pub fn repo_meta(p: ProjectResp) -> (m: RepoMeta)
    ensures
        m.owner@ == p.namespace@,
        m.repo@ == p.path@,
        m.default_branch@ == (match p.default_branch {
            Some(b) => b@,
            None => "main"@,
        }),
        m.description == p.description,
        m.private == (p.visibility@ != "public"@),
        m.clone_https@ == (match p.http_url_to_repo {
            Some(url) => url@,
            None => https_address("gitlab.com"@, p.namespace@, p.path@),
        }),
        m.clone_ssh@ == (match p.ssh_url_to_repo {
            Some(url) => url@,
            None => ssh_address("gitlab.com"@, p.namespace@, p.path@),
        }),
{
    let https = match p.http_url_to_repo {
        Some(url) => url,
        None => clone_https("gitlab.com", p.namespace.as_str(), p.path.as_str()),
    };
    let ssh = match p.ssh_url_to_repo {
        Some(url) => url,
        None => clone_ssh("gitlab.com", p.namespace.as_str(), p.path.as_str()),
    };
    let branch = match p.default_branch {
        Some(b) => b,
        None => "main".to_string(),
    };
    RepoMeta {
        owner: p.namespace,
        repo: p.path,
        default_branch: branch,
        description: p.description,
        private: !same(p.visibility.as_str(), "public"),
        clone_https: https,
        clone_ssh: ssh,
    }
}

} // verus!
