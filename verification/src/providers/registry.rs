//! One host for each kind of host.

use vstd::prelude::*;

use crate::providers::address::without_slashes;
use crate::providers::azure::AzureDevOpsProvider;
use crate::providers::bitbucket::BitbucketProvider;
use crate::providers::generic::GenericProvider;
use crate::providers::gitea::GiteaProvider;
use crate::providers::github::GitHubProvider;
use crate::providers::gitlab::GitLabProvider;
use crate::providers::types::{same_host, ProviderKind};

verus! {

/// A host, whichever it is.
#[derive(Debug, Clone)]
pub enum AnyProvider {
    GitHub(GitHubProvider),
    GitLab(GitLabProvider),
    Bitbucket(BitbucketProvider),
    AzureDevOps(AzureDevOpsProvider),
    Gitea(GiteaProvider),
    Generic(GenericProvider),
}

/// What a host may be asked for.
#[derive(Debug, Clone, Copy, PartialEq, Eq, Structural)]
pub enum Request {
    CurrentUser,
    ListAccessibleRepositories,
    CreatePullRequest,
    ListPullRequests,
    CreateIssue,
    ListIssues,
    LoadRepoTextFile,
}

/// Whether a host answers a request.
pub open spec fn answers(p: AnyProvider, r: Request) -> bool {
    p is GitHub || (p is Gitea && r == Request::CurrentUser)
}

/// The host of a kind. It is of that kind itself, unless the address of a
/// Gitea ends in slashes, which the host leaves out.
pub fn build(kind: &ProviderKind) -> (p: AnyProvider)
    ensures
        kind is GitHub ==> p is GitHub,
        kind is GitLab ==> p is GitLab,
        kind is Bitbucket ==> p is Bitbucket,
        kind is AzureDevOps ==> p is AzureDevOps,
        kind is Codeberg ==> (p matches AnyProvider::Gitea(g) && g.as_codeberg && g.wf()
            && g.instance@ == "https://codeberg.org"@),
        kind matches ProviderKind::Gitea { instance } ==> (p matches AnyProvider::Gitea(g)
            && !g.as_codeberg && g.wf() && g.instance@ == without_slashes(instance@)),
        kind matches ProviderKind::Generic { host } ==> (p matches AnyProvider::Generic(g)
            && g.host@ == host@),
        (kind matches ProviderKind::Gitea { instance } ==> without_slashes(instance@)
            == instance@) ==> same_host(kind_of(p), *kind),
{
    match kind {
        ProviderKind::GitHub => AnyProvider::GitHub(GitHubProvider::new()),
        ProviderKind::GitLab => AnyProvider::GitLab(GitLabProvider::new()),
        ProviderKind::Bitbucket => AnyProvider::Bitbucket(BitbucketProvider::new()),
        ProviderKind::AzureDevOps => AnyProvider::AzureDevOps(AzureDevOpsProvider::new()),
        ProviderKind::Codeberg => AnyProvider::Gitea(GiteaProvider::codeberg()),
        ProviderKind::Gitea { instance } => AnyProvider::Gitea(
            GiteaProvider::new(instance.as_str()),
        ),
        ProviderKind::Generic { host } => AnyProvider::Generic(GenericProvider::new(host.as_str())),
    }
}

/// What a host is, for its own answer to the question.
pub open spec fn kind_of(p: AnyProvider) -> ProviderKind {
    match p {
        AnyProvider::GitHub(_) => ProviderKind::GitHub,
        AnyProvider::GitLab(_) => ProviderKind::GitLab,
        AnyProvider::Bitbucket(_) => ProviderKind::Bitbucket,
        AnyProvider::AzureDevOps(_) => ProviderKind::AzureDevOps,
        AnyProvider::Gitea(g) => if g.as_codeberg {
            ProviderKind::Codeberg
        } else {
            ProviderKind::Gitea { instance: g.instance }
        },
        AnyProvider::Generic(g) => ProviderKind::Generic { host: g.host },
    }
}

impl AnyProvider {
    pub fn kind(&self) -> (k: ProviderKind)
        ensures
            same_host(k, kind_of(*self)),
    {
        match self {
            AnyProvider::GitHub(p) => p.kind(),
            AnyProvider::GitLab(p) => p.kind(),
            AnyProvider::Bitbucket(p) => p.kind(),
            AnyProvider::AzureDevOps(p) => p.kind(),
            AnyProvider::Gitea(p) => p.kind(),
            AnyProvider::Generic(p) => p.kind(),
        }
    }

    /// Whether the host answers a request, and what is said if it does not.
    pub fn check(&self, request: Request) -> (r: Result<(), &'static str>)
        ensures
            r is Ok <==> answers(*self, request),
            r matches Err(what) ==> what@ == request_name(request),
    {
        let ok = match self {
            AnyProvider::GitHub(_) => true,
            AnyProvider::Gitea(_) => request == Request::CurrentUser,
            _ => false,
        };
        if ok {
            Ok(())
        } else {
            Err(
                match request {
                    Request::CurrentUser => "current_user",
                    Request::ListAccessibleRepositories => "list_accessible_repositories",
                    Request::CreatePullRequest => "create_pull_request",
                    Request::ListPullRequests => "list_pull_requests",
                    Request::CreateIssue => "create_issue",
                    Request::ListIssues => "list_issues",
                    Request::LoadRepoTextFile => "load_repo_text_file",
                },
            )
        }
    }
}

/// The name of a request.
pub open spec fn request_name(r: Request) -> Seq<char> {
    match r {
        Request::CurrentUser => "current_user"@,
        Request::ListAccessibleRepositories => "list_accessible_repositories"@,
        Request::CreatePullRequest => "create_pull_request"@,
        Request::ListPullRequests => "list_pull_requests"@,
        Request::CreateIssue => "create_issue"@,
        Request::ListIssues => "list_issues"@,
        Request::LoadRepoTextFile => "load_repo_text_file"@,
    }
}

} // verus!
