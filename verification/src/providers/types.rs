//! What all hosts have in common.

use vstd::prelude::*;

verus! {

/// A host of repositories. Hosts that people run themselves carry an address.
#[derive(Debug, Clone, PartialEq, Eq, Hash)]
pub enum ProviderKind {
    GitHub,
    GitLab,
    Bitbucket,
    AzureDevOps,
    Codeberg,
    /// A Gitea of one's own, by its scheme and host.
    Gitea { instance: String },
    /// Any other host.
    Generic { host: String },
}

/// Whether two hosts are the same.
pub open spec fn same_host(a: ProviderKind, b: ProviderKind) -> bool {
    match (a, b) {
        (ProviderKind::GitHub, ProviderKind::GitHub) => true,
        (ProviderKind::GitLab, ProviderKind::GitLab) => true,
        (ProviderKind::Bitbucket, ProviderKind::Bitbucket) => true,
        (ProviderKind::AzureDevOps, ProviderKind::AzureDevOps) => true,
        (ProviderKind::Codeberg, ProviderKind::Codeberg) => true,
        (ProviderKind::Gitea { instance: x }, ProviderKind::Gitea { instance: y }) => x@ == y@,
        (ProviderKind::Generic { host: x }, ProviderKind::Generic { host: y }) => x@ == y@,
        _ => false,
    }
}

/// The short name of a host.
pub open spec fn kind_slug(kind: ProviderKind) -> Seq<char> {
    match kind {
        ProviderKind::GitHub => "github"@,
        ProviderKind::GitLab => "gitlab"@,
        ProviderKind::Bitbucket => "bitbucket"@,
        ProviderKind::AzureDevOps => "azure-devops"@,
        ProviderKind::Codeberg => "codeberg"@,
        ProviderKind::Gitea { instance } => "gitea::"@ + instance@,
        ProviderKind::Generic { host } => "generic::"@ + host@,
    }
}

fn joined(a: &str, b: &str) -> (out: String)
    ensures
        out@ == a@ + b@,
{
    let mut out: String = a.to_string();
    out.append(b);
    out
}

impl ProviderKind {
    /// The short name of a host. It stands in stored keys and never changes.
    pub fn slug(&self) -> (out: String)
        ensures
            out@ == kind_slug(*self),
    {
        match self {
            ProviderKind::GitHub => "github".to_string(),
            ProviderKind::GitLab => "gitlab".to_string(),
            ProviderKind::Bitbucket => "bitbucket".to_string(),
            ProviderKind::AzureDevOps => "azure-devops".to_string(),
            ProviderKind::Codeberg => "codeberg".to_string(),
            ProviderKind::Gitea { instance } => joined("gitea::", instance.as_str()),
            ProviderKind::Generic { host } => joined("generic::", host.as_str()),
        }
    }
}

proof fn lemma_slug_start(kind: ProviderKind)
    ensures
        kind_slug(kind).len() >= 6,
        kind_slug(kind)[0] == (match kind {
            ProviderKind::Bitbucket => 'b',
            ProviderKind::AzureDevOps => 'a',
            ProviderKind::Codeberg => 'c',
            _ => 'g',
        }),
        kind is GitHub ==> kind_slug(kind)[3] == 'h',
        kind is GitLab ==> kind_slug(kind)[3] == 'l',
        kind is Gitea ==> kind_slug(kind)[1] == 'i' && kind_slug(kind)[3] == 'e'
            && kind_slug(kind).skip(7) == kind->instance@,
        kind is Generic ==> kind_slug(kind)[1] == 'e' && kind_slug(kind)[3] == 'e'
            && kind_slug(kind).skip(9) == kind->host@,
{
    reveal_strlit("github");
    reveal_strlit("gitlab");
    reveal_strlit("bitbucket");
    reveal_strlit("azure-devops");
    reveal_strlit("codeberg");
    reveal_strlit("gitea::");
    reveal_strlit("generic::");
    match kind {
        ProviderKind::Gitea { instance } => {
            assert(kind_slug(kind).skip(7) =~= instance@);
        },
        ProviderKind::Generic { host } => {
            assert(kind_slug(kind).skip(9) =~= host@);
        },
        _ => {},
    }
}

/// Different hosts have different short names.
pub proof fn law_slugs_differ(a: ProviderKind, b: ProviderKind)
    ensures
        kind_slug(a) == kind_slug(b) <==> same_host(a, b),
{
    lemma_slug_start(a);
    lemma_slug_start(b);
    if kind_slug(a) == kind_slug(b) {
        assert(kind_slug(a)[1] == kind_slug(b)[1]);
        assert(kind_slug(a)[3] == kind_slug(b)[3]);
    }
}

/// A repository, as it is shown before it is cloned.
#[derive(Debug, Clone)]
pub struct RepoMeta {
    pub owner: String,
    pub repo: String,
    pub default_branch: String,
    pub description: Option<String>,
    pub private: bool,
    pub clone_https: String,
    pub clone_ssh: String,
}

/// A repository that an account can see.
#[derive(Debug, Clone)]
pub struct RemoteRepoSummary {
    pub owner: String,
    pub repo: String,
    pub description: Option<String>,
    pub default_branch: Option<String>,
    pub private: bool,
    pub clone_https: String,
    pub clone_ssh: String,
    pub web_url: String,
}

/// What owns a repository.
#[derive(Debug, Clone, Copy, PartialEq, Eq, Structural)]
pub enum RemoteRepoOwnerKind {
    User,
    Organization,
}

/// Someone who can own a repository.
#[derive(Debug, Clone, PartialEq, Eq)]
pub struct RemoteRepoOwner {
    pub login: String,
    pub display_name: String,
    pub kind: RemoteRepoOwnerKind,
}

/// A repository to be made.
#[derive(Debug, Clone)]
pub struct CreateRepositoryDraft {
    pub owner: String,
    pub owner_kind: RemoteRepoOwnerKind,
    pub name: String,
    pub description: Option<String>,
    pub private: bool,
    pub auto_init: bool,
}

/// A repository that was made.
#[derive(Debug, Clone)]
pub struct CreatedRepositoryRef {
    pub owner: String,
    pub repo: String,
    pub description: Option<String>,
    pub default_branch: Option<String>,
    pub private: bool,
    pub clone_https: String,
    pub clone_ssh: String,
    pub web_url: String,
}

/// How an account signs in.
#[derive(Debug, Clone, Copy, PartialEq, Eq, Structural)]
pub enum AuthMethod {
    OAuth,
    Pat,
    Ssh,
}

/// An account, by its host and its user. Its secret is kept under it.
#[derive(Debug, Clone, PartialEq, Eq, Hash)]
pub struct AccountId {
    pub kind: ProviderKind,
    pub username: String,
}

impl AccountId {
    /// The name under which the account's secrets are kept: the first half
    /// of the key.
    pub open spec fn service(self) -> Seq<char> {
        "mergefox::"@ + kind_slug(self.kind)
    }

    /// The second half of the key: the user, and the host once more.
    pub open spec fn user(self) -> Seq<char> {
        self.username@ + "@"@ + kind_slug(self.kind)
    }

    /// The account in words, such as `github::alice`.
    pub fn slug(&self) -> (out: String)
        ensures
            out@ == kind_slug(self.kind) + "::"@ + self.username@,
    {
        let mut out = self.kind.slug();
        out.append("::");
        out.append(self.username.as_str());
        out
    }

    /// The first half of the key of the account's secret.
    pub fn keyring_service(&self) -> (out: String)
        ensures
            out@ == self.service(),
    {
        joined("mergefox::", self.kind.slug().as_str())
    }

    /// The second half of the key of the account's secret, such as
    /// `alice@github`.
    pub fn keyring_user(&self) -> (out: String)
        ensures
            out@ == self.user(),
    {
        let mut out: String = self.username.clone();
        out.append("@");
        out.append(self.kind.slug().as_str());
        out
    }
}

/// Two accounts have the same key only if they are the same account.
pub proof fn law_accounts_have_their_own_keys(a: AccountId, b: AccountId)
    ensures
        a.service() == b.service() && a.user() == b.user() <==> same_host(a.kind, b.kind)
            && a.username@ == b.username@,
{
    law_slugs_differ(a.kind, b.kind);
    if a.service() == b.service() && a.user() == b.user() {
        assert(a.service().skip("mergefox::"@.len() as int) =~= kind_slug(a.kind));
        assert(b.service().skip("mergefox::"@.len() as int) =~= kind_slug(b.kind));
        assert(a.user().len() == a.username@.len() + "@"@.len() + kind_slug(a.kind).len());
        assert(b.user().len() == b.username@.len() + "@"@.len() + kind_slug(b.kind).len());
        assert(a.user().take(a.username@.len() as int) =~= a.username@);
        assert(b.user().take(b.username@.len() as int) =~= b.username@);
    }
}

/// One user has keys on different hosts that differ in their second halves
/// alone.
pub proof fn law_users_do_not_collide(a: AccountId, b: AccountId)
    requires
        a.username@ == b.username@,
        !same_host(a.kind, b.kind),
    ensures
        a.user() != b.user(),
{
    law_slugs_differ(a.kind, b.kind);
    let n = (a.username@ + "@"@).len() as int;
    assert(a.user().skip(n) =~= kind_slug(a.kind));
    assert(b.user().skip(n) =~= kind_slug(b.kind));
}

/// An account as it is written to the settings. No secret is part of it.
#[derive(Debug, Clone)]
pub struct ProviderAccount {
    pub id: AccountId,
    pub display_name: String,
    pub avatar_url: Option<String>,
    pub method: AuthMethod,
    pub created_unix: i64,
    /// The private key to use where the account goes over SSH.
    pub ssh_key_path: Option<String>,
}

/// The user behind a token.
#[derive(Debug, Clone)]
pub struct ProviderProfile {
    pub username: String,
    pub display_name: String,
    pub avatar_url: Option<String>,
}

/// Where and as what the device flow asks.
#[derive(Debug, Clone)]
pub struct OAuthDeviceConfig {
    pub device_auth_url: String,
    pub token_url: String,
    pub client_id: String,
    pub scope: String,
}

/// Which pull requests are asked for, or what one is.
#[derive(Debug, Clone, Copy, PartialEq, Eq, Structural)]
pub enum PrState {
    Open,
    Closed,
    All,
}

impl PrState {
    /// The name of a state in requests.
    pub fn as_api_str(self) -> (r: &'static str)
        ensures
            r@ == (match self {
                PrState::Open => "open"@,
                PrState::Closed => "closed"@,
                PrState::All => "all"@,
            }),
    {
        match self {
            PrState::Open => "open",
            PrState::Closed => "closed",
            PrState::All => "all",
        }
    }
}

/// Which issues are asked for, or what one is.
#[derive(Debug, Clone, Copy, PartialEq, Eq, Structural)]
pub enum IssueState {
    Open,
    Closed,
    All,
}

impl IssueState {
    /// The name of a state in requests.
    pub fn as_api_str(self) -> (r: &'static str)
        ensures
            r@ == (match self {
                IssueState::Open => "open"@,
                IssueState::Closed => "closed"@,
                IssueState::All => "all"@,
            }),
    {
        match self {
            IssueState::Open => "open",
            IssueState::Closed => "closed",
            IssueState::All => "all",
        }
    }
}

/// A pull request to be made.
#[derive(Debug, Clone)]
pub struct PullRequestDraft {
    pub owner: String,
    pub repo: String,
    pub title: String,
    pub body: String,
    pub head: String,
    pub base: String,
    pub draft: bool,
}

/// A pull request that was made.
#[derive(Debug, Clone)]
pub struct PullRequestRef {
    pub number: u64,
    pub title: String,
    pub url: String,
}

/// A pull request of a list.
#[derive(Debug, Clone)]
pub struct PullRequestSummary {
    pub number: u64,
    pub title: String,
    pub body: Option<String>,
    pub author: String,
    pub url: String,
    pub is_draft: bool,
    pub state: PrState,
    pub head_ref: String,
    pub base_ref: String,
}

/// An issue to be made.
#[derive(Debug, Clone)]
pub struct IssueDraft {
    pub owner: String,
    pub repo: String,
    pub title: String,
    pub body: String,
}

/// An issue that was made.
#[derive(Debug, Clone)]
pub struct IssueRef {
    pub number: u64,
    pub title: String,
    pub url: String,
}

/// An issue of a list.
#[derive(Debug, Clone)]
pub struct IssueSummary {
    pub number: u64,
    pub title: String,
    pub body: Option<String>,
    pub author: String,
    pub url: String,
    pub state: IssueState,
    pub labels: Vec<String>,
    pub assignees: Vec<String>,
}

} // verus!
