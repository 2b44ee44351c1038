//! GitHub: its requests, and what its answers mean.

use vstd::prelude::*;

use crate::providers::address::{
    clone_https, clone_ssh, https_address, repo_address, repo_url, ssh_address, under,
};
use crate::providers::error::{is_other, other_status, ProviderError};
use crate::providers::types::{
    CreateRepositoryDraft, CreatedRepositoryRef, IssueState, IssueSummary, PrState, ProviderKind,
    ProviderProfile, PullRequestSummary, RemoteRepoOwner, RemoteRepoOwnerKind, RemoteRepoSummary,
    RepoMeta,
};
use crate::text::{blank, chars_of, is_blank, opt_view, same, trim, trimmed, views};

verus! {

/// GitHub.
#[derive(Debug, Clone, Copy)]
pub struct GitHubProvider;

impl GitHubProvider {
    pub fn new() -> (p: GitHubProvider)
        ensures
            p == GitHubProvider,
    {
        GitHubProvider
    }

    pub fn kind(&self) -> (k: ProviderKind)
        ensures
            k is GitHub,
    {
        ProviderKind::GitHub
    }

    pub fn display_name(&self) -> (r: &'static str)
        ensures
            r@ == "GitHub"@,
    {
        "GitHub"
    }

    pub fn default_ssh_host(&self) -> (r: &'static str)
        ensures
            r@ == "github.com"@,
    {
        "github.com"
    }

    pub fn api_base(&self) -> (out: String)
        ensures
            out@ == "https://api.github.com"@,
    {
        "https://api.github.com".to_string()
    }
}

impl Default for GitHubProvider {
    fn default() -> (p: GitHubProvider)
        ensures
            p == GitHubProvider,
    {
        GitHubProvider::new()
    }
}

/// A user or an organization in an answer.
#[derive(Debug, Clone)]
pub struct OwnerResp {
    pub login: String,
}

/// A repository in an answer.
#[derive(Debug, Clone)]
pub struct RepoResp {
    pub name: String,
    pub owner: OwnerResp,
    pub default_branch: Option<String>,
    pub description: Option<String>,
    pub private: bool,
}

/// A repository with its addresses in an answer: one of a list, or one that
/// was made.
#[derive(Debug, Clone)]
pub struct RepoListResp {
    pub name: String,
    pub owner: OwnerResp,
    pub default_branch: Option<String>,
    pub description: Option<String>,
    pub private: bool,
    pub ssh_url: String,
    pub clone_url: String,
    pub html_url: String,
}

/// A user in an answer.
#[derive(Debug, Clone)]
pub struct UserResp {
    pub login: String,
    pub name: Option<String>,
    pub avatar_url: Option<String>,
}

/// An organization in an answer.
#[derive(Debug, Clone)]
pub struct OrgResp {
    pub login: String,
    pub name: Option<String>,
}

/// A pull request in an answer.
#[derive(Debug, Clone)]
pub struct PullRequestResp {
    pub number: u64,
    pub title: String,
    pub body: Option<String>,
    pub html_url: String,
    pub draft: bool,
    pub state: String,
    pub user: OwnerResp,
    pub head: String,
    pub base: String,
}

/// An issue in an answer. The host lists pull requests among the issues.
#[derive(Debug, Clone)]
pub struct IssueResp {
    pub number: u64,
    pub title: String,
    pub body: Option<String>,
    pub html_url: String,
    pub state: String,
    pub user: OwnerResp,
    pub labels: Vec<String>,
    pub assignees: Vec<OwnerResp>,
    pub is_pull_request: bool,
}

/// What a pull request is.
pub open spec fn pr_state(state: Seq<char>) -> PrState {
    if state == "closed"@ {
        PrState::Closed
    } else {
        PrState::Open
    }
}

/// What a pull request is.
pub fn pr_state_from_api(state: &str) -> (r: PrState)
    ensures
        r == pr_state(state@),
{
    if same(state, "closed") {
        PrState::Closed
    } else {
        PrState::Open
    }
}

/// What an issue is.
pub open spec fn issue_state(state: Seq<char>) -> IssueState {
    if state == "closed"@ {
        IssueState::Closed
    } else {
        IssueState::Open
    }
}

/// What an issue is.
pub fn issue_state_from_api(state: &str) -> (r: IssueState)
    ensures
        r == issue_state(state@),
{
    if same(state, "closed") {
        IssueState::Closed
    } else {
        IssueState::Open
    }
}

/// What an owner is called: by a name that is not blank, or else by the
/// login.
pub open spec fn owner_name(login: Seq<char>, name: Option<Seq<char>>) -> Seq<char> {
    match name {
        Some(n) => if is_blank(n) {
            login
        } else {
            n
        },
        None => login,
    }
}

/// What an owner is called.
pub fn owner_display_name(login: &str, name: Option<String>) -> (out: String)
    ensures
        out@ == owner_name(login@, opt_view(name)),
{
    match name {
        Some(n) => if blank(n.as_str()) {
            login.to_string()
        } else {
            n
        },
        None => login.to_string(),
    }
}

/// Where a repository is made.
pub fn create_repository_url(api_base: &str, req: &CreateRepositoryDraft) -> (out: String)
    ensures
        out@ == (match req.owner_kind {
            RemoteRepoOwnerKind::User => api_base@ + "/user/repos"@,
            RemoteRepoOwnerKind::Organization => api_base@ + "/orgs/"@ + req.owner@ + "/repos"@,
        }),
{
    match req.owner_kind {
        RemoteRepoOwnerKind::User => under(api_base, "/user/repos"),
        RemoteRepoOwnerKind::Organization => {
            let mut out = under(api_base, "/orgs/");
            out.append(req.owner.as_str());
            out.append("/repos");
            out
        },
    }
}

/// What a repository is described as when it is made: without space around
/// it, and not at all if nothing is left.
pub fn sent_description(req: &CreateRepositoryDraft) -> (out: Option<String>)
    ensures
        opt_view(out) == (match req.description {
            Some(d) => if is_blank(d@) {
                None
            } else {
                Some(trim(d@))
            },
            None => None,
        }),
{
    match &req.description {
        Some(d) => {
            if blank(d.as_str()) {
                None
            } else {
                Some(trimmed(d.as_str()))
            }
        },
        None => None,
    }
}

/// A number in words without its plus sign.
pub open spec fn unsigned(text: Seq<char>) -> Seq<char> {
    if text.len() > 0 && text[0] == '+' {
        text.skip(1)
    } else {
        text
    }
}

/// Whether a text is a number that is zero.
pub open spec fn is_zero(text: Seq<char>) -> bool {
    let number = unsigned(text);
    number.len() > 0 && forall|i: int| 0 <= i < number.len() ==> number[i] == '0'
}

/// Whether a header says that no request is left.
pub fn none_left(header: Option<&str>) -> (r: bool)
    ensures
        r == (header matches Some(text) && is_zero(text@)),
{
    match header {
        Some(text) => {
            let chars = chars_of(text);
            let start: usize = if chars.len() > 0 && chars[0] == '+' {
                1
            } else {
                0
            };
            if start == chars.len() {
                return false;
            }
            let mut i: usize = start;
            let ghost number = unsigned(text@);
            proof {
                assert(number =~= text@.skip(start as int));
            }
            while i < chars.len()
                invariant
                    chars@ == text@,
                    start <= i <= chars@.len(),
                    header == Some(text),
                    number == unsigned(text@),
                    number == text@.skip(start as int),
                    forall|k: int| 0 <= k < i - start ==> number[k] == '0',
                decreases chars.len() - i,
            {
                if chars[i] != '0' {
                    proof {
                        assert(number[i - start] != '0');
                    }
                    return false;
                }
                i += 1;
            }
            true
        },
        None => false,
    }
}

/// What the status of an answer means. No request may be left, which a header
/// of the answer tells.
pub fn map_status(status: u16, remaining: Option<&str>, body: &str) -> (r: Result<
    (),
    ProviderError,
>)
    ensures
        status == 200 || status == 201 ==> r is Ok,
        status == 401 ==> r == Err::<(), ProviderError>(ProviderError::Unauthorized),
        status == 403 ==> r == Err::<(), ProviderError>(
            if remaining matches Some(text) && is_zero(text@) {
                ProviderError::RateLimited { retry_after: None }
            } else {
                ProviderError::Unauthorized
            },
        ),
        status == 404 ==> r == Err::<(), ProviderError>(ProviderError::NotFound),
        status != 200 && status != 201 && status != 401 && status != 403 && status != 404 ==> (
        r matches Err(e) && is_other(e, status, body@)),
{
    match status {
        200 | 201 => Ok(()),
        401 => Err(ProviderError::Unauthorized),
        403 => if none_left(remaining) {
            Err(ProviderError::RateLimited { retry_after: None })
        } else {
            Err(ProviderError::Unauthorized)
        },
        404 => Err(ProviderError::NotFound),
        _ => Err(other_status(status, body)),
    }
}

/// What the answer to a request for a file means: its text, nothing if there
/// is no such file, or an error.
pub fn file_reply(status: u16, body: &str) -> (r: Result<Option<String>, ProviderError>)
    ensures
        status == 200 ==> (r matches Ok(Some(text)) && text@ == body@),
        status == 404 ==> (r matches Ok(None)),
        status == 401 || status == 403 ==> r == Err::<Option<String>, ProviderError>(
            ProviderError::Unauthorized,
        ),
        status != 200 && status != 404 && status != 401 && status != 403 ==> (r matches Err(e)
            && is_other(e, status, body@)),
{
    match status {
        200 => Ok(Some(body.to_string())),
        404 => Ok(None),
        401 | 403 => Err(ProviderError::Unauthorized),
        _ => Err(other_status(status, body)),
    }
}

/// The request for a repository.
pub fn discover_url(owner: &str, repo: &str) -> (out: String)
    ensures
        out@ == repo_address("https://api.github.com"@, owner@, repo@, ""@),
{
    repo_url("https://api.github.com", owner, repo, "")
}

/// The request for the pull requests of a repository.
pub fn pulls_url(owner: &str, repo: &str) -> (out: String)
    ensures
        out@ == repo_address("https://api.github.com"@, owner@, repo@, "/pulls"@),
{
    repo_url("https://api.github.com", owner, repo, "/pulls")
}

/// The request for the issues of a repository.
pub fn issues_url(owner: &str, repo: &str) -> (out: String)
    ensures
        out@ == repo_address("https://api.github.com"@, owner@, repo@, "/issues"@),
{
    repo_url("https://api.github.com", owner, repo, "/issues")
}

/// The request for a file of a repository.
pub fn contents_url(owner: &str, repo: &str, path: &str) -> (out: String)
    ensures
        out@ == repo_address("https://api.github.com"@, owner@, repo@, "/contents/"@ + path@),
{
    let mut thing: String = "/contents/".to_string();
    thing.append(path);
    repo_url("https://api.github.com", owner, repo, thing.as_str())
}

/// Whether another page is asked for: pages hold a hundred, and there are at
/// most ten.
pub fn asks_for_more(page: u32, count: usize) -> (r: bool)
    ensures
        r == (page < 10 && count >= 100),
{
    page < 10 && count >= 100
}

/// A repository, with addresses that follow from its name.
pub fn repo_meta(r: RepoResp) -> (m: RepoMeta)
    ensures
        m.owner@ == r.owner.login@,
        m.repo@ == r.name@,
        m.clone_https@ == https_address("github.com"@, r.owner.login@, r.name@),
        m.clone_ssh@ == ssh_address("github.com"@, r.owner.login@, r.name@),
        m.default_branch@ == (match r.default_branch {
            Some(b) => b@,
            None => "main"@,
        }),
        m.description == r.description,
        m.private == r.private,
{
    let https = clone_https("github.com", r.owner.login.as_str(), r.name.as_str());
    let ssh = clone_ssh("github.com", r.owner.login.as_str(), r.name.as_str());
    let branch = match r.default_branch {
        Some(b) => b,
        None => "main".to_string(),
    };
    RepoMeta {
        clone_https: https,
        clone_ssh: ssh,
        default_branch: branch,
        description: r.description,
        private: r.private,
        owner: r.owner.login,
        repo: r.name,
    }
}

/// The user behind a token.
pub fn profile(user: UserResp) -> (p: ProviderProfile)
    ensures
        p.username@ == user.login@,
        p.display_name@ == (match user.name {
            Some(n) => n@,
            None => user.login@,
        }),
        p.avatar_url == user.avatar_url,
{
    let username = user.login.clone();
    let display_name = match user.name {
        Some(n) => n,
        None => user.login,
    };
    ProviderProfile { username, display_name, avatar_url: user.avatar_url }
}

/// Whether a repository of a list is one of an answer.
pub open spec fn lists(s: RemoteRepoSummary, r: RepoListResp) -> bool {
    &&& s.owner == r.owner.login
    &&& s.repo == r.name
    &&& s.description == r.description
    &&& s.default_branch == r.default_branch
    &&& s.private == r.private
    &&& s.clone_https == r.clone_url
    &&& s.clone_ssh == r.ssh_url
    &&& s.web_url == r.html_url
}

/// A repository of a list.
pub fn repo_summary(r: RepoListResp) -> (s: RemoteRepoSummary)
    ensures
        lists(s, r),
{
    RemoteRepoSummary {
        owner: r.owner.login,
        repo: r.name,
        description: r.description,
        default_branch: r.default_branch,
        private: r.private,
        clone_https: r.clone_url,
        clone_ssh: r.ssh_url,
        web_url: r.html_url,
    }
}

/// A repository that was made.
pub fn created_repository(r: RepoListResp) -> (c: CreatedRepositoryRef)
    ensures
        c.owner == r.owner.login,
        c.repo == r.name,
        c.description == r.description,
        c.default_branch == r.default_branch,
        c.private == r.private,
        c.clone_https == r.clone_url,
        c.clone_ssh == r.ssh_url,
        c.web_url == r.html_url,
{
    CreatedRepositoryRef {
        owner: r.owner.login,
        repo: r.name,
        description: r.description,
        default_branch: r.default_branch,
        private: r.private,
        clone_https: r.clone_url,
        clone_ssh: r.ssh_url,
        web_url: r.html_url,
    }
}

/// The user as an owner of repositories.
pub fn user_owner(user: UserResp) -> (o: RemoteRepoOwner)
    ensures
        o.login@ == user.login@,
        o.display_name@ == owner_name(user.login@, opt_view(user.name)),
        o.kind == RemoteRepoOwnerKind::User,
{
    let display_name = owner_display_name(user.login.as_str(), user.name);
    RemoteRepoOwner { login: user.login, display_name, kind: RemoteRepoOwnerKind::User }
}

/// An organization as an owner of repositories.
pub fn org_owner(org: OrgResp) -> (o: RemoteRepoOwner)
    ensures
        o.login@ == org.login@,
        o.display_name@ == owner_name(org.login@, opt_view(org.name)),
        o.kind == RemoteRepoOwnerKind::Organization,
{
    let display_name = owner_display_name(org.login.as_str(), org.name);
    RemoteRepoOwner { login: org.login, display_name, kind: RemoteRepoOwnerKind::Organization }
}

/// Whether a pull request of a list is one of an answer.
pub open spec fn is_summary_of(s: PullRequestSummary, pr: PullRequestResp) -> bool {
    &&& s.number == pr.number
    &&& s.title == pr.title
    &&& s.body == pr.body
    &&& s.author == pr.user.login
    &&& s.url == pr.html_url
    &&& s.is_draft == pr.draft
    &&& s.state == pr_state(pr.state@)
    &&& s.head_ref == pr.head
    &&& s.base_ref == pr.base
}

/// A pull request of a list.
pub fn pull_request_summary(pr: PullRequestResp) -> (s: PullRequestSummary)
    ensures
        is_summary_of(s, pr),
{
    let state = pr_state_from_api(pr.state.as_str());
    PullRequestSummary {
        number: pr.number,
        title: pr.title,
        body: pr.body,
        author: pr.user.login,
        url: pr.html_url,
        is_draft: pr.draft,
        state,
        head_ref: pr.head,
        base_ref: pr.base,
    }
}

/// The logins of a list of users.
pub open spec fn logins(users: Seq<OwnerResp>) -> Seq<Seq<char>> {
    users.map_values(|u: OwnerResp| u.login@)
}

fn logins_of(users: &Vec<OwnerResp>) -> (out: Vec<String>)
    ensures
        views(out@) == logins(users@),
{
    let mut out: Vec<String> = Vec::new();
    let mut i: usize = 0;
    while i < users.len()
        invariant
            i <= users@.len(),
            views(out@) =~= logins(users@).take(i as int),
        decreases users.len() - i,
    {
        let ghost before = out@;
        out.push(users[i].login.clone());
        proof {
            assert(views(out@) =~= views(before).push(users@[i as int].login@));
        }
        i += 1;
    }
    out
}

/// Whether an issue of a list is one of an answer.
pub open spec fn is_issue_of(s: IssueSummary, issue: IssueResp) -> bool {
    &&& s.number == issue.number
    &&& s.title@ == issue.title@
    &&& opt_view(s.body) == opt_view(issue.body)
    &&& s.author@ == issue.user.login@
    &&& s.url@ == issue.html_url@
    &&& s.state == issue_state(issue.state@)
    &&& views(s.labels@) == views(issue.labels@)
    &&& views(s.assignees@) == logins(issue.assignees@)
}

/// The issues of an answer that are no pull requests, by their positions.
pub open spec fn true_issues(issues: Seq<IssueResp>) -> Seq<int>
    decreases issues.len(),
{
    if issues.len() == 0 {
        Seq::empty()
    } else if issues.last().is_pull_request {
        true_issues(issues.drop_last())
    } else {
        true_issues(issues.drop_last()).push(issues.len() - 1)
    }
}

fn copied(list: &Vec<String>) -> (out: Vec<String>)
    ensures
        views(out@) == views(list@),
{
    let mut out: Vec<String> = Vec::new();
    let mut i: usize = 0;
    while i < list.len()
        invariant
            i <= list@.len(),
            views(out@) =~= views(list@).take(i as int),
        decreases list.len() - i,
    {
        let ghost before = out@;
        out.push(list[i].clone());
        proof {
            assert(views(out@) =~= views(before).push(list@[i as int]@));
        }
        i += 1;
    }
    out
}

/// The issues of a list: those of an answer, without the pull requests.
pub fn issue_summaries(issues: &[IssueResp]) -> (out: Vec<IssueSummary>)
    ensures
        out@.len() == true_issues(issues@).len(),
        forall|k: int|
            0 <= k < out@.len() ==> is_issue_of(
                #[trigger] out@[k],
                issues@[true_issues(issues@)[k]],
            ),
{
    let mut out: Vec<IssueSummary> = Vec::new();
    let mut i: usize = 0;
    while i < issues.len()
        invariant
            i <= issues@.len(),
            out@.len() == true_issues(issues@.take(i as int)).len(),
            forall|k: int|
                0 <= k < out@.len() ==> is_issue_of(
                    #[trigger] out@[k],
                    issues@[true_issues(issues@.take(i as int))[k]],
                ),
        decreases issues.len() - i,
    {
        proof {
            assert(issues@.take(i + 1).drop_last() == issues@.take(i as int));
        }
        let issue = &issues[i];
        if !issue.is_pull_request {
            out.push(
                IssueSummary {
                    number: issue.number,
                    title: issue.title.clone(),
                    body: issue.body.clone(),
                    author: issue.user.login.clone(),
                    url: issue.html_url.clone(),
                    state: issue_state_from_api(issue.state.as_str()),
                    labels: copied(&issue.labels),
                    assignees: logins_of(&issue.assignees),
                },
            );
        }
        i += 1;
    }
    proof {
        assert(issues@.take(issues@.len() as int) == issues@);
    }
    out
}

/// No pull request is among the listed issues, and every other issue is
/// listed.
pub proof fn law_issues_without_pull_requests(issues: Seq<IssueResp>, i: int)
    requires
        0 <= i < issues.len(),
    ensures
        true_issues(issues).contains(i) <==> !issues[i].is_pull_request,
    decreases issues.len(),
{
    let before = issues.drop_last();
    lemma_true_issues_below(before);
    if i < before.len() {
        law_issues_without_pull_requests(before, i);
        assert(before[i] == issues[i]);
        if true_issues(before).contains(i) {
            let k = choose|k: int|
                0 <= k < true_issues(before).len() && true_issues(before)[k] == i;
            assert(true_issues(issues)[k] == i);
        }
        if true_issues(issues).contains(i) {
            let k = choose|k: int|
                0 <= k < true_issues(issues).len() && true_issues(issues)[k] == i;
            assert(true_issues(before)[k] == i);
        }
    } else {
        if !issues[i].is_pull_request {
            assert(true_issues(issues)[true_issues(before).len() as int] == i);
        } else if true_issues(issues).contains(i) {
            let k = choose|k: int|
                0 <= k < true_issues(before).len() && true_issues(before)[k] == i;
            assert(true_issues(before)[k] < before.len());
        }
    }
}

proof fn lemma_true_issues_below(issues: Seq<IssueResp>)
    ensures
        forall|k: int|
            0 <= k < true_issues(issues).len() ==> 0 <= #[trigger] true_issues(issues)[k]
                < issues.len(),
    decreases issues.len(),
{
    if issues.len() > 0 {
        let before = issues.drop_last();
        lemma_true_issues_below(before);
        assert forall|k: int| 0 <= k < true_issues(issues).len() implies 0
            <= #[trigger] true_issues(issues)[k] < issues.len() by {
            if k < true_issues(before).len() {
                assert(true_issues(issues)[k] == true_issues(before)[k]);
            }
        }
    }
}

} // verus!
