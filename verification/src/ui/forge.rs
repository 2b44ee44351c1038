//! The panel of pull requests and issues.

use vstd::prelude::*;

use crate::providers::types::{IssueState, IssueSummary, PrState, PullRequestSummary};
use crate::text::{blank, decimal, digits, is_blank, join_with, separated, views};

verus! {

/// What is selected in the panel.
#[derive(Debug, Clone, Copy, PartialEq, Eq, Structural)]
pub enum ForgeSelection {
    PullRequest(u64),
    Issue(u64),
}

/// What was clicked in the panel.
#[derive(Debug, Clone, Copy, PartialEq, Eq, Structural)]
pub enum SidebarAction {
    Refresh,
    NewPullRequest,
    NewIssue,
    Select(ForgeSelection),
}

/// The heading of a list, with its length.
pub fn list_heading(name: &str, n: usize) -> (out: String)
    ensures
        out@ == name@ + " ("@ + digits(n as nat) + ")"@,
{
    let mut out: String = name.to_string();
    out.append(" (");
    out.append(decimal(n as u64).as_str());
    out.append(")");
    out
}

/// A number and a title.
pub open spec fn numbered(number: u64, title: Seq<char>) -> Seq<char> {
    "#"@ + digits(number as nat) + " "@ + title
}

fn numbered_title(number: u64, title: &str) -> (out: String)
    ensures
        out@ == numbered(number, title@),
{
    let mut out: String = "#".to_string();
    out.append(decimal(number).as_str());
    out.append(" ");
    out.append(title);
    out
}

/// A pull request of the list.
pub fn pull_request_title(pr: &PullRequestSummary) -> (out: String)
    ensures
        out@ == numbered(pr.number, pr.title@) + (if pr.is_draft {
            " · draft"@
        } else {
            Seq::empty()
        }),
{
    let mut out = numbered_title(pr.number, pr.title.as_str());
    if pr.is_draft {
        out.append(" · draft");
    } else {
        proof {
            assert(out@ =~= out@ + Seq::<char>::empty());
        }
    }
    out
}

/// The line below a pull request of the list.
pub fn pull_request_meta(pr: &PullRequestSummary) -> (out: String)
    ensures
        out@ == pr.head_ref@ + " → "@ + pr.base_ref@ + " · "@ + pr.author@,
{
    let mut out: String = pr.head_ref.clone();
    out.append(" → ");
    out.append(pr.base_ref.as_str());
    out.append(" · ");
    out.append(pr.author.as_str());
    out
}

/// An issue of the list.
pub fn issue_title(issue: &IssueSummary) -> (out: String)
    ensures
        out@ == numbered(issue.number, issue.title@),
{
    numbered_title(issue.number, issue.title.as_str())
}

/// The line below an issue of the list: its author, and its labels.
pub fn issue_meta(issue: &IssueSummary) -> (out: String)
    ensures
        out@ == (if issue.labels@.len() == 0 {
            issue.author@
        } else {
            issue.author@ + " · "@ + separated(views(issue.labels@), ", "@)
        }),
{
    let mut out: String = issue.author.clone();
    if issue.labels.len() > 0 {
        out.append(" · ");
        out.append(join_with(issue.labels.as_slice(), ", ").as_str());
    }
    out
}

/// The first pull request with a number, or -1.
pub open spec fn first_pull_request(list: Seq<PullRequestSummary>, number: u64) -> int
    decreases list.len(),
{
    if list.len() == 0 {
        -1
    } else {
        let before = first_pull_request(list.drop_last(), number);
        if before >= 0 {
            before
        } else if list.last().number == number {
            list.len() - 1
        } else {
            -1
        }
    }
}

/// The first pull request with a number.
pub fn find_pull_request(list: &[PullRequestSummary], number: u64) -> (at: Option<usize>)
    ensures
        at matches Some(i) ==> i == first_pull_request(list@, number) && i < list@.len(),
        at is None ==> first_pull_request(list@, number) == -1,
{
    let mut i: usize = 0;
    let mut found: Option<usize> = None;
    while i < list.len()
        invariant
            i <= list@.len(),
            found matches Some(k) ==> k == first_pull_request(list@.take(i as int), number) && k < i,
            found is None ==> first_pull_request(list@.take(i as int), number) == -1,
        decreases list.len() - i,
    {
        proof {
            assert(list@.take(i + 1).drop_last() == list@.take(i as int));
        }
        if found.is_none() && list[i].number == number {
            found = Some(i);
        }
        i += 1;
    }
    proof {
        assert(list@.take(list@.len() as int) == list@);
    }
    found
}

/// The first issue with a number, or -1.
pub open spec fn first_issue(list: Seq<IssueSummary>, number: u64) -> int
    decreases list.len(),
{
    if list.len() == 0 {
        -1
    } else {
        let before = first_issue(list.drop_last(), number);
        if before >= 0 {
            before
        } else if list.last().number == number {
            list.len() - 1
        } else {
            -1
        }
    }
}

/// The first issue with a number.
pub fn find_issue(list: &[IssueSummary], number: u64) -> (at: Option<usize>)
    ensures
        at matches Some(i) ==> i == first_issue(list@, number) && i < list@.len(),
        at is None ==> first_issue(list@, number) == -1,
{
    let mut i: usize = 0;
    let mut found: Option<usize> = None;
    while i < list.len()
        invariant
            i <= list@.len(),
            found matches Some(k) ==> k == first_issue(list@.take(i as int), number) && k < i,
            found is None ==> first_issue(list@.take(i as int), number) == -1,
        decreases list.len() - i,
    {
        proof {
            assert(list@.take(i + 1).drop_last() == list@.take(i as int));
        }
        if found.is_none() && list[i].number == number {
            found = Some(i);
        }
        i += 1;
    }
    proof {
        assert(list@.take(list@.len() as int) == list@);
    }
    found
}

/// A repository in words.
pub fn repo_label(owner: &str, repo: &str) -> (out: String)
    ensures
        out@ == owner@ + "/"@ + repo@,
{
    let mut out: String = owner.to_string();
    out.append("/");
    out.append(repo);
    out
}

/// The title of the window of a pull request or an issue.
pub fn window_title(kind: &str, number: u64) -> (out: String)
    ensures
        out@ == kind@ + " #"@ + digits(number as nat),
{
    let mut out: String = kind.to_string();
    out.append(" #");
    out.append(decimal(number).as_str());
    out
}

/// The line in the window of a pull request.
pub fn pull_request_detail(pr: &PullRequestSummary) -> (out: String)
    ensures
        out@ == pr.author@ + " · "@ + pr.head_ref@ + " → "@ + pr.base_ref@ + " · "@ + (
        match pr.state {
            PrState::Open => "open"@,
            PrState::Closed => "closed"@,
            PrState::All => "all"@,
        }),
{
    let mut out: String = pr.author.clone();
    out.append(" · ");
    out.append(pr.head_ref.as_str());
    out.append(" → ");
    out.append(pr.base_ref.as_str());
    out.append(" · ");
    out.append(pr.state.as_api_str());
    out
}

/// The line in the window of an issue.
pub fn issue_detail(issue: &IssueSummary) -> (out: String)
    ensures
        out@ == issue.author@ + " · "@ + (match issue.state {
            IssueState::Open => "open"@,
            IssueState::Closed => "closed"@,
            IssueState::All => "all"@,
        }),
{
    let mut out: String = issue.author.clone();
    out.append(" · ");
    out.append(issue.state.as_api_str());
    out
}

/// A list in the window of an issue, if it holds anything.
pub fn named_list(name: &str, items: &[String]) -> (out: Option<String>)
    ensures
        out is Some <==> items@.len() > 0,
        out matches Some(text) ==> text@ == name@ + ": "@ + separated(views(items@), ", "@),
{
    if items.len() == 0 {
        return None;
    }
    let mut out: String = name.to_string();
    out.append(": ");
    out.append(join_with(items, ", ").as_str());
    Some(out)
}

/// The text of a pull request or an issue, if it says anything.
pub fn shown_body(body: &Option<String>) -> (out: Option<String>)
    ensures
        out is Some <==> (*body matches Some(b) && !is_blank(b@)),
        out matches Some(text) ==> text@ == (*body)->0@,
{
    match body {
        Some(b) => if blank(b.as_str()) {
            None
        } else {
            Some(b.clone())
        },
        None => None,
    }
}

/// Whether what is selected stays so: until its window is closed, or Escape
/// is pressed.
pub fn keeps_selection(window_open: bool, escape: bool) -> (r: bool)
    ensures
        r == (window_open && !escape),
{
    window_open && !escape
}

/// What follows for a window in which something is made.
#[derive(Debug, Clone, Copy, PartialEq, Eq, Structural)]
pub enum ModalStep {
    Stay,
    Close,
    Submit,
}

/// What follows for a window in which something is made: it closes with its
/// own button or that of its frame, and else submits what may be submitted.
pub fn modal_step(window_open: bool, cancel: bool, submit: bool, ready: bool) -> (s: ModalStep)
    ensures
        s == (if !window_open || cancel {
            ModalStep::Close
        } else if submit && ready {
            ModalStep::Submit
        } else {
            ModalStep::Stay
        }),
{
    if !window_open || cancel {
        ModalStep::Close
    } else if submit && ready {
        ModalStep::Submit
    } else {
        ModalStep::Stay
    }
}

} // verus!
