//! The words of the panel of pull requests and issues.

use vstd::prelude::*;

use crate::config::UiLanguage;

verus! {

/// What the panel says.
#[derive(Debug, Clone, Copy)]
pub struct Labels {
    pub heading: &'static str,
    pub loading: &'static str,
    pub connect_hint: &'static str,
    pub refresh: &'static str,
    pub new_pr: &'static str,
    pub new_issue: &'static str,
    pub pull_requests: &'static str,
    pub issues: &'static str,
    pub pull_request: &'static str,
    pub issue: &'static str,
    pub empty_prs: &'static str,
    pub empty_issues: &'static str,
    pub empty_body: &'static str,
    pub copy_url: &'static str,
    pub copy_mcp: &'static str,
    pub open_link: &'static str,
    pub copied_url: &'static str,
    pub copied_mcp: &'static str,
    pub scope_hint: &'static str,
    pub head_branch: &'static str,
    pub base_branch: &'static str,
    pub title: &'static str,
    pub body: &'static str,
    pub draft_pr: &'static str,
    pub cancel: &'static str,
    pub create_pr: &'static str,
    pub create_issue: &'static str,
}

/// Whether the words are those of a language.
pub open spec fn speaks(l: Labels, language: UiLanguage) -> bool {
    if language == UiLanguage::Korean {
        &&& l.heading@ == "원격 협업"@
        &&& l.loading@ == "PR / 이슈를 불러오는 중..."@
        &&& l.connect_hint@ == "GitHub 계정을 설정의 연동 섹션에 연결하면 이 저장소의 PR과 이슈를 바로 볼 수 있습니다."@
        &&& l.refresh@ == "새로고침"@
        &&& l.new_pr@ == "PR 만들기"@
        &&& l.new_issue@ == "이슈 만들기"@
        &&& l.pull_requests@ == "풀 리퀘스트"@
        &&& l.issues@ == "이슈"@
        &&& l.pull_request@ == "풀 리퀘스트"@
        &&& l.issue@ == "이슈"@
        &&& l.empty_prs@ == "열린 PR이 없습니다."@
        &&& l.empty_issues@ == "열린 이슈가 없습니다."@
        &&& l.empty_body@ == "본문이 없습니다."@
        &&& l.copy_url@ == "URL 복사"@
        &&& l.copy_mcp@ == "MCP JSON 복사"@
        &&& l.open_link@ == "브라우저에서 열기"@
        &&& l.copied_url@ == "URL을 복사했습니다"@
        &&& l.copied_mcp@ == "MCP JSON을 복사했습니다"@
        &&& l.scope_hint@ == "필요한 scope"@
        &&& l.head_branch@ == "From"@
        &&& l.base_branch@ == "To"@
        &&& l.title@ == "제목"@
        &&& l.body@ == "본문"@
        &&& l.draft_pr@ == "Draft PR"@
        &&& l.cancel@ == "취소"@
        &&& l.create_pr@ == "PR 생성"@
        &&& l.create_issue@ == "이슈 생성"@
    } else {
        &&& l.heading@ == "Forge"@
        &&& l.loading@ == "Loading pull requests and issues..."@
        &&& l.connect_hint@ == "Connect GitHub in Settings → Integrations to view pull requests and issues for this repo."@
        &&& l.refresh@ == "Refresh"@
        &&& l.new_pr@ == "New PR"@
        &&& l.new_issue@ == "New Issue"@
        &&& l.pull_requests@ == "Pull Requests"@
        &&& l.issues@ == "Issues"@
        &&& l.pull_request@ == "Pull Request"@
        &&& l.issue@ == "Issue"@
        &&& l.empty_prs@ == "No open pull requests."@
        &&& l.empty_issues@ == "No open issues."@
        &&& l.empty_body@ == "No description provided."@
        &&& l.copy_url@ == "Copy URL"@
        &&& l.copy_mcp@ == "Copy MCP JSON"@
        &&& l.open_link@ == "Open in browser"@
        &&& l.copied_url@ == "Copied URL"@
        &&& l.copied_mcp@ == "Copied MCP JSON"@
        &&& l.scope_hint@ == "Required scope"@
        &&& l.head_branch@ == "From"@
        &&& l.base_branch@ == "To"@
        &&& l.title@ == "Title"@
        &&& l.body@ == "Body"@
        &&& l.draft_pr@ == "Draft pull request"@
        &&& l.cancel@ == "Cancel"@
        &&& l.create_pr@ == "Create PR"@
        &&& l.create_issue@ == "Create issue"@
    }
}

/// The words of a language. There are those of Korean, and of English for
/// everyone else.
pub fn labels(language: UiLanguage) -> (l: Labels)
    ensures
        speaks(l, language),
{
    match language {
        UiLanguage::Korean => Labels {
            heading: "원격 협업",
            loading: "PR / 이슈를 불러오는 중...",
            connect_hint: "GitHub 계정을 설정의 연동 섹션에 연결하면 이 저장소의 PR과 이슈를 바로 볼 수 있습니다.",
            refresh: "새로고침",
            new_pr: "PR 만들기",
            new_issue: "이슈 만들기",
            pull_requests: "풀 리퀘스트",
            issues: "이슈",
            pull_request: "풀 리퀘스트",
            issue: "이슈",
            empty_prs: "열린 PR이 없습니다.",
            empty_issues: "열린 이슈가 없습니다.",
            empty_body: "본문이 없습니다.",
            copy_url: "URL 복사",
            copy_mcp: "MCP JSON 복사",
            open_link: "브라우저에서 열기",
            copied_url: "URL을 복사했습니다",
            copied_mcp: "MCP JSON을 복사했습니다",
            scope_hint: "필요한 scope",
            head_branch: "From",
            base_branch: "To",
            title: "제목",
            body: "본문",
            draft_pr: "Draft PR",
            cancel: "취소",
            create_pr: "PR 생성",
            create_issue: "이슈 생성",
        },
        _ => Labels {
            heading: "Forge",
            loading: "Loading pull requests and issues...",
            connect_hint: "Connect GitHub in Settings → Integrations to view pull requests and issues for this repo.",
            refresh: "Refresh",
            new_pr: "New PR",
            new_issue: "New Issue",
            pull_requests: "Pull Requests",
            issues: "Issues",
            pull_request: "Pull Request",
            issue: "Issue",
            empty_prs: "No open pull requests.",
            empty_issues: "No open issues.",
            empty_body: "No description provided.",
            copy_url: "Copy URL",
            copy_mcp: "Copy MCP JSON",
            open_link: "Open in browser",
            copied_url: "Copied URL",
            copied_mcp: "Copied MCP JSON",
            scope_hint: "Required scope",
            head_branch: "From",
            base_branch: "To",
            title: "Title",
            body: "Body",
            draft_pr: "Draft pull request",
            cancel: "Cancel",
            create_pr: "Create PR",
            create_issue: "Create issue",
        },
    }
}

} // verus!
