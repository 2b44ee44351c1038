//! The results of the checks of a commit, in one badge.

use vstd::prelude::*;

use crate::git::Oid;
use crate::providers::error::{is_other, other_status, ProviderError};
use crate::providers::types::ProviderKind;
use crate::text::{opt_view, same};

verus! {

/// How many commits are asked about at once.
pub const MAX_OIDS: usize = 50;

/// What became of a check, or of all checks of a commit.
#[derive(Debug, Clone, Copy, PartialEq, Eq, Structural)]
pub enum CiStatus {
    Success,
    Failure,
    Pending,
    Neutral,
    Unknown,
}

/// The checks of a commit.
#[derive(Debug, Clone)]
pub struct CheckSummary {
    pub oid: Oid,
    pub status: CiStatus,
    pub passed: u32,
    pub failed: u32,
    pub pending: u32,
    pub details_url: Option<String>,
}

/// A status that was set on a commit.
#[derive(Debug, Clone)]
pub struct GhStatusEntry {
    pub state: String,
    pub target_url: Option<String>,
}

/// All statuses that were set on a commit.
#[derive(Debug, Clone)]
pub struct GhCombinedStatus {
    pub state: String,
    pub statuses: Vec<GhStatusEntry>,
}

/// A run of a check on a commit.
#[derive(Debug, Clone)]
pub struct GhCheckRun {
    pub status: String,
    pub conclusion: Option<String>,
    pub html_url: Option<String>,
}

/// A status of a GitLab commit.
#[derive(Debug, Clone)]
pub struct GlStatus {
    pub status: String,
    pub target_url: Option<String>,
}

/// The words of the hosts are all different.
proof fn lemma_words()
    ensures
        "success"@[0] == 's' && "success"@[1] == 'u' && "success"@.len() == 7,
        "failure"@[0] == 'f' && "failure"@.len() == 7,
        "failed"@[0] == 'f' && "failed"@.len() == 6,
        "error"@[0] == 'e' && "error"@.len() == 5,
        "pending"@[0] == 'p' && "pending"@.len() == 7,
        "preparing"@[0] == 'p' && "preparing"@.len() == 9,
        "neutral"@[0] == 'n' && "neutral"@.len() == 7,
        "cancelled"@[0] == 'c' && "cancelled"@.len() == 9,
        "canceled"@[0] == 'c' && "canceled"@.len() == 8,
        "created"@[0] == 'c' && "created"@.len() == 7,
        "skipped"@[0] == 's' && "skipped"@[1] == 'k' && "skipped"@.len() == 7,
        "scheduled"@[0] == 's' && "scheduled"@.len() == 9,
        "stale"@[0] == 's' && "stale"@.len() == 5,
        "timed_out"@[0] == 't' && "timed_out"@.len() == 9,
        "action_required"@[0] == 'a' && "action_required"@.len() == 15,
        "running"@[0] == 'r' && "running"@.len() == 7,
        "waiting_for_resource"@[0] == 'w' && "waiting_for_resource"@.len() == 20,
        "manual"@[0] == 'm' && "manual"@.len() == 6,
{
    reveal_strlit("success");
    reveal_strlit("failure");
    reveal_strlit("failed");
    reveal_strlit("error");
    reveal_strlit("pending");
    reveal_strlit("preparing");
    reveal_strlit("neutral");
    reveal_strlit("cancelled");
    reveal_strlit("canceled");
    reveal_strlit("created");
    reveal_strlit("skipped");
    reveal_strlit("scheduled");
    reveal_strlit("stale");
    reveal_strlit("timed_out");
    reveal_strlit("action_required");
    reveal_strlit("running");
    reveal_strlit("waiting_for_resource");
    reveal_strlit("manual");
}

/// What a GitHub status means.
pub open spec fn github_state(state: Seq<char>) -> CiStatus {
    if state == "success"@ {
        CiStatus::Success
    } else if state == "failure"@ || state == "error"@ {
        CiStatus::Failure
    } else if state == "pending"@ {
        CiStatus::Pending
    } else {
        CiStatus::Unknown
    }
}

/// A GitHub status has passed just where it says so; it has failed where it
/// failed or broke down, is open where it is pending, and else is unknown.
pub proof fn law_statuses(state: Seq<char>)
    ensures
        github_state(state) == CiStatus::Success <==> state == "success"@,
        github_state(state) == CiStatus::Failure <==> state == "failure"@ || state == "error"@,
        github_state(state) == CiStatus::Pending <==> state == "pending"@,
        github_state(state) != CiStatus::Neutral,
{
    lemma_words();
}

/// What a GitHub status means. A check that broke down has failed.
pub fn classify_github_state(state: &str) -> (r: CiStatus)
    ensures
        r == github_state(state@),
        r == CiStatus::Success <==> state@ == "success"@,
        r == CiStatus::Failure <==> state@ == "failure"@ || state@ == "error"@,
        r == CiStatus::Pending <==> state@ == "pending"@,
        r != CiStatus::Neutral,
{
    proof {
        law_statuses(state@);
    }
    if same(state, "success") {
        CiStatus::Success
    } else if same(state, "failure") || same(state, "error") {
        CiStatus::Failure
    } else if same(state, "pending") {
        CiStatus::Pending
    } else {
        CiStatus::Unknown
    }
}

/// What the conclusion of a finished run means.
pub open spec fn conclusion_state(conclusion: Option<Seq<char>>) -> CiStatus {
    match conclusion {
        Some(c) => if c == "success"@ {
            CiStatus::Success
        } else if c == "failure"@ || c == "timed_out"@ {
            CiStatus::Failure
        } else if c == "neutral"@ || c == "cancelled"@ || c == "skipped"@ || c == "stale"@ {
            CiStatus::Neutral
        } else if c == "action_required"@ {
            CiStatus::Pending
        } else {
            CiStatus::Unknown
        },
        None => CiStatus::Unknown,
    }
}

/// What a run means.
pub open spec fn run_state(r: GhCheckRun) -> CiStatus {
    if r.status@ != "completed"@ {
        CiStatus::Pending
    } else {
        conclusion_state(
            match r.conclusion {
                Some(c) => Some(c@),
                None => None,
            },
        )
    }
}

/// Whether a run is finished, and ended in the given way.
pub open spec fn ended(r: GhCheckRun, how: Seq<char>) -> bool {
    r.status@ == "completed"@ && (r.conclusion matches Some(c) && c@ == how)
}

/// A run that is not finished is open. A finished run has passed just where
/// it concludes in `success`, and failed just where it failed or took too
/// long. One that was called off, passed over or overtaken, or that says
/// neither, has neither passed nor failed. One that waits for somebody is
/// open.
pub proof fn law_runs(r: GhCheckRun)
    ensures
        run_state(r) == CiStatus::Success <==> ended(r, "success"@),
        run_state(r) == CiStatus::Failure <==> ended(r, "failure"@) || ended(r, "timed_out"@),
        run_state(r) == CiStatus::Neutral <==> ended(r, "neutral"@) || ended(r, "cancelled"@)
            || ended(r, "skipped"@) || ended(r, "stale"@),
        run_state(r) == CiStatus::Pending <==> r.status@ != "completed"@ || ended(
            r,
            "action_required"@,
        ),
{
    lemma_words();
}

/// What a run means. One that is not finished is pending, whatever its
/// conclusion says.
pub fn classify_check_run(r: &GhCheckRun) -> (s: CiStatus)
    ensures
        s == run_state(*r),
        s == CiStatus::Success <==> ended(*r, "success"@),
        s == CiStatus::Failure <==> ended(*r, "failure"@) || ended(*r, "timed_out"@),
        s == CiStatus::Neutral <==> ended(*r, "neutral"@) || ended(*r, "cancelled"@) || ended(
            *r,
            "skipped"@,
        ) || ended(*r, "stale"@),
        s == CiStatus::Pending <==> r.status@ != "completed"@ || ended(*r, "action_required"@),
{
    proof {
        law_runs(*r);
    }
    if !same(r.status.as_str(), "completed") {
        return CiStatus::Pending;
    }
    match &r.conclusion {
        Some(text) => {
            let c: &str = text.as_str();
            if same(c, "success") {
                CiStatus::Success
            } else if same(c, "failure") || same(c, "timed_out") {
                CiStatus::Failure
            } else if same(c, "neutral") || same(c, "cancelled") || same(c, "skipped") || same(
                c,
                "stale",
            ) {
                CiStatus::Neutral
            } else if same(c, "action_required") {
                CiStatus::Pending
            } else {
                CiStatus::Unknown
            }
        },
        None => CiStatus::Unknown,
    }
}

/// What a GitLab status means.
pub open spec fn gitlab_state(state: Seq<char>) -> CiStatus {
    if state == "success"@ {
        CiStatus::Success
    } else if state == "failed"@ {
        CiStatus::Failure
    } else if state == "running"@ || state == "pending"@ || state == "created"@ || state
        == "waiting_for_resource"@ || state == "preparing"@ || state == "scheduled"@ {
        CiStatus::Pending
    } else if state == "canceled"@ || state == "skipped"@ || state == "manual"@ {
        CiStatus::Neutral
    } else {
        CiStatus::Unknown
    }
}

/// Whether a GitLab status is that of a check which has not ended.
pub open spec fn is_under_way(state: Seq<char>) -> bool {
    ||| state == "created"@
    ||| state == "waiting_for_resource"@
    ||| state == "preparing"@
    ||| state == "pending"@
    ||| state == "running"@
    ||| state == "scheduled"@
}

/// A GitLab status has passed or failed just where it says so, is open while
/// it is under way, and counts for nothing where the check was called off,
/// passed over or left to be started by hand.
pub proof fn law_gitlab_statuses(state: Seq<char>)
    ensures
        gitlab_state(state) == CiStatus::Success <==> state == "success"@,
        gitlab_state(state) == CiStatus::Failure <==> state == "failed"@,
        gitlab_state(state) == CiStatus::Pending <==> is_under_way(state),
        gitlab_state(state) == CiStatus::Neutral <==> state == "canceled"@ || state == "skipped"@
            || state == "manual"@,
{
    lemma_words();
}

/// What a GitLab status means.
pub fn classify_gitlab_state(state: &str) -> (r: CiStatus)
    ensures
        r == gitlab_state(state@),
        r == CiStatus::Success <==> state@ == "success"@,
        r == CiStatus::Failure <==> state@ == "failed"@,
        r == CiStatus::Pending <==> is_under_way(state@),
        r == CiStatus::Neutral <==> state@ == "canceled"@ || state@ == "skipped"@ || state@
            == "manual"@,
{
    proof {
        law_gitlab_statuses(state@);
    }
    if same(state, "success") {
        CiStatus::Success
    } else if same(state, "failed") {
        CiStatus::Failure
    } else if same(state, "running") || same(state, "pending") || same(state, "created") || same(
        state,
        "waiting_for_resource",
    ) || same(state, "preparing") || same(state, "scheduled") {
        CiStatus::Pending
    } else if same(state, "canceled") || same(state, "skipped") || same(state, "manual") {
        CiStatus::Neutral
    } else {
        CiStatus::Unknown
    }
}

/// How often a state occurs.
pub open spec fn occurrences(states: Seq<CiStatus>, s: CiStatus) -> nat
    decreases states.len(),
{
    if states.len() == 0 {
        0
    } else {
        occurrences(states.drop_last(), s) + (if states.last() == s {
            1nat
        } else {
            0
        })
    }
}

/// The first address that is there.
pub open spec fn first_url(urls: Seq<Option<Seq<char>>>) -> Option<Seq<char>>
    decreases urls.len(),
{
    if urls.len() == 0 {
        None
    } else {
        let before = first_url(urls.drop_last());
        if before is Some {
            before
        } else {
            urls.last()
        }
    }
}

/// The states of the checks of a commit: its statuses, then its runs.
pub open spec fn github_states(
    statuses: Seq<GhStatusEntry>,
    runs: Seq<GhCheckRun>,
) -> Seq<CiStatus> {
    statuses.map_values(|s: GhStatusEntry| github_state(s.state@)) + runs.map_values(
        |r: GhCheckRun| run_state(r),
    )
}

/// The addresses of the checks of a commit.
pub open spec fn github_urls(
    statuses: Seq<GhStatusEntry>,
    runs: Seq<GhCheckRun>,
) -> Seq<Option<Seq<char>>> {
    statuses.map_values(|s: GhStatusEntry| opt_view(s.target_url)) + runs.map_values(
        |r: GhCheckRun| opt_view(r.html_url),
    )
}

/// What checks with these states come to: the most alarming state among them.
/// Where none of them is known, something else decides.
pub open spec fn rollup(states: Seq<CiStatus>, otherwise: CiStatus) -> CiStatus {
    if occurrences(states, CiStatus::Failure) > 0 {
        CiStatus::Failure
    } else if occurrences(states, CiStatus::Pending) > 0 {
        CiStatus::Pending
    } else if occurrences(states, CiStatus::Neutral) > 0 {
        CiStatus::Neutral
    } else if occurrences(states, CiStatus::Success) > 0 {
        CiStatus::Success
    } else {
        otherwise
    }
}

/// How alarming a state is.
pub open spec fn severity(s: CiStatus) -> int {
    match s {
        CiStatus::Failure => 4,
        CiStatus::Pending => 3,
        CiStatus::Neutral => 2,
        CiStatus::Success => 1,
        CiStatus::Unknown => 0,
    }
}

/// Whether a summary is that of checks with these states and addresses.
pub open spec fn summarizes(
    sum: CheckSummary,
    oid: Oid,
    states: Seq<CiStatus>,
    urls: Seq<Option<Seq<char>>>,
    otherwise: CiStatus,
) -> bool {
    &&& sum.oid == oid
    &&& sum.passed == occurrences(states, CiStatus::Success)
    &&& sum.failed == occurrences(states, CiStatus::Failure)
    &&& sum.pending == occurrences(states, CiStatus::Pending)
    &&& sum.status == rollup(states, otherwise)
    &&& opt_view(sum.details_url) == first_url(urls)
}

/// A count of checks in the making.
struct Tally {
    passed: u32,
    failed: u32,
    pending: u32,
    any_neutral: bool,
    details_url: Option<String>,
}

impl Tally {
    spec fn counts(self, states: Seq<CiStatus>, urls: Seq<Option<Seq<char>>>) -> bool {
        &&& self.passed == occurrences(states, CiStatus::Success)
        &&& self.failed == occurrences(states, CiStatus::Failure)
        &&& self.pending == occurrences(states, CiStatus::Pending)
        &&& self.any_neutral == (occurrences(states, CiStatus::Neutral) > 0)
        &&& opt_view(self.details_url) == first_url(urls)
    }

    fn new() -> (t: Tally)
        ensures
            t.counts(Seq::empty(), Seq::empty()),
    {
        Tally { passed: 0, failed: 0, pending: 0, any_neutral: false, details_url: None }
    }

    fn add(
        &mut self,
        state: CiStatus,
        url: &Option<String>,
        Ghost(states): Ghost<Seq<CiStatus>>,
        Ghost(urls): Ghost<Seq<Option<Seq<char>>>>,
    )
        requires
            old(self).counts(states, urls),
            states.len() < u32::MAX,
        ensures
            final(self).counts(states.push(state), urls.push(opt_view(*url))),
    {
        proof {
            lemma_occurrences(states, CiStatus::Success);
            lemma_occurrences(states, CiStatus::Failure);
            lemma_occurrences(states, CiStatus::Pending);
            assert(states.push(state).drop_last() == states);
            assert(urls.push(opt_view(*url)).drop_last() == urls);
        }
        match state {
            CiStatus::Success => {
                self.passed = self.passed + 1;
            },
            CiStatus::Failure => {
                self.failed = self.failed + 1;
            },
            CiStatus::Pending => {
                self.pending = self.pending + 1;
            },
            CiStatus::Neutral => {
                self.any_neutral = true;
            },
            CiStatus::Unknown => {},
        }
        if self.details_url.is_none() {
            self.details_url = url.clone();
        }
    }

    fn finish(self, oid: Oid, otherwise: CiStatus) -> (sum: CheckSummary)
        ensures
            forall|states: Seq<CiStatus>, urls: Seq<Option<Seq<char>>>| #[trigger]
                self.counts(states, urls) ==> summarizes(sum, oid, states, urls, otherwise),
    {
        let status = if self.failed > 0 {
            CiStatus::Failure
        } else if self.pending > 0 {
            CiStatus::Pending
        } else if self.any_neutral {
            CiStatus::Neutral
        } else if self.passed > 0 {
            CiStatus::Success
        } else {
            otherwise
        };
        CheckSummary {
            oid,
            status,
            passed: self.passed,
            failed: self.failed,
            pending: self.pending,
            details_url: self.details_url,
        }
    }
}

proof fn lemma_occurrences(states: Seq<CiStatus>, s: CiStatus)
    ensures
        occurrences(states, s) <= states.len(),
    decreases states.len(),
{
    if states.len() > 0 {
        lemma_occurrences(states.drop_last(), s);
    }
}

/// How many statuses of a GitHub commit are in one of two states.
pub open spec fn statuses_in(statuses: Seq<GhStatusEntry>, a: Seq<char>, b: Seq<char>) -> nat {
    statuses.filter(|s: GhStatusEntry| s.state@ == a || s.state@ == b).len()
}

/// How many runs of a GitHub commit passed.
pub open spec fn runs_passed(runs: Seq<GhCheckRun>) -> nat {
    runs.filter(|r: GhCheckRun| ended(r, "success"@)).len()
}

/// How many runs of a GitHub commit failed.
pub open spec fn runs_failed(runs: Seq<GhCheckRun>) -> nat {
    runs.filter(|r: GhCheckRun| ended(r, "failure"@) || ended(r, "timed_out"@)).len()
}

/// How many runs of a GitHub commit are open.
pub open spec fn runs_open(runs: Seq<GhCheckRun>) -> nat {
    runs.filter(
        |r: GhCheckRun| r.status@ != "completed"@ || ended(r, "action_required"@),
    ).len()
}

/// How many runs of a GitHub commit neither passed nor failed.
pub open spec fn runs_neutral(runs: Seq<GhCheckRun>) -> nat {
    runs.filter(
        |r: GhCheckRun|
            ended(r, "neutral"@) || ended(r, "cancelled"@) || ended(r, "skipped"@) || ended(
                r,
                "stale"@,
            ),
    ).len()
}

/// Whether the counts and the status of a summary go together: a commit has
/// failed if a check has, else is open if a check is, else is neutral if a
/// check is, else has passed if a check has, and else is as something else
/// says.
pub open spec fn fits_counts(sum: CheckSummary, neutral: nat, otherwise: CiStatus) -> bool {
    &&& sum.failed > 0 ==> sum.status == CiStatus::Failure
    &&& sum.failed == 0 && sum.pending > 0 ==> sum.status == CiStatus::Pending
    &&& sum.failed == 0 && sum.pending == 0 && neutral > 0 ==> sum.status == CiStatus::Neutral
    &&& sum.failed == 0 && sum.pending == 0 && neutral == 0 && sum.passed > 0 ==> sum.status
        == CiStatus::Success
    &&& sum.failed == 0 && sum.pending == 0 && neutral == 0 && sum.passed == 0 ==> sum.status
        == otherwise
}

proof fn lemma_status_counts(statuses: Seq<GhStatusEntry>)
    ensures
        ({
            let states = statuses.map_values(|s: GhStatusEntry| github_state(s.state@));
            &&& occurrences(states, CiStatus::Success) == statuses_in(
                statuses,
                "success"@,
                "success"@,
            )
            &&& occurrences(states, CiStatus::Failure) == statuses_in(
                statuses,
                "failure"@,
                "error"@,
            )
            &&& occurrences(states, CiStatus::Pending) == statuses_in(
                statuses,
                "pending"@,
                "pending"@,
            )
            &&& occurrences(states, CiStatus::Neutral) == 0
        }),
    decreases statuses.len(),
{
    reveal(Seq::filter);
    let states = statuses.map_values(|s: GhStatusEntry| github_state(s.state@));
    if statuses.len() > 0 {
        let init = statuses.drop_last();
        lemma_status_counts(init);
        assert(states.drop_last() =~= init.map_values(
            |s: GhStatusEntry| github_state(s.state@),
        ));
        law_statuses(statuses.last().state@);
    }
}

proof fn lemma_run_counts(runs: Seq<GhCheckRun>)
    ensures
        ({
            let states = runs.map_values(|r: GhCheckRun| run_state(r));
            &&& occurrences(states, CiStatus::Success) == runs_passed(runs)
            &&& occurrences(states, CiStatus::Failure) == runs_failed(runs)
            &&& occurrences(states, CiStatus::Pending) == runs_open(runs)
            &&& occurrences(states, CiStatus::Neutral) == runs_neutral(runs)
        }),
    decreases runs.len(),
{
    reveal(Seq::filter);
    let states = runs.map_values(|r: GhCheckRun| run_state(r));
    if runs.len() > 0 {
        let init = runs.drop_last();
        lemma_run_counts(init);
        assert(states.drop_last() =~= init.map_values(|r: GhCheckRun| run_state(r)));
        law_runs(runs.last());
    }
}

/// A summary counts each check once, under what became of it: those that
/// concluded in success as passed, those that failed as failed, those that
/// are not finished as open. One that was called off or passed over is in
/// none of the counts.
pub proof fn law_github_counts(
    sum: CheckSummary,
    oid: Oid,
    statuses: Seq<GhStatusEntry>,
    runs: Seq<GhCheckRun>,
    otherwise: CiStatus,
)
    requires
        summarizes(
            sum,
            oid,
            github_states(statuses, runs),
            github_urls(statuses, runs),
            otherwise,
        ),
    ensures
        sum.passed == statuses_in(statuses, "success"@, "success"@) + runs_passed(runs),
        sum.failed == statuses_in(statuses, "failure"@, "error"@) + runs_failed(runs),
        sum.pending == statuses_in(statuses, "pending"@, "pending"@) + runs_open(runs),
        fits_counts(sum, runs_neutral(runs), otherwise),
{
    let a = statuses.map_values(|s: GhStatusEntry| github_state(s.state@));
    let b = runs.map_values(|r: GhCheckRun| run_state(r));
    lemma_status_counts(statuses);
    lemma_run_counts(runs);
    lemma_occurrences_add(a, b, CiStatus::Success);
    lemma_occurrences_add(a, b, CiStatus::Failure);
    lemma_occurrences_add(a, b, CiStatus::Pending);
    lemma_occurrences_add(a, b, CiStatus::Neutral);
}

/// How many statuses of a GitLab commit are in a state.
pub open spec fn gitlab_statuses_in(statuses: Seq<GlStatus>, state: Seq<char>) -> nat {
    statuses.filter(|s: GlStatus| s.status@ == state).len()
}

/// How many statuses of a GitLab commit are of checks that have not ended.
pub open spec fn gitlab_open(statuses: Seq<GlStatus>) -> nat {
    statuses.filter(|s: GlStatus| is_under_way(s.status@)).len()
}

/// How many statuses of a GitLab commit count for nothing.
pub open spec fn gitlab_neutral(statuses: Seq<GlStatus>) -> nat {
    statuses.filter(
        |s: GlStatus|
            s.status@ == "canceled"@ || s.status@ == "skipped"@ || s.status@ == "manual"@,
    ).len()
}

/// A summary counts each status of a GitLab commit once, under what it says.
pub proof fn law_gitlab_counts(
    sum: CheckSummary,
    oid: Oid,
    statuses: Seq<GlStatus>,
    otherwise: CiStatus,
)
    requires
        summarizes(sum, oid, gitlab_states(statuses), gitlab_urls(statuses), otherwise),
    ensures
        sum.passed == gitlab_statuses_in(statuses, "success"@),
        sum.failed == gitlab_statuses_in(statuses, "failed"@),
        sum.pending == gitlab_open(statuses),
        fits_counts(sum, gitlab_neutral(statuses), otherwise),
{
    lemma_gitlab_counts(statuses);
}

proof fn lemma_gitlab_counts(statuses: Seq<GlStatus>)
    ensures
        occurrences(gitlab_states(statuses), CiStatus::Success) == gitlab_statuses_in(
            statuses,
            "success"@,
        ),
        occurrences(gitlab_states(statuses), CiStatus::Failure) == gitlab_statuses_in(
            statuses,
            "failed"@,
        ),
        occurrences(gitlab_states(statuses), CiStatus::Pending) == gitlab_open(statuses),
        occurrences(gitlab_states(statuses), CiStatus::Neutral) == gitlab_neutral(statuses),
    decreases statuses.len(),
{
    reveal(Seq::filter);
    if statuses.len() > 0 {
        let init = statuses.drop_last();
        lemma_gitlab_counts(init);
        assert(gitlab_states(statuses).drop_last() =~= gitlab_states(init));
        law_gitlab_statuses(statuses.last().status@);
    }
}

/// Whether the address of a summary is that of the first check that has one.
pub open spec fn is_first_url(url: Option<Seq<char>>, urls: Seq<Option<Seq<char>>>) -> bool {
    match url {
        None => forall|i: int| 0 <= i < urls.len() ==> #[trigger] urls[i] is None,
        Some(u) => exists|i: int|
            {
                &&& 0 <= i < urls.len()
                &&& #[trigger] urls[i] == Some(u)
                &&& forall|k: int| 0 <= k < i ==> #[trigger] urls[k] is None
            },
    }
}

/// The address of a summary is that of the first check that has one.
pub proof fn law_first_address(urls: Seq<Option<Seq<char>>>)
    ensures
        is_first_url(first_url(urls), urls),
    decreases urls.len(),
{
    if urls.len() > 0 {
        let init = urls.drop_last();
        law_first_address(init);
        match first_url(init) {
            Some(u) => {
                let i = choose|i: int|
                    {
                        &&& 0 <= i < init.len()
                        &&& #[trigger] init[i] == Some(u)
                        &&& forall|k: int| 0 <= k < i ==> #[trigger] init[k] is None
                    };
                assert(urls[i] == Some(u));
                assert forall|k: int| 0 <= k < i implies #[trigger] urls[k] is None by {
                    assert(init[k] is None);
                }
            },
            None => {
                assert forall|k: int| 0 <= k < init.len() implies #[trigger] urls[k] is None by {
                    assert(init[k] is None);
                }
                assert(urls[urls.len() - 1] == first_url(urls));
            },
        }
    }
}

/// The statuses of an answer, if there is one.
pub open spec fn statuses_of(combined: Option<&GhCombinedStatus>) -> Seq<GhStatusEntry> {
    match combined {
        Some(c) => c.statuses@,
        None => Seq::empty(),
    }
}

/// What the answer about all statuses says by itself.
pub open spec fn top_level(combined: Option<&GhCombinedStatus>) -> CiStatus {
    match combined {
        Some(c) => github_state(c.state@),
        None => CiStatus::Unknown,
    }
}

/// The checks of a GitHub commit, from the answers about its statuses and
/// about its runs; an answer that did not come, or cannot be read, is left
/// out. A commit without a check has no summary. Where the state of no check is
/// known, the answer about all statuses decides.
pub fn github_summary(
    oid: Oid,
    combined: Option<&GhCombinedStatus>,
    runs: &[GhCheckRun],
) -> (out: Option<CheckSummary>)
    requires
        statuses_of(combined).len() + runs@.len() <= u32::MAX,
    ensures
        out is None <==> statuses_of(combined).len() + runs@.len() == 0,
        out matches Some(sum) ==> summarizes(
            sum,
            oid,
            github_states(statuses_of(combined), runs@),
            github_urls(statuses_of(combined), runs@),
            top_level(combined),
        ),
        out matches Some(sum) ==> {
            let statuses = statuses_of(combined);
            &&& sum.oid == oid
            &&& sum.passed == statuses_in(statuses, "success"@, "success"@) + runs_passed(runs@)
            &&& sum.failed == statuses_in(statuses, "failure"@, "error"@) + runs_failed(runs@)
            &&& sum.pending == statuses_in(statuses, "pending"@, "pending"@) + runs_open(runs@)
            &&& fits_counts(sum, runs_neutral(runs@), top_level(combined))
            &&& is_first_url(opt_view(sum.details_url), github_urls(statuses, runs@))
        },
{
    let ghost statuses = statuses_of(combined);
    let ghost states = github_states(statuses, runs@);
    let ghost urls = github_urls(statuses, runs@);
    let mut tally = Tally::new();
    let mut otherwise = CiStatus::Unknown;
    let mut recorded = false;
    proof {
        assert(states.take(0) =~= Seq::empty());
        assert(urls.take(0) =~= Seq::empty());
    }
    if let Some(c) = combined {
        otherwise = classify_github_state(c.state.as_str());
        let mut i: usize = 0;
        while i < c.statuses.len()
            invariant
                i <= c.statuses@.len(),
                c.statuses@ == statuses,
                statuses.len() + runs@.len() <= u32::MAX,
                states == github_states(statuses, runs@),
                urls == github_urls(statuses, runs@),
                tally.counts(states.take(i as int), urls.take(i as int)),
                recorded == (i > 0),
            decreases c.statuses.len() - i,
        {
            let state = classify_github_state(c.statuses[i].state.as_str());
            tally.add(
                state,
                &c.statuses[i].target_url,
                Ghost(states.take(i as int)),
                Ghost(urls.take(i as int)),
            );
            proof {
                assert(states.take(i + 1) =~= states.take(i as int).push(state));
                assert(urls.take(i + 1) =~= urls.take(i as int).push(
                    opt_view(c.statuses@[i as int].target_url),
                ));
            }
            recorded = true;
            i += 1;
        }
    }
    let mut j: usize = 0;
    let ghost n = statuses.len() as int;
    while j < runs.len()
        invariant
            j <= runs@.len(),
            n == statuses.len(),
            n + runs@.len() <= u32::MAX,
            states == github_states(statuses, runs@),
            urls == github_urls(statuses, runs@),
            tally.counts(states.take(n + j), urls.take(n + j)),
            recorded == (n + j > 0),
        decreases runs.len() - j,
    {
        let state = classify_check_run(&runs[j]);
        tally.add(
            state,
            &runs[j].html_url,
            Ghost(states.take(n + j)),
            Ghost(urls.take(n + j)),
        );
        proof {
            assert(states.take(n + j + 1) =~= states.take(n + j).push(state));
            assert(urls.take(n + j + 1) =~= urls.take(n + j).push(
                opt_view(runs@[j as int].html_url),
            ));
        }
        recorded = true;
        j += 1;
    }
    proof {
        assert(states.take(n + runs@.len()) =~= states);
        assert(urls.take(n + runs@.len()) =~= urls);
    }
    if !recorded {
        return None;
    }
    let sum = tally.finish(oid, otherwise);
    proof {
        law_github_counts(sum, oid, statuses, runs@, otherwise);
        law_first_address(urls);
    }
    Some(sum)
}

/// The states of the statuses of a GitLab commit.
pub open spec fn gitlab_states(statuses: Seq<GlStatus>) -> Seq<CiStatus> {
    statuses.map_values(|s: GlStatus| gitlab_state(s.status@))
}

/// The addresses of the statuses of a GitLab commit.
pub open spec fn gitlab_urls(statuses: Seq<GlStatus>) -> Seq<Option<Seq<char>>> {
    statuses.map_values(|s: GlStatus| opt_view(s.target_url))
}

/// The checks of a GitLab commit. A commit without a status has no summary.
pub fn gitlab_summary(oid: Oid, statuses: &[GlStatus]) -> (out: Option<CheckSummary>)
    requires
        statuses@.len() <= u32::MAX,
    ensures
        out is None <==> statuses@.len() == 0,
        out matches Some(sum) ==> summarizes(
            sum,
            oid,
            gitlab_states(statuses@),
            gitlab_urls(statuses@),
            CiStatus::Unknown,
        ),
        out matches Some(sum) ==> {
            &&& sum.passed == gitlab_statuses_in(statuses@, "success"@)
            &&& sum.failed == gitlab_statuses_in(statuses@, "failed"@)
            &&& sum.pending == gitlab_open(statuses@)
            &&& fits_counts(sum, gitlab_neutral(statuses@), CiStatus::Unknown)
            &&& is_first_url(opt_view(sum.details_url), gitlab_urls(statuses@))
        },
{
    if statuses.len() == 0 {
        return None;
    }
    let ghost states = gitlab_states(statuses@);
    let ghost urls = gitlab_urls(statuses@);
    let mut tally = Tally::new();
    let mut i: usize = 0;
    proof {
        assert(states.take(0) =~= Seq::empty());
        assert(urls.take(0) =~= Seq::empty());
    }
    while i < statuses.len()
        invariant
            i <= statuses@.len() <= u32::MAX,
            states == gitlab_states(statuses@),
            urls == gitlab_urls(statuses@),
            tally.counts(states.take(i as int), urls.take(i as int)),
        decreases statuses.len() - i,
    {
        let state = classify_gitlab_state(statuses[i].status.as_str());
        tally.add(
            state,
            &statuses[i].target_url,
            Ghost(states.take(i as int)),
            Ghost(urls.take(i as int)),
        );
        proof {
            assert(states.take(i + 1) =~= states.take(i as int).push(state));
            assert(urls.take(i + 1) =~= urls.take(i as int).push(
                opt_view(statuses@[i as int].target_url),
            ));
        }
        i += 1;
    }
    proof {
        assert(states.take(statuses@.len() as int) =~= states);
        assert(urls.take(statuses@.len() as int) =~= urls);
    }
    let sum = tally.finish(oid, CiStatus::Unknown);
    proof {
        law_gitlab_counts(sum, oid, statuses@, CiStatus::Unknown);
        law_first_address(urls);
    }
    Some(sum)
}

/// The counts of a summary fit its status: it is a failure where one is
/// counted, and where none is, it is open where an open check is counted. A
/// success counts where nothing more alarming does: no failure, no open check,
/// and none that is neutral.
pub proof fn law_counts_match_status(
    sum: CheckSummary,
    oid: Oid,
    states: Seq<CiStatus>,
    urls: Seq<Option<Seq<char>>>,
    otherwise: CiStatus,
)
    requires
        summarizes(sum, oid, states, urls, otherwise),
    ensures
        sum.failed > 0 ==> sum.status == CiStatus::Failure,
        sum.failed == 0 && sum.pending > 0 ==> sum.status == CiStatus::Pending,
        sum.failed == 0 && sum.pending == 0 && sum.passed > 0 ==> sum.status == (if occurrences(
            states,
            CiStatus::Neutral,
        ) > 0 {
            CiStatus::Neutral
        } else {
            CiStatus::Success
        }),
{
}

proof fn lemma_occurs(states: Seq<CiStatus>, i: int)
    requires
        0 <= i < states.len(),
    ensures
        occurrences(states, states[i]) > 0,
    decreases states.len(),
{
    if i < states.len() - 1 {
        lemma_occurs(states.drop_last(), i);
        assert(states.drop_last()[i] == states[i]);
    }
}

proof fn lemma_occurrence(states: Seq<CiStatus>, s: CiStatus) -> (i: int)
    requires
        occurrences(states, s) > 0,
    ensures
        0 <= i < states.len(),
        states[i] == s,
    decreases states.len(),
{
    if states.last() == s {
        states.len() - 1
    } else {
        lemma_occurrence(states.drop_last(), s)
    }
}

/// Checks come to the most alarming state among them: no check is more
/// alarming, and where the state of any check is known, one of them has it.
pub proof fn law_most_alarming_state(states: Seq<CiStatus>, otherwise: CiStatus, i: int)
    requires
        0 <= i < states.len(),
    ensures
        severity(states[i]) <= severity(rollup(states, otherwise)),
        states[i] != CiStatus::Unknown ==> states.contains(rollup(states, otherwise)),
{
    lemma_occurs(states, i);
    if states[i] != CiStatus::Unknown {
        let k = lemma_occurrence(states, rollup(states, otherwise));
        assert(states[k] == rollup(states, otherwise));
    }
}

proof fn lemma_occurrences_add(a: Seq<CiStatus>, b: Seq<CiStatus>, s: CiStatus)
    ensures
        occurrences(a + b, s) == occurrences(a, s) + occurrences(b, s),
    decreases b.len(),
{
    if b.len() == 0 {
        assert(a + b == a);
    } else {
        lemma_occurrences_add(a, b.drop_last(), s);
        assert((a + b).drop_last() == a + b.drop_last());
    }
}

/// It does not matter in which order checks are put together.
pub proof fn law_order_of_checks(a: Seq<CiStatus>, b: Seq<CiStatus>, otherwise: CiStatus)
    ensures
        rollup(a + b, otherwise) == rollup(b + a, otherwise),
{
    lemma_occurrences_add(a, b, CiStatus::Failure);
    lemma_occurrences_add(b, a, CiStatus::Failure);
    lemma_occurrences_add(a, b, CiStatus::Pending);
    lemma_occurrences_add(b, a, CiStatus::Pending);
    lemma_occurrences_add(a, b, CiStatus::Neutral);
    lemma_occurrences_add(b, a, CiStatus::Neutral);
    lemma_occurrences_add(a, b, CiStatus::Success);
    lemma_occurrences_add(b, a, CiStatus::Success);
}

/// Whether a host is asked about checks.
pub fn is_asked(kind: &ProviderKind) -> (r: bool)
    ensures
        r == (kind is GitHub || kind is GitLab),
{
    match kind {
        ProviderKind::GitHub | ProviderKind::GitLab => true,
        _ => false,
    }
}

/// How many of the commits are asked about: the first ones.
pub fn asked_count(commits: usize) -> (n: usize)
    ensures
        n == (if commits > 50 {
            50
        } else {
            commits
        }),
{
    if commits > MAX_OIDS {
        MAX_OIDS
    } else {
        commits
    }
}

/// A request for what GitHub has about a commit.
pub open spec fn github_commit_url(
    owner: Seq<char>,
    repo: Seq<char>,
    sha: Seq<char>,
    what: Seq<char>,
) -> Seq<char> {
    "https://api.github.com/repos/"@ + owner + "/"@ + repo + "/commits/"@ + sha + "/"@ + what
}

fn github_url(owner: &str, repo: &str, oid: &Oid, what: &str) -> (out: String)
    ensures
        out@ == github_commit_url(owner@, repo@, oid.text(), what@),
{
    let mut out: String = "https://api.github.com/repos/".to_string();
    out.append(owner);
    out.append("/");
    out.append(repo);
    out.append("/commits/");
    out.append(oid.to_hex().as_str());
    out.append("/");
    out.append(what);
    out
}

/// The request for the statuses of a GitHub commit.
pub fn github_status_url(owner: &str, repo: &str, oid: &Oid) -> (out: String)
    ensures
        out@ == github_commit_url(owner@, repo@, oid.text(), "status"@),
{
    github_url(owner, repo, oid, "status")
}

/// The request for the runs of a GitHub commit.
pub fn github_runs_url(owner: &str, repo: &str, oid: &Oid) -> (out: String)
    ensures
        out@ == github_commit_url(owner@, repo@, oid.text(), "check-runs"@),
{
    github_url(owner, repo, oid, "check-runs")
}

/// The request for the statuses of a GitLab commit.
pub fn gitlab_statuses_url(owner: &str, repo: &str, oid: &Oid) -> (out: String)
    ensures
        out@ == "https://gitlab.com/api/v4/projects/"@ + (owner@ + "%2F"@ + repo@)
            + "/repository/commits/"@ + oid.text() + "/statuses"@,
{
    let mut project: String = owner.to_string();
    project.append("%2F");
    project.append(repo);
    let mut out: String = "https://gitlab.com/api/v4/projects/".to_string();
    out.append(project.as_str());
    out.append("/repository/commits/");
    out.append(oid.to_hex().as_str());
    out.append("/statuses");
    out
}

/// What the status of an answer means for the checks of a commit: `true` if
/// there is a body to read, `false` if the host has nothing.
pub fn check_reply(status: u16, body: &str) -> (r: Result<bool, ProviderError>)
    ensures
        status == 200 ==> r == Ok::<bool, ProviderError>(true),
        status == 404 ==> r == Ok::<bool, ProviderError>(false),
        status == 401 || status == 403 ==> r == Err::<bool, ProviderError>(
            ProviderError::Unauthorized,
        ),
        status != 200 && status != 404 && status != 401 && status != 403 ==> (r matches Err(e)
            && is_other(e, status, body@)),
{
    match status {
        200 => Ok(true),
        404 => Ok(false),
        401 | 403 => Err(ProviderError::Unauthorized),
        _ => Err(other_status(status, body)),
    }
}

} // verus!
