//! Finding the first bad commit.

use vstd::prelude::*;

use crate::text::{blank, decimal, digits, is_blank, opt_view, trim, trimmed};

verus! {

/// How far a session is.
#[derive(Debug, Clone)]
pub struct BisectStatus {
    pub last_progress: String,
    pub good_count: usize,
    pub bad_count: usize,
    pub skip_count: usize,
    pub concluded: bool,
    pub conclusion_sha: Option<String>,
}

/// The state of the window.
pub struct BisectUiState {
    pub open: bool,
    pub status: Option<BisectStatus>,
    pub start_bad: String,
    pub start_good: String,
}

impl Default for BisectUiState {
    fn default() -> (s: BisectUiState)
        ensures
            !s.open,
            s.status is None,
            s.start_bad@ == ""@,
            s.start_good@ == ""@,
    {
        BisectUiState {
            open: false,
            status: None,
            start_bad: "".to_string(),
            start_good: "".to_string(),
        }
    }
}

/// What was clicked.
#[derive(Debug, Clone)]
pub enum Intent {
    Start { bad: String, good: String },
    Bad,
    Good,
    Skip,
    Reset,
}

/// What is asked of the repository.
#[derive(Debug, Clone)]
pub enum BisectCommand {
    /// Without a bad commit, the checked-out one is meant.
    Start { bad: Option<String>, good: String },
    Bad,
    Good,
    Skip,
    Reset,
}

impl BisectUiState {
    /// Whether the status is to be read: in a session whose status is not
    /// known. Where there is no session, a known status is forgotten.
    pub fn sync(&mut self, active: bool) -> (read_status: bool)
        ensures
            read_status == (active && old(self).status is None),
            *final(self) == (BisectUiState {
                status: if active {
                    old(self).status
                } else {
                    None
                },
                ..*old(self)
            }),
    {
        if !active {
            self.status = None;
        }
        active && self.status.is_none()
    }

    /// Whether a session can start: with a good commit.
    pub fn can_start(&self) -> (r: bool)
        ensures
            r == !is_blank(self.start_good@),
    {
        !blank(self.start_good.as_str())
    }

    /// What the start of a session asks for, if one can start.
    pub fn start(&self) -> (r: Option<Intent>)
        ensures
            r is Some <==> !is_blank(self.start_good@),
            r matches Some(i) ==> (i matches Intent::Start { bad, good } && bad@ == trim(
                self.start_bad@,
            ) && good@ == trim(self.start_good@)),
    {
        if !self.can_start() {
            return None;
        }
        Some(
            Intent::Start {
                bad: trimmed(self.start_bad.as_str()),
                good: trimmed(self.start_good.as_str()),
            },
        )
    }

    /// What follows when the repository has done what was asked: the status
    /// is read anew. After a failure it stays.
    pub fn finish(&mut self, done: bool)
        ensures
            *final(self) == (BisectUiState {
                status: if done {
                    None
                } else {
                    old(self).status
                },
                ..*old(self)
            }),
    {
        if done {
            self.status = None;
        }
    }

    /// Closes the window on its button, or on Escape where no text is typed.
    pub fn close(&mut self, clicked: bool, escape: bool, typing: bool)
        ensures
            *final(self) == (BisectUiState {
                open: old(self).open && !clicked && !(escape && !typing),
                ..*old(self)
            }),
    {
        if clicked || (!typing && escape && self.open) {
            self.open = false;
        }
    }
}

/// Whether a command is what an intent asks for.
pub open spec fn asks(c: BisectCommand, i: Intent) -> bool {
    match i {
        Intent::Start { bad, good } => c matches BisectCommand::Start { bad: b, good: g } && g@
            == good@ && opt_view(b) == (if bad@.len() == 0 {
            None
        } else {
            Some(bad@)
        }),
        Intent::Bad => c is Bad,
        Intent::Good => c is Good,
        Intent::Skip => c is Skip,
        Intent::Reset => c is Reset,
    }
}

/// What an intent asks of the repository.
pub fn command_of(intent: Intent) -> (c: BisectCommand)
    ensures
        asks(c, intent),
{
    match intent {
        Intent::Start { bad, good } => {
            let b = if bad.as_str().is_empty() {
                None
            } else {
                Some(bad)
            };
            BisectCommand::Start { bad: b, good }
        },
        Intent::Bad => BisectCommand::Bad,
        Intent::Good => BisectCommand::Good,
        Intent::Skip => BisectCommand::Skip,
        Intent::Reset => BisectCommand::Reset,
    }
}

/// What a session that has ended says.
pub fn conclusion_text(status: &BisectStatus) -> (out: Option<String>)
    ensures
        out is Some <==> status.concluded,
        out matches Some(text) ==> text@ == "First bad commit: "@ + (match status.conclusion_sha {
            Some(sha) => sha@,
            None => "(unknown SHA)"@,
        }),
{
    if !status.concluded {
        return None;
    }
    let mut out: String = "First bad commit: ".to_string();
    match &status.conclusion_sha {
        Some(sha) => {
            out.append(sha.as_str());
        },
        None => {
            out.append("(unknown SHA)");
        },
    }
    Some(out)
}

fn counter(name: &str, n: usize) -> (out: String)
    ensures
        out@ == name@ + digits(n as nat),
{
    let mut out: String = name.to_string();
    out.append(decimal(n as u64).as_str());
    out
}

/// The counters of a session: good, bad and skipped commits.
pub fn counters(status: &BisectStatus) -> (out: (String, String, String))
    ensures
        out.0@ == "✓ good: "@ + digits(status.good_count as nat),
        out.1@ == "✗ bad: "@ + digits(status.bad_count as nat),
        out.2@ == "⇢ skip: "@ + digits(status.skip_count as nat),
{
    (
        counter("✓ good: ", status.good_count),
        counter("✗ bad: ", status.bad_count),
        counter("⇢ skip: ", status.skip_count),
    )
}

/// Each click asks for its own command. A session without a bad commit starts
/// from the one that is checked out.
pub proof fn law_clicks_ask_for_their_own(c: BisectCommand, i: Intent)
    requires
        asks(c, i),
    ensures
        c is Bad <==> i is Bad,
        c is Good <==> i is Good,
        c is Skip <==> i is Skip,
        c is Reset <==> i is Reset,
        i matches Intent::Start { bad, good } ==> (c matches BisectCommand::Start { bad: b, good: g }
            && g@ == good@ && (b is None <==> bad@.len() == 0) && (b matches Some(x) ==> x@ == bad@)),
{
}

} // verus!
