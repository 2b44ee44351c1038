//! The blame window: who wrote which line of a file, and when.

use vstd::prelude::*;

use crate::calendar::{date_text, format_ts};
use crate::text::{chars_of, decimal, digits, first_chars, pad_start, padded, string_of, take_chars};

verus! {

/// The commit that a line comes from.
#[derive(Clone, Debug, PartialEq, Eq)]
pub struct BlameCommit {
    pub sha: String,
    pub author: String,
    pub author_email: String,
    pub author_time: i64,
    pub summary: String,
}

/// A line of a file and the commit that it comes from.
#[derive(Clone, Debug, PartialEq, Eq)]
pub struct BlameLine {
    pub line_no: usize,
    pub content: String,
    pub commit: BlameCommit,
}

/// All lines of a file.
#[derive(Clone, Debug, PartialEq, Eq)]
pub struct BlameResult {
    pub path: String,
    pub lines: Vec<BlameLine>,
}

/// A blame that is being computed.
#[derive(Debug)]
pub struct BlameTask {
    pub path: String,
    /// What came out, once it is there and until it is fetched.
    pub outcome: Option<Result<BlameResult, String>>,
}

impl BlameTask {
    pub fn new(path: String) -> (task: Self)
        ensures
            task.path == path,
            task.outcome is None,
    {
        BlameTask { path, outcome: None }
    }

    /// Puts in what came out.
    pub fn deliver(&mut self, outcome: Result<BlameResult, String>)
        ensures
            final(self).path == old(self).path,
            final(self).outcome == Some(outcome),
    {
        self.outcome = Some(outcome);
    }

    /// Fetches what came out, once.
    pub fn poll(&mut self) -> (outcome: Option<Result<BlameResult, String>>)
        ensures
            final(self).path == old(self).path,
            outcome == old(self).outcome,
            final(self).outcome is None,
    {
        self.outcome.take()
    }
}

/// State of the blame window.
#[derive(Debug)]
pub struct BlameState {
    pub open: bool,
    pub task: Option<BlameTask>,
    pub result: Option<BlameResult>,
    pub error: Option<String>,
}

impl Default for BlameState {
    fn default() -> (s: Self)
        ensures
            !s.open,
            s.task is None,
            s.result is None,
            s.error is None,
    {
        BlameState { open: false, task: None, result: None, error: None }
    }
}

impl BlameState {
    /// Takes over what the running task came to, if it came to anything: a
    /// result or an error, never both.
    pub fn refresh(&mut self)
        ensures
            final(self).open == old(self).open,
            match old(self).task {
                Some(task) => match task.outcome {
                    Some(Ok(result)) => {
                        &&& final(self).task is None
                        &&& final(self).result == Some(result)
                        &&& final(self).error is None
                    },
                    Some(Err(error)) => {
                        &&& final(self).task is None
                        &&& final(self).result is None
                        &&& final(self).error == Some(error)
                    },
                    None => {
                        &&& final(self).task is Some
                        &&& final(self).task->0.outcome is None
                        &&& final(self).task->0.path == task.path
                        &&& final(self).result == old(self).result
                        &&& final(self).error == old(self).error
                    },
                },
                None => {
                    &&& final(self).task is None
                    &&& final(self).result == old(self).result
                    &&& final(self).error == old(self).error
                },
            },
    {
        if let Some(mut task) = self.task.take() {
            match task.poll() {
                Some(Ok(result)) => {
                    self.result = Some(result);
                    self.error = None;
                },
                Some(Err(error)) => {
                    self.error = Some(error);
                    self.result = None;
                },
                None => {
                    self.task = Some(task);
                },
            }
        }
    }
}

/// The first eight digits of a commit's name.
pub fn short_sha(sha: &str) -> (out: String)
    ensures
        out@ == first_chars(sha@, 8),
{
    take_chars(sha, 8)
}

/// A text cut to `max` characters, the last of which then is an ellipsis.
pub open spec fn truncated(s: Seq<char>, max: nat) -> Seq<char> {
    if s.len() <= max {
        s
    } else {
        s.take(
            if max > 0 {
                max - 1
            } else {
                0
            },
        ).push('…')
    }
}

/// A text cut to `max` characters, the last of which then is an ellipsis.
pub fn truncate(s: &str, max: usize) -> (out: String)
    ensures
        out@ == truncated(s@, max as nat),
{
    let chars = chars_of(s);
    if chars.len() <= max {
        return s.to_owned();
    }
    let n: usize = if max > 0 {
        max - 1
    } else {
        0
    };
    let mut out = string_of(&chars, 0, n);
    out.push('…');
    proof {
        assert(s@.subrange(0, n as int) == s@.take(n as int));
    }
    out
}

/// A line number, five characters wide.
pub fn line_number_text(line_no: usize) -> (out: String)
    ensures
        out@ == padded(digits(line_no as nat), ' ', 5),
{
    pad_start(decimal(line_no as u64).as_str(), ' ', 5)
}

/// The hash of some bytes: for each, the hash so far is combined with the
/// byte and multiplied.
pub open spec fn fnv(bytes: Seq<u8>) -> u64
    decreases bytes.len(),
{
    if bytes.len() == 0 {
        0xcbf29ce484222325
    } else {
        (fnv(bytes.drop_last()) ^ (bytes.last() as u64)).wrapping_mul(0x100000001b3)
    }
}

/// The 64-bit FNV-1a hash of some bytes.
pub fn fnv1a(bytes: &[u8]) -> (h: u64)
    ensures
        h == fnv(bytes@),
{
    let mut h: u64 = 0xcbf29ce484222325;
    let mut i: usize = 0;
    while i < bytes.len()
        invariant
            i <= bytes@.len(),
            h == fnv(bytes@.take(i as int)),
        decreases bytes.len() - i,
    {
        proof {
            assert(bytes@.take(i + 1).drop_last() == bytes@.take(i as int));
        }
        h = (h ^ (bytes[i] as u64)).wrapping_mul(0x100000001b3);
        i += 1;
    }
    proof {
        assert(bytes@.take(bytes@.len() as int) == bytes@);
    }
    h
}

/// The hue, in degrees, of an author. The same author always has the same.
pub fn author_hue(key: &str) -> (hue: u64)
    ensures
        hue == fnv(vstd::utf8::encode_utf8(key@)) % 360,
{
    fnv1a(key.as_bytes()) % 360
}

/// The day of a time, blank where it is not known.
pub open spec fn day_text(unix: int) -> Seq<char> {
    if unix <= 0 {
        "          "@
    } else {
        date_text(unix / 86400)
    }
}

/// A line as it is copied: commit, author, day, number and content, with tabs
/// in between.
pub open spec fn copied_line(line: BlameLine) -> Seq<char> {
    first_chars(line.commit.sha@, 8) + "\t"@ + line.commit.author@ + "\t"@ + day_text(
        line.commit.author_time as int,
    ) + "\t"@ + digits(line.line_no as nat) + "\t"@ + line.content@
}

/// Lines as they are copied, one below the other.
pub open spec fn copied_lines(lines: Seq<BlameLine>) -> Seq<char>
    decreases lines.len(),
{
    if lines.len() == 0 {
        Seq::empty()
    } else if lines.len() == 1 {
        copied_line(lines[0])
    } else {
        copied_lines(lines.drop_last()) + "\n"@ + copied_line(lines.last())
    }
}

/// All lines of a file as they are copied.
pub fn copy_text(lines: &[BlameLine]) -> (out: String)
    ensures
        out@ == copied_lines(lines@),
{
    let mut out: String = String::new();
    let mut i: usize = 0;
    while i < lines.len()
        invariant
            i <= lines@.len(),
            out@ == copied_lines(lines@.take(i as int)),
        decreases lines.len() - i,
    {
        let line = &lines[i];
        proof {
            assert(lines@.take(i + 1).drop_last() == lines@.take(i as int));
        }
        let mut text: String = short_sha(line.commit.sha.as_str());
        text.append("\t");
        text.append(line.commit.author.as_str());
        text.append("\t");
        text.append(format_ts(line.commit.author_time).as_str());
        text.append("\t");
        text.append(decimal(line.line_no as u64).as_str());
        text.append("\t");
        text.append(line.content.as_str());
        proof {
            assert(text@ == copied_line(*line));
        }
        if i > 0 {
            out.append("\n");
            out.append(text.as_str());
        } else {
            out = text;
        }
        i += 1;
    }
    proof {
        assert(lines@.take(lines@.len() as int) == lines@);
    }
    out
}

} // verus!
