//! The addresses of hosts and their repositories.

use vstd::prelude::*;

use crate::text::{chars_of, string_of};

verus! {

/// A text without the slashes at its end.
pub open spec fn without_slashes(s: Seq<char>) -> Seq<char>
    decreases s.len(),
{
    if s.len() > 0 && s.last() == '/' {
        without_slashes(s.drop_last())
    } else {
        s
    }
}

/// A text without the slashes at its end.
pub fn trim_slashes(text: &str) -> (out: String)
    ensures
        out@ == without_slashes(text@),
{
    let chars = chars_of(text);
    let mut n: usize = chars.len();
    proof {
        assert(text@.take(n as int) == text@);
    }
    while n > 0 && chars[n - 1] == '/'
        invariant
            chars@ == text@,
            n <= chars@.len(),
            without_slashes(text@.take(n as int)) == without_slashes(text@),
        decreases n,
    {
        proof {
            assert(text@.take(n as int).drop_last() == text@.take(n - 1));
        }
        n -= 1;
    }
    let out = string_of(&chars, 0, n);
    proof {
        assert(out@ =~= text@.take(n as int));
    }
    out
}

/// What is left has no slash at its end, and gives itself again.
pub proof fn lemma_without_slashes(s: Seq<char>)
    ensures
        without_slashes(s).len() > 0 ==> without_slashes(s).last() != '/',
        without_slashes(without_slashes(s)) == without_slashes(s),
    decreases s.len(),
{
    if s.len() > 0 && s.last() == '/' {
        lemma_without_slashes(s.drop_last());
    }
}

/// The address of a repository over HTTPS.
pub open spec fn https_address(host: Seq<char>, owner: Seq<char>, repo: Seq<char>) -> Seq<char> {
    "https://"@ + host + "/"@ + owner + "/"@ + repo + ".git"@
}

/// The address of a repository over SSH.
pub open spec fn ssh_address(host: Seq<char>, owner: Seq<char>, repo: Seq<char>) -> Seq<char> {
    "git@"@ + host + ":"@ + owner + "/"@ + repo + ".git"@
}

/// The address of a repository over HTTPS.
pub fn clone_https(host: &str, owner: &str, repo: &str) -> (out: String)
    ensures
        out@ == https_address(host@, owner@, repo@),
{
    let mut out: String = "https://".to_string();
    out.append(host);
    out.append("/");
    out.append(owner);
    out.append("/");
    out.append(repo);
    out.append(".git");
    out
}

/// The address of a repository over SSH.
pub fn clone_ssh(host: &str, owner: &str, repo: &str) -> (out: String)
    ensures
        out@ == ssh_address(host@, owner@, repo@),
{
    let mut out: String = "git@".to_string();
    out.append(host);
    out.append(":");
    out.append(owner);
    out.append("/");
    out.append(repo);
    out.append(".git");
    out
}

/// The address of a thing under another.
pub fn under(base: &str, path: &str) -> (out: String)
    ensures
        out@ == base@ + path@,
{
    let mut out: String = base.to_string();
    out.append(path);
    out
}

/// The address of something of a repository: the address of the host's
/// interface, `/repos/`, the owner, the repository, and the thing.
pub open spec fn repo_address(
    base: Seq<char>,
    owner: Seq<char>,
    repo: Seq<char>,
    thing: Seq<char>,
) -> Seq<char> {
    base + "/repos/"@ + owner + "/"@ + repo + thing
}

/// The address of something of a repository.
pub fn repo_url(base: &str, owner: &str, repo: &str, thing: &str) -> (out: String)
    ensures
        out@ == repo_address(base@, owner@, repo@, thing@),
{
    let mut out: String = base.to_string();
    out.append("/repos/");
    out.append(owner);
    out.append("/");
    out.append(repo);
    out.append(thing);
    out
}

/// The value with which a token is sent.
pub fn token_header(token: &str) -> (out: String)
    ensures
        out@ == "token "@ + token@,
{
    under("token ", token)
}

} // verus!
