//! Paths with `/` between their components, as Git writes them.
//!
//! The parts of a path are those that `std::path::Path` finds on Unix: empty
//! components and `.` components behind the first are passed over, and `..`
//! is no file name. Paths are the same where their components are.

use vstd::prelude::*;

use crate::text::{chars_of, opt_view, same, string_of, views};

verus! {

/// The last position of a character, or -1.
pub open spec fn last_index(s: Seq<char>, c: char) -> int
    decreases s.len(),
{
    if s.len() == 0 {
        -1
    } else if s.last() == c {
        s.len() - 1
    } else {
        last_index(s.drop_last(), c)
    }
}

pub proof fn lemma_last_index(s: Seq<char>, c: char)
    ensures
        -1 <= last_index(s, c) < s.len(),
        last_index(s, c) >= 0 ==> s[last_index(s, c)] == c,
        forall|i: int| last_index(s, c) < i < s.len() ==> s[i] != c,
    decreases s.len(),
{
    if s.len() > 0 && s.last() != c {
        lemma_last_index(s.drop_last(), c);
        assert forall|i: int| last_index(s, c) < i < s.len() implies s[i] != c by {
            if i < s.len() - 1 {
                assert(s.drop_last()[i] == s[i]);
            }
        }
    }
}

/// A path without what follows its last component.
pub open spec fn body(p: Seq<char>) -> Seq<char>
    decreases p.len(),
{
    if p.len() > 0 && p.last() == '/' {
        body(p.drop_last())
    } else if p.len() > 1 && p.last() == '.' && p[p.len() - 2] == '/' {
        body(p.drop_last())
    } else {
        p
    }
}

/// The body of a path has nothing to take off, and does not end in `/`.
pub proof fn lemma_body(p: Seq<char>)
    ensures
        body(body(p)) == body(p),
        body(p).len() > 0 ==> body(p).last() != '/',
    decreases p.len(),
{
    if p.len() > 0 && (p.last() == '/' || (p.len() > 1 && p.last() == '.' && p[p.len() - 2]
        == '/')) {
        lemma_body(p.drop_last());
    }
}

/// Where the last component begins.
pub open spec fn last_start(p: Seq<char>) -> int {
    last_index(body(p), '/') + 1
}

/// The last component of a path. Empty for the root and for nothing.
pub open spec fn last_part(p: Seq<char>) -> Seq<char> {
    body(p).skip(last_start(p))
}

/// The file name of a path.
pub open spec fn file_name(p: Seq<char>) -> Option<Seq<char>> {
    let part = last_part(p);
    if part.len() == 0 || part == seq!['.'] || part == seq!['.', '.'] {
        None
    } else {
        Some(part)
    }
}

/// Where the extension of a file name begins, or -1: behind the last dot, but
/// for one at the front.
pub open spec fn extension_start(name: Seq<char>) -> int {
    if last_index(name, '.') > 0 {
        last_index(name, '.') + 1
    } else {
        -1
    }
}

/// The extension of a path's file name.
pub open spec fn extension(p: Seq<char>) -> Option<Seq<char>> {
    match file_name(p) {
        Some(name) => if extension_start(name) >= 0 {
            Some(name.skip(extension_start(name)))
        } else {
            None
        },
        None => None,
    }
}

/// A file name without its extension.
pub open spec fn stem(name: Seq<char>) -> Seq<char> {
    if extension_start(name) >= 0 {
        name.take(extension_start(name) - 1)
    } else {
        name
    }
}

/// The directory that a path lies in. Empty for a path of one component, for
/// the root and for nothing.
pub open spec fn directory(p: Seq<char>) -> Seq<char> {
    let head = body(p).take(last_start(p));
    if body(head).len() == 0 && head.len() > 0 {
        seq!['/']
    } else {
        body(head)
    }
}

/// A file name below a directory.
pub open spec fn joined(dir: Seq<char>, name: Seq<char>) -> Seq<char> {
    if dir.len() == 0 {
        name
    } else if dir.last() == '/' {
        dir + name
    } else {
        dir + seq!['/'] + name
    }
}

/// The last position of a character in `chars[..n]`, plus one; zero if there
/// is none.
fn find_last(chars: &Vec<char>, n: usize, c: char) -> (at: usize)
    requires
        n <= chars@.len(),
    ensures
        at == last_index(chars@.take(n as int), c) + 1,
        at <= n,
{
    let mut i: usize = n;
    while i > 0
        invariant
            i <= n <= chars@.len(),
            last_index(chars@.take(n as int), c) == last_index(chars@.take(i as int), c),
        decreases i,
    {
        proof {
            assert(chars@.take(i as int).drop_last() == chars@.take(i - 1));
        }
        if chars[i - 1] == c {
            return i;
        }
        i -= 1;
    }
    0
}

/// How long `body` of `chars[..n]` is.
fn body_len(chars: &Vec<char>, n: usize) -> (m: usize)
    requires
        n <= chars@.len(),
    ensures
        m <= n,
        chars@.take(m as int) == body(chars@.take(n as int)),
{
    let mut m: usize = n;
    while m > 0 && (chars[m - 1] == '/' || (m > 1 && chars[m - 1] == '.' && chars[m - 2] == '/'))
        invariant
            m <= n <= chars@.len(),
            body(chars@.take(m as int)) == body(chars@.take(n as int)),
        decreases m,
    {
        proof {
            assert(chars@.take(m as int).drop_last() == chars@.take(m - 1));
        }
        m -= 1;
    }
    m
}

/// The file name of a path.
pub fn file_name_of(path: &str) -> (out: Option<String>)
    ensures
        out is Some == file_name(path@) is Some,
        out matches Some(name) ==> name@ == file_name(path@)->0,
{
    let chars = chars_of(path);
    let m: usize = body_len(&chars, chars.len());
    let start: usize = find_last(&chars, m, '/');
    let ghost part = last_part(path@);
    proof {
        assert(chars@.take(chars@.len() as int) == path@);
        assert(chars@.take(m as int).skip(start as int) == chars@.subrange(start as int, m as int));
        assert(part.len() == m - start);
    }
    if start == m {
        return None;
    }
    if m - start == 1 && chars[start] == '.' {
        proof {
            assert(part =~= seq!['.']);
        }
        return None;
    }
    if m - start == 2 && chars[start] == '.' && chars[start + 1] == '.' {
        proof {
            assert(part =~= seq!['.', '.']);
        }
        return None;
    }
    proof {
        if part == seq!['.'] {
            assert(part[0] == chars@[start as int]);
        }
        if part == seq!['.', '.'] {
            assert(part[0] == chars@[start as int]);
            assert(part[1] == chars@[start + 1]);
        }
    }
    Some(string_of(&chars, start, m))
}

/// A file name, cut into its stem and its extension.
pub fn split_name(name: &str) -> (out: (String, Option<String>))
    ensures
        out.0@ == stem(name@),
        out.1 is Some == (extension_start(name@) >= 0),
        out.1 matches Some(ext) ==> ext@ == name@.skip(extension_start(name@)),
{
    let chars = chars_of(name);
    let at: usize = find_last(&chars, chars.len(), '.');
    proof {
        assert(chars@.take(chars@.len() as int) == name@);
    }
    if at > 1 {
        proof {
            assert(chars@.subrange(0, at - 1) == name@.take(at - 1));
            assert(chars@.subrange(at as int, chars@.len() as int) == name@.skip(at as int));
        }
        (string_of(&chars, 0, at - 1), Some(string_of(&chars, at, chars.len())))
    } else {
        (name.to_owned(), None)
    }
}

/// The extension of a path's file name.
pub fn extension_of(path: &str) -> (out: Option<String>)
    ensures
        out is Some == extension(path@) is Some,
        out matches Some(ext) ==> ext@ == extension(path@)->0,
{
    match file_name_of(path) {
        Some(name) => split_name(name.as_str()).1,
        None => None,
    }
}

/// The directory that a path lies in.
pub fn directory_of(path: &str) -> (out: String)
    ensures
        out@ == directory(path@),
{
    let chars = chars_of(path);
    let m: usize = body_len(&chars, chars.len());
    let start: usize = find_last(&chars, m, '/');
    let n: usize = body_len(&chars, start);
    proof {
        assert(chars@.take(chars@.len() as int) == path@);
        assert(chars@.take(m as int).take(start as int) == chars@.take(start as int));
        assert(chars@.subrange(0, n as int) == chars@.take(n as int));
    }
    if n == 0 && start > 0 {
        let mut out: String = String::new();
        out.push('/');
        proof {
            assert(out@ =~= seq!['/']);
        }
        out
    } else {
        string_of(&chars, 0, n)
    }
}

/// A file name below a directory.
pub fn join(dir: &str, name: &str) -> (out: String)
    ensures
        out@ == joined(dir@, name@),
{
    let chars = chars_of(dir);
    let mut out: String = dir.to_owned();
    if chars.len() > 0 && chars[chars.len() - 1] != '/' {
        out.push('/');
        proof {
            assert(dir@.push('/') == dir@ + seq!['/']);
        }
    }
    out.append(name);
    proof {
        if dir@.len() == 0 {
            assert(out@ == name@);
        }
    }
    out
}

/// A path with another extension. A path without a file name stays as it is.
pub open spec fn changed_extension(p: Seq<char>, ext: Seq<char>) -> Seq<char> {
    match file_name(p) {
        Some(name) => body(p).take(last_start(p)) + stem(name) + seq!['.'] + ext,
        None => p,
    }
}

/// A path with another extension.
pub fn with_extension(path: &str, ext: &str) -> (out: String)
    ensures
        out@ == changed_extension(path@, ext@),
{
    match file_name_of(path) {
        Some(name) => {
            let chars = chars_of(path);
            let m: usize = body_len(&chars, chars.len());
            let start: usize = find_last(&chars, m, '/');
            proof {
                assert(chars@.take(chars@.len() as int) == path@);
                assert(chars@.subrange(0, start as int) =~= body(path@).take(last_start(path@)));
            }
            let mut out = string_of(&chars, 0, start);
            out.append(split_name(name.as_str()).0.as_str());
            let ghost before = out@;
            out.push('.');
            proof {
                assert(out@ =~= before + seq!['.']);
            }
            out.append(ext);
            out
        },
        None => path.to_owned(),
    }
}

/// What stands before the last component of a path.
pub open spec fn head(p: Seq<char>) -> Seq<char> {
    body(p).take(last_start(p))
}

proof fn lemma_body_len(p: Seq<char>)
    ensures
        body(p).len() <= p.len(),
    decreases p.len(),
{
    if p.len() > 0 && (p.last() == '/' || (p.len() > 1 && p.last() == '.' && p[p.len() - 2]
        == '/')) {
        lemma_body_len(p.drop_last());
    }
}

/// A path is longer than what stands before its last component.
pub proof fn lemma_head(p: Seq<char>)
    requires
        last_part(p).len() > 0,
    ensures
        head(p).len() < p.len(),
{
    lemma_body_len(p);
    lemma_last_index(body(p), '/');
}

/// The components of a path. That of the root is `/`.
pub open spec fn components(p: Seq<char>) -> Seq<Seq<char>>
    decreases p.len(),
{
    if last_part(p).len() == 0 {
        if p.len() == 0 {
            Seq::empty()
        } else {
            seq![seq!['/']]
        }
    } else {
        proof {
            lemma_head(p);
        }
        components(head(p)).push(last_part(p))
    }
}

/// Components, written as a path.
pub open spec fn text_of(parts: Seq<Seq<char>>) -> Seq<char>
    decreases parts.len(),
{
    if parts.len() == 0 {
        Seq::empty()
    } else {
        joined(text_of(parts.drop_last()), parts.last())
    }
}

/// A path with nothing in it but its components.
pub open spec fn plain(p: Seq<char>) -> Seq<char> {
    text_of(components(p))
}

proof fn lemma_trailing_slash(p: Seq<char>)
    requires
        p.len() > 0,
    ensures
        components(p.push('/')) == components(p),
{
    assert(p.push('/').drop_last() =~= p);
    assert(body(p.push('/')) == body(p));
}

proof fn lemma_joined_parts(d: Seq<char>, part: Seq<char>)
    requires
        part.len() > 0,
        forall|i: int| 0 <= i < part.len() ==> part[i] != '/',
        part == seq!['.'] ==> d.len() == 0,
    ensures
        components(joined(d, part)) == components(d).push(part),
{
    let t = joined(d, part);
    let k = t.len() - part.len();
    assert forall|i: int| k <= i < t.len() implies t[i] != '/' by {
        assert(t[i] == part[i - k]);
    }
    assert(k > 0 ==> t[k - 1] == '/');
    if t.len() > 1 && t.last() == '.' && t[t.len() - 2] == '/' {
        assert(part =~= seq!['.']);
    }
    assert(body(t) == t);
    lemma_last_index(t, '/');
    assert(last_start(t) == k);
    assert(last_part(t) =~= part);
    if d.len() == 0 {
        assert(head(t) =~= d);
    } else if d.last() == '/' {
        assert(head(t) =~= d);
    } else {
        assert(head(t) =~= d.push('/'));
        lemma_trailing_slash(d);
    }
}

/// The last component of a path holds no `/`, and is `.` only where it is the
/// first.
proof fn lemma_last_part(p: Seq<char>)
    ensures
        forall|i: int| 0 <= i < last_part(p).len() ==> last_part(p)[i] != '/',
        last_part(p) == seq!['.'] ==> head(p).len() == 0,
{
    let b = body(p);
    lemma_body(p);
    lemma_last_index(b, '/');
    let part = last_part(p);
    assert forall|i: int| 0 <= i < part.len() implies part[i] != '/' by {
        assert(part[i] == b[last_start(p) + i]);
    }
    if part == seq!['.'] && last_start(p) > 0 {
        assert(part.len() == 1);
        assert(b.len() == last_start(p) + 1);
        assert(part[0] == b[last_start(p)]);
        assert(b.last() == '.');
        assert(b[b.len() - 2] == '/');
        lemma_body_len(b.drop_last());
        assert(false);
    }
}

proof fn lemma_plain(p: Seq<char>)
    ensures
        components(plain(p)) == components(p),
    decreases p.len(),
{
    if last_part(p).len() == 0 {
        if p.len() > 0 {
            let root = seq![seq!['/']];
            assert(root.drop_last() =~= Seq::empty());
            assert(text_of(root.drop_last()) =~= Seq::empty());
            assert(text_of(root) == joined(Seq::empty(), root.last()));
            assert(text_of(root) =~= seq!['/']);
            let text = seq!['/'];
            assert(text.drop_last() =~= Seq::empty());
            assert(body(text) =~= Seq::empty()) by {
                assert(body(text) == body(text.drop_last()));
            }
        }
    } else {
        let h = head(p);
        let part = last_part(p);
        lemma_head(p);
        lemma_plain(h);
        lemma_last_part(p);
        let cs = components(h);
        assert(cs.push(part).drop_last() =~= cs);
        assert(plain(p) == joined(plain(h), part));
        if h.len() == 0 {
            assert(plain(h).len() == 0);
        }
        lemma_joined_parts(plain(h), part);
    }
}

/// Paths are written the same way just where they have the same components.
pub proof fn law_same_components(a: Seq<char>, b: Seq<char>)
    ensures
        plain(a) == plain(b) <==> components(a) == components(b),
        plain(plain(a)) == plain(a),
{
    lemma_plain(a);
    lemma_plain(b);
}

/// The components of `chars[..n]`.
fn parts_before(chars: &Vec<char>, n: usize) -> (out: Vec<String>)
    requires
        n <= chars@.len(),
    ensures
        views(out@) == components(chars@.take(n as int)),
    decreases n,
{
    let m: usize = body_len(chars, n);
    let start: usize = find_last(chars, m, '/');
    let ghost p = chars@.take(n as int);
    proof {
        assert(last_part(p) == chars@.subrange(start as int, m as int));
        assert(head(p) == chars@.take(start as int));
    }
    if start == m {
        let mut out: Vec<String> = Vec::new();
        if n > 0 {
            let mut root: String = String::new();
            root.push('/');
            out.push(root);
            proof {
                assert(out@[0]@ =~= seq!['/']);
            }
        }
        proof {
            assert(views(out@) =~= components(p));
        }
        return out;
    }
    let mut out = parts_before(chars, start);
    let ghost before = out@;
    let part = string_of(chars, start, m);
    out.push(part);
    proof {
        assert(views(out@) =~= views(before).push(part@));
    }
    out
}

/// The components of a path.
pub fn components_of(path: &str) -> (out: Vec<String>)
    ensures
        views(out@) == components(path@),
{
    let chars = chars_of(path);
    proof {
        assert(chars@.take(chars@.len() as int) == path@);
    }
    parts_before(&chars, chars.len())
}

/// A path with nothing in it but its components.
pub fn plain_of(path: &str) -> (out: String)
    ensures
        out@ == plain(path@),
{
    let parts = components_of(path);
    let ghost all = views(parts@);
    let mut out: String = String::new();
    let mut i: usize = 0;
    while i < parts.len()
        invariant
            i <= parts@.len(),
            all == views(parts@),
            out@ == text_of(all.take(i as int)),
        decreases parts.len() - i,
    {
        proof {
            assert(all.take(i + 1).drop_last() == all.take(i as int));
            assert(all.take(i + 1).last() == parts@[i as int]@);
        }
        out = join(out.as_str(), parts[i].as_str());
        i += 1;
    }
    proof {
        assert(all.take(all.len() as int) == all);
    }
    out
}

/// Whether two paths are the same.
pub fn same_path(a: &str, b: &str) -> (r: bool)
    ensures
        r == (plain(a@) == plain(b@)),
{
    same(plain_of(a).as_str(), plain_of(b).as_str())
}

/// A path, where there is one, with nothing in it but its components.
pub open spec fn opt_plain(p: Option<Seq<char>>) -> Option<Seq<char>> {
    match p {
        Some(path) => Some(plain(path)),
        None => None,
    }
}

/// Whether a path is the one that may be there.
pub fn is_path(p: &Option<String>, path: &str) -> (r: bool)
    ensures
        r == (opt_plain(opt_view(*p)) == Some(plain(path@))),
{
    match p {
        Some(a) => same_path(a.as_str(), path),
        None => false,
    }
}

/// Paths with nothing in them but their components.
pub open spec fn plains(paths: Seq<Seq<char>>) -> Seq<Seq<char>> {
    paths.map_values(|p: Seq<char>| plain(p))
}

} // verus!
