//! The order of paths: by their components, one after the other.
//!
//! The root goes before `.`, this before `..`, and this before every name;
//! names go by their characters. A path goes before those that lie below it.

use vstd::prelude::*;

use crate::paths::{components, components_of};
use crate::text::{chars_of, views};
use crate::ui::file_groups::{lemma_less_irreflexive, lemma_less_total, less};

verus! {

/// Where a component stands, by what it is.
pub open spec fn rank(c: Seq<char>) -> int {
    if c == seq!['/'] {
        0
    } else if c == seq!['.'] {
        1
    } else if c == seq!['.', '.'] {
        2
    } else {
        3
    }
}

/// Whether a component goes before another.
pub open spec fn goes_first(a: Seq<char>, b: Seq<char>) -> bool {
    rank(a) < rank(b) || (rank(a) == 3 && rank(b) == 3 && less(a, b))
}

/// Whether a path goes before another, by their components.
pub open spec fn is_before(a: Seq<Seq<char>>, b: Seq<Seq<char>>) -> bool
    decreases a.len(),
{
    if b.len() == 0 {
        false
    } else if a.len() == 0 {
        true
    } else if a[0] == b[0] {
        is_before(a.drop_first(), b.drop_first())
    } else {
        goes_first(a[0], b[0])
    }
}

/// A name, spelled so that its end goes before every character.
pub open spec fn spelled(name: Seq<char>) -> Seq<char>
    decreases name.len(),
{
    if name.len() == 0 {
        seq!['\0']
    } else {
        seq!['\u{1}', name[0]] + spelled(name.drop_first())
    }
}

/// A component, written so that texts are ordered as components are.
pub open spec fn code(c: Seq<char>) -> Seq<char> {
    if rank(c) == 0 {
        seq!['\0']
    } else if rank(c) == 1 {
        seq!['\u{1}']
    } else if rank(c) == 2 {
        seq!['\u{2}']
    } else {
        seq!['\u{3}'] + spelled(c)
    }
}

/// Components, written so that texts are ordered as paths are.
pub open spec fn order_key(parts: Seq<Seq<char>>) -> Seq<char>
    decreases parts.len(),
{
    if parts.len() == 0 {
        Seq::empty()
    } else {
        code(parts[0]) + order_key(parts.drop_first())
    }
}

proof fn lemma_spelled(x: Seq<char>, y: Seq<char>, u: Seq<char>, v: Seq<char>)
    ensures
        less(spelled(x) + u, spelled(y) + v) == (less(x, y) || (x == y && less(u, v))),
    decreases x.len(),
{
    let a = spelled(x) + u;
    let b = spelled(y) + v;
    if x.len() == 0 && y.len() == 0 {
        assert(x =~= y);
        assert(a.drop_first() =~= u);
        assert(b.drop_first() =~= v);
    } else if x.len() > 0 && y.len() > 0 {
        let xs = x.drop_first();
        let ys = y.drop_first();
        lemma_spelled(xs, ys, u, v);
        assert(a.drop_first().drop_first() =~= spelled(xs) + u);
        assert(b.drop_first().drop_first() =~= spelled(ys) + v);
        assert(a[0] == b[0]);
        assert(a.drop_first()[0] == x[0]);
        assert(b.drop_first()[0] == y[0]);
        assert(less(a, b) == less(a.drop_first(), b.drop_first()));
        if x[0] == y[0] && xs == ys {
            assert(x =~= seq![x[0]] + xs);
            assert(y =~= seq![y[0]] + ys);
        }
    } else {
        assert(a[0] != b[0]);
    }
}

proof fn lemma_code_order(a: Seq<char>, b: Seq<char>, u: Seq<char>, v: Seq<char>)
    ensures
        less(code(a) + u, code(b) + v) == (if a == b {
            less(u, v)
        } else {
            goes_first(a, b)
        }),
{
    let x = code(a) + u;
    let y = code(b) + v;
    if rank(a) != rank(b) {
        assert(x[0] != y[0]);
    } else if rank(a) < 3 {
        assert(a == b);
        assert(x.drop_first() =~= u);
        assert(y.drop_first() =~= v);
    } else {
        assert(x.drop_first() =~= spelled(a) + u);
        assert(y.drop_first() =~= spelled(b) + v);
        lemma_spelled(a, b, u, v);
        lemma_less_irreflexive(a);
    }
}

/// The texts of components are ordered as their paths are.
pub proof fn law_keys_are_ordered(a: Seq<Seq<char>>, b: Seq<Seq<char>>)
    ensures
        less(order_key(a), order_key(b)) == is_before(a, b),
    decreases a.len(),
{
    if a.len() > 0 && b.len() > 0 {
        law_keys_are_ordered(a.drop_first(), b.drop_first());
        lemma_code_order(a[0], b[0], order_key(a.drop_first()), order_key(b.drop_first()));
    }
}

/// Of two different paths one goes before the other.
pub proof fn law_paths_are_ordered(a: Seq<Seq<char>>, b: Seq<Seq<char>>)
    ensures
        is_before(a, b) || a == b || is_before(b, a),
        !(is_before(a, b) && a == b),
    decreases a.len(),
{
    if a.len() > 0 && b.len() > 0 {
        if a[0] == b[0] {
            law_paths_are_ordered(a.drop_first(), b.drop_first());
            if a.drop_first() == b.drop_first() {
                assert(a =~= seq![a[0]] + a.drop_first());
                assert(b =~= seq![b[0]] + b.drop_first());
            }
        } else {
            lemma_less_total(a[0], b[0]);
        }
    } else if a.len() == 0 && b.len() == 0 {
        assert(a =~= b);
    }
}

/// Components have the same text just where they are the same.
pub proof fn law_keys_are_distinct(a: Seq<Seq<char>>, b: Seq<Seq<char>>)
    ensures
        order_key(a) == order_key(b) <==> a == b,
{
    if order_key(a) == order_key(b) {
        lemma_less_irreflexive(order_key(a));
        law_keys_are_ordered(a, b);
        law_keys_are_ordered(b, a);
        law_paths_are_ordered(a, b);
    }
}

fn code_of(c: &str) -> (out: String)
    ensures
        out@ == code(c@),
{
    let chars = chars_of(c);
    let n: usize = chars.len();
    let mut out: String = String::new();
    if n == 1 && chars[0] == '/' {
        proof {
            assert(c@ =~= seq!['/']);
        }
        out.push('\0');
        proof {
            assert(out@ =~= code(c@));
        }
        return out;
    }
    if n == 1 && chars[0] == '.' {
        proof {
            assert(c@ =~= seq!['.']);
            assert(c@[0] != seq!['/'][0]);
        }
        out.push('\u{1}');
        proof {
            assert(out@ =~= code(c@));
        }
        return out;
    }
    if n == 2 && chars[0] == '.' && chars[1] == '.' {
        proof {
            assert(c@ =~= seq!['.', '.']);
        }
        out.push('\u{2}');
        proof {
            assert(out@ =~= code(c@));
        }
        return out;
    }
    proof {
        if c@ == seq!['/'] || c@ == seq!['.'] {
            assert(c@.len() == 1);
            assert(chars@[0] == c@[0]);
        }
        if c@ == seq!['.', '.'] {
            assert(c@.len() == 2);
            assert(chars@[0] == c@[0]);
            assert(chars@[1] == c@[1]);
        }
    }
    out.push('\u{3}');
    proof {
        assert(c@.skip(0) =~= c@);
        assert(out@ + spelled(c@.skip(0)) =~= code(c@));
    }
    let mut i: usize = 0;
    while i < n
        invariant
            i <= n == chars@.len(),
            chars@ == c@,
            out@ + spelled(c@.skip(i as int)) == code(c@),
        decreases n - i,
    {
        let ghost before = out@;
        out.push('\u{1}');
        out.push(chars[i]);
        proof {
            let rest = c@.skip(i as int);
            assert(rest.drop_first() =~= c@.skip(i + 1));
            assert(out@ + spelled(c@.skip(i + 1)) =~= before + spelled(rest));
        }
        i += 1;
    }
    let ghost before = out@;
    out.push('\0');
    proof {
        assert(c@.skip(n as int).len() == 0);
        assert(out@ =~= before + spelled(c@.skip(n as int)));
    }
    out
}

/// The text by which a path is ordered.
pub fn order_key_of(path: &str) -> (out: String)
    ensures
        out@ == order_key(components(path@)),
{
    let parts = components_of(path);
    let ghost all = views(parts@);
    let mut out: String = String::new();
    let mut i: usize = 0;
    proof {
        assert(all.skip(0) =~= all);
        assert(out@ + order_key(all) =~= order_key(all));
    }
    while i < parts.len()
        invariant
            i <= parts@.len(),
            all == views(parts@),
            out@ + order_key(all.skip(i as int)) == order_key(all),
        decreases parts.len() - i,
    {
        let ghost before = out@;
        let text = code_of(parts[i].as_str());
        out.append(text.as_str());
        proof {
            let rest = all.skip(i as int);
            assert(rest[0] == parts@[i as int]@);
            assert(rest.drop_first() =~= all.skip(i + 1));
            assert(out@ + order_key(all.skip(i + 1)) =~= before + order_key(rest));
        }
        i += 1;
    }
    proof {
        assert(all.skip(all.len() as int).len() == 0);
        assert(out@ + order_key(all.skip(all.len() as int)) =~= out@);
    }
    out
}

} // verus!
