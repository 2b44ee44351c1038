//! What the building blocks of texts do, over all texts.

use vstd::prelude::*;

use crate::text::{
    digit, digits, double_step, first_chars, half_even, is_blank, is_space, lower_ascii, padded,
    repeated, separated, size_text, to_double, trim, trim_end, trim_start,
};

verus! {

/// The number that a text of decimal digits stands for.
pub open spec fn number(s: Seq<char>) -> int
    decreases s.len(),
{
    if s.len() == 0 {
        0
    } else {
        10 * number(s.drop_last()) + (s.last() as int - '0' as int)
    }
}

/// A number in decimal reads as that number. It is made of digits alone, and
/// begins with a zero only where it is zero.
pub proof fn law_decimals_are_read_back(n: nat)
    ensures
        number(digits(n)) == n,
        digits(n).len() > 0,
        forall|i: int| 0 <= i < digits(n).len() ==> '0' <= #[trigger] digits(n)[i] <= '9',
        n > 0 ==> digits(n)[0] != '0',
    decreases n,
{
    if n < 10 {
        assert(digits(n).drop_last() =~= Seq::empty());
        assert(digits(n)[0] == digit(n));
        assert(number(digits(n).drop_last()) == 0);
    } else {
        law_decimals_are_read_back(n / 10);
        let head = digits(n / 10);
        assert(digits(n).drop_last() =~= head);
        assert forall|i: int| 0 <= i < digits(n).len() implies '0' <= #[trigger] digits(n)[i]
            <= '9' by {
            if i < head.len() {
                assert(digits(n)[i] == head[i]);
            }
        }
        assert(digits(n)[0] == head[0]);
    }
}

proof fn lemma_trim_start(s: Seq<char>) -> (a: int)
    ensures
        0 <= a <= s.len(),
        trim_start(s) == s.skip(a),
        forall|i: int| 0 <= i < a ==> is_space(#[trigger] s[i]),
        a < s.len() ==> !is_space(s[a]),
    decreases s.len(),
{
    if s.len() > 0 && is_space(s[0]) {
        let rest = s.drop_first();
        let b = lemma_trim_start(rest);
        assert(rest.skip(b) =~= s.skip(b + 1));
        assert forall|i: int| 0 <= i < b + 1 implies is_space(#[trigger] s[i]) by {
            if i > 0 {
                assert(rest[i - 1] == s[i]);
            }
        }
        if b < rest.len() {
            assert(rest[b] == s[b + 1]);
        }
        b + 1
    } else {
        assert(s.skip(0) =~= s);
        0
    }
}

proof fn lemma_trim_end(s: Seq<char>) -> (b: int)
    ensures
        0 <= b <= s.len(),
        trim_end(s) == s.take(b),
        forall|i: int| b <= i < s.len() ==> is_space(#[trigger] s[i]),
        b > 0 ==> !is_space(s[b - 1]),
    decreases s.len(),
{
    if s.len() > 0 && is_space(s.last()) {
        let init = s.drop_last();
        let b = lemma_trim_end(init);
        assert(init.take(b) =~= s.take(b));
        assert forall|i: int| b <= i < s.len() implies is_space(#[trigger] s[i]) by {
            if i < init.len() {
                assert(init[i] == s[i]);
            }
        }
        b
    } else {
        assert(s.take(s.len() as int) =~= s);
        s.len() as int
    }
}

/// Whether a text is another without the white space around it: nothing but
/// white space is taken off, and none is left at the ends.
pub open spec fn is_trimmed(text: Seq<char>, s: Seq<char>, a: int, b: int) -> bool {
    &&& 0 <= a <= b <= s.len()
    &&& text == s.subrange(a, b)
    &&& forall|i: int| 0 <= i < a || b <= i < s.len() ==> is_space(#[trigger] s[i])
    &&& a < b ==> !is_space(s[a]) && !is_space(s[b - 1])
}

/// Trimming takes off the white space around a text, and nothing else. A text
/// is blank just where it holds nothing but white space.
pub proof fn law_trimming(s: Seq<char>)
    ensures
        exists|a: int, b: int| is_trimmed(trim(s), s, a, b),
        is_blank(s) <==> forall|i: int| 0 <= i < s.len() ==> is_space(#[trigger] s[i]),
{
    let a = lemma_trim_start(s);
    let rest = s.skip(a);
    let n = lemma_trim_end(rest);
    let b = a + n;
    assert(rest.take(n) =~= s.subrange(a, b));
    assert forall|i: int| 0 <= i < a || b <= i < s.len() implies is_space(#[trigger] s[i]) by {
        if i >= b {
            assert(rest[i - a] == s[i]);
        }
    }
    if a < b {
        assert(rest[n - 1] == s[b - 1]);
        assert(s[a] == rest[0]);
    }
    assert(is_trimmed(trim(s), s, a, b));
}

/// Blanks, tabs and line ends are white space; letters and digits are not.
pub proof fn law_white_space(c: char)
    ensures
        c == ' ' || c == '\t' || c == '\n' || c == '\r' ==> is_space(c),
        'a' <= c <= 'z' || 'A' <= c <= 'Z' || '0' <= c <= '9' || c == '-' || c == '/' || c == '.'
            ==> !is_space(c),
{
}

/// Making a text small changes its capitals and nothing else, and a second
/// time nothing at all.
pub proof fn law_small_letters(s: Seq<char>, i: int)
    requires
        0 <= i < s.len(),
    ensures
        lower_ascii(s).len() == s.len(),
        'A' <= s[i] <= 'Z' ==> lower_ascii(s)[i] as int - 'a' as int == s[i] as int - 'A' as int,
        !('A' <= s[i] <= 'Z') ==> lower_ascii(s)[i] == s[i],
        !('A' <= lower_ascii(s)[i] <= 'Z'),
{
}

/// A text is filled up in front to a width, and never cut.
pub proof fn law_padding(s: Seq<char>, fill: char, width: nat)
    ensures
        s.len() >= width ==> padded(s, fill, width) == s,
        s.len() < width ==> padded(s, fill, width).len() == width,
        ({
            let n = padded(s, fill, width).len() - s.len();
            &&& n >= 0
            &&& padded(s, fill, width).skip(n) == s
            &&& forall|i: int| 0 <= i < n ==> #[trigger] padded(s, fill, width)[i] == fill
        }),
{
    let n = padded(s, fill, width).len() - s.len();
    assert(padded(s, fill, width).skip(n) =~= s);
    if n > 0 {
        assert forall|i: int| 0 <= i < n implies #[trigger] padded(s, fill, width)[i] == fill by {
            assert(padded(s, fill, width)[i] == repeated(fill, n as nat)[i]);
        }
    }
}

/// Small sizes are told in bytes and larger ones in whole kilobytes, and from
/// a megabyte on in megabytes.
pub proof fn law_sizes(n: nat, k: nat)
    ensures
        n < 1024 ==> size_text(n) == digits(n) + " B"@,
        1024 <= n < 1024 * 1024 && k * 1024 <= n < (k + 1) * 1024 ==> size_text(n) == digits(k)
            + " KB"@,
        n >= 1024 * 1024 ==> size_text(n).skip(size_text(n).len() - 3) == " MB"@,
{
    if n >= 1024 * 1024 {
        reveal_strlit(" MB");
        assert(size_text(n).skip(size_text(n).len() - 3) =~= " MB"@);
    }
}

/// Cutting a text keeps its beginning, and all of it where it is short.
pub proof fn law_first_characters(s: Seq<char>, n: nat)
    ensures
        first_chars(s, n).len() <= n,
        s.len() <= n ==> first_chars(s, n) == s,
        s.len() > n ==> first_chars(s, n).len() == n,
        s.take(first_chars(s, n).len() as int) == first_chars(s, n),
{
    if s.len() <= n {
        assert(s.take(s.len() as int) =~= s);
    }
}

/// A size that a double cannot hold is rounded to the nearest one that it can,
/// and a smaller one is exact.
pub proof fn law_sizes_as_doubles(n: nat)
    ensures
        n < 0x20_0000_0000_0000 ==> to_double(n) == n,
        0x20_0000_0000_0000 <= n < 0x40_0000_0000_0000 && n % 2 == 0 ==> to_double(n) == n,
        0x20_0000_0000_0000 <= n < 0x40_0000_0000_0000 && n % 4 == 1 ==> to_double(n) == n - 1,
        0x20_0000_0000_0000 <= n < 0x40_0000_0000_0000 && n % 4 == 3 ==> to_double(n) == n + 1,
{
    if n < 0x20_0000_0000_0000 {
        assert(double_step(n) == 1);
        assert(half_even(n, 1) == n);
    } else if n < 0x40_0000_0000_0000 {
        assert(n / 2 < 0x20_0000_0000_0000);
        assert(double_step(n / 2) == 1);
        assert(double_step(n) == 2);
        let h = half_even(n, 2);
        assert(to_double(n) == h * double_step(n));
        assert(h * double_step(n) == h + h) by (nonlinear_arith)
            requires
                double_step(n) == 2,
        ;
        assert(n % 2 == 0 ==> h == n / 2);
        assert(n % 4 == 1 ==> (n / 2) % 2 == 0 && h == n / 2);
        assert(n % 4 == 3 ==> (n / 2) % 2 == 1 && h == n / 2 + 1);
    }
}

/// Joined texts stand one behind the other, the separator between any two of
/// them and nowhere else.
pub proof fn law_joined_texts(a: Seq<Seq<char>>, b: Seq<Seq<char>>, sep: Seq<char>, text: Seq<char>)
    requires
        a.len() > 0,
        b.len() > 0,
    ensures
        separated(a + b, sep) == separated(a, sep) + sep + separated(b, sep),
        separated(seq![text], sep) == text,
        separated(Seq::empty(), sep).len() == 0,
    decreases b.len(),
{
    assert((a + b).drop_last() =~= a + b.drop_last());
    assert((a + b).last() == b.last());
    if b.len() == 1 {
        assert(a + b.drop_last() =~= a);
        assert(separated(a + b, sep) =~= separated(a, sep) + sep + separated(b, sep));
    } else {
        law_joined_texts(a, b.drop_last(), sep, text);
        assert(separated(a + b, sep) =~= separated(a, sep) + sep + separated(b, sep));
    }
}

} // verus!
